# r30rg

Deterministic chaos and adversarial testing for Arbitrum rollup stacks: same
seed, same chaos, reproducible bugs.

The library in `src/` is written in Verus and proved against its contracts:

- `prng`: the seeded ChaCha20 generator every decision is drawn from.
- `time`, `network`, `simulator`: the time-compressed simulation of L1, L2
  (sequencer, batch poster, validator) and L3, with bridge messages,
  retryable tickets, network faults and invariant checks; `run_campaign`
  runs many seeds.
- `chaos`: chaos profiles and the seeded fault generator.
- `types`, `invariants`, `scenario`, `text`: findings, outcomes, fault
  targets, 256-bit amounts and addresses, and the context a scenario fills.
- `scenarios`: the live scenarios. Each one turns what it observed on a
  running stack into the verdicts of its checks.
- `cli`, `live`: what the command line and the Docker and RPC clients decide
  (stack configuration, scenario selection, run tallies, container lookup,
  layer routing).

`app/` is the command-line program around it: argument parsing, the async
runtime, the Docker and RPC clients, and the output. `tests/` exercises the
library.
