//! The deterministic rollup simulator.
//!
//! Same seed, same fault injection, same invariant checks: every run is
//! reproducible. Models L1, L2 (sequencer, batch poster, validator) and L3
//! with cross-layer bridge messages and retryable tickets.
use vstd::prelude::*;
use crate::prng::{DeterministicRng, RngState};
use crate::network::{cut_links, NodeId, NetworkStats, NetState, NetworkConfig, SimulatedNetwork};
use crate::time::{ClockState, SimulatedClock};
use crate::text::{decimal, u64_text, usize_text};
use vstd::string::*;

verus! {

/// Chance threshold of 0.1% (`floor(0.001 * 2^64)`).
pub const P_0_1_PERCENT: u64 = 18446744073709552;
/// Chance threshold of 0.05%.
pub const P_0_05_PERCENT: u64 = 9223372036854776;
/// Chance threshold of 0.5%.
pub const P_0_5_PERCENT: u64 = 92233720368547760;
/// Chance threshold of 1%.
pub const P_1_PERCENT: u64 = 184467440737095520;
/// Chance threshold of 2%.
pub const P_2_PERCENT: u64 = 368934881474191040;
/// Chance threshold of 10%.
pub const P_10_PERCENT: u64 = 1844674407370955264;
/// Chance threshold of 20%.
pub const P_20_PERCENT: u64 = 3689348814741910528;
/// Chance threshold of 30%.
pub const P_30_PERCENT: u64 = 5534023222112865280;

/// What a simulation run reports.
pub struct SimResultView {
    pub seed: u64,
    pub ticks: u64,
    pub violations: Seq<ViolationView>,
    pub network_stats: NetworkStats,
}

/// The report of a simulator in state `s`.
pub open spec fn result_view(s: SimState) -> SimResultView {
    SimResultView {
        seed: s.seed,
        ticks: s.ticks_run,
        violations: s.violations,
        network_stats: s.network.stats(),
    }
}

/// The state after running a fresh simulator for `seed` for `ticks` ticks.
pub open spec fn simulate(seed: u64, ticks: u64) -> SimState {
    run_spec(initial_state(seed), ticks as nat)
}

/// What a campaign reports.
pub struct CampaignView {
    pub seeds_run: u64,
    pub seeds_passed: u64,
    pub seeds_failed: u64,
    pub total_ticks: u64,
    pub violations: Seq<ViolationView>,
}

/// At most the first 10 items of `v`.
pub open spec fn first_ten(v: Seq<ViolationView>) -> Seq<ViolationView> {
    if v.len() <= 10 {
        v
    } else {
        v.take(10)
    }
}

/// The report of a campaign over the seeds `start .. start + n`.
pub open spec fn campaign_spec(n: nat, ticks: u64, start: u64) -> CampaignView
    decreases n,
{
    if n == 0 {
        CampaignView {
            seeds_run: 0,
            seeds_passed: 0,
            seeds_failed: 0,
            total_ticks: 0,
            violations: Seq::empty(),
        }
    } else {
        let c = campaign_spec((n - 1) as nat, ticks, start);
        let s = simulate((start + n - 1) as u64, ticks);
        if s.violations.len() == 0 {
            CampaignView {
                seeds_run: (c.seeds_run + 1) as u64,
                seeds_passed: (c.seeds_passed + 1) as u64,
                total_ticks: (c.total_ticks + s.ticks_run) as u64,
                ..c
            }
        } else {
            CampaignView {
                seeds_run: (c.seeds_run + 1) as u64,
                seeds_failed: (c.seeds_failed + 1) as u64,
                total_ticks: (c.total_ticks + s.ticks_run) as u64,
                violations: c.violations + first_ten(s.violations),
                ..c
            }
        }
    }
}

/// Running `n` ticks advances the tick counter by `n`.
pub proof fn lemma_run_ticks(s: SimState, n: nat)
    requires
        s.ticks_run + n <= u64::MAX,
    ensures
        run_spec(s, n).ticks_run == s.ticks_run + n,
    decreases n,
{
    if n > 0 {
        lemma_run_ticks(s, (n - 1) as nat);
        lemma_step_frame(run_spec(s, (n - 1) as nat));
    }
}

proof fn lemma_process_due_frame(s: SimState)
    ensures
        process_due_events(s) == (SimState {
            clock: process_due_events(s).clock,
            nodes: process_due_events(s).nodes,
            network: process_due_events(s).network,
            ..s
        }),
    decreases s.clock.events.len(),
{
    if let Some(ev) = s.clock.due_event() {
        let s1 = SimState { clock: s.clock.after_due_event(), ..s };
        let s2 = if ev.id < 1000 {
            if ev.id < s.nodes.len() {
                SimState {
                    nodes: s1.nodes.update(ev.id as int, SimNode { alive: true, ..s1.nodes[ev.id as int] }),
                    ..s1
                }
            } else {
                s1
            }
        } else {
            SimState { network: NetState { partitions: Set::empty(), ..s1.network }, ..s1 }
        };
        lemma_process_due_frame(s2);
    }
}

proof fn lemma_zero_gas_frame(s: SimState, nodes: Seq<SimNode>, tick: u64, k: nat)
    ensures
        check_zero_gas(s, nodes, tick, k) == (SimState {
            seen: check_zero_gas(s, nodes, tick, k).seen,
            violations: check_zero_gas(s, nodes, tick, k).violations,
            ..s
        }),
    decreases k,
{
    if k > 0 {
        lemma_zero_gas_frame(s, nodes, tick, (k - 1) as nat);
    }
}

/// What a phase of a tick keeps: the seed and the tick counter.
pub open spec fn same_run(a: SimState, b: SimState) -> bool {
    a.seed == b.seed && a.ticks_run == b.ticks_run
}

proof fn lemma_spawn_frame(s: SimState, tick: u64)
    ensures
        same_run(spawn_bridge_messages(s, tick), s),
{
    assert(same_run(spawn_deposit(s, tick), s));
    assert(same_run(spawn_withdrawal(spawn_deposit(s, tick), tick), s));
}

proof fn lemma_faults_frame(s: SimState)
    ensures
        same_run(inject_faults(s), s),
{
    assert(same_run(crash_fault(s), s));
    assert(same_run(partition_fault(crash_fault(s)), s));
    lemma_process_due_frame(partition_fault(crash_fault(s)));
}

proof fn lemma_checks_frame(s: SimState)
    ensures
        same_run(check_invariants(s), s),
{
    let s1 = check_liveness(s);
    assert(same_run(s1, s));
    lemma_zero_gas_frame(s1, s.nodes, s.clock.tick, 5);
    let s2 = check_zero_gas(s1, s.nodes, s.clock.tick, 5);
    assert(same_run(check_stuck(s2), s));
}

proof fn lemma_step_frame(s: SimState)
    ensures
        sim_step(s).ticks_run == (s.ticks_run + 1) as u64,
        sim_step(s).seed == s.seed,
{
    let tick = (s.clock.tick + 1) as u64;
    let s1 = SimState { clock: ClockState { tick, ..s.clock }, ticks_run: (s.ticks_run + 1) as u64, ..s };
    let (ns, r) = tick_nodes(s1.nodes, s1.rng, 5);
    let s2 = SimState { nodes: propagate_pending(ns), rng: r, ..s1 };
    let s3 = spawn_bridge_messages(s2, tick);
    lemma_spawn_frame(s2, tick);
    let s4 = deliver_bridge(s3, tick);
    let s5 = redeem_retryables(s4, tick);
    assert(same_run(s5, s2));
    let s6 = inject_faults(s5);
    lemma_faults_frame(s5);
    let s7 = check_invariants(s6);
    lemma_checks_frame(s6);
    reveal(sim_step);
    assert(sim_step(s) == (SimState { network: s7.network.after_deliver(tick), ..s7 }));
}

/// A simplified rollup component.
#[derive(Clone, Copy, Debug, PartialEq, Eq, Hash, Structural)]
pub enum NodeRole {
    L1,
    Sequencer,
    BatchPoster,
    Validator,
    L3Sequencer,
}

/// A cross-layer message.
#[derive(Clone, Copy, Debug, PartialEq, Eq, Structural)]
pub struct BridgeMessage {
    pub from_layer: u8,
    pub to_layer: u8,
    pub value: u64,
    pub created_tick: u64,
    pub deliver_tick: u64,
    pub is_retryable: bool,
    pub redeemed: bool,
}

/// Simulated node state.
#[derive(Clone, Copy, Debug, PartialEq, Eq, Structural)]
pub struct SimNode {
    pub id: NodeId,
    pub role: NodeRole,
    pub alive: bool,
    pub block_height: u64,
    pub last_batch_posted: u64,
    pub last_assertion: u64,
    pub pending_txs: u64,
    pub gas_price: u64,
    pub balance: u64,
    pub total_deposited: u64,
    pub total_withdrawn: u64,
}

/// The starting balance of each role.
pub open spec fn initial_balance(role: NodeRole) -> u64 {
    match role {
        NodeRole::L1 => 1_000_000_000,
        NodeRole::Sequencer => 100_000_000,
        NodeRole::L3Sequencer => 10_000_000,
        _ => 50_000_000,
    }
}

/// A fresh node of `role`.
pub open spec fn fresh_node(id: NodeId, role: NodeRole) -> SimNode {
    SimNode {
        id,
        role,
        alive: true,
        block_height: 0,
        last_batch_posted: 0,
        last_assertion: 0,
        pending_txs: 0,
        gas_price: 1_000,
        balance: initial_balance(role),
        total_deposited: 0,
        total_withdrawn: 0,
    }
}

/// `x - y`, or 0 when `y > x`.
pub open spec fn saturating_sub(x: u64, y: u64) -> u64 {
    if y > x {
        0
    } else {
        (x - y) as u64
    }
}

/// `max(gas + draw - shift, floor)`: a gas price moved by a draw in `[0, 2 * shift]`.
pub open spec fn jitter(gas: u64, draw: u64, shift: u64, floor: u64) -> u64 {
    if gas + draw - shift >= floor {
        (gas + draw - shift) as u64
    } else {
        floor
    }
}

/// The arithmetic of one tick of `n` fits its integer types, whatever the
/// draws: a crashed node does nothing; an alive one moves its height up by
/// one, and only the fields of its own role: gas prices moved as signed
/// 64-bit values by up to 100 (L1), 25 (sequencer) or 10 (L3 sequencer),
/// up to 20 or 5 new pending transactions, a batch that costs 10 per
/// pending transaction.
pub open spec fn node_fits(n: SimNode) -> bool {
    n.alive ==> {
        &&& n.block_height < u64::MAX
        &&& match n.role {
            NodeRole::L1 => n.gas_price + 100 <= i64::MAX,
            NodeRole::Sequencer => n.pending_txs + 20 <= u64::MAX && n.gas_price + 25 <= i64::MAX,
            NodeRole::BatchPoster => n.pending_txs * 10 <= u64::MAX,
            NodeRole::Validator => true,
            NodeRole::L3Sequencer => n.pending_txs + 5 <= u64::MAX && n.gas_price + 10
                <= i64::MAX,
        }
    }
}

/// How many draws one tick of `n` makes: none for a crashed node, two for the
/// sequencers (transactions and gas), one for the others.
pub open spec fn node_draws(n: SimNode) -> nat {
    if !n.alive {
        0
    } else {
        match n.role {
            NodeRole::Sequencer => 2,
            NodeRole::L3Sequencer => 2,
            _ => 1,
        }
    }
}

/// One tick of a node with generator `r`: the node after and the generator after.
pub open spec fn node_tick(n: SimNode, r: RngState) -> (SimNode, RngState) {
    if !n.alive {
        (n, r)
    } else {
        match n.role {
            NodeRole::L1 => {
                let (r1, d) = r.range(0, 200);
                (SimNode {
                    block_height: (n.block_height + 1) as u64,
                    gas_price: jitter(n.gas_price, d, 100, 100),
                    ..n
                }, r1)
            },
            NodeRole::Sequencer => {
                let (r1, txs) = r.range(0, 20);
                let (r2, d) = r1.range(0, 50);
                (SimNode {
                    block_height: (n.block_height + 1) as u64,
                    pending_txs: (n.pending_txs + txs) as u64,
                    gas_price: jitter(n.gas_price, d, 25, 10),
                    ..n
                }, r2)
            },
            NodeRole::BatchPoster => {
                let (r1, post) = r.chance(P_10_PERCENT);
                if post && n.pending_txs > 0 {
                    (SimNode {
                        last_batch_posted: n.block_height,
                        balance: saturating_sub(n.balance, (n.pending_txs * 10) as u64),
                        pending_txs: 0,
                        block_height: (n.block_height + 1) as u64,
                        ..n
                    }, r1)
                } else {
                    (SimNode { block_height: (n.block_height + 1) as u64, ..n }, r1)
                }
            },
            NodeRole::Validator => {
                let (r1, assert_now) = r.chance(P_2_PERCENT);
                if assert_now {
                    (SimNode {
                        last_assertion: n.block_height,
                        balance: saturating_sub(n.balance, 100),
                        block_height: (n.block_height + 1) as u64,
                        ..n
                    }, r1)
                } else {
                    (SimNode { block_height: (n.block_height + 1) as u64, ..n }, r1)
                }
            },
            NodeRole::L3Sequencer => {
                let (r1, txs) = r.range(0, 5);
                let (r2, d) = r1.range(0, 20);
                (SimNode {
                    block_height: (n.block_height + 1) as u64,
                    pending_txs: (n.pending_txs + txs) as u64,
                    gas_price: jitter(n.gas_price, d, 10, 10),
                    ..n
                }, r2)
            },
        }
    }
}

/// `max(gas + draw - shift, floor)` without leaving `u64`.
fn move_gas(gas: u64, draw: u64, shift: u64, floor: u64) -> (g: u64)
    requires
        gas + draw <= u64::MAX,
        floor + shift <= u64::MAX,
    ensures
        g == jitter(gas, draw, shift, floor),
{
    let s = gas + draw;
    if s >= floor + shift {
        s - shift
    } else {
        floor
    }
}

impl SimNode {
    /// A fresh, alive node: gas price 1000 and the role's starting balance
    /// (1e9 on L1, 1e8 for the sequencer, 1e7 for the L3 sequencer, 5e7 otherwise).
    pub fn new(id: NodeId, role: NodeRole) -> (n: Self)
        ensures
            n == fresh_node(id, role),
    {
        let initial_balance: u64 = match role {
            NodeRole::L1 => 1_000_000_000,
            NodeRole::Sequencer => 100_000_000,
            NodeRole::L3Sequencer => 10_000_000,
            _ => 50_000_000,
        };
        SimNode {
            id,
            role,
            alive: true,
            block_height: 0,
            last_batch_posted: 0,
            last_assertion: 0,
            pending_txs: 0,
            gas_price: 1_000,
            balance: initial_balance,
            total_deposited: 0,
            total_withdrawn: 0,
        }
    }

    /// One tick: a crashed node does nothing; otherwise the node makes a block
    /// and its role's work (fee moves, new transactions, batches, assertions).
    pub fn tick(&mut self, rng: &mut DeterministicRng)
        requires
            node_fits(*old(self)),
            old(rng)@.has_room(node_draws(*old(self))),
        ensures
            (*final(self), final(rng)@) == node_tick(*old(self), old(rng)@),
    {
        if !self.alive {
            return;
        }
        match self.role {
            NodeRole::L1 => {
                self.block_height = self.block_height + 1;
                // L1 gas price fluctuates.
                let d = rng.range(0, 200);
                self.gas_price = move_gas(self.gas_price, d, 100, 100);
            },
            NodeRole::Sequencer => {
                self.block_height = self.block_height + 1;
                let new_txs = rng.range(0, 20);
                self.pending_txs = self.pending_txs + new_txs;
                // L2 gas price follows L1 loosely.
                let d = rng.range(0, 50);
                self.gas_price = move_gas(self.gas_price, d, 25, 10);
            },
            NodeRole::BatchPoster => {
                if rng.chance(P_10_PERCENT) && self.pending_txs > 0 {
                    self.last_batch_posted = self.block_height;
                    let cost = self.pending_txs * 10;
                    self.balance = if cost > self.balance {
                        0
                    } else {
                        self.balance - cost
                    };
                    self.pending_txs = 0;
                }
                self.block_height = self.block_height + 1;
            },
            NodeRole::Validator => {
                if rng.chance(P_2_PERCENT) {
                    self.last_assertion = self.block_height;
                    let stake_cost: u64 = 100;
                    self.balance = if stake_cost > self.balance {
                        0
                    } else {
                        self.balance - stake_cost
                    };
                }
                self.block_height = self.block_height + 1;
            },
            NodeRole::L3Sequencer => {
                self.block_height = self.block_height + 1;
                let new_txs = rng.range(0, 5);
                self.pending_txs = self.pending_txs + new_txs;
                let d = rng.range(0, 20);
                self.gas_price = move_gas(self.gas_price, d, 10, 10);
            },
        }
    }

    pub fn crash(&mut self)
        ensures
            *final(self) == (SimNode { alive: false, ..*old(self) }),
    {
        self.alive = false;
    }

    pub fn restart(&mut self)
        ensures
            *final(self) == (SimNode { alive: true, ..*old(self) }),
    {
        self.alive = true;
    }
}

/// Index of the L1 node in the fixed node layout.
pub const L1_NODE: usize = 0;
/// Index of the sequencer.
pub const SEQUENCER_NODE: usize = 1;
/// Index of the batch poster.
pub const POSTER_NODE: usize = 2;
/// Index of the validator.
pub const VALIDATOR_NODE: usize = 3;
/// Index of the L3 sequencer.
pub const L3_NODE: usize = 4;

/// The most ticks a simulator runs in total. A tick sends at most 16000 in
/// bridge value (10000 to L2, 5000 to L1, 1000 to L3), and the invariant
/// check adds up the value sent in 64 bits; this is the largest tick count
/// at which that sum fits whatever the draws (`u64::MAX / 16000`). Every
/// other counter (heights, pending transactions, gas prices, generator
/// draws) has far more headroom.
pub const MAX_TICKS: u64 = 1_152_921_504_606_846;

/// The nodes a simulator starts with, in their fixed layout.
pub open spec fn initial_nodes() -> Seq<SimNode> {
    seq![
        fresh_node(0, NodeRole::L1),
        fresh_node(1, NodeRole::Sequencer),
        fresh_node(2, NodeRole::BatchPoster),
        fresh_node(3, NodeRole::Validator),
        fresh_node(4, NodeRole::L3Sequencer),
    ]
}

/// The invariant classes the simulator checks; each fires at most once per seed.
#[derive(Clone, Copy, Debug, PartialEq, Eq, Structural)]
pub enum ViolationKey {
    L1Stalled,
    SequencerStalled,
    PosterNeverPosted,
    ValidatorNeverAsserted,
    L3Stalled,
    ZeroGas(NodeRole),
    RetryablesStuck,
    BridgeInflation,
}

/// A violated simulation invariant.
#[derive(Clone, Debug)]
pub struct SimViolation {
    pub seed: u64,
    pub tick: u64,
    pub description: String,
}

/// What a violation says.
pub struct ViolationView {
    pub seed: u64,
    pub tick: u64,
    pub description: Seq<char>,
}

impl View for SimViolation {
    type V = ViolationView;

    open spec fn view(&self) -> ViolationView {
        ViolationView { seed: self.seed, tick: self.tick, description: self.description@ }
    }
}

impl SimViolation {
    /// A copy with the same seed, tick and text.
    pub fn duplicate(&self) -> (v: SimViolation)
        ensures
            v@ == self@,
    {
        SimViolation { seed: self.seed, tick: self.tick, description: self.description.clone() }
    }
}

/// The views of a list of violations.
pub open spec fn violations_view(v: Seq<SimViolation>) -> Seq<ViolationView> {
    Seq::new(v.len(), |i: int| v[i]@)
}

/// The mathematical state of a simulator.
pub struct SimState {
    pub seed: u64,
    pub rng: RngState,
    pub clock: ClockState,
    pub network: NetState,
    pub nodes: Seq<SimNode>,
    pub bridge_queue: Seq<BridgeMessage>,
    pub retryable_tickets: Seq<BridgeMessage>,
    pub violations: Seq<ViolationView>,
    pub seen: Seq<ViolationKey>,
    pub ticks_run: u64,
    pub total_l1_to_l2_value: u64,
    pub total_l2_to_l1_value: u64,
    pub total_l2_to_l3_value: u64,
}

/// The network configuration the simulator uses.
pub open spec fn default_network_config() -> NetworkConfig {
    NetworkConfig {
        message_loss_rate: 184467440737095520,
        duplication_rate: 18446744073709552,
        reorder_rate: 922337203685477632,
        min_latency_ticks: 1,
        max_latency_ticks: 50,
    }
}

/// A fresh simulator for `seed`.
pub open spec fn initial_state(seed: u64) -> SimState {
    SimState {
        seed,
        rng: RngState::fresh(seed),
        clock: ClockState { tick: 0, events: Seq::empty() },
        network: NetState {
            config: default_network_config(),
            in_flight: Seq::empty(),
            partitions: Set::empty(),
            delivered: 0,
            dropped: 0,
            duplicated: 0,
        },
        nodes: initial_nodes(),
        bridge_queue: Seq::empty(),
        retryable_tickets: Seq::empty(),
        violations: Seq::empty(),
        seen: Seq::empty(),
        ticks_run: 0,
        total_l1_to_l2_value: 0,
        total_l2_to_l1_value: 0,
        total_l2_to_l3_value: 0,
    }
}

/// Sum of the values of `q`.
pub open spec fn value_sum(q: Seq<BridgeMessage>) -> int
    decreases q.len(),
{
    if q.len() == 0 {
        0
    } else {
        value_sum(q.drop_last()) + q.last().value
    }
}

/// Sum of the values of the tickets of `q` not yet redeemed.
pub open spec fn unredeemed_sum(q: Seq<BridgeMessage>) -> int
    decreases q.len(),
{
    if q.len() == 0 {
        0
    } else {
        unredeemed_sum(q.drop_last()) + if q.last().redeemed {
            0
        } else {
            q.last().value as int
        }
    }
}

/// Value credited to the nodes by bridge deliveries and redemptions.
pub open spec fn total_deposited(nodes: Seq<SimNode>) -> int {
    nodes[0].total_deposited + nodes[1].total_deposited + nodes[2].total_deposited
        + nodes[3].total_deposited + nodes[4].total_deposited
}

/// Value sent into the bridge so far.
pub open spec fn total_sent(s: SimState) -> int {
    s.total_l1_to_l2_value + s.total_l2_to_l1_value + s.total_l2_to_l3_value
}

/// The fixed layout: five nodes, one per role, with ids 0 to 4.
pub open spec fn layout_ok(nodes: Seq<SimNode>) -> bool {
    &&& nodes.len() == 5
    &&& nodes[0].role == NodeRole::L1 && nodes[0].id == 0
    &&& nodes[1].role == NodeRole::Sequencer && nodes[1].id == 1
    &&& nodes[2].role == NodeRole::BatchPoster && nodes[2].id == 2
    &&& nodes[3].role == NodeRole::Validator && nodes[3].id == 3
    &&& nodes[4].role == NodeRole::L3Sequencer && nodes[4].id == 4
}

/// The counters of a node after `t` ticks stay within what `t` ticks can reach.
pub open spec fn node_bounded(n: SimNode, t: int) -> bool {
    &&& n.block_height <= t
    &&& n.pending_txs <= 20 * t
    &&& n.gas_price <= 1000 + 100 * t
}

/// Every message is due within 500 ticks of `t` and is not redeemed while queued.
pub open spec fn queue_bounded(q: Seq<BridgeMessage>, t: int) -> bool {
    forall|i: int| 0 <= i < q.len() ==> (#[trigger] q[i]).deliver_tick <= t + 500 && !q[i].redeemed
}

/// Every ticket is due within 500 ticks of `t`.
pub open spec fn tickets_bounded(q: Seq<BridgeMessage>, t: int) -> bool {
    forall|i: int| 0 <= i < q.len() ==> (#[trigger] q[i]).deliver_tick <= t + 500
}

/// Violations are recorded once per key, all with the simulator's seed, and
/// bridge inflation is never among them.
pub open spec fn seen_ok(s: SimState) -> bool {
    &&& s.violations.len() == s.seen.len()
    &&& forall|i: int, j: int| 0 <= i < j < s.seen.len() ==> s.seen[i] != s.seen[j]
    &&& !s.seen.contains(ViolationKey::BridgeInflation)
    &&& forall|i: int| 0 <= i < s.violations.len() ==> (#[trigger] s.violations[i]).seed == s.seed
}

/// Value is only moved by the bridge, never created: what was credited,
/// plus what is queued, plus what waits in unredeemed tickets, is at most
/// what was sent.
pub open spec fn accounting_ok(s: SimState) -> bool {
    total_deposited(s.nodes) + value_sum(s.bridge_queue) + unredeemed_sum(s.retryable_tickets)
        <= total_sent(s)
}

/// What holds in the middle of tick `t`, after `draws` draws of this tick.
pub open spec fn step_inv(s: SimState, t: int, draws: int) -> bool {
    &&& 1 <= t <= MAX_TICKS
    &&& s.ticks_run == t
    &&& s.clock.tick == t
    &&& s.clock.valid()
    &&& s.network.valid()
    &&& s.network.in_flight.len() == 0
    &&& s.rng.operations <= 32 * (t - 1) + draws
    &&& layout_ok(s.nodes)
    &&& forall|i: int| 0 <= i < 5 ==> node_bounded(#[trigger] s.nodes[i], t)
    &&& queue_bounded(s.bridge_queue, t)
    &&& tickets_bounded(s.retryable_tickets, t)
    &&& accounting_ok(s)
    &&& total_sent(s) <= 16000 * t
    &&& seen_ok(s)
}

/// Ticks nodes `0..k` in order, each with a child generator forked from `r`.
pub open spec fn tick_nodes(nodes: Seq<SimNode>, r: RngState, k: nat) -> (Seq<SimNode>, RngState)
    decreases k,
{
    if k == 0 {
        (nodes, r)
    } else {
        let (ns, r1) = tick_nodes(nodes, r, (k - 1) as nat);
        let (r2, child) = r1.fork();
        (ns.update(k - 1, node_tick(ns[k - 1], child).0), r2)
    }
}

/// The sequencer's pending transactions handed to an alive batch poster.
pub open spec fn propagate_pending(nodes: Seq<SimNode>) -> Seq<SimNode> {
    let seq_pending = if nodes[1].alive {
        nodes[1].pending_txs
    } else {
        0
    };
    if nodes[2].alive {
        nodes.update(2, SimNode { pending_txs: seq_pending, ..nodes[2] })
    } else {
        nodes
    }
}

/// A bridge message created at `tick`.
pub open spec fn bridge_msg(from: u8, to: u8, value: u64, tick: u64, latency: u64, retry: bool) -> BridgeMessage {
    BridgeMessage {
        from_layer: from,
        to_layer: to,
        value,
        created_tick: tick,
        deliver_tick: (tick + latency) as u64,
        is_retryable: retry,
        redeemed: false,
    }
}

/// About 1% of ticks: an L1 to L2 deposit of 100 to 10000, due in 5 to 30
/// ticks, retryable 30% of the time.
pub open spec fn spawn_deposit(s: SimState, tick: u64) -> SimState {
    let (r1, go) = s.rng.chance(P_1_PERCENT);
    if go {
        let (r2, value) = r1.range(100, 10000);
        let (r3, latency) = r2.range(5, 30);
        let (r4, retry) = r3.chance(P_30_PERCENT);
        SimState {
            rng: r4,
            bridge_queue: s.bridge_queue.push(bridge_msg(1, 2, value, tick, latency, retry)),
            total_l1_to_l2_value: (s.total_l1_to_l2_value + value) as u64,
            ..s
        }
    } else {
        SimState { rng: r1, ..s }
    }
}

/// About 0.5% of ticks: an L2 to L1 withdrawal of 50 to 5000, due after a
/// challenge period of 100 to 500 ticks.
pub open spec fn spawn_withdrawal(s: SimState, tick: u64) -> SimState {
    let (r1, go) = s.rng.chance(P_0_5_PERCENT);
    if go {
        let (r2, value) = r1.range(50, 5000);
        let (r3, latency) = r2.range(100, 500);
        SimState {
            rng: r3,
            bridge_queue: s.bridge_queue.push(bridge_msg(2, 1, value, tick, latency, false)),
            total_l2_to_l1_value: (s.total_l2_to_l1_value + value) as u64,
            ..s
        }
    } else {
        SimState { rng: r1, ..s }
    }
}

/// About 0.5% of ticks: an L2 to L3 deposit of 10 to 1000, due in 3 to 15
/// ticks, retryable 20% of the time.
pub open spec fn spawn_l3_deposit(s: SimState, tick: u64) -> SimState {
    let (r1, go) = s.rng.chance(P_0_5_PERCENT);
    if go {
        let (r2, value) = r1.range(10, 1000);
        let (r3, latency) = r2.range(3, 15);
        let (r4, retry) = r3.chance(P_20_PERCENT);
        SimState {
            rng: r4,
            bridge_queue: s.bridge_queue.push(bridge_msg(2, 3, value, tick, latency, retry)),
            total_l2_to_l3_value: (s.total_l2_to_l3_value + value) as u64,
            ..s
        }
    } else {
        SimState { rng: r1, ..s }
    }
}

/// The cross-layer messages a tick may create.
pub open spec fn spawn_bridge_messages(s: SimState, tick: u64) -> SimState {
    spawn_l3_deposit(spawn_withdrawal(spawn_deposit(s, tick), tick), tick)
}

/// Splits `q` into the due retryable messages, the other due messages and
/// the messages not yet due, each in queue order.
pub open spec fn split_bridge(q: Seq<BridgeMessage>, tick: u64) -> (Seq<BridgeMessage>, Seq<BridgeMessage>, Seq<BridgeMessage>)
    decreases q.len(),
{
    if q.len() == 0 {
        (Seq::empty(), Seq::empty(), Seq::empty())
    } else {
        let (r, p, l) = split_bridge(q.drop_last(), tick);
        let m = q.last();
        if tick >= m.deliver_tick {
            if m.is_retryable {
                (r.push(m), p, l)
            } else {
                (r, p.push(m), l)
            }
        } else {
            (r, p, l.push(m))
        }
    }
}

/// The node credited with a delivery to `layer`, if any.
pub open spec fn target_node(layer: u8) -> Option<int> {
    if layer == 1 {
        Some(0)
    } else if layer == 2 {
        Some(1)
    } else if layer == 3 {
        Some(4)
    } else {
        None
    }
}

/// `nodes` with `v` added to the deposits of node `i`.
pub open spec fn add_deposit(nodes: Seq<SimNode>, i: int, v: u64) -> Seq<SimNode> {
    nodes.update(i, SimNode { total_deposited: (nodes[i].total_deposited + v) as u64, ..nodes[i] })
}

/// Credits a delivered message to the node of its target layer.
pub open spec fn credit(nodes: Seq<SimNode>, m: BridgeMessage) -> Seq<SimNode> {
    match target_node(m.to_layer) {
        Some(i) => add_deposit(nodes, i, m.value),
        None => nodes,
    }
}

/// Credits every message of `ms`, in order.
pub open spec fn credit_all(nodes: Seq<SimNode>, ms: Seq<BridgeMessage>) -> Seq<SimNode>
    decreases ms.len(),
{
    if ms.len() == 0 {
        nodes
    } else {
        credit(credit_all(nodes, ms.drop_last()), ms.last())
    }
}

/// Due messages leave the queue: retryable ones become tickets, the others
/// are credited to their target layer.
pub open spec fn deliver_bridge(s: SimState, tick: u64) -> SimState {
    let (r, p, l) = split_bridge(s.bridge_queue, tick);
    SimState {
        bridge_queue: l,
        retryable_tickets: s.retryable_tickets + r,
        nodes: credit_all(s.nodes, p),
        ..s
    }
}

/// Whether ticket `t` is redeemed at `tick` given the nodes: unredeemed, at
/// least 5 ticks past due, bound for L2 or L3, whose sequencer is alive.
pub open spec fn redeems(t: BridgeMessage, nodes: Seq<SimNode>, tick: u64) -> bool {
    &&& !t.redeemed
    &&& tick >= t.deliver_tick + 5
    &&& (t.to_layer == 2 || t.to_layer == 3)
    &&& nodes[target_node(t.to_layer)->0].alive
}

/// Redeems the tickets `0..k` in order.
pub open spec fn redeem_prefix(ts: Seq<BridgeMessage>, nodes: Seq<SimNode>, tick: u64, k: nat) -> (Seq<BridgeMessage>, Seq<SimNode>)
    decreases k,
{
    if k == 0 {
        (ts, nodes)
    } else {
        let (ts1, ns1) = redeem_prefix(ts, nodes, tick, (k - 1) as nat);
        let t = ts1[k - 1];
        if redeems(t, ns1, tick) {
            (
                ts1.update(k - 1, BridgeMessage { redeemed: true, ..t }),
                add_deposit(ns1, target_node(t.to_layer)->0, t.value),
            )
        } else {
            (ts1, ns1)
        }
    }
}

/// Auto-redemption of due retryable tickets.
pub open spec fn redeem_retryables(s: SimState, tick: u64) -> SimState {
    let (ts, ns) = redeem_prefix(s.retryable_tickets, s.nodes, tick, s.retryable_tickets.len());
    SimState { retryable_tickets: ts, nodes: ns, ..s }
}

/// Indices `< k` of the alive nodes other than L1, in order.
pub open spec fn crash_candidates(nodes: Seq<SimNode>, k: nat) -> Seq<usize>
    decreases k,
{
    if k == 0 {
        Seq::empty()
    } else {
        let rest = crash_candidates(nodes, (k - 1) as nat);
        if nodes[k - 1].role != NodeRole::L1 && nodes[k - 1].alive {
            rest.push((k - 1) as usize)
        } else {
            rest
        }
    }
}

/// About 0.1% of ticks: a random alive non-L1 node crashes, with a restart
/// scheduled 10 to 100 ticks later.
pub open spec fn crash_fault(s: SimState) -> SimState {
    let (r1, go) = s.rng.chance(P_0_1_PERCENT);
    let cands = crash_candidates(s.nodes, 5);
    if go && cands.len() > 0 {
        let (r2, j) = r1.range(0, (cands.len() - 1) as u64);
        let idx = cands[j as int];
        let (r3, delay) = r2.range(10, 100);
        SimState {
            rng: r3,
            nodes: s.nodes.update(idx as int, SimNode { alive: false, ..s.nodes[idx as int] }),
            clock: s.clock.schedule((s.clock.tick + delay) as u64, idx as u64),
            ..s
        }
    } else {
        SimState { rng: r1, ..s }
    }
}

/// About 0.05% of ticks: two random distinct nodes are partitioned, with a
/// heal scheduled 20 to 200 ticks later.
pub open spec fn partition_fault(s: SimState) -> SimState {
    let (r1, go) = s.rng.chance(P_0_05_PERCENT);
    if go {
        let (r2, a) = r1.range(0, 4);
        let (r3, b) = r2.range(0, 4);
        if a != b {
            let (r4, delay) = r3.range(20, 200);
            SimState {
                rng: r4,
                network: NetState {
                    partitions: s.network.partitions.union(cut_links(seq![a as u32], seq![b as u32])),
                    ..s.network
                },
                clock: s.clock.schedule((s.clock.tick + delay) as u64, (1000 + a * 100 + b) as u64),
                ..s
            }
        } else {
            SimState { rng: r3, ..s }
        }
    } else {
        SimState { rng: r1, ..s }
    }
}

/// Fires every due event in order: ids below 1000 restart that node, the
/// others heal all partitions.
pub open spec fn process_due_events(s: SimState) -> SimState
    decreases s.clock.events.len(),
{
    match s.clock.due_event() {
        Some(ev) => {
            let s1 = SimState { clock: s.clock.after_due_event(), ..s };
            let s2 = if ev.id < 1000 {
                if ev.id < s.nodes.len() {
                    SimState {
                        nodes: s1.nodes.update(ev.id as int, SimNode { alive: true, ..s1.nodes[ev.id as int] }),
                        ..s1
                    }
                } else {
                    s1
                }
            } else {
                SimState { network: NetState { partitions: Set::empty(), ..s1.network }, ..s1 }
            };
            process_due_events(s2)
        },
        None => s,
    }
}

/// Fault injection of one tick.
pub open spec fn inject_faults(s: SimState) -> SimState {
    process_due_events(partition_fault(crash_fault(s)))
}

/// Records a violation of `key` unless `key` already fired.
pub open spec fn record(s: SimState, key: ViolationKey, tick: u64, description: Seq<char>) -> SimState {
    if s.seen.contains(key) {
        s
    } else {
        SimState {
            seen: s.seen.push(key),
            violations: s.violations.push(ViolationView { seed: s.seed, tick, description }),
            ..s
        }
    }
}

/// The name of a role as written in source.
pub open spec fn role_name(r: NodeRole) -> Seq<char> {
    match r {
        NodeRole::L1 => "L1"@,
        NodeRole::Sequencer => "Sequencer"@,
        NodeRole::BatchPoster => "BatchPoster"@,
        NodeRole::Validator => "Validator"@,
        NodeRole::L3Sequencer => "L3Sequencer"@,
    }
}

/// Records a zero gas price on each alive node among `0..k`, in order.
pub open spec fn check_zero_gas(s: SimState, nodes: Seq<SimNode>, tick: u64, k: nat) -> SimState
    decreases k,
{
    if k == 0 {
        s
    } else {
        let s1 = check_zero_gas(s, nodes, tick, (k - 1) as nat);
        let n = nodes[k - 1];
        if n.alive && n.gas_price == 0 {
            record(s1, ViolationKey::ZeroGas(n.role), tick, role_name(n.role) + " gas price dropped to 0"@)
        } else {
            s1
        }
    }
}

/// Tickets unredeemed more than 100 ticks after they were due.
pub open spec fn stuck_count(ts: Seq<BridgeMessage>, tick: u64) -> nat
    decreases ts.len(),
{
    if ts.len() == 0 {
        0
    } else {
        stuck_count(ts.drop_last(), tick) + if !ts.last().redeemed && tick > ts.last().deliver_tick + 100 {
            1nat
        } else {
            0nat
        }
    }
}

/// Invariants 1 to 5: L1, sequencer, batch poster, validator and L3 liveness.
pub open spec fn check_liveness(s: SimState) -> SimState {
    let tick = s.clock.tick;
    let ns = s.nodes;
    let s1 = if ns[0].block_height == 0 && tick > 10 {
        record(s, ViolationKey::L1Stalled, tick, "L1 has not produced any blocks"@)
    } else {
        s
    };
    let s2 = if ns[0].block_height > 100 && ns[1].block_height == 0 {
        record(s1, ViolationKey::SequencerStalled, tick,
            "Sequencer produced 0 blocks while L1 is at "@ + decimal(ns[0].block_height as nat))
    } else {
        s1
    };
    let s3 = if tick > 200 && ns[2].alive && ns[2].last_batch_posted == 0 {
        record(s2, ViolationKey::PosterNeverPosted, tick, "Batch poster has never posted a batch"@)
    } else {
        s2
    };
    let s4 = if tick > 500 && ns[3].alive && ns[3].last_assertion == 0 {
        record(s3, ViolationKey::ValidatorNeverAsserted, tick, "Validator has never posted an assertion"@)
    } else {
        s3
    };
    if tick > 100 && ns[4].alive && ns[4].block_height == 0 {
        record(s4, ViolationKey::L3Stalled, tick, "L3 sequencer has not produced any blocks"@)
    } else {
        s4
    }
}

/// Invariant 7: more than 5 tickets stuck after tick 200.
pub open spec fn check_stuck(s: SimState) -> SimState {
    let tick = s.clock.tick;
    let stuck = stuck_count(s.retryable_tickets, tick);
    if tick > 200 && stuck > 5 {
        record(s, ViolationKey::RetryablesStuck, tick,
            decimal(stuck) + " retryable tickets stuck unredeemed for >100 ticks"@)
    } else {
        s
    }
}

/// Invariant 8: more credited than sent.
pub open spec fn check_inflation(s: SimState) -> SimState {
    let deposited = total_deposited(s.nodes);
    let sent = total_sent(s);
    if deposited > sent {
        record(s, ViolationKey::BridgeInflation, s.clock.tick,
            "Bridge inflation: deposited "@ + decimal(deposited as nat) + " > sent "@ + decimal(sent as nat))
    } else {
        s
    }
}

/// The invariant checks of one tick, in order (invariant 6 is a zero gas price).
pub open spec fn check_invariants(s: SimState) -> SimState {
    check_inflation(check_stuck(check_zero_gas(check_liveness(s), s.nodes, s.clock.tick, 5)))
}

/// One simulated tick.
#[verifier::opaque]
pub open spec fn sim_step(s: SimState) -> SimState {
    let tick = (s.clock.tick + 1) as u64;
    let s1 = SimState {
        clock: ClockState { tick, ..s.clock },
        ticks_run: (s.ticks_run + 1) as u64,
        ..s
    };
    let (ns, r) = tick_nodes(s1.nodes, s1.rng, 5);
    let s2 = SimState { nodes: propagate_pending(ns), rng: r, ..s1 };
    let s3 = spawn_bridge_messages(s2, tick);
    let s4 = deliver_bridge(s3, tick);
    let s5 = redeem_retryables(s4, tick);
    let s6 = inject_faults(s5);
    let s7 = check_invariants(s6);
    SimState { network: s7.network.after_deliver(tick), ..s7 }
}

/// `n` simulated ticks.
pub open spec fn run_spec(s: SimState, n: nat) -> SimState
    decreases n,
{
    if n == 0 {
        s
    } else {
        sim_step(run_spec(s, (n - 1) as nat))
    }
}

/// The invariant of every simulator state reached from `initial_state`.
pub open spec fn sim_inv(s: SimState) -> bool {
    let t = s.ticks_run as int;
    &&& t <= MAX_TICKS
    &&& s.clock.tick == s.ticks_run
    &&& s.clock.valid()
    &&& s.network.valid()
    &&& s.network.in_flight.len() == 0
    &&& s.rng.operations <= 32 * t
    &&& layout_ok(s.nodes)
    &&& forall|i: int| 0 <= i < 5 ==> node_bounded(#[trigger] s.nodes[i], t)
    &&& queue_bounded(s.bridge_queue, t)
    &&& tickets_bounded(s.retryable_tickets, t)
    &&& accounting_ok(s)
    &&& total_sent(s) <= 16000 * t
    &&& seen_ok(s)
}

/// A node tick keeps the node within the bounds of one more tick and touches
/// neither its identity, its liveness nor its deposits.
proof fn lemma_node_tick(n: SimNode, r: RngState, t: int)
    requires
        1 <= t <= MAX_TICKS,
        node_bounded(n, t - 1),
    ensures
        node_fits(n),
        node_bounded(node_tick(n, r).0, t),
        node_tick(n, r).0.role == n.role,
        node_tick(n, r).0.id == n.id,
        node_tick(n, r).0.alive == n.alive,
        node_tick(n, r).0.total_deposited == n.total_deposited,
{
    crate::prng::lemma_range(r, 0, 200);
    crate::prng::lemma_range(r, 0, 20);
    crate::prng::lemma_range(r, 0, 5);
    crate::prng::lemma_range(r.range(0, 20).0, 0, 50);
    crate::prng::lemma_range(r.range(0, 5).0, 0, 20);
}

/// Ticking the first `k` nodes makes `k` draws, keeps the layout and the
/// deposits, bounds the ticked nodes by `t` and leaves the others alone.
proof fn lemma_tick_nodes(nodes: Seq<SimNode>, r: RngState, k: nat, t: int)
    requires
        k <= 5,
        1 <= t <= MAX_TICKS,
        layout_ok(nodes),
        forall|i: int| 0 <= i < 5 ==> node_bounded(#[trigger] nodes[i], t - 1),
    ensures
        tick_nodes(nodes, r, k).1 == (RngState { seed: r.seed, operations: r.operations + k }),
        layout_ok(tick_nodes(nodes, r, k).0),
        total_deposited(tick_nodes(nodes, r, k).0) == total_deposited(nodes),
        forall|i: int| 0 <= i < k ==> node_bounded(#[trigger] tick_nodes(nodes, r, k).0[i], t),
        forall|i: int| k <= i < 5 ==> #[trigger] tick_nodes(nodes, r, k).0[i] == nodes[i],
        forall|i: int| 0 <= i < 5 ==> (#[trigger] tick_nodes(nodes, r, k).0[i]).alive == nodes[i].alive,
    decreases k,
{
    if k > 0 {
        lemma_tick_nodes(nodes, r, (k - 1) as nat, t);
        let (ns, r1) = tick_nodes(nodes, r, (k - 1) as nat);
        let (r2, child) = r1.fork();
        lemma_node_tick(ns[k - 1], child, t);
        let ns2 = ns.update(k - 1, node_tick(ns[k - 1], child).0);
        assert(total_deposited(ns2) == total_deposited(ns));
    }
}


proof fn lemma_value_sum_push(q: Seq<BridgeMessage>, m: BridgeMessage)
    ensures
        value_sum(q.push(m)) == value_sum(q) + m.value,
{
    assert(q.push(m).drop_last() =~= q);
}

/// Queuing one new message keeps the tick invariant, with its value added to
/// the bridge totals.
proof fn lemma_queue_message(s: SimState, s2: SimState, m: BridgeMessage, t: int, d: int, d2: int)
    requires
        step_inv(s, t, d),
        d2 >= d,
        s2.rng.operations <= 32 * (t - 1) + d2,
        m.deliver_tick <= t + 500,
        !m.redeemed,
        s2.bridge_queue == s.bridge_queue.push(m),
        total_sent(s2) == total_sent(s) + m.value,
        total_sent(s2) <= 16000 * t,
        s2 == (SimState {
            rng: s2.rng,
            bridge_queue: s2.bridge_queue,
            total_l1_to_l2_value: s2.total_l1_to_l2_value,
            total_l2_to_l1_value: s2.total_l2_to_l1_value,
            total_l2_to_l3_value: s2.total_l2_to_l3_value,
            ..s
        }),
    ensures
        step_inv(s2, t, d2),
{
    lemma_value_sum_push(s.bridge_queue, m);
    assert forall|i: int| 0 <= i < s2.bridge_queue.len() implies (#[trigger] s2.bridge_queue[i]).deliver_tick <= t + 500 && !s2.bridge_queue[i].redeemed by {
        if i < s.bridge_queue.len() {
            assert(s2.bridge_queue[i] == s.bridge_queue[i]);
        }
    }
}


proof fn lemma_split_bridge(q: Seq<BridgeMessage>, tick: u64, t: int)
    requires
        queue_bounded(q, t),
    ensures
        value_sum(q) == value_sum(split_bridge(q, tick).0) + value_sum(split_bridge(q, tick).1)
            + value_sum(split_bridge(q, tick).2),
        queue_bounded(split_bridge(q, tick).0, t),
        queue_bounded(split_bridge(q, tick).2, t),
    decreases q.len(),
{
    if q.len() > 0 {
        let q1 = q.drop_last();
        assert(queue_bounded(q1, t)) by {
            assert forall|i: int| 0 <= i < q1.len() implies (#[trigger] q1[i]).deliver_tick <= t + 500 && !q1[i].redeemed by {
                assert(q1[i] == q[i]);
            }
        }
        lemma_split_bridge(q1, tick, t);
        let (r, p, l) = split_bridge(q1, tick);
        let m = q.last();
        lemma_value_sum_push(r, m);
        lemma_value_sum_push(p, m);
        lemma_value_sum_push(l, m);
        assert forall|i: int| 0 <= i < r.push(m).len() implies (#[trigger] r.push(m)[i]).deliver_tick <= t + 500 && !r.push(m)[i].redeemed by {
            if i < r.len() {
                assert(r.push(m)[i] == r[i]);
            }
        }
        assert forall|i: int| 0 <= i < l.push(m).len() implies (#[trigger] l.push(m)[i]).deliver_tick <= t + 500 && !l.push(m)[i].redeemed by {
            if i < l.len() {
                assert(l.push(m)[i] == l[i]);
            }
        }
    }
}

proof fn lemma_sums_nonneg(q: Seq<BridgeMessage>)
    ensures
        value_sum(q) >= 0,
        unredeemed_sum(q) >= 0,
    decreases q.len(),
{
    if q.len() > 0 {
        lemma_sums_nonneg(q.drop_last());
    }
}

proof fn lemma_unredeemed_concat(a: Seq<BridgeMessage>, b: Seq<BridgeMessage>)
    ensures
        unredeemed_sum(a + b) == unredeemed_sum(a) + unredeemed_sum(b),
    decreases b.len(),
{
    if b.len() == 0 {
        assert(a + b =~= a);
    } else {
        lemma_unredeemed_concat(a, b.drop_last());
        assert((a + b).drop_last() =~= a + b.drop_last());
    }
}

proof fn lemma_unredeemed_of_queue(q: Seq<BridgeMessage>, t: int)
    requires
        queue_bounded(q, t),
    ensures
        unredeemed_sum(q) == value_sum(q),
    decreases q.len(),
{
    if q.len() > 0 {
        let q1 = q.drop_last();
        assert(queue_bounded(q1, t)) by {
            assert forall|i: int| 0 <= i < q1.len() implies (#[trigger] q1[i]).deliver_tick <= t + 500 && !q1[i].redeemed by {
                assert(q1[i] == q[i]);
            }
        }
        lemma_unredeemed_of_queue(q1, t);
    }
}

proof fn lemma_value_sum_prefix(s: Seq<BridgeMessage>, j: int)
    requires
        0 <= j < s.len(),
    ensures
        value_sum(s.take(j + 1)) == value_sum(s.take(j)) + s[j].value,
        value_sum(s.take(j + 1)) <= value_sum(s),
    decreases s.len() - j,
{
    assert(s.take(j + 1).drop_last() =~= s.take(j));
    if j + 1 < s.len() {
        lemma_value_sum_prefix(s, j + 1);
    } else {
        assert(s.take(j + 1) =~= s);
    }
}

/// Crediting changes nothing but deposits, and adds at most the credited value.
proof fn lemma_credit(nodes: Seq<SimNode>, m: BridgeMessage, t: int)
    requires
        layout_ok(nodes),
        forall|i: int| 0 <= i < 5 ==> node_bounded(#[trigger] nodes[i], t),
        total_deposited(nodes) + m.value <= u64::MAX,
    ensures
        layout_ok(credit(nodes, m)),
        forall|i: int| 0 <= i < 5 ==> node_bounded(#[trigger] credit(nodes, m)[i], t),
        forall|i: int| 0 <= i < 5 ==> (#[trigger] credit(nodes, m)[i]).alive == nodes[i].alive,
        total_deposited(credit(nodes, m)) <= total_deposited(nodes) + m.value,
{
}


proof fn lemma_unredeemed_redeem(ts: Seq<BridgeMessage>, i: int)
    requires
        0 <= i < ts.len(),
        !ts[i].redeemed,
    ensures
        unredeemed_sum(ts.update(i, BridgeMessage { redeemed: true, ..ts[i] })) == unredeemed_sum(ts) - ts[i].value,
    decreases ts.len(),
{
    let u = ts.update(i, BridgeMessage { redeemed: true, ..ts[i] });
    if i == ts.len() - 1 {
        assert(u.drop_last() =~= ts.drop_last());
    } else {
        lemma_unredeemed_redeem(ts.drop_last(), i);
        assert(u.drop_last() =~= ts.drop_last().update(i, BridgeMessage { redeemed: true, ..ts[i] }));
    }
}


/// Recording keeps the once-per-key bookkeeping, except for bridge inflation.
proof fn lemma_record(s: SimState, key: ViolationKey, tick: u64, d: Seq<char>)
    requires
        seen_ok(s),
        key != ViolationKey::BridgeInflation,
    ensures
        seen_ok(record(s, key, tick, d)),
{
    let r = record(s, key, tick, d);
    if !s.seen.contains(key) {
        assert forall|i: int, j: int| 0 <= i < j < r.seen.len() implies r.seen[i] != r.seen[j] by {
            if j == s.seen.len() {
                assert(s.seen[i] != key);
            }
        }
        assert(!r.seen.contains(ViolationKey::BridgeInflation)) by {
            if r.seen.contains(ViolationKey::BridgeInflation) {
                let k = choose|k: int| 0 <= k < r.seen.len() && r.seen[k] == ViolationKey::BridgeInflation;
                if k < s.seen.len() {
                    assert(s.seen.contains(ViolationKey::BridgeInflation));
                }
            }
        }
        assert forall|i: int| 0 <= i < r.violations.len() implies (#[trigger] r.violations[i]).seed == r.seed by {
            if i < s.violations.len() {
                assert(r.violations[i] == s.violations[i]);
            }
        }
    }
}

proof fn lemma_check_zero_gas(s: SimState, nodes: Seq<SimNode>, tick: u64, k: nat)
    requires
        seen_ok(s),
    ensures
        seen_ok(check_zero_gas(s, nodes, tick, k)),
        check_zero_gas(s, nodes, tick, k) == (SimState {
            seen: check_zero_gas(s, nodes, tick, k).seen,
            violations: check_zero_gas(s, nodes, tick, k).violations,
            ..s
        }),
    decreases k,
{
    if k > 0 {
        lemma_check_zero_gas(s, nodes, tick, (k - 1) as nat);
        let s1 = check_zero_gas(s, nodes, tick, (k - 1) as nat);
        let n = nodes[k - 1];
        if n.alive && n.gas_price == 0 {
            lemma_record(s1, ViolationKey::ZeroGas(n.role), tick, role_name(n.role) + " gas price dropped to 0"@);
        }
    }
}

/// The deterministic simulator.
pub struct Simulator {
    seed: u64,
    rng: DeterministicRng,
    clock: SimulatedClock,
    network: SimulatedNetwork,
    nodes: Vec<SimNode>,
    bridge_queue: Vec<BridgeMessage>,
    retryable_tickets: Vec<BridgeMessage>,
    violations: Vec<SimViolation>,
    seen_invariants: Vec<ViolationKey>,
    ticks_run: u64,
    total_l1_to_l2_value: u64,
    total_l2_to_l1_value: u64,
    total_l2_to_l3_value: u64,
}

fn role_label(r: NodeRole) -> (s: &'static str)
    ensures
        s@ == role_name(r),
{
    match r {
        NodeRole::L1 => "L1",
        NodeRole::Sequencer => "Sequencer",
        NodeRole::BatchPoster => "BatchPoster",
        NodeRole::Validator => "Validator",
        NodeRole::L3Sequencer => "L3Sequencer",
    }
}

impl View for Simulator {
    type V = SimState;

    closed spec fn view(&self) -> SimState {
        SimState {
            seed: self.seed,
            rng: self.rng@,
            clock: self.clock@,
            network: self.network@,
            nodes: self.nodes@,
            bridge_queue: self.bridge_queue@,
            retryable_tickets: self.retryable_tickets@,
            violations: violations_view(self.violations@),
            seen: self.seen_invariants@,
            ticks_run: self.ticks_run,
            total_l1_to_l2_value: self.total_l1_to_l2_value,
            total_l2_to_l1_value: self.total_l2_to_l1_value,
            total_l2_to_l3_value: self.total_l2_to_l3_value,
        }
    }
}

impl Simulator {
    /// The simulator's state satisfies the invariant of reachable states.
    pub open spec fn wf(&self) -> bool {
        sim_inv(self@)
    }

    /// A fresh simulator for `seed`: L1, sequencer, batch poster, validator
    /// and L3 sequencer (ids 0 to 4), the default network, nothing queued.
    pub fn new(seed: u64) -> (sim: Self)
        ensures
            sim@ == initial_state(seed),
            sim.wf(),
    {
        let nodes = vec![
            SimNode::new(0, NodeRole::L1),
            SimNode::new(1, NodeRole::Sequencer),
            SimNode::new(2, NodeRole::BatchPoster),
            SimNode::new(3, NodeRole::Validator),
            SimNode::new(4, NodeRole::L3Sequencer),
        ];
        let sim = Simulator {
            seed,
            rng: DeterministicRng::new(seed),
            clock: SimulatedClock::new(),
            network: SimulatedNetwork::new(NetworkConfig::default()),
            nodes,
            bridge_queue: Vec::new(),
            retryable_tickets: Vec::new(),
            violations: Vec::new(),
            seen_invariants: Vec::new(),
            ticks_run: 0,
            total_l1_to_l2_value: 0,
            total_l2_to_l1_value: 0,
            total_l2_to_l3_value: 0,
        };
        assert(sim@.nodes =~= initial_nodes());
        assert(sim@.violations =~= Seq::<ViolationView>::empty());
        assert(sim@ =~= initial_state(seed));
        sim
    }

    /// Starts a tick: advances the clock, ticks every node with its own
    /// forked generator, and hands the sequencer's pending transactions to
    /// an alive batch poster.
    fn begin_tick(&mut self) -> (tick: u64)
        requires
            sim_inv(old(self)@),
            old(self)@.ticks_run < MAX_TICKS,
        ensures
            tick == old(self)@.ticks_run + 1,
            final(self)@ == ({
                let s = old(self)@;
                let s1 = SimState {
                    clock: ClockState { tick, ..s.clock },
                    ticks_run: tick,
                    ..s
                };
                let (ns, r) = tick_nodes(s1.nodes, s1.rng, 5);
                SimState { nodes: propagate_pending(ns), rng: r, ..s1 }
            }),
            step_inv(final(self)@, tick as int, 5),
            total_sent(final(self)@) <= 16000 * (tick - 1),
    {
        let ghost s0 = self@;
        self.clock.advance(1);
        self.ticks_run = self.ticks_run + 1;
        let tick = self.clock.now();
        let ghost s1 = self@;
        let ghost nodes0 = self.nodes@;
        let ghost r0 = self.rng@;
        proof {
            lemma_tick_nodes(nodes0, r0, 5, tick as int);
        }
        let mut i: usize = 0;
        while i < 5
            invariant
                i <= 5,
                layout_ok(nodes0),
                forall|k: int| 0 <= k < 5 ==> node_bounded(#[trigger] nodes0[k], tick - 1),
                1 <= tick <= MAX_TICKS,
                r0.operations <= 32 * (tick - 1),
                (self.nodes@, self.rng@) == tick_nodes(nodes0, r0, i as nat),
                self@ == (SimState { nodes: self.nodes@, rng: self.rng@, ..s1 }),
            decreases 5 - i,
        {
            proof {
                lemma_tick_nodes(nodes0, r0, i as nat, tick as int);
            }
            let mut fork = self.rng.fork();
            let mut node = self.nodes[i];
            node.tick(&mut fork);
            self.nodes.set(i, node);
            i = i + 1;
        }
        // Pending transactions flow from the sequencer to the batch poster.
        let seq_pending = if self.nodes[SEQUENCER_NODE].alive {
            self.nodes[SEQUENCER_NODE].pending_txs
        } else {
            0
        };
        if self.nodes[POSTER_NODE].alive {
            let mut poster = self.nodes[POSTER_NODE];
            poster.pending_txs = seq_pending;
            self.nodes.set(POSTER_NODE, poster);
        }
        proof {
            let ns = tick_nodes(nodes0, r0, 5).0;
            assert(total_deposited(propagate_pending(ns)) == total_deposited(ns));
            assert forall|k: int| 0 <= k < 5 implies node_bounded(#[trigger] self@.nodes[k], tick as int) by {
                assert(node_bounded(ns[k], tick as int));
                assert(node_bounded(ns[1], tick as int));
            }
        }
        tick
    }

    /// About 1% of ticks an L1 to L2 deposit, about 0.5% an L2 to L1
    /// withdrawal, about 0.5% an L2 to L3 deposit.
    fn maybe_bridge_message(&mut self, tick: u64)
        requires
            step_inv(old(self)@, tick as int, 5),
            total_sent(old(self)@) <= 16000 * (tick - 1),
        ensures
            final(self)@ == spawn_bridge_messages(old(self)@, tick),
            step_inv(final(self)@, tick as int, 16),
    {
        let ghost s0 = self@;
        // About 1% of ticks: an L1 to L2 deposit.
        if self.rng.chance(P_1_PERCENT) {
            let ghost r1 = self.rng@;
            let value = self.rng.range(100, 10000);
            let latency = self.rng.range(5, 30);
            let is_retryable = self.rng.chance(P_30_PERCENT);
            proof {
                crate::prng::lemma_range(r1, 100, 10000);
                crate::prng::lemma_range(r1.range(100, 10000).0, 5, 30);
            }
            let m = BridgeMessage {
                from_layer: 1,
                to_layer: 2,
                value,
                created_tick: tick,
                deliver_tick: tick + latency,
                is_retryable,
                redeemed: false,
            };
            self.bridge_queue.push(m);
            self.total_l1_to_l2_value = self.total_l1_to_l2_value + value;
            proof {
                lemma_queue_message(s0, self@, m, tick as int, 5, 9);
            }
        }
        assert(self@ == spawn_deposit(s0, tick));
        let ghost s1 = self@;
        assert(step_inv(s1, tick as int, 9));
        // About 0.5% of ticks: an L2 to L1 withdrawal after a challenge period.
        if self.rng.chance(P_0_5_PERCENT) {
            let ghost r1 = self.rng@;
            let value = self.rng.range(50, 5000);
            let latency = self.rng.range(100, 500);
            proof {
                crate::prng::lemma_range(r1, 50, 5000);
                crate::prng::lemma_range(r1.range(50, 5000).0, 100, 500);
            }
            let m = BridgeMessage {
                from_layer: 2,
                to_layer: 1,
                value,
                created_tick: tick,
                deliver_tick: tick + latency,
                is_retryable: false,
                redeemed: false,
            };
            self.bridge_queue.push(m);
            self.total_l2_to_l1_value = self.total_l2_to_l1_value + value;
            proof {
                lemma_queue_message(s1, self@, m, tick as int, 9, 12);
            }
        }
        assert(self@ == spawn_withdrawal(s1, tick));
        let ghost s2 = self@;
        assert(step_inv(s2, tick as int, 12));
        // About 0.5% of ticks: an L2 to L3 deposit.
        if self.rng.chance(P_0_5_PERCENT) {
            let ghost r1 = self.rng@;
            let value = self.rng.range(10, 1000);
            let latency = self.rng.range(3, 15);
            let is_retryable = self.rng.chance(P_20_PERCENT);
            proof {
                crate::prng::lemma_range(r1, 10, 1000);
                crate::prng::lemma_range(r1.range(10, 1000).0, 3, 15);
            }
            let m = BridgeMessage {
                from_layer: 2,
                to_layer: 3,
                value,
                created_tick: tick,
                deliver_tick: tick + latency,
                is_retryable,
                redeemed: false,
            };
            self.bridge_queue.push(m);
            self.total_l2_to_l3_value = self.total_l2_to_l3_value + value;
            proof {
                lemma_queue_message(s2, self@, m, tick as int, 12, 16);
            }
        }
        assert(self@ == spawn_l3_deposit(s2, tick));
    }

    /// Credits a delivered message to the node of its target layer.
    fn credit_bridge_delivery(&mut self, msg: BridgeMessage)
        requires
            old(self).nodes@.len() == 5,
            total_deposited(old(self).nodes@) + msg.value <= u64::MAX,
        ensures
            final(self)@ == (SimState { nodes: credit(old(self)@.nodes, msg), ..old(self)@ }),
    {
        let idx: usize = if msg.to_layer == 1 {
            L1_NODE
        } else if msg.to_layer == 2 {
            SEQUENCER_NODE
        } else if msg.to_layer == 3 {
            L3_NODE
        } else {
            return ;
        };
        let mut node = self.nodes[idx];
        node.total_deposited = node.total_deposited + msg.value;
        self.nodes.set(idx, node);
    }

    /// Due messages leave the queue: retryable ones wait for redemption, the
    /// others are credited to their target layer.
    fn deliver_bridge_messages(&mut self, tick: u64)
        requires
            step_inv(old(self)@, tick as int, 16),
        ensures
            final(self)@ == deliver_bridge(old(self)@, tick),
            step_inv(final(self)@, tick as int, 16),
    {
        let ghost s0 = self@;
        let ghost q0 = self.bridge_queue@;
        let mut retry: Vec<BridgeMessage> = Vec::new();
        let mut delivered: Vec<BridgeMessage> = Vec::new();
        let mut remaining: Vec<BridgeMessage> = Vec::new();
        let mut i: usize = 0;
        while i < self.bridge_queue.len()
            invariant
                i <= q0.len(),
                self@ == s0,
                q0 == self.bridge_queue@,
                (retry@, delivered@, remaining@) == split_bridge(q0.take(i as int), tick),
            decreases q0.len() - i,
        {
            assert(q0.take(i + 1).drop_last() =~= q0.take(i as int));
            let msg = self.bridge_queue[i];
            if tick >= msg.deliver_tick {
                if msg.is_retryable {
                    // Retryable: waits for an explicit redemption.
                    retry.push(msg);
                } else {
                    delivered.push(msg);
                }
            } else {
                remaining.push(msg);
            }
            i = i + 1;
        }
        assert(q0.take(q0.len() as int) =~= q0);
        proof {
            lemma_split_bridge(q0, tick, tick as int);
            lemma_unredeemed_concat(s0.retryable_tickets, retry@);
            lemma_unredeemed_of_queue(retry@, tick as int);
            let (r, pp, l) = split_bridge(q0, tick);
            lemma_sums_nonneg(r);
            lemma_sums_nonneg(l);
            lemma_sums_nonneg(s0.retryable_tickets);
        }
        self.bridge_queue = remaining;
        self.retryable_tickets.append(&mut retry);
        let ghost s1 = self@;
        let ghost nodes0 = self.nodes@;
        let ghost p = delivered@;
        let mut j: usize = 0;
        while j < delivered.len()
            invariant
                j <= p.len(),
                p == delivered@,
                self@ == (SimState { nodes: self.nodes@, ..s1 }),
                self.nodes@ == credit_all(nodes0, p.take(j as int)),
                layout_ok(self.nodes@),
                forall|k: int| 0 <= k < 5 ==> node_bounded(#[trigger] self.nodes@[k], tick as int),
                forall|k: int| 0 <= k < 5 ==> (#[trigger] self.nodes@[k]).alive == nodes0[k].alive,
                total_deposited(self.nodes@) <= total_deposited(nodes0) + value_sum(p.take(j as int)),
                total_deposited(nodes0) + value_sum(p) <= 16000 * MAX_TICKS,
            decreases p.len() - j,
        {
            proof {
                lemma_value_sum_prefix(p, j as int);
                assert(p.take(j + 1).drop_last() =~= p.take(j as int));
                lemma_credit(self.nodes@, p[j as int], tick as int);
            }
            self.credit_bridge_delivery(delivered[j]);
            j = j + 1;
        }
        assert(p.take(p.len() as int) =~= p);
        proof {
            let (r, pp, l) = split_bridge(q0, tick);
            assert(self@.retryable_tickets == s0.retryable_tickets + r);
            assert forall|k: int| 0 <= k < self@.retryable_tickets.len() implies (#[trigger] self@.retryable_tickets[k]).deliver_tick <= tick + 500 by {
                if k < s0.retryable_tickets.len() {
                    assert(self@.retryable_tickets[k] == s0.retryable_tickets[k]);
                } else {
                    assert(self@.retryable_tickets[k] == r[k - s0.retryable_tickets.len()]);
                }
            }
        }
    }

    /// Auto-redeems tickets at least 5 ticks past due whose target sequencer
    /// is alive, crediting their value to it.
    fn process_retryables(&mut self, tick: u64)
        requires
            step_inv(old(self)@, tick as int, 16),
        ensures
            final(self)@ == redeem_retryables(old(self)@, tick),
            step_inv(final(self)@, tick as int, 16),
    {
        let ghost s0 = self@;
        let ghost ts0 = self.retryable_tickets@;
        let ghost nodes0 = self.nodes@;
        proof {
            lemma_sums_nonneg(s0.bridge_queue);
        }
        let n = self.retryable_tickets.len();
        let mut i: usize = 0;
        while i < n
            invariant
                i <= n,
                n == ts0.len(),
                1 <= tick <= MAX_TICKS,
                (self.retryable_tickets@, self.nodes@) == redeem_prefix(ts0, nodes0, tick, i as nat),
                self@ == (SimState {
                    retryable_tickets: self.retryable_tickets@,
                    nodes: self.nodes@,
                    ..s0
                }),
                self.retryable_tickets@.len() == n,
                tickets_bounded(self.retryable_tickets@, tick as int),
                layout_ok(self.nodes@),
                forall|k: int| 0 <= k < 5 ==> node_bounded(#[trigger] self.nodes@[k], tick as int),
                forall|k: int| 0 <= k < 5 ==> (#[trigger] self.nodes@[k]).alive == nodes0[k].alive,
                total_deposited(self.nodes@) + unredeemed_sum(self.retryable_tickets@)
                    == total_deposited(nodes0) + unredeemed_sum(ts0),
                total_deposited(nodes0) + unredeemed_sum(ts0) <= 16000 * MAX_TICKS,
            decreases n - i,
        {
            let ticket = self.retryable_tickets[i];
            if !ticket.redeemed && tick >= ticket.deliver_tick + 5 {
                if ticket.to_layer == 2 || ticket.to_layer == 3 {
                    let idx = if ticket.to_layer == 2 {
                        SEQUENCER_NODE
                    } else {
                        L3_NODE
                    };
                    // Redeemed only when the target layer's sequencer is alive.
                    if self.nodes[idx].alive {
                        proof {
                            lemma_unredeemed_redeem(self.retryable_tickets@, i as int);
                            lemma_sums_nonneg(self.retryable_tickets@.update(i as int, BridgeMessage { redeemed: true, ..ticket }));
                        }
                        let ghost before = self.retryable_tickets@;
                        self.retryable_tickets.set(i, BridgeMessage { redeemed: true, ..ticket });
                        let mut node = self.nodes[idx];
                        node.total_deposited = node.total_deposited + ticket.value;
                        self.nodes.set(idx, node);
                        assert forall|k: int| 0 <= k < self.retryable_tickets@.len() implies (#[trigger] self.retryable_tickets@[k]).deliver_tick <= tick + 500 by {
                            assert(before[k].deliver_tick <= tick + 500);
                        }
                    }
                }
            }
            i = i + 1;
        }
        proof {
            lemma_sums_nonneg(self.retryable_tickets@);
        }
    }

    /// Indices of the alive nodes other than L1, in order.
    fn crash_candidates(&self) -> (c: Vec<usize>)
        requires
            self.nodes@.len() == 5,
        ensures
            c@ == crash_candidates(self@.nodes, 5),
            forall|i: int| 0 <= i < c@.len() ==> #[trigger] c@[i] < 5,
    {
        let mut c: Vec<usize> = Vec::new();
        let mut k: usize = 0;
        while k < 5
            invariant
                k <= 5,
                self.nodes@.len() == 5,
                c@ == crash_candidates(self@.nodes, k as nat),
                forall|i: int| 0 <= i < c@.len() ==> #[trigger] c@[i] < k,
            decreases 5 - k,
        {
            if self.nodes[k].role != NodeRole::L1 && self.nodes[k].alive {
                c.push(k);
            }
            k = k + 1;
        }
        c
    }

    /// About 0.1% of ticks a random alive non-L1 node crashes (restart due 10
    /// to 100 ticks later); about 0.05% two random distinct nodes are
    /// partitioned (heal due 20 to 200 ticks later); then every due event
    /// fires: restarts, and heals of all partitions.
    fn maybe_inject_fault(&mut self)
        requires
            step_inv(old(self)@, old(self)@.ticks_run as int, 16),
        ensures
            final(self)@ == inject_faults(old(self)@),
            step_inv(final(self)@, old(self)@.ticks_run as int, 23),
    {
        let ghost s0 = self@;
        let ghost t = s0.ticks_run as int;
        // About 0.1% of ticks: crash a random alive non-L1 node.
        let ghost r0 = self.rng@;
        if self.rng.chance(P_0_1_PERCENT) {
            let candidates = self.crash_candidates();
            if candidates.len() > 0 {
                let ghost r1 = self.rng@;
                let idx = *self.rng.pick(candidates.as_slice());
                let mut node = self.nodes[idx];
                node.crash();
                self.nodes.set(idx, node);
                // Restart 10 to 100 ticks later.
                let ghost r2 = self.rng@;
                let restart_delay = self.rng.range(10, 100);
                proof {
                    crate::prng::lemma_range(r1, 0, (candidates@.len() - 1) as u64);
                    crate::prng::lemma_range(r2, 10, 100);
                }
                let now = self.clock.now();
                self.clock.schedule(now + restart_delay, idx as u64);
                assert(self@.nodes =~= s0.nodes.update(idx as int, SimNode { alive: false, ..s0.nodes[idx as int] }));
            }
        }
        assert(self@ == crash_fault(s0));
        let ghost s1 = self@;
        assert(step_inv(s1, t, 19)) by {
            assert forall|k: int| 0 <= k < 5 implies node_bounded(#[trigger] s1.nodes[k], t) by {
                assert(node_bounded(s0.nodes[k], t));
            }
            assert(total_deposited(s1.nodes) == total_deposited(s0.nodes));
        }
        // About 0.05% of ticks: partition two random nodes.
        if self.rng.chance(P_0_05_PERCENT) {
            let last = (self.nodes.len() - 1) as u64;
            let ghost ra = self.rng@;
            let a64 = self.rng.range(0, last);
            let ghost rb = self.rng@;
            let b64 = self.rng.range(0, last);
            proof {
                crate::prng::lemma_range(ra, 0, 4);
                crate::prng::lemma_range(rb, 0, 4);
            }
            let a = a64 as u32;
            let b = b64 as u32;
            if a != b {
                let group_a = vec![a];
                let group_b = vec![b];
                assert(group_a@ =~= seq![a64 as u32]);
                assert(group_b@ =~= seq![b64 as u32]);
                self.network.partition(group_a.as_slice(), group_b.as_slice());
                let ghost rc = self.rng@;
                let heal_delay = self.rng.range(20, 200);
                proof {
                    crate::prng::lemma_range(rc, 20, 200);
                }
                let now = self.clock.now();
                self.clock.schedule(now + heal_delay, 1000 + (a as u64) * 100 + (b as u64));
            }
        }
        assert(self@ == partition_fault(s1));
        let ghost s2 = self@;
        // Fire the due events: restarts and partition heals.
        loop
            invariant
                process_due_events(self@) == process_due_events(s2),
                step_inv(self@, t, 23),
                self.nodes@.len() == 5,
            ensures
                self@ == process_due_events(s2),
                step_inv(self@, t, 23),
            decreases self@.clock.events.len(),
        {
            let ghost before = self@;
            match self.clock.next_due_event() {
                Some(ev) => {
                    if ev.id < 1000 {
                        let idx = ev.id as usize;
                        if idx < self.nodes.len() {
                            let mut node = self.nodes[idx];
                            node.restart();
                            self.nodes.set(idx, node);
                        }
                    } else {
                        self.network.heal_all();
                    }
                    proof {
                        assert forall|k: int| 0 <= k < 5 implies node_bounded(#[trigger] self@.nodes[k], t) by {
                            assert(node_bounded(before.nodes[k], t));
                        }
                        assert(total_deposited(self@.nodes) == total_deposited(before.nodes));
                    }
                },
                None => {
                    break;
                },
            }
        }
    }

    fn has_fired(&self, key: ViolationKey) -> (b: bool)
        ensures
            b == self@.seen.contains(key),
    {
        let mut i: usize = 0;
        while i < self.seen_invariants.len()
            invariant
                i <= self.seen_invariants@.len(),
                forall|k: int| 0 <= k < i ==> self.seen_invariants@[k] != key,
            decreases self.seen_invariants@.len() - i,
        {
            if self.seen_invariants[i] == key {
                return true;
            }
            i = i + 1;
        }
        false
    }

    /// Records a violation only if this invariant has not fired yet for this seed.
    fn record_violation(&mut self, key: ViolationKey, tick: u64, description: String)
        ensures
            final(self)@ == record(old(self)@, key, tick, description@),
            final(self)@ == (SimState { seen: final(self)@.seen, violations: final(self)@.violations, ..old(self)@ }),
    {
        if !self.has_fired(key) {
            self.seen_invariants.push(key);
            let ghost before = self.violations@;
            let v = SimViolation { seed: self.seed, tick, description };
            self.violations.push(v);
            assert(violations_view(self.violations@) =~= violations_view(before).push(v@));
        }
    }

    /// Invariants 1 to 5: liveness of L1, sequencer, batch poster, validator and L3.
    fn check_liveness(&mut self)
        requires
            seen_ok(old(self)@),
            old(self).nodes@.len() == 5,
        ensures
            final(self)@ == check_liveness(old(self)@),
            final(self)@ == (SimState { seen: final(self)@.seen, violations: final(self)@.violations, ..old(self)@ }),
            seen_ok(final(self)@),
    {
        let ghost s0 = self@;
        let ghost ns = s0.nodes;
        let tick = self.clock.now();
        let ghost tk = tick;
        // Invariant 1: L1 must always produce blocks.
        if self.nodes[L1_NODE].block_height == 0 && tick > 10 {
            self.record_violation(ViolationKey::L1Stalled, tick, String::from_str("L1 has not produced any blocks"));
        }
        proof {
            lemma_record(s0, ViolationKey::L1Stalled, tk, "L1 has not produced any blocks"@);
        }
        let ghost s1 = self@;
        // Invariant 2: the sequencer must not stall for good.
        let l1_height = self.nodes[L1_NODE].block_height;
        let seq_height = self.nodes[SEQUENCER_NODE].block_height;
        if l1_height > 100 && seq_height == 0 {
            let mut d = String::from_str("Sequencer produced 0 blocks while L1 is at ");
            d.append(u64_text(l1_height).as_str());
            self.record_violation(ViolationKey::SequencerStalled, tick, d);
        }
        proof {
            lemma_record(s1, ViolationKey::SequencerStalled, tk,
                "Sequencer produced 0 blocks while L1 is at "@ + decimal(ns[0].block_height as nat));
        }
        let ghost s2 = self@;
        // Invariant 3: the batch poster posts within 200 ticks.
        if tick > 200 && self.nodes[POSTER_NODE].alive && self.nodes[POSTER_NODE].last_batch_posted == 0 {
            self.record_violation(ViolationKey::PosterNeverPosted, tick, String::from_str("Batch poster has never posted a batch"));
        }
        proof {
            lemma_record(s2, ViolationKey::PosterNeverPosted, tk, "Batch poster has never posted a batch"@);
        }
        let ghost s3 = self@;
        // Invariant 4: the validator asserts within 500 ticks.
        if tick > 500 && self.nodes[VALIDATOR_NODE].alive && self.nodes[VALIDATOR_NODE].last_assertion == 0 {
            self.record_violation(ViolationKey::ValidatorNeverAsserted, tick, String::from_str("Validator has never posted an assertion"));
        }
        proof {
            lemma_record(s3, ViolationKey::ValidatorNeverAsserted, tk, "Validator has never posted an assertion"@);
        }
        let ghost s4 = self@;
        // Invariant 5: an alive L3 sequencer produces blocks.
        if tick > 100 && self.nodes[L3_NODE].alive && self.nodes[L3_NODE].block_height == 0 {
            self.record_violation(ViolationKey::L3Stalled, tick, String::from_str("L3 sequencer has not produced any blocks"));
        }
        proof {
            lemma_record(s4, ViolationKey::L3Stalled, tk, "L3 sequencer has not produced any blocks"@);
        }
    }

    /// Invariant 6: no alive node's gas price drops to zero.
    fn check_zero_gas(&mut self)
        requires
            seen_ok(old(self)@),
            old(self).nodes@.len() == 5,
        ensures
            final(self)@ == check_zero_gas(old(self)@, old(self)@.nodes, old(self)@.clock.tick, 5),
            final(self)@ == (SimState { seen: final(self)@.seen, violations: final(self)@.violations, ..old(self)@ }),
            seen_ok(final(self)@),
    {
        let ghost s0 = self@;
        let ghost ns = s0.nodes;
        let tick = self.clock.now();
        proof {
            lemma_check_zero_gas(s0, ns, tick, 5);
        }
        let mut k: usize = 0;
        while k < 5
            invariant
                k <= 5,
                self.nodes@ == ns,
                ns.len() == 5,
                tick == s0.clock.tick,
                self@ == check_zero_gas(s0, ns, tick, k as nat),
            decreases 5 - k,
        {
            let node = self.nodes[k];
            if node.alive && node.gas_price == 0 {
                let mut d = String::from_str(role_label(node.role));
                d.append(" gas price dropped to 0");
                self.record_violation(ViolationKey::ZeroGas(node.role), tick, d);
            }
            k = k + 1;
        }
    }

    /// Invariant 7: after tick 200, at most 5 tickets stay unredeemed more
    /// than 100 ticks past due.
    fn check_stuck(&mut self)
        requires
            seen_ok(old(self)@),
            tickets_bounded(old(self)@.retryable_tickets, old(self)@.clock.tick as int),
            old(self)@.clock.tick <= MAX_TICKS,
        ensures
            final(self)@ == check_stuck(old(self)@),
            final(self)@ == (SimState { seen: final(self)@.seen, violations: final(self)@.violations, ..old(self)@ }),
            seen_ok(final(self)@),
    {
        let ghost s0 = self@;
        let tick = self.clock.now();
        if tick > 200 {
            let ghost ts = self@.retryable_tickets;
            let mut stuck: usize = 0;
            let mut i: usize = 0;
            while i < self.retryable_tickets.len()
                invariant
                    i <= ts.len(),
                    ts == self.retryable_tickets@,
                    stuck == stuck_count(ts.take(i as int), tick),
                    stuck <= i,
                    tickets_bounded(ts, tick as int),
                    tick <= MAX_TICKS,
                decreases ts.len() - i,
            {
                assert(ts.take(i + 1).drop_last() =~= ts.take(i as int));
                let ticket = self.retryable_tickets[i];
                if !ticket.redeemed && tick > ticket.deliver_tick + 100 {
                    stuck = stuck + 1;
                }
                i = i + 1;
            }
            assert(ts.take(ts.len() as int) =~= ts);
            if stuck > 5 {
                let mut d = usize_text(stuck);
                d.append(" retryable tickets stuck unredeemed for >100 ticks");
                self.record_violation(ViolationKey::RetryablesStuck, tick, d);
            }
        }
        proof {
            lemma_record(s0, ViolationKey::RetryablesStuck, tick,
                decimal(stuck_count(s0.retryable_tickets, tick)) + " retryable tickets stuck unredeemed for >100 ticks"@);
        }
    }

    /// Invariant 8: the nodes were never credited more than was sent.
    fn check_inflation(&mut self)
        requires
            seen_ok(old(self)@),
            accounting_ok(old(self)@),
            old(self).nodes@.len() == 5,
            total_sent(old(self)@) <= 16000 * MAX_TICKS,
        ensures
            final(self)@ == check_inflation(old(self)@),
            seen_ok(final(self)@),
    {
        let ghost s0 = self@;
        proof {
            lemma_sums_nonneg(s0.bridge_queue);
            lemma_sums_nonneg(s0.retryable_tickets);
        }
        let deposited = self.nodes[L1_NODE].total_deposited + self.nodes[SEQUENCER_NODE].total_deposited
            + self.nodes[POSTER_NODE].total_deposited + self.nodes[VALIDATOR_NODE].total_deposited
            + self.nodes[L3_NODE].total_deposited;
        let sent = self.total_l1_to_l2_value + self.total_l2_to_l1_value + self.total_l2_to_l3_value;
        if deposited > sent {
            let tick = self.clock.now();
            let mut d = String::from_str("Bridge inflation: deposited ");
            d.append(u64_text(deposited).as_str());
            d.append(" > sent ");
            d.append(u64_text(sent).as_str());
            self.record_violation(ViolationKey::BridgeInflation, tick, d);
        }
    }

    /// Checks the simulation invariants after a tick.
    fn check_invariants(&mut self)
        requires
            step_inv(old(self)@, old(self)@.ticks_run as int, 23),
        ensures
            final(self)@ == check_invariants(old(self)@),
            step_inv(final(self)@, old(self)@.ticks_run as int, 23),
    {
        let ghost s0 = self@;
        self.check_liveness();
        self.check_zero_gas();
        self.check_stuck();
        self.check_inflation();
    }

    /// Runs the simulation for `max_ticks` ticks and reports the seed, the
    /// ticks run so far, every violation recorded and the network counters.
    pub fn run(&mut self, max_ticks: u64) -> (res: SimResult)
        requires
            old(self).wf(),
            old(self)@.ticks_run + max_ticks <= MAX_TICKS,
        ensures
            final(self).wf(),
            final(self)@ == run_spec(old(self)@, max_ticks as nat),
            final(self)@.ticks_run == old(self)@.ticks_run + max_ticks,
            res@ == result_view(final(self)@),
            total_deposited(final(self)@.nodes) <= total_sent(final(self)@),
            !final(self)@.seen.contains(ViolationKey::BridgeInflation),
    {
        let ghost s0 = self@;
        let mut k: u64 = 0;
        while k < max_ticks
            invariant
                k <= max_ticks,
                s0.ticks_run + max_ticks <= MAX_TICKS,
                sim_inv(self@),
                self@ == run_spec(s0, k as nat),
                self@.ticks_run == s0.ticks_run + k,
            decreases max_ticks - k,
        {
            let ghost before = self@;
            let tick = self.begin_tick();
            self.maybe_bridge_message(tick);
            self.deliver_bridge_messages(tick);
            self.process_retryables(tick);
            self.maybe_inject_fault();
            self.check_invariants();
            // Deliver any pending network messages.
            let _msgs = self.network.deliver(tick);
            k = k + 1;
            proof {
                lemma_sums_nonneg(self@.bridge_queue);
                lemma_sums_nonneg(self@.retryable_tickets);
                reveal(sim_step);
                assert(self@ == sim_step(before));
            }
        }
        proof {
            lemma_sums_nonneg(self@.bridge_queue);
            lemma_sums_nonneg(self@.retryable_tickets);
        }
        let mut violations: Vec<SimViolation> = Vec::new();
        let mut i: usize = 0;
        while i < self.violations.len()
            invariant
                i <= self.violations@.len(),
                violations_view(violations@) == violations_view(self.violations@).take(i as int),
                violations@.len() == i,
            decreases self.violations@.len() - i,
        {
            let ghost before = violations@;
            let v = self.violations[i].duplicate();
            violations.push(v);
            assert(violations_view(violations@) =~= violations_view(before).push(v@));
            assert(violations_view(self.violations@).take(i + 1) =~= violations_view(self.violations@).take(i as int).push(v@));
            i = i + 1;
        }
        assert(violations_view(self.violations@).take(self.violations@.len() as int) =~= violations_view(self.violations@));
        SimResult {
            seed: self.seed,
            ticks: self.ticks_run,
            violations,
            network_stats: self.network.stats(),
        }
    }

}

/// The report of a simulation run.
pub struct SimResult {
    pub seed: u64,
    pub ticks: u64,
    pub violations: Vec<SimViolation>,
    pub network_stats: NetworkStats,
}

impl View for SimResult {
    type V = SimResultView;

    open spec fn view(&self) -> SimResultView {
        SimResultView {
            seed: self.seed,
            ticks: self.ticks,
            violations: violations_view(self.violations@),
            network_stats: self.network_stats,
        }
    }
}

impl SimResult {
    /// Whether no invariant was violated.
    pub fn passed(&self) -> (b: bool)
        ensures
            b == (self.violations@.len() == 0),
    {
        self.violations.len() == 0
    }
}

/// Result of a simulation campaign over many seeds.
#[derive(Debug)]
pub struct CampaignResult {
    pub seeds_run: u64,
    pub seeds_passed: u64,
    pub seeds_failed: u64,
    pub total_ticks: u64,
    pub violations: Vec<SimViolation>,
}

impl View for CampaignResult {
    type V = CampaignView;

    open spec fn view(&self) -> CampaignView {
        CampaignView {
            seeds_run: self.seeds_run,
            seeds_passed: self.seeds_passed,
            seeds_failed: self.seeds_failed,
            total_ticks: self.total_ticks,
            violations: violations_view(self.violations@),
        }
    }
}

/// A campaign's counters: every seed runs, passes or fails, and runs all its ticks.
pub proof fn law_campaign_counts(n: nat, ticks: u64, start: u64)
    requires
        n <= u64::MAX,
        n * ticks <= u64::MAX,
        ticks <= MAX_TICKS,
    ensures
        campaign_spec(n, ticks, start).seeds_run == n,
        campaign_spec(n, ticks, start).seeds_passed + campaign_spec(n, ticks, start).seeds_failed == n,
        campaign_spec(n, ticks, start).total_ticks == n * ticks,
    decreases n,
{
    if n > 0 {
        let m = (n - 1) as nat;
        assert(n * ticks == m * ticks + ticks) by (nonlinear_arith)
            requires
                m == n - 1,
        ;
        law_campaign_counts(m, ticks, start);
        let seed = (start + n - 1) as u64;
        lemma_run_ticks(initial_state(seed), ticks as nat);
        assert(simulate(seed, ticks).ticks_run == ticks);
    } else {
        assert(n * ticks == 0) by (nonlinear_arith)
            requires
                n == 0,
        ;
    }
}

/// Same seed, same result: a simulation's outcome depends on nothing but its
/// seed and the number of ticks, so two simulators built with one seed and
/// run alike report alike.
pub proof fn law_same_seed_same_result(a: SimState, b: SimState, ticks: nat)
    requires
        a == b,
    ensures
        result_view(run_spec(a, ticks)) == result_view(run_spec(b, ticks)),
{
}

/// `after` holds the violations of `before`, in order, then only new ones,
/// each at a tick in `[lo, hi]`.
pub open spec fn extends_within(before: Seq<ViolationView>, after: Seq<ViolationView>, lo: int, hi: int) -> bool {
    &&& before.len() <= after.len()
    &&& after.take(before.len() as int) == before
    &&& forall|i: int| before.len() <= i < after.len() ==> lo <= #[trigger] after[i].tick <= hi
}

/// Violations in the order of their ticks.
pub open spec fn ticks_ordered(v: Seq<ViolationView>) -> bool {
    forall|i: int, j: int| 0 <= i < j < v.len() ==> v[i].tick <= v[j].tick
}

proof fn lemma_extends_trans(a: Seq<ViolationView>, b: Seq<ViolationView>, c: Seq<ViolationView>, lo: int, hi: int, lo2: int, hi2: int)
    requires
        extends_within(a, b, lo, hi),
        extends_within(b, c, lo2, hi2),
        lo2 <= lo,
        hi <= hi2,
    ensures
        extends_within(a, c, lo2, hi2),
{
    assert(c.take(a.len() as int) =~= b.take(a.len() as int)) by {
        assert forall|i: int| 0 <= i < a.len() implies c[i] == b[i] by {
            assert(c.take(b.len() as int)[i] == b[i]);
        }
    }
    assert forall|i: int| a.len() <= i < c.len() implies lo2 <= #[trigger] c[i].tick <= hi2 by {
        if i < b.len() {
            assert(c.take(b.len() as int)[i] == b[i]);
        }
    }
}

proof fn lemma_record_extends(s: SimState, key: ViolationKey, tick: u64, d: Seq<char>)
    ensures
        extends_within(s.violations, record(s, key, tick, d).violations, tick as int, tick as int),
        record(s, key, tick, d).clock == s.clock,
{
    assert(record(s, key, tick, d).violations.take(s.violations.len() as int) =~= s.violations);
}

proof fn lemma_zero_gas_extends(s: SimState, nodes: Seq<SimNode>, tick: u64, k: nat)
    ensures
        extends_within(s.violations, check_zero_gas(s, nodes, tick, k).violations, tick as int, tick as int),
        check_zero_gas(s, nodes, tick, k).clock == s.clock,
    decreases k,
{
    if k == 0 {
        assert(s.violations.take(s.violations.len() as int) =~= s.violations);
    } else {
        let s1 = check_zero_gas(s, nodes, tick, (k - 1) as nat);
        lemma_zero_gas_extends(s, nodes, tick, (k - 1) as nat);
        let n = nodes[k - 1];
        if n.alive && n.gas_price == 0 {
            let d = role_name(n.role) + " gas price dropped to 0"@;
            lemma_record_extends(s1, ViolationKey::ZeroGas(n.role), tick, d);
            lemma_extends_trans(s.violations, s1.violations, check_zero_gas(s, nodes, tick, k).violations, tick as int, tick as int, tick as int, tick as int);
        }
    }
}

proof fn lemma_checks_extends(s: SimState)
    ensures
        extends_within(s.violations, check_invariants(s).violations, s.clock.tick as int, s.clock.tick as int),
        check_invariants(s).clock == s.clock,
{
    let t = s.clock.tick as int;
    let ns = s.nodes;
    let tick = s.clock.tick;
    let a0 = s;
    let a1 = if ns[0].block_height == 0 && tick > 10 {
        record(a0, ViolationKey::L1Stalled, tick, "L1 has not produced any blocks"@)
    } else {
        a0
    };
    lemma_record_extends(a0, ViolationKey::L1Stalled, tick, "L1 has not produced any blocks"@);
    assert(a0.violations.take(a0.violations.len() as int) =~= a0.violations);
    let d2 = "Sequencer produced 0 blocks while L1 is at "@ + decimal(ns[0].block_height as nat);
    let a2 = if ns[0].block_height > 100 && ns[1].block_height == 0 {
        record(a1, ViolationKey::SequencerStalled, tick, d2)
    } else {
        a1
    };
    lemma_record_extends(a1, ViolationKey::SequencerStalled, tick, d2);
    assert(a1.violations.take(a1.violations.len() as int) =~= a1.violations);
    lemma_extends_trans(a0.violations, a1.violations, a2.violations, t, t, t, t);
    let a3 = if tick > 200 && ns[2].alive && ns[2].last_batch_posted == 0 {
        record(a2, ViolationKey::PosterNeverPosted, tick, "Batch poster has never posted a batch"@)
    } else {
        a2
    };
    lemma_record_extends(a2, ViolationKey::PosterNeverPosted, tick, "Batch poster has never posted a batch"@);
    assert(a2.violations.take(a2.violations.len() as int) =~= a2.violations);
    lemma_extends_trans(a0.violations, a2.violations, a3.violations, t, t, t, t);
    let a4 = if tick > 500 && ns[3].alive && ns[3].last_assertion == 0 {
        record(a3, ViolationKey::ValidatorNeverAsserted, tick, "Validator has never posted an assertion"@)
    } else {
        a3
    };
    lemma_record_extends(a3, ViolationKey::ValidatorNeverAsserted, tick, "Validator has never posted an assertion"@);
    assert(a3.violations.take(a3.violations.len() as int) =~= a3.violations);
    lemma_extends_trans(a0.violations, a3.violations, a4.violations, t, t, t, t);
    let a5 = check_liveness(s);
    lemma_record_extends(a4, ViolationKey::L3Stalled, tick, "L3 sequencer has not produced any blocks"@);
    assert(a4.violations.take(a4.violations.len() as int) =~= a4.violations);
    lemma_extends_trans(a0.violations, a4.violations, a5.violations, t, t, t, t);
    let a6 = check_zero_gas(a5, s.nodes, tick, 5);
    lemma_zero_gas_extends(a5, s.nodes, tick, 5);
    lemma_extends_trans(a0.violations, a5.violations, a6.violations, t, t, t, t);
    let a7 = check_stuck(a6);
    let stuck = stuck_count(a6.retryable_tickets, tick);
    lemma_record_extends(a6, ViolationKey::RetryablesStuck, tick, decimal(stuck) + " retryable tickets stuck unredeemed for >100 ticks"@);
    assert(a6.violations.take(a6.violations.len() as int) =~= a6.violations);
    lemma_extends_trans(a0.violations, a6.violations, a7.violations, t, t, t, t);
    let a8 = check_inflation(a7);
    let deposited = total_deposited(a7.nodes);
    let sent = total_sent(a7);
    lemma_record_extends(a7, ViolationKey::BridgeInflation, tick,
        "Bridge inflation: deposited "@ + decimal(deposited as nat) + " > sent "@ + decimal(sent as nat));
    assert(a7.violations.take(a7.violations.len() as int) =~= a7.violations);
    lemma_extends_trans(a0.violations, a7.violations, a8.violations, t, t, t, t);
}

proof fn lemma_process_due_keeps(s: SimState)
    ensures
        process_due_events(s).violations == s.violations,
        process_due_events(s).clock.tick == s.clock.tick,
    decreases s.clock.events.len(),
{
    if let Some(ev) = s.clock.due_event() {
        let s1 = SimState { clock: s.clock.after_due_event(), ..s };
        let s2 = if ev.id < 1000 {
            if ev.id < s.nodes.len() {
                SimState {
                    nodes: s1.nodes.update(ev.id as int, SimNode { alive: true, ..s1.nodes[ev.id as int] }),
                    ..s1
                }
            } else {
                s1
            }
        } else {
            SimState { network: NetState { partitions: Set::empty(), ..s1.network }, ..s1 }
        };
        lemma_process_due_keeps(s2);
    }
}

proof fn lemma_step_extends(s: SimState)
    requires
        s.clock.tick < u64::MAX,
    ensures
        extends_within(s.violations, sim_step(s).violations, s.clock.tick + 1, s.clock.tick + 1),
        sim_step(s).clock.tick == s.clock.tick + 1,
{
    let tick = (s.clock.tick + 1) as u64;
    let s1 = SimState { clock: ClockState { tick, ..s.clock }, ticks_run: (s.ticks_run + 1) as u64, ..s };
    let (ns, r) = tick_nodes(s1.nodes, s1.rng, 5);
    let s2 = SimState { nodes: propagate_pending(ns), rng: r, ..s1 };
    let s3 = spawn_bridge_messages(s2, tick);
    let s4 = deliver_bridge(s3, tick);
    let s5 = redeem_retryables(s4, tick);
    let s6 = inject_faults(s5);
    lemma_process_due_keeps(partition_fault(crash_fault(s5)));
    assert(s6.violations == s.violations && s6.clock.tick == tick);
    let s7 = check_invariants(s6);
    lemma_checks_extends(s6);
    reveal(sim_step);
    assert(sim_step(s) == (SimState { network: s7.network.after_deliver(tick), ..s7 }));
}

/// Runs only add violations, in the order of their ticks: after `n` more
/// ticks the violations recorded before are still there, first and in
/// order, and each new one carries one of the new ticks; violations that
/// were in tick order, none past the clock, stay in tick order.
pub proof fn law_run_appends_violations(s: SimState, n: nat)
    requires
        s.clock.tick + n <= u64::MAX,
    ensures
        extends_within(s.violations, run_spec(s, n).violations, s.clock.tick + 1, s.clock.tick + n),
        run_spec(s, n).clock.tick == s.clock.tick + n,
        ticks_ordered(s.violations) && (forall|i: int| 0 <= i < s.violations.len() ==> (
        #[trigger] s.violations[i]).tick <= s.clock.tick) ==> ticks_ordered(run_spec(s, n).violations),
    decreases n,
{
    if n == 0 {
        assert(s.violations.take(s.violations.len() as int) =~= s.violations);
    } else {
        let m = (n - 1) as nat;
        law_run_appends_violations(s, m);
        let p = run_spec(s, m);
        lemma_step_extends(p);
        lemma_extends_trans(s.violations, p.violations, run_spec(s, n).violations, s.clock.tick + 1, s.clock.tick + m, s.clock.tick + 1, s.clock.tick + n);
        if ticks_ordered(s.violations) && (forall|i: int| 0 <= i < s.violations.len() ==> (
        #[trigger] s.violations[i]).tick <= s.clock.tick) {
            let v = run_spec(s, n).violations;
            let pv = p.violations;
            assert forall|i: int, j: int| 0 <= i < j < v.len() implies v[i].tick <= v[j].tick by {
                if j < pv.len() {
                    assert(v.take(pv.len() as int)[i] == pv[i]);
                    assert(v.take(pv.len() as int)[j] == pv[j]);
                } else if i < pv.len() {
                    assert(v.take(pv.len() as int)[i] == pv[i]);
                    if i < s.violations.len() {
                        assert(pv.take(s.violations.len() as int)[i] == s.violations[i]);
                    }
                }
            }
        }
    }
}

/// A violation is recorded once per key: recording a key not seen before
/// appends one violation with the simulator's seed and the given tick and
/// description; recording a key already seen changes nothing, so a second
/// recording under the same key is lost whatever its tick or text.
pub proof fn law_record_once(s: SimState, key: ViolationKey, tick: u64, d: Seq<char>, tick2: u64, d2: Seq<char>)
    ensures
        s.seen.contains(key) ==> record(s, key, tick, d) == s,
        !s.seen.contains(key) ==> record(s, key, tick, d) == (SimState {
            seen: s.seen.push(key),
            violations: s.violations.push(ViolationView { seed: s.seed, tick, description: d }),
            ..s
        }),
        record(record(s, key, tick, d), key, tick2, d2) == record(s, key, tick, d),
{
    if !s.seen.contains(key) {
        assert(s.seen.push(key).contains(key)) by {
            assert(s.seen.push(key)[s.seen.len() as int] == key);
        }
    }
}

/// Recording `key` adds `key` to the keys seen, and nothing else.
proof fn lemma_record_seen(s: SimState, key: ViolationKey, tick: u64, d: Seq<char>, x: ViolationKey)
    ensures
        record(s, key, tick, d).seen.contains(x) <==> (s.seen.contains(x) || x == key),
{
    if !s.seen.contains(key) {
        let p = s.seen.push(key);
        assert(p[s.seen.len() as int] == key);
        if s.seen.contains(x) {
            let k = choose|k: int| 0 <= k < s.seen.len() && s.seen[k] == x;
            assert(p[k] == x);
        }
        if p.contains(x) {
            let k = choose|k: int| 0 <= k < p.len() && p[k] == x;
            if k < s.seen.len() {
                assert(s.seen[k] == x);
            }
        }
    }
}

/// The zero gas checks record no batch poster violation.
proof fn lemma_zero_gas_keeps_poster_key(s: SimState, nodes: Seq<SimNode>, tick: u64, k: nat)
    ensures
        check_zero_gas(s, nodes, tick, k).seen.contains(ViolationKey::PosterNeverPosted)
            <==> s.seen.contains(ViolationKey::PosterNeverPosted),
    decreases k,
{
    if k > 0 {
        lemma_zero_gas_keeps_poster_key(s, nodes, tick, (k - 1) as nat);
        let s1 = check_zero_gas(s, nodes, tick, (k - 1) as nat);
        let n = nodes[k - 1];
        lemma_record_seen(s1, ViolationKey::ZeroGas(n.role), tick, role_name(n.role) + " gas price dropped to 0"@,
            ViolationKey::PosterNeverPosted);
    }
}

/// The batch poster check reads the batch poster, node 2 of the layout: a
/// tick's checks record that the batch poster has never posted a batch
/// (when that was not recorded before) exactly when the tick is past 200 and
/// that node is alive with no batch of its own posted yet.
pub proof fn law_poster_check_reads_poster(s: SimState)
    requires
        !s.seen.contains(ViolationKey::PosterNeverPosted),
    ensures
        layout_ok(s.nodes) ==> s.nodes[POSTER_NODE as int].role == NodeRole::BatchPoster,
        check_invariants(s).seen.contains(ViolationKey::PosterNeverPosted) <==> (s.clock.tick > 200
            && s.nodes[2].alive && s.nodes[2].last_batch_posted == 0),
        (s.clock.tick > 200 && s.nodes[2].alive && s.nodes[2].last_batch_posted == 0)
            ==> check_invariants(s).violations.contains(
            ViolationView { seed: s.seed, tick: s.clock.tick, description: "Batch poster has never posted a batch"@ },
        ),
{
    let x = ViolationKey::PosterNeverPosted;
    let ns = s.nodes;
    let tick = s.clock.tick;
    let t = tick as int;
    let a1 = if ns[0].block_height == 0 && tick > 10 {
        record(s, ViolationKey::L1Stalled, tick, "L1 has not produced any blocks"@)
    } else {
        s
    };
    lemma_record_seen(s, ViolationKey::L1Stalled, tick, "L1 has not produced any blocks"@, x);
    let d2 = "Sequencer produced 0 blocks while L1 is at "@ + decimal(ns[0].block_height as nat);
    let a2 = if ns[0].block_height > 100 && ns[1].block_height == 0 {
        record(a1, ViolationKey::SequencerStalled, tick, d2)
    } else {
        a1
    };
    lemma_record_seen(a1, ViolationKey::SequencerStalled, tick, d2, x);
    let d3 = "Batch poster has never posted a batch"@;
    let a3 = if tick > 200 && ns[2].alive && ns[2].last_batch_posted == 0 {
        record(a2, x, tick, d3)
    } else {
        a2
    };
    lemma_record_seen(a2, x, tick, d3, x);
    let d4 = "Validator has never posted an assertion"@;
    let a4 = if tick > 500 && ns[3].alive && ns[3].last_assertion == 0 {
        record(a3, ViolationKey::ValidatorNeverAsserted, tick, d4)
    } else {
        a3
    };
    lemma_record_seen(a3, ViolationKey::ValidatorNeverAsserted, tick, d4, x);
    lemma_record_extends(a3, ViolationKey::ValidatorNeverAsserted, tick, d4);
    assert(a3.violations.take(a3.violations.len() as int) =~= a3.violations);
    let a5 = check_liveness(s);
    let d5 = "L3 sequencer has not produced any blocks"@;
    lemma_record_seen(a4, ViolationKey::L3Stalled, tick, d5, x);
    lemma_record_extends(a4, ViolationKey::L3Stalled, tick, d5);
    assert(a4.violations.take(a4.violations.len() as int) =~= a4.violations);
    lemma_extends_trans(a3.violations, a4.violations, a5.violations, t, t, t, t);
    let a6 = check_zero_gas(a5, s.nodes, tick, 5);
    lemma_zero_gas_keeps_poster_key(a5, s.nodes, tick, 5);
    lemma_zero_gas_extends(a5, s.nodes, tick, 5);
    lemma_extends_trans(a3.violations, a5.violations, a6.violations, t, t, t, t);
    let stuck = stuck_count(a6.retryable_tickets, tick);
    let d7 = decimal(stuck) + " retryable tickets stuck unredeemed for >100 ticks"@;
    lemma_record_seen(a6, ViolationKey::RetryablesStuck, tick, d7, x);
    lemma_record_extends(a6, ViolationKey::RetryablesStuck, tick, d7);
    assert(a6.violations.take(a6.violations.len() as int) =~= a6.violations);
    let a7 = check_stuck(a6);
    lemma_extends_trans(a3.violations, a6.violations, a7.violations, t, t, t, t);
    let deposited = total_deposited(a7.nodes);
    let sent = total_sent(a7);
    let d8 = "Bridge inflation: deposited "@ + decimal(deposited as nat) + " > sent "@ + decimal(sent as nat);
    lemma_record_seen(a7, ViolationKey::BridgeInflation, tick, d8, x);
    lemma_record_extends(a7, ViolationKey::BridgeInflation, tick, d8);
    assert(a7.violations.take(a7.violations.len() as int) =~= a7.violations);
    let a8 = check_invariants(s);
    lemma_extends_trans(a3.violations, a7.violations, a8.violations, t, t, t, t);
    if tick > 200 && ns[2].alive && ns[2].last_batch_posted == 0 {
        let v = ViolationView { seed: s.seed, tick, description: d3 };
        let k = a2.violations.len() as int;
        assert(a3.violations[k] == v);
        assert(a8.violations.take(a3.violations.len() as int)[k] == v);
        assert(a8.violations[k] == v);
    }
}

/// What holds of every state a simulator reaches (`Simulator::new` makes one
/// and `Simulator::run` keeps it so): each invariant class is recorded at most
/// once per seed, one violation per class, all for the simulator's seed; and
/// the bridge creates no value: what was credited, plus what is queued, plus
/// what waits in unredeemed tickets, is at most what was sent.
pub proof fn law_reachable_states(s: SimState)
    requires
        sim_inv(s),
    ensures
        s.violations.len() == s.seen.len(),
        forall|i: int, j: int| 0 <= i < j < s.seen.len() ==> s.seen[i] != s.seen[j],
        forall|i: int| 0 <= i < s.violations.len() ==> (#[trigger] s.violations[i]).seed == s.seed,
        !s.seen.contains(ViolationKey::BridgeInflation),
        total_deposited(s.nodes) + value_sum(s.bridge_queue) + unredeemed_sum(s.retryable_tickets)
            <= total_sent(s),
{
}

/// Runs a campaign over the seeds `starting_seed .. starting_seed + num_seeds`,
/// each for `ticks_per_seed` ticks; keeps at most 10 violations per failed seed.
pub fn run_campaign(num_seeds: u64, ticks_per_seed: u64, starting_seed: u64) -> (result: CampaignResult)
    requires
        ticks_per_seed <= MAX_TICKS,
        num_seeds * ticks_per_seed <= u64::MAX,
        num_seeds == 0 || starting_seed + (num_seeds - 1) <= u64::MAX,
    ensures
        result@ == campaign_spec(num_seeds as nat, ticks_per_seed, starting_seed),
        result.seeds_run == num_seeds,
        result.total_ticks == num_seeds * ticks_per_seed,
        result.seeds_passed + result.seeds_failed == num_seeds,
{
    let mut result = CampaignResult {
        seeds_run: 0,
        seeds_passed: 0,
        seeds_failed: 0,
        total_ticks: 0,
        violations: Vec::new(),
    };
    assert(violations_view(result.violations@) =~= Seq::<ViolationView>::empty());
    let mut i: u64 = 0;
    while i < num_seeds
        invariant
            i <= num_seeds,
            ticks_per_seed <= MAX_TICKS,
            num_seeds * ticks_per_seed <= u64::MAX,
            num_seeds == 0 || starting_seed + (num_seeds - 1) <= u64::MAX,
            result@ == campaign_spec(i as nat, ticks_per_seed, starting_seed),
        decreases num_seeds - i,
    {
        proof {
            assert(i * ticks_per_seed + ticks_per_seed <= num_seeds * ticks_per_seed) by (nonlinear_arith)
                requires
                    i < num_seeds,
            ;
            law_campaign_counts(i as nat, ticks_per_seed, starting_seed);
        }
        let seed = starting_seed + i;
        let mut sim = Simulator::new(seed);
        let sr = sim.run(ticks_per_seed);
        proof {
            lemma_run_ticks(initial_state(seed), ticks_per_seed as nat);
            assert(seed == (starting_seed + (i + 1) - 1) as u64);
        }
        result.seeds_run = result.seeds_run + 1;
        result.total_ticks = result.total_ticks + sr.ticks;
        if sr.passed() {
            result.seeds_passed = result.seeds_passed + 1;
        } else {
            result.seeds_failed = result.seeds_failed + 1;
            // At most 10 violations per seed, to bound memory.
            let ghost before = violations_view(result.violations@);
            let ghost counters = (result.seeds_run, result.seeds_passed, result.seeds_failed, result.total_ticks);
            let mut j: usize = 0;
            while j < sr.violations.len() && j < 10
                invariant
                    j <= sr.violations@.len(),
                    j <= 10,
                    counters == (result.seeds_run, result.seeds_passed, result.seeds_failed, result.total_ticks),
                    violations_view(result.violations@) == before + violations_view(sr.violations@).take(j as int),
                decreases sr.violations@.len() - j,
            {
                let ghost prev = result.violations@;
                let v = sr.violations[j].duplicate();
                result.violations.push(v);
                assert(violations_view(result.violations@) =~= violations_view(prev).push(v@));
                assert(violations_view(sr.violations@).take(j + 1) =~= violations_view(sr.violations@).take(j as int).push(v@));
                j = j + 1;
            }
            assert(violations_view(sr.violations@).take(j as int) =~= first_ten(violations_view(sr.violations@)));
        }
        i = i + 1;
    }
    proof {
        law_campaign_counts(num_seeds as nat, ticks_per_seed, starting_seed);
    }
    result
}

} // verus!
