//! Deterministic chaos and adversarial testing for rollup stacks.
pub mod prng;
pub mod time;
pub mod text;
pub mod types;
pub mod invariants;
pub mod scenario;
pub mod chaos;
pub mod network;
pub mod simulator;
pub mod scenarios;
pub mod cli;
pub mod live;
