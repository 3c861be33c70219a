use r30rg::prng::DeterministicRng;
use r30rg::simulator::{run_campaign, NodeRole, SimNode, Simulator};

#[test]
fn deterministic_same_seed_same_result() {
    let mut a = Simulator::new(1337);
    let mut b = Simulator::new(1337);
    let ra = a.run(1000);
    let rb = b.run(1000);
    assert_eq!(ra.violations.len(), rb.violations.len());
    assert_eq!(ra.ticks, rb.ticks);
}

#[test]
fn campaign_runs_multiple_seeds() {
    let result = run_campaign(100, 500, 0);
    assert_eq!(result.seeds_run, 100);
    assert_eq!(result.total_ticks, 100 * 500);
}

#[test]
fn same_seed_same_violations_and_stats() {
    let ra = Simulator::new(7).run(2000);
    let rb = Simulator::new(7).run(2000);
    assert_eq!(ra.seed, 7);
    assert_eq!(ra.ticks, 2000);
    assert_eq!(ra.violations.len(), rb.violations.len());
    for (x, y) in ra.violations.iter().zip(rb.violations.iter()) {
        assert_eq!(x.tick, y.tick);
        assert_eq!(x.description, y.description);
        assert_eq!(x.seed, 7);
    }
    assert_eq!(ra.network_stats.delivered, rb.network_stats.delivered);
    assert_eq!(ra.network_stats.dropped, rb.network_stats.dropped);
    assert_eq!(ra.passed(), ra.violations.is_empty());
}

#[test]
fn campaign_counts_add_up() {
    let result = run_campaign(12, 300, 40);
    assert_eq!(result.seeds_run, 12);
    assert_eq!(result.seeds_passed + result.seeds_failed, 12);
    assert_eq!(result.total_ticks, 12 * 300);
    // A campaign keeps at most 10 violations of each failed seed.
    assert!(result.violations.len() as u64 <= 10 * result.seeds_failed);
    // Each seed's outcome is that of a lone run of it.
    let mut failed = 0;
    for seed in 40..52 {
        if !Simulator::new(seed).run(300).passed() {
            failed += 1;
        }
    }
    assert_eq!(result.seeds_failed, failed);
}

#[test]
fn empty_campaign() {
    let result = run_campaign(0, 100, 5);
    assert_eq!(result.seeds_run, 0);
    assert_eq!(result.total_ticks, 0);
    assert!(result.violations.is_empty());
}

#[test]
fn nodes_start_funded_and_alive() {
    let l1 = SimNode::new(0, NodeRole::L1);
    assert!(l1.alive);
    assert_eq!(l1.balance, 1_000_000_000);
    assert_eq!(l1.gas_price, 1_000);
    assert_eq!(SimNode::new(1, NodeRole::Sequencer).balance, 100_000_000);
    assert_eq!(SimNode::new(4, NodeRole::L3Sequencer).balance, 10_000_000);
    assert_eq!(SimNode::new(2, NodeRole::BatchPoster).balance, 50_000_000);
    assert_eq!(SimNode::new(3, NodeRole::Validator).balance, 50_000_000);
}

#[test]
fn crashed_nodes_stand_still() {
    let mut node = SimNode::new(1, NodeRole::Sequencer);
    let mut rng = DeterministicRng::new(1);
    node.tick(&mut rng);
    assert_eq!(node.block_height, 1);
    node.crash();
    assert!(!node.alive);
    let ops = rng.operations();
    node.tick(&mut rng);
    assert_eq!(node.block_height, 1);
    assert_eq!(rng.operations(), ops);
    node.restart();
    assert!(node.alive);
    node.tick(&mut rng);
    assert_eq!(node.block_height, 2);
}

#[test]
fn node_ticks_touch_only_their_role() {
    // A crashed node does nothing, whatever its counters.
    let mut dead = SimNode::new(1, NodeRole::Sequencer);
    dead.crash();
    dead.pending_txs = u64::MAX;
    dead.block_height = u64::MAX;
    let mut rng = DeterministicRng::new(2);
    dead.tick(&mut rng);
    assert_eq!(dead.pending_txs, u64::MAX);
    assert_eq!(rng.operations(), 0);
    // A validator keeps its gas price and pending transactions.
    let mut v = SimNode::new(3, NodeRole::Validator);
    v.gas_price = u64::MAX;
    v.pending_txs = u64::MAX;
    v.tick(&mut rng);
    assert_eq!(v.gas_price, u64::MAX);
    assert_eq!(v.pending_txs, u64::MAX);
    assert_eq!(v.block_height, 1);
    assert_eq!(rng.operations(), 1);
}
