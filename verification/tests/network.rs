use r30rg::network::{NetworkConfig, SimulatedNetwork};
use r30rg::prng::DeterministicRng;

fn lossless() -> NetworkConfig {
    NetworkConfig { message_loss_rate: 0, ..Default::default() }
}

fn clean() -> NetworkConfig {
    NetworkConfig { message_loss_rate: 0, duplication_rate: 0, reorder_rate: 0, ..Default::default() }
}

#[test]
fn partition_drops_messages() {
    let mut net = SimulatedNetwork::new(lossless());
    let mut rng = DeterministicRng::new(42);

    net.partition(&[0], &[1]);
    net.send(&mut rng, 0, 0, 1, vec![1, 2, 3]);

    let msgs = net.deliver(1000);
    assert!(msgs.is_empty(), "partitioned message should be dropped");
    assert_eq!(net.stats().dropped, 1);
}

#[test]
fn messages_deliver_after_latency() {
    let mut net = SimulatedNetwork::new(NetworkConfig {
        message_loss_rate: 0,
        min_latency_ticks: 10,
        max_latency_ticks: 10,
        ..Default::default()
    });
    let mut rng = DeterministicRng::new(42);

    net.send(&mut rng, 0, 0, 1, vec![42]);

    let early = net.deliver(5);
    assert!(early.is_empty());

    let on_time = net.deliver(10);
    assert_eq!(on_time.len(), 1);
    assert_eq!(on_time[0].payload, vec![42]);
}

#[test]
fn partitions_cut_both_directions_and_heal() {
    let mut net = SimulatedNetwork::new(clean());
    let mut rng = DeterministicRng::new(4);
    net.partition(&[0, 1], &[2]);
    assert_eq!(net.stats().active_partitions, 2);
    // Both directions of a cut link drop messages; other links deliver.
    net.send(&mut rng, 0, 0, 2, vec![1]);
    net.send(&mut rng, 0, 2, 1, vec![2]);
    net.send(&mut rng, 0, 0, 1, vec![3]);
    assert_eq!(net.stats().dropped, 2);
    let ready = net.deliver(1000);
    assert_eq!(ready.len(), 1);
    assert_eq!(ready[0].payload, vec![3]);
    net.heal(&[0], &[2]);
    assert_eq!(net.stats().active_partitions, 1);
    net.send(&mut rng, 1000, 2, 0, vec![4]);
    assert_eq!(net.stats().dropped, 2);
    net.heal_all();
    assert_eq!(net.stats().active_partitions, 0);
}

#[test]
fn default_network_rates() {
    let c = NetworkConfig::default();
    assert_eq!(c.min_latency_ticks, 1);
    assert_eq!(c.max_latency_ticks, 50);
    // 1% loss, 0.1% duplication, 5% reordering, as thresholds of 2^64.
    assert_eq!(c.message_loss_rate, (0.01 * u64::MAX as f64) as u64);
    assert_eq!(c.duplication_rate, (0.001 * u64::MAX as f64) as u64);
    assert_eq!(c.reorder_rate, (0.05 * u64::MAX as f64) as u64);
}

#[test]
fn delivery_conserves_messages() {
    let mut net = SimulatedNetwork::new(clean());
    let mut rng = DeterministicRng::new(9);
    for i in 0..20u32 {
        net.send(&mut rng, i as u64, i % 3, (i + 1) % 3, vec![i as u8]);
    }
    let before = net.stats();
    let ready = net.deliver(30);
    let after = net.stats();
    assert_eq!(after.delivered, before.delivered + ready.len() as u64);
    assert_eq!(after.in_flight + ready.len() as u64, before.in_flight);
    for m in &ready {
        assert!(m.deliver_at_tick <= 30);
    }
}
