use r30rg::chaos::{testnode_containers, ChaosProfile, FaultGenerator};
use r30rg::invariants::{class_severity, violation, InvariantClass, InvariantResult};
use r30rg::prng::DeterministicRng;
use r30rg::types::{Address, ContainerTarget, InfraFault, Layer, Severity, U256};

#[test]
fn u256_arithmetic_and_text() {
    let max = U256 { hi: u128::MAX, lo: u128::MAX };
    let one = U256::from_u64(1);
    let wrapped = max.wrapping_add(&one);
    assert!(wrapped.is_zero());
    let carry = U256 { hi: 0, lo: u128::MAX }.wrapping_add(&one);
    assert_eq!((carry.hi, carry.lo), (1, 0));
    assert_eq!(carry.to_string(), "340282366920938463463374607431768211456");
    assert_eq!(
        max.to_string(),
        "115792089237316195423570985008687907853269984665640564039457584007913129639935"
    );
    assert_eq!(U256::zero().to_string(), "0");
    assert!(one.lt(&carry));
    assert!(!carry.lt(&one));
    assert_eq!(U256::from_u64(12345).limbs(), [12345, 0, 0, 0]);
    assert_eq!(carry.limbs(), [0, 0, 1, 0]);
}

#[test]
fn address_parsing_and_checksum() {
    let a = Address::parse("0xd8da6bf26964af9d7eed9e03e53415d37aa96045").unwrap();
    assert_eq!(a.to_string(), "0xd8dA6BF26964aF9D7eEd9e03E53415D37aA96045");
    let b = Address::parse("D8DA6BF26964AF9D7EED9E03E53415D37AA96045").unwrap();
    assert!(a.same_as(&b));
    let c = Address::parse("0Xd8da6bf26964af9d7eed9e03e53415d37aa96045").unwrap();
    assert_eq!(c.bytes, a.bytes);
    assert!(Address::parse("0xd8da6bf26964af9d7eed9e03e53415d37aa9604").is_err());
    assert!(Address::parse("0xd8da6bf26964af9d7eed9e03e53415d37aa9604g").is_err());
    assert!(Address::parse("").is_err());
    assert!(!Address::parse("not an address").unwrap_err().message.is_empty());
    assert!(Address::zero().is_zero());
    assert!(!a.is_zero());
}

#[test]
fn texts_of_layers_severities_and_faults() {
    assert_eq!(Layer::L2.to_string(), "L2");
    assert_eq!(Severity::Critical.to_string(), "CRITICAL");
    assert_eq!(Severity::Info.to_string(), "INFO");
    assert!(Severity::Low < Severity::High);
    let t = |n: &str| ContainerTarget::service(n, Layer::L2);
    assert_eq!(
        InfraFault::PauseContainer { target: t("poster"), duration_ms: 500 }.to_string(),
        "PAUSE poster for 500ms"
    );
    assert_eq!(
        InfraFault::NetworkPartition { targets: vec![t("sequencer"), t("validator")], duration_ms: 7 }
            .to_string(),
        "PARTITION [sequencer, validator] for 7ms"
    );
    assert_eq!(InfraFault::DiskPressure { target: t("geth") }.to_string(), "DISK_PRESSURE geth");
}

#[test]
fn violations_carry_their_class() {
    assert_eq!(class_severity(InvariantClass::DoubleSpendProtection), Severity::Critical);
    assert_eq!(class_severity(InvariantClass::GasPricingSanity), Severity::Low);
    let f = violation(
        InvariantClass::RetryableResolution,
        Layer::L2,
        "title".to_string(),
        "description".to_string(),
        5,
        6,
    );
    assert_eq!(f.severity, Severity::High);
    assert_eq!(f.scenario, "invariant::RetryableResolution");
    assert_eq!((f.seed, f.tick), (5, 6));
    assert_eq!(f.layer, Some(Layer::L2));
    assert!(f.evidence.is_empty());
    // Every finding gets a fresh random id.
    let g = violation(InvariantClass::RetryableResolution, Layer::L2, "t".to_string(), "d".to_string(), 5, 6);
    assert_ne!(f.id, g.id);
    assert_eq!(f.id.len(), 36);
    assert!(!InvariantResult::Holds.is_violated());
}

#[test]
fn chaos_profiles_and_targets() {
    let g = ChaosProfile::gentle();
    assert!(!g.target_l1);
    let a = ChaosProfile::apocalyptic();
    assert!(a.target_l1 && a.target_l3);
    assert!(a.container_kill_rate > ChaosProfile::moderate().container_kill_rate);
    let containers = testnode_containers();
    assert!(containers.iter().any(|c| c.service == "sequencer" && c.layer == Layer::L2));
    // A gentle generator never touches L1.
    let gen = FaultGenerator::new(ChaosProfile::gentle());
    let mut rng = DeterministicRng::new(3);
    let mut injected = 0;
    for _ in 0..2000 {
        if let Some(fault) = gen.maybe_inject(&mut rng) {
            injected += 1;
            match fault {
                InfraFault::PauseContainer { target, .. } | InfraFault::KillContainer { target } => {
                    assert_ne!(target.layer, Layer::L1)
                },
                InfraFault::NetworkPartition { targets, .. } => {
                    assert!(targets.iter().all(|t| t.layer != Layer::L1))
                },
                other => panic!("unexpected fault {other:?}"),
            }
        }
    }
    assert!(injected > 0);
}
