use r30rg::scenario::{outcome_from_parts, ScenarioCategory, ScenarioContext, Verdict};
use r30rg::scenarios::batch_poster_chaos::{BatchPosterKillAndRecover, PosterObservations};
use r30rg::scenarios::bridge_adversarial::{BalanceConsistencyProbe, BalanceObservations, L3Health};
use r30rg::scenarios::bridge_stress::{
    BridgeDepositWithdrawStress, BridgeObservations, DepositObservations, WithdrawalObservations,
};
use r30rg::scenarios::invariant_probe::{FullStackHealthProbe, HealthObservations, HeightSample};
use r30rg::scenarios::retryable_probe::{CallAnswer, PrecompileObservations, PrecompileSurfaceProbe};
use r30rg::scenarios::sequencer_chaos::{SequencerKillAndRecover, SequencerObservations};
use r30rg::scenarios::timeboost_adversarial::{AuctionObservations, TimeboostAuctionProbe};
use r30rg::scenarios::validator_chaos::{ValidatorKillAndRecover, ValidatorObservations};
use r30rg::scenarios::{
    all_zero, decode_address, decode_u256, decode_uint64, precompile_address, Selector,
};
use r30rg::types::{Address, Finding, InfraFault, Layer, ScenarioOutcome, Severity, StackConfig, U256};

fn reports(v: &[Verdict]) -> Vec<&Finding> {
    v.iter()
        .filter_map(|x| match x {
            Verdict::Report(f) => Some(f),
            Verdict::Pass => None,
        })
        .collect()
}

fn passes(v: &[Verdict]) -> usize {
    v.iter().filter(|x| matches!(x, Verdict::Pass)).count()
}

fn word(last: &[u8]) -> Vec<u8> {
    let mut w = vec![0u8; 32 - last.len()];
    w.extend_from_slice(last);
    w
}

fn addr(last: u8) -> Address {
    let mut bytes = [0u8; 20];
    bytes[19] = last;
    Address { bytes }
}

#[test]
fn decode_uint64_reads_the_low_eight_bytes() {
    assert_eq!(decode_uint64(&word(&[0x01, 0x02])), 0x0102);
    let mut w = vec![0xffu8; 24];
    w.extend_from_slice(&[0, 0, 0, 0, 0, 0, 0, 7]);
    w.extend_from_slice(&[9, 9, 9]);
    assert_eq!(decode_uint64(&w), 7);
    assert_eq!(decode_uint64(&[1u8; 31]), 0);
    assert_eq!(decode_uint64(&[]), 0);
}

#[test]
fn decode_u256_and_address_read_abi_words() {
    let mut w = vec![0u8; 32];
    w[0] = 1;
    w[31] = 5;
    let v = decode_u256(&w);
    assert_eq!(v.hi, 1u128 << 120);
    assert_eq!(v.lo, 5);
    assert!(decode_u256(&[7u8; 20]).is_zero());
    let mut a = vec![0xaau8; 12];
    a.extend((1..=20u8).collect::<Vec<u8>>());
    let got = decode_address(&a);
    assert_eq!(got.bytes.to_vec(), (1..=20u8).collect::<Vec<u8>>());
    assert!(decode_address(&[1u8; 10]).is_zero());
}

#[test]
fn all_zero_and_precompiles() {
    assert!(all_zero(&[]));
    assert!(all_zero(&[0, 0, 0]));
    assert!(!all_zero(&[0, 1, 0]));
    assert_eq!(precompile_address(0x64).bytes, addr(0x64).bytes);
    assert_eq!(Selector::ArbBlockNumber.call_data(), vec![0xa3, 0xb1, 0xb3, 0x1d]);
    assert_eq!(Selector::GetPricesInWei.call_data(), vec![0x41, 0xb2, 0x47, 0xa8]);
    assert_eq!(Selector::ControllerByRound.call_data(), vec![0x82, 0x96, 0xdf, 0x03]);
}

#[test]
fn sequencer_scenario_all_healthy() {
    let s = SequencerKillAndRecover;
    let o = SequencerObservations {
        l1_before: 100,
        l2_before: 50,
        l1_during: 105,
        l2_during: Some(52),
        recovery_reads: vec![None, Some(50), Some(51)],
        l1_after: 110,
    };
    let v = s.assess(&o, 1337);
    assert_eq!(v.len(), 5);
    assert_eq!(passes(&v), 5);
    let mut ctx = ScenarioContext::new(1337, StackConfig::default());
    ctx.record_all(v);
    match ctx.into_outcome() {
        ScenarioOutcome::Passed { checks_run, .. } => assert_eq!(checks_run, 5),
        other => panic!("unexpected outcome {other:?}"),
    }
}

#[test]
fn sequencer_scenario_reports_every_failure() {
    let s = SequencerKillAndRecover;
    let o = SequencerObservations {
        l1_before: 100,
        l2_before: 50,
        l1_during: 100,
        l2_during: Some(56),
        recovery_reads: vec![None, Some(50), Some(49), None, Some(50), None, None, None, None, None, None, None],
        l1_after: 99,
    };
    let v = s.assess(&o, 9);
    let f = reports(&v);
    assert_eq!(f.len(), 4);
    assert_eq!(passes(&v), 1);
    assert_eq!(f[0].title, "L1 stopped while sequencer was down");
    assert_eq!(f[0].description, "L1 block before=100, during=100");
    assert_eq!(f[0].severity, Severity::Medium);
    assert_eq!(f[0].scenario, "invariant::BlockMonotonicity");
    assert_eq!(f[0].layer, Some(Layer::L1));
    assert_eq!(f[0].seed, 9);
    assert_eq!(f[1].title, "L2 still advancing after sequencer kill");
    assert_eq!(f[1].description, "L2 went from 50 to 56 despite sequencer being killed");
    assert_eq!(f[1].severity, Severity::Medium);
    assert_eq!(f[1].scenario, "sequencer-kill-and-recover");
    assert_eq!(f[1].evidence.len(), 2);
    assert_eq!((f[1].evidence[0].key.as_str(), f[1].evidence[0].value), ("before", 50));
    assert_eq!((f[1].evidence[1].key.as_str(), f[1].evidence[1].value), ("during", 56));
    assert_eq!(f[2].title, "L2 sequencer did not recover after restart");
    assert_eq!(f[2].severity, Severity::High);
    assert_eq!(f[3].description, "L1 during=100, after=99");
    // An unreachable L2, or one that barely moved, is what a dead sequencer looks like.
    let quiet = SequencerObservations { l2_during: None, ..o.clone() };
    assert_eq!(reports(&s.assess(&quiet, 9)).len(), 3);
    let barely = SequencerObservations { l2_during: Some(55), ..o.clone() };
    assert_eq!(reports(&s.assess(&barely, 9)).len(), 3);
}

#[test]
fn recovery_polling_stops_at_progress_or_after_twelve_polls() {
    let s = SequencerKillAndRecover;
    assert!(s.keep_polling(&vec![], 10));
    assert!(s.keep_polling(&vec![None, Some(10), Some(3)], 10));
    assert!(!s.keep_polling(&vec![None, Some(11)], 10));
    assert!(!s.keep_polling(&vec![None; 12], 10));
    assert!(s.keep_polling(&vec![None; 11], 10));
    assert!(s.recovered(&vec![None, Some(11)], 10));
    assert!(!s.recovered(&vec![Some(10); 12], 10));
    // Recovery seen on the last poll clears the liveness finding.
    let mut reads = vec![None; 11];
    reads.push(Some(60));
    let o = SequencerObservations {
        l1_before: 1,
        l2_before: 50,
        l1_during: 2,
        l2_during: None,
        recovery_reads: reads,
        l1_after: 3,
    };
    assert_eq!(reports(&s.assess(&o, 1)).len(), 0);
}

#[test]
fn kill_and_restart_faults_name_their_service() {
    assert_eq!(SequencerKillAndRecover.kill_fault().to_string(), "KILL sequencer");
    assert_eq!(SequencerKillAndRecover.restart_fault().to_string(), "RESTART sequencer");
    assert_eq!(BatchPosterKillAndRecover.kill_fault().to_string(), "KILL poster");
    assert_eq!(ValidatorKillAndRecover.restart_fault().to_string(), "RESTART validator");
    match ValidatorKillAndRecover.kill_fault() {
        InfraFault::KillContainer { target } => {
            assert_eq!(target.service, "validator");
            assert_eq!(target.layer, Layer::L2);
        },
        other => panic!("unexpected fault {other:?}"),
    }
}

#[test]
fn poster_and_validator_scenarios() {
    let p = BatchPosterKillAndRecover;
    let ok = PosterObservations { l1_before: 1, l2_before: 1, l2_during: 2, l1_during: 2, l2_after: 3 };
    assert_eq!(passes(&p.assess(&ok, 0)), 4);
    let bad = PosterObservations { l1_before: 1, l2_before: 5, l2_during: 5, l1_during: 2, l2_after: 5 };
    let v = p.assess(&bad, 0);
    let f = reports(&v);
    assert_eq!(f.len(), 2);
    assert_eq!(f[0].title, "L2 sequencer stopped when batch poster was killed");
    assert_eq!(f[0].description, "L2 before=5, during=5 \u{2014} sequencer should be independent of poster");
    assert_eq!(f[1].title, "L2 stalled after batch poster restart");
    assert_eq!(f[1].description, "L2 during=5, after=5");

    let val = ValidatorKillAndRecover;
    let o = ValidatorObservations { l1_before: 3, l2_before: 4, l1_during: 2, l2_during: 5, l2_after: 6 };
    let v = val.assess(&o, 2);
    let f = reports(&v);
    assert_eq!(f.len(), 1);
    assert_eq!(f[0].title, "L1 stopped while validator was down");
    assert_eq!(f[0].description, "L1 before=3, during=2");
    assert_eq!(passes(&v), 3);
}

#[test]
fn balance_probe_checks() {
    let b = BalanceConsistencyProbe;
    assert_eq!(
        b.dev_address().to_string(),
        "0x3f1Eae7D46d88F08fc2F8ed27FCb2AB183EB2d0E"
    );
    let healthy = BalanceObservations {
        l1_balance: U256::from_u64(5),
        l2_balance: U256::from_u64(6),
        l2_gas_price: 100,
        arbsys_block: word(&[9]),
        l3: Some(L3Health { block: 4, gas_price: 1 }),
    };
    assert_eq!(passes(&b.assess(&healthy, 1)), 6);
    let broken = BalanceObservations {
        l1_balance: U256::zero(),
        l2_balance: U256::from_u64(6),
        l2_gas_price: 0,
        arbsys_block: vec![],
        l3: Some(L3Health { block: 0, gas_price: 1 }),
    };
    let v = b.assess(&broken, 1);
    let f = reports(&v);
    let titles: Vec<&str> = f.iter().map(|x| x.title.as_str()).collect();
    assert_eq!(
        titles,
        vec![
            "L1 dev account has zero balance",
            "L2 gas price is zero",
            "ArbSys.arbBlockNumber() returned 0",
            "L3 has zero block height",
        ]
    );
    let no_l3 = BalanceObservations { l3: None, ..healthy };
    assert_eq!(b.assess(&no_l3, 1).len(), 4);
}

#[test]
fn health_probe_checks() {
    let h = FullStackHealthProbe;
    assert_eq!(h.wait_secs(Layer::L1), 3);
    assert_eq!(h.wait_secs(Layer::L3), 6);
    let o = HealthObservations {
        l1: HeightSample { before: 10, after: 10 },
        l2: HeightSample { before: 8, after: 7 },
        l3: Some(HeightSample { before: 3, after: 3 }),
        l2_gas_price: 100_000_000_000_001,
        arbsys_block: vec![1u8; 16],
        gas_prices: vec![0u8; 31],
        l3_arbsys_block: Some(word(&[0])),
    };
    let v = h.assess(&o, 4);
    assert_eq!(v.len(), 7);
    let f = reports(&v);
    let got: Vec<(&str, &str)> = f.iter().map(|x| (x.title.as_str(), x.description.as_str())).collect();
    assert_eq!(
        got,
        vec![
            ("L1 blocks not advancing", "block 10 -> 10 over 3s"),
            ("L2 block height regressed", "block 8 -> 7 over 6s"),
            ("L2 gas price is absurdly high", "gas price = 100000000000001 wei"),
            ("ArbSys.arbBlockNumber() returned invalid data", "returned 16 bytes, all zero"),
            ("ArbGasInfo.getPricesInWei() returned too little data", "returned 31 bytes, expected >=192"),
            ("L3 ArbSys.arbBlockNumber() returned 0", "L3 precompile is not responding correctly"),
        ]
    );
    // An idle L2 or L3 at the same height is fine; only L1 must move.
    assert_eq!(passes(&v), 1);
    let fine = HealthObservations {
        l1: HeightSample { before: 10, after: 12 },
        l2: HeightSample { before: 8, after: 8 },
        l3: None,
        l2_gas_price: 100_000_000_000_000,
        arbsys_block: word(&[1]),
        gas_prices: vec![0u8; 192],
        l3_arbsys_block: None,
    };
    assert_eq!(passes(&h.assess(&fine, 4)), 5);
}

#[test]
fn precompile_probe_checks() {
    let p = PrecompileSurfaceProbe;
    let o = PrecompileObservations {
        block_number: vec![0u8; 8],
        gas_prices: vec![0u8; 64],
        lifetime: Some(word(&[0])),
        l3_block_number: Some(CallAnswer::Failed("connection refused".to_string())),
    };
    let v = p.assess(&o, 3);
    assert_eq!(v.len(), 7);
    let f = reports(&v);
    let got: Vec<(&str, &str)> = f.iter().map(|x| (x.title.as_str(), x.description.as_str())).collect();
    assert_eq!(
        got,
        vec![
            ("ArbSys.arbBlockNumber() returned insufficient data", "returned 8 bytes"),
            (
                "ArbGasInfo.getPricesInWei() returned too little data",
                "returned 64 bytes, expected >=192 (6 uint256s)"
            ),
            ("ArbRetryableTx.getLifetime() returned 0", "Retryable ticket lifetime should be non-zero"),
            ("L3 ArbSys.arbBlockNumber() call failed", "connection refused"),
        ]
    );
    assert_eq!(f[3].layer, Some(Layer::L3));
    let fine = PrecompileObservations {
        block_number: word(&[1]),
        gas_prices: vec![0u8; 192],
        lifetime: None,
        l3_block_number: Some(CallAnswer::Returned(word(&[2]))),
    };
    assert_eq!(passes(&p.assess(&fine, 3)), 7);
    let short_l3 = PrecompileObservations {
        l3_block_number: Some(CallAnswer::Returned(vec![1u8; 4])),
        lifetime: Some(vec![0u8; 4]),
        ..fine
    };
    let v = p.assess(&short_l3, 3);
    let f = reports(&v);
    assert_eq!(f.len(), 1);
    assert_eq!(f[0].description, "returned 4 bytes");
}

#[test]
fn bridge_stress_checks() {
    let b = BridgeDepositWithdrawStress;
    assert_eq!(b.deposit_value().to_string(), "100000000000000000");
    assert_eq!(b.withdraw_value().to_string(), "10000000000000000");
    assert_eq!(b.deposit_call_data(), vec![0x43, 0x93, 0x70, 0xb1]);
    let sender = addr(0x42);
    let data = b.withdraw_call_data(&sender);
    assert_eq!(data.len(), 36);
    assert_eq!(&data[..4], &[0x25, 0xe1, 0x60, 0x63]);
    assert!(data[4..35].iter().all(|&x| x == 0));
    assert_eq!(data[35], 0x42);
    assert!(b.withdrawal_affordable(&U256::from_u64(10_000_000_000_000_000)));
    assert!(!b.withdrawal_affordable(&U256::from_u64(9_999_999_999_999_999)));
    assert!(!b.withdrawal_affordable(&U256::zero()));
    assert!(b.deposit_arrived(&U256::from_u64(2), &U256::from_u64(1)));
    assert!(!b.deposit_arrived(&U256::from_u64(1), &U256::from_u64(1)));

    let o = BridgeObservations {
        deposit: Some(DepositObservations {
            bridge_before: U256::from_u64(1000),
            bridge_after: U256::from_u64(1500),
            bridge_final: U256::from_u64(999),
            arrived: false,
        }),
        withdrawal: Some(WithdrawalObservations { before: U256::from_u64(7), after: U256::from_u64(7) }),
        arbsys_block: word(&[3]),
        os_version: Some(vec![]),
    };
    let v = b.assess(&o, 8);
    assert_eq!(v.len(), 6);
    let f = reports(&v);
    let got: Vec<(&str, &str)> = f.iter().map(|x| (x.title.as_str(), x.description.as_str())).collect();
    assert_eq!(
        got,
        vec![
            (
                "Bridge balance did not increase after deposit",
                "before=1000 after=1500 deposit=100000000000000000"
            ),
            (
                "L1\u{2192}L2 deposit did not arrive within 60s",
                "Deposited 100000000000000000 via Inbox but L2 balance unchanged"
            ),
            ("Bridge balance decreased without completed withdrawal", "initial=1000 final=999"),
            ("L2 balance did not decrease after withdrawal", "before=7 after=7"),
        ]
    );
    let quiet = BridgeObservations {
        deposit: None,
        withdrawal: None,
        arbsys_block: word(&[3]),
        os_version: Some(vec![1]),
    };
    assert_eq!(passes(&b.assess(&quiet, 8)), 2);
}

#[test]
fn bridge_deposit_targets_need_both_addresses() {
    let b = BridgeDepositWithdrawStress;
    let mut config = StackConfig::default();
    assert!(b.deposit_targets(&config).is_none());
    config.inbox_addr = Some("0x00000000000000000000000000000000000000aa".to_string());
    assert!(b.deposit_targets(&config).is_none());
    config.bridge_addr = Some("not an address".to_string());
    assert!(b.deposit_targets(&config).is_none());
    config.bridge_addr = Some("00000000000000000000000000000000000000BB".to_string());
    let (inbox, bridge) = b.deposit_targets(&config).unwrap();
    assert_eq!(inbox.bytes[19], 0xaa);
    assert_eq!(bridge.bytes[19], 0xbb);
}

#[test]
fn timeboost_checks() {
    let t = TimeboostAuctionProbe;
    assert_eq!(t.monopolization_rounds(2), Vec::<u64>::new());
    assert_eq!(t.monopolization_rounds(3), vec![3, 2, 1]);
    assert_eq!(t.monopolization_rounds(9), vec![9, 8, 7, 6, 5]);
    let q = t.controller_query(0x0102);
    assert_eq!(q.len(), 36);
    assert_eq!(&q[..4], &[0x82, 0x96, 0xdf, 0x03]);
    assert!(q[4..34].iter().all(|&x| x == 0));
    assert_eq!(&q[34..], &[0x01, 0x02]);
    assert_eq!(t.auction_layer(true), Layer::L1);
    assert_eq!(t.auction_layer(false), Layer::L2);

    let same = addr(0x11);
    let o = AuctionObservations {
        round: word(&[0]),
        duration: word(&[10]),
        initial_timestamp: word(&[0]),
        reserve_price: word(&[5]),
        minimal_reserve_price: word(&[6]),
        controllers: vec![same, Address::zero(), same, same],
        bid_receiver: word(&[0]),
    };
    let v = t.assess(&o, Layer::L2, 5);
    let f = reports(&v);
    let got: Vec<(&str, String)> = f.iter().map(|x| (x.title.as_str(), x.description.clone())).collect();
    assert_eq!(
        got,
        vec![
            (
                "Timeboost auction reports round 0",
                "currentRound() returned 0 \u{2014} auction may not be initialized".to_string()
            ),
            (
                "Round duration suspiciously short",
                "roundDurationSeconds()=10 \u{2014} too short for fair bidding (spec says 60s)".to_string()
            ),
            (
                "Initial round timestamp is 0",
                "initialRoundTimestamp() returned 0 \u{2014} auction not configured".to_string()
            ),
            (
                "Current reserve price below minimum",
                "getCurrentReservePrice()=5 < getminimalReservePrice()=6 \u{2014} price invariant broken"
                    .to_string()
            ),
            (
                "Express lane monopolization detected",
                format!(
                    "Same controller {} won 3 consecutive rounds \u{2014} potential auction manipulation or lack of competition",
                    same.to_string()
                )
            ),
            (
                "Bid receiver is zero address",
                "bidReceiver() returned 0x0 \u{2014} auction revenue goes nowhere".to_string()
            ),
        ]
    );
    assert_eq!(passes(&v), 1);
    let healthy = AuctionObservations {
        round: word(&[7]),
        duration: word(&[60]),
        initial_timestamp: word(&[1, 0]),
        reserve_price: word(&[6]),
        minimal_reserve_price: word(&[6]),
        controllers: vec![addr(1), addr(2), addr(1)],
        bid_receiver: word(&[9]),
    };
    assert_eq!(passes(&t.assess(&healthy, Layer::L1, 5)), 7);
    let zero_duration = AuctionObservations { duration: vec![], controllers: vec![addr(1), addr(1)], ..healthy };
    let v = t.assess(&zero_duration, Layer::L1, 5);
    assert_eq!(v.len(), 6);
    assert_eq!(reports(&v)[0].title, "Round duration is 0 seconds");
}

#[test]
fn timeboost_target_parsing() {
    let t = TimeboostAuctionProbe;
    let mut config = StackConfig::default();
    assert!(matches!(t.auction_target(&config), Ok(None)));
    config.auction_addr = Some("0xd8dA6BF26964aF9D7eEd9e03E53415D37aA96045".to_string());
    let a = t.auction_target(&config).unwrap().unwrap();
    assert_eq!(a.bytes[0], 0xd8);
    assert_eq!(a.bytes[19], 0x45);
    config.auction_addr = Some("0x1234".to_string());
    let e = t.auction_target(&config).unwrap_err();
    assert!(e.starts_with("invalid --auction-addr '0x1234': "));
}

#[test]
fn scenario_metadata() {
    let m = SequencerKillAndRecover.meta();
    assert_eq!(m.name, "sequencer-kill-and-recover");
    assert_eq!(m.category, ScenarioCategory::SequencerChaos);
    assert_eq!(m.category.to_string(), "sequencer-chaos");
    assert_eq!(m.target_layers, vec![Layer::L1, Layer::L2]);
    assert!(m.destructive);
    let m = BridgeDepositWithdrawStress.meta();
    assert_eq!(
        m.description,
        "Exercise L1\u{2194}L2 bridge: deposit ETH via Inbox (if configured), withdraw via ArbSys, verify balance conservation. Pass --inbox-addr and --bridge-addr for full deposit testing."
    );
    assert_eq!(m.severity_potential, Severity::Critical);
    assert!(!m.destructive);
    assert_eq!(PrecompileSurfaceProbe.meta().target_layers, vec![Layer::L2]);
    assert_eq!(TimeboostAuctionProbe.meta().category.to_string(), "timeboost-adversarial");
    assert_eq!(ValidatorKillAndRecover.meta().severity_potential, Severity::Medium);
}

#[test]
fn context_records_verdicts_in_order() {
    let mut ctx = ScenarioContext::new(77, StackConfig::default());
    assert_eq!(ctx.rng.seed(), 77);
    ctx.check_passed();
    let s = SequencerKillAndRecover;
    let o = SequencerObservations {
        l1_before: 1,
        l2_before: 1,
        l1_during: 1,
        l2_during: None,
        recovery_reads: vec![Some(2)],
        l1_after: 2,
    };
    ctx.record_all(s.assess(&o, 77));
    assert_eq!(ctx.checks_run, 1 + 4);
    assert_eq!(ctx.findings.len(), 1);
    match ctx.into_outcome() {
        ScenarioOutcome::Failed { findings, .. } => {
            assert_eq!(findings.len(), 1);
            assert_eq!(findings[0].title, "L1 stopped while sequencer was down");
        },
        other => panic!("unexpected outcome {other:?}"),
    }
    let passed = outcome_from_parts(12, vec![], 3);
    assert!(passed.is_pass());
    assert!(matches!(passed, ScenarioOutcome::Passed { duration_ms: 12, checks_run: 3 }));
}
