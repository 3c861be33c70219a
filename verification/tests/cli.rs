use r30rg::cli::{
    build_config, outcome_status, scenario_catalog, select_scenarios, ticks_per_sec, RunStatus, RunTally,
    SelectError,
};
use r30rg::types::{Layer, ScenarioOutcome, StackConfig};

#[test]
fn build_config_overrides_urls_and_project() {
    let c = build_config("http://a:1", "http://b:2", "http://c:3", "proj");
    assert_eq!(c.l1.rpc_url, "http://a:1");
    assert_eq!(c.l1.ws_url.as_deref(), Some("ws://127.0.0.1:8546"));
    assert_eq!(c.l1.chain_id, 1337);
    assert_eq!(c.l2.rpc_url, "http://b:2");
    assert_eq!(c.l2.chain_id, 412346);
    let l3 = c.l3.as_ref().unwrap();
    assert_eq!(l3.rpc_url, "http://c:3");
    assert_eq!(l3.layer, Layer::L3);
    assert_eq!(l3.chain_id, 0);
    assert_eq!(c.docker_compose_project, "proj");
    assert!(c.inbox_addr.is_none() && c.bridge_addr.is_none() && c.auction_addr.is_none());
}

#[test]
fn build_config_without_l3() {
    let c = build_config("http://a:1", "http://b:2", "", "proj");
    assert!(c.l3.is_none());
    let d = StackConfig::default();
    assert_eq!(d.docker_compose_project, "nitro-testnode-live");
    assert_eq!(d.l3.unwrap().rpc_url, "http://127.0.0.1:3347");
}

#[test]
fn catalog_lists_every_scenario_in_order() {
    let names: Vec<String> = scenario_catalog().into_iter().map(|m| m.name).collect();
    assert_eq!(
        names,
        vec![
            "sequencer-kill-and-recover",
            "batch-poster-kill-and-recover",
            "validator-kill-and-recover",
            "balance-consistency-probe",
            "full-stack-health-probe",
            "precompile-surface-probe",
            "bridge-deposit-withdraw-stress",
            "timeboost-auction-probe",
        ]
    );
}

#[test]
fn selection_by_name_category_and_destructiveness() {
    let metas = scenario_catalog();
    assert_eq!(select_scenarios(&metas, "all", None, false).unwrap(), vec![0, 1, 2, 3, 4, 5, 6, 7]);
    assert_eq!(select_scenarios(&metas, "validator-kill-and-recover", None, false).unwrap(), vec![2]);
    assert_eq!(select_scenarios(&metas, "all", Some("invariant-probe"), false).unwrap(), vec![4, 5]);
    assert_eq!(select_scenarios(&metas, "all", None, true).unwrap(), vec![3, 4, 5, 6, 7]);
    assert_eq!(select_scenarios(&metas, "all", Some("sequencer-chaos"), true).unwrap_err().to_string(),
        "No scenarios matched the given filters.");
    match select_scenarios(&metas, "nope", None, false) {
        Err(e @ SelectError::NotFound(_)) => {
            assert_eq!(e.to_string(), "scenario 'nope' not found. Use 'r30rg list'.")
        },
        other => panic!("unexpected selection {other:?}"),
    }
    assert!(matches!(
        select_scenarios(&metas, "sequencer-kill-and-recover", None, true),
        Err(SelectError::NoneMatched)
    ));
}

#[test]
fn run_tally_and_exit_status() {
    let mut t = RunTally::new();
    assert!(!t.run_failed());
    t.count(outcome_status(&ScenarioOutcome::Passed { duration_ms: 1, checks_run: 2 }));
    assert_eq!((t.passed, t.failed, t.errors), (1, 0, 0));
    assert!(!t.run_failed());
    t.count(outcome_status(&ScenarioOutcome::Error { message: "x".to_string() }));
    assert_eq!((t.passed, t.failed, t.errors), (1, 0, 1));
    assert!(t.run_failed());
    t.count(RunStatus::Failed);
    assert_eq!(t.failed, 1);
    assert_eq!(outcome_status(&ScenarioOutcome::Failed { duration_ms: 1, findings: vec![] }), RunStatus::Failed);
}

#[test]
fn ticks_per_second() {
    assert_eq!(ticks_per_sec(1000, 0), 1000);
    assert_eq!(ticks_per_sec(1000, 3), 333);
    assert_eq!(ticks_per_sec(0, 5), 0);
}
