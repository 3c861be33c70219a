use r30rg::live::{
    container_missing, find_container, project_filter, select_layer, service_names, ContainerInfo, FaultPlan,
    LayerError,
};
use r30rg::types::{ContainerTarget, InfraFault, Layer};

fn container(id: Option<&str>, service: Option<&str>) -> ContainerInfo {
    ContainerInfo { id: id.map(|s| s.to_string()), service: service.map(|s| s.to_string()) }
}

#[test]
fn layers_route_to_their_connection() {
    let (a, b, c) = ("l1", "l2", Some("l3"));
    assert_eq!(*select_layer(&a, &b, &c, Layer::L1).unwrap(), "l1");
    assert_eq!(*select_layer(&a, &b, &c, Layer::L2).unwrap(), "l2");
    assert_eq!(*select_layer(&a, &b, &c, Layer::L3).unwrap(), "l3");
    let none: Option<&str> = None;
    match select_layer(&a, &b, &none, Layer::L3) {
        Err(e @ LayerError::L3NotConfigured) => assert_eq!(e.to_string(), "L3 not configured"),
        other => panic!("unexpected routing {other:?}"),
    }
}

#[test]
fn containers_are_found_by_service_label() {
    let cs = vec![
        container(Some("a1"), Some("geth")),
        container(None, Some("sequencer")),
        container(Some("b2"), None),
        container(Some("c3"), Some("sequencer")),
        container(Some("d4"), Some("sequencer")),
    ];
    assert_eq!(find_container(&cs, "sequencer").as_deref(), Some("c3"));
    assert_eq!(find_container(&cs, "geth").as_deref(), Some("a1"));
    assert_eq!(find_container(&cs, "validator"), None);
    assert_eq!(project_filter("nitro"), "com.docker.compose.project=nitro");
    assert_eq!(
        container_missing("poster", "nitro"),
        "container for service 'poster' not found in project 'nitro'"
    );
    assert_eq!(service_names(&cs), vec!["geth", "sequencer", "sequencer", "sequencer"]);
    let more = vec![container(Some("x"), Some("validator")), container(Some("y"), Some("Poster"))];
    assert_eq!(service_names(&more), vec!["Poster", "validator"]);
}

#[test]
fn faults_plan_docker_operations() {
    let t = |n: &str| ContainerTarget::service(n, Layer::L2);
    match FaultPlan::of(&InfraFault::PauseContainer { target: t("poster"), duration_ms: 9 }) {
        FaultPlan::Pause { service, duration_ms } => assert_eq!((service.as_str(), duration_ms), ("poster", 9)),
        other => panic!("unexpected plan {other:?}"),
    }
    assert!(matches!(
        FaultPlan::of(&InfraFault::RestartContainer { target: t("validator") }),
        FaultPlan::Restart { service } if service == "validator"
    ));
    assert!(matches!(
        FaultPlan::of(&InfraFault::KillContainer { target: t("sequencer") }),
        FaultPlan::Kill { service } if service == "sequencer"
    ));
    match FaultPlan::of(&InfraFault::NetworkPartition { targets: vec![t("a"), t("b")], duration_ms: 3 }) {
        FaultPlan::Partition { services, duration_ms } => {
            assert_eq!(services, vec!["a", "b"]);
            assert_eq!(duration_ms, 3);
        },
        other => panic!("unexpected plan {other:?}"),
    }
    assert!(matches!(
        FaultPlan::of(&InfraFault::DiskPressure { target: t("geth") }),
        FaultPlan::Unsupported { name } if name == "geth"
    ));
}
