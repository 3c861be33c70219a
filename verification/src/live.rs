//! What the live-stack clients decide without touching the stack: which
//! layer's connection answers a call, which container stands for a compose
//! service, and what Docker operation a fault comes down to.
use vstd::prelude::*;
use vstd::string::*;
use crate::types::{FaultView, InfraFault, Layer, TargetView, targets_view};

verus! {

/// Why a call cannot be routed to a layer.
#[derive(Debug)]
pub enum LayerError {
    /// The call asked for L3, and no L3 is configured.
    L3NotConfigured,
}

impl LayerError {
    /// The message the caller shows.
    pub fn to_string(&self) -> (s: String)
        ensures
            s@ == "L3 not configured"@,
    {
        String::from_str("L3 not configured")
    }
}

/// The connection that serves `layer`: L1's, L2's, or L3's when there is one.
pub fn select_layer<'a, T>(l1: &'a T, l2: &'a T, l3: &'a Option<T>, layer: Layer) -> (r: Result<
    &'a T,
    LayerError,
>)
    ensures
        layer == Layer::L1 ==> r == Ok::<&T, LayerError>(l1),
        layer == Layer::L2 ==> r == Ok::<&T, LayerError>(l2),
        layer == Layer::L3 ==> match l3 {
            Some(c) => r == Ok::<&T, LayerError>(c),
            None => r matches Err(LayerError::L3NotConfigured),
        },
{
    match layer {
        Layer::L1 => Ok(l1),
        Layer::L2 => Ok(l2),
        Layer::L3 => match l3 {
            Some(c) => Ok(c),
            None => Err(LayerError::L3NotConfigured),
        },
    }
}

/// What the container lookup reads of a listed container: its id, and the
/// value of its `com.docker.compose.service` label.
#[derive(Clone, Debug)]
pub struct ContainerInfo {
    pub id: Option<String>,
    pub service: Option<String>,
}

/// Whether container `c` is the one for `service`: it carries that service
/// label and has an id.
pub open spec fn serves(c: ContainerInfo, service: Seq<char>) -> bool {
    &&& c.service matches Some(s) && s@ == service
    &&& c.id is Some
}

/// The id of the first listed container for `service`, if any.
pub open spec fn first_serving(cs: Seq<ContainerInfo>, service: Seq<char>) -> Option<Seq<char>>
    decreases cs.len(),
{
    if cs.len() == 0 {
        None
    } else {
        match first_serving(cs.drop_last(), service) {
            Some(id) => Some(id),
            None => if serves(cs.last(), service) {
                Some(cs.last().id->0@)
            } else {
                None
            },
        }
    }
}

/// The id of the first container for `service` in the listing.
pub fn find_container(containers: &Vec<ContainerInfo>, service: &str) -> (r: Option<String>)
    ensures
        match first_serving(containers@, service@) {
            Some(id) => r matches Some(s) && s@ == id,
            None => r is None,
        },
{
    let wanted = String::from_str(service);
    let mut i: usize = 0;
    while i < containers.len()
        invariant
            i <= containers@.len(),
            wanted@ == service@,
            first_serving(containers@.take(i as int), service@) is None,
        decreases containers@.len() - i,
    {
        let c = &containers[i];
        assert(containers@.take(i + 1).drop_last() =~= containers@.take(i as int));
        assert(containers@.take(i + 1).last() == *c);
        match (&c.service, &c.id) {
            (Some(s), Some(id)) => {
                if *s == wanted {
                    proof {
                        lemma_first_serving_prefix(containers@, service@, i as int);
                    }
                    return Some(id.clone());
                }
            },
            _ => {},
        }
        i = i + 1;
    }
    assert(containers@.take(i as int) =~= containers@);
    None
}

/// When no container before `i` serves `service` and container `i` does, it
/// is the first one that does.
proof fn lemma_first_serving_prefix(cs: Seq<ContainerInfo>, service: Seq<char>, i: int)
    requires
        0 <= i < cs.len(),
        first_serving(cs.take(i), service) is None,
        serves(cs[i], service),
    ensures
        first_serving(cs, service) == Some(cs[i].id->0@),
    decreases cs.len(),
{
    if i == cs.len() - 1 {
        assert(cs.drop_last() =~= cs.take(i));
    } else {
        assert(cs.drop_last().take(i) =~= cs.take(i));
        lemma_first_serving_prefix(cs.drop_last(), service, i);
    }
}

/// The label filter that selects the containers of compose project `project`.
pub fn project_filter(project: &str) -> (s: String)
    ensures
        s@ == "com.docker.compose.project="@ + project@,
{
    let mut s = String::from_str("com.docker.compose.project=");
    s.append(project);
    s
}

/// The error text when no container stands for `service` in `project`.
pub fn container_missing(service: &str, project: &str) -> (s: String)
    ensures
        s@ == "container for service '"@ + service@ + "' not found in project '"@ + project@ + "'"@,
{
    let mut s = String::from_str("container for service '");
    s.append(service);
    s.append("' not found in project '");
    s.append(project);
    s.append("'");
    s
}

/// Whether `a` comes before or equals `b` in the order of code points.
pub open spec fn text_le(a: Seq<char>, b: Seq<char>) -> bool
    decreases a.len(),
{
    if a.len() == 0 {
        true
    } else if b.len() == 0 {
        false
    } else if a[0] != b[0] {
        (a[0] as u32) < (b[0] as u32)
    } else {
        text_le(a.drop_first(), b.drop_first())
    }
}

/// The characters of each text.
pub open spec fn texts_view(v: Seq<String>) -> Seq<Seq<char>> {
    Seq::new(v.len(), |i: int| v[i]@)
}

/// Sorts texts with `slice::sort` on `String`s, whose `Ord` compares their
/// UTF-8 bytes, which orders them as their code points do: the result holds
/// the same texts, in ascending order.
#[verifier::external_body]
fn sort_texts(v: &mut Vec<String>)
    ensures
        texts_view(final(v)@).to_multiset() == texts_view(old(v)@).to_multiset(),
        forall|i: int, j: int|
            0 <= i < j < final(v)@.len() ==> text_le(#[trigger] final(v)@[i]@, #[trigger] final(v)@[j]@),
{
    v.sort();
}

/// The service labels of the listed containers.
pub open spec fn service_labels(cs: Seq<ContainerInfo>) -> Seq<Seq<char>>
    decreases cs.len(),
{
    if cs.len() == 0 {
        Seq::empty()
    } else {
        let rest = service_labels(cs.drop_last());
        match cs.last().service {
            Some(s) => rest.push(s@),
            None => rest,
        }
    }
}

/// The compose services of the listed containers, in ascending order.
pub fn service_names(containers: &Vec<ContainerInfo>) -> (r: Vec<String>)
    ensures
        texts_view(r@).to_multiset() == service_labels(containers@).to_multiset(),
        forall|i: int, j: int| 0 <= i < j < r@.len() ==> text_le(#[trigger] r@[i]@, #[trigger] r@[j]@),
{
    let mut names: Vec<String> = Vec::new();
    let mut i: usize = 0;
    while i < containers.len()
        invariant
            i <= containers@.len(),
            texts_view(names@) == service_labels(containers@.take(i as int)),
        decreases containers@.len() - i,
    {
        assert(containers@.take(i + 1).drop_last() =~= containers@.take(i as int));
        assert(containers@.take(i + 1).last() == containers@[i as int]);
        match &containers[i].service {
            Some(s) => {
                names.push(s.clone());
                assert(texts_view(names@) =~= service_labels(containers@.take(i as int)).push(s@));
            },
            None => {},
        }
        i = i + 1;
    }
    assert(containers@.take(i as int) =~= containers@);
    sort_texts(&mut names);
    names
}

/// What Docker has to do for a fault.
#[derive(Debug)]
pub enum FaultPlan {
    /// Pause the running container of `service`, and unpause it after `duration_ms`.
    Pause { service: String, duration_ms: u64 },
    /// Kill the running container of `service` with SIGKILL.
    Kill { service: String },
    /// Restart the container of `service`, running or not.
    Restart { service: String },
    /// Pause the running containers of `services`, and unpause them after `duration_ms`.
    Partition { services: Vec<String>, duration_ms: u64 },
    /// Nothing can be done yet (disk pressure is not implemented).
    Unsupported { name: String },
}

/// The services of a list of targets.
pub open spec fn services_of(ts: Seq<TargetView>) -> Seq<Seq<char>> {
    Seq::new(ts.len(), |i: int| ts[i].service)
}

impl FaultPlan {
    /// The Docker operation that carries out `fault`.
    pub fn of(fault: &InfraFault) -> (p: FaultPlan)
        ensures
            match fault@ {
                FaultView::PauseContainer { target, duration_ms } => p matches FaultPlan::Pause {
                    service,
                    duration_ms: d,
                } && service@ == target.service && d == duration_ms,
                FaultView::KillContainer { target } => p matches FaultPlan::Kill { service }
                    && service@ == target.service,
                FaultView::RestartContainer { target } => p matches FaultPlan::Restart { service }
                    && service@ == target.service,
                FaultView::NetworkPartition { targets, duration_ms } => p matches FaultPlan::Partition {
                    services,
                    duration_ms: d,
                } && texts_view(services@) == services_of(targets) && d == duration_ms,
                FaultView::DiskPressure { target } => p matches FaultPlan::Unsupported { name }
                    && name@ == target.name,
            },
    {
        match fault {
            InfraFault::PauseContainer { target, duration_ms } => FaultPlan::Pause {
                service: target.service.clone(),
                duration_ms: *duration_ms,
            },
            InfraFault::KillContainer { target } => FaultPlan::Kill { service: target.service.clone() },
            InfraFault::RestartContainer { target } => FaultPlan::Restart {
                service: target.service.clone(),
            },
            InfraFault::NetworkPartition { targets, duration_ms } => {
                let mut services: Vec<String> = Vec::new();
                let mut i: usize = 0;
                while i < targets.len()
                    invariant
                        i <= targets@.len(),
                        texts_view(services@) == services_of(targets_view(targets@)).take(i as int),
                    decreases targets@.len() - i,
                {
                    let svc = targets[i].service.clone();
                    assert(services_of(targets_view(targets@))[i as int] == svc@);
                    let ghost before = texts_view(services@);
                    let ghost svc_view = svc@;
                    services.push(svc);
                    assert(texts_view(services@) =~= before.push(svc_view));
                    assert(services_of(targets_view(targets@)).take(i + 1) =~= services_of(
                        targets_view(targets@),
                    ).take(i as int).push(svc_view));
                    i = i + 1;
                }
                assert(services_of(targets_view(targets@)).take(i as int) =~= services_of(
                    targets_view(targets@),
                ));
                FaultPlan::Partition { services, duration_ms: *duration_ms }
            },
            InfraFault::DiskPressure { target } => FaultPlan::Unsupported { name: target.name.clone() },
        }
    }
}

} // verus!
