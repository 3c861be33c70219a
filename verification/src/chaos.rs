//! Chaos profiles and the seeded fault generator.
//!
//! Every decision is drawn from the deterministic generator, so a seed fixes
//! the whole fault sequence.
use vstd::prelude::*;
use crate::prng::{law_shuffle_permutes, lemma_range, lemma_shuffle_draws, swap_spec, DeterministicRng, RngState};
use crate::types::{
    duplicate_targets, targets_view, ContainerTarget, FaultView, InfraFault, Layer, TargetView,
};

verus! {

/// Whether `max - min + 1` fits in a `u64` (or the range is a single value).
pub open spec fn span_fits(min: u64, max: u64) -> bool {
    min >= max || max - min < u64::MAX
}

/// Chaos profile: controls fault injection intensity.
///
/// A rate is a probability `p` per tick scaled to a chance threshold,
/// `floor(p * 2^64)` (the threshold that `DeterministicRng::chance` takes).
#[derive(Clone, Copy, Debug, PartialEq, Eq, Structural)]
pub struct ChaosProfile {
    /// Chance threshold of pausing a container per tick.
    pub container_pause_rate: u64,
    /// Chance threshold of killing a container per tick.
    pub container_kill_rate: u64,
    /// Chance threshold of injecting a network partition per tick.
    pub network_partition_rate: u64,
    /// Min and max pause duration in ms.
    pub pause_duration_min_ms: u64,
    pub pause_duration_max_ms: u64,
    /// Min and max partition duration in ms.
    pub partition_duration_min_ms: u64,
    pub partition_duration_max_ms: u64,
    /// Whether to target L1 (extremely destructive).
    pub target_l1: bool,
    /// Whether to target L3.
    pub target_l3: bool,
}

impl ChaosProfile {
    /// Both duration ranges can be drawn from.
    pub open spec fn spans_fit(self) -> bool {
        span_fits(self.pause_duration_min_ms, self.pause_duration_max_ms) && span_fits(
            self.partition_duration_min_ms,
            self.partition_duration_max_ms,
        )
    }

    /// Gentle: low fault rates (0.1% pause, 0.05% partition), no kills, short pauses.
    pub fn gentle() -> (p: Self)
        ensures
            p == (ChaosProfile {
                container_pause_rate: 18446744073709552,
                container_kill_rate: 0,
                network_partition_rate: 9223372036854776,
                pause_duration_min_ms: 500,
                pause_duration_max_ms: 2_000,
                partition_duration_min_ms: 1_000,
                partition_duration_max_ms: 5_000,
                target_l1: false,
                target_l3: false,
            }),
            p.spans_fit(),
    {
        ChaosProfile {
            container_pause_rate: 18446744073709552,
            container_kill_rate: 0,
            network_partition_rate: 9223372036854776,
            pause_duration_min_ms: 500,
            pause_duration_max_ms: 2_000,
            partition_duration_min_ms: 1_000,
            partition_duration_max_ms: 5_000,
            target_l1: false,
            target_l3: false,
        }
    }

    /// Moderate: some kills (0.5% pause, 0.1% kill, 0.2% partition), longer faults.
    pub fn moderate() -> (p: Self)
        ensures
            p == (ChaosProfile {
                container_pause_rate: 92233720368547760,
                container_kill_rate: 18446744073709552,
                network_partition_rate: 36893488147419104,
                pause_duration_min_ms: 1_000,
                pause_duration_max_ms: 10_000,
                partition_duration_min_ms: 5_000,
                partition_duration_max_ms: 30_000,
                target_l1: false,
                target_l3: true,
            }),
            p.spans_fit(),
    {
        ChaosProfile {
            container_pause_rate: 92233720368547760,
            container_kill_rate: 18446744073709552,
            network_partition_rate: 36893488147419104,
            pause_duration_min_ms: 1_000,
            pause_duration_max_ms: 10_000,
            partition_duration_min_ms: 5_000,
            partition_duration_max_ms: 30_000,
            target_l1: false,
            target_l3: true,
        }
    }

    /// Apocalyptic: high fault rates (2% pause, 0.5% kill, 1% partition),
    /// L1 targeting, long partitions.
    pub fn apocalyptic() -> (p: Self)
        ensures
            p == (ChaosProfile {
                container_pause_rate: 368934881474191040,
                container_kill_rate: 92233720368547760,
                network_partition_rate: 184467440737095520,
                pause_duration_min_ms: 5_000,
                pause_duration_max_ms: 60_000,
                partition_duration_min_ms: 10_000,
                partition_duration_max_ms: 120_000,
                target_l1: true,
                target_l3: true,
            }),
            p.spans_fit(),
    {
        ChaosProfile {
            container_pause_rate: 368934881474191040,
            container_kill_rate: 92233720368547760,
            network_partition_rate: 184467440737095520,
            pause_duration_min_ms: 5_000,
            pause_duration_max_ms: 60_000,
            partition_duration_min_ms: 10_000,
            partition_duration_max_ms: 120_000,
            target_l1: true,
            target_l3: true,
        }
    }
}

/// The target whose name and service are both `s`.
pub open spec fn service_view(s: Seq<char>, layer: Layer) -> TargetView {
    TargetView { name: s, service: s, layer }
}

/// The container services of the nitro-testnode stack.
pub open spec fn testnode_view() -> Seq<TargetView> {
    seq![
        service_view("sequencer"@, Layer::L2),
        service_view("poster"@, Layer::L2),
        service_view("validator"@, Layer::L2),
        service_view("validation_node"@, Layer::L2),
        service_view("l3node"@, Layer::L3),
        service_view("geth"@, Layer::L1),
        service_view("redis"@, Layer::L2),
        service_view("timeboost-auctioneer"@, Layer::L2),
    ]
}

/// Known container services in the nitro-testnode stack.
pub fn testnode_containers() -> (v: Vec<ContainerTarget>)
    ensures
        targets_view(v@) == testnode_view(),
{
    let v = vec![
        ContainerTarget::service("sequencer", Layer::L2),
        ContainerTarget::service("poster", Layer::L2),
        ContainerTarget::service("validator", Layer::L2),
        ContainerTarget::service("validation_node", Layer::L2),
        ContainerTarget::service("l3node", Layer::L3),
        ContainerTarget::service("geth", Layer::L1),
        ContainerTarget::service("redis", Layer::L2),
        ContainerTarget::service("timeboost-auctioneer", Layer::L2),
    ];
    assert(targets_view(v@) =~= testnode_view());
    v
}

/// Whether a profile may target containers of `layer`.
pub open spec fn layer_allowed(layer: Layer, target_l1: bool, target_l3: bool) -> bool {
    (layer != Layer::L1 || target_l1) && (layer != Layer::L3 || target_l3)
}

/// The targets of `s` that a profile may hit, in order.
pub open spec fn allowed_targets(s: Seq<TargetView>, target_l1: bool, target_l3: bool) -> Seq<
    TargetView,
>
    decreases s.len(),
{
    if s.len() == 0 {
        Seq::empty()
    } else {
        let rest = allowed_targets(s.drop_last(), target_l1, target_l3);
        if layer_allowed(s.last().layer, target_l1, target_l3) {
            rest.push(s.last())
        } else {
            rest
        }
    }
}

/// What `FaultGenerator::maybe_inject` decides for profile `p`, targets `cs`
/// and generator state `r`: the generator state after and the fault, if any.
pub open spec fn inject_spec(p: ChaosProfile, cs: Seq<TargetView>, r: RngState) -> (RngState, Option<FaultView>) {
    if cs.len() == 0 {
        (r, None)
    } else {
        let last = (cs.len() - 1) as u64;
        let (r1, kill) = r.chance(p.container_kill_rate);
        if kill {
            let (r2, i) = r1.range(0, last);
            (r2, Some(FaultView::KillContainer { target: cs[i as int] }))
        } else {
            let (r2, pause) = r1.chance(p.container_pause_rate);
            if pause {
                let (r3, i) = r2.range(0, last);
                let (r4, d) = r3.range(p.pause_duration_min_ms, p.pause_duration_max_ms);
                (r4, Some(FaultView::PauseContainer { target: cs[i as int], duration_ms: d }))
            } else {
                let (r3, part) = r2.chance(p.network_partition_rate);
                if part {
                    let most = if cs.len() < 3 { cs.len() as u64 } else { 3u64 };
                    let (r4, count) = r3.range(1, most);
                    let (r5, shuffled) = r4.shuffle(cs);
                    let (r6, d) = r5.range(p.partition_duration_min_ms, p.partition_duration_max_ms);
                    (r6, Some(FaultView::NetworkPartition { targets: shuffled.take(count as int), duration_ms: d }))
                } else {
                    (r3, None)
                }
            }
        }
    }
}

/// Shuffling commutes with taking views: the same draws, the same permutation.
proof fn lemma_shuffle_views(r: RngState, s: Seq<ContainerTarget>, i: nat)
    requires
        i < s.len(),
    ensures
        r.shuffle_from(targets_view(s), i).0 == r.shuffle_from(s, i).0,
        r.shuffle_from(targets_view(s), i).1 == targets_view(r.shuffle_from(s, i).1),
    decreases i,
{
    if i > 0 {
        let (r2, j) = r.range(0, i as u64);
        let sw = swap_spec(s, i as int, j as int);
        assert(targets_view(sw) =~= swap_spec(targets_view(s), i as int, j as int));
        lemma_shuffle_views(r2, sw, (i - 1) as nat);
    }
}

/// Every target that a profile keeps is on a layer it may hit.
proof fn lemma_allowed_targets_allowed(s: Seq<TargetView>, l1: bool, l3: bool)
    ensures
        forall|i: int|
            0 <= i < allowed_targets(s, l1, l3).len() ==> layer_allowed(
                #[trigger] allowed_targets(s, l1, l3)[i].layer,
                l1,
                l3,
            ),
        allowed_targets(s, l1, l3).len() <= s.len(),
    decreases s.len(),
{
    if s.len() > 0 {
        lemma_allowed_targets_allowed(s.drop_last(), l1, l3);
    }
}

/// A shuffle of targets that are all on allowed layers leaves them so.
proof fn lemma_shuffle_keeps_layers(r: RngState, s: Seq<TargetView>, i: nat, l1: bool, l3: bool)
    requires
        i < s.len(),
        forall|k: int| 0 <= k < s.len() ==> layer_allowed(#[trigger] s[k].layer, l1, l3),
    ensures
        forall|k: int|
            0 <= k < r.shuffle_from(s, i).1.len() ==> layer_allowed(
                #[trigger] r.shuffle_from(s, i).1[k].layer,
                l1,
                l3,
            ),
    decreases i,
{
    if i > 0 {
        let (r2, j) = r.range(0, i as u64);
        lemma_range(r, 0, i as u64);
        let sw = swap_spec(s, i as int, j as int);
        assert forall|k: int| 0 <= k < sw.len() implies layer_allowed(#[trigger] sw[k].layer, l1, l3) by {
            if k == i {
                assert(sw[k] == s[j as int]);
            } else if k == j {
                assert(sw[k] == s[i as int]);
            } else {
                assert(sw[k] == s[k]);
            }
        }
        lemma_shuffle_keeps_layers(r2, sw, (i - 1) as nat, l1, l3);
    }
}

/// Whether every target of fault `f`, if any, is on a layer that a profile
/// with `l1` and `l3` may hit.
pub open spec fn fault_respects(f: Option<FaultView>, l1: bool, l3: bool) -> bool {
    match f {
        Some(FaultView::KillContainer { target }) => layer_allowed(target.layer, l1, l3),
        Some(FaultView::PauseContainer { target, .. }) => layer_allowed(target.layer, l1, l3),
        Some(FaultView::NetworkPartition { targets, .. }) => forall|k: int|
            0 <= k < targets.len() ==> layer_allowed(#[trigger] targets[k].layer, l1, l3),
        Some(FaultView::RestartContainer { target }) => layer_allowed(target.layer, l1, l3),
        Some(FaultView::DiskPressure { target }) => layer_allowed(target.layer, l1, l3),
        None => true,
    }
}

/// A profile's faults only hit the layers it allows: a generator built for
/// profile `p` never picks an L1 container unless `p.target_l1`, nor an L3
/// container unless `p.target_l3`, whatever its generator state.
pub proof fn law_faults_respect_profile(p: ChaosProfile, r: RngState)
    ensures
        fault_respects(
            inject_spec(p, allowed_targets(testnode_view(), p.target_l1, p.target_l3), r).1,
            p.target_l1,
            p.target_l3,
        ),
{
    let cs = allowed_targets(testnode_view(), p.target_l1, p.target_l3);
    lemma_allowed_targets_allowed(testnode_view(), p.target_l1, p.target_l3);
    assert(testnode_view().len() == 8);
    if cs.len() > 0 {
        let last = (cs.len() - 1) as u64;
        let (r1, kill) = r.chance(p.container_kill_rate);
        lemma_range(r1, 0, last);
        let (r2, pause) = r1.chance(p.container_pause_rate);
        lemma_range(r2, 0, last);
        let (r3, part) = r2.chance(p.network_partition_rate);
        let most = if cs.len() < 3 {
            cs.len() as u64
        } else {
            3u64
        };
        let (r4, count) = r3.range(1, most);
        lemma_range(r3, 1, most);
        lemma_shuffle_draws(r4, cs, (cs.len() - 1) as nat);
        lemma_shuffle_keeps_layers(r4, cs, (cs.len() - 1) as nat, p.target_l1, p.target_l3);
        let shuffled = r4.shuffle(cs).1;
        assert forall|k: int| 0 <= k < shuffled.take(count as int).len() implies layer_allowed(
            #[trigger] shuffled.take(count as int)[k].layer,
            p.target_l1,
            p.target_l3,
        ) by {
            assert(shuffled.take(count as int)[k] == shuffled[k]);
        }
    }
}

/// A partition cuts off between one and three targets, never more than the
/// generator has, each of them one of its targets; when its targets are
/// distinct, so are the ones cut off.
pub proof fn law_partition_targets(p: ChaosProfile, cs: Seq<TargetView>, r: RngState)
    ensures
        inject_spec(p, cs, r).1 matches Some(FaultView::NetworkPartition { targets, .. }) ==> {
            &&& 1 <= targets.len() <= 3
            &&& targets.len() <= cs.len()
            &&& forall|k: int| 0 <= k < targets.len() ==> cs.contains(#[trigger] targets[k])
            &&& cs.no_duplicates() ==> targets.no_duplicates()
        },
{
    broadcast use vstd::seq_lib::to_multiset_len;
    broadcast use vstd::seq_lib::to_multiset_contains;

    if cs.len() > 0 {
        let (r1, kill) = r.chance(p.container_kill_rate);
        let (r2, pause) = r1.chance(p.container_pause_rate);
        let (r3, part) = r2.chance(p.network_partition_rate);
        if !kill && !pause && part {
            let most = if cs.len() < 3 {
                cs.len() as u64
            } else {
                3u64
            };
            let (r4, count) = r3.range(1, most);
            lemma_range(r3, 1, most);
            let shuffled = r4.shuffle(cs).1;
            law_shuffle_permutes(r4, cs);
            assert(shuffled.len() == cs.len()) by {
                assert(shuffled.to_multiset().len() == cs.to_multiset().len());
            }
            let targets = shuffled.take(count as int);
            assert forall|k: int| 0 <= k < targets.len() implies cs.contains(#[trigger] targets[k]) by {
                assert(targets[k] == shuffled[k]);
                assert(shuffled.contains(shuffled[k]));
                assert(shuffled.to_multiset().count(shuffled[k]) > 0);
                assert(cs.to_multiset().count(shuffled[k]) > 0);
            }
            if cs.no_duplicates() {
                cs.lemma_multiset_has_no_duplicates();
                shuffled.lemma_multiset_has_no_duplicates_conv();
                assert forall|i: int, j: int| 0 <= i < targets.len() && 0 <= j < targets.len() && i != j implies targets[i]
                    != targets[j] by {
                    assert(targets[i] == shuffled[i]);
                    assert(targets[j] == shuffled[j]);
                }
            }
        }
    }
}

/// Fault generator: uses the deterministic generator to decide what to break.
pub struct FaultGenerator {
    profile: ChaosProfile,
    containers: Vec<ContainerTarget>,
}

impl FaultGenerator {
    /// The profile it draws with.
    pub closed spec fn profile(self) -> ChaosProfile {
        self.profile
    }

    /// The containers it may hit.
    pub closed spec fn targets(self) -> Seq<TargetView> {
        targets_view(self.containers@)
    }

    /// A generator over the testnode containers that `profile` may target
    /// (L1 only when `target_l1`, L3 only when `target_l3`).
    pub fn new(profile: ChaosProfile) -> (g: Self)
        ensures
            g.profile() == profile,
            g.targets() == allowed_targets(testnode_view(), profile.target_l1, profile.target_l3),
    {
        let all = testnode_containers();
        let mut containers: Vec<ContainerTarget> = Vec::new();
        let mut i: usize = 0;
        while i < all.len()
            invariant
                i <= all@.len(),
                targets_view(all@) == testnode_view(),
                targets_view(containers@) == allowed_targets(
                    targets_view(all@).take(i as int),
                    profile.target_l1,
                    profile.target_l3,
                ),
            decreases all@.len() - i,
        {
            let ghost prefix = targets_view(all@).take(i as int);
            let ghost next = targets_view(all@).take(i + 1);
            assert(next.drop_last() =~= prefix);
            let layer = all[i].layer;
            if (layer != Layer::L1 || profile.target_l1) && (layer != Layer::L3 || profile.target_l3) {
                let ghost before = containers@;
                containers.push(all[i].duplicate());
                assert(targets_view(containers@) =~= targets_view(before).push(next.last()));
            }
            i = i + 1;
        }
        assert(targets_view(all@).take(all@.len() as int) =~= targets_view(all@));
        FaultGenerator { profile, containers }
    }

    /// Rolls the dice and maybe produces a fault for this tick: a kill, else a
    /// pause, else a partition of 1 to 3 shuffled targets, else nothing.
    pub fn maybe_inject(&self, rng: &mut DeterministicRng) -> (fault: Option<InfraFault>)
        requires
            old(rng)@.has_room(6 + self.targets().len()),
            self.profile().spans_fit(),
        ensures
            (final(rng)@, match fault {
                Some(f) => Some(f@),
                None => None::<FaultView>,
            }) == inject_spec(self.profile(), self.targets(), old(rng)@),
    {
        let ghost cs = targets_view(self.containers@);
        if self.containers.len() == 0 {
            return None;
        }
        let last = (self.containers.len() - 1) as u64;
        if rng.chance(self.profile.container_kill_rate) {
            let target = rng.pick(self.containers.as_slice()).duplicate();
            return Some(InfraFault::KillContainer { target });
        }
        if rng.chance(self.profile.container_pause_rate) {
            let target = rng.pick(self.containers.as_slice()).duplicate();
            let duration_ms = rng.range(
                self.profile.pause_duration_min_ms,
                self.profile.pause_duration_max_ms,
            );
            return Some(InfraFault::PauseContainer { target, duration_ms });
        }
        if rng.chance(self.profile.network_partition_rate) {
            let most: u64 = if self.containers.len() < 3 {
                self.containers.len() as u64
            } else {
                3
            };
            let count = rng.range(1, most) as usize;
            let mut targets = duplicate_targets(&self.containers);
            let ghost r4 = rng@;
            let ghost before = targets@;
            rng.shuffle(&mut targets);
            proof {
                lemma_shuffle_views(r4, before, (before.len() - 1) as nat);
            }
            let ghost shuffled = targets@;
            targets.truncate(count);
            assert(targets_view(targets@) =~= targets_view(shuffled).take(count as int));
            let duration_ms = rng.range(
                self.profile.partition_duration_min_ms,
                self.profile.partition_duration_max_ms,
            );
            return Some(InfraFault::NetworkPartition { targets, duration_ms });
        }
        None
    }
}

} // verus!
