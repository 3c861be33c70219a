//! Kill the sequencer, check that L2 halts and L1 does not, restart it, and
//! check that L2 recovers.
use vstd::prelude::*;
use vstd::string::*;
use crate::invariants::{violation, violation_view, InvariantClass};
use crate::scenario::{MetaView, ScenarioCategory, ScenarioMeta, Verdict, VerdictView, verdicts_view};
use crate::scenarios::{kill_l2_service, restart_l2_service, l2_service};
use crate::text::{decimal, two_numbers};
use crate::types::{
    evidence_view, EvidenceField, Finding, FindingView, InfraFault, Layer, Severity, TargetView,
    FaultView,
};

verus! {

/// Kill the sequencer, verify L2 stops producing blocks, restart it, verify
/// it recovers and blocks resume, all while checking that L1 is unaffected.
pub struct SequencerKillAndRecover;

/// What the scenario saw of the live stack.
#[derive(Clone, Debug)]
pub struct SequencerObservations {
    /// L1 and L2 heights before the sequencer was killed.
    pub l1_before: u64,
    pub l2_before: u64,
    /// L1 height a few seconds after the kill.
    pub l1_during: u64,
    /// L2 height after the kill, or `None` when L2 did not answer.
    pub l2_during: Option<u64>,
    /// The L2 heights polled after the restart, in order (`None` where L2
    /// did not answer); polling stops at the first one past the baseline,
    /// and after `RECOVERY_POLLS` polls.
    pub recovery_reads: Vec<Option<u64>>,
    /// L1 height at the end.
    pub l1_after: u64,
}

/// How many times the scenario polls L2 after the restart (every 5 seconds,
/// so for up to 60 seconds).
pub const RECOVERY_POLLS: usize = 12;

/// Whether one of the polled heights is past the baseline `before`.
pub open spec fn recovered_in(reads: Seq<Option<u64>>, before: u64) -> bool {
    exists|i: int| 0 <= i < reads.len() && (#[trigger] reads[i] matches Some(b) && b > before)
}

/// The scenario's metadata.
pub open spec fn sequencer_meta() -> MetaView {
    MetaView {
        name: "sequencer-kill-and-recover"@,
        description: "Kill the L2 sequencer, verify halt, restart, verify recovery. L1 must remain unaffected throughout."@,
        category: ScenarioCategory::SequencerChaos,
        target_layers: seq![Layer::L1, Layer::L2],
        severity_potential: Severity::High,
        destructive: true,
    }
}

/// The container the scenario kills and restarts.
pub open spec fn sequencer_target() -> TargetView {
    l2_service("sequencer"@)
}

/// What the scenario reports when L2 kept advancing with its sequencer dead.
pub open spec fn still_advancing(before: u64, during: u64, seed: u64) -> FindingView {
    FindingView {
        severity: Severity::Medium,
        title: "L2 still advancing after sequencer kill"@,
        description: "L2 went from "@ + decimal(before as nat) + " to "@ + decimal(during as nat)
            + " despite sequencer being killed"@,
        layer: Some(Layer::L2),
        scenario: sequencer_meta().name,
        seed,
        tick: 0,
        evidence: seq![("before"@, before), ("during"@, during)],
    }
}

/// The verdicts, in order, for what the scenario saw with seed `seed`.
pub open spec fn sequencer_verdicts(o: SequencerObservations, seed: u64) -> Seq<VerdictView> {
    seq![
        VerdictView::Pass,
        if o.l1_during <= o.l1_before {
            VerdictView::Report(
                violation_view(
                    InvariantClass::BlockMonotonicity,
                    Layer::L1,
                    "L1 stopped while sequencer was down"@,
                    "L1 block before="@ + decimal(o.l1_before as nat) + ", during="@ + decimal(
                        o.l1_during as nat,
                    ),
                    seed,
                    0,
                ),
            )
        } else {
            VerdictView::Pass
        },
        match o.l2_during {
            Some(b) if b > o.l2_before + 5 => VerdictView::Report(
                still_advancing(o.l2_before, b, seed),
            ),
            _ => VerdictView::Pass,
        },
        if recovered_in(o.recovery_reads@, o.l2_before) {
            VerdictView::Pass
        } else {
            VerdictView::Report(
                violation_view(
                    InvariantClass::SequencerLiveness,
                    Layer::L2,
                    "L2 sequencer did not recover after restart"@,
                    "L2 block number did not advance within 60s of restart"@,
                    seed,
                    0,
                ),
            )
        },
        if o.l1_after <= o.l1_during {
            VerdictView::Report(
                violation_view(
                    InvariantClass::BlockMonotonicity,
                    Layer::L1,
                    "L1 stalled during recovery phase"@,
                    "L1 during="@ + decimal(o.l1_during as nat) + ", after="@ + decimal(
                        o.l1_after as nat,
                    ),
                    seed,
                    0,
                ),
            )
        } else {
            VerdictView::Pass
        },
    ]
}

impl SequencerKillAndRecover {
    /// Metadata describing the scenario.
    pub fn meta(&self) -> (m: ScenarioMeta)
        ensures
            m@ == sequencer_meta(),
    {
        let mut target_layers = Vec::new();
        target_layers.push(Layer::L1);
        target_layers.push(Layer::L2);
        let m = ScenarioMeta {
            name: String::from_str("sequencer-kill-and-recover"),
            description: String::from_str(
                "Kill the L2 sequencer, verify halt, restart, verify recovery. L1 must remain unaffected throughout.",
            ),
            category: ScenarioCategory::SequencerChaos,
            target_layers,
            severity_potential: Severity::High,
            destructive: true,
        };
        assert(m@.target_layers =~= seq![Layer::L1, Layer::L2]);
        m
    }

    /// The fault that kills the sequencer.
    pub fn kill_fault(&self) -> (f: InfraFault)
        ensures
            f@ == (FaultView::KillContainer { target: sequencer_target() }),
    {
        kill_l2_service("sequencer")
    }

    /// The fault that restarts the sequencer.
    pub fn restart_fault(&self) -> (f: InfraFault)
        ensures
            f@ == (FaultView::RestartContainer { target: sequencer_target() }),
    {
        restart_l2_service("sequencer")
    }

    /// Whether one of the polled heights is past the baseline.
    pub fn recovered(&self, reads: &Vec<Option<u64>>, before: u64) -> (b: bool)
        ensures
            b == recovered_in(reads@, before),
    {
        let mut i: usize = 0;
        while i < reads.len()
            invariant
                i <= reads@.len(),
                forall|k: int| 0 <= k < i ==> !(#[trigger] reads@[k] matches Some(h) && h > before),
            decreases reads@.len() - i,
        {
            match reads[i] {
                Some(h) => {
                    if h > before {
                        assert(reads@[i as int] matches Some(h) && h > before);
                        return true;
                    }
                },
                None => {},
            }
            i = i + 1;
        }
        false
    }

    /// Whether to poll L2 once more after the restart: fewer than
    /// `RECOVERY_POLLS` polls so far, and none of them past the baseline.
    pub fn keep_polling(&self, reads: &Vec<Option<u64>>, before: u64) -> (b: bool)
        ensures
            b == (reads@.len() < RECOVERY_POLLS && !recovered_in(reads@, before)),
    {
        reads.len() < RECOVERY_POLLS && !self.recovered(reads, before)
    }

    /// The verdicts of the scenario's checks on what it saw, in the order it
    /// checks: baseline taken; L1 kept going while the sequencer was down; L2
    /// stopped (or did not answer); L2 recovered after the restart; L1 kept
    /// going during the recovery.
    pub fn assess(&self, o: &SequencerObservations, seed: u64) -> (v: Vec<Verdict>)
        requires
            o.l2_during matches Some(_) ==> o.l2_before + 5 <= u64::MAX,
        ensures
            verdicts_view(v@) == sequencer_verdicts(*o, seed),
    {
        let mut v: Vec<Verdict> = Vec::new();
        v.push(Verdict::Pass);
        if o.l1_during <= o.l1_before {
            v.push(
                Verdict::Report(
                    violation(
                        InvariantClass::BlockMonotonicity,
                        Layer::L1,
                        String::from_str("L1 stopped while sequencer was down"),
                        two_numbers("L1 block before=", o.l1_before, ", during=", o.l1_during),
                        seed,
                        0,
                    ),
                ),
            );
        } else {
            v.push(Verdict::Pass);
        }
        match o.l2_during {
            Some(b) if b > o.l2_before + 5 => {
                let mut description = two_numbers("L2 went from ", o.l2_before, " to ", b);
                description.append(" despite sequencer being killed");
                let mut evidence = Vec::new();
                evidence.push(EvidenceField { key: String::from_str("before"), value: o.l2_before });
                evidence.push(EvidenceField { key: String::from_str("during"), value: b });
                let name = self.meta().name;
                let f = Finding {
                    id: crate::invariants::new_finding_id(),
                    severity: Severity::Medium,
                    title: String::from_str("L2 still advancing after sequencer kill"),
                    description,
                    layer: Some(Layer::L2),
                    scenario: name,
                    seed,
                    tick: 0,
                    evidence,
                };
                assert(evidence_view(f.evidence@) =~= seq![("before"@, o.l2_before), ("during"@, b)]);
                v.push(Verdict::Report(f));
            },
            _ => {
                v.push(Verdict::Pass);
            },
        }
        if self.recovered(&o.recovery_reads, o.l2_before) {
            v.push(Verdict::Pass);
        } else {
            v.push(
                Verdict::Report(
                    violation(
                        InvariantClass::SequencerLiveness,
                        Layer::L2,
                        String::from_str("L2 sequencer did not recover after restart"),
                        String::from_str("L2 block number did not advance within 60s of restart"),
                        seed,
                        0,
                    ),
                ),
            );
        }
        if o.l1_after <= o.l1_during {
            v.push(
                Verdict::Report(
                    violation(
                        InvariantClass::BlockMonotonicity,
                        Layer::L1,
                        String::from_str("L1 stalled during recovery phase"),
                        two_numbers("L1 during=", o.l1_during, ", after=", o.l1_after),
                        seed,
                        0,
                    ),
                ),
            );
        } else {
            v.push(Verdict::Pass);
        }
        assert(verdicts_view(v@) =~= sequencer_verdicts(*o, seed));
        v
    }
}

} // verus!
