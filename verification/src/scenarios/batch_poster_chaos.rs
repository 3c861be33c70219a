//! Kill the batch poster, check that the sequencer keeps producing blocks,
//! restart the poster and check that L2 stays healthy.
use vstd::prelude::*;
use vstd::string::*;
use crate::invariants::InvariantClass;
use crate::scenario::{MetaView, ScenarioCategory, ScenarioMeta, Verdict, VerdictView, verdicts_view};
use crate::scenarios::{
    kill_l2_service, l2_service, progress_check, progress_verdict, restart_l2_service,
};
use crate::text::decimal;
use crate::types::{FaultView, InfraFault, Layer, Severity};

verus! {

/// Kill the batch poster, verify the sequencer keeps producing L2 blocks,
/// then restart the poster and verify L2 stays healthy.
pub struct BatchPosterKillAndRecover;

/// What the scenario saw of the live stack.
#[derive(Clone, Copy, Debug)]
pub struct PosterObservations {
    /// Heights before the poster was killed.
    pub l1_before: u64,
    pub l2_before: u64,
    /// Heights some seconds after the kill.
    pub l2_during: u64,
    pub l1_during: u64,
    /// L2 height some seconds after the restart.
    pub l2_after: u64,
}

/// The scenario's metadata.
pub open spec fn poster_meta() -> MetaView {
    MetaView {
        name: "batch-poster-kill-and-recover"@,
        description: "Kill the L2 batch poster, verify L2 sequencer is unaffected, restart poster, verify batch posting resumes. Tests that the sequencer and poster are independently resilient."@,
        category: ScenarioCategory::SequencerChaos,
        target_layers: seq![Layer::L1, Layer::L2],
        severity_potential: Severity::High,
        destructive: true,
    }
}

/// The verdicts, in order, for what the scenario saw with seed `seed`.
pub open spec fn poster_verdicts(o: PosterObservations, seed: u64) -> Seq<VerdictView> {
    seq![
        VerdictView::Pass,
        progress_verdict(
            InvariantClass::SequencerLiveness,
            Layer::L2,
            "L2 sequencer stopped when batch poster was killed"@,
            "L2 before="@ + decimal(o.l2_before as nat) + ", during="@ + decimal(o.l2_during as nat)
                + " \u{2014} sequencer should be independent of poster"@,
            o.l2_before,
            o.l2_during,
            seed,
        ),
        progress_verdict(
            InvariantClass::BlockMonotonicity,
            Layer::L1,
            "L1 stopped while batch poster was down"@,
            "L1 before="@ + decimal(o.l1_before as nat) + ", during="@ + decimal(o.l1_during as nat)
                + ""@,
            o.l1_before,
            o.l1_during,
            seed,
        ),
        progress_verdict(
            InvariantClass::SequencerLiveness,
            Layer::L2,
            "L2 stalled after batch poster restart"@,
            "L2 during="@ + decimal(o.l2_during as nat) + ", after="@ + decimal(o.l2_after as nat)
                + ""@,
            o.l2_during,
            o.l2_after,
            seed,
        ),
    ]
}

impl BatchPosterKillAndRecover {
    /// Metadata describing the scenario.
    pub fn meta(&self) -> (m: ScenarioMeta)
        ensures
            m@ == poster_meta(),
    {
        let mut target_layers = Vec::new();
        target_layers.push(Layer::L1);
        target_layers.push(Layer::L2);
        let m = ScenarioMeta {
            name: String::from_str("batch-poster-kill-and-recover"),
            description: String::from_str(
                "Kill the L2 batch poster, verify L2 sequencer is unaffected, restart poster, verify batch posting resumes. Tests that the sequencer and poster are independently resilient.",
            ),
            category: ScenarioCategory::SequencerChaos,
            target_layers,
            severity_potential: Severity::High,
            destructive: true,
        };
        assert(m@.target_layers =~= seq![Layer::L1, Layer::L2]);
        m
    }

    /// The fault that kills the batch poster.
    pub fn kill_fault(&self) -> (f: InfraFault)
        ensures
            f@ == (FaultView::KillContainer { target: l2_service("poster"@) }),
    {
        kill_l2_service("poster")
    }

    /// The fault that restarts the batch poster.
    pub fn restart_fault(&self) -> (f: InfraFault)
        ensures
            f@ == (FaultView::RestartContainer { target: l2_service("poster"@) }),
    {
        restart_l2_service("poster")
    }

    /// The verdicts of the scenario's checks on what it saw, in the order it
    /// checks: baseline taken; L2 kept going with the poster down; L1 kept
    /// going; L2 kept going after the restart.
    pub fn assess(&self, o: &PosterObservations, seed: u64) -> (v: Vec<Verdict>)
        ensures
            verdicts_view(v@) == poster_verdicts(*o, seed),
    {
        let mut v: Vec<Verdict> = Vec::new();
        v.push(Verdict::Pass);
        v.push(
            progress_check(
                InvariantClass::SequencerLiveness,
                Layer::L2,
                "L2 sequencer stopped when batch poster was killed",
                "L2 before=",
                o.l2_before,
                ", during=",
                o.l2_during,
                " \u{2014} sequencer should be independent of poster",
                seed,
            ),
        );
        v.push(
            progress_check(
                InvariantClass::BlockMonotonicity,
                Layer::L1,
                "L1 stopped while batch poster was down",
                "L1 before=",
                o.l1_before,
                ", during=",
                o.l1_during,
                "",
                seed,
            ),
        );
        v.push(
            progress_check(
                InvariantClass::SequencerLiveness,
                Layer::L2,
                "L2 stalled after batch poster restart",
                "L2 during=",
                o.l2_during,
                ", after=",
                o.l2_after,
                "",
                seed,
            ),
        );
        assert(verdicts_view(v@) =~= poster_verdicts(*o, seed));
        v
    }
}

} // verus!
