//! Scenario metadata and the runtime context that a scenario fills in.
use vstd::prelude::*;
use vstd::string::*;
use crate::prng::{DeterministicRng, RngState};
use crate::types::{Finding, FindingView, Layer, ScenarioOutcome, Severity, StackConfig};

verus! {

/// Metadata describing a chaos scenario.
#[derive(Clone, Debug)]
pub struct ScenarioMeta {
    pub name: String,
    pub description: String,
    pub category: ScenarioCategory,
    pub target_layers: Vec<Layer>,
    pub severity_potential: Severity,
    pub destructive: bool,
}

/// What a scenario's metadata says.
pub struct MetaView {
    pub name: Seq<char>,
    pub description: Seq<char>,
    pub category: ScenarioCategory,
    pub target_layers: Seq<Layer>,
    pub severity_potential: Severity,
    pub destructive: bool,
}

impl View for ScenarioMeta {
    type V = MetaView;

    open spec fn view(&self) -> MetaView {
        MetaView {
            name: self.name@,
            description: self.description@,
            category: self.category,
            target_layers: self.target_layers@,
            severity_potential: self.severity_potential,
            destructive: self.destructive,
        }
    }
}

/// The kind of a scenario.
#[derive(Clone, Copy, Debug, PartialEq, Eq, Hash, Structural)]
pub enum ScenarioCategory {
    /// Transaction-level adversarial attacks.
    TransactionAdversarial,
    /// Infrastructure fault injection (containers, network).
    InfrastructureChaos,
    /// Cross-chain messaging attacks.
    BridgeAdversarial,
    /// Sequencer or batch poster misbehaviour.
    SequencerChaos,
    /// Validator and dispute protocol testing.
    DisputeAdversarial,
    /// Timeboost auction manipulation.
    TimeboostAdversarial,
    /// State consistency invariant probing.
    InvariantProbe,
    /// Deterministic simulation (no live infrastructure needed).
    Simulation,
}

/// The display name of a category.
pub open spec fn category_name(c: ScenarioCategory) -> Seq<char> {
    match c {
        ScenarioCategory::TransactionAdversarial => "tx-adversarial"@,
        ScenarioCategory::InfrastructureChaos => "infra-chaos"@,
        ScenarioCategory::BridgeAdversarial => "bridge-adversarial"@,
        ScenarioCategory::SequencerChaos => "sequencer-chaos"@,
        ScenarioCategory::DisputeAdversarial => "dispute-adversarial"@,
        ScenarioCategory::TimeboostAdversarial => "timeboost-adversarial"@,
        ScenarioCategory::InvariantProbe => "invariant-probe"@,
        ScenarioCategory::Simulation => "simulation"@,
    }
}

impl ScenarioCategory {
    /// The display name, e.g. `sequencer-chaos`.
    pub fn to_string(&self) -> (s: String)
        ensures
            s@ == category_name(*self),
    {
        match self {
            ScenarioCategory::TransactionAdversarial => String::from_str("tx-adversarial"),
            ScenarioCategory::InfrastructureChaos => String::from_str("infra-chaos"),
            ScenarioCategory::BridgeAdversarial => String::from_str("bridge-adversarial"),
            ScenarioCategory::SequencerChaos => String::from_str("sequencer-chaos"),
            ScenarioCategory::DisputeAdversarial => String::from_str("dispute-adversarial"),
            ScenarioCategory::TimeboostAdversarial => String::from_str("timeboost-adversarial"),
            ScenarioCategory::InvariantProbe => String::from_str("invariant-probe"),
            ScenarioCategory::Simulation => String::from_str("simulation"),
        }
    }
}

#[verifier::external_type_specification]
#[verifier::external_body]
pub struct ExInstant(std::time::Instant);

/// Reads the monotonic clock with `std::time::Instant::now`; nothing about the
/// reading is claimed.
#[verifier::external_body]
fn instant_now() -> std::time::Instant {
    std::time::Instant::now()
}

/// Whole milliseconds elapsed since `start`, from `Instant::elapsed` and
/// `Duration::as_millis` (truncated to 64 bits); the result depends on the
/// time and nothing about it is claimed.
#[verifier::external_body]
fn millis_since(start: &std::time::Instant) -> u64 {
    start.elapsed().as_millis() as u64
}

/// The views of a list of findings.
pub open spec fn findings_view(v: Seq<Finding>) -> Seq<FindingView> {
    Seq::new(v.len(), |i: int| v[i]@)
}

/// The result of one check of a scenario: it passed, or it found something.
#[derive(Debug)]
pub enum Verdict {
    Pass,
    Report(Finding),
}

/// What a verdict says.
pub enum VerdictView {
    Pass,
    Report(FindingView),
}

impl View for Verdict {
    type V = VerdictView;

    open spec fn view(&self) -> VerdictView {
        match self {
            Verdict::Pass => VerdictView::Pass,
            Verdict::Report(f) => VerdictView::Report(f@),
        }
    }
}

/// The views of a list of verdicts.
pub open spec fn verdicts_view(v: Seq<Verdict>) -> Seq<VerdictView> {
    Seq::new(v.len(), |i: int| v[i]@)
}

/// The findings among `vs`, in order.
pub open spec fn reports(vs: Seq<VerdictView>) -> Seq<FindingView>
    decreases vs.len(),
{
    if vs.len() == 0 {
        Seq::empty()
    } else {
        let rest = reports(vs.drop_last());
        match vs.last() {
            VerdictView::Pass => rest,
            VerdictView::Report(f) => rest.push(f),
        }
    }
}

/// How many of `vs` passed.
pub open spec fn passes(vs: Seq<VerdictView>) -> nat
    decreases vs.len(),
{
    if vs.len() == 0 {
        0
    } else {
        passes(vs.drop_last()) + match vs.last() {
            VerdictView::Pass => 1nat,
            VerdictView::Report(_) => 0nat,
        }
    }
}

/// No list of verdicts passes more checks than it holds.
pub proof fn lemma_passes_bound(vs: Seq<VerdictView>)
    ensures
        passes(vs) <= vs.len(),
    decreases vs.len(),
{
    if vs.len() > 0 {
        lemma_passes_bound(vs.drop_last());
    }
}

/// Every check counts once: each verdict either passes or reports a finding,
/// so the passes and the findings of a list of verdicts add up to its length.
pub proof fn law_each_check_counted_once(vs: Seq<VerdictView>)
    ensures
        passes(vs) + reports(vs).len() == vs.len(),
    decreases vs.len(),
{
    if vs.len() > 0 {
        law_each_check_counted_once(vs.drop_last());
    }
}

/// Runtime context passed to every scenario execution.
pub struct ScenarioContext {
    pub rng: DeterministicRng,
    pub config: StackConfig,
    pub findings: Vec<Finding>,
    pub checks_run: u64,
    pub start_time: std::time::Instant,
}

/// The final outcome for the given duration, findings and number of passed checks.
pub fn outcome_from_parts(duration_ms: u64, findings: Vec<Finding>, checks_run: u64) -> (o:
    ScenarioOutcome)
    ensures
        findings@.len() == 0 ==> o == (ScenarioOutcome::Passed { duration_ms, checks_run }),
        findings@.len() > 0 ==> o == (ScenarioOutcome::Failed { duration_ms, findings }),
{
    if findings.len() == 0 {
        ScenarioOutcome::Passed { duration_ms, checks_run }
    } else {
        ScenarioOutcome::Failed { duration_ms, findings }
    }
}

impl ScenarioContext {
    /// A fresh context: a generator for `seed`, no findings, no checks run,
    /// and the start time taken now.
    pub fn new(seed: u64, config: StackConfig) -> (ctx: Self)
        ensures
            ctx.rng@ == RngState::fresh(seed),
            ctx.config == config,
            ctx.findings@.len() == 0,
            ctx.checks_run == 0,
    {
        ScenarioContext {
            rng: DeterministicRng::new(seed),
            config,
            findings: Vec::new(),
            checks_run: 0,
            start_time: instant_now(),
        }
    }

    /// Records a finding.
    pub fn report(&mut self, finding: Finding)
        ensures
            final(self).findings@ == old(self).findings@.push(finding),
            final(self).checks_run == old(self).checks_run,
            final(self).rng@ == old(self).rng@,
            final(self).config == old(self).config,
    {
        self.findings.push(finding);
    }

    /// Records a passed check.
    pub fn check_passed(&mut self)
        requires
            old(self).checks_run < u64::MAX,
        ensures
            final(self).checks_run == old(self).checks_run + 1,
            final(self).findings@ == old(self).findings@,
            final(self).rng@ == old(self).rng@,
            final(self).config == old(self).config,
    {
        self.checks_run = self.checks_run + 1;
    }

    /// Adds one verdict to the context: a pass is counted, a finding is kept.
    pub fn record(&mut self, verdict: Verdict)
        requires
            old(self).checks_run < u64::MAX,
        ensures
            findings_view(final(self).findings@) == (match verdict@ {
                VerdictView::Pass => findings_view(old(self).findings@),
                VerdictView::Report(f) => findings_view(old(self).findings@).push(f),
            }),
            final(self).checks_run == old(self).checks_run + (match verdict@ {
                VerdictView::Pass => 1int,
                VerdictView::Report(_) => 0int,
            }),
            final(self).rng@ == old(self).rng@,
            final(self).config == old(self).config,
    {
        match verdict {
            Verdict::Pass => {
                self.check_passed();
            },
            Verdict::Report(f) => {
                let ghost before = self.findings@;
                self.report(f);
                assert(findings_view(self.findings@) =~= findings_view(before).push(f@));
            },
        }
    }

    /// Records every verdict of `verdicts`, in order.
    pub fn record_all(&mut self, verdicts: Vec<Verdict>)
        requires
            old(self).checks_run + verdicts@.len() <= u64::MAX,
        ensures
            findings_view(final(self).findings@) == findings_view(old(self).findings@) + reports(
                verdicts_view(verdicts@),
            ),
            final(self).checks_run == old(self).checks_run + passes(verdicts_view(verdicts@)),
            final(self).rng@ == old(self).rng@,
            final(self).config == old(self).config,
    {
        let ghost all = verdicts_view(verdicts@);
        let mut rest = verdicts;
        let mut k: usize = 0;
        let ghost n = all.len();
        let len = rest.len();
        assert(n == len);
        assert(all.skip(0) =~= all);
        assert(all.take(0) =~= Seq::<VerdictView>::empty());
        while rest.len() > 0
            invariant
                k + rest@.len() == n,
                n == all.len(),
                n <= usize::MAX,
                verdicts_view(rest@) == all.skip(k as int),
                findings_view(self.findings@) == findings_view(old(self).findings@) + reports(
                    all.take(k as int),
                ),
                self.checks_run == old(self).checks_run + passes(all.take(k as int)),
                old(self).checks_run + n <= u64::MAX,
                self.rng@ == old(self).rng@,
                self.config == old(self).config,
            decreases rest@.len(),
        {
            proof {
                lemma_passes_bound(all.take(k as int));
            }
            let ghost before_rest = rest@;
            let v = rest.remove(0);
            assert(v@ == verdicts_view(before_rest)[0]);
            assert forall|j: int| 0 <= j < rest@.len() implies verdicts_view(rest@)[j] == all.skip(
                k + 1,
            )[j] by {
                assert(rest@[j] == before_rest[j + 1]);
                assert(verdicts_view(before_rest)[j + 1] == all.skip(k as int)[j + 1]);
            }
            assert(verdicts_view(rest@) =~= all.skip(k + 1));
            assert(all.take(k + 1).drop_last() =~= all.take(k as int));
            assert(all.take(k + 1).last() == v@);
            let ghost prev = findings_view(self.findings@);
            self.record(v);
            proof {
                match v@ {
                    VerdictView::Pass => {},
                    VerdictView::Report(f) => {
                        assert(findings_view(old(self).findings@) + reports(all.take(k + 1)) =~= prev.push(f));
                    },
                }
            }
            k = k + 1;
        }
        assert(all.take(k as int) =~= all);
    }

    /// Elapsed wall-clock milliseconds since the scenario started.
    pub fn elapsed_ms(&self) -> u64 {
        millis_since(&self.start_time)
    }

    /// The final outcome: passed with the number of checks run when nothing
    /// was reported, else failed with every finding in the order reported.
    pub fn into_outcome(self) -> (o: ScenarioOutcome)
        ensures
            self.findings@.len() == 0 ==> (o matches ScenarioOutcome::Passed { checks_run, .. }
                && checks_run == self.checks_run),
            self.findings@.len() > 0 ==> (o matches ScenarioOutcome::Failed { findings, .. }
                && findings == self.findings),
    {
        let duration_ms = self.elapsed_ms();
        outcome_from_parts(duration_ms, self.findings, self.checks_run)
    }
}

} // verus!
