//! Invariant classes and the findings that their violations produce.
use vstd::prelude::*;
use vstd::string::*;
use crate::types::{evidence_view, EvidenceField, Finding, FindingView, Layer, Severity};

verus! {

/// The class of property that an invariant check looks at.
#[derive(Clone, Copy, Debug, PartialEq, Eq, Hash, Structural)]
pub enum InvariantClass {
    /// Balance consistency across layers (no money created or destroyed outside bridges).
    BalanceConsistency,
    /// Blocks advance monotonically.
    BlockMonotonicity,
    /// The batch poster posts to L1 within expected intervals.
    BatchPostingLiveness,
    /// The sequencer produces blocks within expected intervals.
    SequencerLiveness,
    /// The validator confirms assertions.
    ValidatorLiveness,
    /// L1 to L2 retryable tickets resolve.
    RetryableResolution,
    /// L2 to L3 messaging works.
    CrossChainMessaging,
    /// No double spend or balance inflation.
    DoubleSpendProtection,
    /// State roots agree between sequencer and validator.
    StateRootConsistency,
    /// Gas pricing is sane (no zero or extreme values).
    GasPricingSanity,
}

/// Result of checking a single invariant.
#[derive(Debug)]
pub enum InvariantResult {
    /// The invariant holds.
    Holds,
    /// The invariant is violated.
    Violated(Finding),
    /// It could not be checked (which may itself be a finding).
    Unavailable(String),
}

impl InvariantResult {
    pub fn is_violated(&self) -> (b: bool)
        ensures
            b == (self is Violated),
    {
        match self {
            InvariantResult::Violated(_) => true,
            _ => false,
        }
    }
}

/// How severe a violation of each class is.
pub open spec fn severity_of(class: InvariantClass) -> Severity {
    match class {
        InvariantClass::DoubleSpendProtection => Severity::Critical,
        InvariantClass::BalanceConsistency => Severity::Critical,
        InvariantClass::StateRootConsistency => Severity::Critical,
        InvariantClass::RetryableResolution => Severity::High,
        InvariantClass::BatchPostingLiveness => Severity::High,
        InvariantClass::SequencerLiveness => Severity::High,
        InvariantClass::ValidatorLiveness => Severity::Medium,
        InvariantClass::CrossChainMessaging => Severity::Medium,
        InvariantClass::BlockMonotonicity => Severity::Medium,
        InvariantClass::GasPricingSanity => Severity::Low,
    }
}

/// How severe a violation of `class` is.
pub fn class_severity(class: InvariantClass) -> (s: Severity)
    ensures
        s == severity_of(class),
{
    match class {
        InvariantClass::DoubleSpendProtection => Severity::Critical,
        InvariantClass::BalanceConsistency => Severity::Critical,
        InvariantClass::StateRootConsistency => Severity::Critical,
        InvariantClass::RetryableResolution => Severity::High,
        InvariantClass::BatchPostingLiveness => Severity::High,
        InvariantClass::SequencerLiveness => Severity::High,
        InvariantClass::ValidatorLiveness => Severity::Medium,
        InvariantClass::CrossChainMessaging => Severity::Medium,
        InvariantClass::BlockMonotonicity => Severity::Medium,
        InvariantClass::GasPricingSanity => Severity::Low,
    }
}

/// The name of a class as written in source.
pub open spec fn class_name(class: InvariantClass) -> Seq<char> {
    match class {
        InvariantClass::BalanceConsistency => "BalanceConsistency"@,
        InvariantClass::BlockMonotonicity => "BlockMonotonicity"@,
        InvariantClass::BatchPostingLiveness => "BatchPostingLiveness"@,
        InvariantClass::SequencerLiveness => "SequencerLiveness"@,
        InvariantClass::ValidatorLiveness => "ValidatorLiveness"@,
        InvariantClass::RetryableResolution => "RetryableResolution"@,
        InvariantClass::CrossChainMessaging => "CrossChainMessaging"@,
        InvariantClass::DoubleSpendProtection => "DoubleSpendProtection"@,
        InvariantClass::StateRootConsistency => "StateRootConsistency"@,
        InvariantClass::GasPricingSanity => "GasPricingSanity"@,
    }
}

fn class_label(class: InvariantClass) -> (s: &'static str)
    ensures
        s@ == class_name(class),
{
    match class {
        InvariantClass::BalanceConsistency => "BalanceConsistency",
        InvariantClass::BlockMonotonicity => "BlockMonotonicity",
        InvariantClass::BatchPostingLiveness => "BatchPostingLiveness",
        InvariantClass::SequencerLiveness => "SequencerLiveness",
        InvariantClass::ValidatorLiveness => "ValidatorLiveness",
        InvariantClass::RetryableResolution => "RetryableResolution",
        InvariantClass::CrossChainMessaging => "CrossChainMessaging",
        InvariantClass::DoubleSpendProtection => "DoubleSpendProtection",
        InvariantClass::StateRootConsistency => "StateRootConsistency",
        InvariantClass::GasPricingSanity => "GasPricingSanity",
    }
}

/// Makes a fresh random (version 4) UUID with `uuid::Uuid::new_v4` and renders
/// it with its `Display` impl. The result depends on chance: nothing about
/// its value is claimed.
#[verifier::external_body]
pub(crate) fn new_finding_id() -> String {
    uuid::Uuid::new_v4().to_string()
}

/// What `violation` reports for a violated invariant.
pub open spec fn violation_view(
    class: InvariantClass,
    layer: Layer,
    title: Seq<char>,
    description: Seq<char>,
    seed: u64,
    tick: u64,
) -> FindingView {
    FindingView {
        severity: severity_of(class),
        title,
        description,
        layer: Some(layer),
        scenario: "invariant::"@ + class_name(class),
        seed,
        tick,
        evidence: Seq::empty(),
    }
}

/// Builds the finding for a violated invariant, with a fresh random id and
/// no evidence.
pub fn violation(
    class: InvariantClass,
    layer: Layer,
    title: String,
    description: String,
    seed: u64,
    tick: u64,
) -> (f: Finding)
    ensures
        f@ == violation_view(class, layer, title@, description@, seed, tick),
{
    let mut scenario = String::from_str("invariant::");
    scenario.append(class_label(class));
    let evidence: Vec<EvidenceField> = Vec::new();
    assert(evidence_view(evidence@) =~= Seq::empty());
    Finding {
        id: new_finding_id(),
        severity: class_severity(class),
        title,
        description,
        layer: Some(layer),
        scenario,
        seed,
        tick,
        evidence,
    }
}

} // verus!
