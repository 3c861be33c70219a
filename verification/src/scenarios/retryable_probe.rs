//! A read-only probe of the Arbitrum precompile surface: ArbSys, ArbGasInfo,
//! ArbRetryableTx, ArbAggregator.
use vstd::prelude::*;
use vstd::string::*;
use crate::invariants::{violation, violation_view, InvariantClass};
use crate::scenario::{MetaView, ScenarioCategory, ScenarioMeta, Verdict, VerdictView, verdicts_view};
use crate::scenarios::{all_zero, all_zero_bytes, check, check_verdict, decode_uint64, word_u64};
use crate::text::{decimal, one_number};
use crate::types::{Layer, Severity};

verus! {

/// Non-destructive probe of the precompiles around retryable tickets, L1
/// pricing and the node interface: each answers with sane data.
pub struct PrecompileSurfaceProbe;

/// How a call on L3 went.
#[derive(Clone, Debug)]
pub enum CallAnswer {
    /// The call returned these bytes.
    Returned(Vec<u8>),
    /// The call failed with this message.
    Failed(String),
}

/// What the probe saw of the live stack.
#[derive(Clone, Debug)]
pub struct PrecompileObservations {
    /// What `ArbSys.arbBlockNumber()` returned on L2.
    pub block_number: Vec<u8>,
    /// What `ArbGasInfo.getPricesInWei()` returned on L2.
    pub gas_prices: Vec<u8>,
    /// What `ArbRetryableTx.getLifetime()` returned, or `None` when it reverted.
    pub lifetime: Option<Vec<u8>>,
    /// How `ArbSys.arbBlockNumber()` went on L3, when an L3 is configured.
    pub l3_block_number: Option<CallAnswer>,
}

/// How a call on L3 went, as plain values.
pub enum AnswerView {
    Returned(Seq<u8>),
    Failed(Seq<char>),
}

impl View for CallAnswer {
    type V = AnswerView;

    open spec fn view(&self) -> AnswerView {
        match self {
            CallAnswer::Returned(b) => AnswerView::Returned(b@),
            CallAnswer::Failed(m) => AnswerView::Failed(m@),
        }
    }
}

/// The scenario's metadata.
pub open spec fn precompile_meta() -> MetaView {
    MetaView {
        name: "precompile-surface-probe"@,
        description: "Probe Arbitrum L2 precompiles: ArbSys, ArbGasInfo, ArbRetryableTx, ArbAggregator, and NodeInterface. Verifies each returns valid data and no reverts. Non-destructive read-only probe."@,
        category: ScenarioCategory::InvariantProbe,
        target_layers: seq![Layer::L2],
        severity_potential: Severity::High,
        destructive: false,
    }
}

/// The verdict on the retryable lifetime: a full word must not hold 0; a
/// short answer or a revert passes.
pub open spec fn lifetime_verdict(lifetime: Option<Seq<u8>>, seed: u64) -> VerdictView {
    match lifetime {
        Some(r) if r.len() >= 32 && word_u64(r) == 0 => VerdictView::Report(
            violation_view(
                InvariantClass::RetryableResolution,
                Layer::L2,
                "ArbRetryableTx.getLifetime() returned 0"@,
                "Retryable ticket lifetime should be non-zero"@,
                seed,
                0,
            ),
        ),
        _ => VerdictView::Pass,
    }
}

/// The verdicts on L3's ArbSys, when an L3 is configured.
pub open spec fn l3_block_verdicts(answer: Option<AnswerView>, seed: u64) -> Seq<VerdictView> {
    match answer {
        None => Seq::empty(),
        Some(AnswerView::Returned(b)) => seq![
            check_verdict(
                b.len() >= 32 && !all_zero_bytes(b),
                InvariantClass::SequencerLiveness,
                Layer::L3,
                "L3 ArbSys.arbBlockNumber() returned invalid data"@,
                "returned "@ + decimal(b.len()) + " bytes"@,
                seed,
            ),
        ],
        Some(AnswerView::Failed(m)) => seq![
            VerdictView::Report(
                violation_view(
                    InvariantClass::SequencerLiveness,
                    Layer::L3,
                    "L3 ArbSys.arbBlockNumber() call failed"@,
                    m,
                    seed,
                    0,
                ),
            ),
        ],
    }
}

/// The verdicts, in order, for what the probe saw with seed `seed`. The
/// deprecated calls (`arbChainID`, `getL1BaseFeeEstimate`,
/// `getDefaultAggregator`) pass however they answer.
pub open spec fn precompile_verdicts(
    block_number: Seq<u8>,
    gas_prices: Seq<u8>,
    lifetime: Option<Seq<u8>>,
    l3_block_number: Option<AnswerView>,
    seed: u64,
) -> Seq<VerdictView> {
    seq![
        check_verdict(
            block_number.len() >= 32,
            InvariantClass::SequencerLiveness,
            Layer::L2,
            "ArbSys.arbBlockNumber() returned insufficient data"@,
            "returned "@ + decimal(block_number.len()) + " bytes"@,
            seed,
        ),
        VerdictView::Pass,
        check_verdict(
            gas_prices.len() >= 192,
            InvariantClass::GasPricingSanity,
            Layer::L2,
            "ArbGasInfo.getPricesInWei() returned too little data"@,
            "returned "@ + decimal(gas_prices.len()) + " bytes, expected >=192 (6 uint256s)"@,
            seed,
        ),
        VerdictView::Pass,
        lifetime_verdict(lifetime, seed),
        VerdictView::Pass,
    ] + l3_block_verdicts(l3_block_number, seed)
}

impl PrecompileSurfaceProbe {
    /// Metadata describing the scenario.
    pub fn meta(&self) -> (m: ScenarioMeta)
        ensures
            m@ == precompile_meta(),
    {
        let mut target_layers = Vec::new();
        target_layers.push(Layer::L2);
        let m = ScenarioMeta {
            name: String::from_str("precompile-surface-probe"),
            description: String::from_str(
                "Probe Arbitrum L2 precompiles: ArbSys, ArbGasInfo, ArbRetryableTx, ArbAggregator, and NodeInterface. Verifies each returns valid data and no reverts. Non-destructive read-only probe.",
            ),
            category: ScenarioCategory::InvariantProbe,
            target_layers,
            severity_potential: Severity::High,
            destructive: false,
        };
        assert(m@.target_layers =~= seq![Layer::L2]);
        m
    }

    /// The verdicts of the probe's checks, in the order it checks: ArbSys
    /// block number, ArbSys chain id, ArbGasInfo prices, ArbGasInfo L1 base
    /// fee, ArbRetryableTx lifetime, ArbAggregator, and ArbSys on L3 (when there).
    pub fn assess(&self, o: &PrecompileObservations, seed: u64) -> (v: Vec<Verdict>)
        ensures
            verdicts_view(v@) == precompile_verdicts(
                o.block_number@,
                o.gas_prices@,
                match o.lifetime {
                    Some(r) => Some(r@),
                    None => None,
                },
                match o.l3_block_number {
                    Some(a) => Some(a@),
                    None => None,
                },
                seed,
            ),
    {
        let mut v: Vec<Verdict> = Vec::new();
        let block_len = o.block_number.len();
        v.push(
            check(
                block_len >= 32,
                InvariantClass::SequencerLiveness,
                Layer::L2,
                String::from_str("ArbSys.arbBlockNumber() returned insufficient data"),
                one_number("returned ", block_len as u64, " bytes"),
                seed,
            ),
        );
        v.push(Verdict::Pass);
        let gas_len = o.gas_prices.len();
        v.push(
            check(
                gas_len >= 192,
                InvariantClass::GasPricingSanity,
                Layer::L2,
                String::from_str("ArbGasInfo.getPricesInWei() returned too little data"),
                one_number("returned ", gas_len as u64, " bytes, expected >=192 (6 uint256s)"),
                seed,
            ),
        );
        v.push(Verdict::Pass);
        match &o.lifetime {
            Some(r) if r.len() >= 32 && decode_uint64(r.as_slice()) == 0 => {
                v.push(
                    Verdict::Report(
                        violation(
                            InvariantClass::RetryableResolution,
                            Layer::L2,
                            String::from_str("ArbRetryableTx.getLifetime() returned 0"),
                            String::from_str("Retryable ticket lifetime should be non-zero"),
                            seed,
                            0,
                        ),
                    ),
                );
            },
            _ => {
                v.push(Verdict::Pass);
            },
        }
        v.push(Verdict::Pass);
        match &o.l3_block_number {
            Some(CallAnswer::Returned(b)) => {
                let len = b.len();
                v.push(
                    check(
                        len >= 32 && !all_zero(b.as_slice()),
                        InvariantClass::SequencerLiveness,
                        Layer::L3,
                        String::from_str("L3 ArbSys.arbBlockNumber() returned invalid data"),
                        one_number("returned ", len as u64, " bytes"),
                        seed,
                    ),
                );
            },
            Some(CallAnswer::Failed(m)) => {
                v.push(
                    Verdict::Report(
                        violation(
                            InvariantClass::SequencerLiveness,
                            Layer::L3,
                            String::from_str("L3 ArbSys.arbBlockNumber() call failed"),
                            m.clone(),
                            seed,
                            0,
                        ),
                    ),
                );
            },
            None => {},
        }
        assert(verdicts_view(v@) =~= precompile_verdicts(
            o.block_number@,
            o.gas_prices@,
            match o.lifetime {
                Some(r) => Some(r@),
                None => None,
            },
            match o.l3_block_number {
                Some(a) => Some(a@),
                None => None,
            },
            seed,
        ));
        v
    }
}

} // verus!
