//! A non-destructive health probe of every layer: block production, gas
//! pricing and the precompiles.
use vstd::prelude::*;
use vstd::string::*;
use crate::invariants::{class_name, violation, violation_view, InvariantClass};
use crate::scenario::{MetaView, ScenarioCategory, ScenarioMeta, Verdict, VerdictView, verdicts_view};
use crate::scenarios::{all_zero, all_zero_bytes, check, check_verdict};
use crate::text::{decimal, one_number, two_numbers};
use crate::types::{layer_name, FindingView, Layer, Severity, U256};

verus! {

/// Non-destructive full-stack health probe: block production, gas pricing,
/// precompiles and liveness on all layers.
pub struct FullStackHealthProbe;

/// A layer's height before and after a wait.
#[derive(Clone, Copy, Debug)]
pub struct HeightSample {
    pub before: u64,
    pub after: u64,
}

/// What the probe saw of the live stack.
#[derive(Clone, Debug)]
pub struct HealthObservations {
    /// Heights of L1 and L2 across their waits.
    pub l1: HeightSample,
    pub l2: HeightSample,
    /// Heights of L3, when it is configured.
    pub l3: Option<HeightSample>,
    /// L2 gas price in wei.
    pub l2_gas_price: u128,
    /// What `ArbSys.arbBlockNumber()` returned on L2.
    pub arbsys_block: Vec<u8>,
    /// What `ArbGasInfo.getPricesInWei()` returned on L2.
    pub gas_prices: Vec<u8>,
    /// What `ArbSys.arbBlockNumber()` returned on L3, when it is configured.
    pub l3_arbsys_block: Option<Vec<u8>>,
}

/// The scenario's metadata.
pub open spec fn health_meta() -> MetaView {
    MetaView {
        name: "full-stack-health-probe"@,
        description: "Non-destructive probe of all layers: block production liveness, gas pricing sanity, precompile accessibility, and cross-layer connectivity."@,
        category: ScenarioCategory::InvariantProbe,
        target_layers: seq![Layer::L1, Layer::L2, Layer::L3],
        severity_potential: Severity::High,
        destructive: false,
    }
}

/// Seconds to wait between two height reads: L1 in dev mode makes a block
/// about every second, the L2 and L3 sequencers only on demand.
pub open spec fn wait_for(layer: Layer) -> u64 {
    match layer {
        Layer::L1 => 3,
        _ => 6,
    }
}

/// Gas prices above this many wei (100k gwei) are absurd.
pub const ABSURD_GAS_PRICE: u128 = 100_000_000_000_000;

/// The verdict on a layer's heights: they must never go back, and L1 must move.
pub open spec fn height_verdict(layer: Layer, s: HeightSample, seed: u64) -> VerdictView {
    let description = "block "@ + decimal(s.before as nat) + " -> "@ + decimal(s.after as nat)
        + " over "@ + decimal(wait_for(layer) as nat) + "s"@;
    if s.after < s.before {
        VerdictView::Report(
            violation_view(
                InvariantClass::BlockMonotonicity,
                layer,
                layer_name(layer) + " block height regressed"@,
                description,
                seed,
                0,
            ),
        )
    } else if s.after == s.before && layer == Layer::L1 {
        VerdictView::Report(
            violation_view(
                InvariantClass::BlockMonotonicity,
                layer,
                layer_name(layer) + " blocks not advancing"@,
                description,
                seed,
                0,
            ),
        )
    } else {
        VerdictView::Pass
    }
}

/// The verdict on the L2 gas price: neither zero nor absurd.
pub open spec fn gas_verdict(price: u128, seed: u64) -> VerdictView {
    if price == 0 {
        VerdictView::Report(
            violation_view(
                InvariantClass::GasPricingSanity,
                Layer::L2,
                "L2 gas price is zero"@,
                "Zero gas price indicates broken fee mechanism"@,
                seed,
                0,
            ),
        )
    } else if price > ABSURD_GAS_PRICE {
        VerdictView::Report(
            violation_view(
                InvariantClass::GasPricingSanity,
                Layer::L2,
                "L2 gas price is absurdly high"@,
                "gas price = "@ + decimal(price as nat) + " wei"@,
                seed,
                0,
            ),
        )
    } else {
        VerdictView::Pass
    }
}

/// The verdicts, in order, for what the probe saw with seed `seed`. The
/// `getPricesInWei()` check flags an answer shorter than one 32-byte word,
/// though its message names the 192 bytes (six words) a full answer holds.
pub open spec fn health_verdicts(
    l1: HeightSample,
    l2: HeightSample,
    l3: Option<HeightSample>,
    l2_gas_price: u128,
    arbsys_block: Seq<u8>,
    gas_prices: Seq<u8>,
    l3_arbsys_block: Option<Seq<u8>>,
    seed: u64,
) -> Seq<VerdictView> {
    seq![height_verdict(Layer::L1, l1, seed), height_verdict(Layer::L2, l2, seed)] + match l3 {
        Some(s) => seq![height_verdict(Layer::L3, s, seed)],
        None => Seq::empty(),
    } + seq![
        gas_verdict(l2_gas_price, seed),
        check_verdict(
            !(arbsys_block.len() < 32 || all_zero_bytes(arbsys_block)),
            InvariantClass::SequencerLiveness,
            Layer::L2,
            "ArbSys.arbBlockNumber() returned invalid data"@,
            "returned "@ + decimal(arbsys_block.len()) + " bytes, all zero"@,
            seed,
        ),
        check_verdict(
            gas_prices.len() >= 32,
            InvariantClass::GasPricingSanity,
            Layer::L2,
            "ArbGasInfo.getPricesInWei() returned too little data"@,
            "returned "@ + decimal(gas_prices.len()) + " bytes, expected >=192"@,
            seed,
        ),
    ] + match l3_arbsys_block {
        Some(b) => seq![
            check_verdict(
                !all_zero_bytes(b),
                InvariantClass::SequencerLiveness,
                Layer::L3,
                "L3 ArbSys.arbBlockNumber() returned 0"@,
                "L3 precompile is not responding correctly"@,
                seed,
            ),
        ],
        None => Seq::empty(),
    }
}

impl FullStackHealthProbe {
    /// Metadata describing the scenario.
    pub fn meta(&self) -> (m: ScenarioMeta)
        ensures
            m@ == health_meta(),
    {
        let mut target_layers = Vec::new();
        target_layers.push(Layer::L1);
        target_layers.push(Layer::L2);
        target_layers.push(Layer::L3);
        let m = ScenarioMeta {
            name: String::from_str("full-stack-health-probe"),
            description: String::from_str(
                "Non-destructive probe of all layers: block production liveness, gas pricing sanity, precompile accessibility, and cross-layer connectivity.",
            ),
            category: ScenarioCategory::InvariantProbe,
            target_layers,
            severity_potential: Severity::High,
            destructive: false,
        };
        assert(m@.target_layers =~= seq![Layer::L1, Layer::L2, Layer::L3]);
        m
    }

    /// Seconds to wait between the two height reads of `layer`.
    pub fn wait_secs(&self, layer: Layer) -> (s: u64)
        ensures
            s == wait_for(layer),
    {
        match layer {
            Layer::L1 => 3,
            _ => 6,
        }
    }

    /// The verdict on one layer's heights.
    fn height_check(&self, layer: Layer, s: HeightSample, seed: u64) -> (v: Verdict)
        ensures
            v@ == height_verdict(layer, s, seed),
    {
        if s.after < s.before || (s.after == s.before && layer == Layer::L1) {
            let mut description = two_numbers("block ", s.before, " -> ", s.after);
            let wait = one_number(" over ", self.wait_secs(layer), "s");
            description.append(wait.as_str());
            assert(description@ =~= "block "@ + decimal(s.before as nat) + " -> "@ + decimal(
                s.after as nat,
            ) + " over "@ + decimal(wait_for(layer) as nat) + "s"@);
            let mut title = layer.to_string();
            if s.after < s.before {
                title.append(" block height regressed");
            } else {
                title.append(" blocks not advancing");
            }
            Verdict::Report(violation(InvariantClass::BlockMonotonicity, layer, title, description, seed, 0))
        } else {
            Verdict::Pass
        }
    }

    /// The verdict on the L2 gas price.
    fn gas_check(&self, price: u128, seed: u64) -> (v: Verdict)
        ensures
            v@ == gas_verdict(price, seed),
    {
        if price == 0 {
            Verdict::Report(
                violation(
                    InvariantClass::GasPricingSanity,
                    Layer::L2,
                    String::from_str("L2 gas price is zero"),
                    String::from_str("Zero gas price indicates broken fee mechanism"),
                    seed,
                    0,
                ),
            )
        } else if price > ABSURD_GAS_PRICE {
            let mut description = String::from_str("gas price = ");
            let wei = U256 { hi: 0, lo: price }.to_string();
            description.append(wei.as_str());
            description.append(" wei");
            Verdict::Report(
                violation(
                    InvariantClass::GasPricingSanity,
                    Layer::L2,
                    String::from_str("L2 gas price is absurdly high"),
                    description,
                    seed,
                    0,
                ),
            )
        } else {
            Verdict::Pass
        }
    }

    /// The verdicts of the probe's checks, in the order it checks: heights
    /// of L1, L2 and (when there) L3; the L2 gas price; ArbSys and ArbGasInfo
    /// answers on L2; ArbSys on L3 (when there).
    pub fn assess(&self, o: &HealthObservations, seed: u64) -> (v: Vec<Verdict>)
        ensures
            verdicts_view(v@) == health_verdicts(
                o.l1,
                o.l2,
                o.l3,
                o.l2_gas_price,
                o.arbsys_block@,
                o.gas_prices@,
                match o.l3_arbsys_block {
                    Some(b) => Some(b@),
                    None => None,
                },
                seed,
            ),
    {
        let mut v: Vec<Verdict> = Vec::new();
        v.push(self.height_check(Layer::L1, o.l1, seed));
        v.push(self.height_check(Layer::L2, o.l2, seed));
        match o.l3 {
            Some(s) => {
                v.push(self.height_check(Layer::L3, s, seed));
            },
            None => {},
        }
        v.push(self.gas_check(o.l2_gas_price, seed));
        let arbsys_len = o.arbsys_block.len();
        v.push(
            check(
                !(arbsys_len < 32 || all_zero(o.arbsys_block.as_slice())),
                InvariantClass::SequencerLiveness,
                Layer::L2,
                String::from_str("ArbSys.arbBlockNumber() returned invalid data"),
                one_number("returned ", arbsys_len as u64, " bytes, all zero"),
                seed,
            ),
        );
        let gas_len = o.gas_prices.len();
        v.push(
            check(
                gas_len >= 32,
                InvariantClass::GasPricingSanity,
                Layer::L2,
                String::from_str("ArbGasInfo.getPricesInWei() returned too little data"),
                one_number("returned ", gas_len as u64, " bytes, expected >=192"),
                seed,
            ),
        );
        match &o.l3_arbsys_block {
            Some(b) => {
                v.push(
                    check(
                        !all_zero(b.as_slice()),
                        InvariantClass::SequencerLiveness,
                        Layer::L3,
                        String::from_str("L3 ArbSys.arbBlockNumber() returned 0"),
                        String::from_str("L3 precompile is not responding correctly"),
                        seed,
                    ),
                );
            },
            None => {},
        }
        assert(verdicts_view(v@) =~= health_verdicts(
            o.l1,
            o.l2,
            o.l3,
            o.l2_gas_price,
            o.arbsys_block@,
            o.gas_prices@,
            match o.l3_arbsys_block {
                Some(b) => Some(b@),
                None => None,
            },
            seed,
        ));
        v
    }
}

/// The gas check passes exactly for an L2 gas price of 1 to 10^14 wei. A zero
/// price is a low-severity gas pricing finding on L2, "L2 gas price is zero";
/// a price above 10^14 wei is one on L2, "L2 gas price is absurdly high".
pub proof fn law_gas_price_sane_range(price: u128, seed: u64)
    ensures
        (gas_verdict(price, seed) == VerdictView::Pass) <==> (1 <= price <= 100_000_000_000_000),
        price == 0 ==> gas_verdict(price, seed) == VerdictView::Report(
            FindingView {
                severity: Severity::Low,
                title: "L2 gas price is zero"@,
                description: "Zero gas price indicates broken fee mechanism"@,
                layer: Some(Layer::L2),
                scenario: "invariant::"@ + class_name(InvariantClass::GasPricingSanity),
                seed,
                tick: 0,
                evidence: Seq::empty(),
            },
        ),
        price > 100_000_000_000_000 ==> (gas_verdict(price, seed) matches VerdictView::Report(f)
            && f.title == "L2 gas price is absurdly high"@ && f.layer == Some(Layer::L2)
            && f.severity == Severity::Low),
{
}

/// The probe reports the gas check on the L2 price it saw: its verdict comes
/// right after the height checks (two, or three with an L3).
pub proof fn law_health_reports_gas_check(
    l1: HeightSample,
    l2: HeightSample,
    l3: Option<HeightSample>,
    l2_gas_price: u128,
    arbsys_block: Seq<u8>,
    gas_prices: Seq<u8>,
    l3_arbsys_block: Option<Seq<u8>>,
    seed: u64,
)
    ensures
        health_verdicts(l1, l2, l3, l2_gas_price, arbsys_block, gas_prices, l3_arbsys_block, seed)[
            if l3 is Some { 3int } else { 2int }
        ] == gas_verdict(l2_gas_price, seed),
{
}

} // verus!
