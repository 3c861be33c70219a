//! Balance and pricing sanity across the layers: no funds from thin air, no
//! zero prices, a live ArbSys.
use vstd::prelude::*;
use vstd::string::*;
use crate::invariants::InvariantClass;
use crate::scenario::{MetaView, ScenarioCategory, ScenarioMeta, Verdict, VerdictView, verdicts_view};
use crate::scenarios::{all_zero, all_zero_bytes, check, check_verdict};
use crate::types::{Address, Layer, Severity, U256};

verus! {

/// Probe balance consistency across L1, L2 and L3: the bridge accounting is
/// sane and no money was created from thin air.
pub struct BalanceConsistencyProbe;

/// What the probe saw on L3.
#[derive(Clone, Copy, Debug)]
pub struct L3Health {
    pub block: u64,
    pub gas_price: u128,
}

/// What the probe saw of the live stack.
#[derive(Clone, Debug)]
pub struct BalanceObservations {
    /// Balances of the dev account.
    pub l1_balance: U256,
    pub l2_balance: U256,
    /// L2 gas price in wei.
    pub l2_gas_price: u128,
    /// What `ArbSys.arbBlockNumber()` returned on L2.
    pub arbsys_block: Vec<u8>,
    /// L3 height and gas price, when an L3 is configured.
    pub l3: Option<L3Health>,
}

/// The scenario's metadata.
pub open spec fn balance_meta() -> MetaView {
    MetaView {
        name: "balance-consistency-probe"@,
        description: "Snapshot balances on L1/L2/L3 for known addresses and verify cross-layer consistency. Checks that ArbSys and ArbGasInfo precompiles return sane values."@,
        category: ScenarioCategory::BridgeAdversarial,
        target_layers: seq![Layer::L1, Layer::L2, Layer::L3],
        severity_potential: Severity::Critical,
        destructive: false,
    }
}

/// The testnode's funded dev account, 0x3f1Eae7D46d88F08fc2F8ed27FCb2AB183EB2d0E.
pub open spec fn dev_account() -> Seq<u8> {
    seq![
        0x3fu8, 0x1e, 0xae, 0x7d, 0x46, 0xd8, 0x8f, 0x08, 0xfc, 0x2f, 0x8e, 0xd2, 0x7f, 0xcb, 0x2a,
        0xb1, 0x83, 0xeb, 0x2d, 0x0e,
    ]
}

/// The verdicts on L3, when it is there.
pub open spec fn l3_balance_verdicts(l3: Option<L3Health>, seed: u64) -> Seq<VerdictView> {
    match l3 {
        None => Seq::empty(),
        Some(h) => seq![
            check_verdict(
                h.block != 0,
                InvariantClass::BlockMonotonicity,
                Layer::L3,
                "L3 has zero block height"@,
                "L3 should have blocks if it was initialized"@,
                seed,
            ),
            check_verdict(
                h.gas_price != 0,
                InvariantClass::GasPricingSanity,
                Layer::L3,
                "L3 gas price is zero"@,
                "Gas price of 0 on L3 indicates misconfigured pricing"@,
                seed,
            ),
        ],
    }
}

/// The verdicts, in order, for what the probe saw with seed `seed`.
pub open spec fn balance_verdicts(
    l1_balance: int,
    l2_balance: int,
    l2_gas_price: u128,
    arbsys_block: Seq<u8>,
    l3: Option<L3Health>,
    seed: u64,
) -> Seq<VerdictView> {
    seq![
        check_verdict(
            l1_balance != 0,
            InvariantClass::BalanceConsistency,
            Layer::L1,
            "L1 dev account has zero balance"@,
            "The dev account should have been funded during testnode init"@,
            seed,
        ),
        check_verdict(
            l2_balance != 0,
            InvariantClass::BalanceConsistency,
            Layer::L2,
            "L2 dev account has zero balance"@,
            "The dev account should have bridged funds to L2"@,
            seed,
        ),
        check_verdict(
            l2_gas_price != 0,
            InvariantClass::GasPricingSanity,
            Layer::L2,
            "L2 gas price is zero"@,
            "Gas price of 0 indicates misconfigured pricing"@,
            seed,
        ),
        check_verdict(
            !all_zero_bytes(arbsys_block),
            InvariantClass::SequencerLiveness,
            Layer::L2,
            "ArbSys.arbBlockNumber() returned 0"@,
            "L2 precompile reports zero block number"@,
            seed,
        ),
    ] + l3_balance_verdicts(l3, seed)
}

impl BalanceConsistencyProbe {
    /// Metadata describing the scenario.
    pub fn meta(&self) -> (m: ScenarioMeta)
        ensures
            m@ == balance_meta(),
    {
        let mut target_layers = Vec::new();
        target_layers.push(Layer::L1);
        target_layers.push(Layer::L2);
        target_layers.push(Layer::L3);
        let m = ScenarioMeta {
            name: String::from_str("balance-consistency-probe"),
            description: String::from_str(
                "Snapshot balances on L1/L2/L3 for known addresses and verify cross-layer consistency. Checks that ArbSys and ArbGasInfo precompiles return sane values.",
            ),
            category: ScenarioCategory::BridgeAdversarial,
            target_layers,
            severity_potential: Severity::Critical,
            destructive: false,
        };
        assert(m@.target_layers =~= seq![Layer::L1, Layer::L2, Layer::L3]);
        m
    }

    /// The account whose balances are probed.
    pub fn dev_address(&self) -> (a: Address)
        ensures
            a.bytes@ == dev_account(),
    {
        let a = Address {
            bytes: [
                0x3f, 0x1e, 0xae, 0x7d, 0x46, 0xd8, 0x8f, 0x08, 0xfc, 0x2f, 0x8e, 0xd2, 0x7f, 0xcb,
                0x2a, 0xb1, 0x83, 0xeb, 0x2d, 0x0e,
            ],
        };
        assert(a.bytes@ =~= dev_account());
        a
    }

    /// The verdicts of the probe's checks, in the order it checks: L1 and L2
    /// balances non-zero, L2 gas price non-zero, ArbSys answers with a
    /// non-zero word, and on L3 (when there) height and gas price non-zero.
    pub fn assess(&self, o: &BalanceObservations, seed: u64) -> (v: Vec<Verdict>)
        ensures
            verdicts_view(v@) == balance_verdicts(
                o.l1_balance.value(),
                o.l2_balance.value(),
                o.l2_gas_price,
                o.arbsys_block@,
                o.l3,
                seed,
            ),
    {
        let mut v: Vec<Verdict> = Vec::new();
        v.push(
            check(
                !o.l1_balance.is_zero(),
                InvariantClass::BalanceConsistency,
                Layer::L1,
                String::from_str("L1 dev account has zero balance"),
                String::from_str("The dev account should have been funded during testnode init"),
                seed,
            ),
        );
        v.push(
            check(
                !o.l2_balance.is_zero(),
                InvariantClass::BalanceConsistency,
                Layer::L2,
                String::from_str("L2 dev account has zero balance"),
                String::from_str("The dev account should have bridged funds to L2"),
                seed,
            ),
        );
        v.push(
            check(
                o.l2_gas_price != 0,
                InvariantClass::GasPricingSanity,
                Layer::L2,
                String::from_str("L2 gas price is zero"),
                String::from_str("Gas price of 0 indicates misconfigured pricing"),
                seed,
            ),
        );
        v.push(
            check(
                !all_zero(o.arbsys_block.as_slice()),
                InvariantClass::SequencerLiveness,
                Layer::L2,
                String::from_str("ArbSys.arbBlockNumber() returned 0"),
                String::from_str("L2 precompile reports zero block number"),
                seed,
            ),
        );
        match o.l3 {
            Some(h) => {
                v.push(
                    check(
                        h.block != 0,
                        InvariantClass::BlockMonotonicity,
                        Layer::L3,
                        String::from_str("L3 has zero block height"),
                        String::from_str("L3 should have blocks if it was initialized"),
                        seed,
                    ),
                );
                v.push(
                    check(
                        h.gas_price != 0,
                        InvariantClass::GasPricingSanity,
                        Layer::L3,
                        String::from_str("L3 gas price is zero"),
                        String::from_str("Gas price of 0 on L3 indicates misconfigured pricing"),
                        seed,
                    ),
                );
            },
            None => {},
        }
        assert(verdicts_view(v@) =~= balance_verdicts(
            o.l1_balance.value(),
            o.l2_balance.value(),
            o.l2_gas_price,
            o.arbsys_block@,
            o.l3,
            seed,
        ));
        v
    }
}

} // verus!
