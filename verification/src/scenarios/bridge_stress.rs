//! Exercise the bridge: deposit through the Inbox (when its address is
//! configured), withdraw through ArbSys, and check that balances are conserved.
use vstd::prelude::*;
use vstd::string::*;
use crate::invariants::{violation, InvariantClass};
use crate::scenario::{MetaView, ScenarioCategory, ScenarioMeta, Verdict, VerdictView, verdicts_view};
use crate::scenarios::{all_zero, all_zero_bytes, check, check_verdict, selector_bytes, Selector};
use crate::text::decimal;
use crate::types::{
    address_bytes, is_address_text, two_pow_256, Address, Layer, Severity, StackConfig, U256,
};

verus! {

/// Bridge stress test on any Arbitrum stack: withdrawal through ArbSys
/// (always), deposit through the Inbox when its and the Bridge's addresses
/// are configured, and balance conservation around both.
pub struct BridgeDepositWithdrawStress;

/// What the deposit phase saw.
#[derive(Clone, Copy, Debug)]
pub struct DepositObservations {
    /// The Bridge's L1 balance before the deposit, right after it, and at the end.
    pub bridge_before: U256,
    pub bridge_after: U256,
    pub bridge_final: U256,
    /// Whether the sender's L2 balance rose within the waiting window.
    pub arrived: bool,
}

/// What the withdrawal phase saw: the sender's L2 balance before and after.
#[derive(Clone, Copy, Debug)]
pub struct WithdrawalObservations {
    pub before: U256,
    pub after: U256,
}

/// What the scenario saw of the live stack.
#[derive(Clone, Debug)]
pub struct BridgeObservations {
    /// The deposit phase, when it ran as far as sending the deposit.
    pub deposit: Option<DepositObservations>,
    /// The withdrawal phase, when its transaction went through.
    pub withdrawal: Option<WithdrawalObservations>,
    /// What `ArbSys.arbBlockNumber()` returned afterwards.
    pub arbsys_block: Vec<u8>,
    /// What `ArbSys.arbOSVersion()` returned, or `None` when it reverted.
    pub os_version: Option<Vec<u8>>,
}

/// The scenario's metadata.
pub open spec fn bridge_meta() -> MetaView {
    MetaView {
        name: "bridge-deposit-withdraw-stress"@,
        description: "Exercise L1\u{2194}L2 bridge: deposit ETH via Inbox (if configured), withdraw via ArbSys, verify balance conservation. Pass --inbox-addr and --bridge-addr for full deposit testing."@,
        category: ScenarioCategory::BridgeAdversarial,
        target_layers: seq![Layer::L1, Layer::L2],
        severity_potential: Severity::Critical,
        destructive: false,
    }
}

/// The deposit: 0.1 ETH in wei.
pub open spec fn deposit_wei() -> int {
    100_000_000_000_000_000
}

/// The withdrawal: 0.01 ETH in wei.
pub open spec fn withdraw_wei() -> int {
    10_000_000_000_000_000
}

/// `a + b` as 256-bit integers add: modulo 2^256.
pub open spec fn add_256(a: int, b: int) -> int {
    if a + b < two_pow_256() {
        a + b
    } else {
        a + b - two_pow_256()
    }
}

/// The verdicts on the deposit phase.
pub open spec fn deposit_verdicts(o: DepositObservations, seed: u64) -> Seq<VerdictView> {
    seq![
        VerdictView::Pass,
        check_verdict(
            !(o.bridge_after.value() < add_256(o.bridge_before.value(), deposit_wei())),
            InvariantClass::BalanceConsistency,
            Layer::L1,
            "Bridge balance did not increase after deposit"@,
            "before="@ + decimal(o.bridge_before.value() as nat) + " after="@ + decimal(
                o.bridge_after.value() as nat,
            ) + " deposit="@ + decimal(deposit_wei() as nat),
            seed,
        ),
        check_verdict(
            o.arrived,
            InvariantClass::RetryableResolution,
            Layer::L2,
            "L1\u{2192}L2 deposit did not arrive within 60s"@,
            "Deposited "@ + decimal(deposit_wei() as nat) + " via Inbox but L2 balance unchanged"@,
            seed,
        ),
        check_verdict(
            !(o.bridge_final.value() < o.bridge_before.value()),
            InvariantClass::BalanceConsistency,
            Layer::L1,
            "Bridge balance decreased without completed withdrawal"@,
            "initial="@ + decimal(o.bridge_before.value() as nat) + " final="@ + decimal(
                o.bridge_final.value() as nat,
            ),
            seed,
        ),
    ]
}

/// The verdict on the withdrawal phase: the sender's L2 balance went down.
pub open spec fn withdrawal_verdict(o: WithdrawalObservations, seed: u64) -> VerdictView {
    check_verdict(
        o.after.value() < o.before.value(),
        InvariantClass::BalanceConsistency,
        Layer::L2,
        "L2 balance did not decrease after withdrawal"@,
        "before="@ + decimal(o.before.value() as nat) + " after="@ + decimal(o.after.value() as nat),
        seed,
    )
}

/// The verdicts, in order, for what the scenario saw with seed `seed`.
pub open spec fn bridge_verdicts(
    deposit: Option<DepositObservations>,
    withdrawal: Option<WithdrawalObservations>,
    arbsys_block: Seq<u8>,
    os_version: Option<Seq<u8>>,
    seed: u64,
) -> Seq<VerdictView> {
    let deposit_part = match deposit {
        Some(d) => deposit_verdicts(d, seed),
        None => Seq::empty(),
    };
    let withdrawal_part = match withdrawal {
        Some(w) => seq![withdrawal_verdict(w, seed)],
        None => Seq::empty(),
    };
    let version_part = match os_version {
        Some(d) if d.len() > 0 => seq![VerdictView::Pass],
        _ => Seq::empty(),
    };
    deposit_part + withdrawal_part + seq![
        check_verdict(
            !all_zero_bytes(arbsys_block),
            InvariantClass::SequencerLiveness,
            Layer::L2,
            "ArbSys.arbBlockNumber() returned 0"@,
            "L2 precompile reports zero block number after operations"@,
            seed,
        ),
    ] + version_part
}

/// The address in `text`, when there is a text and it spells an address.
pub open spec fn configured_address(text: Option<Seq<char>>) -> Option<Seq<u8>> {
    match text {
        Some(t) if is_address_text(t) => Some(address_bytes(t)),
        _ => None,
    }
}

fn parse_configured(text: &Option<String>) -> (a: Option<Address>)
    ensures
        configured_address(
            match text {
                Some(t) => Some(t@),
                None => None,
            },
        ) == match a {
            Some(x) => Some(x.bytes@),
            None => None,
        },
{
    match text {
        Some(t) => match Address::parse(t.as_str()) {
            Ok(a) => Some(a),
            Err(_) => None,
        },
        None => None,
    }
}

impl BridgeDepositWithdrawStress {
    /// Metadata describing the scenario.
    pub fn meta(&self) -> (m: ScenarioMeta)
        ensures
            m@ == bridge_meta(),
    {
        let mut target_layers = Vec::new();
        target_layers.push(Layer::L1);
        target_layers.push(Layer::L2);
        let m = ScenarioMeta {
            name: String::from_str("bridge-deposit-withdraw-stress"),
            description: String::from_str(
                "Exercise L1\u{2194}L2 bridge: deposit ETH via Inbox (if configured), withdraw via ArbSys, verify balance conservation. Pass --inbox-addr and --bridge-addr for full deposit testing.",
            ),
            category: ScenarioCategory::BridgeAdversarial,
            target_layers,
            severity_potential: Severity::Critical,
            destructive: false,
        };
        assert(m@.target_layers =~= seq![Layer::L1, Layer::L2]);
        m
    }

    /// The Inbox and Bridge addresses for the deposit phase: both configured
    /// texts parsed; `None` (the phase is skipped) when either is missing or
    /// not an address.
    pub fn deposit_targets(&self, config: &StackConfig) -> (r: Option<(Address, Address)>)
        ensures
            r matches Some((inbox, bridge)) ==> configured_address(
                match config.inbox_addr {
                    Some(t) => Some(t@),
                    None => None,
                },
            ) == Some(inbox.bytes@) && configured_address(
                match config.bridge_addr {
                    Some(t) => Some(t@),
                    None => None,
                },
            ) == Some(bridge.bytes@),
            r is None <==> (configured_address(
                match config.inbox_addr {
                    Some(t) => Some(t@),
                    None => None,
                },
            ) is None || configured_address(
                match config.bridge_addr {
                    Some(t) => Some(t@),
                    None => None,
                },
            ) is None),
    {
        let inbox = parse_configured(&config.inbox_addr);
        let bridge = parse_configured(&config.bridge_addr);
        match (inbox, bridge) {
            (Some(i), Some(b)) => Some((i, b)),
            _ => None,
        }
    }

    /// The amount deposited: 0.1 ETH.
    pub fn deposit_value(&self) -> (v: U256)
        ensures
            v.value() == deposit_wei(),
    {
        U256::from_u64(100_000_000_000_000_000)
    }

    /// The amount withdrawn: 0.01 ETH.
    pub fn withdraw_value(&self) -> (v: U256)
        ensures
            v.value() == withdraw_wei(),
    {
        U256::from_u64(10_000_000_000_000_000)
    }

    /// Call data of the Inbox's `depositEth()`.
    pub fn deposit_call_data(&self) -> (v: Vec<u8>)
        ensures
            v@ == selector_bytes(Selector::DepositEth),
    {
        Selector::DepositEth.call_data()
    }

    /// Call data of ArbSys `withdrawEth(destination)`: the selector, then the
    /// destination left-padded with zeros to a 32-byte word.
    pub fn withdraw_call_data(&self, destination: &Address) -> (v: Vec<u8>)
        ensures
            v@ == selector_bytes(Selector::WithdrawEth) + Seq::new(12, |i: int| 0u8)
                + destination.bytes@,
    {
        let mut v = Selector::WithdrawEth.call_data();
        let mut i: usize = 0;
        while i < 12
            invariant
                i <= 12,
                v@ == selector_bytes(Selector::WithdrawEth) + Seq::new(i as nat, |k: int| 0u8),
            decreases 12 - i,
        {
            v.push(0u8);
            assert(v@ =~= selector_bytes(Selector::WithdrawEth) + Seq::new((i + 1) as nat, |k: int| 0u8));
            i = i + 1;
        }
        let mut j: usize = 0;
        while j < 20
            invariant
                j <= 20,
                v@ == selector_bytes(Selector::WithdrawEth) + Seq::new(12, |k: int| 0u8)
                    + destination.bytes@.take(j as int),
            decreases 20 - j,
        {
            v.push(destination.bytes[j]);
            assert(destination.bytes@.take(j + 1) =~= destination.bytes@.take(j as int).push(
                destination.bytes@[j as int],
            ));
            assert(v@ =~= selector_bytes(Selector::WithdrawEth) + Seq::new(12, |k: int| 0u8)
                + destination.bytes@.take(j + 1));
            j = j + 1;
        }
        assert(destination.bytes@.take(20) =~= destination.bytes@);
        v
    }

    /// Whether a deposit shows on L2: the balance rose above what it was.
    pub fn deposit_arrived(&self, now: &U256, before: &U256) -> (b: bool)
        ensures
            b == (now.value() > before.value()),
    {
        before.lt(now)
    }

    /// Whether the sender can afford the withdrawal; when it cannot (zero
    /// balance, or less than 0.01 ETH) the phase is skipped.
    pub fn withdrawal_affordable(&self, balance: &U256) -> (b: bool)
        ensures
            b == (balance.value() >= withdraw_wei()),
    {
        if balance.is_zero() {
            return false;
        }
        let value = self.withdraw_value();
        !balance.lt(&value)
    }

    fn deposit_checks(&self, o: &DepositObservations, seed: u64, v: &mut Vec<Verdict>)
        ensures
            verdicts_view(final(v)@) == verdicts_view(old(v)@) + deposit_verdicts(*o, seed),
    {
        let ghost start = verdicts_view(v@);
        let deposit = self.deposit_value();
        v.push(Verdict::Pass);
        let expected = o.bridge_before.wrapping_add(&deposit);
        if o.bridge_after.lt(&expected) {
            let mut description = String::from_str("before=");
            description.append(o.bridge_before.to_string().as_str());
            description.append(" after=");
            description.append(o.bridge_after.to_string().as_str());
            description.append(" deposit=");
            description.append(deposit.to_string().as_str());
            v.push(
                Verdict::Report(
                    violation(
                        InvariantClass::BalanceConsistency,
                        Layer::L1,
                        String::from_str("Bridge balance did not increase after deposit"),
                        description,
                        seed,
                        0,
                    ),
                ),
            );
        } else {
            v.push(Verdict::Pass);
        }
        if o.arrived {
            v.push(Verdict::Pass);
        } else {
            let mut description = String::from_str("Deposited ");
            description.append(deposit.to_string().as_str());
            description.append(" via Inbox but L2 balance unchanged");
            v.push(
                Verdict::Report(
                    violation(
                        InvariantClass::RetryableResolution,
                        Layer::L2,
                        String::from_str("L1\u{2192}L2 deposit did not arrive within 60s"),
                        description,
                        seed,
                        0,
                    ),
                ),
            );
        }
        if o.bridge_final.lt(&o.bridge_before) {
            let mut description = String::from_str("initial=");
            description.append(o.bridge_before.to_string().as_str());
            description.append(" final=");
            description.append(o.bridge_final.to_string().as_str());
            v.push(
                Verdict::Report(
                    violation(
                        InvariantClass::BalanceConsistency,
                        Layer::L1,
                        String::from_str("Bridge balance decreased without completed withdrawal"),
                        description,
                        seed,
                        0,
                    ),
                ),
            );
        } else {
            v.push(Verdict::Pass);
        }
        assert(verdicts_view(v@) =~= start + deposit_verdicts(*o, seed));
    }

    fn withdrawal_check(&self, o: &WithdrawalObservations, seed: u64) -> (v: Verdict)
        ensures
            v@ == withdrawal_verdict(*o, seed),
    {
        if o.after.lt(&o.before) {
            Verdict::Pass
        } else {
            let mut description = String::from_str("before=");
            description.append(o.before.to_string().as_str());
            description.append(" after=");
            description.append(o.after.to_string().as_str());
            Verdict::Report(
                violation(
                    InvariantClass::BalanceConsistency,
                    Layer::L2,
                    String::from_str("L2 balance did not decrease after withdrawal"),
                    description,
                    seed,
                    0,
                ),
            )
        }
    }

    /// The verdicts of the scenario's checks, in the order it checks: the
    /// deposit phase (transaction confirmed, Bridge balance grew by the
    /// deposit, deposit arrived on L2, Bridge balance not below its start),
    /// the withdrawal (L2 balance went down), then ArbSys still answers with
    /// a non-zero block number and, when it answered, its OS version.
    pub fn assess(&self, o: &BridgeObservations, seed: u64) -> (v: Vec<Verdict>)
        ensures
            verdicts_view(v@) == bridge_verdicts(
                o.deposit,
                o.withdrawal,
                o.arbsys_block@,
                match o.os_version {
                    Some(d) => Some(d@),
                    None => None,
                },
                seed,
            ),
    {
        let mut v: Vec<Verdict> = Vec::new();
        assert(verdicts_view(v@) =~= Seq::empty());
        match &o.deposit {
            Some(d) => {
                self.deposit_checks(d, seed, &mut v);
            },
            None => {},
        }
        let ghost after_deposit = verdicts_view(v@);
        match &o.withdrawal {
            Some(w) => {
                v.push(self.withdrawal_check(w, seed));
            },
            None => {},
        }
        let ghost after_withdrawal = verdicts_view(v@);
        v.push(
            check(
                !all_zero(o.arbsys_block.as_slice()),
                InvariantClass::SequencerLiveness,
                Layer::L2,
                String::from_str("ArbSys.arbBlockNumber() returned 0"),
                String::from_str("L2 precompile reports zero block number after operations"),
                seed,
            ),
        );
        match &o.os_version {
            Some(d) if d.len() > 0 => {
                v.push(Verdict::Pass);
            },
            _ => {},
        }
        assert(verdicts_view(v@) =~= bridge_verdicts(
            o.deposit,
            o.withdrawal,
            o.arbsys_block@,
            match o.os_version {
                Some(d) => Some(d@),
                None => None,
            },
            seed,
        ));
        v
    }
}

} // verus!
