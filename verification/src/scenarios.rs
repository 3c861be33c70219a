//! The live chaos scenarios, and what they share: ABI words, precompile
//! addresses and the checks on call results.
//!
//! A scenario talks to a live stack; what it observes there is handed to the
//! scenario's `assess`, which decides each check's verdict.
use vstd::prelude::*;
use vstd::string::*;
use crate::invariants::{violation, violation_view, InvariantClass};
use crate::scenario::{Verdict, VerdictView};
use crate::text::{decimal, two_numbers};
use crate::types::{Address, ContainerTarget, FaultView, InfraFault, Layer, TargetView, U256, two_pow_128};

pub mod sequencer_chaos;
pub mod batch_poster_chaos;
pub mod validator_chaos;
pub mod bridge_adversarial;
pub mod invariant_probe;
pub mod retryable_probe;
pub mod bridge_stress;
pub mod timeboost_adversarial;

verus! {

/// 256^n.
pub open spec fn pow256(n: nat) -> nat
    decreases n,
{
    if n == 0 {
        1
    } else {
        256 * pow256((n - 1) as nat)
    }
}

/// The big-endian number that the bytes `b` spell.
pub open spec fn be_value(b: Seq<u8>) -> nat
    decreases b.len(),
{
    if b.len() == 0 {
        0
    } else {
        (be_value(b.drop_last()) * 256 + b.last()) as nat
    }
}

/// A big-endian number of `n` bytes is below 256^n.
pub proof fn lemma_be_value_bound(b: Seq<u8>)
    ensures
        be_value(b) < pow256(b.len()),
    decreases b.len(),
{
    if b.len() > 0 {
        lemma_be_value_bound(b.drop_last());
        let r = be_value(b.drop_last());
        let p = pow256((b.len() - 1) as nat);
        assert(r * 256 + b.last() < p * 256) by (nonlinear_arith)
            requires
                r < p,
                b.last() < 256,
        ;
    }
}

/// Splitting bytes splits their big-endian value.
pub proof fn lemma_be_value_concat(a: Seq<u8>, b: Seq<u8>)
    ensures
        be_value(a + b) == be_value(a) * pow256(b.len()) + be_value(b),
    decreases b.len(),
{
    if b.len() == 0 {
        assert(a + b =~= a);
        assert(pow256(0) == 1);
        assert(be_value(a) * 1 == be_value(a));
    } else {
        lemma_be_value_concat(a, b.drop_last());
        assert((a + b).drop_last() =~= a + b.drop_last());
        assert((a + b).last() == b.last());
        assert(be_value(a + b) == be_value((a + b).drop_last()) * 256 + (a + b).last());
        assert(pow256(b.len()) == 256 * pow256((b.len() - 1) as nat));
        let x = be_value(a);
        let p = pow256((b.len() - 1) as nat);
        let y = be_value(b.drop_last());
        let l = b.last() as int;
        assert(be_value(a + b.drop_last()) == x * p + y);
        assert(be_value(b) == y * 256 + l);
        assert((x * p + y) * 256 + l == x * (256 * p) + (y * 256 + l)) by (nonlinear_arith);
        assert(be_value(a + b) == x * (256 * p) + be_value(b));
    }
}

/// The big-endian number in the `n` bytes of `data` from `start` on, as a `u128`.
fn be_u128(data: &[u8], start: usize, n: usize) -> (r: u128)
    requires
        n <= 16,
        start + n <= data@.len(),
    ensures
        r == be_value(data@.subrange(start as int, start + n)),
{
    let total = data.len();
    let mut acc: u128 = 0;
    let mut i: usize = 0;
    while i < n
        invariant
            i <= n <= 16,
            start + n <= data@.len(),
            total == data@.len(),
            acc == be_value(data@.subrange(start as int, start + i)),
        decreases n - i,
    {
        proof {
            lemma_be_value_bound(data@.subrange(start as int, start + i));
            assert(pow256(i as nat) <= pow256(15)) by {
                lemma_pow256_mono(i as nat, 15);
            }
            assert(pow256(15) == 0x1_0000_0000_0000_0000_0000_0000_0000_00nat) by {
                reveal_with_fuel(pow256, 16);
            }
            assert(data@.subrange(start as int, start + i + 1).drop_last() =~= data@.subrange(
                start as int,
                start + i,
            ));
        }
        acc = acc * 256 + data[start + i] as u128;
        i = i + 1;
    }
    acc
}

/// 256^n grows with n.
pub proof fn lemma_pow256_mono(m: nat, n: nat)
    requires
        m <= n,
    ensures
        pow256(m) <= pow256(n),
    decreases n,
{
    if m < n {
        lemma_pow256_mono(m, (n - 1) as nat);
    }
}

/// The `uint64` that an ABI word holds: the last 8 of its first 32 bytes,
/// big-endian; 0 when fewer than 32 bytes came back.
pub open spec fn word_u64(data: Seq<u8>) -> nat {
    if data.len() < 32 {
        0
    } else {
        be_value(data.subrange(24, 32))
    }
}

/// The 256-bit number that an ABI word holds; 0 when fewer than 32 bytes came back.
pub open spec fn word_u256(data: Seq<u8>) -> nat {
    if data.len() < 32 {
        0
    } else {
        be_value(data.subrange(0, 32))
    }
}

/// The address that an ABI word holds: bytes 12 to 32; the zero address when
/// fewer than 32 bytes came back.
pub open spec fn word_address(data: Seq<u8>) -> Seq<u8> {
    if data.len() < 32 {
        Seq::new(20, |i: int| 0u8)
    } else {
        data.subrange(12, 32)
    }
}

/// Whether every byte is zero.
pub open spec fn all_zero_bytes(data: Seq<u8>) -> bool {
    forall|i: int| 0 <= i < data.len() ==> data[i] == 0
}

/// Decodes a `uint64` from an ABI word: the last 8 bytes of the first 32,
/// big-endian; 0 when fewer than 32 bytes came back.
pub fn decode_uint64(data: &[u8]) -> (r: u64)
    ensures
        r == word_u64(data@),
{
    if data.len() < 32 {
        return 0;
    }
    proof {
        lemma_be_value_bound(data@.subrange(24, 32));
        assert(pow256(8) == 0x1_0000_0000_0000_0000nat) by {
            reveal_with_fuel(pow256, 9);
        }
    }
    be_u128(data, 24, 8) as u64
}

/// Decodes a 256-bit unsigned integer from the first 32 bytes of an ABI word,
/// big-endian; 0 when fewer than 32 bytes came back.
pub fn decode_u256(data: &[u8]) -> (r: U256)
    ensures
        r.value() == word_u256(data@),
{
    if data.len() < 32 {
        return U256::zero();
    }
    let hi = be_u128(data, 0, 16);
    let lo = be_u128(data, 16, 16);
    proof {
        assert(data@.subrange(0, 32) =~= data@.subrange(0, 16) + data@.subrange(16, 32));
        lemma_be_value_concat(data@.subrange(0, 16), data@.subrange(16, 32));
        assert(pow256(16) == two_pow_128()) by {
            reveal_with_fuel(pow256, 17);
        }
    }
    U256 { hi, lo }
}

/// Decodes an address from an ABI word: bytes 12 to 32 of it; the zero
/// address when fewer than 32 bytes came back.
pub fn decode_address(data: &[u8]) -> (a: Address)
    ensures
        a.bytes@ == word_address(data@),
{
    if data.len() < 32 {
        let z = Address::zero();
        assert(z.bytes@ =~= word_address(data@));
        return z;
    }
    let mut bytes = [0u8; 20];
    let mut i: usize = 0;
    while i < 20
        invariant
            i <= 20,
            data@.len() >= 32,
            bytes@.len() == 20,
            forall|k: int| 0 <= k < i ==> bytes@[k] == data@[12 + k],
        decreases 20 - i,
    {
        bytes[i] = data[12 + i];
        i = i + 1;
    }
    let a = Address { bytes };
    assert(a.bytes@ =~= data@.subrange(12, 32));
    a
}

/// Whether every byte of `data` is zero (true for no bytes at all).
pub fn all_zero(data: &[u8]) -> (b: bool)
    ensures
        b == all_zero_bytes(data@),
{
    let mut i: usize = 0;
    while i < data.len()
        invariant
            i <= data@.len(),
            forall|k: int| 0 <= k < i ==> data@[k] == 0,
        decreases data@.len() - i,
    {
        if data[i] != 0 {
            return false;
        }
        i = i + 1;
    }
    true
}

/// The address whose last byte is `last` and whose other bytes are zero, as
/// the precompiles sit at.
pub open spec fn precompile(last: u8) -> Seq<u8> {
    Seq::new(20, |i: int| if i == 19 { last } else { 0u8 })
}

/// The address of precompile `last` (0x64 is ArbSys, 0x6C ArbGasInfo, ...).
pub fn precompile_address(last: u8) -> (a: Address)
    ensures
        a.bytes@ == precompile(last),
{
    let mut bytes = [0u8; 20];
    bytes[19] = last;
    let a = Address { bytes };
    assert(a.bytes@ =~= precompile(last));
    a
}

/// ArbSys, at 0x64 on every Arbitrum chain.
pub open spec fn arbsys() -> Seq<u8> {
    precompile(0x64)
}

/// ArbGasInfo, at 0x6C.
pub open spec fn arbgasinfo() -> Seq<u8> {
    precompile(0x6c)
}

/// ArbAggregator, at 0x6D.
pub open spec fn arbaggregator() -> Seq<u8> {
    precompile(0x6d)
}

/// ArbRetryableTx, at 0x6E.
pub open spec fn arbretryabletx() -> Seq<u8> {
    precompile(0x6e)
}

/// The contract functions the scenarios call, by their ABI selectors.
#[derive(Clone, Copy, Debug, PartialEq, Eq, Structural)]
pub enum Selector {
    /// ArbSys `arbBlockNumber()`.
    ArbBlockNumber,
    /// ArbSys `arbChainID()` (deprecated on newer Nitro).
    ArbChainId,
    /// ArbSys `arbOSVersion()`.
    ArbOsVersion,
    /// ArbSys `withdrawEth(address)`.
    WithdrawEth,
    /// ArbGasInfo `getPricesInWei()`.
    GetPricesInWei,
    /// ArbGasInfo `getL1BaseFeeEstimate()`.
    GetL1BaseFeeEstimate,
    /// ArbRetryableTx `getLifetime()`.
    GetLifetime,
    /// ArbAggregator `getDefaultAggregator()` (deprecated).
    GetDefaultAggregator,
    /// Inbox `depositEth()`.
    DepositEth,
    /// ExpressLaneAuction `currentRound()`.
    CurrentRound,
    /// ExpressLaneAuction `currentExpressLaneController()`.
    CurrentController,
    /// ExpressLaneAuction `initialRoundTimestamp()`.
    InitialRoundTimestamp,
    /// ExpressLaneAuction `roundDurationSeconds()`.
    RoundDuration,
    /// ExpressLaneAuction `getCurrentReservePrice()`.
    ReservePrice,
    /// ExpressLaneAuction `getminimalReservePrice()`.
    MinimalReservePrice,
    /// ExpressLaneAuction `bidReceiver()`.
    BidReceiver,
    /// ExpressLaneAuction `expressLaneControllerByRound(uint256)`.
    ControllerByRound,
}

/// The four selector bytes of a contract function.
pub open spec fn selector_bytes(s: Selector) -> Seq<u8> {
    match s {
        Selector::ArbBlockNumber => seq![0xa3u8, 0xb1, 0xb3, 0x1d],
        Selector::ArbChainId => seq![0xd1u8, 0x27, 0xdc, 0x9b],
        Selector::ArbOsVersion => seq![0x05u8, 0x10, 0x38, 0xf2],
        Selector::WithdrawEth => seq![0x25u8, 0xe1, 0x60, 0x63],
        Selector::GetPricesInWei => seq![0x41u8, 0xb2, 0x47, 0xa8],
        Selector::GetL1BaseFeeEstimate => seq![0xf5u8, 0xd6, 0xde, 0xd7],
        Selector::GetLifetime => seq![0x80u8, 0xa2, 0x2d, 0x76],
        Selector::GetDefaultAggregator => seq![0xd4u8, 0xf5, 0x01, 0x98],
        Selector::DepositEth => seq![0x43u8, 0x93, 0x70, 0xb1],
        Selector::CurrentRound => seq![0x8au8, 0x19, 0xc8, 0xbc],
        Selector::CurrentController => seq![0x4fu8, 0x2a, 0x9b, 0xdb],
        Selector::InitialRoundTimestamp => seq![0xc0u8, 0x38, 0x99, 0x79],
        Selector::RoundDuration => seq![0xccu8, 0x96, 0x3d, 0x15],
        Selector::ReservePrice => seq![0xb9u8, 0x41, 0xce, 0x6e],
        Selector::MinimalReservePrice => seq![0x03u8, 0xba, 0x66, 0x62],
        Selector::BidReceiver => seq![0x4bu8, 0xc3, 0x7e, 0xa6],
        Selector::ControllerByRound => seq![0x82u8, 0x96, 0xdf, 0x03],
    }
}

fn four(a: u8, b: u8, c: u8, d: u8) -> (v: Vec<u8>)
    ensures
        v@ == seq![a, b, c, d],
{
    let mut v = Vec::new();
    v.push(a);
    v.push(b);
    v.push(c);
    v.push(d);
    assert(v@ =~= seq![a, b, c, d]);
    v
}

impl Selector {
    /// The selector as call data of a call without arguments.
    pub fn call_data(&self) -> (v: Vec<u8>)
        ensures
            v@ == selector_bytes(*self),
    {
        match self {
            Selector::ArbBlockNumber => four(0xa3, 0xb1, 0xb3, 0x1d),
            Selector::ArbChainId => four(0xd1, 0x27, 0xdc, 0x9b),
            Selector::ArbOsVersion => four(0x05, 0x10, 0x38, 0xf2),
            Selector::WithdrawEth => four(0x25, 0xe1, 0x60, 0x63),
            Selector::GetPricesInWei => four(0x41, 0xb2, 0x47, 0xa8),
            Selector::GetL1BaseFeeEstimate => four(0xf5, 0xd6, 0xde, 0xd7),
            Selector::GetLifetime => four(0x80, 0xa2, 0x2d, 0x76),
            Selector::GetDefaultAggregator => four(0xd4, 0xf5, 0x01, 0x98),
            Selector::DepositEth => four(0x43, 0x93, 0x70, 0xb1),
            Selector::CurrentRound => four(0x8a, 0x19, 0xc8, 0xbc),
            Selector::CurrentController => four(0x4f, 0x2a, 0x9b, 0xdb),
            Selector::InitialRoundTimestamp => four(0xc0, 0x38, 0x99, 0x79),
            Selector::RoundDuration => four(0xcc, 0x96, 0x3d, 0x15),
            Selector::ReservePrice => four(0xb9, 0x41, 0xce, 0x6e),
            Selector::MinimalReservePrice => four(0x03, 0xba, 0x66, 0x62),
            Selector::BidReceiver => four(0x4b, 0xc3, 0x7e, 0xa6),
            Selector::ControllerByRound => four(0x82, 0x96, 0xdf, 0x03),
        }
    }
}

/// The verdict of a check that holds when `ok`: a pass, or else a violation
/// of `class` on `layer`.
pub open spec fn check_verdict(
    ok: bool,
    class: InvariantClass,
    layer: Layer,
    title: Seq<char>,
    description: Seq<char>,
    seed: u64,
) -> VerdictView {
    if ok {
        VerdictView::Pass
    } else {
        VerdictView::Report(violation_view(class, layer, title, description, seed, 0))
    }
}

/// A check that holds when `ok`: a pass, or else a violation of `class` on `layer`.
pub fn check(
    ok: bool,
    class: InvariantClass,
    layer: Layer,
    title: String,
    description: String,
    seed: u64,
) -> (v: Verdict)
    ensures
        v@ == check_verdict(ok, class, layer, title@, description@, seed),
{
    if ok {
        Verdict::Pass
    } else {
        Verdict::Report(violation(class, layer, title, description, seed, 0))
    }
}

/// The verdict of a check that a height moved from `before` to above it:
/// a pass, or a violation of `class` on `layer` titled `title`.
pub open spec fn progress_verdict(
    class: InvariantClass,
    layer: Layer,
    title: Seq<char>,
    description: Seq<char>,
    before: u64,
    after: u64,
    seed: u64,
) -> VerdictView {
    if after <= before {
        VerdictView::Report(violation_view(class, layer, title, description, seed, 0))
    } else {
        VerdictView::Pass
    }
}

/// Checks that a height moved from `before` to above it; the violation's
/// description is `prefix`, `before`, `middle`, `after` and `suffix`.
pub fn progress_check(
    class: InvariantClass,
    layer: Layer,
    title: &str,
    prefix: &str,
    before: u64,
    middle: &str,
    after: u64,
    suffix: &str,
    seed: u64,
) -> (v: Verdict)
    ensures
        v@ == progress_verdict(
            class,
            layer,
            title@,
            prefix@ + decimal(before as nat) + middle@ + decimal(after as nat) + suffix@,
            before,
            after,
            seed,
        ),
{
    if after <= before {
        let mut description = two_numbers(prefix, before, middle, after);
        description.append(suffix);
        Verdict::Report(violation(class, layer, String::from_str(title), description, seed, 0))
    } else {
        Verdict::Pass
    }
}

/// The L2 container named after its compose service `service`.
pub open spec fn l2_service(service: Seq<char>) -> TargetView {
    TargetView { name: service, service, layer: Layer::L2 }
}

/// The fault that kills the L2 container of `service`.
pub fn kill_l2_service(service: &str) -> (f: InfraFault)
    ensures
        f@ == (FaultView::KillContainer { target: l2_service(service@) }),
{
    InfraFault::KillContainer { target: ContainerTarget::service(service, Layer::L2) }
}

/// The fault that restarts the L2 container of `service`.
pub fn restart_l2_service(service: &str) -> (f: InfraFault)
    ensures
        f@ == (FaultView::RestartContainer { target: l2_service(service@) }),
{
    InfraFault::RestartContainer { target: ContainerTarget::service(service, Layer::L2) }
}

} // verus!
