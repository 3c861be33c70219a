//! Probe the express lane auction: round configuration, reserve prices,
//! bid receiver, and whether one controller monopolises the express lane.
use vstd::prelude::*;
use vstd::string::*;
use crate::invariants::{violation, violation_view, InvariantClass};
use crate::scenario::{MetaView, ScenarioCategory, ScenarioMeta, Verdict, VerdictView, verdicts_view};
use crate::scenarios::{
    all_zero_bytes, check, check_verdict, decode_address, decode_u256, decode_uint64, selector_bytes,
    word_address, word_u256, word_u64, Selector,
};
use crate::text::{decimal, one_number, usize_text};
use crate::types::{address_bytes, checksum_text, is_address_text, Address, Layer, Severity, StackConfig};

verus! {

/// Probe the ExpressLaneAuction contract for configuration sanity, express
/// lane monopolisation risk and reserve price invariants. Read-only.
pub struct TimeboostAuctionProbe;

/// What the probe saw of the auction contract.
#[derive(Clone, Debug)]
pub struct AuctionObservations {
    /// Answers of `currentRound()`, `roundDurationSeconds()` and `initialRoundTimestamp()`.
    pub round: Vec<u8>,
    pub duration: Vec<u8>,
    pub initial_timestamp: Vec<u8>,
    /// Answers of `getCurrentReservePrice()` and `getminimalReservePrice()`.
    pub reserve_price: Vec<u8>,
    pub minimal_reserve_price: Vec<u8>,
    /// Controllers of the most recent rounds, newest first, as far as they answered.
    pub controllers: Vec<Address>,
    /// Answer of `bidReceiver()`.
    pub bid_receiver: Vec<u8>,
}

/// The scenario's metadata.
pub open spec fn auction_meta() -> MetaView {
    MetaView {
        name: "timeboost-auction-probe"@,
        description: "Probe the ExpressLaneAuction contract for configuration sanity, express lane monopolization risk, round timing analysis, and reserve price invariants. Pass --auction-addr to enable."@,
        category: ScenarioCategory::TimeboostAdversarial,
        target_layers: seq![Layer::L1, Layer::L2],
        severity_potential: Severity::High,
        destructive: false,
    }
}

/// Rounds shorter than this many seconds leave no room for fair bidding.
pub const MIN_ROUND_SECS: u64 = 15;

/// How many recent rounds the monopolisation check looks back over.
pub const LOOKBACK_ROUNDS: u64 = 5;

/// The controllers among `cs` that are not the zero address, in order.
pub open spec fn nonzero_controllers(cs: Seq<Seq<u8>>) -> Seq<Seq<u8>>
    decreases cs.len(),
{
    if cs.len() == 0 {
        Seq::empty()
    } else {
        let rest = nonzero_controllers(cs.drop_last());
        if all_zero_bytes(cs.last()) {
            rest
        } else {
            rest.push(cs.last())
        }
    }
}

/// The addresses' bytes.
pub open spec fn addresses_view(cs: Seq<Address>) -> Seq<Seq<u8>> {
    Seq::new(cs.len(), |i: int| cs[i].bytes@)
}

/// The verdicts of the monopolisation check: none with fewer than three
/// answers or fewer than three non-zero controllers; else a finding when they
/// are all the same controller, a pass when not.
pub open spec fn monopolization_verdicts(cs: Seq<Seq<u8>>, layer: Layer, seed: u64) -> Seq<
    VerdictView,
> {
    let nz = nonzero_controllers(cs);
    if cs.len() >= 3 && nz.len() >= 3 {
        if forall|i: int| 0 <= i < nz.len() ==> #[trigger] nz[i] == nz[0] {
            seq![
                VerdictView::Report(
                    violation_view(
                        InvariantClass::SequencerLiveness,
                        layer,
                        "Express lane monopolization detected"@,
                        "Same controller "@ + checksum_text(nz[0]) + " won "@ + decimal(nz.len())
                            + " consecutive rounds \u{2014} potential auction manipulation or lack of competition"@,
                        seed,
                        0,
                    ),
                ),
            ]
        } else {
            seq![VerdictView::Pass]
        }
    } else {
        Seq::empty()
    }
}

/// Each non-zero controller kept comes from a position of `cs` that holds it.
proof fn lemma_nonzero_source(cs: Seq<Seq<u8>>, j: int) -> (i: int)
    requires
        0 <= j < nonzero_controllers(cs).len(),
    ensures
        0 <= i < cs.len(),
        cs[i] == nonzero_controllers(cs)[j],
        !all_zero_bytes(cs[i]),
    decreases cs.len(),
{
    let rest = cs.drop_last();
    if j < nonzero_controllers(rest).len() {
        let i = lemma_nonzero_source(rest, j);
        assert(cs[i] == rest[i]);
        i
    } else {
        (cs.len() - 1) as int
    }
}

/// Each non-zero controller of `cs` is kept.
proof fn lemma_nonzero_kept(cs: Seq<Seq<u8>>, i: int) -> (j: int)
    requires
        0 <= i < cs.len(),
        !all_zero_bytes(cs[i]),
    ensures
        0 <= j < nonzero_controllers(cs).len(),
        nonzero_controllers(cs)[j] == cs[i],
    decreases cs.len(),
{
    let rest = cs.drop_last();
    if i == cs.len() - 1 {
        nonzero_controllers(rest).len() as int
    } else {
        assert(rest[i] == cs[i]);
        lemma_nonzero_kept(rest, i)
    }
}

/// Two non-zero positions keep at least two controllers.
proof fn lemma_nonzero_two(cs: Seq<Seq<u8>>, i: int, j: int)
    requires
        0 <= i < j < cs.len(),
        !all_zero_bytes(cs[i]),
        !all_zero_bytes(cs[j]),
    ensures
        nonzero_controllers(cs).len() >= 2,
    decreases cs.len(),
{
    let rest = cs.drop_last();
    assert(rest[i] == cs[i]);
    if j < cs.len() - 1 {
        assert(rest[j] == cs[j]);
        lemma_nonzero_two(rest, i, j);
    } else {
        lemma_nonzero_kept(rest, i);
    }
}

/// Three non-zero positions keep at least three controllers.
proof fn lemma_nonzero_three(cs: Seq<Seq<u8>>, i: int, j: int, k: int)
    requires
        0 <= i < j < k < cs.len(),
        !all_zero_bytes(cs[i]),
        !all_zero_bytes(cs[j]),
        !all_zero_bytes(cs[k]),
    ensures
        nonzero_controllers(cs).len() >= 3,
    decreases cs.len(),
{
    let rest = cs.drop_last();
    assert(rest[i] == cs[i]);
    assert(rest[j] == cs[j]);
    if k < cs.len() - 1 {
        assert(rest[k] == cs[k]);
        lemma_nonzero_three(rest, i, j, k);
    } else {
        lemma_nonzero_two(rest, i, j);
    }
}

/// The monopolisation check reports a finding only when every non-zero
/// controller among the rounds looked at is the same address: when two of
/// them differ it passes. It reports, with the title "Express lane
/// monopolization detected", when at least three rounds were read, at least
/// three of them had a non-zero controller, and those are all one address.
/// It gives at most one verdict.
pub proof fn law_monopolization_needs_one_controller(cs: Seq<Seq<u8>>, layer: Layer, seed: u64)
    ensures
        monopolization_verdicts(cs, layer, seed).len() <= 1,
        (exists|i: int, j: int|
            #![trigger cs[i], cs[j]]
            0 <= i < cs.len() && 0 <= j < cs.len() && !all_zero_bytes(cs[i]) && !all_zero_bytes(cs[j])
                && cs[i] != cs[j]) ==> forall|k: int|
            0 <= k < monopolization_verdicts(cs, layer, seed).len() ==> #[trigger] monopolization_verdicts(
                cs,
                layer,
                seed,
            )[k] == VerdictView::Pass,
        (monopolization_verdicts(cs, layer, seed).len() == 1 && monopolization_verdicts(cs, layer, seed)[0] is Report)
            ==> cs.len() >= 3 && forall|i: int, j: int|
            #![trigger cs[i], cs[j]]
            0 <= i < cs.len() && 0 <= j < cs.len() && !all_zero_bytes(cs[i]) && !all_zero_bytes(cs[j])
                ==> cs[i] == cs[j],
        (cs.len() >= 3 && (exists|i: int, j: int, k: int|
            #![trigger cs[i], cs[j], cs[k]]
            0 <= i < j < k < cs.len() && !all_zero_bytes(cs[i]) && !all_zero_bytes(cs[j]) && !all_zero_bytes(
                cs[k],
            )) && forall|i: int, j: int|
            #![trigger cs[i], cs[j]]
            0 <= i < cs.len() && 0 <= j < cs.len() && !all_zero_bytes(cs[i]) && !all_zero_bytes(cs[j])
                ==> cs[i] == cs[j]) ==> (monopolization_verdicts(cs, layer, seed).len() == 1
            && (monopolization_verdicts(cs, layer, seed)[0] matches VerdictView::Report(f)
            && f.title == "Express lane monopolization detected"@)),
{
    let nz = nonzero_controllers(cs);
    let vs = monopolization_verdicts(cs, layer, seed);
    let all_same = forall|m: int| 0 <= m < nz.len() ==> #[trigger] nz[m] == nz[0];
    if exists|i: int, j: int|
        #![trigger cs[i], cs[j]]
        0 <= i < cs.len() && 0 <= j < cs.len() && !all_zero_bytes(cs[i]) && !all_zero_bytes(cs[j]) && cs[i]
            != cs[j] {
        let (i, j) = choose|i: int, j: int|
            #![trigger cs[i], cs[j]]
            0 <= i < cs.len() && 0 <= j < cs.len() && !all_zero_bytes(cs[i]) && !all_zero_bytes(cs[j])
                && cs[i] != cs[j];
        let a = lemma_nonzero_kept(cs, i);
        let b = lemma_nonzero_kept(cs, j);
        if all_same {
            assert(nz[a] == nz[0]);
            assert(nz[b] == nz[0]);
        }
        assert(!all_same);
    }
    if vs.len() == 1 && vs[0] is Report {
        assert(all_same);
        assert forall|i: int, j: int|
            #![trigger cs[i], cs[j]]
            0 <= i < cs.len() && 0 <= j < cs.len() && !all_zero_bytes(cs[i]) && !all_zero_bytes(cs[j]) implies cs[i]
                == cs[j] by {
            let a = lemma_nonzero_kept(cs, i);
            let b = lemma_nonzero_kept(cs, j);
            assert(nz[a] == nz[0]);
            assert(nz[b] == nz[0]);
        }
    }
    if cs.len() >= 3 && (exists|i: int, j: int, k: int|
        #![trigger cs[i], cs[j], cs[k]]
        0 <= i < j < k < cs.len() && !all_zero_bytes(cs[i]) && !all_zero_bytes(cs[j]) && !all_zero_bytes(cs[k]))
        && forall|i: int, j: int|
        #![trigger cs[i], cs[j]]
        0 <= i < cs.len() && 0 <= j < cs.len() && !all_zero_bytes(cs[i]) && !all_zero_bytes(cs[j]) ==> cs[i]
            == cs[j] {
        let (i, j, k) = choose|i: int, j: int, k: int|
            #![trigger cs[i], cs[j], cs[k]]
            0 <= i < j < k < cs.len() && !all_zero_bytes(cs[i]) && !all_zero_bytes(cs[j]) && !all_zero_bytes(
                cs[k],
            );
        lemma_nonzero_three(cs, i, j, k);
        let z = lemma_nonzero_source(cs, 0);
        assert forall|m: int| 0 <= m < nz.len() implies #[trigger] nz[m] == nz[0] by {
            let w = lemma_nonzero_source(cs, m);
            assert(cs[w] == cs[z]);
        }
        assert(all_same);
    }
}

/// At least two controllers kept come from two non-zero positions.
proof fn lemma_nonzero_positions_two(cs: Seq<Seq<u8>>) -> (ij: (int, int))
    requires
        nonzero_controllers(cs).len() >= 2,
    ensures
        0 <= ij.0 < ij.1 < cs.len(),
        !all_zero_bytes(cs[ij.0]),
        !all_zero_bytes(cs[ij.1]),
    decreases cs.len(),
{
    let rest = cs.drop_last();
    if all_zero_bytes(cs.last()) {
        let (i, j) = lemma_nonzero_positions_two(rest);
        assert(rest[i] == cs[i] && rest[j] == cs[j]);
        (i, j)
    } else {
        let i = lemma_nonzero_source(rest, 0);
        assert(rest[i] == cs[i]);
        (i, (cs.len() - 1) as int)
    }
}

/// At least three controllers kept come from three non-zero positions.
proof fn lemma_nonzero_positions_three(cs: Seq<Seq<u8>>) -> (ijk: (int, int, int))
    requires
        nonzero_controllers(cs).len() >= 3,
    ensures
        0 <= ijk.0 < ijk.1 < ijk.2 < cs.len(),
        !all_zero_bytes(cs[ijk.0]),
        !all_zero_bytes(cs[ijk.1]),
        !all_zero_bytes(cs[ijk.2]),
    decreases cs.len(),
{
    let rest = cs.drop_last();
    if all_zero_bytes(cs.last()) {
        let (i, j, k) = lemma_nonzero_positions_three(rest);
        assert(rest[i] == cs[i] && rest[j] == cs[j] && rest[k] == cs[k]);
        (i, j, k)
    } else {
        let (i, j) = lemma_nonzero_positions_two(rest);
        assert(rest[i] == cs[i] && rest[j] == cs[j]);
        (i, j, (cs.len() - 1) as int)
    }
}

/// The monopolisation check gives a verdict exactly when at least three
/// rounds were read and at least three of them had a non-zero controller.
pub proof fn law_monopolization_needs_three_rounds(cs: Seq<Seq<u8>>, layer: Layer, seed: u64)
    ensures
        (monopolization_verdicts(cs, layer, seed).len() > 0) <==> (cs.len() >= 3 && exists|i: int, j: int, k: int|
            #![trigger cs[i], cs[j], cs[k]]
            0 <= i < j < k < cs.len() && !all_zero_bytes(cs[i]) && !all_zero_bytes(cs[j]) && !all_zero_bytes(
                cs[k],
            )),
{
    if monopolization_verdicts(cs, layer, seed).len() > 0 {
        let (i, j, k) = lemma_nonzero_positions_three(cs);
        assert(0 <= i < j < k < cs.len() && !all_zero_bytes(cs[i]) && !all_zero_bytes(cs[j]) && !all_zero_bytes(
            cs[k],
        ));
    }
    if cs.len() >= 3 && exists|i: int, j: int, k: int|
        #![trigger cs[i], cs[j], cs[k]]
        0 <= i < j < k < cs.len() && !all_zero_bytes(cs[i]) && !all_zero_bytes(cs[j]) && !all_zero_bytes(cs[k]) {
        let (i, j, k) = choose|i: int, j: int, k: int|
            #![trigger cs[i], cs[j], cs[k]]
            0 <= i < j < k < cs.len() && !all_zero_bytes(cs[i]) && !all_zero_bytes(cs[j]) && !all_zero_bytes(
                cs[k],
            );
        lemma_nonzero_three(cs, i, j, k);
    }
}

/// The verdict on the round duration: neither 0 nor below the minimum.
pub open spec fn duration_verdict(d: nat, layer: Layer, seed: u64) -> VerdictView {
    if d == 0 {
        VerdictView::Report(
            violation_view(
                InvariantClass::GasPricingSanity,
                layer,
                "Round duration is 0 seconds"@,
                "roundDurationSeconds() returned 0 \u{2014} broken auction config"@,
                seed,
                0,
            ),
        )
    } else if d < MIN_ROUND_SECS {
        VerdictView::Report(
            violation_view(
                InvariantClass::GasPricingSanity,
                layer,
                "Round duration suspiciously short"@,
                "roundDurationSeconds()="@ + decimal(d)
                    + " \u{2014} too short for fair bidding (spec says 60s)"@,
                seed,
                0,
            ),
        )
    } else {
        VerdictView::Pass
    }
}

/// The verdicts on the round configuration, the controller read and the
/// reserve prices, in order.
pub open spec fn config_verdicts(
    round: Seq<u8>,
    duration: Seq<u8>,
    initial_timestamp: Seq<u8>,
    reserve_price: Seq<u8>,
    minimal_reserve_price: Seq<u8>,
    layer: Layer,
    seed: u64,
) -> Seq<VerdictView> {
    seq![
        check_verdict(
            word_u64(round) != 0,
            InvariantClass::SequencerLiveness,
            layer,
            "Timeboost auction reports round 0"@,
            "currentRound() returned 0 \u{2014} auction may not be initialized"@,
            seed,
        ),
        duration_verdict(word_u64(duration), layer, seed),
        check_verdict(
            word_u256(initial_timestamp) != 0,
            InvariantClass::SequencerLiveness,
            layer,
            "Initial round timestamp is 0"@,
            "initialRoundTimestamp() returned 0 \u{2014} auction not configured"@,
            seed,
        ),
        VerdictView::Pass,
        check_verdict(
            !(word_u256(reserve_price) < word_u256(minimal_reserve_price)),
            InvariantClass::BalanceConsistency,
            layer,
            "Current reserve price below minimum"@,
            "getCurrentReservePrice()="@ + decimal(word_u256(reserve_price))
                + " < getminimalReservePrice()="@ + decimal(word_u256(minimal_reserve_price))
                + " \u{2014} price invariant broken"@,
            seed,
        ),
    ]
}

/// The verdict on the bid receiver: not the zero address.
pub open spec fn receiver_verdict(bid_receiver: Seq<u8>, layer: Layer, seed: u64) -> VerdictView {
    check_verdict(
        !all_zero_bytes(word_address(bid_receiver)),
        InvariantClass::BalanceConsistency,
        layer,
        "Bid receiver is zero address"@,
        "bidReceiver() returned 0x0 \u{2014} auction revenue goes nowhere"@,
        seed,
    )
}

/// The verdicts, in order, for what the probe saw on `layer` with seed `seed`.
pub open spec fn auction_verdicts(
    round: Seq<u8>,
    duration: Seq<u8>,
    initial_timestamp: Seq<u8>,
    reserve_price: Seq<u8>,
    minimal_reserve_price: Seq<u8>,
    controllers: Seq<Seq<u8>>,
    bid_receiver: Seq<u8>,
    layer: Layer,
    seed: u64,
) -> Seq<VerdictView> {
    config_verdicts(round, duration, initial_timestamp, reserve_price, minimal_reserve_price, layer, seed)
        + monopolization_verdicts(controllers, layer, seed) + seq![
        receiver_verdict(bid_receiver, layer, seed),
    ]
}

/// The rounds whose controllers the monopolisation check asks for: none
/// before round 3, else the current round and the ones before it, newest
/// first, at most `LOOKBACK_ROUNDS` of them.
pub open spec fn lookback_rounds(current: u64) -> Seq<u64> {
    if current < 3 {
        Seq::empty()
    } else {
        let n = if current < LOOKBACK_ROUNDS {
            current
        } else {
            LOOKBACK_ROUNDS
        };
        Seq::new(n as nat, |i: int| (current - i) as u64)
    }
}

/// The eight big-endian bytes of `x`.
pub open spec fn be_bytes_u64(x: u64) -> Seq<u8> {
    Seq::new(8, |i: int| ((x >> ((7 - i) * 8) as u64) & 0xff) as u8)
}

impl TimeboostAuctionProbe {
    /// Metadata describing the scenario.
    pub fn meta(&self) -> (m: ScenarioMeta)
        ensures
            m@ == auction_meta(),
    {
        let mut target_layers = Vec::new();
        target_layers.push(Layer::L1);
        target_layers.push(Layer::L2);
        let m = ScenarioMeta {
            name: String::from_str("timeboost-auction-probe"),
            description: String::from_str(
                "Probe the ExpressLaneAuction contract for configuration sanity, express lane monopolization risk, round timing analysis, and reserve price invariants. Pass --auction-addr to enable.",
            ),
            category: ScenarioCategory::TimeboostAdversarial,
            target_layers,
            severity_potential: Severity::High,
            destructive: false,
        };
        assert(m@.target_layers =~= seq![Layer::L1, Layer::L2]);
        m
    }

    /// The auction contract to probe: `Ok(None)` when none is configured (the
    /// probe is skipped), the parsed address when the configured text is one,
    /// else an error that quotes the text.
    pub fn auction_target(&self, config: &StackConfig) -> (r: Result<Option<Address>, String>)
        ensures
            config.auction_addr is None ==> r == Ok::<Option<Address>, String>(None),
            config.auction_addr matches Some(t) ==> (r is Ok <==> is_address_text(t@)),
            config.auction_addr matches Some(t) ==> (r matches Ok(x) ==> (x matches Some(a)
                && a.bytes@ == address_bytes(t@))),
            config.auction_addr matches Some(t) ==> (r matches Err(msg) ==> exists|reason: Seq<char>|
                msg@ == "invalid --auction-addr '"@ + t@ + "': "@ + reason),
    {
        match &config.auction_addr {
            None => Ok(None),
            Some(text) => match Address::parse(text.as_str()) {
                Ok(a) => Ok(Some(a)),
                Err(e) => {
                    let mut msg = String::from_str("invalid --auction-addr '");
                    msg.append(text.as_str());
                    msg.append("': ");
                    msg.append(e.message.as_str());
                    assert(msg@ == "invalid --auction-addr '"@ + text@ + "': "@ + e.message@);
                    Err(msg)
                },
            },
        }
    }

    /// The layer that hosts the auction: L1 when `currentRound()` answered
    /// there, else L2.
    pub fn auction_layer(&self, answers_on_l1: bool) -> (l: Layer)
        ensures
            l == (if answers_on_l1 {
                Layer::L1
            } else {
                Layer::L2
            }),
    {
        if answers_on_l1 {
            Layer::L1
        } else {
            Layer::L2
        }
    }

    /// The rounds whose controllers to ask for, newest first.
    pub fn monopolization_rounds(&self, current_round: u64) -> (r: Vec<u64>)
        ensures
            r@ == lookback_rounds(current_round),
    {
        let mut r: Vec<u64> = Vec::new();
        if current_round < 3 {
            assert(r@ =~= lookback_rounds(current_round));
            return r;
        }
        let n = if current_round < LOOKBACK_ROUNDS {
            current_round
        } else {
            LOOKBACK_ROUNDS
        };
        let mut i: u64 = 0;
        while i < n
            invariant
                i <= n <= current_round,
                n == (if current_round < LOOKBACK_ROUNDS {
                    current_round
                } else {
                    LOOKBACK_ROUNDS
                }),
                current_round >= 3,
                r@ == Seq::new(i as nat, |k: int| (current_round - k) as u64),
            decreases n - i,
        {
            r.push(current_round - i);
            assert(r@ =~= Seq::new((i + 1) as nat, |k: int| (current_round - k) as u64));
            i = i + 1;
        }
        assert(r@ =~= lookback_rounds(current_round));
        r
    }

    /// Call data of `expressLaneControllerByRound(round)`: the selector, then
    /// `round` as a big-endian 32-byte word.
    pub fn controller_query(&self, round: u64) -> (v: Vec<u8>)
        ensures
            v@ == selector_bytes(Selector::ControllerByRound) + Seq::new(24, |i: int| 0u8)
                + be_bytes_u64(round),
    {
        let mut v = Selector::ControllerByRound.call_data();
        let mut i: usize = 0;
        while i < 24
            invariant
                i <= 24,
                v@ == selector_bytes(Selector::ControllerByRound) + Seq::new(i as nat, |k: int| 0u8),
            decreases 24 - i,
        {
            v.push(0u8);
            assert(v@ =~= selector_bytes(Selector::ControllerByRound) + Seq::new(
                (i + 1) as nat,
                |k: int| 0u8,
            ));
            i = i + 1;
        }
        let mut j: u64 = 0;
        while j < 8
            invariant
                j <= 8,
                v@ == selector_bytes(Selector::ControllerByRound) + Seq::new(24, |k: int| 0u8)
                    + be_bytes_u64(round).take(j as int),
            decreases 8 - j,
        {
            let b = ((round >> ((7 - j) * 8)) & 0xff) as u8;
            v.push(b);
            assert(be_bytes_u64(round).take(j + 1) =~= be_bytes_u64(round).take(j as int).push(b));
            j = j + 1;
        }
        assert(be_bytes_u64(round).take(8) =~= be_bytes_u64(round));
        v
    }

    fn monopolization_check(&self, controllers: &Vec<Address>, layer: Layer, seed: u64, v: &mut Vec<Verdict>)
        ensures
            verdicts_view(final(v)@) == verdicts_view(old(v)@) + monopolization_verdicts(
                addresses_view(controllers@),
                layer,
                seed,
            ),
    {
        let ghost cs = addresses_view(controllers@);
        let mut nz: Vec<Address> = Vec::new();
        let mut i: usize = 0;
        while i < controllers.len()
            invariant
                i <= controllers@.len(),
                cs == addresses_view(controllers@),
                addresses_view(nz@) == nonzero_controllers(cs.take(i as int)),
            decreases controllers@.len() - i,
        {
            let c = controllers[i];
            assert(cs.take(i + 1).drop_last() =~= cs.take(i as int));
            assert(cs.take(i + 1).last() == c.bytes@);
            if !c.is_zero() {
                nz.push(c);
                assert(addresses_view(nz@) =~= nonzero_controllers(cs.take(i as int)).push(c.bytes@));
            }
            i = i + 1;
        }
        assert(cs.take(i as int) =~= cs);
        let ghost nzv = nonzero_controllers(cs);
        if controllers.len() >= 3 && nz.len() >= 3 {
            let first = nz[0];
            let mut same = true;
            let mut k: usize = 1;
            while k < nz.len()
                invariant
                    1 <= k <= nz@.len(),
                    nz@.len() >= 3,
                    first == nz@[0],
                    addresses_view(nz@) == nzv,
                    same == (forall|m: int| 0 <= m < k ==> #[trigger] nzv[m] == nzv[0]),
                decreases nz@.len() - k,
            {
                assert(nzv[k as int] == nz@[k as int].bytes@);
                assert(nzv[0] == first.bytes@);
                if !nz[k].same_as(&first) {
                    same = false;
                }
                k = k + 1;
            }
            if same {
                let mut description = String::from_str("Same controller ");
                description.append(first.to_string().as_str());
                description.append(" won ");
                description.append(usize_text(nz.len()).as_str());
                description.append(
                    " consecutive rounds \u{2014} potential auction manipulation or lack of competition",
                );
                v.push(
                    Verdict::Report(
                        violation(
                            InvariantClass::SequencerLiveness,
                            layer,
                            String::from_str("Express lane monopolization detected"),
                            description,
                            seed,
                            0,
                        ),
                    ),
                );
            } else {
                v.push(Verdict::Pass);
            }
        }
    }

    /// The verdicts of the probe's checks, in the order it checks: current
    /// round non-zero, round duration sane, initial timestamp non-zero,
    /// controller read, reserve price not below the minimum, no monopolised
    /// express lane, bid receiver non-zero.
    pub fn assess(&self, o: &AuctionObservations, layer: Layer, seed: u64) -> (v: Vec<Verdict>)
        ensures
            verdicts_view(v@) == auction_verdicts(
                o.round@,
                o.duration@,
                o.initial_timestamp@,
                o.reserve_price@,
                o.minimal_reserve_price@,
                addresses_view(o.controllers@),
                o.bid_receiver@,
                layer,
                seed,
            ),
    {
        let mut v: Vec<Verdict> = Vec::new();
        let round = decode_uint64(o.round.as_slice());
        v.push(
            check(
                round != 0,
                InvariantClass::SequencerLiveness,
                layer,
                String::from_str("Timeboost auction reports round 0"),
                String::from_str("currentRound() returned 0 \u{2014} auction may not be initialized"),
                seed,
            ),
        );
        let duration = decode_uint64(o.duration.as_slice());
        if duration == 0 {
            v.push(
                Verdict::Report(
                    violation(
                        InvariantClass::GasPricingSanity,
                        layer,
                        String::from_str("Round duration is 0 seconds"),
                        String::from_str("roundDurationSeconds() returned 0 \u{2014} broken auction config"),
                        seed,
                        0,
                    ),
                ),
            );
        } else if duration < MIN_ROUND_SECS {
            v.push(
                Verdict::Report(
                    violation(
                        InvariantClass::GasPricingSanity,
                        layer,
                        String::from_str("Round duration suspiciously short"),
                        one_number(
                            "roundDurationSeconds()=",
                            duration,
                            " \u{2014} too short for fair bidding (spec says 60s)",
                        ),
                        seed,
                        0,
                    ),
                ),
            );
        } else {
            v.push(Verdict::Pass);
        }
        let initial = decode_u256(o.initial_timestamp.as_slice());
        v.push(
            check(
                !initial.is_zero(),
                InvariantClass::SequencerLiveness,
                layer,
                String::from_str("Initial round timestamp is 0"),
                String::from_str("initialRoundTimestamp() returned 0 \u{2014} auction not configured"),
                seed,
            ),
        );
        v.push(Verdict::Pass);
        let reserve = decode_u256(o.reserve_price.as_slice());
        let minimum = decode_u256(o.minimal_reserve_price.as_slice());
        let below = reserve.lt(&minimum);
        let mut description = String::from_str("getCurrentReservePrice()=");
        description.append(reserve.to_string().as_str());
        description.append(" < getminimalReservePrice()=");
        description.append(minimum.to_string().as_str());
        description.append(" \u{2014} price invariant broken");
        assert(description@ =~= "getCurrentReservePrice()="@ + decimal(
            word_u256(o.reserve_price@),
        ) + " < getminimalReservePrice()="@ + decimal(word_u256(o.minimal_reserve_price@))
            + " \u{2014} price invariant broken"@);
        v.push(
            check(
                !below,
                InvariantClass::BalanceConsistency,
                layer,
                String::from_str("Current reserve price below minimum"),
                description,
                seed,
            ),
        );
        let ghost config = config_verdicts(
            o.round@,
            o.duration@,
            o.initial_timestamp@,
            o.reserve_price@,
            o.minimal_reserve_price@,
            layer,
            seed,
        );
        assert(verdicts_view(v@) =~= config);
        self.monopolization_check(&o.controllers, layer, seed, &mut v);
        let ghost with_mono = verdicts_view(v@);
        let receiver = decode_address(o.bid_receiver.as_slice());
        v.push(
            check(
                !receiver.is_zero(),
                InvariantClass::BalanceConsistency,
                layer,
                String::from_str("Bid receiver is zero address"),
                String::from_str("bidReceiver() returned 0x0 \u{2014} auction revenue goes nowhere"),
                seed,
            ),
        );
        assert(verdicts_view(v@) =~= with_mono.push(receiver_verdict(o.bid_receiver@, layer, seed)));
        assert(verdicts_view(v@) =~= auction_verdicts(
            o.round@,
            o.duration@,
            o.initial_timestamp@,
            o.reserve_price@,
            o.minimal_reserve_price@,
            addresses_view(o.controllers@),
            o.bid_receiver@,
            layer,
            seed,
        ));
        v
    }
}

} // verus!
