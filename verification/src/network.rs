//! Simulated network layer: message passing between rollup components with
//! controllable latency, loss, duplication and partitions.
//!
//! Every decision is drawn from the deterministic generator: same seed, same
//! network fate.
use vstd::prelude::*;
use std::collections::HashSet;
use crate::prng::{lemma_range, DeterministicRng, RngState};
use crate::chaos::span_fits;

verus! {

broadcast use vstd::std_specs::hash::group_hash_axioms;

pub type NodeId = u32;

/// Network behaviour. A rate is a probability scaled to a chance threshold,
/// `floor(p * 2^64)` (the threshold that `DeterministicRng::chance` takes).
#[derive(Clone, Copy, Debug, PartialEq, Eq, Structural)]
pub struct NetworkConfig {
    pub message_loss_rate: u64,
    pub duplication_rate: u64,
    pub reorder_rate: u64,
    pub min_latency_ticks: u64,
    pub max_latency_ticks: u64,
}

impl Default for NetworkConfig {
    /// 1% loss, 0.1% duplication, 5% reordering, latency of 1 to 50 ticks.
    fn default() -> (c: Self)
        ensures
            c == (NetworkConfig {
                message_loss_rate: 184467440737095520,
                duplication_rate: 18446744073709552,
                reorder_rate: 922337203685477632,
                min_latency_ticks: 1,
                max_latency_ticks: 50,
            }),
    {
        NetworkConfig {
            message_loss_rate: 184467440737095520,
            duplication_rate: 18446744073709552,
            reorder_rate: 922337203685477632,
            min_latency_ticks: 1,
            max_latency_ticks: 50,
        }
    }
}

/// A message on its way.
#[derive(Clone, Debug)]
pub struct InFlightMessage {
    pub from: NodeId,
    pub to: NodeId,
    pub payload: Vec<u8>,
    pub deliver_at_tick: u64,
}

/// What a message in flight holds.
pub struct MessageView {
    pub from: NodeId,
    pub to: NodeId,
    pub payload: Seq<u8>,
    pub deliver_at_tick: u64,
}

impl View for InFlightMessage {
    type V = MessageView;

    open spec fn view(&self) -> MessageView {
        MessageView {
            from: self.from,
            to: self.to,
            payload: self.payload@,
            deliver_at_tick: self.deliver_at_tick,
        }
    }
}

/// The views of a list of messages.
pub open spec fn messages_view(v: Seq<InFlightMessage>) -> Seq<MessageView> {
    Seq::new(v.len(), |i: int| v[i]@)
}

fn copy_bytes(v: &Vec<u8>) -> (r: Vec<u8>)
    ensures
        r@ == v@,
{
    let r = v.clone();
    assert(r@ =~= v@);
    r
}

impl InFlightMessage {
    fn duplicate(&self) -> (m: InFlightMessage)
        ensures
            m@ == self@,
    {
        InFlightMessage {
            from: self.from,
            to: self.to,
            payload: copy_bytes(&self.payload),
            deliver_at_tick: self.deliver_at_tick,
        }
    }
}

/// The key under which the directed link `a -> b` is stored.
pub open spec fn link_key(a: NodeId, b: NodeId) -> u64 {
    (a * 0x1_0000_0000 + b) as u64
}

fn link(a: NodeId, b: NodeId) -> (k: u64)
    ensures
        k == link_key(a, b),
{
    (a as u64) * 0x1_0000_0000 + (b as u64)
}

proof fn lemma_link_key_injective(a: NodeId, b: NodeId, c: NodeId, d: NodeId)
    ensures
        link_key(a, b) == link_key(c, d) ==> a == c && b == d,
{
}

/// Counters of a network.
#[derive(Clone, Copy, Debug, PartialEq, Eq, Structural)]
pub struct NetworkStats {
    pub in_flight: u64,
    pub delivered: u64,
    pub dropped: u64,
    pub duplicated: u64,
    pub active_partitions: u64,
}

/// The mathematical state of a network.
pub struct NetState {
    pub config: NetworkConfig,
    pub in_flight: Seq<MessageView>,
    pub partitions: Set<u64>,
    pub delivered: u64,
    pub dropped: u64,
    pub duplicated: u64,
}

/// The links cut by partitioning every node of `a` from every node of `b`,
/// in both directions.
pub open spec fn cut_links(a: Seq<NodeId>, b: Seq<NodeId>) -> Set<u64> {
    Set::new(
        |k: u64|
            exists|i: int, j: int|
                0 <= i < a.len() && 0 <= j < b.len() && (k == link_key(a[i], b[j]) || k == link_key(
                    b[j],
                    a[i],
                )),
    )
}

/// Every stored link is stored in both directions.
pub open spec fn symmetric_links(p: Set<u64>) -> bool {
    forall|a: NodeId, b: NodeId| #[trigger] p.contains(link_key(a, b)) ==> p.contains(link_key(b, a))
}

/// The messages of `s` due at `tick` (first) and the others (second), in order.
pub open spec fn split_due(s: Seq<MessageView>, tick: u64) -> (Seq<MessageView>, Seq<MessageView>)
    decreases s.len(),
{
    if s.len() == 0 {
        (Seq::empty(), Seq::empty())
    } else {
        let (due, later) = split_due(s.drop_last(), tick);
        if s.last().deliver_at_tick <= tick {
            (due.push(s.last()), later)
        } else {
            (due, later.push(s.last()))
        }
    }
}

impl NetState {
    /// Whether the link `a -> b` is cut.
    pub open spec fn is_partitioned(self, a: NodeId, b: NodeId) -> bool {
        self.partitions.contains(link_key(a, b))
    }

    /// Cuts are symmetric: `a -> b` is cut exactly when `b -> a` is.
    pub open spec fn valid(self) -> bool {
        symmetric_links(self.partitions)
    }

    /// The latest tick that a send at `tick` may schedule a delivery for fits in a `u64`.
    pub open spec fn send_fits(self, tick: u64) -> bool {
        let most = if self.config.min_latency_ticks >= self.config.max_latency_ticks {
            self.config.min_latency_ticks
        } else {
            self.config.max_latency_ticks
        };
        &&& tick + 2 * most <= u64::MAX
        &&& span_fits(self.config.min_latency_ticks, self.config.max_latency_ticks)
        &&& self.dropped < u64::MAX
        &&& self.duplicated < u64::MAX
    }

    /// The network and generator states after a send.
    pub open spec fn send(self, r: RngState, tick: u64, from: NodeId, to: NodeId, payload: Seq<u8>) -> (NetState, RngState) {
        if self.is_partitioned(from, to) {
            (NetState { dropped: (self.dropped + 1) as u64, ..self }, r)
        } else {
            let (r1, lost) = r.chance(self.config.message_loss_rate);
            if lost {
                (NetState { dropped: (self.dropped + 1) as u64, ..self }, r1)
            } else {
                let (r2, latency) = r1.range(self.config.min_latency_ticks, self.config.max_latency_ticks);
                let at = (tick + latency) as u64;
                let m = MessageView { from, to, payload, deliver_at_tick: at };
                let (r3, dup) = r2.chance(self.config.duplication_rate);
                if dup {
                    let (r4, extra) = r3.range(self.config.min_latency_ticks, self.config.max_latency_ticks);
                    let m2 = MessageView { from, to, payload, deliver_at_tick: (at + extra) as u64 };
                    (NetState {
                        in_flight: self.in_flight.push(m).push(m2),
                        duplicated: (self.duplicated + 1) as u64,
                        ..self
                    }, r4)
                } else {
                    (NetState { in_flight: self.in_flight.push(m), ..self }, r3)
                }
            }
        }
    }

    /// The state after `deliver(tick)`.
    pub open spec fn after_deliver(self, tick: u64) -> NetState {
        let (due, later) = split_due(self.in_flight, tick);
        NetState { in_flight: later, delivered: (self.delivered + due.len()) as u64, ..self }
    }

    /// The counters reported by `stats`.
    pub open spec fn stats(self) -> NetworkStats {
        NetworkStats {
            in_flight: self.in_flight.len() as u64,
            delivered: self.delivered,
            dropped: self.dropped,
            duplicated: self.duplicated,
            active_partitions: (self.partitions.len() / 2) as u64,
        }
    }
}

/// Simulated network between rollup components.
#[derive(Debug)]
pub struct SimulatedNetwork {
    config: NetworkConfig,
    in_flight: Vec<InFlightMessage>,
    partitions: HashSet<u64>,
    delivered: u64,
    dropped: u64,
    duplicated: u64,
}

impl View for SimulatedNetwork {
    type V = NetState;

    closed spec fn view(&self) -> NetState {
        NetState {
            config: self.config,
            in_flight: messages_view(self.in_flight@),
            partitions: self.partitions@,
            delivered: self.delivered,
            dropped: self.dropped,
            duplicated: self.duplicated,
        }
    }
}

proof fn lemma_split_due_len(s: Seq<MessageView>, tick: u64)
    ensures
        split_due(s, tick).0.len() + split_due(s, tick).1.len() == s.len(),
    decreases s.len(),
{
    if s.len() > 0 {
        lemma_split_due_len(s.drop_last(), tick);
    }
}

impl SimulatedNetwork {
    #[verifier::type_invariant]
    closed spec fn symmetric(self) -> bool {
        symmetric_links(self.partitions@)
    }

    /// An empty network with no partitions.
    pub fn new(config: NetworkConfig) -> (n: Self)
        ensures
            n@ == (NetState {
                config,
                in_flight: Seq::empty(),
                partitions: Set::empty(),
                delivered: 0,
                dropped: 0,
                duplicated: 0,
            }),
            n@.valid(),
    {
        let n = SimulatedNetwork {
            config,
            in_flight: Vec::new(),
            partitions: HashSet::new(),
            delivered: 0,
            dropped: 0,
            duplicated: 0,
        };
        assert(n@.in_flight =~= Seq::empty());
        n
    }

    /// Sends a message: dropped when the link is cut or the message is lost,
    /// else queued after a random latency, and sometimes queued twice.
    pub fn send(
        &mut self,
        rng: &mut DeterministicRng,
        current_tick: u64,
        from: NodeId,
        to: NodeId,
        payload: Vec<u8>,
    )
        requires
            old(self)@.dropped < u64::MAX,
            !old(self)@.is_partitioned(from, to) ==> old(self)@.send_fits(current_tick) && old(
                rng,
            )@.has_room(4),
        ensures
            (final(self)@, final(rng)@) == old(self)@.send(old(rng)@, current_tick, from, to, payload@),
            final(self)@.valid(),
    {
        proof {
            use_type_invariant(&*self);
        }
        let ghost n0 = self@;
        if self.partitions.contains(&link(from, to)) {
            self.dropped = self.dropped + 1;
            return;
        }
        if rng.chance(self.config.message_loss_rate) {
            self.dropped = self.dropped + 1;
            return;
        }
        let latency = rng.range(self.config.min_latency_ticks, self.config.max_latency_ticks);
        let deliver_at = current_tick + latency;
        let m = InFlightMessage { from, to, payload: copy_bytes(&payload), deliver_at_tick: deliver_at };
        let mut queue = Vec::new();
        std::mem::swap(&mut queue, &mut self.in_flight);
        let ghost before = queue@;
        queue.push(m);
        assert(messages_view(queue@) =~= messages_view(before).push(m@));
        if rng.chance(self.config.duplication_rate) {
            let extra = rng.range(self.config.min_latency_ticks, self.config.max_latency_ticks);
            let m2 = InFlightMessage { from, to, payload, deliver_at_tick: deliver_at + extra };
            let ghost before2 = queue@;
            queue.push(m2);
            assert(messages_view(queue@) =~= messages_view(before2).push(m2@));
            self.duplicated = self.duplicated + 1;
        }
        self.in_flight = queue;
    }

    /// Hands out every message due at or before `tick`, in the order sent,
    /// and keeps the others in order.
    pub fn deliver(&mut self, tick: u64) -> (ready: Vec<InFlightMessage>)
        requires
            old(self)@.delivered + old(self)@.in_flight.len() <= u64::MAX,
        ensures
            messages_view(ready@) == split_due(old(self)@.in_flight, tick).0,
            final(self)@ == old(self)@.after_deliver(tick),
            final(self)@.valid(),
    {
        proof {
            use_type_invariant(&*self);
        }
        let mut ready: Vec<InFlightMessage> = Vec::new();
        let mut remaining: Vec<InFlightMessage> = Vec::new();
        let mut delivered = self.delivered;
        let ghost all = messages_view(self.in_flight@);
        let mut i: usize = 0;
        while i < self.in_flight.len()
            invariant
                i <= self.in_flight@.len(),
                all == messages_view(self.in_flight@),
                (messages_view(ready@), messages_view(remaining@)) == split_due(all.take(i as int), tick),
                delivered == self.delivered + messages_view(ready@).len(),
                self.delivered + all.len() <= u64::MAX,
                ready@.len() + remaining@.len() == i,
            decreases self.in_flight@.len() - i,
        {
            proof {
                assert(all.take(i + 1).drop_last() =~= all.take(i as int));
                lemma_split_due_len(all.take(i as int), tick);
            }
            let m = self.in_flight[i].duplicate();
            if m.deliver_at_tick <= tick {
                let ghost before = ready@;
                ready.push(m);
                assert(messages_view(ready@) =~= messages_view(before).push(m@));
                delivered = delivered + 1;
            } else {
                let ghost before = remaining@;
                remaining.push(m);
                assert(messages_view(remaining@) =~= messages_view(before).push(m@));
            }
            i = i + 1;
        }
        assert(all.take(all.len() as int) =~= all);
        self.in_flight = remaining;
        self.delivered = delivered;
        ready
    }

    /// Cuts every link between a node of `group_a` and a node of `group_b`,
    /// in both directions.
    pub fn partition(&mut self, group_a: &[NodeId], group_b: &[NodeId])
        ensures
            final(self)@ == (NetState {
                partitions: old(self)@.partitions.union(cut_links(group_a@, group_b@)),
                ..old(self)@
            }),
            final(self)@.valid(),
    {
        proof {
            use_type_invariant(&*self);
        }
        let ghost p0 = self.partitions@;
        let mut parts = HashSet::new();
        std::mem::swap(&mut parts, &mut self.partitions);
        let mut i: usize = 0;
        while i < group_a.len()
            invariant
                i <= group_a@.len(),
                parts@ == p0.union(cut_links(group_a@.take(i as int), group_b@)),
            decreases group_a@.len() - i,
        {
            let a = group_a[i];
            let mut j: usize = 0;
            while j < group_b.len()
                invariant
                    i < group_a@.len(),
                    a == group_a@[i as int],
                    j <= group_b@.len(),
                    parts@ == p0.union(cut_links(group_a@.take(i as int), group_b@)).union(
                        cut_links(seq![a], group_b@.take(j as int)),
                    ),
                decreases group_b@.len() - j,
            {
                let b = group_b[j];
                let ghost before = parts@;
                parts.insert(link(a, b));
                parts.insert(link(b, a));
                assert(parts@ =~= p0.union(cut_links(group_a@.take(i as int), group_b@)).union(
                    cut_links(seq![a], group_b@.take(j + 1)),
                )) by {
                    let bt = group_b@.take(j + 1);
                    assert(bt[j as int] == b);
                    assert forall|k: u64| cut_links(seq![a], bt).contains(k) implies #[trigger] parts@.contains(k) by {
                        let (x, y) = choose|x: int, y: int|
                            0 <= x < 1 && 0 <= y < bt.len() && (k == link_key(seq![a][x], bt[y])
                                || k == link_key(bt[y], seq![a][x]));
                        if y < j {
                            assert(cut_links(seq![a], group_b@.take(j as int)).contains(k)) by {
                                assert(group_b@.take(j as int)[y] == bt[y]);
                            }
                        }
                    }
                    assert forall|k: u64| cut_links(seq![a], group_b@.take(j as int)).contains(k) implies #[trigger] cut_links(seq![a], bt).contains(k) by {
                        let (x, y) = choose|x: int, y: int|
                            0 <= x < 1 && 0 <= y < j && (k == link_key(seq![a][x], group_b@.take(j as int)[y])
                                || k == link_key(group_b@.take(j as int)[y], seq![a][x]));
                        assert(bt[y] == group_b@.take(j as int)[y]);
                    }
                    assert(cut_links(seq![a], bt).contains(link_key(a, b))) by {
                        assert(seq![a][0] == a);
                    }
                    assert(cut_links(seq![a], bt).contains(link_key(b, a))) by {
                        assert(seq![a][0] == a);
                    }
                }
                j = j + 1;
            }
            assert(parts@ =~= p0.union(cut_links(group_a@.take(i + 1), group_b@))) by {
                let at = group_a@.take(i + 1);
                assert(group_b@.take(j as int) =~= group_b@);
                assert forall|k: u64| cut_links(at, group_b@).contains(k) implies #[trigger] parts@.contains(k) by {
                    let (x, y) = choose|x: int, y: int|
                        0 <= x < at.len() && 0 <= y < group_b@.len() && (k == link_key(at[x], group_b@[y])
                            || k == link_key(group_b@[y], at[x]));
                    if x < i {
                        assert(cut_links(group_a@.take(i as int), group_b@).contains(k)) by {
                            assert(group_a@.take(i as int)[x] == at[x]);
                        }
                    } else {
                        assert(cut_links(seq![a], group_b@).contains(k)) by {
                            assert(seq![a][0] == at[x]);
                        }
                    }
                }
                assert forall|k: u64| cut_links(group_a@.take(i as int), group_b@).contains(k) implies #[trigger] cut_links(at, group_b@).contains(k) by {
                    let (x, y) = choose|x: int, y: int|
                        0 <= x < i && 0 <= y < group_b@.len() && (k == link_key(group_a@.take(i as int)[x], group_b@[y])
                            || k == link_key(group_b@[y], group_a@.take(i as int)[x]));
                    assert(at[x] == group_a@.take(i as int)[x]);
                }
                assert forall|k: u64| cut_links(seq![a], group_b@).contains(k) implies #[trigger] cut_links(at, group_b@).contains(k) by {
                    let (x, y) = choose|x: int, y: int|
                        0 <= x < 1 && 0 <= y < group_b@.len() && (k == link_key(seq![a][x], group_b@[y])
                            || k == link_key(group_b@[y], seq![a][x]));
                    assert(at[i as int] == a);
                }
            }
            i = i + 1;
        }
        assert(group_a@.take(group_a@.len() as int) =~= group_a@);
        proof {
            assert forall|x: NodeId, y: NodeId| #[trigger] parts@.contains(link_key(x, y)) implies parts@.contains(link_key(y, x)) by {
                if !p0.contains(link_key(x, y)) {
                    let (u, v) = choose|u: int, v: int|
                        0 <= u < group_a@.len() && 0 <= v < group_b@.len() && (link_key(x, y) == link_key(group_a@[u], group_b@[v])
                            || link_key(x, y) == link_key(group_b@[v], group_a@[u]));
                    lemma_link_key_injective(x, y, group_a@[u], group_b@[v]);
                    lemma_link_key_injective(x, y, group_b@[v], group_a@[u]);
                } else {
                    assert(p0.contains(link_key(y, x)));
                }
            }
        }
        self.partitions = parts;
    }

    /// Heals every partition.
    pub fn heal_all(&mut self)
        ensures
            final(self)@ == (NetState { partitions: Set::empty(), ..old(self)@ }),
            final(self)@.valid(),
    {
        let mut parts = HashSet::new();
        std::mem::swap(&mut parts, &mut self.partitions);
        parts.clear();
        self.partitions = parts;
    }

    /// Heals the links between `group_a` and `group_b`, in both directions.
    pub fn heal(&mut self, group_a: &[NodeId], group_b: &[NodeId])
        ensures
            final(self)@ == (NetState {
                partitions: old(self)@.partitions.difference(cut_links(group_a@, group_b@)),
                ..old(self)@
            }),
            final(self)@.valid(),
    {
        proof {
            use_type_invariant(&*self);
        }
        let ghost p0 = self.partitions@;
        let mut parts = HashSet::new();
        std::mem::swap(&mut parts, &mut self.partitions);
        let mut i: usize = 0;
        while i < group_a.len()
            invariant
                i <= group_a@.len(),
                parts@ == p0.difference(cut_links(group_a@.take(i as int), group_b@)),
            decreases group_a@.len() - i,
        {
            let a = group_a[i];
            let mut j: usize = 0;
            while j < group_b.len()
                invariant
                    i < group_a@.len(),
                    a == group_a@[i as int],
                    j <= group_b@.len(),
                    parts@ == p0.difference(cut_links(group_a@.take(i as int), group_b@)).difference(
                        cut_links(seq![a], group_b@.take(j as int)),
                    ),
                decreases group_b@.len() - j,
            {
                let b = group_b[j];
                parts.remove(&link(a, b));
                parts.remove(&link(b, a));
                assert(parts@ =~= p0.difference(cut_links(group_a@.take(i as int), group_b@)).difference(
                    cut_links(seq![a], group_b@.take(j + 1)),
                )) by {
                    let bt = group_b@.take(j + 1);
                    assert(bt[j as int] == b);
                    assert forall|k: u64| cut_links(seq![a], bt).contains(k) implies !#[trigger] parts@.contains(k) by {
                        let (x, y) = choose|x: int, y: int|
                            0 <= x < 1 && 0 <= y < bt.len() && (k == link_key(seq![a][x], bt[y])
                                || k == link_key(bt[y], seq![a][x]));
                        if y < j {
                            assert(cut_links(seq![a], group_b@.take(j as int)).contains(k)) by {
                                assert(group_b@.take(j as int)[y] == bt[y]);
                            }
                        }
                    }
                    assert forall|k: u64| cut_links(seq![a], group_b@.take(j as int)).contains(k) implies #[trigger] cut_links(seq![a], bt).contains(k) by {
                        let (x, y) = choose|x: int, y: int|
                            0 <= x < 1 && 0 <= y < j && (k == link_key(seq![a][x], group_b@.take(j as int)[y])
                                || k == link_key(group_b@.take(j as int)[y], seq![a][x]));
                        assert(bt[y] == group_b@.take(j as int)[y]);
                    }
                    assert(cut_links(seq![a], bt).contains(link_key(a, b))) by {
                        assert(seq![a][0] == a);
                    }
                    assert(cut_links(seq![a], bt).contains(link_key(b, a))) by {
                        assert(seq![a][0] == a);
                    }
                }
                j = j + 1;
            }
            assert(parts@ =~= p0.difference(cut_links(group_a@.take(i + 1), group_b@))) by {
                let at = group_a@.take(i + 1);
                assert(group_b@.take(j as int) =~= group_b@);
                assert forall|k: u64| cut_links(at, group_b@).contains(k) implies !#[trigger] parts@.contains(k) by {
                    let (x, y) = choose|x: int, y: int|
                        0 <= x < at.len() && 0 <= y < group_b@.len() && (k == link_key(at[x], group_b@[y])
                            || k == link_key(group_b@[y], at[x]));
                    if x < i {
                        assert(cut_links(group_a@.take(i as int), group_b@).contains(k)) by {
                            assert(group_a@.take(i as int)[x] == at[x]);
                        }
                    } else {
                        assert(cut_links(seq![a], group_b@).contains(k)) by {
                            assert(seq![a][0] == at[x]);
                        }
                    }
                }
                assert forall|k: u64| cut_links(group_a@.take(i as int), group_b@).contains(k) implies #[trigger] cut_links(at, group_b@).contains(k) by {
                    let (x, y) = choose|x: int, y: int|
                        0 <= x < i && 0 <= y < group_b@.len() && (k == link_key(group_a@.take(i as int)[x], group_b@[y])
                            || k == link_key(group_b@[y], group_a@.take(i as int)[x]));
                    assert(at[x] == group_a@.take(i as int)[x]);
                }
                assert forall|k: u64| cut_links(seq![a], group_b@).contains(k) implies #[trigger] cut_links(at, group_b@).contains(k) by {
                    let (x, y) = choose|x: int, y: int|
                        0 <= x < 1 && 0 <= y < group_b@.len() && (k == link_key(seq![a][x], group_b@[y])
                            || k == link_key(group_b@[y], seq![a][x]));
                    assert(at[i as int] == a);
                }
            }
            i = i + 1;
        }
        assert(group_a@.take(group_a@.len() as int) =~= group_a@);
        proof {
            assert forall|x: NodeId, y: NodeId| #[trigger] parts@.contains(link_key(x, y)) implies parts@.contains(link_key(y, x)) by {
                assert(p0.contains(link_key(y, x)));
                if cut_links(group_a@, group_b@).contains(link_key(y, x)) {
                    let (u, v) = choose|u: int, v: int|
                        0 <= u < group_a@.len() && 0 <= v < group_b@.len() && (link_key(y, x) == link_key(group_a@[u], group_b@[v])
                            || link_key(y, x) == link_key(group_b@[v], group_a@[u]));
                    lemma_link_key_injective(y, x, group_a@[u], group_b@[v]);
                    lemma_link_key_injective(y, x, group_b@[v], group_a@[u]);
                    assert(cut_links(group_a@, group_b@).contains(link_key(x, y)));
                }
            }
        }
        self.partitions = parts;
    }

    fn is_partitioned(&self, a: NodeId, b: NodeId) -> (r: bool)
        ensures
            r == self@.is_partitioned(a, b),
    {
        self.partitions.contains(&link(a, b))
    }

    /// The current counters.
    pub fn stats(&self) -> (s: NetworkStats)
        ensures
            s == self@.stats(),
    {
        NetworkStats {
            in_flight: self.in_flight.len() as u64,
            delivered: self.delivered,
            dropped: self.dropped,
            duplicated: self.duplicated,
            active_partitions: self.partitions.len() as u64 / 2,
        }
    }
}

/// Partitions are symmetric: the link `a -> b` is cut exactly when `b -> a` is.
pub proof fn law_partitions_symmetric(n: NetState, a: NodeId, b: NodeId)
    requires
        n.valid(),
    ensures
        n.is_partitioned(a, b) <==> n.is_partitioned(b, a),
{
    if n.is_partitioned(a, b) {
        assert(n.is_partitioned(b, a));
    }
    if n.is_partitioned(b, a) {
        assert(n.is_partitioned(a, b));
    }
}

/// A message sent over a cut link is dropped: nothing is queued, no draw is made.
pub proof fn law_partitioned_send_drops(n: NetState, r: RngState, tick: u64, from: NodeId, to: NodeId, payload: Seq<u8>)
    requires
        n.is_partitioned(from, to),
        n.dropped < u64::MAX,
    ensures
        n.send(r, tick, from, to, payload).0.in_flight == n.in_flight,
        n.send(r, tick, from, to, payload).0.dropped == n.dropped + 1,
        n.send(r, tick, from, to, payload).1 == r,
{
}

/// Delivery loses nothing: every message in flight is either handed out or
/// kept, and the delivered counter grows by the number handed out.
pub proof fn law_deliver_conserves_messages(n: NetState, tick: u64)
    requires
        n.delivered + n.in_flight.len() <= u64::MAX,
    ensures
        split_due(n.in_flight, tick).0.len() + n.after_deliver(tick).in_flight.len() == n.in_flight.len(),
        n.after_deliver(tick).delivered == n.delivered + split_due(n.in_flight, tick).0.len(),
{
    lemma_split_due_len(n.in_flight, tick);
}

/// A message is never handed out before its delivery tick, and one that is
/// kept is not yet due.
pub proof fn law_deliver_respects_latency(s: Seq<MessageView>, tick: u64)
    ensures
        forall|i: int| 0 <= i < split_due(s, tick).0.len() ==> #[trigger] split_due(s, tick).0[i].deliver_at_tick <= tick,
        forall|i: int| 0 <= i < split_due(s, tick).1.len() ==> #[trigger] split_due(s, tick).1[i].deliver_at_tick > tick,
    decreases s.len(),
{
    if s.len() > 0 {
        law_deliver_respects_latency(s.drop_last(), tick);
        let (due, later) = split_due(s.drop_last(), tick);
        assert forall|i: int| 0 <= i < split_due(s, tick).0.len() implies #[trigger] split_due(s, tick).0[i].deliver_at_tick <= tick by {
            if i < due.len() {
                assert(split_due(s, tick).0[i] == due[i]);
            }
        }
        assert forall|i: int| 0 <= i < split_due(s, tick).1.len() implies #[trigger] split_due(s, tick).1[i].deliver_at_tick > tick by {
            if i < later.len() {
                assert(split_due(s, tick).1[i] == later[i]);
            }
        }
    }
}

/// Queuing a message that is not yet due leaves what is due unchanged.
proof fn lemma_split_due_push_later(s: Seq<MessageView>, m: MessageView, tick: u64)
    requires
        m.deliver_at_tick > tick,
    ensures
        split_due(s.push(m), tick).0 == split_due(s, tick).0,
{
    assert(s.push(m).drop_last() =~= s);
}

/// A send schedules what it queues after the link's latency: it keeps what
/// was in flight, in order, and adds at most two copies of the message from
/// `from` to `to` with `payload`; each is due no earlier than `tick` plus the
/// minimum latency, and the first no later than `tick` plus the largest
/// latency. So delivering at any tick before `tick` plus the minimum latency
/// hands out exactly what it would have handed out without the send.
pub proof fn law_send_waits_latency(n: NetState, r: RngState, tick: u64, from: NodeId, to: NodeId, payload: Seq<u8>)
    requires
        n.send_fits(tick),
    ensures
        n.in_flight.len() <= n.send(r, tick, from, to, payload).0.in_flight.len() <= n.in_flight.len() + 2,
        n.send(r, tick, from, to, payload).0.in_flight.take(n.in_flight.len() as int) == n.in_flight,
        forall|i: int|
            n.in_flight.len() <= i < n.send(r, tick, from, to, payload).0.in_flight.len() ==> {
                let m = #[trigger] n.send(r, tick, from, to, payload).0.in_flight[i];
                &&& m.from == from
                &&& m.to == to
                &&& m.payload == payload
                &&& tick + n.config.min_latency_ticks <= m.deliver_at_tick
            },
        n.send(r, tick, from, to, payload).0.in_flight.len() > n.in_flight.len() ==> n.send(
            r,
            tick,
            from,
            to,
            payload,
        ).0.in_flight[n.in_flight.len() as int].deliver_at_tick <= tick + if n.config.min_latency_ticks
            >= n.config.max_latency_ticks {
            n.config.min_latency_ticks
        } else {
            n.config.max_latency_ticks
        },
        forall|t: u64|
            t < tick + n.config.min_latency_ticks ==> #[trigger] split_due(
                n.send(r, tick, from, to, payload).0.in_flight,
                t,
            ).0 == split_due(n.in_flight, t).0,
{
    let after = n.send(r, tick, from, to, payload).0;
    let min = n.config.min_latency_ticks;
    let max = n.config.max_latency_ticks;
    if n.is_partitioned(from, to) {
        assert(after.in_flight.take(n.in_flight.len() as int) =~= n.in_flight);
    } else {
        let (r1, lost) = r.chance(n.config.message_loss_rate);
        if lost {
            assert(after.in_flight.take(n.in_flight.len() as int) =~= n.in_flight);
        } else {
            let (r2, latency) = r1.range(min, max);
            lemma_range(r1, min, max);
            let at = (tick + latency) as u64;
            let m = MessageView { from, to, payload, deliver_at_tick: at };
            let (r3, dup) = r2.chance(n.config.duplication_rate);
            if dup {
                let (r4, extra) = r3.range(min, max);
                lemma_range(r3, min, max);
                let m2 = MessageView { from, to, payload, deliver_at_tick: (at + extra) as u64 };
                assert(after.in_flight == n.in_flight.push(m).push(m2));
                assert(after.in_flight.take(n.in_flight.len() as int) =~= n.in_flight);
                assert forall|t: u64| t < tick + min implies #[trigger] split_due(after.in_flight, t).0
                    == split_due(n.in_flight, t).0 by {
                    lemma_split_due_push_later(n.in_flight, m, t);
                    lemma_split_due_push_later(n.in_flight.push(m), m2, t);
                }
            } else {
                assert(after.in_flight == n.in_flight.push(m));
                assert(after.in_flight.take(n.in_flight.len() as int) =~= n.in_flight);
                assert forall|t: u64| t < tick + min implies #[trigger] split_due(after.in_flight, t).0
                    == split_due(n.in_flight, t).0 by {
                    lemma_split_due_push_later(n.in_flight, m, t);
                }
            }
        }
    }
}

/// A send accounts for the message: either it is dropped, and the drop
/// counter grows by one, or it is queued once, or twice with the duplicate
/// counter grown by one. The configuration, the partitions and the delivered
/// counter stay as they were.
pub proof fn law_send_accounts_for_message(n: NetState, r: RngState, tick: u64, from: NodeId, to: NodeId, payload: Seq<u8>)
    requires
        n.send_fits(tick),
    ensures
        ({
            let after = n.send(r, tick, from, to, payload).0;
            &&& after.config == n.config
            &&& after.partitions == n.partitions
            &&& after.delivered == n.delivered
            &&& (after.in_flight.len() == n.in_flight.len()) <==> (after.dropped == n.dropped + 1)
            &&& after.in_flight.len() > n.in_flight.len() ==> after.dropped == n.dropped
            &&& (after.in_flight.len() == n.in_flight.len() + 2) <==> (after.duplicated == n.duplicated + 1)
            &&& after.in_flight.len() != n.in_flight.len() + 2 ==> after.duplicated == n.duplicated
        }),
{
}

} // verus!
