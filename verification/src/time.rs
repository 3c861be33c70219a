//! Simulated time source: fully controlled and compressible. In simulation
//! "sleeping" is free; the clock is simply advanced.
use vstd::prelude::*;

verus! {

broadcast use vstd::seq_lib::group_to_multiset_ensures;

/// An event scheduled to fire at `tick`; events order by tick, then by id.
#[derive(Clone, Copy, Debug, PartialEq, Eq, Structural)]
pub struct ScheduledEvent {
    pub tick: u64,
    pub id: u64,
}

/// The order in which events fire: by tick, then by id.
pub open spec fn event_le(a: ScheduledEvent, b: ScheduledEvent) -> bool {
    a.tick < b.tick || (a.tick == b.tick && a.id <= b.id)
}

/// Whether `s` is in firing order.
pub open spec fn fires_in_order(s: Seq<ScheduledEvent>) -> bool {
    forall|i: int, j: int| 0 <= i < j < s.len() ==> event_le(s[i], s[j])
}

/// `s` with `e` placed after every event that fires no later than `e`.
pub open spec fn insert_in_order(s: Seq<ScheduledEvent>, e: ScheduledEvent) -> Seq<ScheduledEvent>
    decreases s.len(),
{
    if s.len() == 0 {
        seq![e]
    } else if event_le(s[0], e) {
        seq![s[0]] + insert_in_order(s.drop_first(), e)
    } else {
        seq![e] + s
    }
}

/// The mathematical state of a clock: the current tick and the pending events
/// in firing order.
pub struct ClockState {
    pub tick: u64,
    pub events: Seq<ScheduledEvent>,
}

impl ClockState {
    /// Pending events are kept in firing order.
    pub open spec fn valid(self) -> bool {
        fires_in_order(self.events)
    }

    /// The event that `next_due_event` hands out, if any.
    pub open spec fn due_event(self) -> Option<ScheduledEvent> {
        if self.events.len() > 0 && self.events[0].tick <= self.tick {
            Some(self.events[0])
        } else {
            None
        }
    }

    /// The state after `next_due_event`.
    pub open spec fn after_due_event(self) -> ClockState {
        if self.due_event() is Some {
            ClockState { tick: self.tick, events: self.events.drop_first() }
        } else {
            self
        }
    }

    /// The tick of the earliest pending event, if any.
    pub open spec fn next_event_tick(self) -> Option<u64> {
        if self.events.len() > 0 {
            Some(self.events[0].tick)
        } else {
            None
        }
    }

    /// The state after scheduling event `id` at `at_tick`.
    pub open spec fn schedule(self, at_tick: u64, id: u64) -> ClockState {
        ClockState {
            tick: self.tick,
            events: insert_in_order(self.events, ScheduledEvent { tick: at_tick, id }),
        }
    }
}

/// Calling `next_due_event` until it returns `None`: the events it hands
/// out, in order, and the clock afterwards.
pub open spec fn drain_due(c: ClockState) -> (Seq<ScheduledEvent>, ClockState)
    decreases c.events.len(),
{
    match c.due_event() {
        Some(e) => {
            let (rest, last) = drain_due(c.after_due_event());
            (seq![e] + rest, last)
        },
        None => (Seq::empty(), c),
    }
}

/// Draining the due events hands out exactly the pending events whose tick
/// has come, earliest first (equal ticks by id), and leaves exactly the
/// others pending, at the same tick: a prefix `k` of the firing order is due,
/// the rest is not.
pub proof fn law_drain_hands_out_due_events(c: ClockState)
    requires
        c.valid(),
    ensures
        ({
            let (out, after) = drain_due(c);
            let k = out.len() as int;
            &&& k <= c.events.len()
            &&& out == c.events.take(k)
            &&& after == (ClockState { tick: c.tick, events: c.events.skip(k) })
            &&& forall|i: int| 0 <= i < k ==> (#[trigger] c.events[i]).tick <= c.tick
            &&& forall|i: int| k <= i < c.events.len() ==> (#[trigger] c.events[i]).tick > c.tick
            &&& fires_in_order(out)
        }),
    decreases c.events.len(),
{
    match c.due_event() {
        Some(e) => {
            let c1 = c.after_due_event();
            assert(c1.events == c.events.drop_first());
            assert(c1.valid()) by {
                assert forall|i: int, j: int| 0 <= i < j < c1.events.len() implies event_le(
                    c1.events[i],
                    c1.events[j],
                ) by {
                    assert(event_le(c.events[i + 1], c.events[j + 1]));
                }
            }
            law_drain_hands_out_due_events(c1);
            let (rest, last) = drain_due(c1);
            let k = rest.len() as int;
            assert(seq![e] + rest =~= c.events.take(k + 1));
            assert(c1.events.skip(k) =~= c.events.skip(k + 1));
            assert forall|i: int| 0 <= i < k + 1 implies (#[trigger] c.events[i]).tick <= c.tick by {
                if i > 0 {
                    assert(c.events[i] == c1.events[i - 1]);
                }
            }
            assert forall|i: int| k + 1 <= i < c.events.len() implies (#[trigger] c.events[i]).tick
                > c.tick by {
                assert(c.events[i] == c1.events[i - 1]);
            }
            assert(fires_in_order(seq![e] + rest)) by {
                assert forall|i: int, j: int| 0 <= i < j < (seq![e] + rest).len() implies event_le(
                    (seq![e] + rest)[i],
                    (seq![e] + rest)[j],
                ) by {
                    assert((seq![e] + rest)[i] == c.events[i]);
                    assert((seq![e] + rest)[j] == c.events[j]);
                }
            }
        },
        None => {
            assert(c.events.take(0) =~= Seq::<ScheduledEvent>::empty());
            assert(c.events.skip(0) =~= c.events);
            if c.events.len() > 0 {
                assert forall|i: int| 0 <= i < c.events.len() implies (#[trigger] c.events[i]).tick
                    > c.tick by {
                    assert(event_le(c.events[0], c.events[i]) || i == 0);
                }
            }
        },
    }
}

/// Simulated time source with a queue of scheduled events.
#[derive(Debug)]
pub struct SimulatedClock {
    tick: u64,
    events: Vec<ScheduledEvent>,
}

impl View for SimulatedClock {
    type V = ClockState;

    closed spec fn view(&self) -> ClockState {
        ClockState { tick: self.tick, events: self.events@ }
    }
}

proof fn lemma_insert_at(s: Seq<ScheduledEvent>, e: ScheduledEvent, k: int)
    requires
        0 <= k <= s.len(),
        forall|i: int| 0 <= i < k ==> event_le(#[trigger] s[i], e),
        k == s.len() || !event_le(s[k], e),
    ensures
        insert_in_order(s, e) == s.take(k) + seq![e] + s.skip(k),
    decreases k,
{
    if k == 0 {
        assert(s.take(0) + seq![e] + s.skip(0) =~= seq![e] + s);
    } else {
        let t = s.drop_first();
        assert forall|i: int| 0 <= i < k - 1 implies event_le(#[trigger] t[i], e) by {
            assert(t[i] == s[i + 1]);
        }
        lemma_insert_at(t, e, k - 1);
        assert(seq![s[0]] + (t.take(k - 1) + seq![e] + t.skip(k - 1)) =~= s.take(k) + seq![e]
            + s.skip(k));
    }
}

fn fires_no_later(a: &ScheduledEvent, b: &ScheduledEvent) -> (r: bool)
    ensures
        r == event_le(*a, *b),
{
    a.tick < b.tick || (a.tick == b.tick && a.id <= b.id)
}

impl SimulatedClock {
    #[verifier::type_invariant]
    closed spec fn in_order(self) -> bool {
        fires_in_order(self.events@)
    }

    pub fn new() -> (c: Self)
        ensures
            c@ == (ClockState { tick: 0, events: Seq::empty() }),
            c@.valid(),
    {
        SimulatedClock { tick: 0, events: Vec::new() }
    }

    pub fn now(&self) -> (t: u64)
        ensures
            t == self@.tick,
    {
        self.tick
    }

    /// Moves the clock forward by `ticks`.
    pub fn advance(&mut self, ticks: u64)
        requires
            old(self)@.tick + ticks <= u64::MAX,
        ensures
            final(self)@ == (ClockState { tick: (old(self)@.tick + ticks) as u64, ..old(self)@ }),
            final(self)@.valid(),
    {
        proof {
            use_type_invariant(&*self);
        }
        self.tick = self.tick + ticks;
    }

    /// Moves the clock to `tick`, which is not in the past.
    pub fn advance_to(&mut self, tick: u64)
        requires
            tick >= old(self)@.tick,
        ensures
            final(self)@ == (ClockState { tick, ..old(self)@ }),
            final(self)@.valid(),
    {
        proof {
            use_type_invariant(&*self);
        }
        self.tick = tick;
    }

    /// Schedules event `event_id` to fire at `at_tick`.
    pub fn schedule(&mut self, at_tick: u64, event_id: u64)
        ensures
            final(self)@ == old(self)@.schedule(at_tick, event_id),
            final(self)@.valid(),
    {
        proof {
            use_type_invariant(&*self);
        }
        let e = ScheduledEvent { tick: at_tick, id: event_id };
        let ghost s = self.events@;
        let mut k: usize = 0;
        while k < self.events.len() && fires_no_later(&self.events[k], &e)
            invariant
                k <= self.events@.len(),
                self.events@ == s,
                forall|i: int| 0 <= i < k ==> event_le(#[trigger] s[i], e),
            decreases self.events@.len() - k,
        {
            k = k + 1;
        }
        proof {
            lemma_insert_at(s, e, k as int);
        }
        let mut events = Vec::new();
        std::mem::swap(&mut events, &mut self.events);
        events.insert(k, e);
        assert(events@ =~= s.take(k as int) + seq![e] + s.skip(k as int));
        assert(fires_in_order(events@)) by {
            assert forall|i: int, j: int| 0 <= i < j < events@.len() implies event_le(
                events@[i],
                events@[j],
            ) by {
                if j < k {
                    assert(event_le(s[i], s[j]));
                } else if j == k {
                    assert(event_le(s[i], e));
                } else if i < k {
                    assert(event_le(s[i], s[j - 1]));
                } else if i == k {
                    assert(!event_le(s[k as int], e));
                    if k < j - 1 {
                        assert(event_le(s[k as int], s[j - 1]));
                    }
                } else {
                    assert(event_le(s[i - 1], s[j - 1]));
                }
            }
        }
        self.events = events;
    }

    /// Pops the earliest pending event if it is due at or before the current tick.
    pub fn next_due_event(&mut self) -> (ev: Option<ScheduledEvent>)
        ensures
            ev == old(self)@.due_event(),
            final(self)@ == old(self)@.after_due_event(),
            final(self)@.valid(),
    {
        proof {
            use_type_invariant(&*self);
        }
        if self.events.len() > 0 && self.events[0].tick <= self.tick {
            let ghost s = self.events@;
            let mut events = Vec::new();
            std::mem::swap(&mut events, &mut self.events);
            let e = events.remove(0);
            assert(events@ =~= s.drop_first());
            self.events = events;
            Some(e)
        } else {
            None
        }
    }

    /// When the earliest pending event fires, if any.
    pub fn next_event_tick(&self) -> (t: Option<u64>)
        ensures
            t == self@.next_event_tick(),
    {
        if self.events.len() > 0 {
            Some(self.events[0].tick)
        } else {
            None
        }
    }

    /// Advances to the earliest pending event and pops it.
    pub fn advance_to_next_event(&mut self) -> (ev: Option<ScheduledEvent>)
        requires
            old(self)@.events.len() > 0 ==> old(self)@.events[0].tick >= old(self)@.tick,
        ensures
            old(self)@.events.len() == 0 ==> ev is None && final(self)@ == old(self)@,
            old(self)@.events.len() > 0 ==> ev == Some(old(self)@.events[0]) && final(self)@ == (
            ClockState { tick: old(self)@.events[0].tick, events: old(self)@.events.drop_first() }),
            final(self)@.valid(),
    {
        proof {
            use_type_invariant(&*self);
        }
        if let Some(tick) = self.next_event_tick() {
            self.advance_to(tick);
            self.next_due_event()
        } else {
            None
        }
    }

    pub fn pending_events(&self) -> (n: usize)
        ensures
            n == self@.events.len(),
    {
        self.events.len()
    }
}

impl Default for SimulatedClock {
    fn default() -> (c: Self)
        ensures
            c@ == (ClockState { tick: 0, events: Seq::empty() }),
    {
        SimulatedClock::new()
    }
}

/// Scheduling leaves the current tick alone.
pub proof fn law_schedule_keeps_tick(c: ClockState)
    ensures
        forall|at: u64, id: u64| #[trigger] c.schedule(at, id).tick == c.tick,
{
}

/// Scheduling adds exactly the new event to the pending ones.
pub proof fn law_schedule_adds_event(c: ClockState, at_tick: u64, id: u64)
    ensures
        c.schedule(at_tick, id).events.to_multiset() == c.events.to_multiset().insert(
            ScheduledEvent { tick: at_tick, id },
        ),
    decreases c.events.len(),
{
    let e = ScheduledEvent { tick: at_tick, id };
    let s = c.events;
    if s.len() == 0 {
        assert(seq![e] =~= Seq::<ScheduledEvent>::empty().push(e));
    } else if event_le(s[0], e) {
        let rest = ClockState { tick: c.tick, events: s.drop_first() };
        law_schedule_adds_event(rest, at_tick, id);
        assert(s =~= seq![s[0]] + s.drop_first());
        vstd::seq_lib::lemma_multiset_commutative(seq![s[0]], s.drop_first());
        vstd::seq_lib::lemma_multiset_commutative(seq![s[0]], insert_in_order(s.drop_first(), e));
        assert(seq![s[0]] =~= Seq::<ScheduledEvent>::empty().push(s[0]));
    } else {
        vstd::seq_lib::lemma_multiset_commutative(seq![e], s);
        assert(seq![e] =~= Seq::<ScheduledEvent>::empty().push(e));
    }
}

/// The event handed out is the earliest pending one: no pending event fires
/// before it.
pub proof fn law_due_event_is_earliest(c: ClockState)
    requires
        c.valid(),
    ensures
        c.due_event() matches Some(e) ==> forall|i: int|
            0 <= i < c.events.len() ==> event_le(e, #[trigger] c.events[i]),
{
    if c.due_event() is Some {
        assert forall|i: int| 0 <= i < c.events.len() implies event_le(
            c.events[0],
            #[trigger] c.events[i],
        ) by {
            if i > 0 {
                assert(event_le(c.events[0], c.events[i]));
            }
        }
    }
}

/// Events fire in order: of two events handed out one after the other, the
/// first fires no later than the second.
pub proof fn law_events_fire_in_order(c: ClockState)
    requires
        c.valid(),
    ensures
        c.due_event() matches Some(e1) ==> (c.after_due_event().due_event() matches Some(e2)
            ==> event_le(e1, e2)),
{
    if c.due_event() is Some && c.after_due_event().due_event() is Some {
        assert(c.after_due_event().events[0] == c.events[1]);
        assert(event_le(c.events[0], c.events[1]));
    }
}

} // verus!
