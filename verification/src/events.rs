//! Domain events and the broadcast bus that fans them out.
//!
//! The bus keeps one pending-event queue per subscriber.  `emit` appends the
//! event to every queue; a subscriber drains its own queue with
//! `take_events`.  This makes the broadcast guarantee a theorem: every emit
//! reaches every subscriber, and each subscriber sees events in emission
//! order.

use vstd::prelude::*;

verus! {

/// An event of the tracker system.  Volumes are in permille (thousandths
/// of full scale, `0..=1000`).
#[derive(Debug, Clone, Copy, PartialEq, Eq, Structural)]
pub enum TrackerEvent {
    /// A step was triggered: (track index, step index).
    StepTriggered(usize, usize),
    /// The tempo changed, in beats per minute.
    BpmChanged(u32),
    /// Playback started (`true`) or stopped (`false`).
    PlaybackStateChanged(bool),
    /// A cell of the pattern grid was edited.
    PatternChanged,
    /// A track's volume changed: (track index, volume in permille).
    TrackVolumeChanged(usize, u32),
}

/// The bus model after one event was broadcast: every subscriber queue of
/// `before` got `e` appended, and no queue was added or dropped.
pub open spec fn emitted(
    before: Seq<Seq<TrackerEvent>>,
    after: Seq<Seq<TrackerEvent>>,
    e: TrackerEvent,
) -> bool {
    &&& after.len() == before.len()
    &&& forall|i: int| 0 <= i < before.len() ==> after[i] == before[i].push(e)
}

/// The bus model after a batch was broadcast in order: every subscriber
/// queue of `before` got the whole of `es` appended.
pub open spec fn emitted_all(
    before: Seq<Seq<TrackerEvent>>,
    after: Seq<Seq<TrackerEvent>>,
    es: Seq<TrackerEvent>,
) -> bool {
    &&& after.len() == before.len()
    &&& forall|i: int| 0 <= i < before.len() ==> after[i] == before[i] + es
}

/// A broadcast point with one pending queue per subscriber.
pub struct EventBus {
    queues: Vec<Vec<TrackerEvent>>,
}

impl View for EventBus {
    type V = Seq<Seq<TrackerEvent>>;

    closed spec fn view(&self) -> Seq<Seq<TrackerEvent>> {
        Seq::new(self.queues@.len(), |i: int| self.queues@[i]@)
    }
}

impl EventBus {
    /// Create a bus with no subscribers.
    pub fn new() -> (bus: EventBus)
        ensures
            bus@ == Seq::<Seq<TrackerEvent>>::empty(),
    {
        let bus = EventBus { queues: Vec::new() };
        proof {
            assert(bus@ =~= Seq::<Seq<TrackerEvent>>::empty());
        }
        bus
    }

    /// Number of registered subscribers.
    pub fn num_subscribers(&self) -> (n: usize)
        ensures
            n == self@.len(),
    {
        self.queues.len()
    }

    /// Register a subscriber.  The returned token indexes the subscriber's
    /// queue in later `take_events` calls.
    pub fn subscribe(&mut self) -> (token: usize)
        ensures
            token == old(self)@.len(),
            final(self)@ == old(self)@.push(Seq::<TrackerEvent>::empty()),
    {
        let token = self.queues.len();
        self.queues.push(Vec::new());
        proof {
            assert(self@ =~= old(self)@.push(Seq::<TrackerEvent>::empty()));
        }
        token
    }

    /// Deliver `event` to every subscriber: it is appended to each queue, so
    /// per-emitter order is preserved and no subscriber is skipped.
    pub fn emit(&mut self, event: TrackerEvent)
        ensures
            emitted(old(self)@, final(self)@, event),
    {
        let n = self.queues.len();
        let mut k: usize = 0;
        while k < n
            invariant
                n == self.queues.len(),
                k <= n,
                self@.len() == old(self)@.len(),
                forall|i: int| 0 <= i < k ==> self@[i] == old(self)@[i].push(event),
                forall|i: int| k <= i < n ==> self@[i] == old(self)@[i],
            decreases n - k,
        {
            let ghost prev = self@;
            let q = &mut self.queues[k];
            q.push(event);
            proof {
                assert(self@ =~= prev.update(k as int, prev[k as int].push(event)));
            }
            k = k + 1;
        }
    }

    /// Drain the pending events of the subscriber behind `token`, in the
    /// order they were emitted.
    pub fn take_events(&mut self, token: usize) -> (events: Vec<TrackerEvent>)
        requires
            token < old(self)@.len(),
        ensures
            events@ == old(self)@[token as int],
            final(self)@ == old(self)@.update(token as int, Seq::<TrackerEvent>::empty()),
    {
        let mut taken: Vec<TrackerEvent> = Vec::new();
        let q = &mut self.queues[token];
        core::mem::swap(q, &mut taken);
        proof {
            assert(self@ =~= old(self)@.update(token as int, Seq::<TrackerEvent>::empty()));
        }
        taken
    }

    /// Read (without draining) how many events are pending for a subscriber.
    pub fn pending_count(&self, token: usize) -> (n: usize)
        requires
            token < self@.len(),
        ensures
            n == self@[token as int].len(),
    {
        self.queues[token].len()
    }
}

impl Default for EventBus {
    /// Same as `EventBus::new`.
    fn default() -> (bus: EventBus)
        ensures
            bus@ == Seq::<Seq<TrackerEvent>>::empty(),
    {
        EventBus::new()
    }
}


/// One broadcast is a batch of one.
pub proof fn lemma_emitted_one(
    before: Seq<Seq<TrackerEvent>>,
    after: Seq<Seq<TrackerEvent>>,
    e: TrackerEvent,
)
    requires
        emitted(before, after, e),
    ensures
        emitted_all(before, after, seq![e]),
{
    assert forall|i: int| 0 <= i < before.len() implies after[i] == before[i] + seq![e] by {
        assert(before[i].push(e) =~= before[i] + seq![e]);
    }
}

/// Extending a broadcast batch: if the bus took the batch `es` and then
/// one more event `e` was emitted, the bus has taken the batch `es + [e]`.
pub proof fn lemma_emitted_all_snoc(
    before: Seq<Seq<TrackerEvent>>,
    mid: Seq<Seq<TrackerEvent>>,
    after: Seq<Seq<TrackerEvent>>,
    es: Seq<TrackerEvent>,
    e: TrackerEvent,
)
    requires
        emitted_all(before, mid, es),
        emitted(mid, after, e),
    ensures
        emitted_all(before, after, es.push(e)),
{
    assert forall|i: int| 0 <= i < before.len() implies after[i] == before[i] + es.push(e) by {
        assert(after[i] == (before[i] + es).push(e));
        assert((before[i] + es).push(e) =~= before[i] + es.push(e));
    }
}

/// The broadcast law: emitting `e1` and then `e2` leaves every subscriber's
/// queue extended by exactly `[e1, e2]`, in that order.  This is the
/// per-emitter ordering guarantee of the bus, stated over the bus model that
/// `emit`'s contract establishes.
pub proof fn lemma_emit_order(
    before: Seq<Seq<TrackerEvent>>,
    mid: Seq<Seq<TrackerEvent>>,
    after: Seq<Seq<TrackerEvent>>,
    e1: TrackerEvent,
    e2: TrackerEvent,
)
    requires
        emitted(before, mid, e1),
        emitted(mid, after, e2),
    ensures
        forall|i: int|
            0 <= i < before.len() ==> after[i] == before[i] + seq![e1, e2],
{
    assert forall|i: int| 0 <= i < before.len() implies after[i] == before[i] + seq![e1, e2] by {
        assert(after[i] =~= before[i] + seq![e1, e2]);
    }
}

} // verus!
