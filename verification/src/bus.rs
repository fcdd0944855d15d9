//! The bounded fan-out event bus and the typed outcome of a receive.
//!
//! The bus is a plain value with one owner: every operation takes it by
//! reference, finishes at once and never waits, so a receive that finds
//! nothing says so instead of blocking. A concurrent program puts the bus
//! behind a lock of its own, or carries the events over a channel of its own
//! and hands the services the same [`Received`] values.

use crate::events::{EventType, EventView};
use vstd::prelude::*;

verus! {

/// What a subscriber gets from one receive.
#[derive(Debug, PartialEq, Eq)]
pub enum Received {
    /// The next event, in publish order.
    Event(EventType),
    /// The subscriber fell behind: this many events were dropped unread.
    LagFault(u64),
    /// Nothing more will ever arrive.
    Closed,
}

/// The mathematical value of a [`Received`].
pub enum ReceivedView {
    Event(EventView),
    LagFault(nat),
    Closed,
}

impl View for Received {
    type V = ReceivedView;

    open spec fn view(&self) -> ReceivedView {
        match self {
            Received::Event(event) => ReceivedView::Event(event@),
            Received::LagFault(skipped) => ReceivedView::LagFault(*skipped as nat),
            Received::Closed => ReceivedView::Closed,
        }
    }
}

impl DeepView for Received {
    type V = ReceivedView;

    #[verifier::inline]
    open spec fn deep_view(&self) -> ReceivedView {
        self.view()
    }
}

/// The handle of one subscription.
#[derive(Debug, Clone, Copy, PartialEq, Eq, Structural)]
pub struct SubscriberId {
    pub index: usize,
}

/// Why a publish was refused.
#[derive(Debug, Clone, Copy, PartialEq, Eq, Structural)]
pub enum BusError {
    /// The bus has been closed.
    Closed,
    /// The bus has handed out its last position.
    Exhausted,
}

/// The mathematical value of an [`EventBus`]. Every accepted event has a
/// position, counted from zero in publish order; the bus retains the last
/// `capacity` of them.
pub struct BusView {
    /// How many events the bus retains.
    pub capacity: nat,
    /// Every event accepted so far, by position.
    pub history: Seq<EventView>,
    /// For each handle given out, the position it reads next, or `None` once
    /// it has unsubscribed.
    pub cursors: Seq<Option<nat>>,
    /// Whether the bus has been closed.
    pub closed: bool,
}

impl BusView {
    /// A bus of the given capacity on which nothing has happened yet.
    pub open spec fn initial(capacity: nat) -> BusView {
        BusView { capacity, history: Seq::empty(), cursors: Seq::empty(), closed: false }
    }

    /// The write position: the position the next accepted event will get.
    pub open spec fn head(self) -> nat {
        self.history.len()
    }

    /// The position of the oldest event still retained.
    pub open spec fn oldest(self) -> nat {
        if self.head() <= self.capacity {
            0
        } else {
            (self.head() - self.capacity) as nat
        }
    }

    /// Whether `id` names a subscription that has not been given up.
    pub open spec fn is_live(self, id: int) -> bool {
        0 <= id < self.cursors.len() && self.cursors[id] is Some
    }

    /// The position that the live subscription `id` reads next.
    pub open spec fn cursor(self, id: int) -> nat {
        self.cursors[id]->0
    }

    /// The bus retains at least one event, and no subscription is ahead of
    /// the write position.
    pub open spec fn wf(self) -> bool {
        &&& self.capacity >= 1
        &&& forall|id: int| #[trigger] self.is_live(id) ==> self.cursor(id) <= self.head()
    }

    /// How many events the subscription `id` has lost: those it has not read
    /// and the bus no longer retains.
    pub open spec fn skipped(self, id: int) -> nat {
        if self.cursor(id) < self.oldest() {
            (self.oldest() - self.cursor(id)) as nat
        } else {
            0
        }
    }

    /// The events that the subscription `id` has still to read, in the order
    /// in which it will read them.
    pub open spec fn pending(self, id: int) -> Seq<EventView> {
        let from = if self.cursor(id) < self.oldest() {
            self.oldest()
        } else {
            self.cursor(id)
        };
        self.history.subrange(from as int, self.head() as int)
    }

    /// Whether a publish is accepted: the bus is open and has a position
    /// left to give.
    pub open spec fn accepts(self) -> bool {
        !self.closed && self.head() < u64::MAX
    }

    /// The bus after `event` has been accepted: it takes the write position,
    /// and no cursor moves.
    pub open spec fn after_publish(self, event: EventView) -> BusView {
        BusView { history: self.history.push(event), ..self }
    }

    /// Whether `count` publishes in a row are accepted.
    pub open spec fn accepts_all(self, count: nat) -> bool {
        !self.closed && self.head() + count <= u64::MAX
    }

    /// The bus after the events of `events` have been accepted in order.
    pub open spec fn after_publish_all(self, events: Seq<EventView>) -> BusView {
        BusView { history: self.history + events, ..self }
    }

    /// The bus after one more subscription, which starts at the write
    /// position.
    pub open spec fn after_subscribe(self) -> BusView {
        BusView { cursors: self.cursors.push(Some(self.head())), ..self }
    }

    /// The bus after the subscription `id` has been given up.
    pub open spec fn after_unsubscribe(self, id: int) -> BusView {
        if self.is_live(id) {
            BusView { cursors: self.cursors.update(id, None), ..self }
        } else {
            self
        }
    }

    /// What one receive hands the subscription `id`: a lag fault with the
    /// number of events lost, if it has lost any; else the event at its
    /// cursor, if there is one; else `Closed` if there never will be one; and
    /// nothing while the bus is open and the subscription has read
    /// everything. A handle that is not live reads `Closed`.
    pub open spec fn delivery(self, id: int) -> Option<ReceivedView> {
        if !self.is_live(id) {
            Some(ReceivedView::Closed)
        } else if self.cursor(id) < self.oldest() {
            Some(ReceivedView::LagFault(self.skipped(id)))
        } else if self.cursor(id) < self.head() {
            Some(ReceivedView::Event(self.history[self.cursor(id) as int]))
        } else if self.closed {
            Some(ReceivedView::Closed)
        } else {
            None
        }
    }

    /// The bus after one receive by the subscription `id`: a lag fault moves
    /// the cursor to the oldest retained event, an event moves it by one, and
    /// nothing else changes.
    pub open spec fn after_receive(self, id: int) -> BusView {
        if !self.is_live(id) {
            self
        } else if self.cursor(id) < self.oldest() {
            BusView { cursors: self.cursors.update(id, Some(self.oldest())), ..self }
        } else if self.cursor(id) < self.head() {
            BusView { cursors: self.cursors.update(id, Some(self.cursor(id) + 1)), ..self }
        } else {
            self
        }
    }

    /// The bus after the subscription `id` has received `count` times.
    pub open spec fn after_receives(self, id: int, count: nat) -> BusView
        decreases count,
    {
        if count == 0 {
            self
        } else {
            self.after_receive(id).after_receives(id, (count - 1) as nat)
        }
    }

    /// What `count` receives in a row hand the subscription `id`, in order.
    pub open spec fn deliveries(self, id: int, count: nat) -> Seq<Option<ReceivedView>>
        decreases count,
    {
        if count == 0 {
            Seq::empty()
        } else {
            seq![self.delivery(id)] + self.after_receive(id).deliveries(id, (count - 1) as nat)
        }
    }

    /// Fan-out delivery, at the publish: an accepted event becomes the last
    /// thing that every subscriber registered before it has still to read.
    /// It moves no cursor, and what a subscriber had to read before stays in
    /// front of it, in order; only a subscriber that had a full window unread
    /// loses the oldest event of the window.
    pub proof fn lemma_fan_out(self, event: EventView, id: int)
        requires
            self.wf(),
            self.is_live(id),
        ensures
            self.after_publish(event).is_live(id),
            self.after_publish(event).cursor(id) == self.cursor(id),
            self.pending(id).len() <= self.capacity,
            self.after_publish(event).pending(id).len() >= 1,
            self.after_publish(event).pending(id).last() == event,
            self.pending(id).len() < self.capacity ==> self.after_publish(event).pending(id)
                == self.pending(id).push(event),
            self.pending(id).len() == self.capacity ==> self.after_publish(event).pending(id)
                == self.pending(id).drop_first().push(event),
    {
    }

    /// Fan-out delivery, at the receive: a subscriber that has lost nothing
    /// reads the first event it has to read, which then leaves what it has to
    /// read; the history, the other cursors and what the others have to read
    /// stay as they are.
    pub proof fn lemma_receive_in_order(self, id: int)
        requires
            self.wf(),
            self.is_live(id),
            self.skipped(id) == 0,
            self.pending(id).len() > 0,
        ensures
            self.delivery(id) == Some(ReceivedView::Event(self.pending(id).first())),
            self.after_receive(id).pending(id) == self.pending(id).drop_first(),
            self.after_receive(id).skipped(id) == 0,
            self.after_receive(id).history == self.history,
            forall|other: int|
                other != id && self.is_live(other) ==> {
                    &&& (#[trigger] self.after_receive(id).is_live(other))
                    &&& self.after_receive(id).cursor(other) == self.cursor(other)
                    &&& self.after_receive(id).pending(other) == self.pending(other)
                },
    {
    }

    /// Fan-out delivery, over time: a subscriber that has lost nothing and
    /// receives once for each event it has to read is handed exactly those
    /// events, each once, in publish order, and has nothing left to read.
    pub proof fn lemma_drain(self, id: int)
        requires
            self.wf(),
            self.is_live(id),
            self.skipped(id) == 0,
        ensures
            self.deliveries(id, self.pending(id).len()) == self.pending(id).map_values(
                |event: EventView| Some(ReceivedView::Event(event)),
            ),
            self.after_receives(id, self.pending(id).len()).pending(id).len() == 0,
            self.after_receives(id, self.pending(id).len()).history == self.history,
        decreases self.pending(id).len(),
    {
        if self.pending(id).len() > 0 {
            self.lemma_receive_in_order(id);
            self.lemma_operations_keep_wf(EventView::Shutdown, id);
            self.after_receive(id).lemma_drain(id);
        }
    }

    /// No receive moves a cursor backwards, and a receive moves no cursor but
    /// that of the subscription that receives; publishing moves none.
    pub proof fn lemma_cursors_only_advance(self, event: EventView, id: int, other: int)
        requires
            self.wf(),
            self.is_live(other),
        ensures
            self.after_receive(id).is_live(other),
            self.after_receive(id).cursor(other) >= self.cursor(other),
            other != id ==> self.after_receive(id).cursor(other) == self.cursor(other),
            self.after_publish(event).cursor(other) == self.cursor(other),
    {
    }

    /// Lag skip accounting: a subscriber that has fallen more than the
    /// capacity behind is handed a lag fault that counts exactly the events
    /// it has not read and the bus no longer retains. Its next receive hands
    /// it the oldest retained event, whose position lies beyond everything it
    /// has read.
    pub proof fn lemma_lag_accounting(self, id: int)
        requires
            self.wf(),
            self.is_live(id),
            self.head() - self.cursor(id) > self.capacity,
        ensures
            self.delivery(id) == Some(
                ReceivedView::LagFault((self.head() - self.cursor(id) - self.capacity) as nat),
            ),
            self.after_receive(id).cursor(id) == self.oldest(),
            self.after_receive(id).skipped(id) == 0,
            self.after_receive(id).delivery(id) == Some(
                ReceivedView::Event(self.history[self.oldest() as int]),
            ),
            self.oldest() > self.cursor(id),
            self.after_receive(id).pending(id) == self.history.subrange(
                self.oldest() as int,
                self.head() as int,
            ),
            self.after_receive(id).pending(id).len() == self.capacity,
    {
    }

    /// Every operation keeps the bus well formed.
    pub proof fn lemma_operations_keep_wf(self, event: EventView, id: int)
        requires
            self.wf(),
        ensures
            self.after_publish(event).wf(),
            self.after_subscribe().wf(),
            self.after_unsubscribe(id).wf(),
            self.after_receive(id).wf(),
            (BusView { closed: true, ..self }).wf(),
    {
        assert forall|other: int| #[trigger]
            self.after_publish(event).is_live(other) implies self.after_publish(event).cursor(other)
            <= self.after_publish(event).head() by {
            assert(self.is_live(other));
        }
        assert forall|other: int| #[trigger]
            self.after_subscribe().is_live(other) implies self.after_subscribe().cursor(other)
            <= self.after_subscribe().head() by {
            if other < self.cursors.len() {
                assert(self.is_live(other));
            }
        }
        assert forall|other: int| #[trigger]
            self.after_unsubscribe(id).is_live(other) implies self.after_unsubscribe(id).cursor(
            other,
        ) <= self.after_unsubscribe(id).head() by {
            assert(self.is_live(other));
        }
        assert forall|other: int| #[trigger]
            self.after_receive(id).is_live(other) implies self.after_receive(id).cursor(other)
            <= self.after_receive(id).head() by {
            assert(self.is_live(other));
        }
        let shut = BusView { closed: true, ..self };
        assert forall|other: int| #[trigger] shut.is_live(other) implies shut.cursor(other)
            <= shut.head() by {
            assert(self.is_live(other));
        }
    }
}

/// The slot in which a bus of the given capacity keeps the event at `position`.
spec fn slot_of(position: int, capacity: int) -> int {
    position % capacity
}

/// A slot lies below the capacity, and a position below the capacity is its
/// own slot.
proof fn lemma_slot_bounds(p: int, capacity: int)
    requires
        capacity > 0,
        0 <= p,
    ensures
        0 <= slot_of(p, capacity) < capacity,
        p < capacity ==> slot_of(p, capacity) == p,
{
    vstd::arithmetic::div_mod::lemma_mod_pos_bound(p, capacity);
    if p < capacity {
        vstd::arithmetic::div_mod::lemma_small_mod(p as nat, capacity as nat);
    }
}

/// Two positions less than a capacity apart fall into different slots.
proof fn lemma_distinct_slots(p: int, q: int, capacity: int)
    requires
        capacity > 0,
        0 <= p < q,
        q - p < capacity,
    ensures
        slot_of(p, capacity) != slot_of(q, capacity),
{
    if p % capacity == q % capacity {
        let a = p / capacity;
        let b = q / capacity;
        assert(p == capacity * a + p % capacity) by (nonlinear_arith)
            requires
                capacity > 0,
                a == p / capacity,
        ;
        assert(q == capacity * b + q % capacity) by (nonlinear_arith)
            requires
                capacity > 0,
                b == q / capacity,
        ;
        assert(q - p == capacity * (b - a)) by (nonlinear_arith)
            requires
                p == capacity * a + p % capacity,
                q == capacity * b + q % capacity,
                p % capacity == q % capacity,
        ;
        assert(false) by (nonlinear_arith)
            requires
                q - p == capacity * (b - a),
                0 < q - p < capacity,
                capacity > 0,
        ;
    }
}

/// A bounded fan-out bus: every accepted event is kept for every subscriber
/// until `capacity` later events have pushed it out. Publishers never wait for
/// a subscriber.
pub struct EventBus {
    capacity: usize,
    /// The retained events; the event at position `p` lies in slot
    /// `p % capacity`.
    slots: Vec<EventType>,
    head: u64,
    cursors: Vec<Option<u64>>,
    closed: bool,
    history: Ghost<Seq<EventView>>,
}

impl View for EventBus {
    type V = BusView;

    closed spec fn view(&self) -> BusView {
        BusView {
            capacity: self.capacity as nat,
            history: self.history@,
            cursors: Seq::new(
                self.cursors.len() as nat,
                |i: int|
                    match self.cursors[i] {
                        Some(position) => Some(position as nat),
                        None => None,
                    },
            ),
            closed: self.closed,
        }
    }
}

impl EventBus {
    /// The bus is consistent: its value is well formed, and the slots hold
    /// the retained part of the history.
    pub closed spec fn wf(&self) -> bool {
        &&& self@.wf()
        &&& self.head == self.history@.len()
        &&& self.slots.len() == if self.head <= self.capacity {
            self.head as int
        } else {
            self.capacity as int
        }
        &&& forall|p: int|
            self@.oldest() <= p < self.head ==> self.slots[slot_of(p, self.capacity as int)]@
                == #[trigger] self.history@[p]
    }

    /// A consistent bus has a well-formed value.
    pub proof fn lemma_wf(&self)
        requires
            self.wf(),
        ensures
            self@.wf(),
    {
    }

    /// A bus that retains the last `capacity` events.
    pub fn new(capacity: usize) -> (bus: Self)
        requires
            capacity >= 1,
        ensures
            bus.wf(),
            bus@ == BusView::initial(capacity as nat),
    {
        let bus = EventBus {
            capacity,
            slots: Vec::new(),
            head: 0,
            cursors: Vec::new(),
            closed: false,
            history: Ghost(Seq::empty()),
        };
        assert(bus@.cursors =~= Seq::<Option<nat>>::empty());
        bus
    }

    /// How many events the bus retains.
    pub fn capacity(&self) -> (capacity: usize)
        ensures
            capacity == self@.capacity,
    {
        self.capacity
    }

    /// Whether the bus has been closed.
    pub fn is_closed(&self) -> (closed: bool)
        ensures
            closed == self@.closed,
    {
        self.closed
    }

    /// Closes the bus: nothing more is accepted, and a subscriber that has
    /// read everything reads `Closed`.
    pub fn close(&mut self)
        requires
            old(self).wf(),
        ensures
            final(self).wf(),
            final(self)@ == (BusView { closed: true, ..old(self)@ }),
    {
        self.closed = true;
        proof {
            old(self)@.lemma_operations_keep_wf(EventView::Shutdown, 0);
        }
    }

    /// Registers a subscriber, which will see every event accepted from now
    /// on.
    pub fn subscribe(&mut self) -> (id: SubscriberId)
        requires
            old(self).wf(),
        ensures
            final(self).wf(),
            id.index == old(self)@.cursors.len(),
            final(self)@ == old(self)@.after_subscribe(),
    {
        let index = self.cursors.len();
        self.cursors.push(Some(self.head));
        proof {
            assert(self@.cursors =~= old(self)@.after_subscribe().cursors);
            old(self)@.lemma_operations_keep_wf(EventView::Shutdown, 0);
        }
        SubscriberId { index }
    }

    /// Gives up a subscription. A handle that is not live is left alone.
    pub fn unsubscribe(&mut self, id: SubscriberId)
        requires
            old(self).wf(),
        ensures
            final(self).wf(),
            final(self)@ == old(self)@.after_unsubscribe(id.index as int),
    {
        if id.index < self.cursors.len() {
            self.cursors.set(id.index, None);
            proof {
                assert(self@.cursors =~= old(self)@.after_unsubscribe(id.index as int).cursors);
                old(self)@.lemma_operations_keep_wf(EventView::Shutdown, id.index as int);
            }
        }
    }

    /// Publishes `event` to every subscriber. With no subscriber the event
    /// goes unread; that is no error.
    pub fn publish(&mut self, event: EventType) -> (result: Result<(), BusError>)
        requires
            old(self).wf(),
        ensures
            final(self).wf(),
            match result {
                Ok(()) => old(self)@.accepts() && final(self)@ == old(self)@.after_publish(event@),
                Err(BusError::Closed) => old(self)@.closed && final(self)@ == old(self)@,
                Err(BusError::Exhausted) => {
                    &&& !old(self)@.closed
                    &&& old(self)@.head() == u64::MAX
                    &&& final(self)@ == old(self)@
                },
            },
    {
        if self.closed {
            return Err(BusError::Closed);
        }
        if self.head == u64::MAX {
            return Err(BusError::Exhausted);
        }
        let ghost before = *self;
        let ghost capacity = self.capacity as int;
        let ghost head = self.head as int;
        let slot: usize = (self.head % (self.capacity as u64)) as usize;
        proof {
            lemma_slot_bounds(head, capacity);
        }
        if self.slots.len() < self.capacity {
            self.slots.push(event);
        } else {
            self.slots.set(slot, event);
        }
        self.head = self.head + 1;
        self.history = Ghost(self.history@.push(event@));
        proof {
            before@.lemma_operations_keep_wf(event@, 0);
            assert forall|p: int| self@.oldest() <= p < self.head implies self.slots[slot_of(
                p,
                capacity,
            )]@ == #[trigger] self.history@[p] by {
                lemma_slot_bounds(p, capacity);
                if p < head {
                    lemma_distinct_slots(p, head, capacity);
                }
            }
        }
        Ok(())
    }

    /// Publishes the events of `events` in order, or none of them where the
    /// bus cannot take them all.
    pub fn publish_all(&mut self, events: Vec<EventType>) -> (result: Result<(), BusError>)
        requires
            old(self).wf(),
        ensures
            final(self).wf(),
            match result {
                Ok(()) => {
                    &&& old(self)@.accepts_all(events.len() as nat)
                    &&& final(self)@ == old(self)@.after_publish_all(events.deep_view())
                },
                Err(BusError::Closed) => old(self)@.closed && final(self)@ == old(self)@,
                Err(BusError::Exhausted) => {
                    &&& !old(self)@.closed
                    &&& old(self)@.head() + events.len() > u64::MAX
                    &&& final(self)@ == old(self)@
                },
            },
    {
        if self.closed {
            return Err(BusError::Closed);
        }
        if events.len() as u64 > u64::MAX - self.head {
            return Err(BusError::Exhausted);
        }
        let ghost all = events.deep_view();
        let ghost given = events@;
        for event in it: events.into_iter()
            invariant
                self.wf(),
                it.seq() == given,
                all.len() == given.len(),
                forall|k: int| 0 <= k < given.len() ==> given[k]@ == all[k],
                !self@.closed,
                old(self)@.head() + all.len() <= u64::MAX,
                self@ == old(self)@.after_publish_all(all.take(it.index() as int)),
        {
            let ghost sofar = it.index() as int;
            let accepted = self.publish(event);
            assert(accepted is Ok);
            assert(self@.history =~= old(self)@.history + all.take(sofar + 1));
        }
        assert(all.take(all.len() as int) =~= all);
        Ok(())
    }

    /// Hands the subscriber its next item, if there is one now.
    pub fn receive(&mut self, id: SubscriberId) -> (out: Option<Received>)
        requires
            old(self).wf(),
        ensures
            final(self).wf(),
            out.deep_view() == old(self)@.delivery(id.index as int),
            final(self)@ == old(self)@.after_receive(id.index as int),
    {
        if id.index >= self.cursors.len() {
            return Some(Received::Closed);
        }
        let cursor: u64 = match self.cursors[id.index] {
            Some(position) => position,
            None => {
                return Some(Received::Closed);
            },
        };
        proof {
            old(self)@.lemma_operations_keep_wf(EventView::Shutdown, id.index as int);
        }
        let oldest: u64 = if self.head > self.capacity as u64 {
            self.head - self.capacity as u64
        } else {
            0
        };
        if cursor < oldest {
            self.cursors.set(id.index, Some(oldest));
            assert(self@.cursors =~= old(self)@.after_receive(id.index as int).cursors);
            Some(Received::LagFault(oldest - cursor))
        } else if cursor < self.head {
            let slot: usize = (cursor % (self.capacity as u64)) as usize;
            proof {
                lemma_slot_bounds(cursor as int, self.capacity as int);
            }
            let event = self.slots[slot].clone();
            self.cursors.set(id.index, Some(cursor + 1));
            assert(self@.cursors =~= old(self)@.after_receive(id.index as int).cursors);
            Some(Received::Event(event))
        } else if self.closed {
            Some(Received::Closed)
        } else {
            None
        }
    }
}

} // verus!
