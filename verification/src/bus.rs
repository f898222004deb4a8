use crate::assoc::{
    lemma_table_at, lemma_table_empty, lemma_table_finite, lemma_table_key, lemma_table_map,
    lemma_table_push, lemma_table_remove, lemma_table_update, table,
};
use crate::event::{AppEvent, EventModel};
use std::collections::VecDeque;
use vstd::prelude::*;

verus! {

/// Events buffered per subscriber when no other capacity is asked for.
pub const DEFAULT_CAPACITY: usize = 100;

/// One subscriber as a mathematical value: the events waiting for it,
/// oldest first, and how many were evicted since it was last told.
pub struct SubscriberModel {
    pub queue: Seq<EventModel>,
    pub missed: u64,
}

impl SubscriberModel {
    /// A subscriber that has just been registered.
    pub open spec fn fresh() -> SubscriberModel {
        SubscriberModel { queue: Seq::empty(), missed: 0 }
    }

    /// The subscriber after one more event is handed to it. A full queue
    /// gives up its oldest entry to make room, and the loss is counted.
    pub open spec fn deliver(self, event: EventModel, capacity: nat) -> SubscriberModel {
        if self.queue.len() < capacity {
            SubscriberModel { queue: self.queue.push(event), missed: self.missed }
        } else {
            SubscriberModel {
                queue: self.queue.drop_first().push(event),
                missed: if self.missed < u64::MAX {
                    (self.missed + 1) as u64
                } else {
                    self.missed
                },
            }
        }
    }
}

/// One registered subscriber: its handle, the events waiting for it,
/// oldest first, and how many were evicted since it was last told.
struct Subscriber {
    id: u64,
    queue: VecDeque<AppEvent>,
    missed: u64,
}

impl Subscriber {
    spec fn model(&self) -> SubscriberModel {
        SubscriberModel { queue: self.queue@.map_values(|e: AppEvent| e@), missed: self.missed }
    }

    fn deliver(&mut self, event: AppEvent, capacity: usize)
        requires
            capacity >= 1,
            old(self).queue@.len() <= capacity,
        ensures
            final(self).id == old(self).id,
            final(self).model() == old(self).model().deliver(event@, capacity as nat),
            final(self).queue@.len() <= capacity,
    {
        if self.queue.len() >= capacity {
            let _ = self.queue.pop_front();
            if self.missed < u64::MAX {
                self.missed = self.missed + 1;
            }
        }
        self.queue.push_back(event);
        assert(self.queue@.map_values(|e: AppEvent| e@) =~= old(self).model().deliver(
            event@,
            capacity as nat,
        ).queue);
    }

    fn take_missed(&mut self) -> (n: u64)
        ensures
            n == old(self).missed,
            final(self).id == old(self).id,
            final(self).queue == old(self).queue,
            final(self).model() == (SubscriberModel { missed: 0, ..old(self).model() }),
    {
        let n = self.missed;
        self.missed = 0;
        n
    }

    fn pop(&mut self) -> (front: Option<AppEvent>)
        ensures
            final(self).id == old(self).id,
            final(self).missed == old(self).missed,
            final(self).queue@.len() <= old(self).queue@.len(),
            old(self).model().queue.len() == 0 ==> front is None && final(self).model() == old(
                self,
            ).model(),
            old(self).model().queue.len() > 0 ==> front is Some && front->0@ == old(
                self,
            ).model().queue[0] && final(self).model() == (SubscriberModel {
                queue: old(self).model().queue.drop_first(),
                ..old(self).model()
            }),
    {
        let front = self.queue.pop_front();
        proof {
            if old(self).queue@.len() > 0 {
                assert(self.queue@.map_values(|e: AppEvent| e@) =~= old(
                    self,
                ).model().queue.drop_first());
            } else {
                assert(self.queue@ =~= old(self).queue@);
            }
        }
        front
    }
}

/// What a subscriber is handed when it asks for its next event.
pub enum ReceivedModel {
    /// The oldest buffered event.
    Event(EventModel),
    /// The notice that this many events were evicted.
    Lagged(u64),
    /// Nothing, for now.
    Empty,
    /// The end of the stream.
    Closed,
}

/// The bus as a mathematical value.
pub struct BusModel {
    /// Events buffered per subscriber before the oldest is evicted.
    pub capacity: nat,
    /// Whether the bus has been shut down.
    pub closed: bool,
    /// How many subscriptions were ever handed out.
    pub issued: nat,
    /// The live subscribers by their handle.
    pub subscribers: Map<u64, SubscriberModel>,
}

impl BusModel {
    /// What holds of every bus: it buffers at least one event for each
    /// subscriber, its subscribers are finitely many, each under a handle
    /// that was handed out, and no buffer is over capacity.
    pub open spec fn wf(self) -> bool {
        &&& self.capacity >= 1
        &&& self.issued <= u64::MAX
        &&& self.subscribers.dom().finite()
        &&& forall|id: u64| #[trigger]
            self.subscribers.contains_key(id) ==> id < self.issued
                && self.subscribers[id].queue.len() <= self.capacity
    }

    /// An open bus without subscribers.
    pub open spec fn empty(capacity: nat) -> BusModel {
        BusModel { capacity, closed: false, issued: 0, subscribers: Map::empty() }
    }

    /// How many subscribers are registered.
    pub open spec fn count(self) -> nat {
        self.subscribers.dom().len()
    }

    /// The bus after a new subscriber is registered under the next unused handle.
    pub open spec fn subscribe(self) -> BusModel {
        BusModel {
            issued: self.issued + 1,
            subscribers: self.subscribers.insert(self.issued as u64, SubscriberModel::fresh()),
            ..self
        }
    }

    /// The bus after the subscriber `id` is released.
    pub open spec fn unsubscribe(self, id: u64) -> BusModel {
        BusModel { subscribers: self.subscribers.remove(id), ..self }
    }

    /// The bus after `event` is handed to every subscriber. A closed bus
    /// takes no more events.
    pub open spec fn publish(self, event: EventModel) -> BusModel {
        if self.closed {
            self
        } else {
            BusModel {
                subscribers: self.subscribers.map_values(
                    |s: SubscriberModel| s.deliver(event, self.capacity),
                ),
                ..self
            }
        }
    }

    /// The bus after shutdown. Buffered events stay available.
    pub open spec fn close(self) -> BusModel {
        BusModel { closed: true, ..self }
    }

    /// What subscriber `id` is handed next: first the notice of a loss,
    /// then the buffered events oldest first, then the end of the stream
    /// once the bus is closed.
    pub open spec fn received(self, id: u64) -> ReceivedModel {
        if !self.subscribers.contains_key(id) {
            ReceivedModel::Closed
        } else if self.subscribers[id].missed > 0 {
            ReceivedModel::Lagged(self.subscribers[id].missed)
        } else if self.subscribers[id].queue.len() > 0 {
            ReceivedModel::Event(self.subscribers[id].queue[0])
        } else if self.closed {
            ReceivedModel::Closed
        } else {
            ReceivedModel::Empty
        }
    }

    /// The bus after subscriber `id` was handed `self.received(id)`.
    pub open spec fn after_receive(self, id: u64) -> BusModel {
        if !self.subscribers.contains_key(id) {
            self
        } else if self.subscribers[id].missed > 0 {
            BusModel {
                subscribers: self.subscribers.insert(
                    id,
                    SubscriberModel { missed: 0, ..self.subscribers[id] },
                ),
                ..self
            }
        } else if self.subscribers[id].queue.len() > 0 {
            BusModel {
                subscribers: self.subscribers.insert(
                    id,
                    SubscriberModel {
                        queue: self.subscribers[id].queue.drop_first(),
                        ..self.subscribers[id]
                    },
                ),
                ..self
            }
        } else {
            self
        }
    }
}

/// The outcome of asking the bus for a subscriber's next event.
#[derive(Debug, PartialEq, Eq)]
pub enum Received {
    /// The oldest buffered event.
    Event(AppEvent),
    /// The subscriber fell behind and this many events were evicted.
    Lagged(u64),
    /// Nothing is buffered yet.
    Empty,
    /// The bus is closed and drained, or the handle is not registered.
    Closed,
}

impl View for Received {
    type V = ReceivedModel;

    open spec fn view(&self) -> ReceivedModel {
        match *self {
            Received::Event(e) => ReceivedModel::Event(e@),
            Received::Lagged(n) => ReceivedModel::Lagged(n),
            Received::Empty => ReceivedModel::Empty,
            Received::Closed => ReceivedModel::Closed,
        }
    }
}

spec fn ids(subs: Seq<Subscriber>) -> Seq<u64> {
    subs.map_values(|s: Subscriber| s.id)
}

spec fn models(subs: Seq<Subscriber>) -> Seq<SubscriberModel> {
    subs.map_values(|s: Subscriber| s.model())
}

spec fn registry(subs: Seq<Subscriber>) -> Map<u64, SubscriberModel> {
    table(ids(subs), models(subs))
}

proof fn lemma_registry_update(before: Seq<Subscriber>, after: Seq<Subscriber>, i: int)
    requires
        ids(before).no_duplicates(),
        0 <= i < before.len(),
        after.len() == before.len(),
        forall|j: int| 0 <= j < before.len() ==> (#[trigger] after[j]).id == before[j].id,
        forall|j: int|
            0 <= j < before.len() && j != i ==> (#[trigger] after[j]).model() == before[j].model(),
    ensures
        ids(after) == ids(before),
        registry(after) == registry(before).insert(before[i].id, after[i].model()),
{
    assert(ids(after) =~= ids(before));
    assert(models(after) =~= models(before).update(i, after[i].model()));
    lemma_table_update(ids(before), models(before), i, after[i].model());
}

/// An in-process publish/subscribe channel that fans domain events out to
/// every registered subscriber.
///
/// Each subscriber owns a bounded queue. Publishing never waits for a
/// consumer: when a subscriber's queue is full its oldest entry is evicted
/// to make room and the loss is counted, so a slow subscriber misses
/// events instead of holding up the publisher or its peers. The subscriber
/// is told of the loss the next time it asks for an event.
///
/// The bus is a plain value. Where several tasks publish and receive,
/// they share it behind one lock; every operation is short and none
/// waits.
pub struct EventBus {
    capacity: usize,
    closed: bool,
    issued: u64,
    subscribers: Vec<Subscriber>,
}

impl View for EventBus {
    type V = BusModel;

    closed spec fn view(&self) -> BusModel {
        BusModel {
            capacity: self.capacity as nat,
            closed: self.closed,
            issued: self.issued as nat,
            subscribers: registry(self.subscribers@),
        }
    }
}

fn find(subs: &Vec<Subscriber>, id: u64) -> (at: Option<usize>)
    ensures
        at is Some == registry(subs@).contains_key(id),
        at matches Some(i) ==> i < subs@.len() && subs@[i as int].id == id,
{
    let mut i: usize = 0;
    while i < subs.len()
        invariant
            i <= subs@.len(),
            forall|j: int| 0 <= j < i ==> (#[trigger] subs@[j]).id != id,
        decreases subs@.len() - i,
    {
        if subs[i].id == id {
            proof {
                assert(ids(subs@)[i as int] == id);
            }
            return Some(i);
        }
        i += 1;
    }
    proof {
        if ids(subs@).contains(id) {
            let k = ids(subs@).index_of(id);
            assert(subs@[k].id == id);
        }
    }
    None
}

/// Whether `subs` can be the subscribers of a bus with this capacity that
/// has handed out `issued` handles: handles are unique and were all
/// handed out, and no queue is over capacity.
spec fn fits(subs: Seq<Subscriber>, capacity: usize, issued: u64) -> bool {
    &&& capacity >= 1
    &&& ids(subs).no_duplicates()
    &&& forall|i: int|
        0 <= i < subs.len() ==> (#[trigger] subs[i]).id < issued && subs[i].queue@.len()
            <= capacity
}

proof fn lemma_fits(subs: Seq<Subscriber>, capacity: usize, issued: u64)
    requires
        fits(subs, capacity, issued),
    ensures
        registry(subs).dom().finite(),
        registry(subs).dom().len() == subs.len(),
        forall|id: u64| #[trigger]
            registry(subs).contains_key(id) ==> id < issued && registry(subs)[id].queue.len()
                <= capacity,
{
    lemma_table_finite(ids(subs), models(subs));
    assert forall|id: u64| #[trigger] registry(subs).contains_key(id) implies id < issued
        && registry(subs)[id].queue.len() <= capacity by {
        lemma_table_key(ids(subs), models(subs), id);
        let k = ids(subs).index_of(id);
        assert(subs[k].id == id);
    }
}

fn deliver_to_all(subs: &mut Vec<Subscriber>, event: AppEvent, capacity: usize, Ghost(issued): Ghost<u64>)
    requires
        fits(old(subs)@, capacity, issued),
    ensures
        fits(final(subs)@, capacity, issued),
        final(subs)@.len() == old(subs)@.len(),
        registry(final(subs)@) == registry(old(subs)@).map_values(
            |s: SubscriberModel| s.deliver(event@, capacity as nat),
        ),
{
    let n = subs.len();
    let ghost before = subs@;
    let ghost cap = capacity as nat;
    let mut i: usize = 0;
    while i < n
        invariant
            0 <= i <= n,
            n == before.len(),
            subs@.len() == n,
            cap == capacity,
            cap >= 1,
            forall|j: int| 0 <= j < n ==> (#[trigger] subs@[j]).id == before[j].id,
            forall|j: int| 0 <= j < n ==> (#[trigger] subs@[j]).queue@.len() <= cap,
            forall|j: int|
                0 <= j < i ==> (#[trigger] subs@[j]).model() == before[j].model().deliver(
                    event@,
                    cap,
                ),
            forall|j: int| i <= j < n ==> (#[trigger] subs@[j]) == before[j],
        decreases n - i,
    {
        let copy = event.clone();
        subs[i].deliver(copy, capacity);
        i += 1;
    }
    proof {
        let f = |s: SubscriberModel| s.deliver(event@, cap);
        lemma_table_map(ids(before), models(before), f);
        assert(ids(subs@) =~= ids(before));
        assert(models(subs@) =~= models(before).map_values(f));
    }
}

fn receive_from(subs: &mut Vec<Subscriber>, id: u64, closed: bool, Ghost(bus): Ghost<BusModel>) -> (next:
    Received)
    requires
        fits(old(subs)@, bus.capacity as usize, bus.issued as u64),
        bus.capacity <= usize::MAX,
        bus.issued <= u64::MAX,
        bus.subscribers == registry(old(subs)@),
        bus.closed == closed,
    ensures
        fits(final(subs)@, bus.capacity as usize, bus.issued as u64),
        next@ == bus.received(id),
        registry(final(subs)@) == bus.after_receive(id).subscribers,
{
    let at = find(subs, id);
    let i = match at {
        Some(i) => i,
        None => {
            return Received::Closed;
        },
    };
    let ghost before = subs@;
    proof {
        lemma_table_at(ids(before), models(before), i as int);
    }
    if subs[i].missed > 0 {
        let n = subs[i].take_missed();
        proof {
            lemma_registry_update(before, subs@, i as int);
        }
        return Received::Lagged(n);
    }
    let front = subs[i].pop();
    proof {
        lemma_registry_update(before, subs@, i as int);
        if before[i as int].model().queue.len() == 0 {
            assert(registry(subs@) =~= registry(before));
        }
    }
    match front {
        Some(event) => Received::Event(event),
        None => {
            if closed {
                Received::Closed
            } else {
                Received::Empty
            }
        },
    }
}

impl EventBus {
    /// What holds of every bus at all times.
    #[verifier::type_invariant]
    spec fn well_formed(&self) -> bool {
        fits(self.subscribers@, self.capacity, self.issued)
    }

    /// An open bus without subscribers that buffers up to `capacity`
    /// events for each subscriber. A bus needs room for one event at least.
    pub fn new(capacity: usize) -> (bus: EventBus)
        requires
            capacity >= 1,
        ensures
            bus@ == BusModel::empty(capacity as nat),
            bus@.wf(),
    {
        let bus = EventBus { capacity, closed: false, issued: 0, subscribers: Vec::new() };
        proof {
            lemma_table_empty(ids(bus.subscribers@), models(bus.subscribers@));
            lemma_fits(bus.subscribers@, capacity, 0);
        }
        bus
    }

    /// An open bus without subscribers with the default capacity.
    pub fn with_default_capacity() -> (bus: EventBus)
        ensures
            bus@ == BusModel::empty(DEFAULT_CAPACITY as nat),
            bus@.wf(),
    {
        EventBus::new(DEFAULT_CAPACITY)
    }

    /// Events buffered per subscriber before the oldest is evicted.
    pub fn capacity(&self) -> (n: usize)
        ensures
            n == self@.capacity,
            self@.wf(),
    {
        proof {
            use_type_invariant(self);
            lemma_fits(self.subscribers@, self.capacity, self.issued);
        }
        self.capacity
    }

    /// Whether the bus has been shut down.
    pub fn is_closed(&self) -> (closed: bool)
        ensures
            closed == self@.closed,
    {
        self.closed
    }

    /// How many subscribers are registered.
    pub fn subscriber_count(&self) -> (n: usize)
        ensures
            n == self@.count(),
    {
        proof {
            use_type_invariant(self);
            lemma_fits(self.subscribers@, self.capacity, self.issued);
        }
        self.subscribers.len()
    }

    /// Whether `id` is the handle of a registered subscriber.
    pub fn is_subscribed(&self, id: u64) -> (found: bool)
        ensures
            found == self@.subscribers.contains_key(id),
    {
        find(&self.subscribers, id).is_some()
    }

    /// How many events are buffered for subscriber `id`.
    pub fn pending(&self, id: u64) -> (n: Option<usize>)
        ensures
            n is Some == self@.subscribers.contains_key(id),
            n matches Some(k) ==> k == self@.subscribers[id].queue.len(),
    {
        proof {
            use_type_invariant(self);
        }
        match find(&self.subscribers, id) {
            Some(i) => {
                proof {
                    lemma_table_at(
                        ids(self.subscribers@),
                        models(self.subscribers@),
                        i as int,
                    );
                }
                Some(self.subscribers[i].queue.len())
            },
            None => None,
        }
    }

    /// Registers a new subscriber and returns its handle. The handle is
    /// one that was never given out before. Returns `None`, and changes
    /// nothing, once every handle has been used.
    pub fn subscribe(&mut self) -> (handle: Option<u64>)
        ensures
            final(self)@.wf(),
            old(self)@.issued < u64::MAX ==> {
                &&& handle == Some(old(self)@.issued as u64)
                &&& final(self)@ == old(self)@.subscribe()
            },
            old(self)@.issued >= u64::MAX ==> {
                &&& handle is None
                &&& final(self)@ == old(self)@
            },
    {
        proof {
            use_type_invariant(&*self);
            lemma_fits(self.subscribers@, self.capacity, self.issued);
        }
        if self.issued == u64::MAX {
            return None;
        }
        let id = self.issued;
        let ghost before = self.subscribers@;
        let fresh = Subscriber { id, queue: VecDeque::new(), missed: 0 };
        proof {
            assert(fresh.model() =~= SubscriberModel::fresh()) by {
                assert(fresh.queue@.map_values(|e: AppEvent| e@) =~= Seq::<EventModel>::empty());
            }
        }
        let mut subs: Vec<Subscriber> = Vec::new();
        core::mem::swap(&mut self.subscribers, &mut subs);
        subs.push(fresh);
        proof {
            let after = subs@;
            assert(ids(after) =~= ids(before).push(id));
            assert(models(after) =~= models(before).push(SubscriberModel::fresh()));
            if ids(before).contains(id) {
                let k = ids(before).index_of(id);
                assert(before[k].id < id);
            }
            lemma_table_push(ids(before), models(before), id, SubscriberModel::fresh());
            assert(fits(after, self.capacity, (id + 1) as u64)) by {
                assert forall|i: int| 0 <= i < after.len() implies (#[trigger] after[i]).id < id
                    + 1 && after[i].queue@.len() <= self.capacity by {
                    if i < before.len() {
                        assert(after[i] == before[i]);
                    }
                }
            }
            lemma_fits(after, self.capacity, (id + 1) as u64);
        }
        self.issued = id + 1;
        self.subscribers = subs;
        Some(id)
    }

    /// Releases subscriber `id` together with everything buffered for it,
    /// and says whether it was registered.
    pub fn unsubscribe(&mut self, id: u64) -> (removed: bool)
        ensures
            final(self)@.wf(),
            removed == old(self)@.subscribers.contains_key(id),
            final(self)@ == old(self)@.unsubscribe(id),
    {
        proof {
            use_type_invariant(&*self);
            lemma_fits(self.subscribers@, self.capacity, self.issued);
        }
        let ghost before = self.subscribers@;
        match find(&self.subscribers, id) {
            Some(i) => {
                let mut subs: Vec<Subscriber> = Vec::new();
                core::mem::swap(&mut self.subscribers, &mut subs);
                let _ = subs.remove(i);
                proof {
                    lemma_table_remove(ids(before), models(before), i as int);
                    assert(ids(before.remove(i as int)) =~= ids(before).remove(i as int));
                    assert(models(before.remove(i as int)) =~= models(before).remove(i as int));
                    assert(fits(subs@, self.capacity, self.issued)) by {
                        assert forall|j: int| 0 <= j < subs@.len() implies (#[trigger] subs@[j]).id
                            < self.issued && subs@[j].queue@.len() <= self.capacity by {
                            let j0 = if j < i { j } else { j + 1 };
                            assert(subs@[j] == before[j0]);
                        }
                    }
                    lemma_fits(subs@, self.capacity, self.issued);
                }
                self.subscribers = subs;
                true
            },
            None => {
                proof {
                    assert(self@.subscribers.remove(id) =~= self@.subscribers);
                }
                false
            },
        }
    }

    /// Hands `event` to every registered subscriber without waiting for
    /// any of them, and returns how many there are. A subscriber whose
    /// queue is full loses its oldest buffered event. Publishing to a bus
    /// without subscribers, or to a closed one, does nothing.
    pub fn publish(&mut self, event: AppEvent) -> (receivers: usize)
        ensures
            final(self)@.wf(),
            final(self)@ == old(self)@.publish(event@),
            receivers == (if old(self)@.closed {
                0
            } else {
                old(self)@.count()
            }),
    {
        proof {
            use_type_invariant(&*self);
            lemma_fits(self.subscribers@, self.capacity, self.issued);
        }
        if self.closed {
            return 0;
        }
        let mut subs: Vec<Subscriber> = Vec::new();
        core::mem::swap(&mut self.subscribers, &mut subs);
        deliver_to_all(&mut subs, event, self.capacity, Ghost(self.issued));
        let receivers = subs.len();
        proof {
            lemma_fits(subs@, self.capacity, self.issued);
        }
        self.subscribers = subs;
        receivers
    }

    /// Hands subscriber `id` what is next for it and takes that out of its
    /// buffer: the count of evicted events if it fell behind since it last
    /// asked, else its oldest buffered event, else `Empty`, or `Closed`
    /// once the bus is shut down. An unknown handle is told `Closed`.
    pub fn receive(&mut self, id: u64) -> (next: Received)
        ensures
            final(self)@.wf(),
            next@ == old(self)@.received(id),
            final(self)@ == old(self)@.after_receive(id),
    {
        proof {
            use_type_invariant(&*self);
        }
        let ghost before = self@;
        let mut subs: Vec<Subscriber> = Vec::new();
        core::mem::swap(&mut self.subscribers, &mut subs);
        let next = receive_from(&mut subs, id, self.closed, Ghost(before));
        proof {
            lemma_fits(subs@, self.capacity, self.issued);
        }
        self.subscribers = subs;
        next
    }

    /// Shuts the bus down. Subscribers may still drain what is buffered
    /// for them and are then told that the stream has ended.
    pub fn close(&mut self)
        ensures
            final(self)@.wf(),
            final(self)@ == old(self)@.close(),
    {
        proof {
            use_type_invariant(&*self);
            lemma_fits(self.subscribers@, self.capacity, self.issued);
        }
        self.closed = true;
    }
}

} // verus!
