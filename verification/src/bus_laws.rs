use crate::bus::{BusModel, ReceivedModel, SubscriberModel};
use crate::event::EventModel;
use vstd::prelude::*;

verus! {

/// One thing that can happen to a bus.
pub enum BusOp {
    /// A new subscriber registers.
    Subscribe,
    /// The subscriber with this handle is released.
    Unsubscribe(u64),
    /// An event is published.
    Publish(EventModel),
    /// The subscriber with this handle asks for its next event.
    Receive(u64),
    /// The bus is shut down.
    Close,
}

impl BusModel {
    /// The bus after `op`.
    pub open spec fn step(self, op: BusOp) -> BusModel {
        match op {
            BusOp::Subscribe => if self.issued < u64::MAX {
                self.subscribe()
            } else {
                self
            },
            BusOp::Unsubscribe(id) => self.unsubscribe(id),
            BusOp::Publish(event) => self.publish(event),
            BusOp::Receive(id) => self.after_receive(id),
            BusOp::Close => self.close(),
        }
    }

    /// The bus after all of `ops`, first to last.
    pub open spec fn run(self, ops: Seq<BusOp>) -> BusModel
        decreases ops.len(),
    {
        if ops.len() == 0 {
            self
        } else {
            self.run(ops.drop_last()).step(ops.last())
        }
    }

    /// The events buffered for `id`, oldest first; none if `id` is not registered.
    pub open spec fn pending(self, id: u64) -> Seq<EventModel> {
        if self.subscribers.contains_key(id) {
            self.subscribers[id].queue
        } else {
            Seq::empty()
        }
    }

    /// The bus after subscriber `id` has asked for its next event `n` times.
    pub open spec fn after_receives(self, id: u64, n: nat) -> BusModel
        decreases n,
    {
        if n == 0 {
            self
        } else {
            self.after_receive(id).after_receives(id, (n - 1) as nat)
        }
    }

    /// The bus after `n` rounds of a client connecting and leaving again.
    pub open spec fn connect_disconnect(self, n: nat) -> BusModel
        decreases n,
    {
        if n == 0 {
            self
        } else {
            let prior = self.connect_disconnect((n - 1) as nat);
            prior.subscribe().unsubscribe(prior.issued as u64)
        }
    }
}

/// The events published by `ops`, in the order of publication.
pub open spec fn published(ops: Seq<BusOp>) -> Seq<EventModel>
    decreases ops.len(),
{
    if ops.len() == 0 {
        Seq::empty()
    } else {
        match ops.last() {
            BusOp::Publish(event) => published(ops.drop_last()).push(event),
            _ => published(ops.drop_last()),
        }
    }
}

/// The events that subscriber `id` is handed while `ops` run on `bus`, in
/// the order in which it is handed them.
pub open spec fn observed(bus: BusModel, ops: Seq<BusOp>, id: u64) -> Seq<EventModel>
    decreases ops.len(),
{
    if ops.len() == 0 {
        Seq::empty()
    } else {
        let earlier = observed(bus, ops.drop_last(), id);
        match ops.last() {
            BusOp::Receive(who) => if who == id {
                match bus.run(ops.drop_last()).received(id) {
                    ReceivedModel::Event(event) => earlier.push(event),
                    _ => earlier,
                }
            } else {
                earlier
            },
            _ => earlier,
        }
    }
}

/// Whether `a` can be had from `b` by leaving elements out, the rest
/// keeping their order.
pub open spec fn is_subsequence<T>(a: Seq<T>, b: Seq<T>) -> bool
    decreases b.len(),
{
    if a.len() == 0 {
        true
    } else if b.len() == 0 {
        false
    } else {
        (a.last() == b.last() && is_subsequence(a.drop_last(), b.drop_last())) || is_subsequence(
            a,
            b.drop_last(),
        )
    }
}

/// Whether `at` places the elements of `a` in `b`: the k-th element of `a`
/// stands in `b` at index `at[k]`, and these indices rise strictly.
pub open spec fn embeds_at<T>(a: Seq<T>, b: Seq<T>, at: Seq<int>) -> bool {
    &&& at.len() == a.len()
    &&& forall|k: int| 0 <= k < a.len() ==> 0 <= #[trigger] at[k] < b.len() && a[k] == b[at[k]]
    &&& forall|j: int, k: int| 0 <= j < k < a.len() ==> #[trigger] at[j] < #[trigger] at[k]
}

spec fn positions<T>(a: Seq<T>, b: Seq<T>) -> Seq<int>
    decreases b.len(),
{
    if a.len() == 0 || b.len() == 0 {
        Seq::empty()
    } else if a.last() == b.last() && is_subsequence(a.drop_last(), b.drop_last()) {
        positions(a.drop_last(), b.drop_last()).push(b.len() - 1)
    } else {
        positions(a, b.drop_last())
    }
}

proof fn lemma_positions<T>(a: Seq<T>, b: Seq<T>)
    requires
        is_subsequence(a, b),
    ensures
        embeds_at(a, b, positions(a, b)),
    decreases b.len(),
{
    if a.len() == 0 || b.len() == 0 {
    } else if a.last() == b.last() && is_subsequence(a.drop_last(), b.drop_last()) {
        lemma_positions(a.drop_last(), b.drop_last());
        let at0 = positions(a.drop_last(), b.drop_last());
        let at = positions(a, b);
        assert forall|k: int| 0 <= k < a.len() implies 0 <= #[trigger] at[k] < b.len() && a[k]
            == b[at[k]] by {
            if k < a.len() - 1 {
                assert(at[k] == at0[k]);
                assert(a.drop_last()[k] == a[k]);
                assert(b.drop_last()[at0[k]] == b[at0[k]]);
            }
        }
        assert forall|j: int, k: int| 0 <= j < k < a.len() implies #[trigger] at[j]
            < #[trigger] at[k] by {
            assert(at[j] == at0[j]);
            if k < a.len() - 1 {
                assert(at[k] == at0[k]);
            }
        }
    } else {
        lemma_positions(a, b.drop_last());
        let at = positions(a, b);
        assert forall|k: int| 0 <= k < a.len() implies 0 <= #[trigger] at[k] < b.len() && a[k]
            == b[at[k]] by {
            assert(b.drop_last()[at[k]] == b[at[k]]);
        }
    }
}

/// What being a subsequence means: the elements of `a` stand in `b` at
/// strictly rising indices, so `b` holds them all and in the same order.
pub proof fn law_subsequence_keeps_order<T>(a: Seq<T>, b: Seq<T>)
    requires
        is_subsequence(a, b),
    ensures
        exists|at: Seq<int>| embeds_at(a, b, at),
{
    lemma_positions(a, b);
}

proof fn lemma_subsequence_extend<T>(a: Seq<T>, b: Seq<T>, x: T)
    requires
        is_subsequence(a, b),
    ensures
        is_subsequence(a, b.push(x)),
        is_subsequence(a.push(x), b.push(x)),
{
    assert(b.push(x).drop_last() =~= b);
    assert(a.push(x).drop_last() =~= a);
}

proof fn lemma_subsequence_remove<T>(a: Seq<T>, b: Seq<T>, i: int)
    requires
        is_subsequence(a, b),
        0 <= i < a.len(),
    ensures
        is_subsequence(a.remove(i), b),
    decreases b.len(),
{
    assert(b.len() > 0);
    assert(b.drop_last().push(b.last()) =~= b);
    if a.last() == b.last() && is_subsequence(a.drop_last(), b.drop_last()) {
        if i == a.len() - 1 {
            assert(a.remove(i) =~= a.drop_last());
            lemma_subsequence_extend(a.drop_last(), b.drop_last(), b.last());
        } else {
            lemma_subsequence_remove(a.drop_last(), b.drop_last(), i);
            assert(a.remove(i).drop_last() =~= a.drop_last().remove(i));
            assert(a.remove(i).last() == a.last());
        }
    } else {
        lemma_subsequence_remove(a, b.drop_last(), i);
        lemma_subsequence_extend(a.remove(i), b.drop_last(), b.last());
    }
}

proof fn lemma_subsequence_take<T>(a: Seq<T>, b: Seq<T>, k: int)
    requires
        is_subsequence(a, b),
        0 <= k <= a.len(),
    ensures
        is_subsequence(a.take(k), b),
    decreases a.len() - k,
{
    if k == a.len() {
        assert(a.take(k) =~= a);
    } else {
        lemma_subsequence_remove(a, b, a.len() - 1);
        assert(a.remove(a.len() - 1) =~= a.drop_last());
        lemma_subsequence_take(a.drop_last(), b, k);
        assert(a.drop_last().take(k) =~= a.take(k));
    }
}

/// Every operation keeps a well-formed bus well formed.
pub proof fn law_step_keeps_wf(bus: BusModel, op: BusOp)
    requires
        bus.wf(),
    ensures
        bus.step(op).wf(),
{
    let next = bus.step(op);
    match op {
        BusOp::Subscribe => {},
        BusOp::Unsubscribe(id) => {},
        BusOp::Publish(event) => {
            if !bus.closed {
                assert(next.subscribers.dom() =~= bus.subscribers.dom());
            }
        },
        BusOp::Receive(id) => {
            if bus.subscribers.contains_key(id) {
                assert(next.subscribers.dom() =~= bus.subscribers.dom());
            }
        },
        BusOp::Close => {},
    }
}

/// Every run of operations keeps a well-formed bus well formed.
pub proof fn law_run_keeps_wf(bus: BusModel, ops: Seq<BusOp>)
    requires
        bus.wf(),
    ensures
        bus.run(ops).wf(),
    decreases ops.len(),
{
    if ops.len() > 0 {
        law_run_keeps_wf(bus, ops.drop_last());
        law_step_keeps_wf(bus.run(ops.drop_last()), ops.last());
    }
}

/// Fan-out: one publication on an open bus reaches every registered
/// subscriber and nobody else. Each subscriber's newest buffered event is
/// then the published one, and a subscriber whose queue had room has lost
/// nothing: its queue is the old one with the event appended. With no
/// subscriber at all the bus is left exactly as it was.
pub proof fn law_publish_fans_out(bus: BusModel, event: EventModel)
    requires
        bus.wf(),
        !bus.closed,
    ensures
        bus.publish(event).subscribers.dom() == bus.subscribers.dom(),
        forall|id: u64| #[trigger]
            bus.subscribers.contains_key(id) ==> {
                let before = bus.subscribers[id];
                let after = bus.publish(event).subscribers[id];
                &&& after.queue.len() >= 1
                &&& after.queue.last() == event
                &&& before.queue.len() < bus.capacity ==> after == (SubscriberModel {
                    queue: before.queue.push(event),
                    ..before
                })
            },
        bus.count() == 0 ==> bus.publish(event) == bus,
{
    let next = bus.publish(event);
    assert(next.subscribers.dom() =~= bus.subscribers.dom());
    if bus.count() == 0 {
        assert(bus.subscribers.dom() =~= Set::<u64>::empty());
        assert(next.subscribers =~= bus.subscribers);
    }
}

/// Fan-out, as the subscriber sees it: a subscriber that has not fallen
/// behind and whose queue has room is handed the published event once it
/// has been handed the events that were buffered before it.
pub proof fn law_published_event_is_received(bus: BusModel, event: EventModel, id: u64)
    requires
        bus.wf(),
        !bus.closed,
        bus.subscribers.contains_key(id),
        bus.subscribers[id].missed == 0,
        bus.subscribers[id].queue.len() < bus.capacity,
    ensures
        bus.publish(event).after_receives(id, bus.subscribers[id].queue.len()).received(id)
            == ReceivedModel::Event(event),
{
    let next = bus.publish(event);
    let n = bus.subscribers[id].queue.len();
    lemma_after_receives(next, id, n);
    assert(next.subscribers[id].queue.skip(n as int) =~= seq![event]);
}

proof fn lemma_after_receives(bus: BusModel, id: u64, n: nat)
    requires
        bus.subscribers.contains_key(id),
        bus.subscribers[id].missed == 0,
        n <= bus.subscribers[id].queue.len(),
    ensures
        bus.after_receives(id, n).subscribers.contains_key(id),
        bus.after_receives(id, n).subscribers[id] == (SubscriberModel {
            queue: bus.subscribers[id].queue.skip(n as int),
            missed: 0,
        }),
        bus.after_receives(id, n).closed == bus.closed,
    decreases n,
{
    if n == 0 {
        assert(bus.subscribers[id].queue.skip(0) =~= bus.subscribers[id].queue);
    } else {
        let next = bus.after_receive(id);
        lemma_after_receives(next, id, (n - 1) as nat);
        assert(bus.subscribers[id].queue.drop_first().skip(n - 1)
            =~= bus.subscribers[id].queue.skip(n as int));
    }
}

/// Per-subscriber order: whatever happens on the bus, the events that a
/// subscriber is handed, followed by those still buffered for it, are
/// among the events that were buffered for it at the start followed by
/// the events published since, in that same order. Events may be missing;
/// none is handed over twice, out of order, or without having been
/// published.
pub proof fn law_per_subscriber_order(bus: BusModel, ops: Seq<BusOp>, id: u64)
    requires
        bus.wf(),
    ensures
        is_subsequence(
            observed(bus, ops, id) + bus.run(ops).pending(id),
            bus.pending(id) + published(ops),
        ),
    decreases ops.len(),
{
    if ops.len() == 0 {
        assert(observed(bus, ops, id) + bus.run(ops).pending(id) =~= bus.pending(id));
        assert(bus.pending(id) + published(ops) =~= bus.pending(id));
        lemma_subsequence_reflexive(bus.pending(id));
    } else {
        let head = ops.drop_last();
        let prior = bus.run(head);
        let next = bus.run(ops);
        let seen = observed(bus, head, id);
        let had = seen + prior.pending(id);
        let all = bus.pending(id) + published(head);
        law_per_subscriber_order(bus, head, id);
        law_run_keeps_wf(bus, head);
        match ops.last() {
            BusOp::Subscribe => {
                if prior.issued < u64::MAX && prior.issued as u64 == id {
                    assert(!prior.subscribers.contains_key(id));
                }
                assert(next.pending(id) =~= prior.pending(id));
            },
            BusOp::Unsubscribe(who) => {
                if who == id {
                    lemma_subsequence_take(had, all, seen.len() as int);
                    assert(had.take(seen.len() as int) =~= seen + next.pending(id));
                } else {
                    assert(next.pending(id) =~= prior.pending(id));
                }
            },
            BusOp::Publish(event) => {
                assert(bus.pending(id) + published(ops) =~= all.push(event));
                if prior.closed || !prior.subscribers.contains_key(id) {
                    lemma_subsequence_extend(had, all, event);
                } else if prior.subscribers[id].queue.len() < prior.capacity {
                    lemma_subsequence_extend(had, all, event);
                    assert(seen + next.pending(id) =~= had.push(event));
                } else {
                    lemma_subsequence_remove(had, all, seen.len() as int);
                    lemma_subsequence_extend(had.remove(seen.len() as int), all, event);
                    assert(seen + next.pending(id) =~= had.remove(seen.len() as int).push(event));
                }
            },
            BusOp::Receive(who) => {
                if who == id {
                    assert(observed(bus, ops, id) + next.pending(id) =~= had);
                } else {
                    assert(next.pending(id) =~= prior.pending(id));
                }
            },
            BusOp::Close => {},
        }
    }
}

proof fn lemma_subsequence_reflexive<T>(a: Seq<T>)
    ensures
        is_subsequence(a, a),
    decreases a.len(),
{
    if a.len() > 0 {
        lemma_subsequence_reflexive(a.drop_last());
    }
}

/// A subscriber that registered on a bus and was handed events while
/// other things went on is handed only events published after it
/// registered, in the order of their publication.
pub proof fn law_new_subscriber_sees_published_in_order(bus: BusModel, ops: Seq<BusOp>)
    requires
        bus.wf(),
        bus.issued < u64::MAX,
    ensures
        is_subsequence(observed(bus.subscribe(), ops, bus.issued as u64), published(ops)),
{
    let id = bus.issued as u64;
    let start = bus.subscribe();
    law_step_keeps_wf(bus, BusOp::Subscribe);
    law_per_subscriber_order(start, ops, id);
    let seen = observed(start, ops, id);
    let left = start.run(ops).pending(id);
    assert(start.pending(id) + published(ops) =~= published(ops));
    lemma_subsequence_take(seen + left, published(ops), seen.len() as int);
    assert((seen + left).take(seen.len() as int) =~= seen);
}

/// Cleanup: releasing a registered subscriber lowers the subscriber count
/// by one, leaves every other subscriber as it was, and nothing that
/// happens on the bus afterwards reaches the released handle again.
pub proof fn law_unsubscribe_releases(bus: BusModel, id: u64, later: Seq<BusOp>)
    requires
        bus.wf(),
        bus.subscribers.contains_key(id),
    ensures
        bus.unsubscribe(id).count() == bus.count() - 1,
        bus.unsubscribe(id).subscribers == bus.subscribers.remove(id),
        !bus.unsubscribe(id).run(later).subscribers.contains_key(id),
{
    lemma_released_stays_out(bus.unsubscribe(id), id, later);
}

proof fn lemma_released_stays_out(bus: BusModel, id: u64, ops: Seq<BusOp>)
    requires
        bus.wf(),
        id < bus.issued,
        !bus.subscribers.contains_key(id),
    ensures
        !bus.run(ops).subscribers.contains_key(id),
        bus.run(ops).issued >= bus.issued,
    decreases ops.len(),
{
    if ops.len() > 0 {
        lemma_released_stays_out(bus, id, ops.drop_last());
        law_run_keeps_wf(bus, ops.drop_last());
    }
}

/// No leak: however many clients connect and leave again, the bus holds
/// the subscribers it held before, each with its buffer untouched.
pub proof fn law_connect_disconnect_leaves_no_trace(bus: BusModel, n: nat)
    requires
        bus.wf(),
        bus.issued + n <= u64::MAX,
    ensures
        bus.connect_disconnect(n).subscribers == bus.subscribers,
        bus.connect_disconnect(n).count() == bus.count(),
        bus.connect_disconnect(n).issued == bus.issued + n,
        bus.connect_disconnect(n).wf(),
    decreases n,
{
    if n > 0 {
        law_connect_disconnect_leaves_no_trace(bus, (n - 1) as nat);
        let prior = bus.connect_disconnect((n - 1) as nat);
        let id = prior.issued as u64;
        assert(!prior.subscribers.contains_key(id));
        assert(prior.subscribers.insert(id, SubscriberModel::fresh()).remove(id)
            =~= prior.subscribers);
    }
}

} // verus!
