//! The fan-out as a whole: what a run of registrations, removals and
//! publications delivers to whom, and in which order.

use crate::broadcaster::{
    after, lemma_retained_all, lemma_retained_is_the_flagged, lemma_retained_rising, others,
    registered, rising, ClientId, Event, Registry,
};
use vstd::prelude::*;

verus! {

/// One delivery attempt of a run: the position of the publication among the
/// run's events, and the client it was offered to.
pub struct Attempt {
    pub event: int,
    pub client: ClientId,
}

/// Removing a client takes that client out of the registry and no other.
pub proof fn lemma_deregister_removes_that_client_only<S>(
    registry: Registry<S>,
    id: ClientId,
    client: ClientId,
)
    ensures
        registered(after(registry, Event::Deregister(id)), client) <==> registered(
            registry,
            client,
        ) && client != id,
{
    let subscribers = registry.subscribers;
    let keep = others(subscribers, id);
    let left = after(registry, Event::Deregister(id)).subscribers;
    lemma_retained_is_the_flagged(subscribers, keep);
    if registered(after(registry, Event::Deregister(id)), client) {
        let k = choose|k: int| 0 <= k < left.len() && (#[trigger] left[k]).id == client;
        assert(left.contains(left[k]));
    }
    if registered(registry, client) && client != id {
        let i = choose|i: int|
            0 <= i < subscribers.len() && (#[trigger] subscribers[i]).id == client;
        assert(keep[i]);
        assert(left.contains(subscribers[i]));
    }
}

/// Removing a client twice leaves what removing it once leaves.
pub proof fn lemma_deregister_is_idempotent<S>(registry: Registry<S>, id: ClientId)
    ensures
        after(after(registry, Event::Deregister(id)), Event::Deregister(id)) == after(
            registry,
            Event::Deregister(id),
        ),
{
    let once = after(registry, Event::Deregister(id));
    let keep = others(once.subscribers, id);
    assert forall|i: int| 0 <= i < keep.len() implies keep[i] by {
        lemma_deregister_removes_that_client_only(registry, id, once.subscribers[i].id);
    }
    lemma_retained_all(once.subscribers, keep);
}

/// Removing a client that is not registered changes nothing.
pub proof fn lemma_deregister_of_a_stranger<S>(registry: Registry<S>, id: ClientId)
    requires
        !registered(registry, id),
    ensures
        after(registry, Event::Deregister(id)) == registry,
{
    lemma_retained_all(registry.subscribers, others(registry.subscribers, id));
}

/// A failed delivery costs only the client it was meant for: after a
/// publication, every subscriber whose own delivery went through is still
/// registered, whatever became of the others, and nobody has joined.
pub proof fn lemma_failure_spares_the_others<S>(
    registry: Registry<S>,
    delivered: Seq<bool>,
    i: int,
)
    requires
        delivered.len() == registry.subscribers.len(),
        0 <= i < registry.subscribers.len(),
    ensures
        delivered[i] ==> registered(
            after(registry, Event::Publish(delivered)),
            registry.subscribers[i].id,
        ),
        forall|client: ClientId|
            registered(after(registry, Event::Publish(delivered)), client) ==> registered(
                registry,
                client,
            ),
{
    let subscribers = registry.subscribers;
    let left = after(registry, Event::Publish(delivered)).subscribers;
    lemma_retained_is_the_flagged(subscribers, delivered);
    if delivered[i] {
        assert(left.contains(subscribers[i]));
    }
    assert forall|client: ClientId|
        registered(after(registry, Event::Publish(delivered)), client) implies registered(
        registry,
        client,
    ) by {
        let k = choose|k: int| 0 <= k < left.len() && (#[trigger] left[k]).id == client;
        assert(left.contains(left[k]));
    }
}

/// The registry after all of `events`, in their order.
pub open spec fn after_all<S>(start: Registry<S>, events: Seq<Event<S>>) -> Registry<S>
    decreases events.len(),
{
    if events.len() == 0 {
        start
    } else {
        after(after_all(start, events.drop_last()), events.last())
    }
}

/// The attempts that the event at `position` makes on the registry it meets:
/// a publication is offered to every subscriber, oldest first; the other
/// events deliver nothing.
pub open spec fn attempts<S>(registry: Registry<S>, event: Event<S>, position: int) -> Seq<
    Attempt,
> {
    match event {
        Event::Publish(_) => Seq::new(
            registry.subscribers.len(),
            |i: int| Attempt { event: position, client: registry.subscribers[i].id },
        ),
        _ => Seq::empty(),
    }
}

/// Every delivery attempt of a run, in the order in which they are made: each
/// event is dealt with in full before the next.
pub open spec fn log<S>(start: Registry<S>, events: Seq<Event<S>>) -> Seq<Attempt>
    decreases events.len(),
{
    if events.len() == 0 {
        Seq::empty()
    } else {
        log(start, events.drop_last()) + attempts(
            after_all(start, events.drop_last()),
            events.last(),
            events.len() - 1,
        )
    }
}

/// `attempt` names a publication of the run and a client that is registered
/// at the moment that publication begins.
pub open spec fn due<S>(start: Registry<S>, events: Seq<Event<S>>, attempt: Attempt) -> bool {
    &&& 0 <= attempt.event < events.len()
    &&& events[attempt.event] is Publish
    &&& registered(after_all(start, events.take(attempt.event)), attempt.client)
}

/// A publication is offered to exactly the clients that are registered at the
/// moment it begins: whatever registrations and removals came before it or
/// come after it, and whichever deliveries fail, the log holds an attempt if
/// and only if it is due.
pub proof fn lemma_publication_reaches_the_registered<S>(
    start: Registry<S>,
    events: Seq<Event<S>>,
)
    ensures
        forall|attempt: Attempt| #[trigger]
            log(start, events).contains(attempt) <==> due(start, events, attempt),
    decreases events.len(),
{
    let all = log(start, events);
    if events.len() > 0 {
        let last = events.len() - 1;
        let before = events.drop_last();
        let met = after_all(start, before);
        let tail = attempts(met, events.last(), last);
        lemma_publication_reaches_the_registered(start, before);
        assert(all == log(start, before) + tail);
        assert forall|attempt: Attempt| #[trigger] all.contains(attempt) implies due(
            start,
            events,
            attempt,
        ) by {
            let a = choose|a: int| 0 <= a < all.len() && all[a] == attempt;
            if a < log(start, before).len() {
                assert(log(start, before).contains(attempt));
                assert(events.take(attempt.event) == before.take(attempt.event));
            } else {
                assert(attempt == tail[a - log(start, before).len()]);
                assert(events.take(last) == before);
            }
        }
        assert forall|attempt: Attempt| due(start, events, attempt) implies #[trigger] all.contains(
            attempt,
        ) by {
            if attempt.event < last {
                assert(events.take(attempt.event) == before.take(attempt.event));
                assert(log(start, before).contains(attempt));
                let a = choose|a: int|
                    0 <= a < log(start, before).len() && log(start, before)[a] == attempt;
                assert(all[a] == attempt);
            } else {
                let i = choose|i: int|
                    0 <= i < met.subscribers.len() && (#[trigger] met.subscribers[i]).id
                        == attempt.client;
                assert(all[log(start, before).len() + i] == attempt);
            }
        }
    } else {
        assert forall|attempt: Attempt| #[trigger]
            all.contains(attempt) <==> due(start, events, attempt) by {}
    }
}

/// The log keeps the order of the events: an attempt of an earlier event
/// stands before every attempt of a later one.
pub proof fn lemma_log_follows_events<S>(start: Registry<S>, events: Seq<Event<S>>)
    ensures
        forall|a: int| 0 <= a < log(start, events).len() ==> 0 <= (#[trigger] log(
            start,
            events,
        )[a]).event < events.len(),
        forall|a: int, b: int|
            0 <= a < b < log(start, events).len() ==> (#[trigger] log(start, events)[a]).event
                <= (#[trigger] log(start, events)[b]).event,
    decreases events.len(),
{
    let all = log(start, events);
    if events.len() > 0 {
        let last = events.len() - 1;
        let before = log(start, events.drop_last());
        let tail = attempts(after_all(start, events.drop_last()), events.last(), last);
        lemma_log_follows_events(start, events.drop_last());
        assert(all == before + tail);
        assert forall|a: int| 0 <= a < all.len() implies 0 <= (#[trigger] all[a]).event
            < events.len() by {
            if a >= before.len() {
                assert(all[a] == tail[a - before.len()]);
            }
        }
        assert forall|a: int, b: int| 0 <= a < b < all.len() implies (#[trigger] all[a]).event <= (
        #[trigger] all[b]).event by {
            if a >= before.len() {
                assert(all[a] == tail[a - before.len()]);
            }
            if b >= before.len() {
                assert(all[b] == tail[b - before.len()]);
            }
        }
    }
}

/// Notifications reach a client in the order of their publication: where one
/// is published before another and the client is registered when the first
/// begins, the log holds the attempt to hand the first to the client, and it
/// stands before any attempt to hand the client the second.
pub proof fn lemma_deliveries_in_publication_order<S>(
    start: Registry<S>,
    events: Seq<Event<S>>,
    first: int,
    second: int,
    client: ClientId,
)
    requires
        0 <= first < second < events.len(),
        events[first] is Publish,
        events[second] is Publish,
        registered(after_all(start, events.take(first)), client),
    ensures
        exists|a: int|
            0 <= a < log(start, events).len() && #[trigger] log(start, events)[a] == (Attempt {
                event: first,
                client,
            }) && forall|b: int|
                0 <= b < log(start, events).len() && #[trigger] log(start, events)[b] == (Attempt {
                    event: second,
                    client,
                }) ==> a < b,
{
    let all = log(start, events);
    let one = Attempt { event: first, client };
    lemma_publication_reaches_the_registered(start, events);
    lemma_log_follows_events(start, events);
    assert(all.contains(one));
    let a = choose|a: int| 0 <= a < all.len() && all[a] == one;
    assert forall|b: int|
        0 <= b < all.len() && #[trigger] all[b] == (Attempt { event: second, client }) implies a
        < b by {
        if b < a {
            assert(all[b].event <= all[a].event);
        }
    }
}

/// The identifiers of the registry rise from the oldest subscriber to the
/// newest, and all lie below the number handed out.
pub open spec fn well_formed<S>(registry: Registry<S>) -> bool {
    rising(registry.subscribers, registry.issued)
}

/// Whether `event` can happen to `registry`: a registration needs an
/// identifier that is still free, and a publication has one outcome for each
/// subscriber.
pub open spec fn admissible<S>(registry: Registry<S>, event: Event<S>) -> bool {
    match event {
        Event::Register(_) => registry.issued < u64::MAX,
        Event::Deregister(_) => true,
        Event::Publish(delivered) => delivered.len() == registry.subscribers.len(),
    }
}

/// Each event of the run can happen to the registry it meets.
pub open spec fn admissible_run<S>(start: Registry<S>, events: Seq<Event<S>>) -> bool {
    forall|k: int|
        0 <= k < events.len() ==> admissible(after_all(start, events.take(k)), #[trigger] events[k])
}

/// An event leaves a well-formed registry well-formed.
pub proof fn lemma_event_keeps_well_formed<S>(registry: Registry<S>, event: Event<S>)
    requires
        well_formed(registry),
        admissible(registry, event),
    ensures
        well_formed(after(registry, event)),
{
    match event {
        Event::Register(_) => {},
        Event::Deregister(id) => {
            lemma_retained_rising(
                registry.subscribers,
                others(registry.subscribers, id),
                registry.issued,
            );
        },
        Event::Publish(delivered) => {
            lemma_retained_rising(registry.subscribers, delivered, registry.issued);
        },
    }
}

/// A run leaves a well-formed registry well-formed.
pub proof fn lemma_run_keeps_well_formed<S>(start: Registry<S>, events: Seq<Event<S>>)
    requires
        well_formed(start),
        admissible_run(start, events),
    ensures
        well_formed(after_all(start, events)),
    decreases events.len(),
{
    if events.len() > 0 {
        let before = events.drop_last();
        assert forall|k: int| 0 <= k < before.len() implies admissible(
            after_all(start, before.take(k)),
            #[trigger] before[k],
        ) by {
            assert(before.take(k) == events.take(k));
        }
        lemma_run_keeps_well_formed(start, before);
        lemma_event_keeps_well_formed(after_all(start, before), events.last());
    }
}

/// Nothing is delivered twice: the log of a run that starts from a
/// well-formed registry holds no attempt more than once, so a client gets
/// each notification that is due to it exactly once.
pub proof fn lemma_no_attempt_twice<S>(start: Registry<S>, events: Seq<Event<S>>)
    requires
        well_formed(start),
        admissible_run(start, events),
    ensures
        forall|a: int, b: int|
            0 <= a < b < log(start, events).len() ==> #[trigger] log(start, events)[a]
                != #[trigger] log(start, events)[b],
    decreases events.len(),
{
    let all = log(start, events);
    if events.len() > 0 {
        let last = events.len() - 1;
        let before = events.drop_last();
        let met = after_all(start, before);
        let head = log(start, before);
        let tail = attempts(met, events.last(), last);
        assert forall|k: int| 0 <= k < before.len() implies admissible(
            after_all(start, before.take(k)),
            #[trigger] before[k],
        ) by {
            assert(before.take(k) == events.take(k));
        }
        lemma_no_attempt_twice(start, before);
        lemma_log_follows_events(start, before);
        lemma_run_keeps_well_formed(start, before);
        assert(all == head + tail);
        assert forall|a: int, b: int| 0 <= a < b < all.len() implies #[trigger] all[a]
            != #[trigger] all[b] by {
            if a >= head.len() {
                assert(all[a] == tail[a - head.len()]);
            }
            if b >= head.len() {
                assert(all[b] == tail[b - head.len()]);
            }
        }
    }
}

} // verus!
