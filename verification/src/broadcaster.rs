//! The client registry: the set of live client sinks and the send-to-all.

use vstd::prelude::*;

verus! {

/// Identifies one registered client for later removal.
#[derive(Clone, Copy, Debug, PartialEq, Eq, Structural)]
pub struct ClientId {
    pub value: u64,
}

/// One registered client: its identifier and the sink that reaches it.
pub struct Subscriber<S> {
    pub id: ClientId,
    pub sink: S,
}

/// What became of one delivery attempt during a broadcast.
#[derive(Clone, Copy, Debug, PartialEq, Eq, Structural)]
pub struct Delivery {
    pub client: ClientId,
    pub delivered: bool,
}

/// The elements of `items` whose flag in `keep` is set, in their order.
pub open spec fn retained<T>(items: Seq<T>, keep: Seq<bool>) -> Seq<T>
    recommends
        items.len() == keep.len(),
    decreases items.len(),
{
    if items.len() == 0 || keep.len() == 0 {
        Seq::empty()
    } else if keep.last() {
        retained(items.drop_last(), keep.drop_last()).push(items.last())
    } else {
        retained(items.drop_last(), keep.drop_last())
    }
}

/// For each subscriber, whether its identifier differs from `id`.
pub open spec fn others<S>(subscribers: Seq<Subscriber<S>>, id: ClientId) -> Seq<bool> {
    Seq::new(subscribers.len(), |i: int| subscribers[i].id != id)
}

/// The outcome flags of a broadcast report, in the order of the report.
pub open spec fn outcomes(report: Seq<Delivery>) -> Seq<bool> {
    Seq::new(report.len(), |i: int| report[i].delivered)
}

/// The registry as its contracts see it: the subscribers, oldest first, and
/// the number of identifiers handed out so far.
pub struct Registry<S> {
    pub subscribers: Seq<Subscriber<S>>,
    pub issued: nat,
}

/// One thing that happens to the registry.
pub enum Event<S> {
    /// A client registers the given sink.
    Register(S),
    /// The client with the given identifier is removed.
    Deregister(ClientId),
    /// A notification is offered to every subscriber; the flags tell, in the
    /// order of the subscribers, which deliveries went through.
    Publish(Seq<bool>),
}

/// Whether `client` is among the registry's subscribers.
pub open spec fn registered<S>(registry: Registry<S>, client: ClientId) -> bool {
    exists|i: int|
        0 <= i < registry.subscribers.len() && (#[trigger] registry.subscribers[i]).id == client
}

/// The registry that `event` leaves behind.
pub open spec fn after<S>(registry: Registry<S>, event: Event<S>) -> Registry<S> {
    match event {
        Event::Register(sink) => Registry {
            subscribers: registry.subscribers.push(
                Subscriber { id: ClientId { value: registry.issued as u64 }, sink },
            ),
            issued: registry.issued + 1,
        },
        Event::Deregister(id) => Registry {
            subscribers: retained(registry.subscribers, others(registry.subscribers, id)),
            issued: registry.issued,
        },
        Event::Publish(delivered) => Registry {
            subscribers: retained(registry.subscribers, delivered),
            issued: registry.issued,
        },
    }
}

/// `report` lists, for each of `subscribers` in their order, the client and
/// an outcome that one call of `deliver` on its sink and `notification` gave.
pub open spec fn offered<S, F: Fn(&S, &str) -> bool>(
    deliver: F,
    subscribers: Seq<Subscriber<S>>,
    notification: &str,
    report: Seq<Delivery>,
) -> bool {
    &&& report.len() == subscribers.len()
    &&& forall|i: int|
        0 <= i < report.len() ==> (#[trigger] report[i]).client == subscribers[i].id
            && deliver.ensures((&subscribers[i].sink, notification), report[i].delivered)
}

/// Identifiers rise strictly along the sequence and stay below `bound`.
pub open spec fn rising<S>(subscribers: Seq<Subscriber<S>>, bound: nat) -> bool {
    &&& forall|i: int| 0 <= i < subscribers.len() ==> (#[trigger] subscribers[i]).id.value < bound
    &&& forall|i: int, j: int|
        0 <= i < j < subscribers.len() ==> (#[trigger] subscribers[i]).id.value
            < (#[trigger] subscribers[j]).id.value
}

/// `item` is an element of `items` whose flag in `keep` is set.
pub open spec fn flagged_in<T>(items: Seq<T>, keep: Seq<bool>, item: T) -> bool {
    exists|i: int| 0 <= i < items.len() && i < keep.len() && keep[i] && items[i] == item
}

/// What is retained is exactly what is flagged: each retained element is a
/// flagged element of `items`, and each flagged element is retained.
pub proof fn lemma_retained_is_the_flagged<T>(items: Seq<T>, keep: Seq<bool>)
    requires
        items.len() == keep.len(),
    ensures
        retained(items, keep).len() <= items.len(),
        forall|item: T| #[trigger]
            retained(items, keep).contains(item) <==> flagged_in(items, keep, item),
    decreases items.len(),
{
    let all = retained(items, keep);
    if items.len() > 0 {
        let front = items.drop_last();
        let flags = keep.drop_last();
        let last = items.len() - 1;
        let kept = retained(front, flags);
        lemma_retained_is_the_flagged(front, flags);
        assert forall|item: T| #[trigger] all.contains(item) implies flagged_in(
            items,
            keep,
            item,
        ) by {
            let k = choose|k: int| 0 <= k < all.len() && all[k] == item;
            if k < kept.len() {
                assert(kept.contains(item));
                let i = choose|i: int|
                    0 <= i < front.len() && i < flags.len() && flags[i] && front[i] == item;
                assert(items[i] == item && keep[i]);
            } else {
                assert(items[last] == item && keep[last]);
            }
        }
        assert forall|item: T| flagged_in(items, keep, item) implies #[trigger] all.contains(
            item,
        ) by {
            let i = choose|i: int|
                0 <= i < items.len() && i < keep.len() && keep[i] && items[i] == item;
            if i < last {
                assert(front[i] == item && flags[i]);
                assert(kept.contains(item));
                let k = choose|k: int| 0 <= k < kept.len() && kept[k] == item;
                assert(all[k] == item);
            } else {
                assert(all[all.len() - 1] == item);
            }
        }
    } else {
        assert forall|item: T| #[trigger]
            all.contains(item) <==> flagged_in(items, keep, item) by {}
    }
}

/// Where every flag is set, everything is retained.
pub proof fn lemma_retained_all<T>(items: Seq<T>, keep: Seq<bool>)
    requires
        items.len() == keep.len(),
        forall|i: int| 0 <= i < keep.len() ==> keep[i],
    ensures
        retained(items, keep) == items,
    decreases items.len(),
{
    if items.len() > 0 {
        lemma_retained_all(items.drop_last(), keep.drop_last());
    }
}

/// Retaining part of a rising sequence leaves a rising sequence.
pub proof fn lemma_retained_rising<S>(subscribers: Seq<Subscriber<S>>, keep: Seq<bool>, bound: nat)
    requires
        rising(subscribers, bound),
        subscribers.len() == keep.len(),
    ensures
        rising(retained(subscribers, keep), bound),
    decreases subscribers.len(),
{
    let all = retained(subscribers, keep);
    if subscribers.len() > 0 {
        let front = subscribers.drop_last();
        let flags = keep.drop_last();
        let last = subscribers.len() - 1;
        let kept = retained(front, flags);
        lemma_retained_rising(front, flags, bound);
        lemma_retained_is_the_flagged(front, flags);
        assert forall|k: int| 0 <= k < kept.len() implies (#[trigger] kept[k]).id.value
            < subscribers[last].id.value by {
            assert(kept.contains(kept[k]));
            let i = choose|i: int|
                0 <= i < front.len() && i < flags.len() && flags[i] && front[i] == kept[k];
            assert(kept[k] == subscribers[i]);
        }
        assert forall|i: int, j: int| 0 <= i < j < all.len() implies (#[trigger] all[i]).id.value
            < (#[trigger] all[j]).id.value by {
            assert(all[i] == kept[i]);
            assert(j < kept.len() ==> all[j] == kept[j]);
        }
        assert forall|i: int| 0 <= i < all.len() implies (#[trigger] all[i]).id.value < bound by {
            assert(i < kept.len() ==> all[i] == kept[i]);
        }
    }
}

/// Moves the flagged elements of `items` into a new vector, in their order.
fn retain_flagged<T>(items: Vec<T>, keep: &Vec<bool>) -> (kept: Vec<T>)
    requires
        items.len() == keep.len(),
    ensures
        kept@ == retained(items@, keep@),
{
    let mut kept: Vec<T> = Vec::new();
    let ghost all = items@;
    let mut i: usize = 0;
    for item in it: items
        invariant
            all.len() == keep.len(),
            it.seq() == all,
            i == it.index(),
            kept@ == retained(all.take(i as int), keep@.take(i as int)),
    {
        proof {
            assert(all.take(i + 1).drop_last() == all.take(i as int));
            assert(keep@.take(i + 1).drop_last() == keep@.take(i as int));
        }
        if keep[i] {
            kept.push(item);
        }
        i += 1;
    }
    proof {
        assert(all.take(all.len() as int) == all);
        assert(keep@.take(keep@.len() as int) == keep@);
    }
    kept
}

/// The live client sinks, in the order in which they registered.
pub struct Broadcaster<S> {
    clients: Vec<Subscriber<S>>,
    next_id: u64,
}

impl<S> View for Broadcaster<S> {
    type V = Seq<Subscriber<S>>;

    /// The registered clients, oldest first.
    closed spec fn view(&self) -> Seq<Subscriber<S>> {
        self.clients@
    }
}

impl<S> Broadcaster<S> {
    /// How many identifiers have been handed out so far.
    pub closed spec fn issued(&self) -> nat {
        self.next_id as nat
    }

    /// The registry that the value stands for.
    pub open spec fn registry(&self) -> Registry<S> {
        Registry { subscribers: self@, issued: self.issued() }
    }

    #[verifier::type_invariant]
    spec fn ordered(&self) -> bool {
        rising(self.clients@, self.next_id as nat)
    }

    /// An empty registry.
    pub fn new() -> (empty: Self)
        ensures
            empty@ == Seq::<Subscriber<S>>::empty(),
            empty.issued() == 0,
            rising(empty@, empty.issued()),
    {
        Broadcaster { clients: Vec::new(), next_id: 0 }
    }

    /// The number of registered clients.
    pub fn len(&self) -> (count: usize)
        ensures
            count == self@.len(),
    {
        self.clients.len()
    }

    /// How many identifiers have been handed out so far.
    pub fn issued_so_far(&self) -> (count: u64)
        ensures
            count == self.issued(),
    {
        self.next_id
    }

    /// Tells whether a client is registered under `id`.
    pub fn contains(&self, id: ClientId) -> (found: bool)
        ensures
            found == registered(self.registry(), id),
    {
        let mut i: usize = 0;
        while i < self.clients.len()
            invariant
                i <= self.clients.len(),
                forall|k: int| 0 <= k < i ==> (#[trigger] self.clients@[k]).id != id,
            decreases self.clients.len() - i,
        {
            if self.clients[i].id == id {
                assert(self.registry().subscribers[i as int].id == id);
                return true;
            }
            i += 1;
        }
        false
    }

    /// Adds a sink to the live set and returns the identifier to remove it by.
    pub fn register(&mut self, sink: S) -> (id: ClientId)
        requires
            old(self).issued() < u64::MAX,
        ensures
            id.value == old(self).issued(),
            !registered(old(self).registry(), id),
            final(self)@ == old(self)@.push(Subscriber { id, sink }),
            final(self).issued() == old(self).issued() + 1,
            final(self).registry() == after(old(self).registry(), Event::Register(sink)),
            rising(final(self)@, final(self).issued()),
    {
        proof {
            use_type_invariant(&*self);
        }
        let id = ClientId { value: self.next_id };
        let mut clients = Vec::new();
        core::mem::swap(&mut self.clients, &mut clients);
        clients.push(Subscriber { id, sink });
        self.next_id = self.next_id + 1;
        self.clients = clients;
        id
    }

    /// Removes the client registered under `id`, if it is still there.
    pub fn deregister(&mut self, id: ClientId)
        ensures
            final(self)@ == retained(old(self)@, others(old(self)@, id)),
            final(self).issued() == old(self).issued(),
            final(self).registry() == after(old(self).registry(), Event::Deregister(id)),
            rising(final(self)@, final(self).issued()),
    {
        proof {
            use_type_invariant(&*self);
        }
        let mut keep: Vec<bool> = Vec::new();
        let mut i: usize = 0;
        while i < self.clients.len()
            invariant
                i <= self.clients.len(),
                keep@ == others(self.clients@, id).take(i as int),
            decreases self.clients.len() - i,
        {
            keep.push(self.clients[i].id != id);
            i += 1;
        }
        let mut clients = Vec::new();
        core::mem::swap(&mut self.clients, &mut clients);
        proof {
            assert(keep@ == others(clients@, id));
            lemma_retained_rising(clients@, keep@, self.next_id as nat);
        }
        self.clients = retain_flagged(clients, &keep);
    }

    /// Offers `notification` to every sink that is registered when the call
    /// begins, oldest first, by one call of `deliver` each. A sink whose
    /// delivery fails does not stop the others; it leaves the live set.
    pub fn broadcast<F: Fn(&S, &str) -> bool>(&mut self, notification: &str, deliver: F) -> (report:
        Vec<Delivery>)
        requires
            forall|i: int|
                0 <= i < old(self)@.len() ==> #[trigger] deliver.requires(
                    (&old(self)@[i].sink, notification),
                ),
        ensures
            offered(deliver, old(self)@, notification, report@),
            final(self)@ == retained(old(self)@, outcomes(report@)),
            final(self).issued() == old(self).issued(),
            final(self).registry() == after(
                old(self).registry(),
                Event::Publish(outcomes(report@)),
            ),
            rising(final(self)@, final(self).issued()),
    {
        proof {
            use_type_invariant(&*self);
        }
        let mut report: Vec<Delivery> = Vec::new();
        let mut keep: Vec<bool> = Vec::new();
        let mut i: usize = 0;
        while i < self.clients.len()
            invariant
                i <= self.clients.len(),
                self.clients@ == old(self)@,
                report@.len() == i,
                keep@ == outcomes(report@),
                forall|k: int|
                    0 <= k < old(self)@.len() ==> #[trigger] deliver.requires(
                        (&old(self)@[k].sink, notification),
                    ),
                forall|k: int|
                    0 <= k < i ==> (#[trigger] report@[k]).client == self.clients@[k].id
                        && deliver.ensures(
                        (&self.clients@[k].sink, notification),
                        report@[k].delivered,
                    ),
            decreases self.clients.len() - i,
        {
            let delivered = deliver(&self.clients[i].sink, notification);
            report.push(Delivery { client: self.clients[i].id, delivered });
            keep.push(delivered);
            i += 1;
        }
        let mut clients = Vec::new();
        core::mem::swap(&mut self.clients, &mut clients);
        proof {
            lemma_retained_rising(clients@, keep@, self.next_id as nat);
        }
        self.clients = retain_flagged(clients, &keep);
        report
    }
}

} // verus!
