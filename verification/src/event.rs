//! The event manager: subscriptions per event type, and which handlers an event reaches.
//! Events are identified by an opaque type key; the payloads and handlers are generic.

use vstd::prelude::*;

verus! {

/// Raw identifier of a [Subscription]. Never zero
#[derive(Debug, Clone, Copy, PartialEq, Eq, Structural, Hash)]
pub struct SubscriptionId(pub u32);

/// Handle to a subscription to an event type. Dropping the handle does not cancel
/// the subscription, but makes it permanent
#[derive(Debug)]
pub struct Subscription(pub SubscriptionId, pub u64);

/// Hands out subscription IDs: 1, 2, 3, ...
pub struct SubscriptionIdGenerator {
    /// The next ID to hand out
    pub next: u32,
}

impl SubscriptionIdGenerator {
    /// A generator whose first ID is 1
    pub fn new() -> (r: Self)
        ensures
            r.next == 1,
    {
        SubscriptionIdGenerator { next: 1 }
    }

    /// Returns a new ID, higher than all IDs handed out before
    pub fn next_id(&mut self) -> (r: SubscriptionId)
        requires
            1 <= old(self).next < u32::MAX,
        ensures
            r.0 == old(self).next,
            final(self).next == old(self).next + 1,
    {
        let id = SubscriptionId(self.next);
        self.next = self.next + 1;
        id
    }
}

/// The ID that the call after `calls` earlier calls of [SubscriptionIdGenerator::next_id]
/// hands out, from a generator whose next ID was `start`
pub open spec fn subscription_id_after(start: u32, calls: nat) -> int
    decreases calls,
{
    if calls == 0 {
        start as int
    } else {
        subscription_id_after(start, (calls - 1) as nat) + 1
    }
}

proof fn lemma_subscription_id_after_counts(start: u32, calls: nat)
    ensures
        subscription_id_after(start, calls) == start + calls,
    decreases calls,
{
    if calls > 0 {
        lemma_subscription_id_after_counts(start, (calls - 1) as nat);
    }
}

/// Every subscription ID is higher than all IDs handed out before it by the same
/// generator: in a run of calls of [SubscriptionIdGenerator::next_id], call `j` hands out a
/// higher ID than an earlier call `i`
pub proof fn lemma_later_subscription_ids_higher(start: u32, i: nat, j: nat)
    requires
        i < j,
    ensures
        subscription_id_after(start, i) < subscription_id_after(start, j),
{
    lemma_subscription_id_after_counts(start, i);
    lemma_subscription_id_after_counts(start, j);
}

/// A message to the event manager
pub enum EventData<P, H> {
    /// A new subscriber for events of type `ty`
    AddSubscriber {
        /// The ID of the new subscriber
        id: SubscriptionId,
        /// The type key of the event
        ty: u64,
        /// The handler
        handler: H,
    },
    /// Cancels a subscription to events of type `ty`
    RemoveSubscriber(SubscriptionId, u64),
    /// A published event of type `ty`
    Custom {
        /// The type key of the event
        ty: u64,
        /// The event itself
        event: P,
    },
}

/// Publishes a new event. If any listeners are active, it will be forwarded to their handler
/// once the returned message is handled
pub fn publish<P, H>(ty: u64, event: P) -> (r: EventData<P, H>)
    ensures
        r == (EventData::<P, H>::Custom { ty, event }),
{
    EventData::Custom { ty, event }
}

/// Subscribes to events of type `ty` with the given handler. Returns the [Subscription],
/// which can be used to [unsubscribe] later, and the message that adds the subscriber
pub fn subscribe<P, H>(ids: &mut SubscriptionIdGenerator, ty: u64, handler: H) -> (r: (Subscription, EventData<P, H>))
    requires
        1 <= old(ids).next < u32::MAX,
    ensures
        r.0.0.0 == old(ids).next,
        r.0.1 == ty,
        final(ids).next == old(ids).next + 1,
        r.1 == (EventData::<P, H>::AddSubscriber { id: r.0.0, ty, handler }),
{
    let id = ids.next_id();
    (Subscription(id, ty), EventData::AddSubscriber { id, ty, handler })
}

/// Unsubscribes from an event: returns the message that cancels the subscription
pub fn unsubscribe<P, H>(subscription: Subscription) -> (r: EventData<P, H>)
    ensures
        r == EventData::<P, H>::RemoveSubscriber(subscription.0, subscription.1),
{
    EventData::RemoveSubscriber(subscription.0, subscription.1)
}

/// The event manager. Holds the subscribers, and for each event type the list of
/// its subscribers in order of subscription
pub struct EventManager<H> {
    /// The subscribers with their handlers
    pub subscribers: Vec<(SubscriptionId, H)>,
    /// For each event type, its subscribers
    pub subscribers_by_type: Vec<(u64, Vec<SubscriptionId>)>,
}

/// Whether the subscriber with the ID is in the list
pub open spec fn has_subscriber<H>(subs: Seq<(SubscriptionId, H)>, id: SubscriptionId) -> bool {
    exists|i: int| 0 <= i < subs.len() && (#[trigger] subs[i]).0 == id
}

impl<H> EventManager<H> {
    /// A manager without subscribers
    pub fn new() -> (r: Self)
        ensures
            r.wf(),
            r.subscribers@.len() == 0,
            r.subscribers_by_type@.len() == 0,
    {
        EventManager { subscribers: Vec::new(), subscribers_by_type: Vec::new() }
    }

    /// Subscriber IDs and event types are distinct, and every listed subscriber has a handler
    pub open spec fn wf(&self) -> bool {
        &&& forall|i: int, j: int| 0 <= i < j < self.subscribers@.len() ==> (#[trigger] self.subscribers@[i]).0 != (#[trigger] self.subscribers@[j]).0
        &&& forall|i: int, j: int| 0 <= i < j < self.subscribers_by_type@.len() ==> (#[trigger] self.subscribers_by_type@[i]).0 != (#[trigger] self.subscribers_by_type@[j]).0
        &&& forall|t: int, k: int| 0 <= t < self.subscribers_by_type@.len() && 0 <= k < self.subscribers_by_type@[t].1@.len()
            ==> has_subscriber(self.subscribers@, #[trigger] self.subscribers_by_type@[t].1@[k])
    }

    /// The subscriber list of the event type (empty if the type has no entry)
    pub open spec fn listed(&self, ty: u64) -> Seq<SubscriptionId> {
        if exists|t: int| 0 <= t < self.subscribers_by_type@.len() && (#[trigger] self.subscribers_by_type@[t]).0 == ty {
            let t = choose|t: int| 0 <= t < self.subscribers_by_type@.len() && (#[trigger] self.subscribers_by_type@[t]).0 == ty;
            self.subscribers_by_type@[t].1@
        } else {
            Seq::empty()
        }
    }

    /// Whether the event type has an entry
    pub open spec fn has_type(&self, ty: u64) -> bool {
        exists|t: int| 0 <= t < self.subscribers_by_type@.len() && (#[trigger] self.subscribers_by_type@[t]).0 == ty
    }

    /// The handler of the subscriber
    pub open spec fn handler_of(&self, id: SubscriptionId) -> H {
        let i = choose|i: int| 0 <= i < self.subscribers@.len() && (#[trigger] self.subscribers@[i]).0 == id;
        self.subscribers@[i].1
    }

    fn find_type(&self, ty: u64) -> (r: Option<usize>)
        requires
            self.wf(),
        ensures
            r matches Some(t) ==> t < self.subscribers_by_type@.len() && self.subscribers_by_type@[t as int].0 == ty
                && self.listed(ty) == self.subscribers_by_type@[t as int].1@,
            r is None ==> !self.has_type(ty),
    {
        let mut t: usize = 0;
        while t < self.subscribers_by_type.len()
            invariant
                0 <= t <= self.subscribers_by_type@.len(),
                self.wf(),
                forall|u: int| 0 <= u < t ==> (#[trigger] self.subscribers_by_type@[u]).0 != ty,
            decreases self.subscribers_by_type.len() - t,
        {
            if self.subscribers_by_type[t].0 == ty {
                proof {
                    let c = choose|c: int| 0 <= c < self.subscribers_by_type@.len() && (#[trigger] self.subscribers_by_type@[c]).0 == ty;
                    if c != t {
                        if c < t {
                            assert(self.subscribers_by_type@[c].0 != self.subscribers_by_type@[t as int].0);
                        } else {
                            assert(self.subscribers_by_type@[t as int].0 != self.subscribers_by_type@[c].0);
                        }
                    }
                }
                return Some(t);
            }
            t += 1;
        }
        None
    }

    fn find_subscriber(&self, id: SubscriptionId) -> (r: Option<usize>)
        requires
            self.wf(),
        ensures
            r matches Some(i) ==> i < self.subscribers@.len() && self.subscribers@[i as int].0 == id
                && self.handler_of(id) == self.subscribers@[i as int].1,
            r is None ==> !has_subscriber(self.subscribers@, id),
    {
        let mut i: usize = 0;
        while i < self.subscribers.len()
            invariant
                0 <= i <= self.subscribers@.len(),
                self.wf(),
                forall|u: int| 0 <= u < i ==> (#[trigger] self.subscribers@[u]).0 != id,
            decreases self.subscribers.len() - i,
        {
            if self.subscribers[i].0 == id {
                proof {
                    let c = choose|c: int| 0 <= c < self.subscribers@.len() && (#[trigger] self.subscribers@[c]).0 == id;
                    if c != i {
                        if c < i {
                            assert(self.subscribers@[c].0 != self.subscribers@[i as int].0);
                        } else {
                            assert(self.subscribers@[i as int].0 != self.subscribers@[c].0);
                        }
                    }
                }
                return Some(i);
            }
            i += 1;
        }
        None
    }

    /// Adds a new subscriber, listed last for its event type
    pub fn add_subscriber(&mut self, id: SubscriptionId, ty: u64, handler: H)
        requires
            old(self).wf(),
            !has_subscriber(old(self).subscribers@, id),
        ensures
            final(self).wf(),
            final(self).subscribers@ == old(self).subscribers@.push((id, handler)),
            final(self).listed(ty) == old(self).listed(ty).push(id),
            forall|other: u64| other != ty ==> final(self).listed(other) == old(self).listed(other),
    {
        let ghost old_self = *self;
        let ghost mut pos: int = 0;
        match self.find_type(ty) {
            Some(t) => {
                let (tty, mut list) = self.subscribers_by_type.remove(t);
                list.push(id);
                self.subscribers_by_type.insert(t, (tty, list));
                proof {
                    pos = t as int;
                }
            },
            None => {
                let mut list = Vec::new();
                list.push(id);
                self.subscribers_by_type.push((ty, list));
                proof {
                    pos = old_self.subscribers_by_type@.len() as int;
                }
            },
        }
        self.subscribers.push((id, handler));
        proof {
            let bt = self.subscribers_by_type@;
            let obt = old_self.subscribers_by_type@;
            assert forall|i: int, j: int| 0 <= i < j < self.subscribers@.len() implies (#[trigger] self.subscribers@[i]).0 != (#[trigger] self.subscribers@[j]).0 by {
                if j == old_self.subscribers@.len() {
                    assert(self.subscribers@[i] == old_self.subscribers@[i]);
                } else {
                    assert(self.subscribers@[i] == old_self.subscribers@[i]);
                    assert(self.subscribers@[j] == old_self.subscribers@[j]);
                }
            }
            assert forall|q: SubscriptionId| has_subscriber(old_self.subscribers@, q) implies has_subscriber(self.subscribers@, q) by {
                let i = choose|i: int| 0 <= i < old_self.subscribers@.len() && (#[trigger] old_self.subscribers@[i]).0 == q;
                assert(self.subscribers@[i] == old_self.subscribers@[i]);
            }
            assert(has_subscriber(self.subscribers@, id)) by {
                assert(self.subscribers@[old_self.subscribers@.len() as int].0 == id);
            }
            // The position of each type entry stays the same (a new type goes last)
            assert(bt.len() >= obt.len());
            assert forall|u: int| 0 <= u < obt.len() implies (#[trigger] bt[u]).0 == obt[u].0
                && (obt[u].0 != ty ==> bt[u] == obt[u]) by {
            }
            assert forall|i: int, j: int| 0 <= i < j < bt.len() implies (#[trigger] bt[i]).0 != (#[trigger] bt[j]).0 by {
                if j < obt.len() {
                    assert(obt[i].0 != obt[j].0);
                } else {
                    assert(!old_self.has_type(ty));
                    assert(bt[i].0 == obt[i].0);
                }
            }
            assert forall|t: int, k: int| 0 <= t < bt.len() && 0 <= k < bt[t].1@.len()
                implies has_subscriber(self.subscribers@, #[trigger] bt[t].1@[k]) by {
                if t < obt.len() && obt[t].0 != ty {
                    assert(bt[t] == obt[t]);
                    assert(has_subscriber(old_self.subscribers@, obt[t].1@[k]));
                } else if t < obt.len() {
                    if k < obt[t].1@.len() {
                        assert(bt[t].1@[k] == obt[t].1@[k]);
                        assert(has_subscriber(old_self.subscribers@, obt[t].1@[k]));
                    }
                }
            }
            assert(bt[pos].0 == ty);
            assert(self.has_type(ty));
            assert forall|other: u64| other != ty implies #[trigger] self.listed(other) == old_self.listed(other) by {
                if old_self.has_type(other) {
                    let u = choose|u: int| 0 <= u < obt.len() && (#[trigger] obt[u]).0 == other;
                    assert(bt[u] == obt[u]);
                    let c = choose|c: int| 0 <= c < bt.len() && (#[trigger] bt[c]).0 == other;
                    if c != u {
                        if c < u {
                            assert(bt[c].0 != bt[u].0);
                        } else {
                            assert(bt[u].0 != bt[c].0);
                        }
                    }
                } else {
                    if self.has_type(other) {
                        let c = choose|c: int| 0 <= c < bt.len() && (#[trigger] bt[c]).0 == other;
                        if c < obt.len() {
                            assert(bt[c].0 == obt[c].0);
                        }
                    }
                }
            }
            let c = choose|c: int| 0 <= c < bt.len() && (#[trigger] bt[c]).0 == ty;
            if old_self.has_type(ty) {
                let u = choose|u: int| 0 <= u < obt.len() && (#[trigger] obt[u]).0 == ty;
                if c != u {
                    if c < u {
                        assert(bt[c].0 != bt[u].0);
                    } else {
                        assert(bt[u].0 != bt[c].0);
                    }
                }
                assert(self.listed(ty) =~= old_self.listed(ty).push(id));
            } else {
                if c < obt.len() {
                    assert(bt[c].0 == obt[c].0);
                }
                assert(self.listed(ty) =~= old_self.listed(ty).push(id));
            }
        }
    }

    /// Removes a subscriber. The subscriber must exist, and its event type must have an entry
    pub fn remove_subscriber(&mut self, id: SubscriptionId, ty: u64)
        requires
            old(self).wf(),
            has_subscriber(old(self).subscribers@, id),
            old(self).has_type(ty),
            forall|t: int, k: int| 0 <= t < old(self).subscribers_by_type@.len() && 0 <= k < old(self).subscribers_by_type@[t].1@.len()
                && #[trigger] old(self).subscribers_by_type@[t].1@[k] == id ==> old(self).subscribers_by_type@[t].0 == ty,
        ensures
            final(self).wf(),
            !has_subscriber(final(self).subscribers@, id),
            forall|q: SubscriptionId| q != id ==> (has_subscriber(final(self).subscribers@, q) == has_subscriber(old(self).subscribers@, q)),
            final(self).listed(ty) == old(self).listed(ty).filter(|s: SubscriptionId| s != id),
            !final(self).listed(ty).contains(id),
            forall|other: u64| other != ty ==> final(self).listed(other) == old(self).listed(other),
    {
        let ghost old_self = *self;
        let i = self.find_subscriber(id).unwrap();
        let t = self.find_type(ty).unwrap();
        self.subscribers.remove(i);
        let (tty, list) = self.subscribers_by_type.remove(t);
        let kept = retain_other(&list, id);
        self.subscribers_by_type.insert(t, (tty, kept));
        proof {
            let s = self.subscribers@;
            let os = old_self.subscribers@;
            let bt = self.subscribers_by_type@;
            let obt = old_self.subscribers_by_type@;
            assert forall|a: int, b: int| 0 <= a < b < s.len() implies (#[trigger] s[a]).0 != (#[trigger] s[b]).0 by {
                let pa = if a < i { a } else { a + 1 };
                let pb = if b < i { b } else { b + 1 };
                assert(s[a] == os[pa]);
                assert(s[b] == os[pb]);
            }
            assert forall|q: SubscriptionId| q != id implies (has_subscriber(s, q) == has_subscriber(os, q)) by {
                if has_subscriber(s, q) {
                    let a = choose|a: int| 0 <= a < s.len() && (#[trigger] s[a]).0 == q;
                    let pa = if a < i { a } else { a + 1 };
                    assert(s[a] == os[pa]);
                }
                if has_subscriber(os, q) {
                    let a = choose|a: int| 0 <= a < os.len() && (#[trigger] os[a]).0 == q;
                    assert(a != i);
                    if a < i {
                        assert(s[a] == os[a]);
                    } else {
                        assert(s[a - 1] == os[a]);
                    }
                }
            }
            assert(!has_subscriber(s, id)) by {
                if has_subscriber(s, id) {
                    let a = choose|a: int| 0 <= a < s.len() && (#[trigger] s[a]).0 == id;
                    let pa = if a < i { a } else { a + 1 };
                    assert(s[a] == os[pa]);
                    assert(pa != i);
                    if pa < i {
                        assert(os[pa].0 != os[i as int].0);
                    } else {
                        assert(os[i as int].0 != os[pa].0);
                    }
                }
            }
            assert forall|u: int| 0 <= u < obt.len() && u != t implies bt[u] == obt[u] by {}
            assert forall|a: int, b: int| 0 <= a < b < bt.len() implies (#[trigger] bt[a]).0 != (#[trigger] bt[b]).0 by {
                assert(bt[a].0 == obt[a].0);
                assert(bt[b].0 == obt[b].0);
            }
            assert forall|u: int, k: int| 0 <= u < bt.len() && 0 <= k < bt[u].1@.len()
                implies has_subscriber(s, #[trigger] bt[u].1@[k]) by {
                let q = bt[u].1@[k];
                if u != t {
                    assert(bt[u] == obt[u]);
                    assert(has_subscriber(os, q));
                    if q == id {
                        assert(obt[u].0 == ty);
                        assert(obt[t as int].0 == ty);
                        if u < t {
                            assert(obt[u].0 != obt[t as int].0);
                        } else {
                            assert(obt[t as int].0 != obt[u].0);
                        }
                    }
                } else {
                    assert(kept@.contains(q));
                    assert(q != id && list@.contains(q));
                    let kk = choose|kk: int| 0 <= kk < list@.len() && list@[kk] == q;
                    assert(obt[t as int].1@[kk] == q);
                    assert(has_subscriber(os, q));
                }
            }
            assert(self.listed(ty) =~= old_self.listed(ty).filter(|x: SubscriptionId| x != id)) by {
                let c = choose|c: int| 0 <= c < bt.len() && (#[trigger] bt[c]).0 == ty;
                if c != t {
                    if c < t {
                        assert(bt[c].0 != bt[t as int].0);
                    } else {
                        assert(bt[t as int].0 != bt[c].0);
                    }
                }
            }
            if self.listed(ty).contains(id) {
                old_self.listed(ty).lemma_filter_contains_rev(|x: SubscriptionId| x != id, id);
                let k = choose|k: int| 0 <= k < self.listed(ty).len() && self.listed(ty)[k] == id;
                old_self.listed(ty).lemma_filter_pred(|x: SubscriptionId| x != id, k);
            }
            assert forall|other: u64| other != ty implies #[trigger] self.listed(other) == old_self.listed(other) by {
                if old_self.has_type(other) {
                    let u = choose|u: int| 0 <= u < obt.len() && (#[trigger] obt[u]).0 == other;
                    assert(u != t);
                    assert(bt[u] == obt[u]);
                    let c = choose|c: int| 0 <= c < bt.len() && (#[trigger] bt[c]).0 == other;
                    if c != u {
                        if c < u {
                            assert(bt[c].0 != bt[u].0);
                        } else {
                            assert(bt[u].0 != bt[c].0);
                        }
                    }
                } else {
                    if self.has_type(other) {
                        let c = choose|c: int| 0 <= c < bt.len() && (#[trigger] bt[c]).0 == other;
                        assert(bt[c].0 == obt[c].0);
                    }
                }
            }
        }
    }

    /// Returns the handlers to call for an event of type `ty`, in order of subscription
    pub fn dispatch_targets(&self, ty: u64) -> (r: Vec<&H>)
        requires
            self.wf(),
        ensures
            r@.len() == self.listed(ty).len(),
            forall|k: int| 0 <= k < r@.len() ==> *(#[trigger] r@[k]) == self.handler_of(self.listed(ty)[k]),
    {
        let mut r: Vec<&H> = Vec::new();
        match self.find_type(ty) {
            Some(t) => {
                let list = &self.subscribers_by_type[t].1;
                let mut k: usize = 0;
                while k < list.len()
                    invariant
                        0 <= k <= list@.len(),
                        self.wf(),
                        t < self.subscribers_by_type@.len(),
                        list@ == self.subscribers_by_type@[t as int].1@,
                        list@ == self.listed(ty),
                        r@.len() == k,
                        forall|j: int| 0 <= j < k ==> *(#[trigger] r@[j]) == self.handler_of(list@[j]),
                    decreases list.len() - k,
                {
                    assert(has_subscriber(self.subscribers@, self.subscribers_by_type@[t as int].1@[k as int]));
                    let i = self.find_subscriber(list[k]).unwrap();
                    r.push(&self.subscribers[i].1);
                    k += 1;
                }
            },
            None => {},
        }
        r
    }

    /// Handles one message: adds or removes a subscriber, or for a published event,
    /// returns its type key and payload, to be given to the [Self::dispatch_targets]
    pub fn handle_event<P>(&mut self, event: EventData<P, H>) -> (r: Option<(u64, P)>)
        requires
            old(self).wf(),
            old(self).accepts(&event),
        ensures
            final(self).wf(),
            match event {
                EventData::AddSubscriber { id, ty, handler } => r is None
                    && final(self).subscribers@ == old(self).subscribers@.push((id, handler))
                    && final(self).listed(ty) == old(self).listed(ty).push(id),
                EventData::RemoveSubscriber(id, ty) => r is None && !has_subscriber(final(self).subscribers@, id)
                    && final(self).listed(ty) == old(self).listed(ty).filter(|s: SubscriptionId| s != id)
                    && !final(self).listed(ty).contains(id),
                EventData::Custom { ty, event } => r == Some((ty, event)) && *final(self) == *old(self),
            },
    {
        match event {
            EventData::AddSubscriber { id, ty, handler } => {
                self.add_subscriber(id, ty, handler);
                None
            },
            EventData::RemoveSubscriber(id, ty) => {
                self.remove_subscriber(id, ty);
                None
            },
            EventData::Custom { ty, event } => Some((ty, event)),
        }
    }

    /// Whether the message can be handled: a new subscriber is not yet subscribed, and a
    /// removed subscriber is subscribed, under that event type only
    pub open spec fn accepts<P>(&self, event: &EventData<P, H>) -> bool {
        match event {
            EventData::AddSubscriber { id, .. } => !has_subscriber(self.subscribers@, *id),
            EventData::RemoveSubscriber(id, ty) => {
                &&& has_subscriber(self.subscribers@, *id)
                &&& self.has_type(*ty)
                &&& forall|t: int, k: int| 0 <= t < self.subscribers_by_type@.len() && 0 <= k < self.subscribers_by_type@[t].1@.len()
                    && #[trigger] self.subscribers_by_type@[t].1@[k] == *id ==> self.subscribers_by_type@[t].0 == *ty
            },
            EventData::Custom { .. } => true,
        }
    }

    /// Checks [Self::accepts]
    pub fn can_handle<P>(&self, event: &EventData<P, H>) -> (r: bool)
        requires
            self.wf(),
        ensures
            r == self.accepts(event),
    {
        match event {
            EventData::AddSubscriber { id, .. } => self.find_subscriber(*id).is_none(),
            EventData::RemoveSubscriber(id, ty) => {
                if self.find_subscriber(*id).is_none() || self.find_type(*ty).is_none() {
                    return false;
                }
                let mut t: usize = 0;
                while t < self.subscribers_by_type.len()
                    invariant
                        0 <= t <= self.subscribers_by_type@.len(),
                        forall|u: int, k: int| 0 <= u < t && 0 <= k < self.subscribers_by_type@[u].1@.len()
                            && #[trigger] self.subscribers_by_type@[u].1@[k] == *id ==> self.subscribers_by_type@[u].0 == *ty,
                        event matches EventData::RemoveSubscriber(eid, ety) && eid == *id && ety == *ty,
                    decreases self.subscribers_by_type.len() - t,
                {
                    if self.subscribers_by_type[t].0 != *ty {
                        let list = &self.subscribers_by_type[t].1;
                        let mut k: usize = 0;
                        while k < list.len()
                            invariant
                                0 <= k <= list@.len(),
                                t < self.subscribers_by_type@.len(),
                                list@ == self.subscribers_by_type@[t as int].1@,
                                self.subscribers_by_type@[t as int].0 != *ty,
                                event matches EventData::RemoveSubscriber(eid, ety) && eid == *id && ety == *ty,
                                forall|j: int| 0 <= j < k ==> list@[j] != *id,
                            decreases list.len() - k,
                        {
                            if list[k] == *id {
                                assert(self.subscribers_by_type@[t as int].1@[k as int] == *id);
                                assert(!self.accepts(event));
                                return false;
                            }
                            k += 1;
                        }
                    }
                    t += 1;
                }
                true
            },
            EventData::Custom { .. } => true,
        }
    }
}

/// The subscribers in `list` other than `id`, in order
fn retain_other(list: &Vec<SubscriptionId>, id: SubscriptionId) -> (r: Vec<SubscriptionId>)
    ensures
        r@ == list@.filter(|s: SubscriptionId| s != id),
        forall|q: SubscriptionId| r@.contains(q) <==> (list@.contains(q) && q != id),
{
    let mut r: Vec<SubscriptionId> = Vec::new();
    let mut i: usize = 0;
    while i < list.len()
        invariant
            0 <= i <= list@.len(),
            r@ == list@.subrange(0, i as int).filter(|s: SubscriptionId| s != id),
        decreases list.len() - i,
    {
        proof {
            let pre = list@.subrange(0, i as int);
            let next = list@.subrange(0, i + 1);
            assert(next.drop_last() =~= pre);
            assert(next.last() == list@[i as int]);
            reveal_with_fuel(Seq::filter, 1);
        }
        if list[i] != id {
            r.push(list[i]);
        }
        i += 1;
    }
    assert(list@.subrange(0, list@.len() as int) == list@);
    proof {
        assert forall|q: SubscriptionId| r@.contains(q) <==> (list@.contains(q) && q != id) by {
            let pred = |s: SubscriptionId| s != id;
            if r@.contains(q) {
                list@.lemma_filter_contains_rev(pred, q);
                let k = choose|k: int| 0 <= k < r@.len() && r@[k] == q;
                list@.lemma_filter_pred(pred, k);
            }
            if list@.contains(q) && q != id {
                let k = choose|k: int| 0 <= k < list@.len() && list@[k] == q;
                list@.lemma_filter_contains(pred, k);
            }
        }
    }
    r
}

/// Filtering out an ID that does not occur leaves the list as it is
proof fn lemma_filter_absent(list: Seq<SubscriptionId>, id: SubscriptionId)
    requires
        !list.contains(id),
    ensures
        list.filter(|s: SubscriptionId| s != id) == list,
    decreases list.len(),
{
    reveal_with_fuel(Seq::filter, 1);
    if list.len() > 0 {
        assert(!list.drop_last().contains(id)) by {
            if list.drop_last().contains(id) {
                let k = choose|k: int| 0 <= k < list.drop_last().len() && list.drop_last()[k] == id;
                assert(list[k] == id);
            }
        }
        lemma_filter_absent(list.drop_last(), id);
        assert(list.last() != id) by {
            assert(list[list.len() - 1] == list.last());
        }
        assert(list.drop_last().push(list.last()) =~= list);
    }
}

/// Unsubscribing undoes subscribing: a new subscriber that is added to an event type and
/// then removed from it leaves the subscribers of that type as they were
pub proof fn lemma_unsubscribe_undoes_subscribe<H>(
    before: EventManager<H>,
    subscribed: EventManager<H>,
    after: EventManager<H>,
    id: SubscriptionId,
    ty: u64,
)
    requires
        before.wf(),
        !has_subscriber(before.subscribers@, id),
        subscribed.listed(ty) == before.listed(ty).push(id),
        after.listed(ty) == subscribed.listed(ty).filter(|s: SubscriptionId| s != id),
    ensures
        after.listed(ty) == before.listed(ty),
{
    let old_list = before.listed(ty);
    assert(!old_list.contains(id)) by {
        if old_list.contains(id) {
            let k = choose|k: int| 0 <= k < old_list.len() && old_list[k] == id;
            let t = choose|t: int| 0 <= t < before.subscribers_by_type@.len() && (#[trigger] before.subscribers_by_type@[t]).0 == ty;
            assert(has_subscriber(before.subscribers@, before.subscribers_by_type@[t].1@[k]));
        }
    }
    reveal_with_fuel(Seq::filter, 1);
    assert(old_list.push(id).drop_last() =~= old_list);
    lemma_filter_absent(old_list, id);
}

} // verus!
