//! Engine-wide publish/subscribe event bus.
//!
//! Any subsystem can emit typed events and any subsystem can subscribe to
//! them. Events are queued during a frame and dispatched by [`EventBus::flush`].

use std::any::TypeId;
use std::marker::PhantomData;
use vstd::prelude::*;

use crate::erased::{type_key, ErasedValue, TypeMap};

verus! {

/// An engine event: any `'static + Send + Sync` type, typically a small struct.
pub trait Event: Send + Sync + 'static {}

impl<T: Send + Sync + 'static> Event for T {}

/// A receiver of dispatched events.
pub trait EventHandler: Send + Sync {
    /// Called with each dispatched event of the type the handler was
    /// subscribed to.
    fn call(&mut self, event: &ErasedValue);
}

/// A typed handler wrapping a closure over events of type `E`.
struct HandlerFn<E, F> {
    f: F,
    marker: PhantomData<E>,
    /// The events the handler was called with, each with its call stamp.
    seen: Ghost<Seq<(ErasedValue, nat)>>,
}

/// Runs the user's handler closure on an event (`FnMut::call_mut`).
/// Nothing is promised of what the closure does.
#[verifier::external_body]
fn run_handler<E, F: FnMut(&E)>(f: &mut F, event: &E) {
    f(event)
}

impl<E: Event, F: FnMut(&E) + Send + Sync> EventHandler for HandlerFn<E, F> {
    /// Runs the closure on the event when it is an `E`.
    fn call(&mut self, event: &ErasedValue) {
        match event.downcast_ref::<E>() {
            Some(e) => run_handler(&mut self.f, e),
            None => {},
        }
    }
}

/// Counts the handler calls the bus makes; each call takes the next stamp.
struct CallClock {
    ticks: Ghost<nat>,
}

impl CallClock {
    /// The stamp the next call takes.
    spec fn now(&self) -> nat {
        self.ticks@
    }

    fn tick(&mut self)
        ensures
            final(self).now() == old(self).now() + 1,
    {
        self.ticks = Ghost(self.ticks@ + 1);
    }
}

/// A handler as the bus calls it: each delivery is recorded with the stamp
/// the clock gave it.
trait Delivery: Send + Sync {
    /// The deliveries so far, oldest first, each with its call stamp.
    spec fn received(&self) -> Seq<(ErasedValue, nat)>;

    fn deliver(&mut self, event: &ErasedValue, clock: &mut CallClock)
        ensures
            final(self).received() == old(self).received().push((*event, old(clock).now())),
            final(clock).now() == old(clock).now() + 1,
    ;
}

impl<E: Event, F: FnMut(&E) + Send + Sync> Delivery for HandlerFn<E, F> {
    closed spec fn received(&self) -> Seq<(ErasedValue, nat)> {
        self.seen@
    }

    /// Calls the handler and records the call with the clock's stamp.
    fn deliver(&mut self, event: &ErasedValue, clock: &mut CallClock) {
        let ghost seen = self.seen@;
        self.call(event);
        self.seen = Ghost(seen.push((*event, clock.now())));
        clock.tick();
    }
}

/// How many handlers `counts` holds for type key `k`.
pub open spec fn count_of(counts: Map<TypeId, nat>, k: TypeId) -> nat {
    if counts.contains_key(k) {
        counts[k]
    } else {
        0
    }
}

/// How many handler calls dispatching `pending` makes: for each event, as
/// many as its type has handlers.
pub open spec fn calls_for(pending: Seq<(TypeId, ErasedValue)>, counts: Map<TypeId, nat>) -> nat
    decreases pending.len(),
{
    if pending.len() == 0 {
        0
    } else {
        calls_for(pending.drop_last(), counts) + count_of(counts, pending.last().0)
    }
}

/// What handler `j` of type key `k` receives when `pending` is dispatched
/// with call stamps from `start` on: each event of type `k`, in emission
/// order, stamped with its place in the dispatch order. That order takes
/// the events one after the other and, for each, its type's handlers in
/// subscription order.
pub open spec fn deliveries(
    pending: Seq<(TypeId, ErasedValue)>,
    counts: Map<TypeId, nat>,
    k: TypeId,
    j: nat,
    start: nat,
) -> Seq<(ErasedValue, nat)>
    decreases pending.len(),
{
    if pending.len() == 0 {
        Seq::empty()
    } else {
        let rest = deliveries(pending.drop_last(), counts, k, j, start);
        if pending.last().0 == k {
            rest.push((pending.last().1, start + calls_for(pending.drop_last(), counts) + j))
        } else {
            rest
        }
    }
}

/// Boxes a handler as a trait object.
fn box_delivery<H: Delivery + 'static>(handler: H) -> Box<dyn Delivery> {
    Box::new(handler)
}

/// A subscribed handler behind dynamic dispatch, with the number of
/// deliveries it had before it was subscribed.
struct BoxedHandler {
    inner: Box<dyn Delivery>,
    since: Ghost<nat>,
}

impl BoxedHandler {
    /// The deliveries since the handler was subscribed.
    spec fn received(&self) -> Seq<(ErasedValue, nat)> {
        self.inner.received().skip(self.since@ as int)
    }

    spec fn wf(&self) -> bool {
        self.since@ <= self.inner.received().len()
    }

    /// Boxes a handler; it has received nothing yet.
    fn new<H: Delivery + 'static>(handler: H) -> (r: BoxedHandler)
        ensures
            r.wf(),
            r.received() == Seq::<(ErasedValue, nat)>::empty(),
    {
        let inner = box_delivery(handler);
        BoxedHandler::starting_now(inner)
    }

    /// Wraps a boxed handler, counting only deliveries from now on.
    fn starting_now(inner: Box<dyn Delivery>) -> (r: BoxedHandler)
        ensures
            r.wf(),
            r.received() == Seq::<(ErasedValue, nat)>::empty(),
    {
        let mut r = BoxedHandler { inner, since: Ghost(0) };
        r.since = Ghost(r.inner.received().len());
        assert(r.received() =~= Seq::<(ErasedValue, nat)>::empty());
        r
    }

    /// Delivers an event to the boxed handler, with the clock's stamp.
    fn deliver(&mut self, event: &ErasedValue, clock: &mut CallClock)
        requires
            old(self).wf(),
        ensures
            final(self).wf(),
            final(self).received() == old(self).received().push((*event, old(clock).now())),
            final(clock).now() == old(clock).now() + 1,
    {
        let ghost before = self.inner.received();
        self.inner.deliver(event, clock);
        assert(self.received() =~= before.skip(self.since@ as int).push((*event, old(clock).now())));
    }
}

/// Calls every handler of `list` on `event`, in order, each with the next
/// stamp.
fn deliver_all(list: &mut Vec<BoxedHandler>, event: &ErasedValue, clock: &mut CallClock)
    requires
        forall|j: int| 0 <= j < old(list)@.len() ==> (#[trigger] old(list)@[j]).wf(),
    ensures
        final(list)@.len() == old(list)@.len(),
        forall|j: int| 0 <= j < final(list)@.len() ==> (#[trigger] final(list)@[j]).wf(),
        forall|j: int|
            0 <= j < old(list)@.len() ==> #[trigger] final(list)@[j].received() == old(
                list,
            )@[j].received().push((*event, old(clock).now() + j as nat)),
        final(clock).now() == old(clock).now() + old(list)@.len(),
{
    let ghost before = list@;
    let ghost c0 = clock.now();
    let m = list.len();
    for j in 0..m
        invariant
            m == list@.len(),
            m == before.len(),
            clock.now() == c0 + j,
            forall|jj: int| 0 <= jj < m ==> (#[trigger] list@[jj]).wf(),
            forall|jj: int|
                0 <= jj < j ==> #[trigger] list@[jj].received() == before[jj].received().push(
                    (*event, c0 + jj as nat),
                ),
            forall|jj: int| j <= jj < m ==> #[trigger] list@[jj].received() == before[jj].received(),
    {
        list[j].deliver(event, clock);
    }
}

/// Engine-wide event bus.
///
/// Events are queued with [`emit`](EventBus::emit) and dispatched by calling
/// [`flush`](EventBus::flush) at the end of each frame.
pub struct EventBus {
    /// Pending events with the identity of their type.
    pending: Vec<(TypeId, ErasedValue)>,
    /// Registered handlers, by event type.
    handlers: TypeMap<Vec<BoxedHandler>>,
    /// The stamp of the next handler call.
    clock: CallClock,
}

impl EventBus {
    /// The bus's invariant.
    pub closed spec fn wf(&self) -> bool {
        &&& self.handlers.wf()
        &&& forall|k: TypeId, j: int|
            self.handlers@.contains_key(k) && 0 <= j < self.handlers@[k]@.len()
                ==> (#[trigger] self.handlers@[k]@[j]).wf()
    }

    /// The pending events with their type keys, in emission order.
    pub closed spec fn pending_events(&self) -> Seq<(TypeId, ErasedValue)> {
        self.pending@
    }

    /// The type keys of the pending events, in emission order.
    pub open spec fn pending_keys(&self) -> Seq<TypeId> {
        self.pending_events().map_values(|p: (TypeId, ErasedValue)| p.0)
    }

    /// The number of handlers subscribed to each event type.
    pub closed spec fn handler_counts(&self) -> Map<TypeId, nat> {
        self.handlers@.map_values(|v: Vec<BoxedHandler>| v@.len())
    }

    /// How many handler calls the bus has made.
    pub closed spec fn calls_made(&self) -> nat {
        self.clock.now()
    }

    /// The events that handler `j` (in subscription order) of type key `k`
    /// has been called with since it was subscribed, oldest first, each with
    /// its call stamp: the number of handler calls the bus had made before.
    pub closed spec fn received(&self, k: TypeId, j: int) -> Seq<(ErasedValue, nat)> {
        self.handlers@[k]@[j].received()
    }

    /// Create an empty event bus.
    pub fn new() -> (b: Self)
        ensures
            b.wf(),
            b.pending_events() == Seq::<(TypeId, ErasedValue)>::empty(),
            b.handler_counts() == Map::<TypeId, nat>::empty(),
            b.calls_made() == 0,
    {
        let b = EventBus {
            pending: Vec::new(),
            handlers: TypeMap::new(),
            clock: CallClock { ticks: Ghost(0) },
        };
        assert(b.handler_counts() =~= Map::<TypeId, nat>::empty());
        b
    }

    /// Queue an event to be dispatched by the next flush. No handler is
    /// called.
    pub fn emit<E: Event>(&mut self, event: E)
        requires
            old(self).wf(),
        ensures
            final(self).wf(),
            exists|k: TypeId, v: ErasedValue|
                #[trigger] final(self).pending_events() == old(self).pending_events().push((k, v)),
            final(self).handler_counts() == old(self).handler_counts(),
            final(self).calls_made() == old(self).calls_made(),
            forall|k: TypeId, j: int|
                0 <= j < count_of(old(self).handler_counts(), k) ==> #[trigger] final(self).received(k, j)
                    == old(self).received(k, j),
    {
        let key = type_key::<E>();
        let value = ErasedValue::new(event);
        self.pending.push((key, value));
        assert(self.pending_events() == old(self).pending_events().push((key, value)));
    }

    /// Subscribe a closure to events of type `E`. It comes after the handlers
    /// already subscribed to its type, has received nothing yet, and from
    /// the next flush on is called once for every event of its type. The
    /// handlers already subscribed are unchanged, and no handler is called.
    pub fn subscribe<E: Event, F: FnMut(&E) + Send + Sync + 'static>(&mut self, handler: F)
        requires
            old(self).wf(),
        ensures
            final(self).wf(),
            exists|k: TypeId|
                {
                    &&& #[trigger] final(self).handler_counts() == old(self).handler_counts().insert(
                        k,
                        count_of(old(self).handler_counts(), k) + 1,
                    )
                    &&& final(self).received(k, count_of(old(self).handler_counts(), k) as int)
                        == Seq::<(ErasedValue, nat)>::empty()
                },
            forall|k: TypeId, j: int|
                0 <= j < count_of(old(self).handler_counts(), k) ==> #[trigger] final(self).received(k, j)
                    == old(self).received(k, j),
            final(self).pending_events() == old(self).pending_events(),
            final(self).calls_made() == old(self).calls_made(),
    {
        let key = type_key::<E>();
        let boxed = BoxedHandler::new(
            HandlerFn::<E, F> { f: handler, marker: PhantomData, seen: Ghost(Seq::empty()) },
        );
        match self.handlers.get_mut(&key) {
            Some(list) => {
                list.push(boxed);
                assert(self.handlers@[key]@.len() == old(self).handlers@[key]@.len() + 1);
                assert(count_of(old(self).handler_counts(), key) == old(self).handlers@[key]@.len());
            },
            None => {
                let mut list: Vec<BoxedHandler> = Vec::new();
                list.push(boxed);
                self.handlers.insert(key, list);
                assert(self.handlers@[key]@.len() == 1);
                assert(count_of(old(self).handler_counts(), key) == 0);
            },
        }
        assert(self.handler_counts() =~= old(self).handler_counts().insert(
            key,
            count_of(old(self).handler_counts(), key) + 1,
        ));
        assert(self.received(key, count_of(old(self).handler_counts(), key) as int) == Seq::<
            (ErasedValue, nat),
        >::empty());
        assert forall|k: TypeId, j: int|
            0 <= j < count_of(old(self).handler_counts(), k) implies #[trigger] self.received(k, j)
                == old(self).received(k, j) by {
            assert(old(self).handlers@.contains_key(k));
        }
        assert forall|k: TypeId, j: int|
            self.handlers@.contains_key(k) && 0 <= j < self.handlers@[k]@.len()
                implies (#[trigger] self.handlers@[k]@[j]).wf() by {
            if k != key || j < count_of(old(self).handler_counts(), key) {
                assert(old(self).handlers@.contains_key(k));
            }
        }
    }

    /// Dispatch every pending event to the handlers subscribed to its type,
    /// then leave the queue empty.
    ///
    /// The events go out in emission order, and each event to its type's
    /// handlers in subscription order, once each: handler `j` of type `k`
    /// receives each pending event of type `k`, stamped with its place in
    /// that order. Events of a type with no handler are dropped.
    pub fn flush(&mut self)
        requires
            old(self).wf(),
        ensures
            final(self).wf(),
            final(self).pending_events() == Seq::<(TypeId, ErasedValue)>::empty(),
            final(self).handler_counts() == old(self).handler_counts(),
            final(self).calls_made() == old(self).calls_made() + calls_for(
                old(self).pending_events(),
                old(self).handler_counts(),
            ),
            forall|k: TypeId, j: int|
                0 <= j < count_of(old(self).handler_counts(), k) ==> #[trigger] final(self).received(k, j)
                    == old(self).received(k, j) + deliveries(
                    old(self).pending_events(),
                    old(self).handler_counts(),
                    k,
                    j as nat,
                    old(self).calls_made(),
                ),
    {
        let mut events: Vec<(TypeId, ErasedValue)> = Vec::new();
        std::mem::swap(&mut events, &mut self.pending);
        let ghost evs = old(self).pending_events();
        let ghost counts = old(self).handler_counts();
        let ghost c0 = old(self).calls_made();
        assert(evs.take(0) =~= Seq::<(TypeId, ErasedValue)>::empty());
        assert forall|k: TypeId, j: int|
            0 <= j < count_of(counts, k) implies #[trigger] self.received(k, j) == old(self).received(k, j)
                + deliveries(evs.take(0), counts, k, j as nat, c0) by {
            assert(old(self).received(k, j) + Seq::<(ErasedValue, nat)>::empty() =~= old(self).received(k, j));
        }
        let n = events.len();
        for i in 0..n
            invariant
                n == events@.len(),
                evs == events@,
                self.wf(),
                self.handler_counts() == counts,
                self.pending@.len() == 0,
                counts == old(self).handler_counts(),
                c0 == old(self).calls_made(),
                self.calls_made() == c0 + calls_for(evs.take(i as int), counts),
                forall|k: TypeId, j: int|
                    0 <= j < count_of(counts, k) ==> #[trigger] self.received(k, j) == old(self).received(k, j)
                        + deliveries(evs.take(i as int), counts, k, j as nat, c0),
        {
            let key = &events[i].0;
            let event = &events[i].1;
            let ghost k0 = *key;
            let ghost before = *self;
            proof {
                assert(evs.take(i + 1).drop_last() =~= evs.take(i as int));
                assert(evs.take(i + 1).last() == evs[i as int]);
            }
            match self.handlers.get_mut(key) {
                Some(list) => {
                    proof {
                        assert forall|j: int| 0 <= j < list@.len() implies (#[trigger] list@[j]).wf() by {
                            assert(before.handlers@.contains_key(k0));
                        }
                    }
                    deliver_all(list, event, &mut self.clock);
                },
                None => {},
            }
            proof {
                assert(self.handler_counts() =~= counts) by {
                    assert forall|k: TypeId| #[trigger] self.handlers@.contains_key(k) implies self.handlers@[k]@.len()
                        == before.handlers@[k]@.len() by {}
                }
                assert(count_of(counts, k0) == (if before.handlers@.contains_key(k0) {
                    before.handlers@[k0]@.len()
                } else {
                    0
                }));
                assert forall|k: TypeId, j: int|
                    self.handlers@.contains_key(k) && 0 <= j < self.handlers@[k]@.len()
                        implies (#[trigger] self.handlers@[k]@[j]).wf() by {
                    assert(before.handlers@.contains_key(k));
                }
                assert forall|k: TypeId, j: int|
                    0 <= j < count_of(counts, k) implies #[trigger] self.received(k, j) == old(self).received(
                        k,
                        j,
                    ) + deliveries(evs.take(i + 1), counts, k, j as nat, c0) by {
                    assert(before.received(k, j) == old(self).received(k, j) + deliveries(
                        evs.take(i as int),
                        counts,
                        k,
                        j as nat,
                        c0,
                    ));
                    if k == k0 {
                        assert(self.received(k, j) == before.received(k, j).push(
                            (evs[i as int].1, before.calls_made() + j as nat),
                        ));
                        assert(old(self).received(k, j) + deliveries(evs.take(i + 1), counts, k, j as nat, c0)
                            =~= (old(self).received(k, j) + deliveries(
                            evs.take(i as int),
                            counts,
                            k,
                            j as nat,
                            c0,
                        )).push((evs[i as int].1, c0 + calls_for(evs.take(i as int), counts) + j as nat)));
                    } else {
                        assert(self.received(k, j) == before.received(k, j));
                    }
                }
            }
        }
        proof {
            assert(evs.take(n as int) =~= evs);
            assert(self.pending_events() =~= Seq::<(TypeId, ErasedValue)>::empty());
        }
    }

    /// The number of events waiting to be dispatched.
    pub fn pending_count(&self) -> (r: usize)
        ensures
            r == self.pending_events().len(),
    {
        self.pending.len()
    }
}

impl Default for EventBus {
    /// An event bus with no pending event and no handler.
    fn default() -> (b: Self)
        ensures
            b.wf(),
            b.pending_events() == Seq::<(TypeId, ErasedValue)>::empty(),
            b.handler_counts() == Map::<TypeId, nat>::empty(),
            b.calls_made() == 0,
    {
        Self::new()
    }
}

} // verus!
