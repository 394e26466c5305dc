//! The dispatcher types and the handler capability traits.
//!
//! A dispatcher broadcasts each emitted argument to a set of opaque
//! callables, stored behind one of three capability bounds. Each discipline
//! is a generic dispatcher over a handler type implementing the matching
//! trait: [`Handler`] for read-only handlers, [`HandlerMut`]
//! for handlers that mutate their own state. The thread-shared discipline is
//! [`SharedEvent`], which demands `Send + Sync` handlers.

use vstd::prelude::*;

use crate::model::emit_step;
use crate::model::emit_visit;
use crate::model::subscribe_step;
use crate::model::unsubscribe_step;
use crate::registry::Registry;
use crate::Subscription;
use crate::SubscriptionMissing;

verus! {

/// A read-only handler: callable any number of times through a shared
/// reference, with no mutable state required.
pub trait Handler<A> {
    /// Called once per emission, with the dispatcher's clone of the emitted
    /// argument.
    fn on_event(&self, arg: A);
}

/// A handler that may mutate captured state on each call.
///
/// `observed` is the handler's model: the values it has been called with so
/// far, oldest first. Every implementation promises that one call appends
/// exactly the received value; the dispatchers' `emit` contracts build on
/// that promise, so it holds of unverified implementations only as far as
/// they keep it.
pub trait HandlerMut<A> {
    /// The values this handler has been called with, oldest first.
    ///
    /// The default model reports nothing observed; a verified
    /// implementation overrides it, since `on_event`'s promise cannot hold
    /// of a model that never grows. An implementation outside the
    /// verifier's view may keep the default, and the promise is then taken
    /// on trust, as every contract about such an implementation is.
    open spec fn observed(&self) -> Seq<A> {
        Seq::empty()
    }

    /// Called once per emission, with the dispatcher's clone of the emitted
    /// argument.
    fn on_event(&mut self, arg: A)
        ensures
            final(self).observed() == old(self).observed().push(arg),
    ;
}

/// Dispatcher for the exclusive-mutable discipline: handlers implement
/// [`HandlerMut`] and `emit` needs exclusive access.
pub struct EventMut<H> {
    reg: Registry<H>,
}

impl<H> EventMut<H> {
    /// The abstract state: each occupied slot key, mapped to the handler
    /// stored under it. The next `emit` invokes exactly these handlers.
    pub closed spec fn table(&self) -> Map<int, H> {
        self.reg.table()
    }

    /// The freed slot keys, in the order coming subscriptions reuse them.
    pub closed spec fn reuse_queue(&self) -> Seq<int> {
        self.reg.queue()
    }

    /// The number of slots ever held: the key the next fresh subscription
    /// gets.
    pub closed spec fn slot_span(&self) -> int {
        self.reg.span()
    }

    pub closed spec fn wf(&self) -> bool {
        self.reg.wf()
    }

    /// Creates an empty dispatcher: no handler is subscribed and no slot has
    /// ever been freed.
    pub fn new() -> (r: Self)
        ensures
            r.wf(),
            r.table() == crate::model::empty_table::<H>(),
            r.reuse_queue() == Seq::<int>::empty(),
            r.slot_span() == 0,
    {
        EventMut { reg: Registry::new() }
    }

    /// Subscribes a handler to be called on event emission.
    ///
    /// Returns the subscription token for the slot the handler now occupies:
    /// the front of the reuse queue if a freed slot was pending, otherwise
    /// the fresh slot at [`Self::slot_span`], above every occupied one.
    pub fn subscribe(&mut self, handler: H) -> (s: Subscription)
        requires
            old(self).wf(),
        ensures
            final(self).wf(),
            subscribe_step(
                old(self).table(),
                old(self).reuse_queue(),
                old(self).slot_span(),
                final(self).table(),
                final(self).reuse_queue(),
                final(self).slot_span(),
                handler,
                s.key as int,
            ),
    {
        Subscription { key: self.reg.insert(handler) }
    }

    /// Unsubscribes the handler under the given subscription token.
    ///
    /// Succeeds exactly when the token's slot is occupied, dropping the
    /// handler and freeing the slot for reuse; otherwise returns
    /// [`SubscriptionMissing`] and leaves the dispatcher unchanged. The
    /// token is consumed either way.
    pub fn unsubscribe(&mut self, subscription: Subscription) -> (r: Result<
        (),
        SubscriptionMissing,
    >)
        requires
            old(self).wf(),
        ensures
            final(self).wf(),
            unsubscribe_step(
                old(self).table(),
                old(self).reuse_queue(),
                old(self).slot_span(),
                final(self).table(),
                final(self).reuse_queue(),
                final(self).slot_span(),
                subscription.key as int,
                r is Ok,
            ),
    {
        if self.reg.remove(subscription.key) {
            Ok(())
        } else {
            Err(SubscriptionMissing)
        }
    }

    /// Dispatches a call with the given argument to all subscribed handlers.
    ///
    /// Every occupied slot is visited exactly once, in ascending key order —
    /// the returned ghost sequence is that visit order — and each handler
    /// observes its own clone of `arg`, so a handler mutating its copy does
    /// not affect what a sibling receives. A handler that panics aborts the
    /// remaining dispatch; no isolation is attempted.
    pub fn emit<A: Clone>(&mut self, arg: A) -> (visited: Ghost<Seq<int>>) where
        H: HandlerMut<A>,

        requires
            old(self).wf(),
        ensures
            final(self).wf(),
            final(self).reuse_queue() == old(self).reuse_queue(),
            final(self).slot_span() == old(self).slot_span(),
            emit_step(old(self).table(), final(self).table(), arg, visited@),
    {
        self.reg.emit_mut(arg)
    }
}

impl<H> Default for EventMut<H> {
    /// An empty dispatcher, as [`EventMut::new`] returns it.
    fn default() -> (r: Self)
        ensures
            r.wf(),
            r.table() == crate::model::empty_table::<H>(),
            r.reuse_queue() == Seq::<int>::empty(),
            r.slot_span() == 0,
    {
        EventMut::new()
    }
}

/// Dispatcher for the read-only discipline: handlers implement [`Handler`]
/// and `emit` runs through shared access.
pub struct Event<H> {
    reg: Registry<H>,
}

impl<H> Event<H> {
    /// The abstract state: each occupied slot key, mapped to the handler
    /// stored under it. The next `emit` invokes exactly these handlers.
    pub closed spec fn table(&self) -> Map<int, H> {
        self.reg.table()
    }

    /// The freed slot keys, in the order coming subscriptions reuse them.
    pub closed spec fn reuse_queue(&self) -> Seq<int> {
        self.reg.queue()
    }

    /// The number of slots ever held: the key the next fresh subscription
    /// gets.
    pub closed spec fn slot_span(&self) -> int {
        self.reg.span()
    }

    pub closed spec fn wf(&self) -> bool {
        self.reg.wf()
    }

    /// Creates an empty dispatcher: no handler is subscribed and no slot has
    /// ever been freed.
    pub fn new() -> (r: Self)
        ensures
            r.wf(),
            r.table() == crate::model::empty_table::<H>(),
            r.reuse_queue() == Seq::<int>::empty(),
            r.slot_span() == 0,
    {
        Event { reg: Registry::new() }
    }

    /// Subscribes a handler to be called on event emission.
    ///
    /// Returns the subscription token for the slot the handler now occupies:
    /// the front of the reuse queue if a freed slot was pending, otherwise
    /// the fresh slot at [`Self::slot_span`], above every occupied one.
    pub fn subscribe(&mut self, handler: H) -> (s: Subscription)
        requires
            old(self).wf(),
        ensures
            final(self).wf(),
            subscribe_step(
                old(self).table(),
                old(self).reuse_queue(),
                old(self).slot_span(),
                final(self).table(),
                final(self).reuse_queue(),
                final(self).slot_span(),
                handler,
                s.key as int,
            ),
    {
        Subscription { key: self.reg.insert(handler) }
    }

    /// Unsubscribes the handler under the given subscription token.
    ///
    /// Succeeds exactly when the token's slot is occupied, dropping the
    /// handler and freeing the slot for reuse; otherwise returns
    /// [`SubscriptionMissing`] and leaves the dispatcher unchanged. The
    /// token is consumed either way.
    pub fn unsubscribe(&mut self, subscription: Subscription) -> (r: Result<
        (),
        SubscriptionMissing,
    >)
        requires
            old(self).wf(),
        ensures
            final(self).wf(),
            unsubscribe_step(
                old(self).table(),
                old(self).reuse_queue(),
                old(self).slot_span(),
                final(self).table(),
                final(self).reuse_queue(),
                final(self).slot_span(),
                subscription.key as int,
                r is Ok,
            ),
    {
        if self.reg.remove(subscription.key) {
            Ok(())
        } else {
            Err(SubscriptionMissing)
        }
    }

    /// Dispatches a call with the given argument to all subscribed handlers.
    ///
    /// Every occupied slot is visited exactly once, in ascending key order —
    /// the returned ghost sequence is that visit order — and each handler
    /// receives its own clone of `arg`. Shared access suffices, so the
    /// dispatcher is left untouched.
    pub fn emit<A: Clone>(&self, arg: A) -> (visited: Ghost<Seq<int>>) where
        H: Handler<A>,

        requires
            self.wf(),
        ensures
            emit_visit(self.table(), visited@),
    {
        self.reg.emit_ref(arg)
    }
}

impl<H> Default for Event<H> {
    /// An empty dispatcher, as [`Event::new`] returns it.
    fn default() -> (r: Self)
        ensures
            r.wf(),
            r.table() == crate::model::empty_table::<H>(),
            r.reuse_queue() == Seq::<int>::empty(),
            r.slot_span() == 0,
    {
        Event::new()
    }
}

/// Dispatcher for the thread-shared discipline: read-only handlers that are
/// additionally `Send + Sync`, so the dispatcher itself may be shared across
/// threads and `emit` run from several of them; `subscribe` and
/// `unsubscribe` still need exclusive access.
pub struct SharedEvent<H> {
    reg: Registry<H>,
}

impl<H: Send + Sync> SharedEvent<H> {
    /// The abstract state: each occupied slot key, mapped to the handler
    /// stored under it. The next `emit` invokes exactly these handlers.
    pub closed spec fn table(&self) -> Map<int, H> {
        self.reg.table()
    }

    /// The freed slot keys, in the order coming subscriptions reuse them.
    pub closed spec fn reuse_queue(&self) -> Seq<int> {
        self.reg.queue()
    }

    /// The number of slots ever held: the key the next fresh subscription
    /// gets.
    pub closed spec fn slot_span(&self) -> int {
        self.reg.span()
    }

    pub closed spec fn wf(&self) -> bool {
        self.reg.wf()
    }

    /// Creates an empty dispatcher: no handler is subscribed and no slot has
    /// ever been freed.
    pub fn new() -> (r: Self)
        ensures
            r.wf(),
            r.table() == crate::model::empty_table::<H>(),
            r.reuse_queue() == Seq::<int>::empty(),
            r.slot_span() == 0,
    {
        SharedEvent { reg: Registry::new() }
    }

    /// Subscribes a handler to be called on event emission.
    ///
    /// Returns the subscription token for the slot the handler now occupies:
    /// the front of the reuse queue if a freed slot was pending, otherwise
    /// the fresh slot at [`Self::slot_span`], above every occupied one.
    pub fn subscribe(&mut self, handler: H) -> (s: Subscription)
        requires
            old(self).wf(),
        ensures
            final(self).wf(),
            subscribe_step(
                old(self).table(),
                old(self).reuse_queue(),
                old(self).slot_span(),
                final(self).table(),
                final(self).reuse_queue(),
                final(self).slot_span(),
                handler,
                s.key as int,
            ),
    {
        Subscription { key: self.reg.insert(handler) }
    }

    /// Unsubscribes the handler under the given subscription token.
    ///
    /// Succeeds exactly when the token's slot is occupied, dropping the
    /// handler and freeing the slot for reuse; otherwise returns
    /// [`SubscriptionMissing`] and leaves the dispatcher unchanged. The
    /// token is consumed either way.
    pub fn unsubscribe(&mut self, subscription: Subscription) -> (r: Result<
        (),
        SubscriptionMissing,
    >)
        requires
            old(self).wf(),
        ensures
            final(self).wf(),
            unsubscribe_step(
                old(self).table(),
                old(self).reuse_queue(),
                old(self).slot_span(),
                final(self).table(),
                final(self).reuse_queue(),
                final(self).slot_span(),
                subscription.key as int,
                r is Ok,
            ),
    {
        if self.reg.remove(subscription.key) {
            Ok(())
        } else {
            Err(SubscriptionMissing)
        }
    }

    /// Dispatches a call with the given argument to all subscribed handlers.
    ///
    /// Every occupied slot is visited exactly once, in ascending key order —
    /// the returned ghost sequence is that visit order — and each handler
    /// receives its own clone of `arg`. Shared access suffices, so several
    /// threads may emit concurrently.
    pub fn emit<A: Clone>(&self, arg: A) -> (visited: Ghost<Seq<int>>) where
        H: Handler<A>,

        requires
            self.wf(),
        ensures
            emit_visit(self.table(), visited@),
    {
        self.reg.emit_ref(arg)
    }
}

impl<H: Send + Sync> Default for SharedEvent<H> {
    /// An empty dispatcher, as [`SharedEvent::new`] returns it.
    fn default() -> (r: Self)
        ensures
            r.wf(),
            r.table() == crate::model::empty_table::<H>(),
            r.reuse_queue() == Seq::<int>::empty(),
            r.slot_span() == 0,
    {
        SharedEvent::new()
    }
}

} // verus!
