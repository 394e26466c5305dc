//! Strongly-typed, in-process publish/subscribe dispatchers.
//!
//! A dispatcher owns a slot-based registry of handlers. Registering a handler
//! yields a [`Subscription`] token; the token is the sole capability for
//! removing the handler again, and `emit` invokes every currently registered
//! handler synchronously, in ascending slot order, each with its own copy of
//! the emitted argument.
//!
//! Three dispatch disciplines are offered: [`Event`] for read-only handlers
//! invoked through shared access, [`EventMut`] for handlers that mutate their
//! own state and therefore need exclusive access, and [`SharedEvent`] for
//! read-only handlers that may additionally be shared across threads.

use vstd::prelude::*;

mod dispatch;
mod example;
mod laws;
mod model;
mod registry;
mod slots;

pub use dispatch::Event;
pub use dispatch::EventMut;
pub use dispatch::Handler;
pub use dispatch::HandlerMut;
pub use dispatch::SharedEvent;
pub use example::Quiet;
pub use example::Record;
pub use laws::lemma_argument_isolation;
pub use laws::lemma_emit_count_matches_subscribers;
pub use laws::lemma_emit_idempotent;
pub use laws::lemma_subscribe_count;
pub use laws::lemma_unsubscribe_count;
pub use laws::lemma_emit_order_stable;
pub use laws::lemma_subscription_order;
pub use laws::lemma_token_reuse;
pub use laws::lemma_unsubscribe_twice;
pub use model::ascending_enumeration_of;
pub use model::delivered_one;
pub use model::emit_step;
pub use model::emit_visit;
pub use model::empty_table;
pub use model::subscribe_step;
pub use model::unsubscribe_step;

verus! {

/// Token used to differentiate subscribers.
///
/// Returned by `subscribe`; passing it back to the same dispatcher's
/// `unsubscribe` removes the handler it was issued for. The token is a bare
/// slot index: once its slot has been freed and reissued to a later
/// subscriber, the stale token is indistinguishable from the fresh one.
pub struct Subscription {
    pub key: usize,
}

/// Error returned on an attempt to unsubscribe with an invalid subscription.
///
/// Raised by `unsubscribe` when the presented token's slot is not currently
/// occupied, either because it was already removed or because it never was
/// valid for this dispatcher instance.
#[derive(Debug)]
pub struct SubscriptionMissing;

impl SubscriptionMissing {
    /// A human-readable description of the error.
    pub fn message(&self) -> (r: &'static str)
        ensures
            r@ == "Attempt to unsubscribe delegate without subscription"@,
    {
        "Attempt to unsubscribe delegate without subscription"
    }
}

} // verus!
