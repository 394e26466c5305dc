//! Sample handlers.
//!
//! Small handler types showing how the capability traits are implemented
//! and proved against their models: [`Record`] keeps every value it is
//! called with, [`Quiet`] ignores its calls.

use vstd::prelude::*;

use crate::dispatch::Handler;
use crate::dispatch::HandlerMut;

verus! {

/// A mutable handler that records every value it observes, in call order.
pub struct Record<A> {
    values: Vec<A>,
}

impl<A> Record<A> {
    /// A recorder that has observed nothing yet.
    pub fn new() -> (r: Self)
        ensures
            r.observed() == Seq::<A>::empty(),
    {
        Record { values: Vec::new() }
    }

    /// The values observed so far, oldest first.
    pub fn seen(&self) -> (r: &Vec<A>)
        ensures
            r@ == self.observed(),
    {
        &self.values
    }
}

impl<A> HandlerMut<A> for Record<A> {
    closed spec fn observed(&self) -> Seq<A> {
        self.values@
    }

    fn on_event(&mut self, arg: A) {
        self.values.push(arg);
    }
}

/// A read-only handler that ignores every call; being stateless it is also
/// fit for the thread-shared dispatcher.
pub struct Quiet;

impl<A> Handler<A> for Quiet {
    fn on_event(&self, arg: A) {
        let _ = arg;
    }
}

} // verus!
