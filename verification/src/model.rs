//! The mathematical model of a dispatcher.
//!
//! A dispatcher's abstract state is a triple: the *table*, a map from slot
//! key to the handler stored under it; the *reuse queue*, the order in which
//! freed slot keys will be reissued to coming subscriptions; and the *slot
//! span*, the number of slots ever held, which is where the next fresh key
//! is issued. The predicates here say how `subscribe`, `unsubscribe` and
//! `emit` relate one abstract state to the next; the dispatchers' contracts
//! are stated with them, and the laws in [`crate::laws`] are proved from
//! them alone.

use vstd::prelude::*;

use crate::dispatch::HandlerMut;

verus! {

/// The table of a dispatcher with no subscribers.
pub open spec fn empty_table<H>() -> Map<int, H> {
    Map::empty()
}

/// `s` lists exactly the members of `d`, in strictly ascending order.
///
/// `emit` visits the occupied slots in this order: every key of the table,
/// each exactly once, smallest first.
pub open spec fn ascending_enumeration_of(s: Seq<int>, d: Set<int>) -> bool {
    &&& forall|i: int, j: int| 0 <= i < j < s.len() ==> s[i] < s[j]
    &&& forall|i: int| 0 <= i < s.len() ==> d.contains(#[trigger] s[i])
    &&& forall|k: int| d.contains(k) ==> s.contains(k)
}

/// One subscription, taking the abstract state `(pre_t, pre_q, pre_n)` to
/// `(post_t, post_q, post_n)`: the handler `h` is stored under `key`, a key
/// not in use before the call. The key is the front of the reuse queue when
/// one is pending; otherwise it is the fresh key `pre_n` — exactly the
/// number of slots ever held, above every occupied key — and the span
/// grows by one.
pub open spec fn subscribe_step<H>(
    pre_t: Map<int, H>,
    pre_q: Seq<int>,
    pre_n: int,
    post_t: Map<int, H>,
    post_q: Seq<int>,
    post_n: int,
    h: H,
    key: int,
) -> bool {
    &&& !pre_t.dom().contains(key)
    &&& post_t == pre_t.insert(key, h)
    &&& pre_q.len() > 0 ==> {
        &&& key == pre_q[0]
        &&& post_q == pre_q.subrange(1, pre_q.len() as int)
        &&& post_n == pre_n
    }
    &&& pre_q.len() == 0 ==> {
        &&& key == pre_n
        &&& forall|k: int| pre_t.dom().contains(k) ==> k < key
        &&& post_q == Seq::<int>::empty()
        &&& post_n == pre_n + 1
    }
}

/// One unsubscription with `key`: it succeeds exactly when the key is
/// occupied, in which case the slot is cleared and the key goes to the front
/// of the reuse queue; otherwise the state is left unchanged. The slot span
/// never shrinks or grows here.
pub open spec fn unsubscribe_step<H>(
    pre_t: Map<int, H>,
    pre_q: Seq<int>,
    pre_n: int,
    post_t: Map<int, H>,
    post_q: Seq<int>,
    post_n: int,
    key: int,
    hit: bool,
) -> bool {
    &&& post_n == pre_n
    &&& hit == pre_t.dom().contains(key)
    &&& hit ==> {
        &&& post_t == pre_t.remove(key)
        &&& post_q == seq![key] + pre_q
    }
    &&& !hit ==> {
        &&& post_t == pre_t
        &&& post_q == pre_q
    }
}

/// The visiting discipline of one emission over the table `t`: the visited
/// slot keys are exactly the occupied ones, in ascending order, and their
/// number is the number of subscribed handlers.
pub open spec fn emit_visit<H>(t: Map<int, H>, visited: Seq<int>) -> bool {
    &&& ascending_enumeration_of(visited, t.dom())
    &&& visited.len() == t.dom().len()
}

/// One emission of `arg` over mutable handlers, taking the table `pre_t` to
/// `post_t`: the occupied slots are visited as [`emit_visit`] says, and each
/// subscribed handler observes exactly one clone of `arg`.
pub open spec fn emit_step<A: Clone, H: HandlerMut<A>>(
    pre_t: Map<int, H>,
    post_t: Map<int, H>,
    arg: A,
    visited: Seq<int>,
) -> bool {
    &&& emit_visit(pre_t, visited)
    &&& post_t.dom() == pre_t.dom()
    &&& forall|k: int|
        #[trigger] pre_t.dom().contains(k) ==> delivered_one(pre_t[k], post_t[k], arg)
}

/// One delivery to a single mutable handler: the handler went from `h0` to
/// `h1` by observing exactly one more value, and that value is a clone of
/// `arg` — the argument as emitted, untouched by whatever any sibling
/// handler did to its own copy.
pub open spec fn delivered_one<A: Clone, H: HandlerMut<A>>(h0: H, h1: H, arg: A) -> bool {
    &&& h1.observed().len() == h0.observed().len() + 1
    &&& h1.observed().drop_last() == h0.observed()
    &&& vstd::pervasive::cloned(arg, h1.observed().last())
}

} // verus!
