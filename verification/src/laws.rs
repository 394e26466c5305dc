//! Laws of the dispatcher, proved from the contracts alone.

use vstd::prelude::*;

use crate::dispatch::HandlerMut;
use crate::model::ascending_enumeration_of;
use crate::model::delivered_one;
use crate::model::emit_step;
use crate::model::empty_table;
use crate::model::subscribe_step;
use crate::model::unsubscribe_step;

verus! {

/// Two emissions with no subscription change between them visit the same
/// handlers, in the same order: the visit order is determined by the set of
/// occupied slots alone, since there is exactly one ascending enumeration of
/// any set of slot keys.
pub proof fn lemma_emit_order_stable(d: Set<int>, s1: Seq<int>, s2: Seq<int>)
    requires
        ascending_enumeration_of(s1, d),
        ascending_enumeration_of(s2, d),
    ensures
        s1 == s2,
    decreases s1.len(),
{
    if s1.len() == 0 {
        if s2.len() > 0 {
            assert(d.contains(s2[0]));
            assert(s1.contains(s2[0]));
        }
        assert(s1 =~= s2);
    } else {
        assert(d.contains(s1[0]));
        assert(s2.contains(s1[0]));
        if s2.len() == 0 {
            assert(s1.contains(s1[0]));
        }
        // both heads are the minimum of `d`, hence equal
        let i1 = choose|i: int| 0 <= i < s2.len() && s2[i] == s1[0];
        if i1 > 0 {
            assert(s2[0] < s2[i1]);
        }
        assert(d.contains(s2[0]));
        assert(s1.contains(s2[0]));
        let j1 = choose|j: int| 0 <= j < s1.len() && s1[j] == s2[0];
        if j1 > 0 {
            assert(s1[0] < s1[j1]);
        }
        assert(s1[0] == s2[0]);
        // the tails enumerate `d` without its minimum
        let d2 = d.remove(s1[0]);
        let t1 = s1.subrange(1, s1.len() as int);
        let t2 = s2.subrange(1, s2.len() as int);
        assert forall|i: int| 0 <= i < t1.len() implies d2.contains(#[trigger] t1[i]) by {
            assert(t1[i] == s1[i + 1]);
            assert(s1[0] < s1[i + 1]);
        }
        assert forall|k: int| d2.contains(k) implies t1.contains(k) by {
            assert(s1.contains(k));
            let j = choose|j: int| 0 <= j < s1.len() && s1[j] == k;
            assert(j != 0);
            assert(t1[j - 1] == k);
        }
        assert forall|i: int| 0 <= i < t2.len() implies d2.contains(#[trigger] t2[i]) by {
            assert(t2[i] == s2[i + 1]);
            assert(s2[0] < s2[i + 1]);
        }
        assert forall|k: int| d2.contains(k) implies t2.contains(k) by {
            assert(s2.contains(k));
            let j = choose|j: int| 0 <= j < s2.len() && s2[j] == k;
            assert(j != 0);
            assert(t2[j - 1] == k);
        }
        assert(ascending_enumeration_of(t1, d2));
        assert(ascending_enumeration_of(t2, d2));
        lemma_emit_order_stable(d2, t1, t2);
        assert forall|i: int| 0 <= i < s1.len() implies s1[i] == s2[i] by {
            if i > 0 {
                assert(s1[i] == t1[i - 1]);
                assert(s2[i] == t2[i - 1]);
            }
        }
        assert(s1 =~= s2);
    }
}

/// One emission invokes as many handler calls as there are subscribed
/// handlers: the visit list is as long as the table's domain, and every
/// subscribed handler observes exactly one more value.
pub proof fn lemma_emit_count_matches_subscribers<A: Clone, H: HandlerMut<A>>(
    pre_t: Map<int, H>,
    post_t: Map<int, H>,
    arg: A,
    visited: Seq<int>,
)
    requires
        emit_step(pre_t, post_t, arg, visited),
    ensures
        visited.len() == pre_t.dom().len(),
        forall|k: int|
            #[trigger] pre_t.dom().contains(k) ==> post_t[k].observed().len() == pre_t[k].observed().len()
                + 1,
{
    assert forall|k: int| #[trigger] pre_t.dom().contains(k) implies post_t[k].observed().len()
        == pre_t[k].observed().len() + 1 by {
        assert(delivered_one(pre_t[k], post_t[k], arg));
    }
}

/// Two consecutive emissions with no subscription change between them visit
/// the same handlers in the same order.
pub proof fn lemma_emit_idempotent<A: Clone, H: HandlerMut<A>>(
    t0: Map<int, H>,
    t1: Map<int, H>,
    t2: Map<int, H>,
    arg1: A,
    arg2: A,
    v1: Seq<int>,
    v2: Seq<int>,
)
    requires
        emit_step(t0, t1, arg1, v1),
        emit_step(t1, t2, arg2, v2),
    ensures
        v1 == v2,
{
    lemma_emit_order_stable(t0.dom(), v1, v2);
}

/// Each subscription raises the number of subscribed handlers — the
/// handlers the next emission invokes — by exactly one.
pub proof fn lemma_subscribe_count<H>(
    pre_t: Map<int, H>,
    pre_q: Seq<int>,
    pre_n: int,
    post_t: Map<int, H>,
    post_q: Seq<int>,
    post_n: int,
    h: H,
    key: int,
)
    requires
        pre_t.dom().finite(),
        subscribe_step(pre_t, pre_q, pre_n, post_t, post_q, post_n, h, key),
    ensures
        post_t.dom().finite(),
        post_t.dom().len() == pre_t.dom().len() + 1,
{
    vstd::set::axiom_set_insert_len(pre_t.dom(), key);
    assert(post_t.dom() =~= pre_t.dom().insert(key));
}

/// A successful unsubscription lowers the number of subscribed handlers by
/// exactly one; a failed one leaves it untouched.
pub proof fn lemma_unsubscribe_count<H>(
    pre_t: Map<int, H>,
    pre_q: Seq<int>,
    pre_n: int,
    post_t: Map<int, H>,
    post_q: Seq<int>,
    post_n: int,
    key: int,
    hit: bool,
)
    requires
        pre_t.dom().finite(),
        unsubscribe_step(pre_t, pre_q, pre_n, post_t, post_q, post_n, key, hit),
    ensures
        post_t.dom().finite(),
        hit ==> post_t.dom().len() == pre_t.dom().len() - 1,
        !hit ==> post_t.dom().len() == pre_t.dom().len(),
{
    if hit {
        vstd::set::axiom_set_remove_len(pre_t.dom(), key);
        assert(post_t.dom() =~= pre_t.dom().remove(key));
    }
}

/// A handler that mutates its received copy cannot affect what a sibling
/// receives: whatever the other handlers are or do, each subscribed
/// handler's one newly observed value is a clone of the emitted argument
/// itself.
pub proof fn lemma_argument_isolation<A: Clone, H: HandlerMut<A>>(
    pre_t: Map<int, H>,
    post_t: Map<int, H>,
    arg: A,
    visited: Seq<int>,
    k: int,
)
    requires
        emit_step(pre_t, post_t, arg, visited),
        pre_t.dom().contains(k),
    ensures
        post_t[k].observed() == pre_t[k].observed().push(post_t[k].observed().last()),
        vstd::pervasive::cloned(arg, post_t[k].observed().last()),
{
    assert(delivered_one(pre_t[k], post_t[k], arg));
    assert(post_t[k].observed() =~= pre_t[k].observed().push(post_t[k].observed().last()));
}

/// Unsubscribing with the same token twice, its slot not reissued in
/// between, succeeds the first time and reports the subscription missing
/// the second time, leaving the state untouched.
pub proof fn lemma_unsubscribe_twice<H>(
    t0: Map<int, H>,
    q0: Seq<int>,
    n0: int,
    t1: Map<int, H>,
    q1: Seq<int>,
    n1: int,
    t2: Map<int, H>,
    q2: Seq<int>,
    n2: int,
    key: int,
    hit1: bool,
    hit2: bool,
)
    requires
        t0.dom().contains(key),
        unsubscribe_step(t0, q0, n0, t1, q1, n1, key, hit1),
        unsubscribe_step(t1, q1, n1, t2, q2, n2, key, hit2),
    ensures
        hit1,
        !hit2,
        t2 == t1,
        q2 == q1,
{
}

/// Handlers subscribed to a fresh dispatcher in order, with no removals in
/// between, are issued the slots zero, one and two, and visited in
/// subscription order by the next emission.
pub proof fn lemma_subscription_order<A: Clone, H: HandlerMut<A>>(
    q0: Seq<int>,
    t1: Map<int, H>,
    q1: Seq<int>,
    n1: int,
    t2: Map<int, H>,
    q2: Seq<int>,
    n2: int,
    t3: Map<int, H>,
    q3: Seq<int>,
    n3: int,
    h1: H,
    h2: H,
    h3: H,
    k1: int,
    k2: int,
    k3: int,
    t4: Map<int, H>,
    arg: A,
    visited: Seq<int>,
)
    requires
        q0.len() == 0,
        subscribe_step(empty_table::<H>(), q0, 0, t1, q1, n1, h1, k1),
        subscribe_step(t1, q1, n1, t2, q2, n2, h2, k2),
        subscribe_step(t2, q2, n2, t3, q3, n3, h3, k3),
        emit_step(t3, t4, arg, visited),
    ensures
        k1 == 0 && k2 == 1 && k3 == 2,
        visited == seq![k1, k2, k3],
        t3[k1] == h1 && t3[k2] == h2 && t3[k3] == h3,
        delivered_one(h1, t4[k1], arg),
        delivered_one(h2, t4[k2], arg),
        delivered_one(h3, t4[k3], arg),
{
    assert(t1.dom().contains(k1));
    assert(t2.dom().contains(k2));
    assert(k1 < k2);
    assert(k2 < k3);
    assert(t3.dom() =~= Set::<int>::empty().insert(k1).insert(k2).insert(k3));
    let expected = seq![k1, k2, k3];
    assert forall|k: int| t3.dom().contains(k) implies expected.contains(k) by {
        if k == k1 {
            assert(expected[0] == k);
        } else if k == k2 {
            assert(expected[1] == k);
        } else {
            assert(expected[2] == k);
        }
    }
    assert(ascending_enumeration_of(expected, t3.dom()));
    lemma_emit_order_stable(t3.dom(), visited, expected);
}

/// Subscribing after an unsubscription reissues the freed slot: on a fresh
/// dispatcher both tokens are slot zero, so the new token coincides with
/// the old, now stale one; the table holds only the new handler, and the
/// next emission invokes only it, once. A stale token held from before the
/// reuse is therefore indistinguishable from the fresh one — the
/// documented sharp edge of slot reuse.
pub proof fn lemma_token_reuse<A: Clone, H: HandlerMut<A>>(
    q0: Seq<int>,
    t1: Map<int, H>,
    q1: Seq<int>,
    n1: int,
    t2: Map<int, H>,
    q2: Seq<int>,
    n2: int,
    t3: Map<int, H>,
    q3: Seq<int>,
    n3: int,
    h1: H,
    h2: H,
    k1: int,
    k2: int,
    hit: bool,
    t4: Map<int, H>,
    arg: A,
    visited: Seq<int>,
)
    requires
        q0.len() == 0,
        subscribe_step(empty_table::<H>(), q0, 0, t1, q1, n1, h1, k1),
        unsubscribe_step(t1, q1, n1, t2, q2, n2, k1, hit),
        subscribe_step(t2, q2, n2, t3, q3, n3, h2, k2),
        emit_step(t3, t4, arg, visited),
    ensures
        hit,
        k1 == 0,
        k2 == k1,
        t3 == empty_table::<H>().insert(k1, h2),
        visited == seq![k1],
        delivered_one(h2, t4[k1], arg),
{
    assert(t1.dom().contains(k1));
    assert(q2 == seq![k1] + q1);
    assert(q2[0] == k1);
    assert(t3 =~= empty_table::<H>().insert(k1, h2));
    assert(t3.dom() =~= Set::<int>::empty().insert(k1));
    let expected = seq![k1];
    assert forall|k: int| t3.dom().contains(k) implies expected.contains(k) by {
        assert(expected[0] == k1);
    }
    assert(ascending_enumeration_of(expected, t3.dom()));
    lemma_emit_order_stable(t3.dom(), visited, expected);
    assert(t3.dom().contains(k1));
}

} // verus!
