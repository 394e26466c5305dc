//! Trusted boundary around the slot registry from the `slab` crate.
//!
//! The dispatcher stores each handler's identifier in a `slab::Slab<usize>`.
//! The slab is opaque to the verifier, so its contents are named by three
//! uninterpreted functions and every operation the dispatcher relies on goes
//! through a thin wrapper whose contract states what the slab's source shows:
//!
//! - [`slab_map`] names the occupied slots, as a map from slot key to the
//!   stored value.
//! - [`slab_free`] names the order in which freed slots will be reissued.
//!   The slab keeps freed slots on a stack (last freed, first reused) and,
//!   when no freed slot is left, appends at a key larger than every occupied
//!   one. Reissuing freed keys is the sole source of stale tokens.
//! - [`slab_cap`] names how many slots the slab has ever held. A fresh key
//!   is exactly that count: the slab appends at the end of its entry list.

use vstd::prelude::*;

verus! {

#[verifier::external_type_specification]
#[verifier::external_body]
#[verifier::reject_recursive_types(T)]
pub struct ExSlab<T>(slab::Slab<T>);

/// The occupied slots of a slab: each currently used key, mapped to the value
/// stored under it.
pub uninterp spec fn slab_map(s: slab::Slab<usize>) -> Map<int, int>;

/// The freed slots of a slab, in the order in which coming insertions will
/// reuse them before any new key is issued.
pub uninterp spec fn slab_free(s: slab::Slab<usize>) -> Seq<int>;

/// The number of slots the slab has ever held: occupied and freed together,
/// which is where the next fresh key is issued.
pub uninterp spec fn slab_cap(s: slab::Slab<usize>) -> int;

/// Relies on `slab::Slab::new`: the new slab is empty and no slot has ever
/// been freed.
#[verifier::external_body]
pub(crate) fn slab_new() -> (s: slab::Slab<usize>)
    ensures
        slab_map(s) == crate::model::empty_table::<int>(),
        slab_free(s) == Seq::<int>::empty(),
        slab_cap(s) == 0,
{
    slab::Slab::new()
}

/// Relies on `slab::Slab::insert`: the value is stored under the most
/// recently freed key if one exists, otherwise under the fresh key at the
/// end of the entry list, which exceeds every occupied one; other slots are
/// untouched.
#[verifier::external_body]
pub(crate) fn slab_insert(s: &mut slab::Slab<usize>, val: usize) -> (key: usize)
    ensures
        !slab_map(*old(s)).dom().contains(key as int),
        slab_map(*final(s)) == slab_map(*old(s)).insert(key as int, val as int),
        slab_free(*old(s)).len() > 0 ==> {
            &&& key as int == slab_free(*old(s))[0]
            &&& slab_free(*final(s)) == slab_free(*old(s)).subrange(
                1,
                slab_free(*old(s)).len() as int,
            )
            &&& slab_cap(*final(s)) == slab_cap(*old(s))
        },
        slab_free(*old(s)).len() == 0 ==> {
            &&& key as int == slab_cap(*old(s))
            &&& forall|k: int| slab_map(*old(s)).dom().contains(k) ==> k < key as int
            &&& slab_free(*final(s)) == Seq::<int>::empty()
            &&& slab_cap(*final(s)) == slab_cap(*old(s)) + 1
        },
{
    s.insert(val)
}

/// Relies on `slab::Slab::remove`: removing an occupied key returns its
/// value, frees the slot, and puts the key first in line for reuse. The call
/// panics on an unoccupied key, so that case is excluded here.
#[verifier::external_body]
pub(crate) fn slab_remove(s: &mut slab::Slab<usize>, key: usize) -> (val: usize)
    requires
        slab_map(*old(s)).dom().contains(key as int),
    ensures
        val as int == slab_map(*old(s))[key as int],
        slab_map(*final(s)) == slab_map(*old(s)).remove(key as int),
        slab_free(*final(s)) == seq![key as int] + slab_free(*old(s)),
        slab_cap(*final(s)) == slab_cap(*old(s)),
{
    s.remove(key)
}

/// Relies on `slab::Slab::contains`: reports whether the key is occupied.
#[verifier::external_body]
pub(crate) fn slab_contains(s: &slab::Slab<usize>, key: usize) -> (r: bool)
    ensures
        r == slab_map(*s).dom().contains(key as int),
{
    s.contains(key)
}

/// Relies on `slab::Slab::iter`: iteration visits exactly the occupied
/// slots, in ascending key order, yielding each key with its stored value.
#[verifier::external_body]
pub(crate) fn slab_entries(s: &slab::Slab<usize>) -> (v: Vec<(usize, usize)>)
    ensures
        forall|i: int, j: int| 0 <= i < j < v@.len() ==> v@[i].0 < v@[j].0,
        forall|i: int|
            0 <= i < v@.len() ==> #[trigger] slab_map(*s).dom().contains(v@[i].0 as int)
                && slab_map(*s)[v@[i].0 as int] == v@[i].1 as int,
        forall|k: int|
            slab_map(*s).dom().contains(k) ==> exists|i: int|
                0 <= i < v@.len() && #[trigger] v@[i].0 as int == k,
{
    s.iter().map(|(key, val)| (key, *val)).collect()
}

} // verus!
