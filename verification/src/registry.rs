//! The verified slot registry shared by the three dispatcher types.
//!
//! A registry couples the trusted slab of [`crate::slots`] with a vector
//! owning the handlers themselves. The slab stores, under each occupied slot
//! key, an index into the handler vector; the vector cell is `Some` exactly
//! while the handler is subscribed and is cleared the moment its slot is
//! freed. Cleared cells are kept on the `spare` list and reused by later
//! subscriptions, so the vector holds no more cells than slots ever held at
//! once. A key's handler is pinned down by the well-formedness invariant
//! [`Registry::wf`]: live indices are in range and occupied, no two keys
//! share an index, and spare indices are in range, unrepeated and disjoint
//! from the live ones.

use vstd::prelude::*;

use crate::dispatch::Handler;
use crate::dispatch::HandlerMut;
use crate::model::ascending_enumeration_of;
use crate::model::delivered_one;
use crate::model::subscribe_step;
use crate::model::unsubscribe_step;
use crate::slots::slab_cap;
use crate::slots::slab_contains;
use crate::slots::slab_entries;
use crate::slots::slab_free;
use crate::slots::slab_insert;
use crate::slots::slab_map;
use crate::slots::slab_new;
use crate::slots::slab_remove;

verus! {

pub(crate) struct Registry<H> {
    slots: slab::Slab<usize>,
    handlers: Vec<Option<H>>,
    spare: Vec<usize>,
}

impl<H> Registry<H> {
    /// The occupied slot keys, each mapped to its handler-vector index.
    pub(crate) closed spec fn key_map(&self) -> Map<int, int> {
        slab_map(self.slots)
    }

    /// The freed slot keys, in the order coming subscriptions reuse them.
    pub(crate) closed spec fn queue(&self) -> Seq<int> {
        slab_free(self.slots)
    }

    /// The number of slots ever held: the key the next fresh subscription
    /// gets.
    pub(crate) closed spec fn span(&self) -> int {
        slab_cap(self.slots)
    }

    /// The abstract state: each occupied slot key, mapped to the handler
    /// stored under it.
    pub(crate) closed spec fn table(&self) -> Map<int, H> {
        Map::new(
            |k: int| self.key_map().dom().contains(k),
            |k: int| self.handlers@[self.key_map()[k]]->Some_0,
        )
    }

    pub(crate) closed spec fn wf(&self) -> bool {
        &&& self.key_map().dom().finite()
        &&& forall|k: int|
            #[trigger] self.key_map().dom().contains(k) ==> 0 <= self.key_map()[k]
                < self.handlers@.len() && self.handlers@[self.key_map()[k]] is Some
        &&& forall|k1: int, k2: int|
            self.key_map().dom().contains(k1) && self.key_map().dom().contains(k2) && k1 != k2
                ==> #[trigger] self.key_map()[k1] != #[trigger] self.key_map()[k2]
        &&& forall|i: int|
            0 <= i < self.spare@.len() ==> 0 <= #[trigger] self.spare@[i]
                < self.handlers@.len()
        &&& self.spare@.no_duplicates()
        &&& forall|k: int, i: int|
            self.key_map().dom().contains(k) && 0 <= i < self.spare@.len()
                ==> #[trigger] self.key_map()[k] != #[trigger] self.spare@[i] as int
    }

    pub(crate) proof fn lemma_table_dom(&self)
        ensures
            self.table().dom() =~= self.key_map().dom(),
    {
    }

    pub(crate) fn new() -> (r: Self)
        ensures
            r.wf(),
            r.table() == crate::model::empty_table::<H>(),
            r.queue() == Seq::<int>::empty(),
            r.span() == 0,
    {
        let r = Registry { slots: slab_new(), handlers: Vec::new(), spare: Vec::new() };
        proof {
            assert(r.key_map().dom() =~= Set::<int>::empty());
            assert(r.table() =~= crate::model::empty_table::<H>());
        }
        r
    }

    pub(crate) fn insert(&mut self, h: H) -> (key: usize)
        requires
            old(self).wf(),
        ensures
            final(self).wf(),
            subscribe_step(
                old(self).table(),
                old(self).queue(),
                old(self).span(),
                final(self).table(),
                final(self).queue(),
                final(self).span(),
                h,
                key as int,
            ),
    {
        let ghost r0 = *old(self);
        let id: usize;
        match self.spare.pop() {
            Some(j) => {
                id = j;
                proof {
                    assert(id == r0.spare@[r0.spare@.len() - 1]);
                    assert(id < self.handlers@.len());
                }
                self.handlers[id] = Some(h);
            },
            None => {
                id = self.handlers.len();
                self.handlers.push(Some(h));
            },
        }
        let key = slab_insert(&mut self.slots, id);
        proof {
            let m0 = r0.key_map();
            let m1 = self.key_map();
            assert(m1 == m0.insert(key as int, id as int));
            // the chosen cell is no live handler's cell
            assert forall|k: int| #[trigger] m0.dom().contains(k) implies m0[k]
                != id as int by {
                if r0.spare@.len() > 0 {
                    assert(m0[k] != r0.spare@[r0.spare@.len() - 1] as int);
                }
            }
            assert forall|k: int| #[trigger] m1.dom().contains(k) implies 0 <= m1[k]
                < self.handlers@.len() && self.handlers@[m1[k]] is Some by {
                if k == key as int {
                    assert(self.handlers@[id as int] == Some(h));
                } else {
                    assert(m0.dom().contains(k));
                    assert(m1[k] == m0[k]);
                    assert(self.handlers@[m0[k]] == r0.handlers@[m0[k]]);
                }
            }
            assert forall|k1: int, k2: int|
                m1.dom().contains(k1) && m1.dom().contains(k2) && k1 != k2 implies #[trigger] m1[k1]
                != #[trigger] m1[k2] by {
                if k1 == key as int {
                    assert(m1[k2] == m0[k2]);
                } else if k2 == key as int {
                    assert(m1[k1] == m0[k1]);
                }
            }
            // the remaining spare cells stay in range, unrepeated, and
            // disjoint from the live cells, the reused one included
            assert forall|i: int| 0 <= i < self.spare@.len() implies 0 <= #[trigger] self.spare@[i]
                < self.handlers@.len() by {
                assert(self.spare@[i] == r0.spare@[i]);
            }
            assert forall|i: int, j: int|
                0 <= i < j < self.spare@.len() implies self.spare@[i] != self.spare@[j] by {
                assert(r0.spare@[i] != r0.spare@[j]);
            }
            assert forall|k: int, i: int|
                m1.dom().contains(k) && 0 <= i < self.spare@.len() implies #[trigger] m1[k]
                != #[trigger] self.spare@[i] as int by {
                assert(self.spare@[i] == r0.spare@[i]);
                if k == key as int {
                    if r0.spare@.len() > 0 {
                        assert(r0.spare@[i] != r0.spare@[r0.spare@.len() - 1]);
                    }
                } else {
                    assert(m1[k] == m0[k]);
                }
            }
            assert(self.table() =~= r0.table().insert(key as int, h));
            assert(!r0.table().dom().contains(key as int));
            assert forall|k: int| r0.table().dom().contains(k) && r0.queue().len() == 0 implies k
                < key as int by {
                assert(m0.dom().contains(k));
            }
        }
        key
    }

    pub(crate) fn remove(&mut self, key: usize) -> (hit: bool)
        requires
            old(self).wf(),
        ensures
            final(self).wf(),
            unsubscribe_step(
                old(self).table(),
                old(self).queue(),
                old(self).span(),
                final(self).table(),
                final(self).queue(),
                final(self).span(),
                key as int,
                hit,
            ),
    {
        let ghost r0 = *old(self);
        if slab_contains(&self.slots, key) {
            let id = slab_remove(&mut self.slots, key);
            proof {
                assert(id as int == r0.key_map()[key as int]);
                assert(id < self.handlers@.len());
            }
            self.handlers[id] = None;
            self.spare.push(id);
            proof {
                let m0 = r0.key_map();
                let m1 = self.key_map();
                assert(m1 == m0.remove(key as int));
                assert forall|k: int| #[trigger] m1.dom().contains(k) implies 0 <= m1[k]
                    < self.handlers@.len() && self.handlers@[m1[k]] is Some by {
                    assert(m0.dom().contains(k));
                    assert(m0[k] != id as int);
                    assert(self.handlers@[m0[k]] == r0.handlers@[m0[k]]);
                }
                // the freed cell joins the spare list without repetition
                assert forall|i: int|
                    0 <= i < self.spare@.len() implies 0 <= #[trigger] self.spare@[i]
                    < self.handlers@.len() by {
                    if i < r0.spare@.len() {
                        assert(self.spare@[i] == r0.spare@[i]);
                    }
                }
                assert forall|i: int, j: int|
                    0 <= i < j < self.spare@.len() implies self.spare@[i] != self.spare@[j] by {
                    if j < r0.spare@.len() {
                        assert(r0.spare@[i] != r0.spare@[j]);
                    } else {
                        assert(self.spare@[j] == id);
                        assert(m0[key as int] != r0.spare@[i] as int);
                    }
                }
                assert forall|k: int, i: int|
                    m1.dom().contains(k) && 0 <= i < self.spare@.len() implies #[trigger] m1[k]
                    != #[trigger] self.spare@[i] as int by {
                    assert(m0.dom().contains(k));
                    assert(m1[k] == m0[k]);
                    if i < r0.spare@.len() {
                        assert(m0[k] != r0.spare@[i] as int);
                        assert(self.spare@[i] == r0.spare@[i]);
                    } else {
                        assert(self.spare@[i] == id);
                        assert(m0[k] != m0[key as int]);
                    }
                }
                assert(self.table() =~= r0.table().remove(key as int));
            }
            true
        } else {
            proof {
                assert(!r0.table().dom().contains(key as int));
                assert(self.table() =~= r0.table());
            }
            false
        }
    }

    pub(crate) fn emit_mut<A: Clone>(&mut self, arg: A) -> (visited: Ghost<Seq<int>>) where
        H: HandlerMut<A>,

        requires
            old(self).wf(),
        ensures
            final(self).wf(),
            final(self).queue() == old(self).queue(),
            final(self).span() == old(self).span(),
            crate::model::emit_step(old(self).table(), final(self).table(), arg, visited@),
    {
        let ghost r0 = *old(self);
        let entries = slab_entries(&self.slots);
        let ghost keys = Seq::new(entries@.len(), |a: int| entries@[a].0 as int);
        let n = entries.len();
        proof {
            assert forall|a: int| 0 <= a < entries@.len() implies 0 <= (#[trigger] entries@[a]).1
                < self.handlers@.len() by {
                assert(slab_map(r0.slots).dom().contains(entries@[a].0 as int));
                assert(r0.key_map().dom().contains(entries@[a].0 as int));
            }
        }
        let mut i: usize = 0;
        while i < n
            invariant
                i <= n,
                n == entries@.len(),
                r0.wf(),
                self.slots == r0.slots,
                self.spare == r0.spare,
                self.handlers@.len() == r0.handlers@.len(),
                forall|a: int, b: int| 0 <= a < b < entries@.len() ==> entries@[a].0 < entries@[b].0,
                forall|a: int|
                    0 <= a < entries@.len() ==> #[trigger] r0.key_map().dom().contains(
                        entries@[a].0 as int,
                    ) && r0.key_map()[entries@[a].0 as int] == entries@[a].1 as int,
                forall|a: int|
                    0 <= a < entries@.len() ==> 0 <= (#[trigger] entries@[a]).1
                        < self.handlers@.len(),
                forall|k: int|
                    r0.key_map().dom().contains(k) ==> exists|a: int|
                        0 <= a < entries@.len() && #[trigger] entries@[a].0 as int == k,
                forall|a: int|
                    0 <= a < i ==> (#[trigger] self.handlers@[entries@[a].1 as int]) is Some
                        && delivered_one(
                        r0.handlers@[entries@[a].1 as int]->Some_0,
                        self.handlers@[entries@[a].1 as int]->Some_0,
                        arg,
                    ),
                forall|a: int|
                    i <= a < entries@.len() ==> #[trigger] self.handlers@[entries@[a].1 as int]
                        == r0.handlers@[entries@[a].1 as int],
            decreases n - i,
        {
            let pair = entries[i];
            let id = pair.1;
            proof {
                assert(r0.key_map().dom().contains(pair.0 as int));
                assert(r0.key_map()[pair.0 as int] == id as int);
                assert(self.handlers@[id as int] == r0.handlers@[id as int]);
                assert(self.handlers@[id as int] is Some);
                assert forall|b: int|
                    0 <= b < entries@.len() && b != i implies entries@[b].1 as int
                    != id as int by {
                    let kb = entries@[b].0 as int;
                    let ki = entries@[i as int].0 as int;
                    if b < i {
                        assert(entries@[b].0 < entries@[i as int].0);
                    } else {
                        assert(entries@[i as int].0 < entries@[b].0);
                    }
                    assert(r0.key_map().dom().contains(kb));
                    assert(r0.key_map().dom().contains(ki));
                    assert(r0.key_map()[kb] != r0.key_map()[ki]);
                    assert(entries@[b].1 as int == r0.key_map()[kb]);
                }
            }
            let cloned_arg = arg.clone();
            let ghost h0 = self.handlers@[id as int]->Some_0;
            let ghost hs0 = self.handlers@;
            let slot = &mut self.handlers[id];
            match slot {
                Some(h) => {
                    h.on_event(cloned_arg);
                },
                None => {
                    proof {
                        assert(false);
                    }
                },
            }
            proof {
                assert(self.handlers@ == hs0.update(id as int, self.handlers@[id as int]));
                assert(self.handlers@[id as int] is Some);
                let h1 = self.handlers@[id as int]->Some_0;
                assert(h1.observed() == h0.observed().push(cloned_arg));
                assert(h1.observed().drop_last() =~= h0.observed());
                assert(vstd::pervasive::cloned(arg, cloned_arg));
                assert(delivered_one(h0, h1, arg));
                assert forall|a: int|
                    0 <= a < entries@.len() && a != i implies self.handlers@[entries@[a].1 as int]
                        == hs0[entries@[a].1 as int] by {
                    assert(entries@[a].1 as int != id as int);
                }
            }
            i += 1;
        }
        proof {
            let m = r0.key_map();
            r0.lemma_table_dom();
            self.lemma_table_dom();
            assert(r0.table().dom() == m.dom());
            assert(self.table().dom() == m.dom());
            Self::lemma_entries_enumeration(m, entries@, keys);
            assert forall|k: int| #[trigger] r0.table().dom().contains(k) implies delivered_one(
                r0.table()[k],
                self.table()[k],
                arg,
            ) by {
                let a = choose|a: int|
                    0 <= a < entries@.len() && #[trigger] entries@[a].0 as int == k;
                assert(m[k] == entries@[a].1 as int);
            }
            assert forall|k: int| #[trigger] m.dom().contains(k) implies 0 <= m[k]
                < self.handlers@.len() && self.handlers@[m[k]] is Some by {
                let a = choose|a: int|
                    0 <= a < entries@.len() && #[trigger] entries@[a].0 as int == k;
                assert(m[k] == entries@[a].1 as int);
            }
        }
        Ghost(keys)
    }

    pub(crate) fn emit_ref<A: Clone>(&self, arg: A) -> (visited: Ghost<Seq<int>>) where
        H: Handler<A>,

        requires
            self.wf(),
        ensures
            crate::model::emit_visit(self.table(), visited@),
    {
        let entries = slab_entries(&self.slots);
        let ghost keys = Seq::new(entries@.len(), |a: int| entries@[a].0 as int);
        let n = entries.len();
        proof {
            assert forall|a: int| 0 <= a < entries@.len() implies #[trigger] self.key_map(
            ).dom().contains(entries@[a].0 as int) && self.key_map()[entries@[a].0 as int]
                == entries@[a].1 as int by {
                assert(slab_map(self.slots).dom().contains(entries@[a].0 as int));
            }
        }
        let mut i: usize = 0;
        while i < n
            invariant
                i <= n,
                n == entries@.len(),
                self.wf(),
                forall|a: int|
                    0 <= a < entries@.len() ==> #[trigger] self.key_map().dom().contains(
                        entries@[a].0 as int,
                    ) && self.key_map()[entries@[a].0 as int] == entries@[a].1 as int,
            decreases n - i,
        {
            let pair = entries[i];
            let id = pair.1;
            proof {
                assert(self.key_map().dom().contains(pair.0 as int));
                assert(self.handlers@[id as int] is Some);
            }
            let slot = &self.handlers[id];
            match slot {
                Some(h) => {
                    h.on_event(arg.clone());
                },
                None => {
                    proof {
                        assert(false);
                    }
                },
            }
            i += 1;
        }
        proof {
            self.lemma_table_dom();
            Self::lemma_entries_enumeration(self.key_map(), entries@, keys);
        }
        Ghost(keys)
    }

    /// The keys of the slab's iteration order, mapped out of an entry list
    /// that is ascending, sound and complete for `m`, enumerate `m`'s domain
    /// ascending and count its members.
    proof fn lemma_entries_enumeration(m: Map<int, int>, es: Seq<(usize, usize)>, keys: Seq<int>)
        requires
            m.dom().finite(),
            keys == Seq::new(es.len(), |a: int| es[a].0 as int),
            forall|a: int, b: int| 0 <= a < b < es.len() ==> es[a].0 < es[b].0,
            forall|a: int| 0 <= a < es.len() ==> #[trigger] m.dom().contains(es[a].0 as int),
            forall|k: int|
                m.dom().contains(k) ==> exists|a: int|
                    0 <= a < es.len() && #[trigger] es[a].0 as int == k,
        ensures
            ascending_enumeration_of(keys, m.dom()),
            keys.len() == m.dom().len(),
    {
        assert forall|k: int| m.dom().contains(k) implies keys.contains(k) by {
            let a = choose|a: int| 0 <= a < es.len() && #[trigger] es[a].0 as int == k;
            assert(keys[a] == k);
        }
        assert(ascending_enumeration_of(keys, m.dom()));
        assert(keys.no_duplicates());
        keys.unique_seq_to_set();
        assert(keys.to_set() =~= m.dom());
    }
}

} // verus!
