//! Component tables: a mapping from entity identifier to one component's
//! value, behind a common interface so the join engine is agnostic to the
//! backing choice.
//!
//! Two storage disciplines are provided. [`DenseTable`] backs a slot array
//! indexed by the identifier's slot, best when nearly every live entity
//! carries the component. [`SparseTable`] backs a hash map, best when few
//! entities carry the component. The choice never changes observable results:
//! both present the same view, a `Map` from identifier to value.
//!
//! A table holds at most one value per slot index, so attaching a value under
//! an identifier displaces whatever the slot held under an older generation.

use vstd::prelude::*;
use vstd::pervasive::VecAdditionalExecFns;
use vstd::std_specs::hash::group_hash_axioms;
use std::collections::HashMap;
use crate::entity::EntityId;

verus! {

broadcast use group_hash_axioms;

/// All identifiers that share one slot index: the keys a table entry under
/// that slot can answer for.
pub open spec fn ids_at_index(idx: int) -> Set<EntityId> {
    Set::new(|o: EntityId| o.index == idx)
}

/// One component table: a mapping from entity identifier to this component's
/// value, with a chosen backing strategy.
pub trait ComponentStorage<T: Copy>: Sized {
    /// The observable contents: which identifier holds which value.
    spec fn contents(&self) -> Map<EntityId, T>;

    /// Internal consistency of the backing structure.
    spec fn inv(&self) -> bool;

    /// The iteration order this table enumerates its identifiers in. Stable
    /// between structural mutations; otherwise unspecified.
    spec fn spec_ids(&self) -> Seq<EntityId>;

    /// Attach `value` to `id`, overwriting what `id` held and displacing any
    /// value the slot held under another generation.
    fn insert(&mut self, id: EntityId, value: T)
        requires
            old(self).inv(),
        ensures
            final(self).inv(),
            final(self).contents() == old(self).contents().remove_keys(
                ids_at_index(id.index as int),
            ).insert(id, value),
    ;

    /// The value attached to `id`, if any. Absence is an outcome, not an
    /// error.
    fn get(&self, id: EntityId) -> (r: Option<T>)
        requires
            self.inv(),
        ensures
            r == if self.contents().contains_key(id) {
                Some(self.contents()[id])
            } else {
                None::<T>
            },
    ;

    /// Detach `id`'s value. A no-op when `id` holds none; a value the slot
    /// holds under another generation is untouched.
    fn remove(&mut self, id: EntityId)
        requires
            old(self).inv(),
        ensures
            final(self).inv(),
            final(self).contents() == old(self).contents().remove(id),
    ;

    /// Drop whatever the table holds under slot `idx`, whatever its
    /// generation. Used when the registry reclaims the slot.
    fn purge_slot(&mut self, idx: usize)
        requires
            old(self).inv(),
        ensures
            final(self).inv(),
            final(self).contents() == old(self).contents().remove_keys(ids_at_index(idx as int)),
    ;

    /// Enumerate the identifiers that currently hold a value, each exactly
    /// once, in this table's iteration order.
    fn ids(&self) -> (r: Vec<EntityId>)
        requires
            self.inv(),
        ensures
            r@ == self.spec_ids(),
            forall|k: int| 0 <= k < r@.len() ==> self.contents().contains_key(r@[k]),
            forall|id: EntityId| self.contents().contains_key(id) ==> r@.contains(id),
            forall|k1: int, k2: int| 0 <= k1 < k2 < r@.len() ==> r@[k1] != r@[k2],
    ;
}

/// One slot of a dense table: the generation it answers for and the value.
struct DenseEntry<T> {
    gen: u64,
    value: T,
}

/// Dense storage: a backing array indexed by the identifier's slot. O(1)
/// lookup at the cost of one (possibly empty) slot per allocated entity.
pub struct DenseTable<T> {
    slots: Vec<Option<DenseEntry<T>>>,
}

impl<T: Copy> DenseTable<T> {
    /// An empty dense table.
    pub fn new() -> (r: DenseTable<T>)
        ensures
            r.inv(),
            r.contents() == Map::<EntityId, T>::empty(),
            r.spec_ids() == Seq::<EntityId>::empty(),
    {
        let r = DenseTable { slots: Vec::new() };
        proof {
            assert(r.contents() =~= Map::<EntityId, T>::empty());
            assert(r.spec_ids() =~= Seq::<EntityId>::empty());
        }
        r
    }
}

/// The identifiers stored in the first `n` slots, in increasing slot order.
spec fn dense_ids_upto<T>(slots: Seq<Option<DenseEntry<T>>>, n: int) -> Seq<EntityId>
    decreases n,
{
    if n <= 0 {
        Seq::empty()
    } else {
        dense_ids_upto(slots, n - 1) + (match slots[n - 1] {
            Some(e) => seq![EntityId { index: (n - 1) as usize, generation: e.gen }],
            None => Seq::empty(),
        })
    }
}

proof fn lemma_dense_ids_upto_members<T>(slots: Seq<Option<DenseEntry<T>>>, n: int)
    requires
        0 <= n <= slots.len(),
        slots.len() <= usize::MAX as int,
    ensures
        forall|k: int|
            0 <= k < dense_ids_upto(slots, n).len() ==> {
                let id = #[trigger] dense_ids_upto(slots, n)[k];
                &&& id.index < n
                &&& slots[id.index as int] matches Some(e) && e.gen == id.generation
            },
        forall|i: int|
            0 <= i < n && slots[i] is Some ==> dense_ids_upto(slots, n).contains(
                EntityId { index: i as usize, generation: slots[i]->0.gen },
            ),
        forall|k1: int, k2: int|
            0 <= k1 < k2 < dense_ids_upto(slots, n).len() ==> dense_ids_upto(slots, n)[k1].index
                < dense_ids_upto(slots, n)[k2].index,
    decreases n,
{
    if n > 0 {
        lemma_dense_ids_upto_members(slots, n - 1);
        let prev = dense_ids_upto(slots, n - 1);
        let cur = dense_ids_upto(slots, n);
        assert forall|k: int|
            0 <= k < cur.len() implies {
            let id = #[trigger] cur[k];
            &&& id.index < n
            &&& slots[id.index as int] matches Some(e) && e.gen == id.generation
        } by {
            if k < prev.len() {
                assert(cur[k] == prev[k]);
            } else {
                assert(cur[k] == EntityId {
                    index: (n - 1) as usize,
                    generation: slots[n - 1]->0.gen,
                });
            }
        }
        assert forall|k1: int, k2: int| 0 <= k1 < k2 < cur.len() implies cur[k1].index
            < cur[k2].index by {
            if k2 < prev.len() {
                assert(cur[k1] == prev[k1] && cur[k2] == prev[k2]);
            } else {
                assert(cur[k1] == prev[k1]);
                assert(cur[k1].index < n - 1);
                assert(cur[k2].index == n - 1);
            }
        }
        assert forall|i: int|
            0 <= i < n && slots[i] is Some implies cur.contains(
            EntityId { index: i as usize, generation: slots[i]->0.gen },
        ) by {
            let id = EntityId { index: i as usize, generation: slots[i]->0.gen };
            if i < n - 1 {
                let k = choose|k: int| 0 <= k < prev.len() && prev[k] == id;
                assert(cur[k] == id);
            } else {
                assert(cur[cur.len() - 1] == id);
            }
        }
    }
}

impl<T: Copy> ComponentStorage<T> for DenseTable<T> {
    closed spec fn contents(&self) -> Map<EntityId, T> {
        Map::new(
            |id: EntityId|
                id.index < self.slots@.len() && (self.slots@[id.index as int] matches Some(e)
                    && e.gen == id.generation),
            |id: EntityId| self.slots@[id.index as int]->0.value,
        )
    }

    closed spec fn inv(&self) -> bool {
        true
    }

    closed spec fn spec_ids(&self) -> Seq<EntityId> {
        dense_ids_upto(self.slots@, self.slots@.len() as int)
    }

    fn insert(&mut self, id: EntityId, value: T) {
        while self.slots.len() <= id.index
            invariant
                self.contents() == old(self).contents(),
                forall|i: int|
                    0 <= i < old(self).slots@.len() ==> self.slots@[i] == old(self).slots@[i],
                old(self).slots@.len() <= self.slots@.len(),
                forall|i: int| old(self).slots@.len() <= i < self.slots@.len() ==> self.slots@[i] is None,
            decreases id.index + 1 - self.slots.len(),
        {
            let ghost prev = *self;
            self.slots.push(None);
            proof {
                assert(self.contents() =~= prev.contents());
            }
        }
        self.slots.set(id.index, Some(DenseEntry { gen: id.generation, value }));
        proof {
            assert(self.contents() =~= old(self).contents().remove_keys(
                ids_at_index(id.index as int),
            ).insert(id, value));
        }
    }

    fn get(&self, id: EntityId) -> (r: Option<T>) {
        if id.index < self.slots.len() {
            match &self.slots[id.index] {
                Some(e) => {
                    if e.gen == id.generation {
                        Some(e.value)
                    } else {
                        None
                    }
                },
                None => None,
            }
        } else {
            None
        }
    }

    fn remove(&mut self, id: EntityId) {
        if id.index < self.slots.len() {
            let matches_gen = match &self.slots[id.index] {
                Some(e) => e.gen == id.generation,
                None => false,
            };
            if matches_gen {
                self.slots.set(id.index, None);
            }
        }
        proof {
            assert(self.contents() =~= old(self).contents().remove(id));
        }
    }

    fn purge_slot(&mut self, idx: usize) {
        if idx < self.slots.len() {
            self.slots.set(idx, None);
        }
        proof {
            assert(self.contents() =~= old(self).contents().remove_keys(ids_at_index(idx as int)));
        }
    }

    fn ids(&self) -> (r: Vec<EntityId>) {
        let mut r: Vec<EntityId> = Vec::new();
        let n: usize = self.slots.len();
        let mut i: usize = 0;
        while i < n
            invariant
                n == self.slots@.len(),
                i <= n,
                r@ == dense_ids_upto(self.slots@, i as int),
            decreases n - i,
        {
            match &self.slots[i] {
                Some(e) => {
                    r.push(EntityId { index: i, generation: e.gen });
                },
                None => (),
            }
            i = i + 1;
        }
        proof {
            lemma_dense_ids_upto_members(self.slots@, n as int);
            assert forall|id: EntityId| self.contents().contains_key(id) implies r@.contains(
                id,
            ) by {
                assert(id == EntityId {
                    index: id.index,
                    generation: self.slots@[id.index as int]->0.gen,
                });
            }
        }
        r
    }
}

/// One entry of a sparse table: the generation it answers for and the value.
struct SparseEntry<T> {
    gen: u64,
    value: T,
}

/// Sparse storage: hash-keyed by slot index, with a side list of occupied
/// slots for iteration. Memory proportional to the entities that actually
/// carry the component, at the cost of hashed lookup.
pub struct SparseTable<T> {
    map: HashMap<u64, SparseEntry<T>>,
    keys: Vec<usize>,
}

impl<T: Copy> SparseTable<T> {
    /// An empty sparse table.
    pub fn new() -> (r: SparseTable<T>)
        ensures
            r.inv(),
            r.contents() == Map::<EntityId, T>::empty(),
            r.spec_ids() == Seq::<EntityId>::empty(),
    {
        let r = SparseTable { map: HashMap::new(), keys: Vec::new() };
        proof {
            assert(r.contents() =~= Map::<EntityId, T>::empty());
            assert(r.spec_ids() =~= Seq::<EntityId>::empty());
        }
        r
    }

    /// Drop `x` from the occupied-slot list.
    fn unlist_key(&mut self, x: usize)
        requires
            old(self).keys@.contains(x),
            forall|j1: int, j2: int|
                0 <= j1 < j2 < old(self).keys@.len() ==> old(self).keys@[j1] != old(self).keys@[j2],
        ensures
            final(self).map == old(self).map,
            !final(self).keys@.contains(x),
            forall|y: usize| y != x ==> final(self).keys@.contains(y) == old(self).keys@.contains(y),
            forall|j1: int, j2: int|
                0 <= j1 < j2 < final(self).keys@.len() ==> final(self).keys@[j1]
                    != final(self).keys@[j2],
    {
        let n: usize = self.keys.len();
        let mut j: usize = 0;
        let mut pos: usize = n;
        while j < n
            invariant
                n == self.keys@.len(),
                j <= n,
                pos == n || (pos < j && self.keys@[pos as int] == x),
                pos == n ==> forall|m: int| 0 <= m < j ==> self.keys@[m] != x,
            decreases n - j,
        {
            if self.keys[j] == x {
                if pos == n {
                    pos = j;
                }
            }
            j = j + 1;
        }
        proof {
            let w = choose|w: int| 0 <= w < self.keys@.len() && self.keys@[w] == x;
            assert(pos < n);
        }
        let ghost before = self.keys@;
        self.keys.swap_remove(pos);
        proof {
            assert forall|y: usize| y != x implies self.keys@.contains(y) == before.contains(
                y,
            ) by {
                if self.keys@.contains(y) {
                    let k = choose|k: int| 0 <= k < self.keys@.len() && self.keys@[k] == y;
                    if k == pos {
                        assert(before[before.len() - 1] == y);
                    } else {
                        assert(before[k] == y);
                    }
                }
                if before.contains(y) {
                    let k = choose|k: int| 0 <= k < before.len() && before[k] == y;
                    if k < self.keys@.len() {
                        if k == pos {
                            assert(false);
                        } else {
                            assert(self.keys@[k] == y);
                        }
                    } else {
                        if pos < self.keys@.len() {
                            assert(self.keys@[pos as int] == y);
                        }
                    }
                }
            }
            assert forall|k: int| 0 <= k < self.keys@.len() implies self.keys@[k] != x by {
                if k == pos {
                    assert(self.keys@[k] == before[before.len() - 1]);
                } else {
                    assert(self.keys@[k] == before[k]);
                }
            }
        }
    }
}

impl<T: Copy> ComponentStorage<T> for SparseTable<T> {
    closed spec fn contents(&self) -> Map<EntityId, T> {
        Map::new(
            |id: EntityId|
                self.map@.contains_key(id.index as u64) && self.map@[id.index as u64].gen
                    == id.generation,
            |id: EntityId| self.map@[id.index as u64].value,
        )
    }

    closed spec fn inv(&self) -> bool {
        &&& forall|j: int|
            0 <= j < self.keys@.len() ==> self.map@.contains_key(#[trigger] self.keys@[j] as u64)
        &&& forall|j1: int, j2: int|
            0 <= j1 < j2 < self.keys@.len() ==> self.keys@[j1] != self.keys@[j2]
        &&& forall|kk: u64|
            #[trigger] self.map@.contains_key(kk) ==> kk <= usize::MAX as u64
                && self.keys@.contains(kk as usize)
    }

    closed spec fn spec_ids(&self) -> Seq<EntityId> {
        self.keys@.map_values(
            |k: usize| EntityId { index: k, generation: self.map@[k as u64].gen },
        )
    }

    fn insert(&mut self, id: EntityId, value: T) {
        let k: u64 = id.index as u64;
        let had = self.map.contains_key(&k);
        self.map.insert(k, SparseEntry { gen: id.generation, value });
        if !had {
            let ghost before = self.keys@;
            self.keys.push(id.index);
            proof {
                assert forall|kk: u64| #[trigger] self.map@.contains_key(kk) implies kk
                    <= usize::MAX as u64 && self.keys@.contains(kk as usize) by {
                    if kk == k {
                        assert(self.keys@[self.keys@.len() - 1] == id.index);
                    } else {
                        let w = choose|w: int| 0 <= w < before.len() && before[w] == kk as usize;
                        assert(self.keys@[w] == kk as usize);
                    }
                }
            }
        }
        proof {
            assert(self.contents() =~= old(self).contents().remove_keys(
                ids_at_index(id.index as int),
            ).insert(id, value));
        }
    }

    fn get(&self, id: EntityId) -> (r: Option<T>) {
        let k: u64 = id.index as u64;
        match self.map.get(&k) {
            Some(e) => {
                if e.gen == id.generation {
                    Some(e.value)
                } else {
                    None
                }
            },
            None => None,
        }
    }

    fn remove(&mut self, id: EntityId) {
        let k: u64 = id.index as u64;
        let matches_gen = match self.map.get(&k) {
            Some(e) => e.gen == id.generation,
            None => false,
        };
        if matches_gen {
            self.map.remove(&k);
            self.unlist_key(id.index);
            proof {
                assert forall|kk: u64| #[trigger] self.map@.contains_key(kk) implies kk
                    <= usize::MAX as u64 && self.keys@.contains(kk as usize) by {
                    assert(old(self).map@.contains_key(kk));
                    assert(kk != k);
                }
                assert forall|j: int| 0 <= j < self.keys@.len() implies self.map@.contains_key(
                    #[trigger] self.keys@[j] as u64,
                ) by {
                    let y = self.keys@[j];
                    assert(self.keys@.contains(y));
                    assert(y != id.index);
                    assert(old(self).keys@.contains(y));
                    let w = choose|w: int|
                        0 <= w < old(self).keys@.len() && old(self).keys@[w] == y;
                    assert(old(self).map@.contains_key(old(self).keys@[w] as u64));
                }
            }
        }
        proof {
            assert(self.contents() =~= old(self).contents().remove(id));
        }
    }

    fn purge_slot(&mut self, idx: usize) {
        let k: u64 = idx as u64;
        if self.map.contains_key(&k) {
            self.map.remove(&k);
            self.unlist_key(idx);
            proof {
                assert forall|kk: u64| #[trigger] self.map@.contains_key(kk) implies kk
                    <= usize::MAX as u64 && self.keys@.contains(kk as usize) by {
                    assert(old(self).map@.contains_key(kk));
                    assert(kk != k);
                }
                assert forall|j: int| 0 <= j < self.keys@.len() implies self.map@.contains_key(
                    #[trigger] self.keys@[j] as u64,
                ) by {
                    let y = self.keys@[j];
                    assert(self.keys@.contains(y));
                    assert(y != idx);
                    assert(old(self).keys@.contains(y));
                    let w = choose|w: int|
                        0 <= w < old(self).keys@.len() && old(self).keys@[w] == y;
                    assert(old(self).map@.contains_key(old(self).keys@[w] as u64));
                }
            }
        }
        proof {
            assert(self.contents() =~= old(self).contents().remove_keys(ids_at_index(idx as int)));
        }
    }

    fn ids(&self) -> (r: Vec<EntityId>) {
        let mut r: Vec<EntityId> = Vec::new();
        let n: usize = self.keys.len();
        let mut j: usize = 0;
        while j < n
            invariant
                self.inv(),
                n == self.keys@.len(),
                j <= n,
                r@.len() == j,
                forall|m: int|
                    0 <= m < j ==> r@[m] == (EntityId {
                        index: self.keys@[m],
                        generation: self.map@[self.keys@[m] as u64].gen,
                    }),
            decreases n - j,
        {
            let kc: usize = self.keys[j];
            let kk: u64 = kc as u64;
            match self.map.get(&kk) {
                Some(e) => {
                    r.push(EntityId { index: kc, generation: e.gen });
                },
                None => {
                    proof {
                        assert(false);
                    }
                },
            }
            j = j + 1;
        }
        proof {
            assert(r@ =~= self.spec_ids());
            assert forall|id: EntityId| self.contents().contains_key(id) implies r@.contains(
                id,
            ) by {
                let w = choose|w: int|
                    0 <= w < self.keys@.len() && self.keys@[w] == (id.index as u64) as usize;
                assert(r@[w] == id);
            }
        }
        r
    }
}

} // verus!
