//! Entity identifiers and the registry that allocates, tracks and recycles
//! them.
//!
//! Slots are generation-counted: destroying an entity marks its slot, and the
//! next `maintain` reclaims the slot under a higher generation, so a stale
//! identifier can never pass a liveness check or alias a later entity. A slot
//! whose generation counter cannot grow any further is retired instead of
//! being reused.

use vstd::prelude::*;
use vstd::pervasive::VecAdditionalExecFns;

verus! {

/// An opaque, comparable token identifying one logical game object for its
/// lifetime. Callers should treat the fields as an implementation detail and
/// only compare identifiers or hand them back to the owning [`World`] or
/// [`EntityRegistry`].
///
/// [`World`]: crate::world::World
#[derive(Clone, Copy, Debug, PartialEq, Eq, Structural)]
pub struct EntityId {
    pub index: usize,
    pub generation: u64,
}

/// Lifecycle state of one registry slot.
#[derive(Clone, Copy, Debug, PartialEq, Eq, Structural)]
pub enum SlotState {
    /// The slot currently backs a live entity.
    Live,
    /// The slot's entity was destroyed this frame; reclamation is deferred
    /// until the next `maintain`.
    Pending,
    /// The slot is unused and may back a future entity.
    Free,
    /// The slot's generation counter is exhausted; it is never reused.
    Retired,
}

/// Allocates and recycles entity identifiers, tracks liveness, and applies
/// deferred destruction at the `maintain` sync point.
pub struct EntityRegistry {
    gens: Vec<u64>,
    states: Vec<SlotState>,
    free: Vec<usize>,
}

impl EntityRegistry {
    /// Number of slots ever allocated (live, pending, free and retired).
    pub closed spec fn slot_count(self) -> int {
        self.states@.len() as int
    }

    /// Lifecycle state of slot `idx`.
    pub closed spec fn slot_state(self, idx: int) -> SlotState
        recommends
            0 <= idx < self.slot_count(),
    {
        self.states@[idx]
    }

    /// Current generation counter of slot `idx`. An identifier matches its
    /// slot only while the counter still equals the identifier's generation.
    pub closed spec fn gen_of(self, idx: int) -> u64
        recommends
            0 <= idx < self.slot_count(),
    {
        self.gens@[idx]
    }

    /// An identifier is alive when its slot exists, still carries the
    /// identifier's generation, and is in the live state.
    pub open spec fn spec_is_alive(self, id: EntityId) -> bool {
        &&& 0 <= id.index < self.slot_count()
        &&& self.gen_of(id.index as int) == id.generation
        &&& self.slot_state(id.index as int) == SlotState::Live
    }

    /// Internal consistency of the registry.
    pub closed spec fn wf(self) -> bool {
        &&& self.gens@.len() == self.states@.len()
        &&& forall|k: int|
            0 <= k < self.free@.len() ==> self.free@[k] < self.states@.len()
                && self.states@[self.free@[k] as int] == SlotState::Free
        &&& forall|k1: int, k2: int|
            0 <= k1 < k2 < self.free@.len() ==> self.free@[k1] != self.free@[k2]
    }

    /// An empty registry with no slots.
    pub fn new() -> (r: EntityRegistry)
        ensures
            r.wf(),
            r.slot_count() == 0,
            forall|id: EntityId| !r.spec_is_alive(id),
    {
        EntityRegistry { gens: Vec::new(), states: Vec::new(), free: Vec::new() }
    }

    /// Allocate a fresh identifier: either a never-used slot or a recycled
    /// free slot, whose generation counter already differs from every
    /// identifier the slot backed before. O(1) amortized.
    pub fn create(&mut self) -> (id: EntityId)
        requires
            old(self).wf(),
        ensures
            final(self).wf(),
            final(self).spec_is_alive(id),
            !old(self).spec_is_alive(id),
            old(self).slot_count() <= final(self).slot_count() <= old(self).slot_count() + 1,
            id.index < final(self).slot_count(),
            id.index < old(self).slot_count() ==> {
                &&& final(self).slot_count() == old(self).slot_count()
                &&& old(self).slot_state(id.index as int) == SlotState::Free
                &&& id.generation == old(self).gen_of(id.index as int)
            },
            id.index >= old(self).slot_count() ==> {
                &&& id.index == old(self).slot_count()
                &&& final(self).slot_count() == old(self).slot_count() + 1
                &&& id.generation == 0
            },
            forall|i: int|
                0 <= i < old(self).slot_count() ==> final(self).gen_of(i) == old(self).gen_of(i),
            forall|i: int|
                0 <= i < old(self).slot_count() && i != id.index ==> final(self).slot_state(i)
                    == old(self).slot_state(i),
            final(self).slot_state(id.index as int) == SlotState::Live,
            forall|other: EntityId|
                other != id ==> final(self).spec_is_alive(other) == old(self).spec_is_alive(other),
    {
        match self.free.pop() {
            Some(i) => {
                self.states.set(i, SlotState::Live);
                let g: u64 = self.gens[i];
                EntityId { index: i, generation: g }
            },
            None => {
                let i: usize = self.states.len();
                self.gens.push(0);
                self.states.push(SlotState::Live);
                EntityId { index: i, generation: 0 }
            },
        }
    }

    /// Whether `id` currently names a live entity. A destroyed identifier
    /// fails this check at once, before the deferred reclamation runs.
    pub fn is_alive(&self, id: EntityId) -> (r: bool)
        requires
            self.wf(),
        ensures
            r == self.spec_is_alive(id),
    {
        if id.index < self.states.len() {
            let g: u64 = self.gens[id.index];
            let live = match self.states[id.index] {
                SlotState::Live => true,
                _ => false,
            };
            g == id.generation && live
        } else {
            false
        }
    }

    /// Mark `id` dead. Subsequent liveness checks fail immediately; the slot
    /// itself is reclaimed at the next `maintain`. A no-op when `id` is not
    /// alive.
    pub fn destroy(&mut self, id: EntityId)
        requires
            old(self).wf(),
        ensures
            final(self).wf(),
            !final(self).spec_is_alive(id),
            final(self).slot_count() == old(self).slot_count(),
            forall|i: int|
                0 <= i < old(self).slot_count() ==> final(self).gen_of(i) == old(self).gen_of(i),
            old(self).spec_is_alive(id) ==> final(self).slot_state(id.index as int)
                == SlotState::Pending,
            !old(self).spec_is_alive(id) ==> *final(self) == *old(self),
            forall|i: int|
                0 <= i < old(self).slot_count() && i != id.index ==> final(self).slot_state(i)
                    == old(self).slot_state(i),
            forall|other: EntityId|
                other != id ==> final(self).spec_is_alive(other) == old(self).spec_is_alive(other),
    {
        if self.is_alive(id) {
            self.states.set(id.index, SlotState::Pending);
        }
    }

    /// Apply all deferred destructions: every pending slot is freed for reuse
    /// under a bumped generation (or retired when the counter is exhausted).
    /// Returns the indices of the reclaimed slots, in increasing order, so the
    /// owner can purge component data stored under them. Liveness of every
    /// identifier is unchanged.
    pub fn maintain(&mut self) -> (freed: Vec<usize>)
        requires
            old(self).wf(),
        ensures
            final(self).wf(),
            final(self).slot_count() == old(self).slot_count(),
            forall|i: int|
                0 <= i < old(self).slot_count() && old(self).slot_state(i) != SlotState::Pending
                    ==> final(self).slot_state(i) == old(self).slot_state(i) && final(self).gen_of(
                    i,
                ) == old(self).gen_of(i),
            forall|i: int|
                0 <= i < old(self).slot_count() && old(self).slot_state(i) == SlotState::Pending
                    ==> (final(self).slot_state(i) == SlotState::Free && final(self).gen_of(i)
                    == old(self).gen_of(i) + 1) || (final(self).slot_state(i) == SlotState::Retired
                    && final(self).gen_of(i) == old(self).gen_of(i) == u64::MAX),
            forall|id: EntityId| final(self).spec_is_alive(id) == old(self).spec_is_alive(id),
            forall|k: int|
                0 <= k < freed@.len() ==> 0 <= freed@[k] < old(self).slot_count() && old(
                    self,
                ).slot_state(freed@[k] as int) == SlotState::Pending,
            forall|i: int|
                0 <= i < old(self).slot_count() && old(self).slot_state(i) == SlotState::Pending
                    ==> freed@.contains(i as usize),
    {
        let mut freed: Vec<usize> = Vec::new();
        let n: usize = self.states.len();
        let mut i: usize = 0;
        while i < n
            invariant
                n == old(self).slot_count(),
                self.gens@.len() == n,
                self.states@.len() == n,
                i <= n,
                forall|k: int|
                    0 <= k < self.free@.len() ==> self.free@[k] < n && self.states@[self.free@[k] as int]
                        == SlotState::Free,
                forall|k1: int, k2: int|
                    0 <= k1 < k2 < self.free@.len() ==> self.free@[k1] != self.free@[k2],
                forall|j: int|
                    i <= j < n ==> self.states@[j] == old(self).slot_state(j) && self.gens@[j]
                        == old(self).gen_of(j),
                forall|j: int|
                    0 <= j < i && old(self).slot_state(j) != SlotState::Pending ==> self.states@[j]
                        == old(self).slot_state(j) && self.gens@[j] == old(self).gen_of(j),
                forall|j: int|
                    0 <= j < i && old(self).slot_state(j) == SlotState::Pending ==> (self.states@[j]
                        == SlotState::Free && self.gens@[j] == old(self).gen_of(j) + 1) || (
                    self.states@[j] == SlotState::Retired && self.gens@[j] == old(self).gen_of(j)
                        == u64::MAX),
                forall|k: int|
                    0 <= k < freed@.len() ==> 0 <= freed@[k] < i && old(self).slot_state(
                        freed@[k] as int,
                    ) == SlotState::Pending,
                forall|j: int|
                    0 <= j < i && old(self).slot_state(j) == SlotState::Pending ==> freed@.contains(
                        j as usize,
                    ),
            decreases n - i,
        {
            let pending = match self.states[i] {
                SlotState::Pending => true,
                _ => false,
            };
            if pending {
                let g: u64 = self.gens[i];
                if g < u64::MAX {
                    self.gens.set(i, g + 1);
                    self.states.set(i, SlotState::Free);
                    self.free.push(i);
                } else {
                    self.states.set(i, SlotState::Retired);
                }
                let ghost freed_prev = freed@;
                freed.push(i);
                proof {
                    assert forall|j: int|
                        0 <= j <= i && old(self).slot_state(j) == SlotState::Pending implies freed@.contains(
                        j as usize,
                    ) by {
                        if j == i {
                            assert(freed@[freed@.len() - 1] == i as usize);
                        } else {
                            let k = choose|k: int|
                                0 <= k < freed_prev.len() && freed_prev[k] == j as usize;
                            assert(freed@[k] == j as usize);
                        }
                    }
                }
            }
            i = i + 1;
        }
        freed
    }
}

} // verus!
