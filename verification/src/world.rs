//! The world: the single owning context for the entity registry and all
//! component tables, passed explicitly to the update pass and the render
//! composer each frame.
//!
//! Position and Renderable live in dense tables (nearly every entity carries
//! them); Health lives in a sparse table (decorative entities omit it). One
//! entity may be designated the player; it is created with the full component
//! set and stays alive for the world's lifetime.

use vstd::prelude::*;
use crate::components::{Health, Position, Renderable};
use crate::entity::{EntityId, EntityRegistry, SlotState};
use crate::join::{joined_of, join};
use crate::storage::{ComponentStorage, DenseTable, SparseTable};

verus! {

/// Every entry of a component table belongs to a slot the registry currently
/// backs: the slot exists, still carries the entry's generation, and is live
/// or at worst pending reclamation.
pub open spec fn table_backed<T>(contents: Map<EntityId, T>, reg: EntityRegistry) -> bool {
    forall|id: EntityId|
        #[trigger] contents.contains_key(id) ==> {
            &&& 0 <= id.index < reg.slot_count()
            &&& reg.gen_of(id.index as int) == id.generation
            &&& (reg.slot_state(id.index as int) == SlotState::Live || reg.slot_state(
                id.index as int,
            ) == SlotState::Pending)
        }
}

/// The world: entity registry, component tables, and the player designation.
pub struct World {
    registry: EntityRegistry,
    positions: DenseTable<Position>,
    renderables: DenseTable<Renderable>,
    healths: SparseTable<Health>,
    player: Option<EntityId>,
}

impl World {
    /// The position table's observable contents.
    pub closed spec fn spec_positions(self) -> Map<EntityId, Position> {
        self.positions.contents()
    }

    /// The renderable table's observable contents.
    pub closed spec fn spec_renderables(self) -> Map<EntityId, Renderable> {
        self.renderables.contents()
    }

    /// The health table's observable contents.
    pub closed spec fn spec_healths(self) -> Map<EntityId, Health> {
        self.healths.contents()
    }

    /// The designated player, if one has been designated yet.
    pub closed spec fn spec_player(self) -> Option<EntityId> {
        self.player
    }

    /// Whether `id` names a live entity.
    pub closed spec fn spec_is_alive(self, id: EntityId) -> bool {
        self.registry.spec_is_alive(id)
    }

    /// The order in which joins over the position table enumerate entities.
    pub closed spec fn spec_position_ids(self) -> Seq<EntityId> {
        self.positions.spec_ids()
    }

    /// Well-formedness: the backing structures are consistent, every table
    /// entry belongs to a current slot, every stored health value is valid,
    /// and the designated player (if any) is alive.
    pub closed spec fn wf(self) -> bool {
        &&& self.registry.wf()
        &&& self.positions.inv()
        &&& self.renderables.inv()
        &&& self.healths.inv()
        &&& table_backed(self.positions.contents(), self.registry)
        &&& table_backed(self.renderables.contents(), self.registry)
        &&& table_backed(self.healths.contents(), self.registry)
        &&& forall|id: EntityId|
            #[trigger] self.healths.contents().contains_key(id)
                ==> self.healths.contents()[id].wf()
        &&& match self.player {
            Some(p) => self.registry.spec_is_alive(p),
            None => true,
        }
    }

    /// Every stored health value is valid: `0 <= current <= max` holds for
    /// each entity that carries a Health component of a well-formed world.
    pub proof fn lemma_healths_valid(self)
        requires
            self.wf(),
        ensures
            forall|id: EntityId|
                #[trigger] self.spec_healths().contains_key(id) ==> 0
                    <= self.spec_healths()[id].current <= self.spec_healths()[id].max,
    {
    }

    /// The designated player of a well-formed world is alive: the player
    /// identifier stays valid for the world's lifetime.
    pub proof fn lemma_player_alive(self)
        requires
            self.wf(),
            self.spec_player() is Some,
        ensures
            self.spec_is_alive(self.spec_player()->0),
    {
    }

    /// A fresh world: no entities, no components, no player designated.
    pub fn new() -> (w: World)
        ensures
            w.wf(),
            w.spec_player() is None,
            w.spec_positions() == Map::<EntityId, Position>::empty(),
            w.spec_renderables() == Map::<EntityId, Renderable>::empty(),
            w.spec_healths() == Map::<EntityId, Health>::empty(),
            forall|id: EntityId| !w.spec_is_alive(id),
    {
        World {
            registry: EntityRegistry::new(),
            positions: DenseTable::new(),
            renderables: DenseTable::new(),
            healths: SparseTable::new(),
            player: None,
        }
    }

    /// Whether `id` currently names a live entity. Fails immediately for a
    /// destroyed identifier, before the deferred reclamation runs.
    pub fn is_alive(&self, id: EntityId) -> (r: bool)
        requires
            self.wf(),
        ensures
            r == self.spec_is_alive(id),
    {
        self.registry.is_alive(id)
    }

    /// The designated player, if any.
    pub fn player(&self) -> (r: Option<EntityId>)
        ensures
            r == self.spec_player(),
    {
        self.player
    }

    /// Allocate a fresh entity carrying no components. The new identifier
    /// never aliases any identifier that was live before.
    pub fn create_entity(&mut self) -> (id: EntityId)
        requires
            old(self).wf(),
        ensures
            final(self).wf(),
            final(self).spec_is_alive(id),
            !old(self).spec_is_alive(id),
            forall|other: EntityId|
                other != id ==> final(self).spec_is_alive(other) == old(self).spec_is_alive(other),
            final(self).spec_positions() == old(self).spec_positions(),
            final(self).spec_renderables() == old(self).spec_renderables(),
            final(self).spec_healths() == old(self).spec_healths(),
            final(self).spec_position_ids() == old(self).spec_position_ids(),
            final(self).spec_player() == old(self).spec_player(),
            !final(self).spec_positions().contains_key(id),
            !final(self).spec_renderables().contains_key(id),
            !final(self).spec_healths().contains_key(id),
    {
        let id = self.registry.create();
        proof {
            assert forall|t_id: EntityId|
                #[trigger] self.positions.contents().contains_key(t_id) implies {
                &&& 0 <= t_id.index < self.registry.slot_count()
                &&& self.registry.gen_of(t_id.index as int) == t_id.generation
                &&& (self.registry.slot_state(t_id.index as int) == SlotState::Live
                    || self.registry.slot_state(t_id.index as int) == SlotState::Pending)
            } by {
                if t_id.index == id.index {
                    assert(false);
                }
            }
            assert forall|t_id: EntityId|
                #[trigger] self.renderables.contents().contains_key(t_id) implies {
                &&& 0 <= t_id.index < self.registry.slot_count()
                &&& self.registry.gen_of(t_id.index as int) == t_id.generation
                &&& (self.registry.slot_state(t_id.index as int) == SlotState::Live
                    || self.registry.slot_state(t_id.index as int) == SlotState::Pending)
            } by {
                if t_id.index == id.index {
                    assert(false);
                }
            }
            assert forall|t_id: EntityId|
                #[trigger] self.healths.contents().contains_key(t_id) implies {
                &&& 0 <= t_id.index < self.registry.slot_count()
                &&& self.registry.gen_of(t_id.index as int) == t_id.generation
                &&& (self.registry.slot_state(t_id.index as int) == SlotState::Live
                    || self.registry.slot_state(t_id.index as int) == SlotState::Pending)
            } by {
                if t_id.index == id.index {
                    assert(false);
                }
            }
        }
        id
    }

    /// Attach (or overwrite) a Position on a live entity. Returns whether the
    /// entity was alive; on a dead identifier nothing changes.
    pub fn insert_position(&mut self, id: EntityId, p: Position) -> (r: bool)
        requires
            old(self).wf(),
        ensures
            final(self).wf(),
            r == old(self).spec_is_alive(id),
            r ==> final(self).spec_positions() == old(self).spec_positions().insert(id, p),
            !r ==> *final(self) == *old(self),
            final(self).spec_renderables() == old(self).spec_renderables(),
            final(self).spec_healths() == old(self).spec_healths(),
            final(self).spec_player() == old(self).spec_player(),
            forall|other: EntityId|
                final(self).spec_is_alive(other) == old(self).spec_is_alive(other),
    {
        if self.registry.is_alive(id) {
            self.positions.insert(id, p);
            proof {
                assert(self.positions.contents() =~= old(self).positions.contents().insert(id, p));
            }
            true
        } else {
            false
        }
    }

    /// Attach (or overwrite) a Renderable on a live entity. Returns whether
    /// the entity was alive; on a dead identifier nothing changes.
    pub fn insert_renderable(&mut self, id: EntityId, rend: Renderable) -> (r: bool)
        requires
            old(self).wf(),
        ensures
            final(self).wf(),
            r == old(self).spec_is_alive(id),
            r ==> final(self).spec_renderables() == old(self).spec_renderables().insert(id, rend),
            !r ==> *final(self) == *old(self),
            final(self).spec_positions() == old(self).spec_positions(),
            final(self).spec_position_ids() == old(self).spec_position_ids(),
            final(self).spec_healths() == old(self).spec_healths(),
            final(self).spec_player() == old(self).spec_player(),
            forall|other: EntityId|
                final(self).spec_is_alive(other) == old(self).spec_is_alive(other),
    {
        if self.registry.is_alive(id) {
            self.renderables.insert(id, rend);
            proof {
                assert(self.renderables.contents() =~= old(self).renderables.contents().insert(
                    id,
                    rend,
                ));
            }
            true
        } else {
            false
        }
    }

    /// Attach (or overwrite) a valid Health on a live entity. Returns whether
    /// the entity was alive; on a dead identifier nothing changes.
    pub fn insert_health(&mut self, id: EntityId, h: Health) -> (r: bool)
        requires
            old(self).wf(),
            h.wf(),
        ensures
            final(self).wf(),
            r == old(self).spec_is_alive(id),
            r ==> final(self).spec_healths() == old(self).spec_healths().insert(id, h),
            !r ==> *final(self) == *old(self),
            final(self).spec_positions() == old(self).spec_positions(),
            final(self).spec_position_ids() == old(self).spec_position_ids(),
            final(self).spec_renderables() == old(self).spec_renderables(),
            final(self).spec_player() == old(self).spec_player(),
            forall|other: EntityId|
                final(self).spec_is_alive(other) == old(self).spec_is_alive(other),
    {
        if self.registry.is_alive(id) {
            self.healths.insert(id, h);
            proof {
                assert(self.healths.contents() =~= old(self).healths.contents().insert(id, h));
            }
            true
        } else {
            false
        }
    }

    /// Create the player: a fresh entity with the full component set, then
    /// designate it. Callable once, at initialization.
    pub fn spawn_player(&mut self, p: Position, rend: Renderable, h: Health) -> (id: EntityId)
        requires
            old(self).wf(),
            old(self).spec_player() is None,
            h.wf(),
        ensures
            final(self).wf(),
            final(self).spec_player() == Some(id),
            final(self).spec_is_alive(id),
            !old(self).spec_is_alive(id),
            forall|other: EntityId|
                other != id ==> final(self).spec_is_alive(other) == old(self).spec_is_alive(other),
            final(self).spec_positions() == old(self).spec_positions().insert(id, p),
            final(self).spec_renderables() == old(self).spec_renderables().insert(id, rend),
            final(self).spec_healths() == old(self).spec_healths().insert(id, h),
    {
        let id = self.create_entity();
        self.insert_position(id, p);
        self.insert_renderable(id, rend);
        self.insert_health(id, h);
        self.player = Some(id);
        id
    }

    /// The Position of `id`, or absence: when `id` is not alive or carries no
    /// Position, the outcome is `None`, never an error.
    pub fn position(&self, id: EntityId) -> (r: Option<Position>)
        requires
            self.wf(),
        ensures
            r == if self.spec_is_alive(id) && self.spec_positions().contains_key(id) {
                Some(self.spec_positions()[id])
            } else {
                None::<Position>
            },
    {
        if self.registry.is_alive(id) {
            self.positions.get(id)
        } else {
            None
        }
    }

    /// The Renderable of `id`, or absence.
    pub fn renderable(&self, id: EntityId) -> (r: Option<Renderable>)
        requires
            self.wf(),
        ensures
            r == if self.spec_is_alive(id) && self.spec_renderables().contains_key(id) {
                Some(self.spec_renderables()[id])
            } else {
                None::<Renderable>
            },
    {
        if self.registry.is_alive(id) {
            self.renderables.get(id)
        } else {
            None
        }
    }

    /// The Health of `id`, or absence: decorative entities carry none.
    pub fn health(&self, id: EntityId) -> (r: Option<Health>)
        requires
            self.wf(),
        ensures
            r == if self.spec_is_alive(id) && self.spec_healths().contains_key(id) {
                Some(self.spec_healths()[id])
            } else {
                None::<Health>
            },
    {
        if self.registry.is_alive(id) {
            self.healths.get(id)
        } else {
            None
        }
    }

    /// Detach the Position of `id`; a no-op when it carries none.
    pub fn remove_position(&mut self, id: EntityId)
        requires
            old(self).wf(),
        ensures
            final(self).wf(),
            final(self).spec_positions() == old(self).spec_positions().remove(id),
            final(self).spec_renderables() == old(self).spec_renderables(),
            final(self).spec_healths() == old(self).spec_healths(),
            final(self).spec_player() == old(self).spec_player(),
            forall|other: EntityId|
                final(self).spec_is_alive(other) == old(self).spec_is_alive(other),
    {
        self.positions.remove(id);
    }

    /// Detach the Renderable of `id`; a no-op when it carries none.
    pub fn remove_renderable(&mut self, id: EntityId)
        requires
            old(self).wf(),
        ensures
            final(self).wf(),
            final(self).spec_renderables() == old(self).spec_renderables().remove(id),
            final(self).spec_positions() == old(self).spec_positions(),
            final(self).spec_position_ids() == old(self).spec_position_ids(),
            final(self).spec_healths() == old(self).spec_healths(),
            final(self).spec_player() == old(self).spec_player(),
            forall|other: EntityId|
                final(self).spec_is_alive(other) == old(self).spec_is_alive(other),
    {
        self.renderables.remove(id);
    }

    /// Detach the Health of `id`; a no-op when it carries none.
    pub fn remove_health(&mut self, id: EntityId)
        requires
            old(self).wf(),
        ensures
            final(self).wf(),
            final(self).spec_healths() == old(self).spec_healths().remove(id),
            final(self).spec_positions() == old(self).spec_positions(),
            final(self).spec_position_ids() == old(self).spec_position_ids(),
            final(self).spec_renderables() == old(self).spec_renderables(),
            final(self).spec_player() == old(self).spec_player(),
            forall|other: EntityId|
                final(self).spec_is_alive(other) == old(self).spec_is_alive(other),
    {
        self.healths.remove(id);
    }

    /// Mark an entity dead. Liveness checks and component lookups for it fail
    /// at once; its component storage is reclaimed at the next `maintain`.
    /// The player cannot be destroyed: it stays valid for the world's
    /// lifetime. A no-op on an identifier that is not alive.
    pub fn destroy(&mut self, id: EntityId)
        requires
            old(self).wf(),
            old(self).spec_player() != Some(id),
        ensures
            final(self).wf(),
            !final(self).spec_is_alive(id),
            forall|other: EntityId|
                other != id ==> final(self).spec_is_alive(other) == old(self).spec_is_alive(other),
            final(self).spec_positions() == old(self).spec_positions(),
            final(self).spec_position_ids() == old(self).spec_position_ids(),
            final(self).spec_renderables() == old(self).spec_renderables(),
            final(self).spec_healths() == old(self).spec_healths(),
            final(self).spec_player() == old(self).spec_player(),
    {
        self.registry.destroy(id);
    }

    /// The sync point: apply all deferred destructions, purging every dead
    /// entity's components from every table and recycling its slot. Liveness
    /// is unchanged; live entities keep their components; after this, no
    /// table holds data for any identifier that is not alive.
    #[verifier::loop_isolation(false)]
    pub fn maintain(&mut self)
        requires
            old(self).wf(),
        ensures
            final(self).wf(),
            forall|id: EntityId|
                final(self).spec_is_alive(id) == old(self).spec_is_alive(id),
            final(self).spec_player() == old(self).spec_player(),
            forall|id: EntityId|
                old(self).spec_is_alive(id) ==> {
                    &&& final(self).spec_positions().contains_key(id) == old(self).spec_positions().contains_key(id)
                    &&& final(self).spec_renderables().contains_key(id) == old(self).spec_renderables().contains_key(id)
                    &&& final(self).spec_healths().contains_key(id) == old(self).spec_healths().contains_key(id)
                    &&& old(self).spec_positions().contains_key(id) ==> final(self).spec_positions()[id] == old(self).spec_positions()[id]
                    &&& old(self).spec_renderables().contains_key(id) ==> final(self).spec_renderables()[id] == old(self).spec_renderables()[id]
                    &&& old(self).spec_healths().contains_key(id) ==> final(self).spec_healths()[id]
                        == old(self).spec_healths()[id]
                },
            forall|id: EntityId|
                !old(self).spec_is_alive(id) ==> {
                    &&& !final(self).spec_positions().contains_key(id)
                    &&& !final(self).spec_renderables().contains_key(id)
                    &&& !final(self).spec_healths().contains_key(id)
                },
    {
        let ghost reg0 = self.registry;
        let freed = self.registry.maintain();
        let ghost reg1 = self.registry;
        let n: usize = freed.len();
        let mut j: usize = 0;
        while j < n
            invariant
                n == freed@.len(),
                j <= n,
                self.registry == reg1,
                self.player == old(self).player,
                self.positions.inv(),
                self.renderables.inv(),
                self.healths.inv(),
                forall|k: int|
                    0 <= k < n ==> 0 <= #[trigger] freed@[k] < reg0.slot_count() && reg0.slot_state(
                        freed@[k] as int,
                    ) == SlotState::Pending,
                forall|id: EntityId|
                    #[trigger] self.positions.contents().contains_key(id) == (old(self).spec_positions().contains_key(id) && !freed@.take(j as int).contains(
                        id.index,
                    )),
                forall|id: EntityId|
                    self.positions.contents().contains_key(id) ==> self.positions.contents()[id]
                        == old(self).spec_positions()[id],
                forall|id: EntityId|
                    #[trigger] self.renderables.contents().contains_key(id) == (old(self).spec_renderables().contains_key(id) && !freed@.take(j as int).contains(
                        id.index,
                    )),
                forall|id: EntityId|
                    self.renderables.contents().contains_key(id) ==> self.renderables.contents()[id]
                        == old(self).spec_renderables()[id],
                forall|id: EntityId|
                    #[trigger] self.healths.contents().contains_key(id) == (old(self).spec_healths().contains_key(id) && !freed@.take(j as int).contains(id.index)),
                forall|id: EntityId|
                    self.healths.contents().contains_key(id) ==> self.healths.contents()[id] == old(self).spec_healths()[id],
            decreases n - j,
        {
            let f: usize = freed[j];
            self.positions.purge_slot(f);
            self.renderables.purge_slot(f);
            self.healths.purge_slot(f);
            proof {
                let t1 = freed@.take(j + 1);
                let t0 = freed@.take(j as int);
                assert(t1.drop_last() =~= t0);
                assert(t1.last() == freed@[j as int]);
                assert forall|x: usize| #[trigger] t1.contains(x) implies (t0.contains(x) || x
                    == f) by {
                    let w = choose|w: int| 0 <= w < t1.len() && t1[w] == x;
                    if w < j {
                        assert(t0[w] == x);
                    }
                }
                assert forall|x: usize| #[trigger] t0.contains(x) implies t1.contains(x) by {
                    let w = choose|w: int| 0 <= w < t0.len() && t0[w] == x;
                    assert(t1[w] == x);
                }
                assert(t1.contains(f));
            }
            j = j + 1;
        }
        proof {
            assert(freed@.take(n as int) =~= freed@);
            let w0 = *old(self);
            let w1 = *self;
            assert forall|id: EntityId|
                !w0.spec_is_alive(id) implies {
                &&& !w1.spec_positions().contains_key(id)
                &&& !w1.spec_renderables().contains_key(id)
                &&& !w1.spec_healths().contains_key(id)
            } by {
                if w0.spec_positions().contains_key(id) && !freed@.contains(id.index) {
                    assert(reg0.slot_state(id.index as int) == SlotState::Pending ==> false);
                    assert(false);
                }
                if w0.spec_renderables().contains_key(id) && !freed@.contains(id.index) {
                    assert(reg0.slot_state(id.index as int) == SlotState::Pending ==> false);
                    assert(false);
                }
                if w0.spec_healths().contains_key(id) && !freed@.contains(id.index) {
                    assert(reg0.slot_state(id.index as int) == SlotState::Pending ==> false);
                    assert(false);
                }
            }
            assert forall|id: EntityId|
                w0.spec_is_alive(id) implies !freed@.contains(id.index) by {
                if freed@.contains(id.index) {
                    let w = choose|w: int| 0 <= w < freed@.len() && freed@[w] == id.index;
                    assert(reg0.slot_state(id.index as int) == SlotState::Pending);
                }
            }
            assert forall|id: EntityId|
                #[trigger] w1.spec_positions().contains_key(id) implies {
                &&& 0 <= id.index < self.registry.slot_count()
                &&& self.registry.gen_of(id.index as int) == id.generation
                &&& (self.registry.slot_state(id.index as int) == SlotState::Live
                    || self.registry.slot_state(id.index as int) == SlotState::Pending)
            } by {
                assert(reg0.slot_state(id.index as int) != SlotState::Pending);
            }
            assert forall|id: EntityId|
                #[trigger] w1.spec_renderables().contains_key(id) implies {
                &&& 0 <= id.index < self.registry.slot_count()
                &&& self.registry.gen_of(id.index as int) == id.generation
                &&& (self.registry.slot_state(id.index as int) == SlotState::Live
                    || self.registry.slot_state(id.index as int) == SlotState::Pending)
            } by {
                assert(reg0.slot_state(id.index as int) != SlotState::Pending);
            }
            assert forall|id: EntityId|
                #[trigger] w1.spec_healths().contains_key(id) implies {
                &&& 0 <= id.index < self.registry.slot_count()
                &&& self.registry.gen_of(id.index as int) == id.generation
                &&& (self.registry.slot_state(id.index as int) == SlotState::Live
                    || self.registry.slot_state(id.index as int) == SlotState::Pending)
            } by {
                assert(reg0.slot_state(id.index as int) != SlotState::Pending);
            }
        }
    }

    /// Join over {Position, Renderable}: one tuple per entity holding both,
    /// with exactly the stored values, each such entity once — whether or not
    /// it also carries Health. Callers must not interleave structural
    /// mutation of the joined tables with use of the result.
    pub fn join_position_renderable(&self) -> (r: Vec<(EntityId, Position, Renderable)>)
        requires
            self.wf(),
        ensures
            r@ == joined_of(
                self.spec_position_ids(),
                self.spec_positions(),
                self.spec_renderables(),
            ),
            forall|k: int|
                0 <= k < r@.len() ==> {
                    let e = #[trigger] r@[k];
                    &&& self.spec_positions().contains_key(e.0)
                    &&& self.spec_renderables().contains_key(e.0)
                    &&& e.1 == self.spec_positions()[e.0]
                    &&& e.2 == self.spec_renderables()[e.0]
                },
            forall|id: EntityId|
                self.spec_positions().contains_key(id) && self.spec_renderables().contains_key(id)
                    ==> r@.contains((id, self.spec_positions()[id], self.spec_renderables()[id])),
            forall|k1: int, k2: int| 0 <= k1 < k2 < r@.len() ==> r@[k1].0 != r@[k2].0,
    {
        join(&self.positions, &self.renderables)
    }
}

} // verus!
