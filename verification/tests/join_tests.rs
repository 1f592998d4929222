use rogue_core::components::{Color, Health, Position, Renderable};
use rogue_core::entity::EntityId;
use rogue_core::join::join;
use rogue_core::storage::{ComponentStorage, DenseTable, SparseTable};
use rogue_core::world::World;

#[test]
fn join_yields_exactly_entities_with_both_components() {
    let mut w = World::new();
    let both_with_health = w.create_entity();
    w.insert_position(both_with_health, Position { x: 1, y: 1 });
    w.insert_renderable(both_with_health, Renderable { glyph: 'g', color: Color::Red });
    w.insert_health(both_with_health, Health { max: 1, current: 1 });

    let both_without_health = w.create_entity();
    w.insert_position(both_without_health, Position { x: 2, y: 2 });
    w.insert_renderable(both_without_health, Renderable { glyph: '%', color: Color::Purple });

    let position_only = w.create_entity();
    w.insert_position(position_only, Position { x: 3, y: 3 });

    let renderable_only = w.create_entity();
    w.insert_renderable(renderable_only, Renderable { glyph: '#', color: Color::Black });

    let tuples = w.join_position_renderable();
    assert_eq!(tuples.len(), 2);
    for (id, pos, rend) in &tuples {
        assert!(*id == both_with_health || *id == both_without_health);
        assert_eq!(w.position(*id), Some(*pos));
        assert_eq!(w.renderable(*id), Some(*rend));
    }
    assert!(tuples.iter().any(|t| t.0 == both_with_health));
    assert!(tuples.iter().any(|t| t.0 == both_without_health));
}

#[test]
fn join_yields_each_entity_once() {
    let mut w = World::new();
    for i in 0..10 {
        let e = w.create_entity();
        w.insert_position(e, Position { x: i, y: i });
        w.insert_renderable(e, Renderable { glyph: '.', color: Color::Black });
    }
    let tuples = w.join_position_renderable();
    assert_eq!(tuples.len(), 10);
    for a in 0..tuples.len() {
        for b in (a + 1)..tuples.len() {
            assert_ne!(tuples[a].0, tuples[b].0);
        }
    }
}

#[test]
fn join_of_empty_world_is_empty() {
    let w = World::new();
    assert!(w.join_position_renderable().is_empty());
}

#[test]
fn join_is_agnostic_to_backing_strategy() {
    let ids = [
        EntityId { index: 0, generation: 0 },
        EntityId { index: 1, generation: 0 },
        EntityId { index: 2, generation: 0 },
    ];
    let mut dense: DenseTable<Position> = DenseTable::new();
    let mut sparse: SparseTable<Health> = SparseTable::new();
    dense.insert(ids[0], Position { x: 0, y: 0 });
    dense.insert(ids[1], Position { x: 1, y: 1 });
    dense.insert(ids[2], Position { x: 2, y: 2 });
    sparse.insert(ids[1], Health { max: 3, current: 2 });
    let tuples = join(&dense, &sparse);
    assert_eq!(tuples.len(), 1);
    assert_eq!(tuples[0].0, ids[1]);
    assert_eq!(tuples[0].1, Position { x: 1, y: 1 });
    assert_eq!(tuples[0].2, Health { max: 3, current: 2 });
}

#[test]
fn stale_generation_does_not_join() {
    let old_id = EntityId { index: 4, generation: 0 };
    let new_id = EntityId { index: 4, generation: 1 };
    let mut a: DenseTable<Position> = DenseTable::new();
    let mut b: DenseTable<Renderable> = DenseTable::new();
    a.insert(new_id, Position { x: 1, y: 1 });
    b.insert(new_id, Renderable { glyph: '@', color: Color::Blue });
    assert_eq!(a.get(old_id), None);
    let tuples = join(&a, &b);
    assert_eq!(tuples.len(), 1);
    assert_eq!(tuples[0].0, new_id);
}
