use rogue_core::components::{Color, Health, Position, Renderable};
use rogue_core::world::World;

#[test]
fn created_entity_is_alive_and_empty() {
    let mut w = World::new();
    let e = w.create_entity();
    assert!(w.is_alive(e));
    assert!(w.position(e).is_none());
    assert!(w.renderable(e).is_none());
    assert!(w.health(e).is_none());
}

#[test]
fn insert_and_get_components() {
    let mut w = World::new();
    let e = w.create_entity();
    assert!(w.insert_position(e, Position { x: 7, y: -2 }));
    assert!(w.insert_renderable(e, Renderable { glyph: 'g', color: Color::Red }));
    assert!(w.insert_health(e, Health { max: 4, current: 2 }));
    assert_eq!(w.position(e), Some(Position { x: 7, y: -2 }));
    assert_eq!(w.renderable(e), Some(Renderable { glyph: 'g', color: Color::Red }));
    assert_eq!(w.health(e), Some(Health { max: 4, current: 2 }));
}

#[test]
fn insert_overwrites() {
    let mut w = World::new();
    let e = w.create_entity();
    w.insert_position(e, Position { x: 1, y: 1 });
    w.insert_position(e, Position { x: 2, y: 3 });
    assert_eq!(w.position(e), Some(Position { x: 2, y: 3 }));
}

#[test]
fn remove_detaches_and_absent_remove_is_noop() {
    let mut w = World::new();
    let e = w.create_entity();
    w.insert_health(e, Health { max: 3, current: 3 });
    w.remove_health(e);
    assert!(w.health(e).is_none());
    w.remove_health(e);
    assert!(w.health(e).is_none());
    assert!(w.is_alive(e));
}

#[test]
fn destroy_fails_lookups_at_once() {
    let mut w = World::new();
    let e = w.create_entity();
    w.insert_position(e, Position { x: 0, y: 0 });
    w.destroy(e);
    assert!(!w.is_alive(e));
    assert!(w.position(e).is_none());
}

#[test]
fn destroy_then_maintain_clears_every_table() {
    let mut w = World::new();
    let e = w.create_entity();
    w.insert_position(e, Position { x: 1, y: 2 });
    w.insert_renderable(e, Renderable { glyph: '%', color: Color::Purple });
    w.insert_health(e, Health { max: 2, current: 1 });
    w.destroy(e);
    w.maintain();
    assert!(!w.is_alive(e));
    assert!(w.position(e).is_none());
    assert!(w.renderable(e).is_none());
    assert!(w.health(e).is_none());
}

#[test]
fn recycled_identifier_never_aliases() {
    let mut w = World::new();
    let stale = w.create_entity();
    w.insert_position(stale, Position { x: 9, y: 9 });
    w.destroy(stale);
    w.maintain();
    let fresh = w.create_entity();
    w.insert_position(fresh, Position { x: 4, y: 4 });
    assert_ne!(stale, fresh);
    assert!(!w.is_alive(stale));
    assert!(w.is_alive(fresh));
    assert!(w.position(stale).is_none());
    assert_eq!(w.position(fresh), Some(Position { x: 4, y: 4 }));
}

#[test]
fn insert_on_dead_entity_is_refused() {
    let mut w = World::new();
    let e = w.create_entity();
    w.destroy(e);
    assert!(!w.insert_position(e, Position { x: 0, y: 0 }));
    assert!(w.position(e).is_none());
}

#[test]
fn maintain_keeps_live_entities_intact() {
    let mut w = World::new();
    let keep = w.create_entity();
    let drop = w.create_entity();
    w.insert_position(keep, Position { x: 1, y: 1 });
    w.insert_position(drop, Position { x: 2, y: 2 });
    w.destroy(drop);
    w.maintain();
    assert!(w.is_alive(keep));
    assert_eq!(w.position(keep), Some(Position { x: 1, y: 1 }));
    assert!(w.position(drop).is_none());
}

#[test]
fn player_spawn_designates_once() {
    let mut w = World::new();
    assert!(w.player().is_none());
    let p = w.spawn_player(
        Position { x: 5, y: 3 },
        Renderable { glyph: '@', color: Color::Blue },
        Health { max: 5, current: 3 },
    );
    assert_eq!(w.player(), Some(p));
    assert!(w.is_alive(p));
    assert_eq!(w.position(p), Some(Position { x: 5, y: 3 }));
}
