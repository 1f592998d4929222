use rogue_core::components::Health;
use rogue_core::entity::EntityRegistry;

#[test]
fn fresh_health_is_full() {
    let h = Health::new(5);
    assert_eq!(h.max, 5);
    assert_eq!(h.current, 5);
}

#[test]
fn registry_creates_distinct_live_identifiers() {
    let mut reg = EntityRegistry::new();
    let a = reg.create();
    let b = reg.create();
    assert_ne!(a, b);
    assert!(reg.is_alive(a));
    assert!(reg.is_alive(b));
}

#[test]
fn registry_destroy_is_immediate_and_deferred() {
    let mut reg = EntityRegistry::new();
    let a = reg.create();
    reg.destroy(a);
    assert!(!reg.is_alive(a));
    let freed = reg.maintain();
    assert!(!reg.is_alive(a));
    assert_eq!(freed.len(), 1);
}

#[test]
fn registry_destroy_of_stale_identifier_is_noop() {
    let mut reg = EntityRegistry::new();
    let a = reg.create();
    reg.destroy(a);
    reg.maintain();
    let b = reg.create();
    reg.destroy(a);
    assert!(reg.is_alive(b));
    assert!(reg.maintain().is_empty());
    assert!(reg.is_alive(b));
}

#[test]
fn registry_recycles_slots_under_new_generations() {
    let mut reg = EntityRegistry::new();
    let a = reg.create();
    reg.destroy(a);
    reg.maintain();
    let b = reg.create();
    assert_ne!(a, b);
    assert!(!reg.is_alive(a));
    assert!(reg.is_alive(b));
}

#[test]
fn registry_maintain_without_pending_frees_nothing() {
    let mut reg = EntityRegistry::new();
    let a = reg.create();
    assert!(reg.maintain().is_empty());
    assert!(reg.is_alive(a));
}
