use flappy_core::store::Entity;
use flappy_core::store::EntityKind;
use flappy_core::store::World;

fn obstacle_at(x: i64, y: i64) -> Entity {
    Entity {
        kind: EntityKind::ObstacleTop,
        x,
        y,
        dx: 0,
        dy: 0,
        half_w: 20_000,
        half_h: 295_000,
        lifetime: Some(10_000),
        scoreable: Some(false),
    }
}

#[test]
fn create_then_get_returns_entity() {
    let mut w = World::new();
    let id = w.create(obstacle_at(1, 2));
    let e = w.get(id).unwrap();
    assert_eq!(e.x, 1);
    assert_eq!(e.y, 2);
    assert!(matches!(e.kind, EntityKind::ObstacleTop));
}

#[test]
fn destroy_is_idempotent_and_invalidates_handle() {
    let mut w = World::new();
    let id = w.create(obstacle_at(0, 0));
    w.destroy(id);
    assert!(w.get(id).is_none());
    w.destroy(id);
    assert!(w.get(id).is_none());
    assert_eq!(w.count_kind(EntityKind::ObstacleTop), 0);
}

#[test]
fn stale_handle_misses_reused_slot() {
    let mut w = World::new();
    let id = w.create(obstacle_at(0, 0));
    w.destroy(id);
    let id2 = w.create(obstacle_at(7, 7));
    assert_eq!(id2.index, id.index);
    assert!(w.get(id).is_none());
    assert_eq!(w.get(id2).unwrap().x, 7);
}

#[test]
fn create_reuses_first_free_slot() {
    let mut w = World::new();
    let a = w.create(obstacle_at(0, 0));
    let b = w.create(obstacle_at(1, 1));
    let c = w.create(obstacle_at(2, 2));
    assert_eq!((a.index, b.index, c.index), (0, 1, 2));
    w.destroy(b);
    let d = w.create(obstacle_at(9, 9));
    assert_eq!(d.index, 1);
    assert_eq!(w.slot_count(), 3);
}

#[test]
fn find_single_actor_requires_exactly_one() {
    let mut w = World::new();
    assert!(w.find_single_actor().is_none());
    let actor = Entity {
        kind: EntityKind::Actor,
        x: 0,
        y: 0,
        dx: 0,
        dy: 0,
        half_w: 16_000,
        half_h: 16_000,
        lifetime: None,
        scoreable: None,
    };
    let first = w.create(actor);
    assert_eq!(w.find_single_actor(), Some(first.index));
    w.create(actor);
    assert!(w.find_single_actor().is_none());
}
