use flappy_core::config::FLAP_SPEED;
use flappy_core::config::GRAVITY;
use flappy_core::config::OBSTACLE_LIFETIME_MS;
use flappy_core::config::SCROLL_SPEED;
use flappy_core::config::SPAWN_X;
use flappy_core::sim::Phase;
use flappy_core::sim::Sim;
use flappy_core::store::Entity;
use flappy_core::store::EntityKind;
use flappy_core::store::World;
use flappy_core::systems::bounds_check;
use flappy_core::systems::boxes_overlap;
use flappy_core::systems::collision_check;
use flappy_core::systems::edge_out_of_bounds;
use flappy_core::systems::flap_system;
use flappy_core::systems::lifetime_system;
use flappy_core::systems::scoring_system;
use flappy_core::systems::timer_step;

fn entity(kind: EntityKind, x: i64, y: i64, half_w: i64, half_h: i64) -> Entity {
    Entity { kind, x, y, dx: 0, dy: 0, half_w, half_h, lifetime: None, scoreable: None }
}

fn actor_of(sim: &Sim) -> Entity {
    let i = sim.world.find_single_actor().expect("expected exactly one actor");
    sim.world.entity_at(i).unwrap()
}

fn started_sim() -> Sim {
    let mut sim = Sim::new(GRAVITY);
    sim.handle_start();
    sim
}

#[test]
fn gravity_strictly_decreases_dy_without_flap() {
    let mut sim = started_sim();
    let mut prev = actor_of(&sim).dy;
    assert_eq!(prev, 0);
    for _ in 0..5 {
        assert!(sim.fits_ok());
        sim.tick_with_gap(16, false, 0);
        let dy = actor_of(&sim).dy;
        assert!(dy < prev);
        prev = dy;
    }
}

#[test]
fn gravity_first_tick_value_is_exact() {
    let mut sim = started_sim();
    sim.tick_with_gap(16, false, 0);
    // GRAVITY * 16 / 1000 with GRAVITY = -350_000.
    assert_eq!(actor_of(&sim).dy, -5_600);
}

#[test]
fn flap_overwrites_velocity_exactly() {
    let mut sim = started_sim();
    sim.tick_with_gap(16, false, 0);
    sim.tick_with_gap(16, false, 0);
    assert!(actor_of(&sim).dy < -10_000);
    sim.tick_with_gap(16, true, 0);
    // Gravity runs first, then the flap overwrites; nothing accumulates.
    assert_eq!(actor_of(&sim).dy, FLAP_SPEED);
}

#[test]
fn flap_system_sets_exact_speed_whatever_came_before() {
    let mut w = World::new();
    let mut a = entity(EntityKind::Actor, 0, 0, 16_000, 16_000);
    a.dy = 999_999;
    w.create(a);
    flap_system(&mut w);
    assert_eq!(w.entity_at(0).unwrap().dy, FLAP_SPEED);
}

#[test]
fn overlapping_boxes_collide() {
    let a = entity(EntityKind::Actor, 0, 0, 16, 16);
    let b = entity(EntityKind::ObstacleTop, 10, 0, 20, 300);
    assert!(boxes_overlap(&a, &b));
}

#[test]
fn separated_boxes_do_not_collide() {
    let a = entity(EntityKind::Actor, 0, 0, 16, 16);
    let b = entity(EntityKind::ObstacleTop, 50, 0, 20, 300);
    assert!(!boxes_overlap(&a, &b));
}

#[test]
fn bounds_trigger_at_305_but_not_280() {
    // 305 world units with half-extent 16 against the +/-300 bound.
    assert!(edge_out_of_bounds(305_000, 16_000));
    assert!(!edge_out_of_bounds(280_000, 16_000));
}

#[test]
fn scoring_increments_once_per_obstacle() {
    let mut w = World::new();
    w.create(entity(EntityKind::Actor, 0, 0, 16_000, 16_000));
    let pipe = entity(EntityKind::ObstacleTop, -10_000, 0, 20_000, 295_000);
    let id = w.create(pipe);
    w.attach_scoreable(id);
    assert_eq!(w.get(id).unwrap().scoreable, Some(false));
    let mut score: i64 = 0;
    scoring_system(&mut w, &mut score);
    assert_eq!(score, 1);
    assert_eq!(w.get(id).unwrap().scoreable, Some(true));
    scoring_system(&mut w, &mut score);
    assert_eq!(score, 1);
}

#[test]
fn lifetime_destroys_after_second_tick_exactly() {
    let mut w = World::new();
    let pipe = entity(EntityKind::ObstacleTop, 0, 0, 20_000, 295_000);
    let id = w.create(pipe);
    w.attach_lifetime(id, 100);
    lifetime_system(&mut w, 50);
    assert_eq!(w.count_kind(EntityKind::ObstacleTop), 1);
    assert_eq!(w.entity_at(0).unwrap().lifetime, Some(50));
    lifetime_system(&mut w, 50);
    assert_eq!(w.count_kind(EntityKind::ObstacleTop), 0);
    lifetime_system(&mut w, 50);
    assert_eq!(w.count_kind(EntityKind::ObstacleTop), 0);
}

#[test]
fn per_actor_systems_skip_when_no_actor_exists() {
    let mut w = World::new();
    let pipe = entity(EntityKind::ObstacleTop, -10_000, 0, 20_000, 295_000);
    let id = w.create(pipe);
    w.attach_scoreable(id);
    let mut score: i64 = 0;
    scoring_system(&mut w, &mut score);
    assert_eq!(score, 0);
    assert_eq!(w.get(id).unwrap().scoreable, Some(false));
    assert!(!collision_check(&w));
    assert!(!bounds_check(&w));
}

#[test]
fn full_run_start_collide_restart() {
    let mut sim = Sim::new(GRAVITY);
    assert_eq!(sim.phase, Phase::Idle);

    sim.handle_start();
    assert_eq!(sim.phase, Phase::Active);
    assert_eq!(sim.world.count_kind(EntityKind::Actor), 1);
    let a = actor_of(&sim);
    assert_eq!((a.x, a.y, a.dx, a.dy), (0, 0, 0, 0));

    // A wide obstacle sitting on the actor: the next tick must end the run.
    sim.world.create(entity(EntityKind::ObstacleTop, 0, 0, 300_000, 300_000));
    sim.tick_with_gap(16, false, 0);
    assert_eq!(sim.phase, Phase::Terminated);

    // While terminated nothing moves and nothing scores.
    let frozen = actor_of(&sim);
    let score = sim.score;
    sim.tick_with_gap(16, true, 0);
    let still = actor_of(&sim);
    assert_eq!((frozen.x, frozen.y, frozen.dy), (still.x, still.y, still.dy));
    assert_eq!(sim.score, score);

    // "start" is ignored outside Idle; "restart" begins a fresh run.
    sim.handle_start();
    assert_eq!(sim.phase, Phase::Terminated);
    sim.handle_restart();
    assert_eq!(sim.phase, Phase::Active);
    assert_eq!(sim.score, 0);
    assert_eq!(sim.world.count_kind(EntityKind::Actor), 1);
    assert_eq!(sim.world.count_kind(EntityKind::ObstacleTop), 0);
    let fresh = actor_of(&sim);
    assert_eq!((fresh.x, fresh.y, fresh.dx, fresh.dy), (0, 0, 0, 0));
}

#[test]
fn restart_is_ignored_outside_terminated() {
    let mut sim = started_sim();
    sim.tick_with_gap(16, false, 0);
    let before = actor_of(&sim);
    sim.handle_restart();
    let after = actor_of(&sim);
    assert_eq!(sim.phase, Phase::Active);
    assert_eq!(before.dy, after.dy);
}

#[test]
fn spawner_fires_at_most_once_per_tick() {
    let mut sim = started_sim();
    // Three whole periods in one tick still spawn exactly one pair.
    sim.tick_with_gap(6_000, false, 0);
    assert_eq!(sim.world.count_kind(EntityKind::ObstacleTop), 1);
    assert_eq!(sim.world.count_kind(EntityKind::ObstacleBottom), 1);
    assert_eq!(sim.spawn_elapsed, 0);
}

#[test]
fn timer_accumulates_across_ticks() {
    let mut sim = started_sim();
    // Flap on the long first tick so the actor stays inside the bounds.
    sim.tick_with_gap(1_500, true, 0);
    assert_eq!(sim.phase, Phase::Active);
    assert_eq!(sim.world.count_kind(EntityKind::ObstacleTop), 0);
    sim.tick_with_gap(600, false, 0);
    assert_eq!(sim.world.count_kind(EntityKind::ObstacleTop), 1);
    assert_eq!(sim.spawn_elapsed, 100);
}

#[test]
fn timer_step_reduces_backlog_to_one_firing() {
    let (elapsed, fired) = timer_step(0, true, 6_000);
    assert!(fired);
    assert_eq!(elapsed, 0);
    let (elapsed, fired) = timer_step(300, true, 400);
    assert!(!fired);
    assert_eq!(elapsed, 700);
    // A timer not yet running starts from zero, lazily.
    let (elapsed, fired) = timer_step(1_999, false, 500);
    assert!(!fired);
    assert_eq!(elapsed, 500);
}

#[test]
fn spawned_pair_has_exact_layout() {
    let mut sim = started_sim();
    sim.tick_with_gap(2_000, false, 13_000);
    let mut top = None;
    let mut bottom = None;
    for i in 0..sim.world.slot_count() {
        if let Some(e) = sim.world.entity_at(i) {
            match e.kind {
                EntityKind::ObstacleTop => top = Some(e),
                EntityKind::ObstacleBottom => bottom = Some(e),
                EntityKind::Actor => {}
            }
        }
    }
    let top = top.expect("top obstacle spawned");
    let bottom = bottom.expect("bottom obstacle spawned");
    assert_eq!(top.x, SPAWN_X);
    assert_eq!(bottom.x, SPAWN_X);
    assert_eq!(top.y, 13_000 + 350_000);
    assert_eq!(bottom.y, 13_000 - 350_000);
    assert_eq!(top.dx, SCROLL_SPEED);
    assert_eq!(bottom.dx, SCROLL_SPEED);
    assert_eq!(top.scoreable, Some(false));
    assert_eq!(bottom.scoreable, None);
    // The lifetime pass already took this tick's delta off.
    assert_eq!(top.lifetime, Some(OBSTACLE_LIFETIME_MS - 2_000));
    assert_eq!(bottom.lifetime, Some(OBSTACLE_LIFETIME_MS - 2_000));
}

#[test]
fn random_gap_draw_stays_in_range() {
    for _ in 0..20 {
        let mut sim = started_sim();
        sim.tick(2_000, false);
        let mut seen = 0;
        for i in 0..sim.world.slot_count() {
            if let Some(e) = sim.world.entity_at(i) {
                if matches!(e.kind, EntityKind::ObstacleTop) {
                    seen += 1;
                    assert!(e.y >= -130_000 + 350_000);
                    assert!(e.y <= 130_000 + 350_000);
                }
            }
        }
        assert_eq!(seen, 1);
    }
}

#[test]
fn bounds_exit_terminates_run() {
    let mut sim = started_sim();
    // Fall freely; the actor must leave the +/-300 unit band and the
    // run must end, well before one thousand ticks.
    let mut ticks = 0;
    while sim.phase == Phase::Active && ticks < 1000 {
        assert!(sim.fits_ok());
        sim.tick_with_gap(16, false, 0);
        ticks += 1;
    }
    assert_eq!(sim.phase, Phase::Terminated);
    let a = actor_of(&sim);
    assert!(a.y - a.half_h < -300_000);
}

#[test]
fn obstacles_scroll_left_and_score() {
    // Hover near the gap center while pairs spawn and scroll past: the
    // first pair that falls behind the actor scores exactly once.
    let mut sim = started_sim();
    let mut ticks = 0;
    while sim.phase == Phase::Active && sim.score == 0 && ticks < 2000 {
        assert!(sim.fits_ok());
        // Flap whenever the actor sinks, to stay near the gap center.
        let dive = actor_of(&sim).y < 0;
        sim.tick_with_gap(16, dive, 0);
        ticks += 1;
    }
    assert_eq!(sim.score, 1);
    assert_eq!(sim.phase, Phase::Active);
}
