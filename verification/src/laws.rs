//! The general guarantees of the simulation, each proved once and for
//! all inputs, stated over the same spec functions the executable
//! contracts use.

use vstd::prelude::*;

use vstd::arithmetic::div_mod::lemma_div_is_ordered;

use crate::config::FLAP_SPEED;
use crate::config::GRAV_LIMIT;
use crate::config::MILLIS_PER_SECOND;
use crate::config::TIME_LIMIT;
use crate::store::destroy_at;
use crate::store::ent;
use crate::store::first_actor;
use crate::store::first_free;
use crate::store::kind_contrib;
use crate::store::kind_count;
use crate::store::lemma_first_actor_is;
use crate::store::lemma_first_free_props;
use crate::store::lemma_kind_count_all_dead;
use crate::store::lemma_kind_count_place;
use crate::store::live;
use crate::store::place;
use crate::store::slot_fits;
use crate::store::valid_live;
use crate::store::EntityId;
use crate::store::EntityKind;
use crate::store::Slot;
use crate::sim::cleared;
use crate::sim::initial_actor;
use crate::sim::moved_slots;
use crate::sim::reset_world;
use crate::sim::tick_slots;
use crate::sim::tick_world;
use crate::systems::bottom_obstacle;
use crate::systems::flap_map;
use crate::systems::grav_map;
use crate::systems::lemma_scaled_bound;
use crate::systems::life_map;
use crate::systems::life_slot;
use crate::systems::mark_passed;
use crate::systems::newly_passed;
use crate::systems::passes;
use crate::systems::scaled;
use crate::systems::scored_slot;
use crate::systems::timer_fired;
use crate::systems::top_obstacle;

verus! {

/// Law: on any tick with a positive time step whose gravity impulse
/// does not vanish in the millisecond resolution, the gravity pass
/// strictly lowers every live actor's vertical velocity; no other pass
/// of a flapless tick touches a velocity.
pub proof fn lemma_gravity_strictly_decreases(s: Seq<Slot>, gravity: int, dt: int, j: int)
    requires
        forall|i: int| 0 <= i < s.len() ==> slot_fits(#[trigger] s[i]),
        -GRAV_LIMIT <= gravity <= -1,
        1 <= dt <= TIME_LIMIT,
        gravity * dt <= -MILLIS_PER_SECOND,
        0 <= j < s.len(),
        live(s[j]),
        ent(s[j]).kind == EntityKind::Actor,
    ensures
        ent(grav_map(s, gravity, dt)[j]).dy < ent(s[j]).dy,
{
    let m = (-gravity) * dt;
    assert((-gravity) * dt == -(gravity * dt)) by (nonlinear_arith);
    assert(m >= MILLIS_PER_SECOND);
    lemma_div_is_ordered(MILLIS_PER_SECOND as int, m, MILLIS_PER_SECOND as int);
    assert(m / (MILLIS_PER_SECOND as int) >= 1);
    assert(scaled(gravity, dt) <= -1);
    lemma_scaled_bound(gravity, dt, GRAV_LIMIT as int, TIME_LIMIT as int);
}

/// Law: over one whole `Active` tick without flap input, and with a
/// gravity impulse that does not vanish in the millisecond resolution,
/// a live actor survives in its slot and its vertical velocity strictly
/// decreases: no later pass of the tick touches it.
pub proof fn lemma_tick_gravity_monotonic(
    s: Seq<Slot>,
    gravity: int,
    elapsed: int,
    started: bool,
    dt: int,
    gap: i64,
    j: int,
)
    requires
        forall|i: int| 0 <= i < s.len() ==> slot_fits(#[trigger] s[i]),
        -GRAV_LIMIT <= gravity <= -1,
        1 <= dt <= TIME_LIMIT,
        gravity * dt <= -MILLIS_PER_SECOND,
        0 <= j < s.len(),
        live(s[j]),
        ent(s[j]).kind == EntityKind::Actor,
        ent(s[j]).lifetime is None,
    ensures
        live(tick_slots(s, gravity, elapsed, started, dt, false, gap)[j]),
        ent(tick_slots(s, gravity, elapsed, started, dt, false, gap)[j]).dy < ent(s[j]).dy,
{
    lemma_gravity_strictly_decreases(s, gravity, dt, j);
    let moved = moved_slots(s, gravity, dt, false);
    assert(ent(moved[j]).dy == ent(grav_map(s, gravity, dt)[j]).dy);
    assert(ent(moved[j]).lifetime is None);
    let spawned = if timer_fired(elapsed, started, dt) {
        place(place(moved, top_obstacle(gap)), bottom_obstacle(gap))
    } else {
        moved
    };
    if timer_fired(elapsed, started, dt) {
        lemma_first_free_props(moved);
        lemma_first_free_props(place(moved, top_obstacle(gap)));
        assert(place(moved, top_obstacle(gap)).len() >= moved.len());
        assert(spawned.len() >= moved.len());
        lemma_place_keeps_live_slot(moved, top_obstacle(gap), j);
        lemma_place_keeps_live_slot(place(moved, top_obstacle(gap)), bottom_obstacle(gap), j);
    }
    assert(spawned[j] == moved[j]);
    let p = tick_world(s, gravity, elapsed, started, dt, false, gap);
    assert(p[j] == life_slot(spawned[j], dt));
    assert(ent(p[j]).dy == ent(moved[j]).dy);
    let q = tick_slots(s, gravity, elapsed, started, dt, false, gap);
    if kind_count(p, EntityKind::Actor) == 1 {
        assert(q[j] == scored_slot(p[j], crate::systems::actor_x(p)));
    }
    assert(live(q[j]) && ent(q[j]).dy == ent(p[j]).dy);
}

/// Helper: a placement fills a free slot or appends, so it never
/// changes a live slot.
proof fn lemma_place_keeps_live_slot(s: Seq<Slot>, e: crate::store::Entity, j: int)
    requires
        0 <= j < s.len(),
        live(s[j]),
    ensures
        place(s, e)[j] == s[j],
{
    lemma_first_free_props(s);
}

/// Law: a flap overwrites rather than accumulates: after the flap pass
/// every live actor's vertical velocity is exactly `FLAP_SPEED`,
/// whatever it was before.
pub proof fn lemma_flap_overwrites(s: Seq<Slot>, j: int)
    requires
        0 <= j < s.len(),
        live(s[j]),
        ent(s[j]).kind == EntityKind::Actor,
    ensures
        ent(flap_map(s)[j]).dy == FLAP_SPEED,
{
}

/// Law: over one whole `Active` tick with flap input, a live actor
/// ends the tick with its vertical velocity exactly `FLAP_SPEED`,
/// whatever velocity it had before: the flap overwrites the gravity
/// impulse of the same tick rather than adding to it.
pub proof fn lemma_tick_flap_sets_speed(
    s: Seq<Slot>,
    gravity: int,
    elapsed: int,
    started: bool,
    dt: int,
    gap: i64,
    j: int,
)
    requires
        0 <= j < s.len(),
        live(s[j]),
        ent(s[j]).kind == EntityKind::Actor,
        ent(s[j]).lifetime is None,
    ensures
        live(tick_slots(s, gravity, elapsed, started, dt, true, gap)[j]),
        ent(tick_slots(s, gravity, elapsed, started, dt, true, gap)[j]).dy == FLAP_SPEED,
{
    let f = flap_map(grav_map(s, gravity, dt));
    assert(ent(f[j]).dy == FLAP_SPEED);
    let moved = moved_slots(s, gravity, dt, true);
    assert(ent(moved[j]).dy == FLAP_SPEED);
    assert(ent(moved[j]).lifetime is None);
    let spawned = if timer_fired(elapsed, started, dt) {
        place(place(moved, top_obstacle(gap)), bottom_obstacle(gap))
    } else {
        moved
    };
    if timer_fired(elapsed, started, dt) {
        lemma_first_free_props(moved);
        lemma_first_free_props(place(moved, top_obstacle(gap)));
        assert(spawned.len() >= moved.len());
        lemma_place_keeps_live_slot(moved, top_obstacle(gap), j);
        lemma_place_keeps_live_slot(place(moved, top_obstacle(gap)), bottom_obstacle(gap), j);
    }
    assert(spawned[j] == moved[j]);
    let p = tick_world(s, gravity, elapsed, started, dt, true, gap);
    assert(p[j] == life_slot(spawned[j], dt));
    let q = tick_slots(s, gravity, elapsed, started, dt, true, gap);
    if kind_count(p, EntityKind::Actor) == 1 {
        assert(q[j] == scored_slot(p[j], crate::systems::actor_x(p)));
    }
    assert(live(q[j]) && ent(q[j]).dy == FLAP_SPEED);
}

/// Law: an entity scores at most once: a scoring pass leaves no slot
/// that could score again at the same actor position, so a second pass
/// adds exactly zero to the score.
pub proof fn lemma_no_double_score(s: Seq<Slot>, ax: int)
    ensures
        newly_passed(mark_passed(s, ax), ax) == 0,
    decreases s.len(),
{
    if s.len() > 0 {
        assert(mark_passed(s, ax).drop_last() =~= mark_passed(s.drop_last(), ax));
        lemma_no_double_score(s.drop_last(), ax);
        assert(mark_passed(s, ax).last() == scored_slot(s.last(), ax));
        assert(!passes(scored_slot(s.last(), ax), ax));
    }
}

/// Law: a "passed" flag never falls back: once set, a scoring pass
/// keeps it set.
pub proof fn lemma_passed_monotone(s: Seq<Slot>, ax: int, j: int)
    requires
        0 <= j < s.len(),
        live(s[j]),
        ent(s[j]).scoreable == Some(true),
    ensures
        ent(mark_passed(s, ax)[j]).scoreable == Some(true),
{
}

/// Law: destruction is idempotent: destroying a handle twice leaves
/// exactly the store that destroying it once leaves.
pub proof fn lemma_destroy_idempotent(s: Seq<Slot>, id: EntityId)
    ensures
        destroy_at(destroy_at(s, id), id) == destroy_at(s, id),
{
    if valid_live(s, id) {
        assert(!live(destroy_at(s, id)[id.index as int]));
        assert(!valid_live(destroy_at(s, id), id));
    }
}

/// Law: the atomic (re)start yields exactly one live actor, and it is
/// the fresh actor: at the origin, at rest, with its standard collider.
pub proof fn lemma_reset_single_actor(s: Seq<Slot>)
    ensures
        kind_count(reset_world(s), EntityKind::Actor) == 1,
        ent(reset_world(s)[first_actor(reset_world(s))]) == initial_actor(),
{
    let c = cleared(s);
    assert(forall|j: int| 0 <= j < c.len() ==> !live(#[trigger] c[j]));
    lemma_kind_count_all_dead(c, EntityKind::Actor);
    lemma_kind_count_place(c, initial_actor(), EntityKind::Actor);
    lemma_first_free_props(c);
    let i = first_free(c);
    assert(kind_contrib(reset_world(s)[i], EntityKind::Actor) == 1);
    assert(forall|j: int|
        0 <= j < i ==> kind_contrib(#[trigger] reset_world(s)[j], EntityKind::Actor) == 0);
    lemma_first_actor_is(reset_world(s), i);
}

/// Helper: a pointwise bound on contributions bounds the counts.
proof fn lemma_kind_count_pointwise_le(s1: Seq<Slot>, s2: Seq<Slot>, k: EntityKind)
    requires
        s1.len() == s2.len(),
        forall|j: int|
            0 <= j < s1.len() ==> kind_contrib(#[trigger] s2[j], k) <= kind_contrib(s1[j], k),
    ensures
        kind_count(s2, k) <= kind_count(s1, k),
    decreases s1.len(),
{
    if s1.len() > 0 {
        lemma_kind_count_pointwise_le(s1.drop_last(), s2.drop_last(), k);
    }
}

/// Law: one tick creates at most one obstacle pair, however many spawn
/// periods the tick's time step covers, and creates no actor: the
/// spawner's backlog never bursts.
pub proof fn lemma_spawner_fires_at_most_once(
    s: Seq<Slot>,
    gravity: int,
    elapsed: int,
    started: bool,
    dt: int,
    flap: bool,
    gap: i64,
)
    ensures
        kind_count(tick_world(s, gravity, elapsed, started, dt, flap, gap), EntityKind::ObstacleTop)
            <= kind_count(s, EntityKind::ObstacleTop) + 1,
        kind_count(
            tick_world(s, gravity, elapsed, started, dt, flap, gap),
            EntityKind::ObstacleBottom,
        ) <= kind_count(s, EntityKind::ObstacleBottom) + 1,
        kind_count(tick_world(s, gravity, elapsed, started, dt, flap, gap), EntityKind::Actor)
            <= kind_count(s, EntityKind::Actor),
{
    let moved = moved_slots(s, gravity, dt, flap);
    let spawned = if timer_fired(elapsed, started, dt) {
        place(place(moved, top_obstacle(gap)), bottom_obstacle(gap))
    } else {
        moved
    };
    lemma_moved_counts(s, gravity, dt, flap, EntityKind::ObstacleTop);
    lemma_moved_counts(s, gravity, dt, flap, EntityKind::ObstacleBottom);
    lemma_moved_counts(s, gravity, dt, flap, EntityKind::Actor);
    if timer_fired(elapsed, started, dt) {
        lemma_kind_count_place(moved, top_obstacle(gap), EntityKind::ObstacleTop);
        lemma_kind_count_place(moved, top_obstacle(gap), EntityKind::ObstacleBottom);
        lemma_kind_count_place(moved, top_obstacle(gap), EntityKind::Actor);
        lemma_kind_count_place(place(moved, top_obstacle(gap)), bottom_obstacle(gap),
            EntityKind::ObstacleTop);
        lemma_kind_count_place(place(moved, top_obstacle(gap)), bottom_obstacle(gap),
            EntityKind::ObstacleBottom);
        lemma_kind_count_place(place(moved, top_obstacle(gap)), bottom_obstacle(gap),
            EntityKind::Actor);
    }
    assert forall|j: int| 0 <= j < spawned.len() implies kind_contrib(
        #[trigger] life_map(spawned, dt)[j],
        EntityKind::ObstacleTop,
    ) <= kind_contrib(spawned[j], EntityKind::ObstacleTop) by {
        assert(life_map(spawned, dt)[j] == life_slot(spawned[j], dt));
    }
    lemma_kind_count_pointwise_le(spawned, life_map(spawned, dt), EntityKind::ObstacleTop);
    assert forall|j: int| 0 <= j < spawned.len() implies kind_contrib(
        #[trigger] life_map(spawned, dt)[j],
        EntityKind::ObstacleBottom,
    ) <= kind_contrib(spawned[j], EntityKind::ObstacleBottom) by {
        assert(life_map(spawned, dt)[j] == life_slot(spawned[j], dt));
    }
    lemma_kind_count_pointwise_le(spawned, life_map(spawned, dt), EntityKind::ObstacleBottom);
    assert forall|j: int| 0 <= j < spawned.len() implies kind_contrib(
        #[trigger] life_map(spawned, dt)[j],
        EntityKind::Actor,
    ) <= kind_contrib(spawned[j], EntityKind::Actor) by {
        assert(life_map(spawned, dt)[j] == life_slot(spawned[j], dt));
    }
    lemma_kind_count_pointwise_le(spawned, life_map(spawned, dt), EntityKind::Actor);
}

/// Helper: the movement passes neither create nor destroy, so every
/// count by kind is unchanged.
proof fn lemma_moved_counts(s: Seq<Slot>, gravity: int, dt: int, flap: bool, k: EntityKind)
    ensures
        kind_count(moved_slots(s, gravity, dt, flap), k) == kind_count(s, k),
{
    let m = moved_slots(s, gravity, dt, flap);
    assert forall|j: int| 0 <= j < s.len() implies kind_contrib(#[trigger] m[j], k) <= kind_contrib(
        s[j],
        k,
    ) by {}
    lemma_kind_count_pointwise_le(s, m, k);
    assert forall|j: int| 0 <= j < s.len() implies kind_contrib(#[trigger] s[j], k) <= kind_contrib(
        m[j],
        k,
    ) by {}
    lemma_kind_count_pointwise_le(m, s, k);
}

} // verus!
