//! The per-tick simulation systems: kinematics, the spawn timer and
//! obstacle creation, lifetime-driven cleanup, collision and bounds
//! checks, and scoring.

use vstd::prelude::*;

use vstd::arithmetic::div_mod::lemma_div_is_ordered;
use vstd::arithmetic::div_mod::lemma_div_pos_is_pos;

use crate::config::FLAP_SPEED;
use crate::config::GAP_CENTER_RANGE;
use crate::config::GEN_LIMIT;
use crate::config::GRAV_LIMIT;
use crate::config::LEN_LIMIT;
use crate::config::MILLIS_PER_SECOND;
use crate::config::OBSTACLE_HALF_H;
use crate::config::OBSTACLE_HALF_W;
use crate::config::OBSTACLE_LIFETIME_MS;
use crate::config::OBSTACLE_OFFSET;
use crate::config::POS_LIMIT;
use crate::config::POS_LOOSE;
use crate::config::SCORE_LIMIT;
use crate::config::SCROLL_SPEED;
use crate::config::SPAWN_INTERVAL_MS;
use crate::config::SPAWN_X;
use crate::config::TIME_LIMIT;
use crate::config::TOP_BOUND;
use crate::config::BOTTOM_BOUND;
use crate::config::VEL_LOOSE;
use crate::store::ent;
use crate::store::first_actor;
use crate::store::kind_contrib;
use crate::store::kind_count;
use crate::store::live;
use crate::store::place;
use crate::store::slot_fits;
use crate::store::Entity;
use crate::store::EntityKind;
use crate::store::Slot;
use crate::store::World;

verus! {

/// `v * dt / 1000`, truncated toward zero: the displacement over `dt`
/// milliseconds at `v` milli-units per second.
pub open spec fn scaled(v: int, dt: int) -> int {
    if v >= 0 {
        (v * dt) / (MILLIS_PER_SECOND as int)
    } else {
        -(((-v) * dt) / (MILLIS_PER_SECOND as int))
    }
}

/// Intermediate bounds after the velocity updates of a tick.
pub open spec fn entity_mid(e: Entity) -> bool {
    &&& -POS_LIMIT <= e.x <= POS_LIMIT
    &&& -POS_LIMIT <= e.y <= POS_LIMIT
    &&& -VEL_LOOSE <= e.dx <= VEL_LOOSE
    &&& -VEL_LOOSE <= e.dy <= VEL_LOOSE
    &&& 0 < e.half_w <= POS_LIMIT
    &&& 0 < e.half_h <= POS_LIMIT
    &&& (e.lifetime is Some ==> -TIME_LIMIT <= e.lifetime->0 <= TIME_LIMIT)
}

/// Loose bounds that hold of every entity later in a tick.
pub open spec fn entity_loose(e: Entity) -> bool {
    &&& -POS_LOOSE <= e.x <= POS_LOOSE
    &&& -POS_LOOSE <= e.y <= POS_LOOSE
    &&& -VEL_LOOSE <= e.dx <= VEL_LOOSE
    &&& -VEL_LOOSE <= e.dy <= VEL_LOOSE
    &&& 0 < e.half_w <= POS_LIMIT
    &&& 0 < e.half_h <= POS_LIMIT
    &&& (e.lifetime is Some ==> -2 * TIME_LIMIT <= e.lifetime->0 <= 2 * TIME_LIMIT)
}

pub open spec fn slot_mid(sl: Slot) -> bool {
    &&& sl.generation <= GEN_LIMIT
    &&& (live(sl) ==> entity_mid(ent(sl)))
}

pub open spec fn slot_loose(sl: Slot) -> bool {
    &&& sl.generation <= GEN_LIMIT + 1
    &&& (live(sl) ==> entity_loose(ent(sl)))
}

/// Bounds `scaled` by the bounds of its arguments.
pub proof fn lemma_scaled_bound(v: int, dt: int, vb: int, tb: int)
    requires
        -vb <= v <= vb,
        0 <= dt <= tb,
    ensures
        -((vb * tb) / (MILLIS_PER_SECOND as int)) <= scaled(v, dt) <= (vb * tb) / (
        MILLIS_PER_SECOND as int),
{
    let m = if v >= 0 {
        v
    } else {
        -v
    };
    assert(0 <= m * dt <= vb * tb) by (nonlinear_arith)
        requires
            0 <= m <= vb,
            0 <= dt <= tb,
    ;
    lemma_div_pos_is_pos(m * dt, MILLIS_PER_SECOND as int);
    lemma_div_is_ordered(m * dt, vb * tb, MILLIS_PER_SECOND as int);
}

/// Computes `scaled(v, dt)` on machine integers.
pub fn scale_velocity(v: i64, dt: i64) -> (r: i64)
    requires
        -VEL_LOOSE <= v <= VEL_LOOSE,
        0 <= dt <= TIME_LIMIT,
    ensures
        r == scaled(v as int, dt as int),
{
    proof {
        lemma_scaled_bound(v as int, dt as int, VEL_LOOSE as int, TIME_LIMIT as int);
    }
    if v >= 0 {
        assert((v as u64) * (dt as u64) <= (VEL_LOOSE as u64) * (TIME_LIMIT as u64))
            by (nonlinear_arith)
            requires
                0 <= (v as u64) <= (VEL_LOOSE as u64),
                0 <= (dt as u64) <= (TIME_LIMIT as u64),
        ;
        let p: u64 = (v as u64) * (dt as u64);
        (p / 1000) as i64
    } else {
        let m: i64 = -v;
        assert((m as u64) * (dt as u64) <= (VEL_LOOSE as u64) * (TIME_LIMIT as u64))
            by (nonlinear_arith)
            requires
                0 <= (m as u64) <= (VEL_LOOSE as u64),
                0 <= (dt as u64) <= (TIME_LIMIT as u64),
        ;
        let p: u64 = (m as u64) * (dt as u64);
        -((p / 1000) as i64)
    }
}

/// One slot after gravity: every live actor's vertical velocity gains
/// `gravity * dt / 1000`; everything else is untouched.
pub open spec fn grav_slot(sl: Slot, gravity: int, dt: int) -> Slot {
    if live(sl) && ent(sl).kind == EntityKind::Actor {
        Slot {
            generation: sl.generation,
            entity: Some(Entity { dy: (ent(sl).dy + scaled(gravity, dt)) as i64, ..ent(sl) }),
        }
    } else {
        sl
    }
}

pub open spec fn grav_map(s: Seq<Slot>, gravity: int, dt: int) -> Seq<Slot> {
    Seq::new(s.len(), |j: int| grav_slot(s[j], gravity, dt))
}

/// One slot after a flap: every live actor's vertical velocity is
/// overwritten with `FLAP_SPEED`, whatever it was before.
pub open spec fn flap_slot(sl: Slot) -> Slot {
    if live(sl) && ent(sl).kind == EntityKind::Actor {
        Slot { generation: sl.generation, entity: Some(Entity { dy: FLAP_SPEED, ..ent(sl) }) }
    } else {
        sl
    }
}

pub open spec fn flap_map(s: Seq<Slot>) -> Seq<Slot> {
    Seq::new(s.len(), |j: int| flap_slot(s[j]))
}

/// One slot after position integration: every live entity moves by
/// `velocity * dt / 1000` on each axis, with the same `dt` for all.
pub open spec fn move_slot(sl: Slot, dt: int) -> Slot {
    if live(sl) {
        Slot {
            generation: sl.generation,
            entity: Some(
                Entity {
                    x: (ent(sl).x + scaled(ent(sl).dx as int, dt)) as i64,
                    y: (ent(sl).y + scaled(ent(sl).dy as int, dt)) as i64,
                    ..ent(sl)
                },
            ),
        }
    } else {
        sl
    }
}

pub open spec fn move_map(s: Seq<Slot>, dt: int) -> Seq<Slot> {
    Seq::new(s.len(), |j: int| move_slot(s[j], dt))
}

/// Applies gravity to every live actor's vertical velocity.
pub fn gravity_system(w: &mut World, gravity: i64, dt: i64)
    requires
        forall|j: int|
            0 <= j < old(w).slots@.len() ==> slot_fits(#[trigger] old(w).slots@[j]),
        -GRAV_LIMIT <= gravity <= -1,
        0 <= dt <= TIME_LIMIT,
    ensures
        final(w).slots@ == grav_map(old(w).slots@, gravity as int, dt as int),
{
    let ghost s0 = old(w).slots@;
    let n = w.slots.len();
    let mut i: usize = 0;
    while i < n
        invariant
            s0 == old(w).slots@,
            n == s0.len(),
            w.slots@.len() == n,
            i <= n,
            -GRAV_LIMIT <= gravity <= -1,
            0 <= dt <= TIME_LIMIT,
            forall|j: int| 0 <= j < n ==> slot_fits(#[trigger] s0[j]),
            forall|j: int| i <= j < n ==> w.slots@[j] == s0[j],
            forall|j: int|
                0 <= j < i ==> w.slots@[j] == grav_slot(#[trigger] s0[j], gravity as int, dt as int),
        decreases n - i,
    {
        let sl = w.slots[i];
        if sl.entity.is_some() {
            let e = sl.entity.unwrap();
            if e.kind == EntityKind::Actor {
                proof {
                    assert(sl == s0[i as int]);
                    assert(slot_fits(s0[i as int]));
                    lemma_scaled_bound(gravity as int, dt as int, GRAV_LIMIT as int,
                        TIME_LIMIT as int);
                }
                let delta = scale_velocity(gravity, dt);
                w.slots[i] = Slot { generation: sl.generation, entity: Some(Entity { dy: e.dy + delta, ..e }) };
            }
        }
        i += 1;
    }
    proof {
        assert(w.slots@ =~= grav_map(s0, gravity as int, dt as int));
    }
}

/// Overwrites every live actor's vertical velocity with `FLAP_SPEED`.
/// The caller feeds this from an edge-triggered input, once per press.
pub fn flap_system(w: &mut World)
    ensures
        final(w).slots@ == flap_map(old(w).slots@),
{
    let ghost s0 = old(w).slots@;
    let n = w.slots.len();
    let mut i: usize = 0;
    while i < n
        invariant
            s0 == old(w).slots@,
            n == s0.len(),
            w.slots@.len() == n,
            i <= n,
            forall|j: int| i <= j < n ==> w.slots@[j] == s0[j],
            forall|j: int| 0 <= j < i ==> w.slots@[j] == flap_slot(#[trigger] s0[j]),
        decreases n - i,
    {
        let sl = w.slots[i];
        if sl.entity.is_some() {
            let e = sl.entity.unwrap();
            if e.kind == EntityKind::Actor {
                w.slots[i] = Slot { generation: sl.generation, entity: Some(Entity { dy: FLAP_SPEED, ..e }) };
            }
        }
        i += 1;
    }
    proof {
        assert(w.slots@ =~= flap_map(s0));
    }
}

/// Integrates every live entity's position from its velocity, with one
/// shared `dt`.
pub fn integrate_system(w: &mut World, dt: i64)
    requires
        forall|j: int| 0 <= j < old(w).slots@.len() ==> slot_mid(#[trigger] old(w).slots@[j]),
        0 <= dt <= TIME_LIMIT,
    ensures
        final(w).slots@ == move_map(old(w).slots@, dt as int),
{
    let ghost s0 = old(w).slots@;
    let n = w.slots.len();
    let mut i: usize = 0;
    while i < n
        invariant
            s0 == old(w).slots@,
            n == s0.len(),
            w.slots@.len() == n,
            i <= n,
            0 <= dt <= TIME_LIMIT,
            forall|j: int| 0 <= j < n ==> slot_mid(#[trigger] s0[j]),
            forall|j: int| i <= j < n ==> w.slots@[j] == s0[j],
            forall|j: int| 0 <= j < i ==> w.slots@[j] == move_slot(#[trigger] s0[j], dt as int),
        decreases n - i,
    {
        let sl = w.slots[i];
        if sl.entity.is_some() {
            let e = sl.entity.unwrap();
            proof {
                assert(sl == s0[i as int]);
                assert(slot_mid(s0[i as int]));
                lemma_scaled_bound(e.dx as int, dt as int, VEL_LOOSE as int, TIME_LIMIT as int);
                lemma_scaled_bound(e.dy as int, dt as int, VEL_LOOSE as int, TIME_LIMIT as int);
            }
            let nx = e.x + scale_velocity(e.dx, dt);
            let ny = e.y + scale_velocity(e.dy, dt);
            w.slots[i] = Slot { generation: sl.generation, entity: Some(Entity { x: nx, y: ny, ..e }) };
        }
        i += 1;
    }
    proof {
        assert(w.slots@ =~= move_map(s0, dt as int));
    }
}

/// Gravity keeps every slot within the intermediate bounds.
pub proof fn lemma_grav_map_bounds(s: Seq<Slot>, gravity: int, dt: int)
    requires
        forall|j: int| 0 <= j < s.len() ==> slot_fits(#[trigger] s[j]),
        -GRAV_LIMIT <= gravity <= -1,
        0 <= dt <= TIME_LIMIT,
    ensures
        forall|j: int|
            0 <= j < grav_map(s, gravity, dt).len() ==> slot_mid(
                #[trigger] grav_map(s, gravity, dt)[j],
            ),
{
    lemma_scaled_bound(gravity, dt, GRAV_LIMIT as int, TIME_LIMIT as int);
}

/// A flap keeps every slot within the intermediate bounds.
pub proof fn lemma_flap_map_bounds(s: Seq<Slot>)
    requires
        forall|j: int| 0 <= j < s.len() ==> slot_mid(#[trigger] s[j]),
    ensures
        forall|j: int| 0 <= j < flap_map(s).len() ==> slot_mid(#[trigger] flap_map(s)[j]),
{
}

/// Integration keeps every slot within the loose bounds.
pub proof fn lemma_move_map_bounds(s: Seq<Slot>, dt: int)
    requires
        forall|j: int| 0 <= j < s.len() ==> slot_mid(#[trigger] s[j]),
        0 <= dt <= TIME_LIMIT,
    ensures
        forall|j: int| 0 <= j < move_map(s, dt).len() ==> slot_loose(#[trigger] move_map(s, dt)[j]),
{
    assert forall|j: int| 0 <= j < move_map(s, dt).len() implies slot_loose(
        #[trigger] move_map(s, dt)[j],
    ) by {
        if live(s[j]) {
            lemma_scaled_bound(ent(s[j]).dx as int, dt, VEL_LOOSE as int, TIME_LIMIT as int);
            lemma_scaled_bound(ent(s[j]).dy as int, dt, VEL_LOOSE as int, TIME_LIMIT as int);
        }
    }
}

/// One slot after lifetime accounting: a live entity with a lifetime
/// loses `dt` of it and is destroyed exactly when it crosses zero.
pub open spec fn life_slot(sl: Slot, dt: int) -> Slot {
    if live(sl) && ent(sl).lifetime is Some {
        let lt = ent(sl).lifetime->0 - dt;
        if lt <= 0 {
            Slot { generation: (sl.generation + 1) as u64, entity: None }
        } else {
            Slot {
                generation: sl.generation,
                entity: Some(Entity { lifetime: Some(lt as i64), ..ent(sl) }),
            }
        }
    } else {
        sl
    }
}

pub open spec fn life_map(s: Seq<Slot>, dt: int) -> Seq<Slot> {
    Seq::new(s.len(), |j: int| life_slot(s[j], dt))
}

/// Decrements every remaining lifetime by `dt` and destroys the
/// entities whose lifetime has elapsed.
pub fn lifetime_system(w: &mut World, dt: i64)
    requires
        forall|j: int| 0 <= j < old(w).slots@.len() ==> slot_loose(#[trigger] old(w).slots@[j]),
        0 <= dt <= TIME_LIMIT,
    ensures
        final(w).slots@ == life_map(old(w).slots@, dt as int),
{
    let ghost s0 = old(w).slots@;
    let n = w.slots.len();
    let mut i: usize = 0;
    while i < n
        invariant
            s0 == old(w).slots@,
            n == s0.len(),
            w.slots@.len() == n,
            i <= n,
            0 <= dt <= TIME_LIMIT,
            forall|j: int| 0 <= j < n ==> slot_loose(#[trigger] s0[j]),
            forall|j: int| i <= j < n ==> w.slots@[j] == s0[j],
            forall|j: int| 0 <= j < i ==> w.slots@[j] == life_slot(#[trigger] s0[j], dt as int),
        decreases n - i,
    {
        let sl = w.slots[i];
        if sl.entity.is_some() {
            let e = sl.entity.unwrap();
            if e.lifetime.is_some() {
                proof {
                    assert(sl == s0[i as int]);
                    assert(slot_loose(s0[i as int]));
                }
                let lt = e.lifetime.unwrap() - dt;
                if lt <= 0 {
                    w.slots[i] = Slot { generation: sl.generation + 1, entity: None };
                } else {
                    w.slots[i] = Slot {
                        generation: sl.generation,
                        entity: Some(Entity { lifetime: Some(lt), ..e }),
                    };
                }
            }
        }
        i += 1;
    }
    proof {
        assert(w.slots@ =~= life_map(s0, dt as int));
    }
}

/// Lifetime accounting keeps every live entity within the loose bounds.
pub proof fn lemma_life_map_bounds(s: Seq<Slot>, dt: int)
    requires
        forall|j: int| 0 <= j < s.len() ==> slot_loose(#[trigger] s[j]),
        0 <= dt <= TIME_LIMIT,
    ensures
        forall|j: int|
            0 <= j < life_map(s, dt).len() && live(#[trigger] life_map(s, dt)[j]) ==> entity_loose(
                ent(life_map(s, dt)[j]),
            ),
{
}

/// The elapsed time the spawn timer counts from: a timer not yet
/// running starts, lazily, at zero.
pub open spec fn timer_base(elapsed: int, started: bool) -> int {
    if started {
        elapsed
    } else {
        0
    }
}

/// Whether the spawn timer completes a period this tick. However much
/// backlog `dt` brings, this is a single event: the spawner fires at
/// most once per tick.
pub open spec fn timer_fired(elapsed: int, started: bool, dt: int) -> bool {
    timer_base(elapsed, started) + dt >= SPAWN_INTERVAL_MS
}

/// The elapsed time left on the timer after the tick: advanced by `dt`,
/// and reduced modulo the period when it fired.
pub open spec fn timer_next(elapsed: int, started: bool, dt: int) -> int {
    let t = timer_base(elapsed, started) + dt;
    if t >= SPAWN_INTERVAL_MS {
        t % (SPAWN_INTERVAL_MS as int)
    } else {
        t
    }
}

/// Advances the repeating spawn timer and reports whether it fired.
pub fn timer_step(elapsed: i64, started: bool, dt: i64) -> (r: (i64, bool))
    requires
        0 <= elapsed < SPAWN_INTERVAL_MS,
        0 <= dt <= TIME_LIMIT,
    ensures
        r.0 == timer_next(elapsed as int, started, dt as int),
        r.1 == timer_fired(elapsed as int, started, dt as int),
        0 <= r.0 < SPAWN_INTERVAL_MS,
{
    let base: i64 = if started {
        elapsed
    } else {
        0
    };
    let total = base + dt;
    if total >= SPAWN_INTERVAL_MS {
        assert((total as u64) % (SPAWN_INTERVAL_MS as u64) == (total as int) % (
        SPAWN_INTERVAL_MS as int)) by (nonlinear_arith)
            requires
                0 <= total,
                total as u64 == total as int,
        ;
        let rem = ((total as u64) % (SPAWN_INTERVAL_MS as u64)) as i64;
        (rem, true)
    } else {
        (total, false)
    }
}

/// The upper obstacle of a freshly spawned pair; it carries the pair's
/// scoring flag.
pub open spec fn top_obstacle(gap_center: i64) -> Entity {
    Entity {
        kind: EntityKind::ObstacleTop,
        x: SPAWN_X,
        y: (gap_center + OBSTACLE_OFFSET) as i64,
        dx: SCROLL_SPEED,
        dy: 0,
        half_w: OBSTACLE_HALF_W,
        half_h: OBSTACLE_HALF_H,
        lifetime: Some(OBSTACLE_LIFETIME_MS),
        scoreable: Some(false),
    }
}

/// The lower obstacle of a freshly spawned pair; it carries no scoring
/// flag, so a pair is worth exactly one point.
pub open spec fn bottom_obstacle(gap_center: i64) -> Entity {
    Entity {
        kind: EntityKind::ObstacleBottom,
        x: SPAWN_X,
        y: (gap_center - OBSTACLE_OFFSET) as i64,
        dx: SCROLL_SPEED,
        dy: 0,
        half_w: OBSTACLE_HALF_W,
        half_h: OBSTACLE_HALF_H,
        lifetime: Some(OBSTACLE_LIFETIME_MS),
        scoreable: None,
    }
}

/// Creates one obstacle pair around the given gap center: the two
/// entities, offset symmetrically, share the scroll velocity, the
/// inset collider and the fixed lifetime.
pub fn spawn_pair(w: &mut World, gap_center: i64)
    requires
        -GAP_CENTER_RANGE <= gap_center <= GAP_CENTER_RANGE,
    ensures
        final(w).slots@ == place(
            place(old(w).slots@, top_obstacle(gap_center)),
            bottom_obstacle(gap_center),
        ),
{
    let top = Entity {
        kind: EntityKind::ObstacleTop,
        x: SPAWN_X,
        y: gap_center + OBSTACLE_OFFSET,
        dx: SCROLL_SPEED,
        dy: 0,
        half_w: OBSTACLE_HALF_W,
        half_h: OBSTACLE_HALF_H,
        lifetime: Some(OBSTACLE_LIFETIME_MS),
        scoreable: Some(false),
    };
    let bottom = Entity {
        kind: EntityKind::ObstacleBottom,
        x: SPAWN_X,
        y: gap_center - OBSTACLE_OFFSET,
        dx: SCROLL_SPEED,
        dy: 0,
        half_w: OBSTACLE_HALF_W,
        half_h: OBSTACLE_HALF_H,
        lifetime: Some(OBSTACLE_LIFETIME_MS),
        scoreable: None,
    };
    w.create(top);
    w.create(bottom);
}

/// A freshly spawned pair keeps every slot within the loose bounds.
pub proof fn lemma_place_bounds(s: Seq<Slot>, e: Entity)
    requires
        forall|j: int| 0 <= j < s.len() ==> slot_loose(#[trigger] s[j]),
        entity_loose(e),
    ensures
        forall|j: int| 0 <= j < place(s, e).len() ==> slot_loose(#[trigger] place(s, e)[j]),
{
    crate::store::lemma_first_free_props(s);
}

pub open spec fn abs_val(n: int) -> int {
    if n >= 0 {
        n
    } else {
        -n
    }
}

/// The standard axis-aligned box overlap test on boxes centered on the
/// entities' positions with their half-extents: strict overlap on both
/// axes simultaneously.
pub open spec fn aabb_overlap(a: Entity, b: Entity) -> bool {
    &&& abs_val(a.x - b.x) < a.half_w + b.half_w
    &&& abs_val(a.y - b.y) < a.half_h + b.half_h
}

/// Computes the box overlap test on machine integers.
pub fn boxes_overlap(a: &Entity, b: &Entity) -> (r: bool)
    requires
        entity_loose(*a),
        entity_loose(*b),
    ensures
        r == aabb_overlap(*a, *b),
{
    let ddx = if a.x >= b.x {
        a.x - b.x
    } else {
        b.x - a.x
    };
    let ddy = if a.y >= b.y {
        a.y - b.y
    } else {
        b.y - a.y
    };
    ddx < a.half_w + b.half_w && ddy < a.half_h + b.half_h
}

pub open spec fn is_obstacle(sl: Slot) -> bool {
    live(sl) && ent(sl).kind != EntityKind::Actor
}

/// The x coordinate of the single live actor.
pub open spec fn actor_x(s: Seq<Slot>) -> int {
    ent(s[first_actor(s)]).x as int
}

/// Whether the single live actor's box overlaps some live obstacle's
/// box. False when no single actor exists: the check then has nothing
/// to do.
pub open spec fn collision_spec(s: Seq<Slot>) -> bool {
    &&& kind_count(s, EntityKind::Actor) == 1
    &&& exists|j: int|
        0 <= j < s.len() && is_obstacle(#[trigger] s[j]) && aabb_overlap(
            ent(s[first_actor(s)]),
            ent(s[j]),
        )
}

/// Detects a collision between the actor and any obstacle. At most one
/// termination request follows per tick, whichever obstacle is hit
/// first.
pub fn collision_check(w: &World) -> (r: bool)
    requires
        forall|j: int|
            0 <= j < w.slots@.len() && live(#[trigger] w.slots@[j]) ==> entity_loose(
                ent(w.slots@[j]),
            ),
    ensures
        r == collision_spec(w.slots@),
{
    let actor_idx = match w.find_single_actor() {
        Some(i) => i,
        None => {
            return false;
        },
    };
    let a = w.entity_at(actor_idx).unwrap();
    let n = w.slots.len();
    let mut i: usize = 0;
    while i < n
        invariant
            n == w.slots@.len(),
            i <= n,
            kind_count(w.slots@, EntityKind::Actor) == 1,
            0 <= first_actor(w.slots@) < n,
            live(w.slots@[first_actor(w.slots@)]),
            a == ent(w.slots@[first_actor(w.slots@)]),
            entity_loose(a),
            forall|j: int|
                0 <= j < w.slots@.len() && live(#[trigger] w.slots@[j]) ==> entity_loose(
                    ent(w.slots@[j]),
                ),
            forall|j: int|
                0 <= j < i ==> !(is_obstacle(#[trigger] w.slots@[j]) && aabb_overlap(
                    a,
                    ent(w.slots@[j]),
                )),
        decreases n - i,
    {
        let sl = w.slots[i];
        if sl.entity.is_some() {
            let e = sl.entity.unwrap();
            if !matches!(e.kind, EntityKind::Actor) {
                if boxes_overlap(&a, &e) {
                    return true;
                }
            }
        }
        i += 1;
    }
    false
}

/// Whether the actor's box extends past the vertical play bounds.
pub open spec fn oob_entity(a: Entity) -> bool {
    a.y + a.half_h > TOP_BOUND || a.y - a.half_h < BOTTOM_BOUND
}

/// Computes the bounds test for a box at height `y` with vertical
/// half-extent `half_h`.
pub fn edge_out_of_bounds(y: i64, half_h: i64) -> (r: bool)
    requires
        -POS_LOOSE <= y <= POS_LOOSE,
        0 < half_h <= POS_LIMIT,
    ensures
        r == (y + half_h > TOP_BOUND || y - half_h < BOTTOM_BOUND),
{
    y + half_h > TOP_BOUND || y - half_h < BOTTOM_BOUND
}

/// Whether the single live actor is out of the vertical play bounds.
/// False when no single actor exists.
pub open spec fn bounds_spec(s: Seq<Slot>) -> bool {
    &&& kind_count(s, EntityKind::Actor) == 1
    &&& oob_entity(ent(s[first_actor(s)]))
}

/// Detects the actor leaving the vertical play area.
pub fn bounds_check(w: &World) -> (r: bool)
    requires
        forall|j: int|
            0 <= j < w.slots@.len() && live(#[trigger] w.slots@[j]) ==> entity_loose(
                ent(w.slots@[j]),
            ),
    ensures
        r == bounds_spec(w.slots@),
{
    let actor_idx = match w.find_single_actor() {
        Some(i) => i,
        None => {
            return false;
        },
    };
    let a = w.entity_at(actor_idx).unwrap();
    edge_out_of_bounds(a.y, a.half_h)
}

/// Whether this slot scores this tick: a live entity whose scoring flag
/// is still unset, strictly behind the actor's x position.
pub open spec fn passes(sl: Slot, ax: int) -> bool {
    live(sl) && ent(sl).scoreable == Some(false) && ax > ent(sl).x
}

/// One slot after scoring: a passing entity's flag flips to true, once
/// and forever; nothing else changes.
pub open spec fn scored_slot(sl: Slot, ax: int) -> Slot {
    if passes(sl, ax) {
        Slot { generation: sl.generation, entity: Some(Entity { scoreable: Some(true), ..ent(sl) }) }
    } else {
        sl
    }
}

pub open spec fn mark_passed(s: Seq<Slot>, ax: int) -> Seq<Slot> {
    Seq::new(s.len(), |j: int| scored_slot(s[j], ax))
}

/// How many entities pass this tick: the score's increment.
pub open spec fn newly_passed(s: Seq<Slot>, ax: int) -> int
    decreases s.len(),
{
    if s.len() == 0 {
        0
    } else {
        newly_passed(s.drop_last(), ax) + if passes(s.last(), ax) {
            1int
        } else {
            0int
        }
    }
}

pub proof fn lemma_newly_passed_take(s: Seq<Slot>, ax: int, i: int)
    requires
        0 <= i < s.len(),
    ensures
        newly_passed(s.take(i + 1), ax) == newly_passed(s.take(i), ax) + if passes(s[i], ax) {
            1int
        } else {
            0int
        },
{
    assert(s.take(i + 1).drop_last() =~= s.take(i));
    assert(s.take(i + 1).last() == s[i]);
}

pub proof fn lemma_newly_passed_range(s: Seq<Slot>, ax: int)
    ensures
        0 <= newly_passed(s, ax) <= s.len(),
    decreases s.len(),
{
    if s.len() > 0 {
        lemma_newly_passed_range(s.drop_last(), ax);
    }
}

/// Marks every not-yet-passed entity strictly behind the single actor
/// as passed and raises the score by one for each. With no single
/// actor, a no-op.
pub fn scoring_system(w: &mut World, score: &mut i64)
    requires
        0 <= *old(score) <= SCORE_LIMIT,
        old(w).slots@.len() <= LEN_LIMIT + 2,
    ensures
        kind_count(old(w).slots@, EntityKind::Actor) == 1 ==> {
            &&& final(w).slots@ == mark_passed(old(w).slots@, actor_x(old(w).slots@))
            &&& *final(score) == *old(score) + newly_passed(old(w).slots@, actor_x(old(w).slots@))
        },
        kind_count(old(w).slots@, EntityKind::Actor) != 1 ==> {
            &&& final(w).slots@ == old(w).slots@
            &&& *final(score) == *old(score)
        },
{
    let ghost s0 = old(w).slots@;
    let actor_idx = match w.find_single_actor() {
        Some(i) => i,
        None => {
            return ;
        },
    };
    let a = w.entity_at(actor_idx).unwrap();
    let ghost ax = actor_x(s0);
    let n = w.slots.len();
    let mut i: usize = 0;
    while i < n
        invariant
            s0 == old(w).slots@,
            n == s0.len(),
            n <= LEN_LIMIT + 2,
            w.slots@.len() == n,
            i <= n,
            ax == actor_x(s0),
            a.x as int == ax,
            0 <= *old(score) <= SCORE_LIMIT,
            *score == *old(score) + newly_passed(s0.take(i as int), ax),
            *old(score) <= *score <= *old(score) + i,
            forall|j: int| i <= j < n ==> w.slots@[j] == s0[j],
            forall|j: int| 0 <= j < i ==> w.slots@[j] == scored_slot(#[trigger] s0[j], ax),
        decreases n - i,
    {
        proof {
            lemma_newly_passed_take(s0, ax, i as int);
        }
        let sl = w.slots[i];
        if sl.entity.is_some() {
            let e = sl.entity.unwrap();
            if e.scoreable.is_some() && !e.scoreable.unwrap() && a.x > e.x {
                w.slots[i] = Slot {
                    generation: sl.generation,
                    entity: Some(Entity { scoreable: Some(true), ..e }),
                };
                *score = *score + 1;
            }
        }
        i += 1;
    }
    proof {
        assert(s0.take(n as int) =~= s0);
        assert(w.slots@ =~= mark_passed(s0, ax));
    }
}

/// Relies on rand::random_range: a uniform draw from the given
/// inclusive range; it panics only on an empty range, which the
/// precondition rules out.
#[verifier::external_body]
pub(crate) fn draw_in_range(lo: i64, hi: i64) -> (r: i64)
    requires
        lo <= hi,
    ensures
        lo <= r <= hi,
{
    rand::random_range(lo..=hi)
}

} // verus!
