//! The simulation context and the per-tick driver: the phase state
//! machine, the fixed system order of a tick, and the (re)start
//! procedure.

use vstd::prelude::*;

use crate::config::GAP_CENTER_RANGE;
use crate::config::GRAV_LIMIT;
use crate::config::ACTOR_HALF;
use crate::config::LEN_LIMIT;
use crate::config::SCORE_LIMIT;
use crate::config::SPAWN_INTERVAL_MS;
use crate::config::TIME_LIMIT;
use crate::config::GEN_LIMIT;
use crate::config::POS_LIMIT;
use crate::config::VEL_LIMIT;
use crate::store::ent;
use crate::store::entity_fits;
use crate::store::kind_count;
use crate::store::live;
use crate::store::place;
use crate::store::slot_fits;
use crate::store::Entity;
use crate::store::EntityKind;
use crate::store::Slot;
use crate::store::World;
use crate::systems::actor_x;
use crate::systems::bounds_spec;
use crate::systems::bounds_check;
use crate::systems::bottom_obstacle;
use crate::systems::collision_check;
use crate::systems::collision_spec;
use crate::systems::draw_in_range;
use crate::systems::flap_map;
use crate::systems::flap_system;
use crate::systems::grav_map;
use crate::systems::gravity_system;
use crate::systems::integrate_system;
use crate::systems::lemma_flap_map_bounds;
use crate::systems::lemma_grav_map_bounds;
use crate::systems::lemma_life_map_bounds;
use crate::systems::lemma_move_map_bounds;
use crate::systems::lemma_place_bounds;
use crate::systems::life_map;
use crate::systems::lifetime_system;
use crate::systems::mark_passed;
use crate::systems::move_map;
use crate::systems::newly_passed;
use crate::systems::scoring_system;
use crate::systems::spawn_pair;
use crate::systems::timer_fired;
use crate::systems::timer_next;
use crate::systems::timer_step;
use crate::systems::top_obstacle;
use crate::systems::entity_loose;

verus! {

/// The coarse mode of the game. The simulation systems run only while
/// the phase is `Active`; an external "exit" request ends the process
/// and is no state of this machine.
#[derive(Clone, Copy, Debug, PartialEq, Eq, Structural)]
pub enum Phase {
    Idle,
    Active,
    Terminated,
}

/// The whole simulation state: the entity store and the process-wide
/// resources — score, phase, the configured gravity, and the repeating
/// spawn timer.
pub struct Sim {
    pub world: World,
    pub score: i64,
    pub phase: Phase,
    pub gravity: i64,
    pub spawn_elapsed: i64,
    pub spawn_started: bool,
}

/// The actor as (re)created at the start of a run: at the origin, at
/// rest, with its standard collider, with neither lifetime nor scoring
/// flag.
pub open spec fn initial_actor() -> Entity {
    Entity {
        kind: EntityKind::Actor,
        x: 0,
        y: 0,
        dx: 0,
        dy: 0,
        half_w: ACTOR_HALF,
        half_h: ACTOR_HALF,
        lifetime: None,
        scoreable: None,
    }
}

/// The store after destroying every live entity: each occupied slot is
/// emptied and its generation moves on.
pub open spec fn cleared(s: Seq<Slot>) -> Seq<Slot> {
    Seq::new(
        s.len(),
        |j: int|
            if live(s[j]) {
                Slot { generation: (s[j].generation + 1) as u64, entity: None }
            } else {
                s[j]
            },
    )
}

/// The store after the atomic (re)start: everything destroyed, then
/// exactly one fresh actor created.
pub open spec fn reset_world(s: Seq<Slot>) -> Seq<Slot> {
    place(cleared(s), initial_actor())
}

/// The store after the movement systems of one tick, in their fixed
/// order: gravity, then the optional flap, then position integration.
pub open spec fn moved_slots(s: Seq<Slot>, gravity: int, dt: int, flap: bool) -> Seq<Slot> {
    if flap {
        move_map(flap_map(grav_map(s, gravity, dt)), dt)
    } else {
        move_map(grav_map(s, gravity, dt), dt)
    }
}

/// The store after movement, spawning and lifetime cleanup of one tick:
/// the state the collision, bounds and scoring passes observe.
pub open spec fn tick_world(
    s: Seq<Slot>,
    gravity: int,
    elapsed: int,
    started: bool,
    dt: int,
    flap: bool,
    gap: i64,
) -> Seq<Slot> {
    let moved = moved_slots(s, gravity, dt, flap);
    let spawned = if timer_fired(elapsed, started, dt) {
        place(place(moved, top_obstacle(gap)), bottom_obstacle(gap))
    } else {
        moved
    };
    life_map(spawned, dt)
}

/// The store at the end of one tick, after the scoring pass.
pub open spec fn tick_slots(
    s: Seq<Slot>,
    gravity: int,
    elapsed: int,
    started: bool,
    dt: int,
    flap: bool,
    gap: i64,
) -> Seq<Slot> {
    let p = tick_world(s, gravity, elapsed, started, dt, flap, gap);
    if kind_count(p, EntityKind::Actor) == 1 {
        mark_passed(p, actor_x(p))
    } else {
        p
    }
}

/// By how much one tick raises the score.
pub open spec fn tick_score_delta(
    s: Seq<Slot>,
    gravity: int,
    elapsed: int,
    started: bool,
    dt: int,
    flap: bool,
    gap: i64,
) -> int {
    let p = tick_world(s, gravity, elapsed, started, dt, flap, gap);
    if kind_count(p, EntityKind::Actor) == 1 {
        newly_passed(p, actor_x(p))
    } else {
        0
    }
}

/// Whether one tick ends the run: the actor collides with an obstacle
/// or leaves the vertical play bounds, both observed on the tick's
/// final positions.
pub open spec fn tick_hit(
    s: Seq<Slot>,
    gravity: int,
    elapsed: int,
    started: bool,
    dt: int,
    flap: bool,
    gap: i64,
) -> bool {
    let p = tick_world(s, gravity, elapsed, started, dt, flap, gap);
    collision_spec(p) || bounds_spec(p)
}

/// How one whole `Active` tick with gap draw `gap` relates the
/// simulation state before it to the state after it.
pub open spec fn tick_rel(pre: Sim, post: Sim, dt: int, flap: bool, gap: i64) -> bool {
    &&& -GAP_CENTER_RANGE <= gap <= GAP_CENTER_RANGE
    &&& post.world.slots@ == tick_slots(
        pre.world.slots@,
        pre.gravity as int,
        pre.spawn_elapsed as int,
        pre.spawn_started,
        dt,
        flap,
        gap,
    )
    &&& post.score == pre.score + tick_score_delta(
        pre.world.slots@,
        pre.gravity as int,
        pre.spawn_elapsed as int,
        pre.spawn_started,
        dt,
        flap,
        gap,
    )
    &&& post.phase == (if tick_hit(
        pre.world.slots@,
        pre.gravity as int,
        pre.spawn_elapsed as int,
        pre.spawn_started,
        dt,
        flap,
        gap,
    ) {
        Phase::Terminated
    } else {
        Phase::Active
    })
    &&& post.spawn_elapsed as int == timer_next(pre.spawn_elapsed as int, pre.spawn_started, dt)
    &&& post.spawn_started
    &&& post.gravity == pre.gravity
}

impl Sim {
    /// The machine bounds under which one whole tick provably stays
    /// inside `i64`; checked by callers through [`Sim::fits_ok`].
    pub open spec fn fits(&self) -> bool {
        &&& self.world.fits()
        &&& 0 <= self.score <= SCORE_LIMIT
        &&& -GRAV_LIMIT <= self.gravity <= -1
        &&& 0 <= self.spawn_elapsed < SPAWN_INTERVAL_MS
        &&& (!self.spawn_started ==> self.spawn_elapsed == 0)
    }

    /// A fresh simulation: empty store, zero score, phase `Idle`, the
    /// given downward gravity, and the spawn timer not yet running.
    pub fn new(gravity: i64) -> (s: Sim)
        requires
            -GRAV_LIMIT <= gravity <= -1,
        ensures
            s.world.slots@ == Seq::<Slot>::empty(),
            s.score == 0,
            s.phase == Phase::Idle,
            s.gravity == gravity,
            s.spawn_elapsed == 0,
            !s.spawn_started,
            s.fits(),
    {
        Sim {
            world: World::new(),
            score: 0,
            phase: Phase::Idle,
            gravity,
            spawn_elapsed: 0,
            spawn_started: false,
        }
    }

    /// The atomic body of a (re)start: destroys every live entity,
    /// resets the score to zero and creates exactly one fresh actor.
    fn reset_run(&mut self)
        requires
            old(self).fits(),
        ensures
            final(self).world.slots@ == reset_world(old(self).world.slots@),
            final(self).score == 0,
            final(self).phase == old(self).phase,
            final(self).gravity == old(self).gravity,
            final(self).spawn_elapsed == old(self).spawn_elapsed,
            final(self).spawn_started == old(self).spawn_started,
    {
        let ghost s0 = old(self).world.slots@;
        let n = self.world.slots.len();
        let mut i: usize = 0;
        while i < n
            invariant
                s0 == old(self).world.slots@,
                n == s0.len(),
                self.world.slots@.len() == n,
                i <= n,
                forall|j: int| 0 <= j < n ==> slot_fits(#[trigger] s0[j]),
                forall|j: int| i <= j < n ==> self.world.slots@[j] == s0[j],
                forall|j: int| 0 <= j < i ==> self.world.slots@[j] == cleared(s0)[j],
                self.score == old(self).score,
                self.phase == old(self).phase,
                self.gravity == old(self).gravity,
                self.spawn_elapsed == old(self).spawn_elapsed,
                self.spawn_started == old(self).spawn_started,
            decreases n - i,
        {
            let sl = self.world.slots[i];
            if sl.entity.is_some() {
                proof {
                    assert(slot_fits(s0[i as int]));
                }
                self.world.slots[i] = Slot { generation: sl.generation + 1, entity: None };
            }
            i += 1;
        }
        proof {
            assert(self.world.slots@ =~= cleared(s0));
        }
        self.world.create(
            Entity {
                kind: EntityKind::Actor,
                x: 0,
                y: 0,
                dx: 0,
                dy: 0,
                half_w: ACTOR_HALF,
                half_h: ACTOR_HALF,
                lifetime: None,
                scoreable: None,
            },
        );
        self.score = 0;
    }

    /// Consumes an external "start" request: from `Idle`, begins a
    /// fresh run and switches to `Active`; in any other phase the
    /// request is ignored.
    pub fn handle_start(&mut self)
        requires
            old(self).fits(),
        ensures
            old(self).phase == Phase::Idle ==> {
                &&& final(self).world.slots@ == reset_world(old(self).world.slots@)
                &&& final(self).score == 0
                &&& final(self).phase == Phase::Active
                &&& final(self).gravity == old(self).gravity
                &&& final(self).spawn_elapsed == old(self).spawn_elapsed
                &&& final(self).spawn_started == old(self).spawn_started
            },
            old(self).phase != Phase::Idle ==> *final(self) == *old(self),
    {
        if self.phase == Phase::Idle {
            self.reset_run();
            self.phase = Phase::Active;
        }
    }

    /// Consumes an external "restart" request: from `Terminated`,
    /// begins a fresh run and switches to `Active`; in any other phase
    /// the request is ignored.
    pub fn handle_restart(&mut self)
        requires
            old(self).fits(),
        ensures
            old(self).phase == Phase::Terminated ==> {
                &&& final(self).world.slots@ == reset_world(old(self).world.slots@)
                &&& final(self).score == 0
                &&& final(self).phase == Phase::Active
                &&& final(self).gravity == old(self).gravity
                &&& final(self).spawn_elapsed == old(self).spawn_elapsed
                &&& final(self).spawn_started == old(self).spawn_started
            },
            old(self).phase != Phase::Terminated ==> *final(self) == *old(self),
    {
        if self.phase == Phase::Terminated {
            self.reset_run();
            self.phase = Phase::Active;
        }
    }

    /// One simulation tick with the gap draw given by the caller: while
    /// `Active`, runs the systems in their fixed order — gravity, flap
    /// input, integration, spawning, lifetime cleanup, collision and
    /// bounds checks, scoring — and finally switches to `Terminated` if
    /// the run ended. In any other phase the tick does nothing.
    pub fn tick_with_gap(&mut self, dt: i64, flap: bool, gap: i64)
        requires
            old(self).fits(),
            0 <= dt <= TIME_LIMIT,
            -GAP_CENTER_RANGE <= gap <= GAP_CENTER_RANGE,
        ensures
            old(self).phase == Phase::Active ==> tick_rel(
                *old(self),
                *final(self),
                dt as int,
                flap,
                gap,
            ),
            old(self).phase != Phase::Active ==> *final(self) == *old(self),
    {
        if self.phase != Phase::Active {
            return ;
        }
        let ghost s0 = old(self).world.slots@;
        let ghost g0 = old(self).gravity as int;
        let ghost el0 = old(self).spawn_elapsed as int;
        let ghost st0 = old(self).spawn_started;

        gravity_system(&mut self.world, self.gravity, dt);
        proof {
            lemma_grav_map_bounds(s0, g0, dt as int);
        }
        if flap {
            flap_system(&mut self.world);
            proof {
                lemma_flap_map_bounds(grav_map(s0, g0, dt as int));
            }
        }
        integrate_system(&mut self.world, dt);
        let ghost moved = moved_slots(s0, g0, dt as int, flap);
        proof {
            if flap {
                lemma_move_map_bounds(flap_map(grav_map(s0, g0, dt as int)), dt as int);
            } else {
                lemma_move_map_bounds(grav_map(s0, g0, dt as int), dt as int);
            }
            assert(self.world.slots@ == moved);
        }
        let (next_elapsed, fired) = timer_step(self.spawn_elapsed, self.spawn_started, dt);
        self.spawn_elapsed = next_elapsed;
        self.spawn_started = true;
        if fired {
            spawn_pair(&mut self.world, gap);
            proof {
                assert(entity_loose(top_obstacle(gap)));
                assert(entity_loose(bottom_obstacle(gap)));
                lemma_place_bounds(moved, top_obstacle(gap));
                lemma_place_bounds(place(moved, top_obstacle(gap)), bottom_obstacle(gap));
                crate::store::lemma_first_free_props(moved);
                crate::store::lemma_first_free_props(place(moved, top_obstacle(gap)));
                assert(place(moved, top_obstacle(gap)).len() <= moved.len() + 1);
                assert(self.world.slots@.len() <= moved.len() + 2);
            }
        }
        let ghost spawned = self.world.slots@;
        lifetime_system(&mut self.world, dt);
        proof {
            lemma_life_map_bounds(spawned, dt as int);
            assert(self.world.slots@ == tick_world(s0, g0, el0, st0, dt as int, flap, gap));
        }
        let hit = collision_check(&self.world) || bounds_check(&self.world);
        scoring_system(&mut self.world, &mut self.score);
        if hit {
            self.phase = Phase::Terminated;
        }
    }

    /// One simulation tick: draws the randomized gap center for a
    /// potential spawn, then proceeds as [`Sim::tick_with_gap`]. The
    /// flap flag is the tick's edge-triggered input.
    pub fn tick(&mut self, dt: i64, flap: bool)
        requires
            old(self).fits(),
            0 <= dt <= TIME_LIMIT,
        ensures
            old(self).phase == Phase::Active ==> exists|gap: i64|
                tick_rel(*old(self), *final(self), dt as int, flap, gap),
            old(self).phase != Phase::Active ==> *final(self) == *old(self),
    {
        let gap = draw_in_range(-GAP_CENTER_RANGE, GAP_CENTER_RANGE);
        self.tick_with_gap(dt, flap, gap);
    }

    /// Whether the machine-limit bounds hold of the current state, so
    /// that the next tick is known free of overflow.
    pub fn fits_ok(&self) -> (r: bool)
        ensures
            r == self.fits(),
    {
        if !(0 <= self.score && self.score <= SCORE_LIMIT) {
            return false;
        }
        if !(-GRAV_LIMIT <= self.gravity && self.gravity <= -1) {
            return false;
        }
        if !(0 <= self.spawn_elapsed && self.spawn_elapsed < SPAWN_INTERVAL_MS) {
            return false;
        }
        if !self.spawn_started && self.spawn_elapsed != 0 {
            return false;
        }
        let n = self.world.slots.len();
        if n > LEN_LIMIT {
            return false;
        }
        let mut i: usize = 0;
        while i < n
            invariant
                n == self.world.slots@.len(),
                i <= n,
                forall|j: int| 0 <= j < i ==> slot_fits(#[trigger] self.world.slots@[j]),
            decreases n - i,
        {
            let sl = self.world.slots[i];
            if sl.generation > GEN_LIMIT {
                return false;
            }
            if sl.entity.is_some() {
                let e = sl.entity.unwrap();
                let ok = -POS_LIMIT <= e.x && e.x <= POS_LIMIT && -POS_LIMIT <= e.y && e.y
                    <= POS_LIMIT && -VEL_LIMIT <= e.dx && e.dx <= VEL_LIMIT && -VEL_LIMIT <= e.dy
                    && e.dy <= VEL_LIMIT && 0 < e.half_w && e.half_w <= POS_LIMIT && 0 < e.half_h
                    && e.half_h <= POS_LIMIT;
                if !ok {
                    return false;
                }
                if e.lifetime.is_some() {
                    let lt = e.lifetime.unwrap();
                    if !(-TIME_LIMIT <= lt && lt <= TIME_LIMIT) {
                        return false;
                    }
                }
                proof {
                    assert(entity_fits(e));
                }
            }
            i += 1;
        }
        true
    }
}

} // verus!
