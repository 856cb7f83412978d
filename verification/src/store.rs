//! The entity store: a dense table of slots keyed by a generation-checked
//! index, holding every live simulated object and its components.

use vstd::prelude::*;

use crate::config::GEN_LIMIT;
use crate::config::POS_LIMIT;
use crate::config::TIME_LIMIT;
use crate::config::VEL_LIMIT;
use crate::config::LEN_LIMIT;

verus! {

/// The visual kind of an entity: the single controllable actor, or the
/// upper / lower obstacle of a spawned pair.
#[derive(Clone, Copy, Debug, PartialEq, Eq, Structural)]
pub enum EntityKind {
    Actor,
    ObstacleTop,
    ObstacleBottom,
}

/// One simulated object with its components: a position, a velocity, an
/// axis-aligned collider given by positive half-extents, an optional
/// remaining lifetime (milliseconds), and an optional "passed" scoring
/// flag carried by exactly one obstacle per pair.
#[derive(Clone, Copy, Debug)]
pub struct Entity {
    pub kind: EntityKind,
    pub x: i64,
    pub y: i64,
    pub dx: i64,
    pub dy: i64,
    pub half_w: i64,
    pub half_h: i64,
    pub lifetime: Option<i64>,
    pub scoreable: Option<bool>,
}

/// A handle to a slot of the store. It dangles, and every lookup through
/// it fails, as soon as the generation recorded in the slot moves on.
#[derive(Clone, Copy, Debug, PartialEq, Eq, Structural)]
pub struct EntityId {
    pub index: usize,
    pub generation: u64,
}

/// One slot of the store: the generation counter, bumped on every
/// destruction, and the entity currently held, if any.
#[derive(Clone, Copy, Debug)]
pub struct Slot {
    pub generation: u64,
    pub entity: Option<Entity>,
}

/// The entity store itself.
pub struct World {
    pub slots: Vec<Slot>,
}

/// Whether a slot currently holds an entity.
pub open spec fn live(sl: Slot) -> bool {
    sl.entity is Some
}

/// The entity a live slot holds.
pub open spec fn ent(sl: Slot) -> Entity {
    sl.entity->0
}

/// The machine bounds under which one whole tick of arithmetic on this
/// entity provably stays inside `i64`.
pub open spec fn entity_fits(e: Entity) -> bool {
    &&& -POS_LIMIT <= e.x <= POS_LIMIT
    &&& -POS_LIMIT <= e.y <= POS_LIMIT
    &&& -VEL_LIMIT <= e.dx <= VEL_LIMIT
    &&& -VEL_LIMIT <= e.dy <= VEL_LIMIT
    &&& 0 < e.half_w <= POS_LIMIT
    &&& 0 < e.half_h <= POS_LIMIT
    &&& (e.lifetime is Some ==> -TIME_LIMIT <= e.lifetime->0 <= TIME_LIMIT)
}

pub open spec fn slot_fits(sl: Slot) -> bool {
    &&& sl.generation <= GEN_LIMIT
    &&& (live(sl) ==> entity_fits(ent(sl)))
}

impl World {
    /// The machine bounds under which one whole tick on this store
    /// provably stays inside `i64`.
    pub open spec fn fits(&self) -> bool {
        &&& self.slots@.len() <= LEN_LIMIT
        &&& forall|j: int| 0 <= j < self.slots@.len() ==> slot_fits(#[trigger] self.slots@[j])
    }
}

/// The index of the first free slot, or the length when every slot is
/// occupied: where the next created entity is placed.
pub open spec fn first_free(s: Seq<Slot>) -> int
    decreases s.len(),
{
    if s.len() == 0 {
        0
    } else if !live(s[0]) {
        0
    } else {
        1 + first_free(s.drop_first())
    }
}

/// The store after placing `e`: the first free slot is reused under its
/// current generation, or a fresh slot is appended.
pub open spec fn place(s: Seq<Slot>, e: Entity) -> Seq<Slot> {
    let i = first_free(s);
    if i < s.len() {
        s.update(i, Slot { generation: s[i].generation, entity: Some(e) })
    } else {
        s.push(Slot { generation: 0, entity: Some(e) })
    }
}

/// Whether `id` currently refers to a live entity.
pub open spec fn valid_live(s: Seq<Slot>, id: EntityId) -> bool {
    &&& id.index < s.len()
    &&& s[id.index as int].generation == id.generation
    &&& live(s[id.index as int])
}

/// The store after destroying `id`: a no-op unless `id` is a live handle,
/// else the slot is emptied and its generation moves on.
pub open spec fn destroy_at(s: Seq<Slot>, id: EntityId) -> Seq<Slot> {
    if valid_live(s, id) {
        s.update(
            id.index as int,
            Slot { generation: (s[id.index as int].generation + 1) as u64, entity: None },
        )
    } else {
        s
    }
}

/// 1 when the slot holds a live entity of kind `k`, else 0.
pub open spec fn kind_contrib(sl: Slot, k: EntityKind) -> int {
    if live(sl) && ent(sl).kind == k {
        1
    } else {
        0
    }
}

/// How many live entities of kind `k` the store holds.
pub open spec fn kind_count(s: Seq<Slot>, k: EntityKind) -> int
    decreases s.len(),
{
    if s.len() == 0 {
        0
    } else {
        kind_count(s.drop_last(), k) + kind_contrib(s.last(), k)
    }
}

/// What a renderer consumes: the visual kind tag and the position of
/// every live entity, in slot order.
pub open spec fn render_of(s: Seq<Slot>) -> Seq<(EntityKind, i64, i64)>
    decreases s.len(),
{
    if s.len() == 0 {
        Seq::empty()
    } else if live(s.last()) {
        render_of(s.drop_last()).push((ent(s.last()).kind, ent(s.last()).x, ent(s.last()).y))
    } else {
        render_of(s.drop_last())
    }
}

pub proof fn lemma_render_take(s: Seq<Slot>, i: int)
    requires
        0 <= i < s.len(),
    ensures
        render_of(s.take(i + 1)) == if live(s[i]) {
            render_of(s.take(i)).push((ent(s[i]).kind, ent(s[i]).x, ent(s[i]).y))
        } else {
            render_of(s.take(i))
        },
{
    assert(s.take(i + 1).drop_last() =~= s.take(i));
    assert(s.take(i + 1).last() == s[i]);
}

/// The index of the first live actor; meaningful when one exists.
pub open spec fn first_actor(s: Seq<Slot>) -> int
    decreases s.len(),
{
    if s.len() == 0 {
        0
    } else if kind_contrib(s[0], EntityKind::Actor) == 1 {
        0
    } else {
        1 + first_actor(s.drop_first())
    }
}

pub proof fn lemma_first_free_is(s: Seq<Slot>, i: int)
    requires
        0 <= i <= s.len(),
        forall|j: int| 0 <= j < i ==> live(#[trigger] s[j]),
        i < s.len() ==> !live(s[i]),
    ensures
        first_free(s) == i,
    decreases i,
{
    if i > 0 {
        lemma_first_free_is(s.drop_first(), i - 1);
    }
}

/// The first free slot is free, and everything before it is occupied.
pub proof fn lemma_first_free_props(s: Seq<Slot>)
    ensures
        0 <= first_free(s) <= s.len(),
        first_free(s) < s.len() ==> !live(s[first_free(s)]),
        forall|j: int| 0 <= j < first_free(s) ==> live(#[trigger] s[j]),
    decreases s.len(),
{
    if s.len() > 0 && live(s[0]) {
        lemma_first_free_props(s.drop_first());
        assert forall|j: int| 0 <= j < first_free(s) implies live(s[j]) by {
            if j > 0 {
                assert(s[j] == s.drop_first()[j - 1]);
            }
        }
    }
}

pub proof fn lemma_first_actor_is(s: Seq<Slot>, i: int)
    requires
        0 <= i <= s.len(),
        forall|j: int| 0 <= j < i ==> kind_contrib(#[trigger] s[j], EntityKind::Actor) == 0,
        i < s.len() ==> kind_contrib(s[i], EntityKind::Actor) == 1,
    ensures
        first_actor(s) == i,
    decreases i,
{
    if i > 0 {
        lemma_first_actor_is(s.drop_first(), i - 1);
    }
}

/// Counting by kind, restricted to a prefix, grows by the contribution of
/// the next slot.
pub proof fn lemma_kind_count_take(s: Seq<Slot>, k: EntityKind, i: int)
    requires
        0 <= i < s.len(),
    ensures
        kind_count(s.take(i + 1), k) == kind_count(s.take(i), k) + kind_contrib(s[i], k),
{
    assert(s.take(i + 1).drop_last() =~= s.take(i));
    assert(s.take(i + 1).last() == s[i]);
}

/// Updating one slot moves the count by the difference of contributions.
pub proof fn lemma_kind_count_update(s: Seq<Slot>, i: int, sl: Slot, k: EntityKind)
    requires
        0 <= i < s.len(),
    ensures
        kind_count(s.update(i, sl), k) == kind_count(s, k) - kind_contrib(s[i], k) + kind_contrib(
            sl,
            k,
        ),
    decreases s.len(),
{
    let t = s.update(i, sl);
    if i == s.len() - 1 {
        assert(t.drop_last() =~= s.drop_last());
    } else {
        assert(t.drop_last() =~= s.drop_last().update(i, sl));
        lemma_kind_count_update(s.drop_last(), i, sl, k);
    }
}

/// Appending one slot adds its contribution to the count.
pub proof fn lemma_kind_count_push(s: Seq<Slot>, sl: Slot, k: EntityKind)
    ensures
        kind_count(s.push(sl), k) == kind_count(s, k) + kind_contrib(sl, k),
{
    assert(s.push(sl).drop_last() =~= s);
}

/// A store with no live slot holds no entity of any kind.
pub proof fn lemma_kind_count_all_dead(s: Seq<Slot>, k: EntityKind)
    requires
        forall|j: int| 0 <= j < s.len() ==> !live(#[trigger] s[j]),
    ensures
        kind_count(s, k) == 0,
    decreases s.len(),
{
    if s.len() > 0 {
        lemma_kind_count_all_dead(s.drop_last(), k);
    }
}

/// Placing an entity raises the count of its kind by one and leaves the
/// other kinds alone.
pub proof fn lemma_kind_count_place(s: Seq<Slot>, e: Entity, k: EntityKind)
    ensures
        kind_count(place(s, e), k) == kind_count(s, k) + if e.kind == k {
            1int
        } else {
            0int
        },
{
    lemma_first_free_props(s);
    let i = first_free(s);
    if i < s.len() {
        lemma_kind_count_update(s, i, Slot { generation: s[i].generation, entity: Some(e) }, k);
    } else {
        lemma_kind_count_push(s, Slot { generation: 0, entity: Some(e) }, k);
    }
}

impl World {
    /// An empty store.
    pub fn new() -> (w: World)
        ensures
            w.slots@ == Seq::<Slot>::empty(),
    {
        World { slots: Vec::new() }
    }

    /// Creates an entity, reusing the first free slot or appending a
    /// fresh one, and returns a live handle to it.
    pub fn create(&mut self, e: Entity) -> (id: EntityId)
        ensures
            final(self).slots@ == place(old(self).slots@, e),
            id.index as int == first_free(old(self).slots@),
            valid_live(final(self).slots@, id),
            ent(final(self).slots@[id.index as int]) == e,
    {
        let ghost s0 = old(self).slots@;
        let n = self.slots.len();
        let mut i: usize = 0;
        while i < n
            invariant
                s0 == old(self).slots@,
                n == s0.len(),
                self.slots@ == s0,
                i <= n,
                forall|j: int| 0 <= j < i ==> live(#[trigger] s0[j]),
            decreases n - i,
        {
            if self.slots[i].entity.is_none() {
                let g = self.slots[i].generation;
                self.slots[i] = Slot { generation: g, entity: Some(e) };
                proof {
                    lemma_first_free_is(s0, i as int);
                }
                return EntityId { index: i, generation: g };
            }
            i += 1;
        }
        proof {
            lemma_first_free_is(s0, n as int);
        }
        self.slots.push(Slot { generation: 0, entity: Some(e) });
        EntityId { index: n, generation: 0 }
    }

    /// Destroys the entity `id` refers to. Destroying an already
    /// destroyed or dangling handle is a no-op, not an error.
    pub fn destroy(&mut self, id: EntityId)
        requires
            old(self).fits(),
        ensures
            final(self).slots@ == destroy_at(old(self).slots@, id),
    {
        if id.index < self.slots.len() {
            let sl = self.slots[id.index];
            if sl.generation == id.generation && sl.entity.is_some() {
                self.slots[id.index] = Slot { generation: sl.generation + 1, entity: None };
            }
        }
    }

    /// Attaches a remaining lifetime, in milliseconds, to the entity
    /// `id` refers to; on a dangling handle, a no-op.
    pub fn attach_lifetime(&mut self, id: EntityId, ms: i64)
        ensures
            final(self).slots@ == if valid_live(old(self).slots@, id) {
                old(self).slots@.update(
                    id.index as int,
                    Slot {
                        generation: id.generation,
                        entity: Some(
                            Entity {
                                lifetime: Some(ms),
                                ..ent(old(self).slots@[id.index as int])
                            },
                        ),
                    },
                )
            } else {
                old(self).slots@
            },
    {
        if id.index < self.slots.len() {
            let sl = self.slots[id.index];
            if sl.generation == id.generation && sl.entity.is_some() {
                let e = sl.entity.unwrap();
                self.slots[id.index] = Slot {
                    generation: sl.generation,
                    entity: Some(Entity { lifetime: Some(ms), ..e }),
                };
            }
        }
    }

    /// Attaches an unset scoring flag to the entity `id` refers to; on
    /// a dangling handle, a no-op.
    pub fn attach_scoreable(&mut self, id: EntityId)
        ensures
            final(self).slots@ == if valid_live(old(self).slots@, id) {
                old(self).slots@.update(
                    id.index as int,
                    Slot {
                        generation: id.generation,
                        entity: Some(
                            Entity {
                                scoreable: Some(false),
                                ..ent(old(self).slots@[id.index as int])
                            },
                        ),
                    },
                )
            } else {
                old(self).slots@
            },
    {
        if id.index < self.slots.len() {
            let sl = self.slots[id.index];
            if sl.generation == id.generation && sl.entity.is_some() {
                let e = sl.entity.unwrap();
                self.slots[id.index] = Slot {
                    generation: sl.generation,
                    entity: Some(Entity { scoreable: Some(false), ..e }),
                };
            }
        }
    }

    /// Looks an entity up by its handle.
    pub fn get(&self, id: EntityId) -> (r: Option<Entity>)
        ensures
            r == if valid_live(self.slots@, id) {
                Some(ent(self.slots@[id.index as int]))
            } else {
                Option::<Entity>::None
            },
    {
        if id.index < self.slots.len() {
            let sl = self.slots[id.index];
            if sl.generation == id.generation {
                return sl.entity;
            }
        }
        None
    }

    /// The entity at a raw slot index, if that slot is live.
    pub fn entity_at(&self, i: usize) -> (r: Option<Entity>)
        ensures
            r == if i < self.slots@.len() && live(self.slots@[i as int]) {
                Some(ent(self.slots@[i as int]))
            } else {
                Option::<Entity>::None
            },
    {
        if i < self.slots.len() {
            self.slots[i].entity
        } else {
            None
        }
    }

    /// The number of slots, live or free.
    pub fn slot_count(&self) -> (n: usize)
        ensures
            n == self.slots@.len(),
    {
        self.slots.len()
    }

    /// Counts the live entities of one kind.
    pub fn count_kind(&self, k: EntityKind) -> (n: usize)
        ensures
            n == kind_count(self.slots@, k),
    {
        let s = &self.slots;
        let n = s.len();
        let mut c: usize = 0;
        let mut i: usize = 0;
        while i < n
            invariant
                n == s@.len(),
                i <= n,
                c <= i,
                c == kind_count(s@.take(i as int), k),
            decreases n - i,
        {
            proof {
                lemma_kind_count_take(s@, k, i as int);
            }
            let sl = s[i];
            if sl.entity.is_some() {
                if sl.entity.unwrap().kind == k {
                    c += 1;
                }
            }
            i += 1;
        }
        proof {
            assert(s@.take(n as int) =~= s@);
        }
        c
    }

    /// Every live entity's visual kind tag and position, in slot
    /// order: the store's output for rendering.
    pub fn render_entities(&self) -> (r: Vec<(EntityKind, i64, i64)>)
        ensures
            r@ == render_of(self.slots@),
    {
        let n = self.slots.len();
        let mut r: Vec<(EntityKind, i64, i64)> = Vec::new();
        let mut i: usize = 0;
        while i < n
            invariant
                n == self.slots@.len(),
                i <= n,
                r@ == render_of(self.slots@.take(i as int)),
            decreases n - i,
        {
            proof {
                lemma_render_take(self.slots@, i as int);
            }
            let sl = self.slots[i];
            if sl.entity.is_some() {
                let e = sl.entity.unwrap();
                r.push((e.kind, e.x, e.y));
            }
            i += 1;
        }
        proof {
            assert(self.slots@.take(n as int) =~= self.slots@);
        }
        r
    }

    /// The index of the single live actor, or `None` unless exactly one
    /// live actor exists.
    pub fn find_single_actor(&self) -> (r: Option<usize>)
        ensures
            r is Some <==> kind_count(self.slots@, EntityKind::Actor) == 1,
            r is Some ==> {
                &&& r->0 == first_actor(self.slots@)
                &&& r->0 < self.slots@.len()
                &&& live(self.slots@[r->0 as int])
                &&& ent(self.slots@[r->0 as int]).kind == EntityKind::Actor
            },
    {
        let s = &self.slots;
        let n = s.len();
        let mut found: usize = 0;
        let mut c: usize = 0;
        let mut i: usize = 0;
        while i < n
            invariant
                n == s@.len(),
                i <= n,
                c <= i,
                c == kind_count(s@.take(i as int), EntityKind::Actor),
                c == 0 ==> forall|j: int|
                    0 <= j < i ==> kind_contrib(#[trigger] s@[j], EntityKind::Actor) == 0,
                c >= 1 ==> {
                    &&& found < i
                    &&& found as int == first_actor(s@)
                    &&& kind_contrib(s@[found as int], EntityKind::Actor) == 1
                },
            decreases n - i,
        {
            proof {
                lemma_kind_count_take(s@, EntityKind::Actor, i as int);
            }
            let sl = s[i];
            if sl.entity.is_some() {
                if sl.entity.unwrap().kind == EntityKind::Actor {
                    if c == 0 {
                        found = i;
                        proof {
                            lemma_first_actor_is(s@, i as int);
                        }
                    }
                    c += 1;
                }
            }
            i += 1;
        }
        proof {
            assert(s@.take(n as int) =~= s@);
        }
        if c == 1 {
            Some(found)
        } else {
            None
        }
    }
}

} // verus!
