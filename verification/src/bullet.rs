//! The projectile pool: a bounded set of reusable projectile slots driven by
//! spawn and despawn requests, with an overflow path, per-tick motion, and
//! range-based culling.
//!
//! Slots are never destroyed once allocated. A spawn request reuses the first
//! parked slot of the requested kind; when none is free a fresh slot is
//! appended outside the pooled set (counted as a pool-exhaustion warning) and
//! such a slot is retired for good once despawned. A despawn request against a
//! slot that is already inactive is silently ignored.

use vstd::prelude::*;
use crate::geom::{Vec2I, spec_dist_sq, spec_scaled_coord, spec_step_coord, dist_sq, scaled_dir, step};
use crate::{BALL_SPEED, COORD_LIMIT, DT_LIMIT, POOL_SIZE, SPEED_LIMIT, VEL_LIMIT};

verus! {

/// The closed enumeration of projectile kinds.
#[derive(Clone, Copy, PartialEq, Eq, Structural, Debug, Hash)]
pub enum BulletType {
    Ball,
}

/// One projectile slot: its kind, motion state, and lifecycle flags.
#[derive(Clone, Copy, PartialEq, Eq, Structural, Debug)]
pub struct Bullet {
    pub ty: BulletType,
    pub pos: Vec2I,
    pub vel: Vec2I,
    /// In play: collidable and moving toward something.
    pub active: bool,
    /// Rendered at all; inactive slots are always hidden.
    pub visible: bool,
    /// Part of the reusable pool; overflow slots are retired on despawn.
    pub pooled: bool,
}

impl Bullet {
    pub open spec fn wf(self) -> bool {
        &&& self.pos.wf()
        &&& -VEL_LIMIT <= self.vel.x <= VEL_LIMIT
        &&& -VEL_LIMIT <= self.vel.y <= VEL_LIMIT
    }
}

/// A request to activate one projectile. The direction does not have to be
/// normalized; a zero-length direction resolves to zero velocity.
#[derive(Clone, Copy, PartialEq, Eq, Structural, Debug)]
pub struct SpawnBullet {
    pub ty: BulletType,
    pub position: Vec2I,
    pub direction: Vec2I,
}

impl SpawnBullet {
    pub open spec fn wf(self) -> bool {
        &&& self.position.wf()
        &&& self.direction.wf()
    }
}

/// A request to deactivate the projectile in the named slot.
#[derive(Clone, Copy, PartialEq, Eq, Structural, Debug)]
pub struct DespawnBullet(pub usize);

/// Per-kind metadata established once at startup; the render shape stays with
/// the embedding, only the travel speed matters to the core.
#[derive(Clone, Copy, PartialEq, Eq, Structural, Debug)]
pub struct BulletMeta {
    pub speed: i64,
}

/// The pool that exclusively owns every projectile slot.
pub struct BulletPool {
    pub slots: Vec<Bullet>,
    pub ball: BulletMeta,
    pub warnings: u64,
}

/// The travel speed the kind table assigns to a projectile kind.
pub open spec fn spec_speed_of(meta: BulletMeta, ty: BulletType) -> int {
    match ty {
        BulletType::Ball => meta.speed as int,
    }
}

/// A slot that a spawn request for `ty` may reuse.
pub open spec fn is_free(b: Bullet, ty: BulletType) -> bool {
    &&& b.pooled
    &&& !b.active
    &&& b.ty == ty
}

/// The first reusable slot for `ty` at or after index `i`.
pub open spec fn first_free_from(slots: Seq<Bullet>, ty: BulletType, i: int) -> Option<int>
    decreases slots.len() - i,
{
    if i < 0 || i >= slots.len() {
        None
    } else if is_free(slots[i], ty) {
        Some(i)
    } else {
        first_free_from(slots, ty, i + 1)
    }
}

/// The first reusable slot for `ty`, if any.
pub open spec fn first_free(slots: Seq<Bullet>, ty: BulletType) -> Option<int> {
    first_free_from(slots, ty, 0)
}

/// A parked slot of the given kind, as created at startup.
pub open spec fn spec_parked(ty: BulletType) -> Bullet {
    Bullet {
        ty,
        pos: Vec2I { x: 0, y: 0 },
        vel: Vec2I { x: 0, y: 0 },
        active: false,
        visible: false,
        pooled: true,
    }
}

/// The slot value a spawn request produces: repositioned, given the kind's
/// speed along the request direction, visible and active.
pub open spec fn spec_spawned(req: SpawnBullet, meta: BulletMeta, pooled: bool) -> Bullet {
    Bullet {
        ty: req.ty,
        pos: req.position,
        vel: Vec2I {
            x: spec_scaled_coord(req.direction.x as int, req.direction, spec_speed_of(meta, req.ty)) as i64,
            y: spec_scaled_coord(req.direction.y as int, req.direction, spec_speed_of(meta, req.ty)) as i64,
        },
        active: true,
        visible: true,
        pooled,
    }
}

/// Pool contents after one spawn request: the first free matching slot is
/// reused, or a fresh unpooled slot is appended and the exhaustion count grows.
pub open spec fn spec_spawn(
    slots: Seq<Bullet>,
    warnings: int,
    meta: BulletMeta,
    req: SpawnBullet,
) -> (Seq<Bullet>, int) {
    match first_free(slots, req.ty) {
        Some(i) => (slots.update(i, spec_spawned(req, meta, true)), warnings),
        None => (slots.push(spec_spawned(req, meta, false)), warnings + 1),
    }
}

/// Pool contents after consuming the spawn requests from index `i` on.
pub open spec fn spec_spawn_from(
    slots: Seq<Bullet>,
    warnings: int,
    meta: BulletMeta,
    reqs: Seq<SpawnBullet>,
    i: int,
) -> (Seq<Bullet>, int)
    decreases reqs.len() - i,
{
    if i < 0 || i >= reqs.len() {
        (slots, warnings)
    } else {
        let s1 = spec_spawn(slots, warnings, meta, reqs[i]);
        spec_spawn_from(s1.0, s1.1, meta, reqs, i + 1)
    }
}

/// Pool contents after consuming a whole frame's spawn requests in order.
pub open spec fn spec_spawn_all(
    slots: Seq<Bullet>,
    warnings: int,
    meta: BulletMeta,
    reqs: Seq<SpawnBullet>,
) -> (Seq<Bullet>, int) {
    spec_spawn_from(slots, warnings, meta, reqs, 0)
}

/// Pool contents after one despawn request: a resolvable reference hides and
/// parks its slot; a stale one changes nothing.
pub open spec fn spec_despawn(slots: Seq<Bullet>, req: DespawnBullet) -> Seq<Bullet> {
    if 0 <= req.0 < slots.len() && slots[req.0 as int].active {
        slots.update(
            req.0 as int,
            (Bullet { active: false, visible: false, ..slots[req.0 as int] }),
        )
    } else {
        slots
    }
}

/// Pool contents after consuming the despawn requests from index `i` on.
pub open spec fn spec_despawn_from(slots: Seq<Bullet>, reqs: Seq<DespawnBullet>, i: int) -> Seq<Bullet>
    decreases reqs.len() - i,
{
    if i < 0 || i >= reqs.len() {
        slots
    } else {
        spec_despawn_from(spec_despawn(slots, reqs[i]), reqs, i + 1)
    }
}

/// Pool contents after consuming a whole frame's despawn requests in order.
pub open spec fn spec_despawn_all(slots: Seq<Bullet>, reqs: Seq<DespawnBullet>) -> Seq<Bullet> {
    spec_despawn_from(slots, reqs, 0)
}

/// A slot after the range check against the tracked subject: an active slot
/// strictly beyond the cull distance is deactivated and hidden.
pub open spec fn spec_culled(b: Bullet, subject: Vec2I, cull_dist: int) -> Bullet {
    if b.active && spec_dist_sq(b.pos, subject) > cull_dist * cull_dist {
        Bullet { active: false, visible: false, ..b }
    } else {
        b
    }
}

/// A slot after one motion tick of `dt` sub-seconds.
pub open spec fn spec_advanced(b: Bullet, dt: int) -> Bullet {
    Bullet {
        pos: Vec2I {
            x: spec_step_coord(b.pos.x as int, b.vel.x as int, dt) as i64,
            y: spec_step_coord(b.pos.y as int, b.vel.y as int, dt) as i64,
        },
        ..b
    }
}

/// How many slots are in play, counting from index `i`.
pub open spec fn count_active_from(slots: Seq<Bullet>, i: int) -> int
    decreases slots.len() - i,
{
    if i < 0 || i >= slots.len() {
        0
    } else {
        (if slots[i].active {
            1int
        } else {
            0int
        }) + count_active_from(slots, i + 1)
    }
}

/// How many slots are in play.
pub open spec fn count_active(slots: Seq<Bullet>) -> int {
    count_active_from(slots, 0)
}

/// Replacing one slot shifts the active count by the flags' difference.
pub proof fn lemma_count_active_update(slots: Seq<Bullet>, j: int, b: Bullet, i: int)
    requires
        0 <= j < slots.len(),
        0 <= i <= slots.len(),
    ensures
        count_active_from(slots.update(j, b), i) == count_active_from(slots, i) + if i <= j {
            (if b.active {
                1int
            } else {
                0int
            }) - (if slots[j].active {
                1int
            } else {
                0int
            })
        } else {
            0int
        },
    decreases slots.len() - i,
{
    if i < slots.len() {
        lemma_count_active_update(slots, j, b, i + 1);
    }
}

/// A found first free slot lies in range, is free, and nothing before it is.
pub proof fn lemma_first_free_found(slots: Seq<Bullet>, ty: BulletType, i: int, j: int)
    requires
        0 <= i,
        first_free_from(slots, ty, i) == Some(j),
    ensures
        i <= j < slots.len(),
        is_free(slots[j], ty),
        forall|k: int| i <= k < j ==> !is_free(slots[k], ty),
    decreases slots.len() - i,
{
    if i < slots.len() && !is_free(slots[i], ty) {
        lemma_first_free_found(slots, ty, i + 1, j);
    }
}

/// Scanning past non-free slots does not change where the first free one is.
pub proof fn lemma_first_free_at(slots: Seq<Bullet>, ty: BulletType, j: int)
    requires
        0 <= j <= slots.len(),
        forall|k: int| 0 <= k < j ==> !is_free(slots[k], ty),
    ensures
        first_free(slots, ty) == first_free_from(slots, ty, j),
    decreases j,
{
    if j > 0 {
        lemma_first_free_at(slots, ty, j - 1);
    }
}

impl BulletPool {
    /// Every slot is well-formed and the kind table holds a bounded speed.
    pub open spec fn wf(self) -> bool {
        &&& forall|i: int| 0 <= i < self.slots@.len() ==> (#[trigger] self.slots@[i]).wf()
        &&& 0 <= self.ball.speed <= SPEED_LIMIT
    }

    /// Startup: a fixed number of parked slots per supported kind, plus one
    /// metadata record per kind.
    pub fn init_bullets() -> (p: BulletPool)
        ensures
            p.wf(),
            p.slots@.len() == POOL_SIZE,
            forall|i: int| 0 <= i < POOL_SIZE ==> p.slots@[i] == spec_parked(BulletType::Ball),
            p.ball == (BulletMeta { speed: BALL_SPEED }),
            p.warnings == 0,
    {
        let mut slots: Vec<Bullet> = Vec::new();
        let mut i: usize = 0;
        while i < POOL_SIZE
            invariant
                i <= POOL_SIZE,
                slots@.len() == i,
                forall|k: int| 0 <= k < i ==> slots@[k] == spec_parked(BulletType::Ball),
            decreases POOL_SIZE - i,
        {
            slots.push(Bullet {
                ty: BulletType::Ball,
                pos: Vec2I { x: 0, y: 0 },
                vel: Vec2I { x: 0, y: 0 },
                active: false,
                visible: false,
                pooled: true,
            });
            i = i + 1;
        }
        BulletPool { slots, ball: BulletMeta { speed: BALL_SPEED }, warnings: 0 }
    }

    /// The travel speed of a projectile kind, from the kind table.
    pub fn speed_of(&self, ty: BulletType) -> (s: i64)
        ensures
            s as int == spec_speed_of(self.ball, ty),
    {
        match ty {
            BulletType::Ball => self.ball.speed,
        }
    }

    /// Consume a frame's spawn requests in order. Each request reuses the
    /// first parked slot of its kind, or — when the pool is exhausted —
    /// appends a fresh unpooled slot and counts a warning.
    pub fn spawn_bullets(&mut self, reqs: &Vec<SpawnBullet>)
        requires
            old(self).wf(),
            forall|i: int| 0 <= i < reqs@.len() ==> (#[trigger] reqs@[i]).wf(),
            old(self).warnings + reqs@.len() <= u64::MAX,
            old(self).slots@.len() + reqs@.len() <= usize::MAX,
        ensures
            final(self).wf(),
            final(self).slots@ == spec_spawn_all(
                old(self).slots@,
                old(self).warnings as int,
                old(self).ball,
                reqs@,
            ).0,
            final(self).warnings as int == spec_spawn_all(
                old(self).slots@,
                old(self).warnings as int,
                old(self).ball,
                reqs@,
            ).1,
            final(self).ball == old(self).ball,
            final(self).slots@.len() <= old(self).slots@.len() + reqs@.len(),
    {
        let ghost meta = self.ball;
        let ghost goal = spec_spawn_all(
            old(self).slots@,
            old(self).warnings as int,
            old(self).ball,
            reqs@,
        );
        let mut i: usize = 0;
        while i < reqs.len()
            invariant
                i <= reqs@.len(),
                self.wf(),
                self.ball == meta,
                forall|k: int| 0 <= k < reqs@.len() ==> (#[trigger] reqs@[k]).wf(),
                self.warnings + (reqs@.len() - i) <= u64::MAX,
                self.slots@.len() + (reqs@.len() - i) <= usize::MAX,
                self.slots@.len() <= old(self).slots@.len() + i,
                spec_spawn_from(self.slots@, self.warnings as int, meta, reqs@, i as int) == goal,
            decreases reqs@.len() - i,
        {
            let ghost prev_slots = self.slots@;
            let ghost prev_warnings = self.warnings as int;
            let req = reqs[i];
            let speed = self.speed_of(req.ty);
            let vel = scaled_dir(req.direction, speed);
            let fresh = Bullet {
                ty: req.ty,
                pos: req.position,
                vel,
                active: true,
                visible: true,
                pooled: true,
            };
            proof {
                assert(fresh == spec_spawned(req, meta, true));
            }

            let mut j: usize = 0;
            let mut found: bool = false;
            while j < self.slots.len() && !found
                invariant
                    j <= self.slots@.len(),
                    !found ==> forall|k: int| 0 <= k < j ==> !is_free(self.slots@[k], req.ty),
                    found ==> j < self.slots@.len() && is_free(self.slots@[j as int], req.ty)
                        && forall|k: int| 0 <= k < j ==> !is_free(self.slots@[k], req.ty),
                decreases self.slots@.len() - j + (if found { 0int } else { 1int }),
            {
                let b = self.slots[j];
                if b.pooled && !b.active && b.ty == req.ty {
                    found = true;
                } else {
                    j = j + 1;
                }
            }

            if found {
                proof {
                    lemma_first_free_at(self.slots@, req.ty, j as int);
                    assert(first_free(self.slots@, req.ty) == Some(j as int));
                }
                let slot: &mut Bullet = &mut self.slots[j];
                *slot = fresh;
            } else {
                proof {
                    lemma_first_free_at(self.slots@, req.ty, j as int);
                    assert(first_free(self.slots@, req.ty) == None::<int>);
                }
                self.slots.push(Bullet { pooled: false, ..fresh });
                self.warnings = self.warnings + 1;
            }
            proof {
                assert((self.slots@, self.warnings as int)
                    == spec_spawn(prev_slots, prev_warnings, meta, reqs@[i as int]));
                assert(spec_spawn_from(prev_slots, prev_warnings, meta, reqs@, i as int)
                    == spec_spawn_from(self.slots@, self.warnings as int, meta, reqs@, i as int + 1));
            }
            i = i + 1;
        }
    }

    /// Consume a frame's despawn requests in order; stale references are
    /// silently ignored.
    pub fn despawn_bullets(&mut self, reqs: &Vec<DespawnBullet>)
        requires
            old(self).wf(),
        ensures
            final(self).wf(),
            final(self).slots@ == spec_despawn_all(old(self).slots@, reqs@),
            final(self).ball == old(self).ball,
            final(self).warnings == old(self).warnings,
            final(self).slots@.len() == old(self).slots@.len(),
    {
        let ghost goal = spec_despawn_all(old(self).slots@, reqs@);
        let mut i: usize = 0;
        while i < reqs.len()
            invariant
                i <= reqs@.len(),
                self.wf(),
                self.ball == old(self).ball,
                self.warnings == old(self).warnings,
                self.slots@.len() == old(self).slots@.len(),
                spec_despawn_from(self.slots@, reqs@, i as int) == goal,
            decreases reqs@.len() - i,
        {
            let ghost prev_slots = self.slots@;
            let req = reqs[i];
            let target: usize = req.0;
            if target < self.slots.len() {
                let b = self.slots[target];
                if b.active {
                    let slot: &mut Bullet = &mut self.slots[target];
                    *slot = Bullet { active: false, visible: false, ..b };
                }
            }
            proof {
                assert(self.slots@ == spec_despawn(prev_slots, reqs@[i as int]));
                assert(spec_despawn_from(prev_slots, reqs@, i as int)
                    == spec_despawn_from(self.slots@, reqs@, i as int + 1));
            }
            i = i + 1;
        }
    }

    /// Range-based culling: every active slot strictly farther from the
    /// tracked subject than the cull distance is deactivated and hidden.
    /// A slot exactly at the boundary stays in play.
    pub fn cull_bullets(&mut self, subject: Vec2I, cull_dist: i64)
        requires
            old(self).wf(),
            subject.wf(),
            0 <= cull_dist <= COORD_LIMIT,
        ensures
            final(self).wf(),
            final(self).slots@.len() == old(self).slots@.len(),
            forall|i: int| 0 <= i < old(self).slots@.len()
                ==> final(self).slots@[i] == spec_culled(
                    old(self).slots@[i],
                    subject,
                    cull_dist as int,
                ),
            final(self).ball == old(self).ball,
            final(self).warnings == old(self).warnings,
    {
        proof {
            assert(cull_dist * cull_dist <= COORD_LIMIT * COORD_LIMIT
                && 0 <= cull_dist * cull_dist) by (nonlinear_arith)
                requires
                    0 <= cull_dist <= COORD_LIMIT,
            {
            }
            assert(COORD_LIMIT * COORD_LIMIT < i128::MAX) by (nonlinear_arith);
        }
        let threshold: i128 = (cull_dist as i128) * (cull_dist as i128);
        let mut i: usize = 0;
        while i < self.slots.len()
            invariant
                i <= self.slots@.len(),
                self.wf(),
                self.ball == old(self).ball,
                self.warnings == old(self).warnings,
                self.slots@.len() == old(self).slots@.len(),
                subject.wf(),
                0 <= cull_dist <= COORD_LIMIT,
                threshold == cull_dist * cull_dist,
                forall|k: int| 0 <= k < i
                    ==> self.slots@[k] == spec_culled(old(self).slots@[k], subject, cull_dist as int),
                forall|k: int| i <= k < self.slots@.len()
                    ==> self.slots@[k] == old(self).slots@[k],
            decreases self.slots@.len() - i,
        {
            let b = self.slots[i];
            if b.active {
                let d = dist_sq(b.pos, subject);
                if d > threshold {
                    let slot: &mut Bullet = &mut self.slots[i];
                    *slot = Bullet { active: false, visible: false, ..b };
                }
            }
            i = i + 1;
        }
    }

    /// One motion tick: every slot's position advances by its velocity.
    pub fn advance(&mut self, dt: i64)
        requires
            old(self).wf(),
            0 <= dt <= DT_LIMIT,
        ensures
            final(self).wf(),
            final(self).slots@.len() == old(self).slots@.len(),
            forall|i: int| 0 <= i < old(self).slots@.len()
                ==> final(self).slots@[i] == spec_advanced(old(self).slots@[i], dt as int),
            final(self).ball == old(self).ball,
            final(self).warnings == old(self).warnings,
    {
        let mut i: usize = 0;
        while i < self.slots.len()
            invariant
                i <= self.slots@.len(),
                self.wf(),
                self.ball == old(self).ball,
                self.warnings == old(self).warnings,
                self.slots@.len() == old(self).slots@.len(),
                0 <= dt <= DT_LIMIT,
                forall|k: int| 0 <= k < i
                    ==> self.slots@[k] == spec_advanced(old(self).slots@[k], dt as int),
                forall|k: int| i <= k < self.slots@.len()
                    ==> self.slots@[k] == old(self).slots@[k],
            decreases self.slots@.len() - i,
        {
            let b = self.slots[i];
            let p = step(b.pos, b.vel, dt);
            let slot: &mut Bullet = &mut self.slots[i];
            *slot = Bullet { pos: p, ..b };
            i = i + 1;
        }
    }
}

/// While a parked slot of the requested kind exists, a spawn request keeps
/// the pool size and the exhaustion count unchanged and moves exactly one
/// slot from inactive to active.
pub proof fn lemma_spawn_reuses_slot(
    slots: Seq<Bullet>,
    warnings: int,
    meta: BulletMeta,
    req: SpawnBullet,
    i: int,
)
    requires
        first_free(slots, req.ty) == Some(i),
    ensures
        spec_spawn(slots, warnings, meta, req).0.len() == slots.len(),
        count_active(spec_spawn(slots, warnings, meta, req).0) == count_active(slots) + 1,
        spec_spawn(slots, warnings, meta, req).1 == warnings,
{
    lemma_first_free_found(slots, req.ty, 0, i);
    lemma_count_active_update(slots, i, spec_spawned(req, meta, true), 0);
}

/// A despawn request against a reference that is out of range or already
/// inactive leaves the pool unchanged.
pub proof fn lemma_despawn_stale_is_noop(slots: Seq<Bullet>, req: DespawnBullet)
    requires
        !(req.0 < slots.len() && slots[req.0 as int].active),
    ensures
        spec_despawn(slots, req) == slots,
{
}

/// Round-trip: activating a slot, despawning it, and activating it again
/// with a second request of the same kind reuses the same slot, and the
/// final state equals the first activation's state up to the position and
/// velocity fields.
pub proof fn lemma_respawn_round_trip(
    slots: Seq<Bullet>,
    warnings: int,
    meta: BulletMeta,
    req1: SpawnBullet,
    req2: SpawnBullet,
    i: int,
)
    requires
        first_free(slots, req1.ty) == Some(i),
        req2.ty == req1.ty,
        slots.len() <= usize::MAX,
    ensures
        ({
            let s1 = spec_spawn(slots, warnings, meta, req1).0;
            let s2 = spec_despawn(s1, DespawnBullet(i as usize));
            let s3 = spec_spawn(s2, warnings, meta, req2).0;
            &&& first_free(s2, req2.ty) == Some(i)
            &&& s3[i] == spec_spawned(req2, meta, true)
            &&& s3[i].ty == s1[i].ty
            &&& s3[i].active == s1[i].active
            &&& s3[i].visible == s1[i].visible
            &&& s3[i].pooled == s1[i].pooled
        }),
{
    lemma_first_free_found(slots, req1.ty, 0, i);
    let s1 = spec_spawn(slots, warnings, meta, req1).0;
    let s2 = spec_despawn(s1, DespawnBullet(i as usize));
    assert((i as usize) as int == i);
    assert(s1[i] == spec_spawned(req1, meta, true));
    assert(s1[i].active);
    assert(s2[i] == (Bullet { active: false, visible: false, ..s1[i] }));
    assert(is_free(s2[i], req2.ty));
    assert(forall|k: int| 0 <= k < i ==> s2[k] == slots[k]);
    lemma_first_free_at(s2, req2.ty, i);
    assert(first_free_from(s2, req2.ty, i) == Some(i));
}

} // verus!
