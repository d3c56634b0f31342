//! Collision resolution: every hostile is tested against every in-play
//! projectile; an overlap damages the hostile and schedules the projectile
//! for despawn, and a hostile whose health crosses the death epsilon raises
//! exactly one camera-shake trigger.

use vstd::prelude::*;
use crate::bullet::{Bullet, BulletPool, DespawnBullet};
use crate::enemy::{Enemy, ENEMY_RADIUS};
use crate::geom::{Vec2I, spec_dist_sq, dist_sq};
use crate::health::{Health, spec_dead};
use crate::{DAMAGE_PER_HIT, DEATH_EPSILON, SHAKE_DURATION, SHAKE_INTENSITY};

verus! {

/// A request for one shake impulse, handed to the camera controller.
#[derive(Clone, Copy, PartialEq, Eq, Structural, Debug)]
pub struct ShakeTrigger {
    pub intensity: i64,
    pub duration: i64,
    pub start_time: i64,
}

/// Whether an in-play projectile overlaps a hostile centered at `epos`:
/// strictly closer than the hostile collision radius.
pub open spec fn spec_hit(b: Bullet, epos: Vec2I) -> bool {
    &&& b.active
    &&& spec_dist_sq(b.pos, epos) < ENEMY_RADIUS * ENEMY_RADIUS
}

/// Health after one hit: the fixed per-hit damage, saturating at the
/// representable floor (far below the death epsilon).
pub open spec fn spec_damaged(c: int) -> int {
    if c - DAMAGE_PER_HIT >= i64::MIN {
        c - DAMAGE_PER_HIT
    } else {
        i64::MIN as int
    }
}

/// A hostile's health once the projectiles from slot `i` on have been tested.
pub open spec fn spec_health_from(bullets: Seq<Bullet>, epos: Vec2I, c: int, i: int) -> int
    decreases bullets.len() - i,
{
    if i < 0 || i >= bullets.len() {
        c
    } else {
        let c1 = if spec_hit(bullets[i], epos) {
            spec_damaged(c)
        } else {
            c
        };
        spec_health_from(bullets, epos, c1, i + 1)
    }
}

/// A hostile's health after a whole resolution pass.
pub open spec fn spec_health_after(bullets: Seq<Bullet>, epos: Vec2I, c: int) -> int {
    spec_health_from(bullets, epos, c, 0)
}

/// Despawn requests one hostile emits: one per overlapping projectile, in
/// slot order, from slot `i` on.
pub open spec fn spec_hits_from(bullets: Seq<Bullet>, epos: Vec2I, i: int) -> Seq<DespawnBullet>
    decreases bullets.len() - i,
{
    if i < 0 || i >= bullets.len() {
        Seq::empty()
    } else if spec_hit(bullets[i], epos) {
        seq![DespawnBullet(i as usize)] + spec_hits_from(bullets, epos, i + 1)
    } else {
        spec_hits_from(bullets, epos, i + 1)
    }
}

/// Whether a resolution pass kills the hostile: its health crosses from
/// above the death epsilon to at or below it.
pub open spec fn spec_crosses(bullets: Seq<Bullet>, epos: Vec2I, c: int) -> bool {
    &&& !spec_dead(c)
    &&& spec_dead(spec_health_after(bullets, epos, c))
}

/// A hostile after the pass: same position and maximum, damaged current.
pub open spec fn spec_struck(e: Enemy, bullets: Seq<Bullet>) -> Enemy {
    Enemy {
        health: Health {
            current: spec_health_after(bullets, e.pos, e.health.current as int) as i64,
            ..e.health
        },
        ..e
    }
}

/// All despawn requests of a pass, hostiles in order from index `j` on.
pub open spec fn spec_despawns_from(enemies: Seq<Enemy>, bullets: Seq<Bullet>, j: int) -> Seq<DespawnBullet>
    decreases enemies.len() - j,
{
    if j < 0 || j >= enemies.len() {
        Seq::empty()
    } else {
        spec_hits_from(bullets, enemies[j].pos, 0) + spec_despawns_from(enemies, bullets, j + 1)
    }
}

/// The shake impulse requested for a hostile killed at clock `now`.
pub open spec fn spec_death_trigger(now: i64) -> ShakeTrigger {
    ShakeTrigger { intensity: SHAKE_INTENSITY, duration: SHAKE_DURATION, start_time: now }
}

/// Shake triggers of a pass: exactly one per hostile killed in it, in
/// hostile order from index `j` on.
pub open spec fn spec_triggers_from(enemies: Seq<Enemy>, bullets: Seq<Bullet>, now: i64, j: int) -> Seq<ShakeTrigger>
    decreases enemies.len() - j,
{
    if j < 0 || j >= enemies.len() {
        Seq::empty()
    } else {
        let rest = spec_triggers_from(enemies, bullets, now, j + 1);
        if spec_crosses(bullets, enemies[j].pos, enemies[j].health.current as int) {
            seq![spec_death_trigger(now)] + rest
        } else {
            rest
        }
    }
}

/// How many projectiles from slot `i` on overlap the hostile at `epos`.
pub open spec fn spec_hit_count_from(bullets: Seq<Bullet>, epos: Vec2I, i: int) -> int
    decreases bullets.len() - i,
{
    if i < 0 || i >= bullets.len() {
        0
    } else {
        (if spec_hit(bullets[i], epos) {
            1int
        } else {
            0int
        }) + spec_hit_count_from(bullets, epos, i + 1)
    }
}

/// How many projectiles overlap the hostile at `epos`.
pub open spec fn spec_hit_count(bullets: Seq<Bullet>, epos: Vec2I) -> int {
    spec_hit_count_from(bullets, epos, 0)
}

/// The hit count is never negative.
pub proof fn lemma_hit_count_nonneg(bullets: Seq<Bullet>, epos: Vec2I, i: int)
    ensures
        0 <= spec_hit_count_from(bullets, epos, i),
    decreases bullets.len() - i,
{
    if 0 <= i && i < bullets.len() {
        lemma_hit_count_nonneg(bullets, epos, i + 1);
    }
}

/// A resolution pass damages a hostile by exactly the fixed per-hit amount
/// for each overlapping projectile, as long as the total stays representable.
pub proof fn lemma_damage_total(bullets: Seq<Bullet>, epos: Vec2I, c: int, i: int)
    requires
        0 <= i,
        c <= i64::MAX,
        i64::MIN <= c - DAMAGE_PER_HIT * spec_hit_count_from(bullets, epos, i),
    ensures
        spec_health_from(bullets, epos, c, i)
            == c - DAMAGE_PER_HIT * spec_hit_count_from(bullets, epos, i),
    decreases bullets.len() - i,
{
    if i >= bullets.len() {
    } else {
        lemma_hit_count_nonneg(bullets, epos, i + 1);
        if spec_hit(bullets[i], epos) {
            lemma_damage_total(bullets, epos, c - DAMAGE_PER_HIT, i + 1);
        } else {
            lemma_damage_total(bullets, epos, c, i + 1);
        }
    }
}

/// A hostile's despawn emissions contain a given projectile exactly when
/// that projectile overlaps it.
pub proof fn lemma_hits_membership(bullets: Seq<Bullet>, epos: Vec2I, u: usize, i: int)
    requires
        0 <= i,
        bullets.len() <= usize::MAX,
    ensures
        spec_hits_from(bullets, epos, i).contains(DespawnBullet(u)) <==> (i <= u
            < bullets.len() && spec_hit(bullets[u as int], epos)),
    decreases bullets.len() - i,
{
    if i >= bullets.len() {
    } else {
        lemma_hits_membership(bullets, epos, u, i + 1);
        let rest = spec_hits_from(bullets, epos, i + 1);
        if spec_hit(bullets[i], epos) {
            let whole = seq![DespawnBullet(i as usize)] + rest;
            assert(whole[0] == DespawnBullet(i as usize));
            assert(forall|k: int| 1 <= k < whole.len() ==> whole[k] == rest[k - 1]);
            if i <= u < bullets.len() && spec_hit(bullets[u as int], epos) {
                if u == i {
                    assert(whole.contains(DespawnBullet(u)));
                } else {
                    let k = choose|k: int| 0 <= k < rest.len() && rest[k] == DespawnBullet(u);
                    assert(whole[k + 1] == DespawnBullet(u));
                    assert(whole.contains(DespawnBullet(u)));
                }
            }
            if whole.contains(DespawnBullet(u)) {
                let k = choose|k: int| 0 <= k < whole.len() && whole[k] == DespawnBullet(u);
                if k == 0 {
                    assert(u == i as usize);
                } else {
                    assert(rest[k - 1] == DespawnBullet(u));
                    assert(rest.contains(DespawnBullet(u)));
                }
            }
        }
    }
}

/// For a hostile/projectile pair at or beyond the collision radius, the pass
/// emits no despawn request for that projectile on the hostile's behalf, and
/// the projectile contributes nothing to the hostile's damage.
pub proof fn lemma_miss_pair(bullets: Seq<Bullet>, epos: Vec2I, u: usize)
    requires
        u < bullets.len(),
        bullets.len() <= usize::MAX,
        spec_dist_sq(bullets[u as int].pos, epos) >= ENEMY_RADIUS * ENEMY_RADIUS,
    ensures
        !spec_hit(bullets[u as int], epos),
        !spec_hits_from(bullets, epos, 0).contains(DespawnBullet(u)),
{
    lemma_hits_membership(bullets, epos, u, 0);
}

/// For a hostile/projectile pair strictly within the collision radius, the
/// pass emits a despawn request referencing that projectile, and the pair
/// counts exactly one per-hit decrement toward the hostile's damage.
pub proof fn lemma_hit_pair(bullets: Seq<Bullet>, epos: Vec2I, u: usize)
    requires
        u < bullets.len(),
        bullets.len() <= usize::MAX,
        bullets[u as int].active,
        spec_dist_sq(bullets[u as int].pos, epos) < ENEMY_RADIUS * ENEMY_RADIUS,
    ensures
        spec_hit(bullets[u as int], epos),
        spec_hits_from(bullets, epos, 0).contains(DespawnBullet(u)),
        spec_hit_count(bullets, epos) >= 1,
{
    lemma_hits_membership(bullets, epos, u, 0);
    lemma_hit_count_split(bullets, epos, 0, u as int);
    lemma_hit_count_nonneg(bullets, epos, u as int + 1);
}

/// For a hostile/projectile pair strictly within the collision radius, a
/// pass over a hostile with health `c` emits a despawn request referencing
/// that projectile, and the hostile's health drops by exactly the per-hit
/// amount for that pair: the total decrement is the per-hit damage times the
/// number of overlapping projectiles, each pair counted once, as long as the
/// total stays representable.
pub proof fn lemma_hit_pair_exact_damage(bullets: Seq<Bullet>, epos: Vec2I, u: usize, c: int)
    requires
        u < bullets.len(),
        bullets.len() <= usize::MAX,
        bullets[u as int].active,
        spec_dist_sq(bullets[u as int].pos, epos) < ENEMY_RADIUS * ENEMY_RADIUS,
        c <= i64::MAX,
        i64::MIN <= c - DAMAGE_PER_HIT * spec_hit_count(bullets, epos),
    ensures
        spec_hits_from(bullets, epos, 0).contains(DespawnBullet(u)),
        spec_hit_count(bullets, epos) >= 1,
        spec_health_after(bullets, epos, c) == c - DAMAGE_PER_HIT * spec_hit_count(bullets, epos),
{
    lemma_hit_pair(bullets, epos, u);
    lemma_damage_total(bullets, epos, c, 0);
}

/// The hit count from `i` includes every hit at or after `i`.
pub proof fn lemma_hit_count_split(bullets: Seq<Bullet>, epos: Vec2I, i: int, u: int)
    requires
        0 <= i <= u < bullets.len(),
        spec_hit(bullets[u], epos),
    ensures
        spec_hit_count_from(bullets, epos, i) >= 1 + spec_hit_count_from(bullets, epos, u + 1),
    decreases u - i,
{
    if i < u {
        lemma_hit_count_split(bullets, epos, i + 1, u);
        lemma_hit_count_nonneg(bullets, epos, i + 1);
    }
}

/// A whole pass emits a despawn request for a projectile exactly when that
/// projectile overlaps at least one hostile.
pub proof fn lemma_pass_despawns(enemies: Seq<Enemy>, bullets: Seq<Bullet>, u: usize, j: int)
    requires
        0 <= j,
        bullets.len() <= usize::MAX,
    ensures
        spec_despawns_from(enemies, bullets, j).contains(DespawnBullet(u)) <==> exists|k: int|
            j <= k < enemies.len() && u < bullets.len() && spec_hit(
                bullets[u as int],
                (#[trigger] enemies[k]).pos,
            ),
    decreases enemies.len() - j,
{
    if j >= enemies.len() {
    } else {
        lemma_pass_despawns(enemies, bullets, u, j + 1);
        lemma_hits_membership(bullets, enemies[j].pos, u, 0);
        let v = DespawnBullet(u);
        let head = spec_hits_from(bullets, enemies[j].pos, 0);
        let rest = spec_despawns_from(enemies, bullets, j + 1);
        let whole = head + rest;
        if whole.contains(v) {
            let idx = choose|idx: int| 0 <= idx < whole.len() && whole[idx] == v;
            if idx < head.len() {
                assert(head[idx] == v);
                assert(head.contains(v));
            } else {
                assert(rest[idx - head.len()] == v);
                assert(rest.contains(v));
            }
        }
        if head.contains(v) {
            let idx = choose|idx: int| 0 <= idx < head.len() && head[idx] == v;
            assert(whole[idx] == v);
            assert(whole.contains(v));
        }
        if rest.contains(v) {
            let idx = choose|idx: int| 0 <= idx < rest.len() && rest[idx] == v;
            assert(whole[head.len() + idx] == v);
            assert(whole.contains(v));
        }
    }
}

/// How many hostiles from index `j` on are killed by the pass.
pub open spec fn spec_cross_count_from(enemies: Seq<Enemy>, bullets: Seq<Bullet>, j: int) -> int
    decreases enemies.len() - j,
{
    if j < 0 || j >= enemies.len() {
        0
    } else {
        (if spec_crosses(bullets, enemies[j].pos, enemies[j].health.current as int) {
            1int
        } else {
            0int
        }) + spec_cross_count_from(enemies, bullets, j + 1)
    }
}

/// A pass raises exactly one shake trigger per hostile whose health crosses
/// the death epsilon in it, and every trigger carries the death intensity
/// and duration and the pass clock.
pub proof fn lemma_death_signal(enemies: Seq<Enemy>, bullets: Seq<Bullet>, now: i64, j: int)
    requires
        0 <= j,
    ensures
        spec_triggers_from(enemies, bullets, now, j).len()
            == spec_cross_count_from(enemies, bullets, j),
        forall|k: int| 0 <= k < spec_triggers_from(enemies, bullets, now, j).len()
            ==> spec_triggers_from(enemies, bullets, now, j)[k] == spec_death_trigger(now),
    decreases enemies.len() - j,
{
    if j >= enemies.len() {
    } else {
        lemma_death_signal(enemies, bullets, now, j + 1);
        let rest = spec_triggers_from(enemies, bullets, now, j + 1);
        if spec_crosses(bullets, enemies[j].pos, enemies[j].health.current as int) {
            let whole = seq![spec_death_trigger(now)] + rest;
            assert(whole[0] == spec_death_trigger(now));
            assert(forall|k: int| 1 <= k < whole.len() ==> whole[k] == rest[k - 1]);
        }
    }
}

/// Health never increases during a pass, and stays representable.
pub proof fn lemma_health_from_range(bullets: Seq<Bullet>, epos: Vec2I, c: int, i: int)
    requires
        i64::MIN <= c <= i64::MAX,
    ensures
        i64::MIN <= spec_health_from(bullets, epos, c, i) <= c,
    decreases bullets.len() - i,
{
    if i < 0 || i >= bullets.len() {
    } else {
        let c1 = if spec_hit(bullets[i], epos) {
            spec_damaged(c)
        } else {
            c
        };
        lemma_health_from_range(bullets, epos, c1, i + 1);
    }
}

/// One resolution pass. Every hostile is tested against every in-play
/// projectile of the pool: each overlap damages the hostile by the fixed
/// per-hit amount and emits a despawn request for that projectile (the pool
/// itself is not touched here; the requests are applied later in the frame),
/// and each hostile whose health crosses the death epsilon within the pass
/// raises exactly one shake trigger stamped with the current clock.
pub fn bullet_hit_enemy(enemies: &mut Vec<Enemy>, pool: &BulletPool, now: i64) -> (out: (
    Vec<DespawnBullet>,
    Vec<ShakeTrigger>,
))
    requires
        pool.wf(),
        forall|j: int| 0 <= j < old(enemies)@.len() ==> (#[trigger] old(enemies)@[j]).pos.wf(),
    ensures
        final(enemies)@.len() == old(enemies)@.len(),
        forall|j: int| 0 <= j < old(enemies)@.len()
            ==> final(enemies)@[j] == spec_struck(old(enemies)@[j], pool.slots@),
        out.0@ == spec_despawns_from(old(enemies)@, pool.slots@, 0),
        out.1@ == spec_triggers_from(old(enemies)@, pool.slots@, now, 0),
{
    let ghost bullets = pool.slots@;
    let ghost en0 = old(enemies)@;
    let mut despawns: Vec<DespawnBullet> = Vec::new();
    let mut triggers: Vec<ShakeTrigger> = Vec::new();
    proof {
        assert((ENEMY_RADIUS as i128) * (ENEMY_RADIUS as i128) == ENEMY_RADIUS * ENEMY_RADIUS)
            by (nonlinear_arith);
    }
    let radius_sq: i128 = (ENEMY_RADIUS as i128) * (ENEMY_RADIUS as i128);

    let mut j: usize = 0;
    while j < enemies.len()
        invariant
            j <= en0.len(),
            pool.wf(),
            pool.slots@ == bullets,
            enemies@.len() == en0.len(),
            forall|k: int| 0 <= k < en0.len() ==> (#[trigger] en0[k]).pos.wf(),
            forall|k: int| 0 <= k < j ==> enemies@[k] == spec_struck(en0[k], bullets),
            forall|k: int| j <= k < en0.len() ==> enemies@[k] == en0[k],
            despawns@ + spec_despawns_from(en0, bullets, j as int)
                =~= spec_despawns_from(en0, bullets, 0),
            triggers@ + spec_triggers_from(en0, bullets, now, j as int)
                =~= spec_triggers_from(en0, bullets, now, 0),
            radius_sq == ENEMY_RADIUS * ENEMY_RADIUS,
        decreases en0.len() - j,
    {
        let e = enemies[j];
        let epos = e.pos;
        let c0: i64 = e.health.current;
        let ghost desp_in = despawns@;
        let ghost trig_in = triggers@;
        let mut c: i64 = c0;
        let mut i: usize = 0;
        while i < pool.slots.len()
            invariant
                i <= bullets.len(),
                pool.wf(),
                pool.slots@ == bullets,
                epos.wf(),
                radius_sq == ENEMY_RADIUS * ENEMY_RADIUS,
                spec_health_from(bullets, epos, c as int, i as int)
                    == spec_health_after(bullets, epos, c0 as int),
                desp_in + spec_hits_from(bullets, epos, 0)
                    =~= despawns@ + spec_hits_from(bullets, epos, i as int),
                triggers@ =~= trig_in + (if !spec_dead(c0 as int) && spec_dead(c as int) {
                    seq![spec_death_trigger(now)]
                } else {
                    Seq::<ShakeTrigger>::empty()
                }),
                c <= c0,
            decreases bullets.len() - i,
        {
            let b = pool.slots[i];
            if b.active {
                let d = dist_sq(b.pos, epos);
                if d < radius_sq {
                    despawns.push(DespawnBullet(i));
                    let prev: i64 = c;
                    c = if c >= i64::MIN + DAMAGE_PER_HIT {
                        c - DAMAGE_PER_HIT
                    } else {
                        i64::MIN
                    };
                    if prev > DEATH_EPSILON && c <= DEATH_EPSILON {
                        triggers.push(ShakeTrigger {
                            intensity: SHAKE_INTENSITY,
                            duration: SHAKE_DURATION,
                            start_time: now,
                        });
                    }
                    proof {
                        assert(spec_hit(bullets[i as int], epos));
                        assert(c as int == spec_damaged(prev as int));
                        assert(desp_in + spec_hits_from(bullets, epos, i as int)
                            =~= (desp_in + seq![DespawnBullet(i as usize)])
                                + spec_hits_from(bullets, epos, i as int + 1));
                    }
                } else {
                    proof {
                        assert(!spec_hit(bullets[i as int], epos));
                    }
                }
            } else {
                proof {
                    assert(!spec_hit(bullets[i as int], epos));
                }
            }
            i = i + 1;
        }
        proof {
            assert(spec_health_after(bullets, epos, c0 as int) == c as int);
            assert(despawns@ =~= desp_in + spec_hits_from(bullets, epos, 0));
            assert(spec_crosses(bullets, epos, c0 as int)
                == (!spec_dead(c0 as int) && spec_dead(c as int)));
        }
        let slot: &mut Enemy = &mut enemies[j];
        *slot = Enemy { health: Health { current: c, ..e.health }, ..e };
        proof {
            assert(enemies@[j as int] == spec_struck(en0[j as int], bullets));
            assert(despawns@ + spec_despawns_from(en0, bullets, j as int + 1)
                =~= spec_despawns_from(en0, bullets, 0)) by {
                assert(spec_despawns_from(en0, bullets, j as int)
                    =~= spec_hits_from(bullets, epos, 0)
                        + spec_despawns_from(en0, bullets, j as int + 1));
                assert((desp_in + spec_hits_from(bullets, epos, 0))
                    + spec_despawns_from(en0, bullets, j as int + 1)
                    =~= desp_in + (spec_hits_from(bullets, epos, 0)
                        + spec_despawns_from(en0, bullets, j as int + 1)));
            }
            assert(triggers@ + spec_triggers_from(en0, bullets, now, j as int + 1)
                =~= spec_triggers_from(en0, bullets, now, 0)) by {
                let rest = spec_triggers_from(en0, bullets, now, j as int + 1);
                if spec_crosses(bullets, epos, c0 as int) {
                    assert(spec_triggers_from(en0, bullets, now, j as int)
                        =~= seq![spec_death_trigger(now)] + rest);
                    assert((trig_in + seq![spec_death_trigger(now)]) + rest
                        =~= trig_in + (seq![spec_death_trigger(now)] + rest));
                } else {
                    assert(spec_triggers_from(en0, bullets, now, j as int) =~= rest);
                }
            }
        }
        j = j + 1;
    }
    (despawns, triggers)
}

} // verus!
