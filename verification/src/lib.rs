//! Runtime core of a 2D arena shooter: a reusable projectile pool with
//! event-driven lifecycle, collision resolution between projectiles and
//! hostiles, and a camera controller that follows a tracked subject and
//! layers time-bounded shake impulses on top of the follow position.
//!
//! All world quantities (positions, velocities, health, time) are held in
//! fixed-point integers with [`SCALE`] sub-units per world unit, so every
//! update rule is stated and proved exactly.

use vstd::prelude::*;

mod bullet;
mod camera;
mod collision;
mod enemy;
mod entropy;
mod geom;
mod health;

pub use bullet::{
    Bullet, BulletMeta, BulletPool, BulletType, DespawnBullet, SpawnBullet, spec_speed_of,
    is_free, first_free_from, first_free, spec_parked, spec_spawned, spec_spawn,
    spec_spawn_from, spec_spawn_all, spec_despawn, spec_despawn_from, spec_despawn_all,
    spec_culled, spec_advanced, lemma_first_free_at, count_active_from, count_active,
    lemma_count_active_update, lemma_first_free_found, lemma_spawn_reuses_slot,
    lemma_despawn_stale_is_noop, lemma_respawn_round_trip,
};
pub use camera::{
    PlayerCamera, ScreenShake, spec_live, spec_remaining, spec_intensity_now, spec_contribution,
    spec_keep, spec_retained_from, spec_retained, spec_final_offset, spec_smooth_factor,
    spec_follow_coord, spec_follow_distance, spec_followed, lemma_not_kept_not_retained,
    lemma_expired_shake,
};
pub use collision::{
    ShakeTrigger, spec_hit, spec_damaged, spec_health_from, spec_health_after, spec_hits_from,
    spec_crosses, spec_struck, spec_despawns_from, spec_death_trigger, spec_triggers_from,
    lemma_health_from_range, bullet_hit_enemy, spec_hit_count_from, spec_hit_count,
    lemma_hit_count_nonneg, lemma_damage_total, lemma_hits_membership, lemma_miss_pair,
    lemma_hit_pair, lemma_hit_pair_exact_damage, lemma_hit_count_split, lemma_pass_despawns,
    spec_cross_count_from, lemma_death_signal,
};
pub use enemy::{Enemy, ENEMY_RADIUS, spawn_enemy};
pub use geom::{
    Vec2I, spec_abs, spec_dist_sq, spec_mul_div, spec_clamp, spec_len, spec_scaled_coord,
    spec_step_coord, sqrt_floor, lemma_sqrt_floor, lemma_sqrt_floor_unique, lemma_mul_div_le,
    lemma_sqrt_le, lemma_len_window, dist_sq, isqrt, mul_div, scaled_dir, step,
};
pub use health::{Health, spec_dead, is_dead};

verus! {

/// Fixed-point scale: sub-units per world unit (and per second, for time).
pub const SCALE: i64 = 1000;

/// Bound on the magnitude of any stored coordinate, in sub-units.
pub const COORD_LIMIT: i64 = 1_000_000_000_000;

/// Bound on the magnitude of any velocity component, in sub-units per second.
pub const VEL_LIMIT: i64 = 1_000_000_000;

/// Bound on a projectile kind's travel speed, in sub-units per second.
pub const SPEED_LIMIT: i64 = 1_000_000_000;

/// Bound on the simulation clock, in sub-seconds.
pub const TIME_LIMIT: i64 = 1_000_000_000_000;

/// Largest logical tick accepted by the motion and camera updates: one second.
pub const DT_LIMIT: i64 = 1000;

/// Inactive slots pre-allocated per projectile kind at startup.
pub const POOL_SIZE: usize = 10;

/// Travel speed of the "ball" projectile kind, in sub-units per second.
pub const BALL_SPEED: i64 = 1_000_000;

/// Health a hostile starts with.
pub const ENEMY_MAX_HEALTH: i64 = 3_000;

/// Health removed from a hostile by one projectile hit.
pub const DAMAGE_PER_HIT: i64 = 1_000;

/// Health at or below this value counts as death.
pub const DEATH_EPSILON: i64 = 10;

/// Half-width of the hostile spawn rectangle, in sub-units.
pub const ENEMY_SPAWN_HALF_WIDTH: i64 = 480_000;

/// Half-height of the hostile spawn rectangle, in sub-units.
pub const ENEMY_SPAWN_HALF_HEIGHT: i64 = 270_000;

/// Peak offset magnitude of the shake impulse raised on a hostile's death.
pub const SHAKE_INTENSITY: i64 = 10_000;

/// Duration of the shake impulse raised on a hostile's death: 0.2 seconds.
pub const SHAKE_DURATION: i64 = 200;

/// Distance under which the camera snaps straight onto its target.
pub const SNAP_DISTANCE: i64 = 10_000;

/// Distance over which the camera's smoothing factor ramps up.
pub const FOLLOW_MAX_DISTANCE: i64 = 100_000;

/// Smoothing factor used at and beyond the ramp distance, in [`SCALE`] units.
pub const MAX_SMOOTH_FACTOR: i64 = 1_000;

/// Smoothing factor used right at the target, in [`SCALE`] units.
pub const MIN_SMOOTH_FACTOR: i64 = 1_000;

/// Reserved target-leading factor, in [`SCALE`] units.
pub const LEAD_FACTOR: i64 = 1_000;

/// Radius of the circle on which shake noise is sampled, in sub-units.
pub const SHAKE_CIRCLE_RADIUS: i64 = 5_000;

/// A coherent-noise sample spans `[-NOISE_UNIT, NOISE_UNIT]`.
pub const NOISE_UNIT: i64 = 1_000;

/// Each shake impulse's two noise offsets are drawn from this half-open range.
pub const SHAKE_OFFSET_RANGE: i64 = 1_000_000;

/// Bound on a shake impulse's intensity.
pub const INTENSITY_LIMIT: i64 = 1_000_000_000;

} // verus!
