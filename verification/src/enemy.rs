//! Hostiles as the core reads them: a position and a health pool.

use vstd::prelude::*;
use crate::entropy::random_in;
use crate::geom::Vec2I;
use crate::health::Health;
use crate::{ENEMY_MAX_HEALTH, ENEMY_SPAWN_HALF_HEIGHT, ENEMY_SPAWN_HALF_WIDTH};

verus! {

/// The attributes of a hostile that the core depends on.
#[derive(Clone, Copy, PartialEq, Eq, Structural, Debug)]
pub struct Enemy {
    pub pos: Vec2I,
    pub health: Health,
}

/// The collision radius around a hostile's center, in sub-units.
pub const ENEMY_RADIUS: i64 = 40_000;

/// A fresh hostile at full health, placed uniformly at random inside the
/// spawn rectangle.
pub fn spawn_enemy() -> (e: Enemy)
    ensures
        -ENEMY_SPAWN_HALF_WIDTH <= e.pos.x < ENEMY_SPAWN_HALF_WIDTH,
        -ENEMY_SPAWN_HALF_HEIGHT <= e.pos.y < ENEMY_SPAWN_HALF_HEIGHT,
        e.pos.wf(),
        e.health == (Health { current: ENEMY_MAX_HEALTH, max: ENEMY_MAX_HEALTH }),
{
    let x: i64 = random_in(-ENEMY_SPAWN_HALF_WIDTH, ENEMY_SPAWN_HALF_WIDTH);
    let y: i64 = random_in(-ENEMY_SPAWN_HALF_HEIGHT, ENEMY_SPAWN_HALF_HEIGHT);
    Enemy { pos: Vec2I { x, y }, health: Health::from_max(ENEMY_MAX_HEALTH) }
}

} // verus!
