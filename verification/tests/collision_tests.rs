use hypernova::{
    bullet_hit_enemy, BulletPool, BulletType, DespawnBullet, Enemy, Health, SpawnBullet, Vec2I,
    DAMAGE_PER_HIT, ENEMY_RADIUS, SHAKE_DURATION, SHAKE_INTENSITY,
};

fn pool_with_bullets(positions: &[Vec2I]) -> BulletPool {
    let mut pool = BulletPool::init_bullets();
    let reqs: Vec<SpawnBullet> = positions
        .iter()
        .map(|p| SpawnBullet { ty: BulletType::Ball, position: *p, direction: Vec2I { x: 0, y: 0 } })
        .collect();
    pool.spawn_bullets(&reqs);
    pool
}

fn enemy_at(pos: Vec2I, health: i64) -> Enemy {
    Enemy { pos, health: Health { current: health, max: health } }
}

#[test]
fn hit_within_radius_damages_and_despawns() {
    let pool = pool_with_bullets(&[Vec2I { x: 10_000, y: 0 }]);
    let mut enemies = vec![enemy_at(Vec2I { x: 0, y: 0 }, 3_000)];
    let (despawns, triggers) = bullet_hit_enemy(&mut enemies, &pool, 500);
    assert_eq!(enemies[0].health.current, 3_000 - DAMAGE_PER_HIT);
    assert_eq!(enemies[0].health.max, 3_000);
    assert_eq!(despawns, vec![DespawnBullet(0)]);
    assert!(triggers.is_empty());
}

#[test]
fn miss_at_radius_boundary_changes_nothing() {
    // Distance exactly the collision radius: the comparison is strict, so
    // no damage is applied and no despawn request is emitted.
    let pool = pool_with_bullets(&[Vec2I { x: ENEMY_RADIUS, y: 0 }]);
    let mut enemies = vec![enemy_at(Vec2I { x: 0, y: 0 }, 3_000)];
    let (despawns, triggers) = bullet_hit_enemy(&mut enemies, &pool, 500);
    assert_eq!(enemies[0].health.current, 3_000);
    assert!(despawns.is_empty());
    assert!(triggers.is_empty());
}

#[test]
fn miss_beyond_radius_changes_nothing() {
    let pool = pool_with_bullets(&[Vec2I { x: 100_000, y: 0 }]);
    let mut enemies = vec![enemy_at(Vec2I { x: 0, y: 0 }, 3_000)];
    let (despawns, triggers) = bullet_hit_enemy(&mut enemies, &pool, 500);
    assert_eq!(enemies[0].health.current, 3_000);
    assert!(despawns.is_empty());
    assert!(triggers.is_empty());
}

#[test]
fn inactive_bullet_never_hits() {
    // Parked slots all sit at the origin, right on top of the hostile, but
    // are excluded from collision checks.
    let pool = BulletPool::init_bullets();
    let mut enemies = vec![enemy_at(Vec2I { x: 0, y: 0 }, 3_000)];
    let (despawns, triggers) = bullet_hit_enemy(&mut enemies, &pool, 500);
    assert_eq!(enemies[0].health.current, 3_000);
    assert!(despawns.is_empty());
    assert!(triggers.is_empty());
}

#[test]
fn three_hits_kill_and_raise_one_shake() {
    // Hostile at the origin with health 3.0; three projectiles within the
    // radius in the same frame: health reaches 0.0, three despawn requests,
    // and one shake impulse since 0.0 lies at or below the epsilon.
    let pool = pool_with_bullets(&[
        Vec2I { x: 10_000, y: 0 },
        Vec2I { x: 0, y: 10_000 },
        Vec2I { x: -10_000, y: 0 },
    ]);
    let mut enemies = vec![enemy_at(Vec2I { x: 0, y: 0 }, 3_000)];
    let now: i64 = 12_345;
    let (despawns, triggers) = bullet_hit_enemy(&mut enemies, &pool, now);
    assert_eq!(enemies[0].health.current, 0);
    assert_eq!(despawns, vec![DespawnBullet(0), DespawnBullet(1), DespawnBullet(2)]);
    assert_eq!(triggers.len(), 1);
    assert_eq!(triggers[0].intensity, SHAKE_INTENSITY);
    assert_eq!(triggers[0].duration, SHAKE_DURATION);
    assert_eq!(triggers[0].start_time, now);
}

#[test]
fn crossing_mid_pass_raises_exactly_one_shake() {
    // Health 2.0 and three hits: the second hit crosses the epsilon, the
    // third keeps the hostile dead — still exactly one trigger.
    let pool = pool_with_bullets(&[
        Vec2I { x: 10_000, y: 0 },
        Vec2I { x: 0, y: 10_000 },
        Vec2I { x: -10_000, y: 0 },
    ]);
    let mut enemies = vec![enemy_at(Vec2I { x: 0, y: 0 }, 2_000)];
    let (despawns, triggers) = bullet_hit_enemy(&mut enemies, &pool, 500);
    assert_eq!(enemies[0].health.current, -1_000);
    assert_eq!(despawns.len(), 3);
    assert_eq!(triggers.len(), 1);
}

#[test]
fn already_dead_hostile_raises_no_shake() {
    let pool = pool_with_bullets(&[Vec2I { x: 10_000, y: 0 }]);
    let mut enemies = vec![enemy_at(Vec2I { x: 0, y: 0 }, 5)];
    let (despawns, triggers) = bullet_hit_enemy(&mut enemies, &pool, 500);
    assert_eq!(enemies[0].health.current, 5 - DAMAGE_PER_HIT);
    assert_eq!(despawns.len(), 1);
    assert!(triggers.is_empty());
}

#[test]
fn one_bullet_can_hit_two_hostiles() {
    // No first-hit exclusivity: a projectile within the radius of two
    // hostiles damages both and is referenced by two despawn requests.
    let pool = pool_with_bullets(&[Vec2I { x: 0, y: 0 }]);
    let mut enemies = vec![
        enemy_at(Vec2I { x: 20_000, y: 0 }, 3_000),
        enemy_at(Vec2I { x: -20_000, y: 0 }, 3_000),
    ];
    let (despawns, triggers) = bullet_hit_enemy(&mut enemies, &pool, 500);
    assert_eq!(enemies[0].health.current, 2_000);
    assert_eq!(enemies[1].health.current, 2_000);
    assert_eq!(despawns, vec![DespawnBullet(0), DespawnBullet(0)]);
    assert!(triggers.is_empty());
}

#[test]
fn two_kills_raise_two_shakes() {
    let pool = pool_with_bullets(&[Vec2I { x: 0, y: 0 }]);
    let mut enemies = vec![
        enemy_at(Vec2I { x: 20_000, y: 0 }, 1_000),
        enemy_at(Vec2I { x: -20_000, y: 0 }, 1_000),
    ];
    let (_, triggers) = bullet_hit_enemy(&mut enemies, &pool, 42);
    assert_eq!(triggers.len(), 2);
    assert!(triggers.iter().all(|t| t.intensity == SHAKE_INTENSITY
        && t.duration == SHAKE_DURATION
        && t.start_time == 42));
}
