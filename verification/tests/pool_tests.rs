use hypernova::{
    Bullet, BulletPool, BulletType, DespawnBullet, SpawnBullet, Vec2I, BALL_SPEED, POOL_SIZE,
};

fn ball_request(position: Vec2I, direction: Vec2I) -> SpawnBullet {
    SpawnBullet { ty: BulletType::Ball, position, direction }
}

#[test]
fn init_creates_parked_slots() {
    let pool = BulletPool::init_bullets();
    assert_eq!(pool.slots.len(), POOL_SIZE);
    assert_eq!(pool.warnings, 0);
    assert_eq!(pool.ball.speed, BALL_SPEED);
    for b in &pool.slots {
        assert!(!b.active);
        assert!(!b.visible);
        assert!(b.pooled);
        assert_eq!(b.ty, BulletType::Ball);
    }
}

#[test]
fn spawn_zero_direction_gives_zero_velocity() {
    let mut pool = BulletPool::init_bullets();
    let reqs = vec![ball_request(Vec2I { x: 500, y: 600 }, Vec2I { x: 0, y: 0 })];
    pool.spawn_bullets(&reqs);
    assert!(pool.slots[0].active);
    assert_eq!(pool.slots[0].vel, Vec2I { x: 0, y: 0 });
    assert_eq!(pool.slots[0].pos, Vec2I { x: 500, y: 600 });
}

#[test]
fn spawn_reuses_free_slot_and_keeps_pool_size() {
    let mut pool = BulletPool::init_bullets();
    let reqs = vec![ball_request(Vec2I { x: 1000, y: 2000 }, Vec2I { x: 0, y: 5 })];
    pool.spawn_bullets(&reqs);
    assert_eq!(pool.slots.len(), POOL_SIZE);
    assert_eq!(pool.warnings, 0);
    let active: usize = pool.slots.iter().filter(|b| b.active).count();
    assert_eq!(active, 1);
    assert!(pool.slots[0].active);
    assert!(pool.slots[0].visible);
    assert!(pool.slots[0].pooled);
    assert_eq!(pool.slots[0].vel, Vec2I { x: 0, y: BALL_SPEED });
}

#[test]
fn despawn_hides_and_parks_the_slot() {
    let mut pool = BulletPool::init_bullets();
    pool.spawn_bullets(&vec![ball_request(Vec2I { x: 0, y: 0 }, Vec2I { x: 1, y: 0 })]);
    pool.despawn_bullets(&vec![DespawnBullet(0)]);
    assert!(!pool.slots[0].active);
    assert!(!pool.slots[0].visible);
    assert!(pool.slots[0].pooled);
    assert_eq!(pool.slots.len(), POOL_SIZE);
}

#[test]
fn despawn_stale_reference_is_ignored() {
    let mut pool = BulletPool::init_bullets();
    let before: Vec<Bullet> = pool.slots.clone();
    // Slot 3 is inactive; 99 is out of range. Neither request changes anything.
    pool.despawn_bullets(&vec![DespawnBullet(3), DespawnBullet(99)]);
    assert_eq!(pool.slots, before);
    assert_eq!(pool.warnings, 0);
}

#[test]
fn despawn_twice_is_idempotent() {
    let mut pool = BulletPool::init_bullets();
    pool.spawn_bullets(&vec![ball_request(Vec2I { x: 7, y: 8 }, Vec2I { x: 1, y: 0 })]);
    pool.despawn_bullets(&vec![DespawnBullet(0)]);
    let once: Vec<Bullet> = pool.slots.clone();
    pool.despawn_bullets(&vec![DespawnBullet(0)]);
    assert_eq!(pool.slots, once);
}

#[test]
fn respawn_round_trip_restores_activation_state() {
    let mut pool = BulletPool::init_bullets();
    pool.spawn_bullets(&vec![ball_request(Vec2I { x: 10, y: 20 }, Vec2I { x: 0, y: 3 })]);
    let first = pool.slots[0];
    pool.despawn_bullets(&vec![DespawnBullet(0)]);
    pool.spawn_bullets(&vec![ball_request(Vec2I { x: 30, y: 40 }, Vec2I { x: 2, y: 0 })]);
    let second = pool.slots[0];
    // Same slot reused; equal up to the position and velocity fields.
    assert_eq!(second.ty, first.ty);
    assert_eq!(second.active, first.active);
    assert_eq!(second.visible, first.visible);
    assert_eq!(second.pooled, first.pooled);
    assert_eq!(second.pos, Vec2I { x: 30, y: 40 });
    assert_eq!(second.vel, Vec2I { x: BALL_SPEED, y: 0 });
    assert_eq!(pool.slots.len(), POOL_SIZE);
}

#[test]
fn eleven_spawns_exhaust_the_pool_once() {
    let mut pool = BulletPool::init_bullets();
    let mut reqs: Vec<SpawnBullet> = Vec::new();
    for i in 0..11i64 {
        reqs.push(ball_request(Vec2I { x: i, y: 0 }, Vec2I { x: 1, y: 0 }));
    }
    pool.spawn_bullets(&reqs);
    // Ten slots reused, one unpooled projectile created, one warning emitted.
    assert_eq!(pool.slots.len(), 11);
    assert_eq!(pool.warnings, 1);
    for i in 0..10 {
        assert!(pool.slots[i].active);
        assert!(pool.slots[i].pooled);
    }
    assert!(pool.slots[10].active);
    assert!(pool.slots[10].visible);
    assert!(!pool.slots[10].pooled);
}

#[test]
fn overflow_slot_is_retired_not_reused() {
    let mut pool = BulletPool::init_bullets();
    let mut reqs: Vec<SpawnBullet> = Vec::new();
    for i in 0..11i64 {
        reqs.push(ball_request(Vec2I { x: i, y: 0 }, Vec2I { x: 1, y: 0 }));
    }
    pool.spawn_bullets(&reqs);
    pool.despawn_bullets(&vec![DespawnBullet(10)]);
    assert!(!pool.slots[10].active);
    assert!(!pool.slots[10].pooled);
    // The retired overflow slot is passed over: a new overflow slot appears.
    pool.spawn_bullets(&vec![ball_request(Vec2I { x: 0, y: 0 }, Vec2I { x: 1, y: 0 })]);
    assert_eq!(pool.slots.len(), 12);
    assert_eq!(pool.warnings, 2);
    assert!(!pool.slots[10].active);
    assert!(pool.slots[11].active);
}

#[test]
fn cull_boundary_is_strict() {
    let mut pool = BulletPool::init_bullets();
    pool.spawn_bullets(&vec![
        ball_request(Vec2I { x: 3, y: 4 }, Vec2I { x: 1, y: 0 }),
        ball_request(Vec2I { x: 4, y: 4 }, Vec2I { x: 1, y: 0 }),
    ]);
    // Cull distance 5: squared distance 25 is exactly the boundary and is
    // kept; 32 lies strictly beyond and is culled.
    pool.cull_bullets(Vec2I { x: 0, y: 0 }, 5);
    assert!(pool.slots[0].active);
    assert!(pool.slots[0].visible);
    assert!(!pool.slots[1].active);
    assert!(!pool.slots[1].visible);
}

#[test]
fn cull_at_viewport_width() {
    let mut pool = BulletPool::init_bullets();
    let width: i64 = 1_920_000;
    pool.spawn_bullets(&vec![
        ball_request(Vec2I { x: width, y: 0 }, Vec2I { x: 1, y: 0 }),
        ball_request(Vec2I { x: width + 1, y: 0 }, Vec2I { x: 1, y: 0 }),
    ]);
    pool.cull_bullets(Vec2I { x: 0, y: 0 }, width);
    assert!(pool.slots[0].active);
    assert!(!pool.slots[1].active);
}

#[test]
fn cull_ignores_inactive_slots() {
    let mut pool = BulletPool::init_bullets();
    pool.cull_bullets(Vec2I { x: 1_000_000, y: 0 }, 5);
    for b in &pool.slots {
        assert!(!b.active);
        assert!(!b.visible);
    }
}

#[test]
fn advance_integrates_all_slots() {
    let mut pool = BulletPool::init_bullets();
    pool.spawn_bullets(&vec![ball_request(Vec2I { x: 100, y: 0 }, Vec2I { x: 0, y: 2 })]);
    // One full second: the slot moves by its whole velocity.
    pool.advance(1000);
    assert_eq!(pool.slots[0].pos, Vec2I { x: 100, y: BALL_SPEED });
    // A tenth of a second moves a tenth of the velocity.
    pool.advance(100);
    assert_eq!(pool.slots[0].pos, Vec2I { x: 100, y: BALL_SPEED + BALL_SPEED / 10 });
}

#[test]
fn speed_of_reads_the_kind_table() {
    let pool = BulletPool::init_bullets();
    assert_eq!(pool.speed_of(BulletType::Ball), BALL_SPEED);
}
