use hypernova::{
    is_dead, spawn_enemy, Health, DEATH_EPSILON, ENEMY_MAX_HEALTH, ENEMY_RADIUS,
    ENEMY_SPAWN_HALF_HEIGHT, ENEMY_SPAWN_HALF_WIDTH,
};

#[test]
fn from_max_starts_full() {
    let h = Health::from_max(10_000);
    assert_eq!(h.current, 10_000);
    assert_eq!(h.max, 10_000);
}

#[test]
fn death_epsilon_boundary() {
    assert!(is_dead(&Health { current: DEATH_EPSILON, max: 3_000 }));
    assert!(is_dead(&Health { current: 0, max: 3_000 }));
    assert!(is_dead(&Health { current: -500, max: 3_000 }));
    assert!(!is_dead(&Health { current: DEATH_EPSILON + 1, max: 3_000 }));
}

#[test]
fn tunables_hold_their_documented_values() {
    assert_eq!(ENEMY_RADIUS, 40_000);
    assert_eq!(DEATH_EPSILON, 10);
    assert_eq!(ENEMY_MAX_HEALTH, 3_000);
}

#[test]
fn spawned_enemies_land_in_the_spawn_rectangle() {
    for _ in 0..50 {
        let e = spawn_enemy();
        assert!(-ENEMY_SPAWN_HALF_WIDTH <= e.pos.x && e.pos.x < ENEMY_SPAWN_HALF_WIDTH);
        assert!(-ENEMY_SPAWN_HALF_HEIGHT <= e.pos.y && e.pos.y < ENEMY_SPAWN_HALF_HEIGHT);
        assert_eq!(e.health.current, ENEMY_MAX_HEALTH);
        assert_eq!(e.health.max, ENEMY_MAX_HEALTH);
    }
}
