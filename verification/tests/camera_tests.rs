use hypernova::{
    PlayerCamera, ScreenShake, Vec2I, FOLLOW_MAX_DISTANCE, LEAD_FACTOR, MAX_SMOOTH_FACTOR,
    MIN_SMOOTH_FACTOR, SHAKE_OFFSET_RANGE, SNAP_DISTANCE,
};

fn impulse(intensity: i64, duration: i64, start_time: i64) -> ScreenShake {
    ScreenShake {
        intensity,
        duration,
        start_time,
        x_offset: Vec2I { x: 0, y: 0 },
        y_offset: Vec2I { x: 0, y: 0 },
    }
}

#[test]
fn default_tuning() {
    let cam = PlayerCamera::default();
    assert!(cam.screen_shake.is_empty());
    assert_eq!(cam.max_smooth_factor, MAX_SMOOTH_FACTOR);
    assert_eq!(cam.min_smooth_factor, MIN_SMOOTH_FACTOR);
    assert_eq!(cam.max_distance, FOLLOW_MAX_DISTANCE);
    assert_eq!(cam.delta, SNAP_DISTANCE);
    assert_eq!(cam.lead_factor, LEAD_FACTOR);
    assert_eq!(cam.follow_point, Vec2I { x: 0, y: 0 });
    assert_eq!(cam.shake_offset, Vec2I { x: 0, y: 0 });
}

#[test]
fn follow_snaps_when_close() {
    // Distance 5000 is under the snap threshold: the follow point equals
    // the target after one update, with no residual lag.
    let mut cam = PlayerCamera::default();
    let target = Vec2I { x: 5_000, y: 0 };
    let pos = cam.follow_player(target, 16);
    assert_eq!(cam.follow_point, target);
    assert_eq!(pos, target);
}

#[test]
fn follow_blends_when_far() {
    // Distance 50000, dt 0.1 s: the factor interpolates to 1.0, so the
    // step is 50000 * (1000 * 100) / 1000000 = 5000.
    let mut cam = PlayerCamera::default();
    let target = Vec2I { x: 50_000, y: 0 };
    cam.follow_player(target, 100);
    assert_eq!(cam.follow_point, Vec2I { x: 5_000, y: 0 });
}

#[test]
fn follow_catches_up_fully_in_one_second_beyond_ramp() {
    let mut cam = PlayerCamera::default();
    let target = Vec2I { x: 200_000, y: 0 };
    cam.follow_player(target, 1000);
    assert_eq!(cam.follow_point, target);
}

#[test]
fn rendered_position_adds_shake_offset() {
    let mut cam = PlayerCamera::default();
    cam.shake_offset = Vec2I { x: 70, y: -30 };
    let pos = cam.follow_player(Vec2I { x: 5_000, y: 0 }, 16);
    assert_eq!(pos, Vec2I { x: 5_070, y: -30 });
    assert_eq!(cam.translation(), Vec2I { x: 5_070, y: -30 });
}

#[test]
fn live_impulse_contributes_scaled_sample() {
    let mut cam = PlayerCamera::default();
    cam.push_screen_shake(impulse(10_000, 200, 100));
    // At clock 200 the impulse is halfway: remaining 0.5, decayed
    // intensity 5.0; a full-strength sample maps to exactly that offset.
    let samples = vec![Vec2I { x: 1_000, y: -1_000 }];
    cam.apply_screen_shake(200, &samples);
    assert_eq!(cam.shake_offset, Vec2I { x: 5_000, y: -5_000 });
    assert_eq!(cam.screen_shake.len(), 1);
}

#[test]
fn expired_impulse_contributes_zero_and_is_purged() {
    let mut cam = PlayerCamera::default();
    cam.shake_offset = Vec2I { x: 123, y: 456 };
    cam.push_screen_shake(impulse(10_000, 200, 100));
    // Elapsed 200 has reached the duration 200: zero offset, purged.
    let samples = vec![Vec2I { x: 1_000, y: 1_000 }];
    cam.apply_screen_shake(300, &samples);
    assert_eq!(cam.shake_offset, Vec2I { x: 0, y: 0 });
    assert!(cam.screen_shake.is_empty());
}

#[test]
fn zero_start_sentinel_is_purged_even_while_live() {
    let mut cam = PlayerCamera::default();
    cam.push_screen_shake(impulse(10_000, 1_000, 0));
    let samples = vec![Vec2I { x: 0, y: 0 }];
    cam.apply_screen_shake(100, &samples);
    assert!(cam.screen_shake.is_empty());
}

#[test]
fn last_updated_impulse_overwrites_earlier_ones() {
    // Two live impulses: only the later one's contribution is visible.
    let mut cam = PlayerCamera::default();
    cam.push_screen_shake(impulse(10_000, 200, 100));
    cam.push_screen_shake(impulse(2_000, 200, 100));
    let samples = vec![Vec2I { x: 1_000, y: 0 }, Vec2I { x: 1_000, y: 0 }];
    cam.apply_screen_shake(200, &samples);
    assert_eq!(cam.shake_offset, Vec2I { x: 1_000, y: 0 });
    assert_eq!(cam.screen_shake.len(), 2);
}

#[test]
fn no_impulses_leave_offset_unchanged() {
    let mut cam = PlayerCamera::default();
    cam.shake_offset = Vec2I { x: 11, y: 22 };
    let samples: Vec<Vec2I> = Vec::new();
    cam.apply_screen_shake(500, &samples);
    assert_eq!(cam.shake_offset, Vec2I { x: 11, y: 22 });
}

#[test]
fn push_screen_shake_with_draws_bounded_offsets() {
    let mut cam = PlayerCamera::default();
    cam.push_screen_shake_with(10_000, 200, 7);
    assert_eq!(cam.screen_shake.len(), 1);
    let s = cam.screen_shake[0];
    assert_eq!(s.intensity, 10_000);
    assert_eq!(s.duration, 200);
    assert_eq!(s.start_time, 7);
    for c in [s.x_offset.x, s.x_offset.y, s.y_offset.x, s.y_offset.y] {
        assert!(-SHAKE_OFFSET_RANGE <= c && c < SHAKE_OFFSET_RANGE);
    }
}

#[test]
fn update_camera_composes_shake_and_follow() {
    let mut cam = PlayerCamera::default();
    cam.push_screen_shake(impulse(10_000, 200, 100));
    let samples = vec![Vec2I { x: 1_000, y: 0 }];
    // Shake first (offset 5000,0), then a snap onto the nearby target.
    let pos = cam.update_camera(Vec2I { x: 5_000, y: 0 }, 200, 16, &samples);
    assert_eq!(cam.follow_point, Vec2I { x: 5_000, y: 0 });
    assert_eq!(cam.shake_offset, Vec2I { x: 5_000, y: 0 });
    assert_eq!(pos, Vec2I { x: 10_000, y: 0 });
}
