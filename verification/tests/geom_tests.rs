use hypernova::{Vec2I, dist_sq, isqrt, mul_div, scaled_dir, step, BALL_SPEED};

#[test]
fn isqrt_exact_values() {
    assert_eq!(isqrt(0), 0);
    assert_eq!(isqrt(1), 1);
    assert_eq!(isqrt(2), 1);
    assert_eq!(isqrt(3), 1);
    assert_eq!(isqrt(4), 2);
    assert_eq!(isqrt(24), 4);
    assert_eq!(isqrt(25), 5);
    assert_eq!(isqrt(26), 5);
    assert_eq!(isqrt(1_000_000_000_000), 1_000_000);
    assert_eq!(isqrt(999_999_999_999), 999_999);
}

#[test]
fn dist_sq_exact() {
    let a = Vec2I { x: 3, y: 4 };
    let b = Vec2I { x: 0, y: 0 };
    assert_eq!(dist_sq(a, b), 25);
    let c = Vec2I { x: -3, y: 4 };
    assert_eq!(dist_sq(c, b), 25);
    assert_eq!(dist_sq(a, a), 0);
}

#[test]
fn scaled_dir_zero_direction_gives_zero_velocity() {
    let v = scaled_dir(Vec2I { x: 0, y: 0 }, BALL_SPEED);
    assert_eq!(v, Vec2I { x: 0, y: 0 });
}

#[test]
fn scaled_dir_three_four_five() {
    let v = scaled_dir(Vec2I { x: 3, y: 4 }, 1_000_000);
    assert_eq!(v, Vec2I { x: 600_000, y: 800_000 });
    let w = scaled_dir(Vec2I { x: -3, y: 4 }, 1_000_000);
    assert_eq!(w, Vec2I { x: -600_000, y: 800_000 });
}

#[test]
fn scaled_dir_axis() {
    let v = scaled_dir(Vec2I { x: 0, y: 5 }, BALL_SPEED);
    assert_eq!(v, Vec2I { x: 0, y: BALL_SPEED });
    let w = scaled_dir(Vec2I { x: -7, y: 0 }, BALL_SPEED);
    assert_eq!(w, Vec2I { x: -BALL_SPEED, y: 0 });
}

#[test]
fn step_moves_by_velocity_over_tick() {
    let p = step(Vec2I { x: 100, y: 200 }, Vec2I { x: 1000, y: -1000 }, 500);
    assert_eq!(p, Vec2I { x: 600, y: -300 });
    let q = step(Vec2I { x: 100, y: 200 }, Vec2I { x: 1000, y: -1000 }, 0);
    assert_eq!(q, Vec2I { x: 100, y: 200 });
}

#[test]
fn mul_div_truncates_toward_zero() {
    assert_eq!(mul_div(7, 1, 2), 3);
    assert_eq!(mul_div(-7, 1, 2), -3);
    assert_eq!(mul_div(0, 5, 3), 0);
}
