//! Fixed-point planar geometry: vectors, squared distances, and the integer
//! square root that the motion and camera rules are stated over.

use vstd::prelude::*;
use vstd::arithmetic::div_mod::{
    lemma_div_is_ordered, lemma_div_multiples_vanish, lemma_div_nonincreasing,
    lemma_div_pos_is_pos,
};
use vstd::arithmetic::mul::lemma_mul_inequality;
use crate::{COORD_LIMIT, DT_LIMIT, SCALE, SPEED_LIMIT, VEL_LIMIT};

verus! {

/// A planar vector in fixed-point sub-units.
#[derive(Clone, Copy, PartialEq, Eq, Structural, Debug)]
pub struct Vec2I {
    pub x: i64,
    pub y: i64,
}

impl Vec2I {
    /// Both components within the coordinate bound.
    pub open spec fn wf(self) -> bool {
        &&& -COORD_LIMIT <= self.x <= COORD_LIMIT
        &&& -COORD_LIMIT <= self.y <= COORD_LIMIT
    }
}

/// Magnitude of a fixed-point scalar, as a mathematical integer.
pub open spec fn spec_abs(x: int) -> int {
    if x >= 0 {
        x
    } else {
        -x
    }
}

/// Squared Euclidean distance between two points, as a mathematical integer.
pub open spec fn spec_dist_sq(a: Vec2I, b: Vec2I) -> int {
    (a.x - b.x) * (a.x - b.x) + (a.y - b.y) * (a.y - b.y)
}

/// The integer square root, rounded down.
pub open spec fn sqrt_floor(n: nat) -> nat
    decreases n,
{
    if n == 0 {
        0
    } else {
        let r = sqrt_floor((n - 1) as nat);
        if (r + 1) * (r + 1) <= n {
            (r + 1) as nat
        } else {
            r
        }
    }
}

/// `sqrt_floor(n)` is the unique `r` with `r * r <= n < (r + 1) * (r + 1)`.
pub proof fn lemma_sqrt_floor(n: nat)
    ensures
        sqrt_floor(n) * sqrt_floor(n) <= n,
        n < (sqrt_floor(n) + 1) * (sqrt_floor(n) + 1),
    decreases n,
{
    if n == 0 {
        let s = sqrt_floor(n);
        assert(s == 0);
        assert(s * s <= n && n < (s + 1) * (s + 1)) by (nonlinear_arith)
            requires
                s == 0nat,
                n == 0nat,
        {
        }
    } else {
        let m = (n - 1) as nat;
        lemma_sqrt_floor(m);
        let r = sqrt_floor(m);
        let s = sqrt_floor(n);
        if (r + 1) * (r + 1) <= n {
            assert(s == r + 1);
            assert(s * s <= n);
            assert(n < (s + 1) * (s + 1)) by (nonlinear_arith)
                requires
                    s == r + 1,
                    n <= (r + 1) * (r + 1),
            {
            }
        } else {
            assert(s == r);
            assert(s * s <= n) by (nonlinear_arith)
                requires
                    s == r,
                    r * r <= m,
                    m + 1 == n,
            {
            }
            assert(n < (s + 1) * (s + 1));
        }
    }
}

/// Any `r` in the square-root window equals `sqrt_floor(n)`.
pub proof fn lemma_sqrt_floor_unique(n: nat, r: nat)
    requires
        r * r <= n,
        n < (r + 1) * (r + 1),
    ensures
        r == sqrt_floor(n),
{
    lemma_sqrt_floor(n);
    let s = sqrt_floor(n);
    assert(r == s) by (nonlinear_arith)
        requires
            r * r <= n,
            n < (r + 1) * (r + 1),
            s * s <= n,
            n < (s + 1) * (s + 1),
    {
    }
}

/// `a * b / d`, rounded toward zero: the sign of `a` is peeled off and the
/// magnitude is divided with Euclidean division. All fixed-point products in
/// the core are stated through this function.
pub open spec fn spec_mul_div(a: int, b: int, d: int) -> int {
    if a >= 0 {
        (a * b) / d
    } else {
        -((-a * b) / d)
    }
}

/// A scalar clamped to `[-lim, lim]`.
pub open spec fn spec_clamp(v: int, lim: int) -> int {
    if v > lim {
        lim
    } else if v < -lim {
        -lim
    } else {
        v
    }
}

/// Dividing a product by a factor's upper bound cannot exceed the other factor.
pub proof fn lemma_mul_div_le(a: int, b: int, d: int)
    requires
        0 <= a,
        0 <= b,
        b <= d,
        1 <= d,
    ensures
        0 <= (a * b) / d <= a,
{
    lemma_mul_inequality(b, d, a);
    assert(b * a == a * b) by (nonlinear_arith);
    assert(d * a == a * d) by (nonlinear_arith);
    lemma_div_is_ordered(a * b, a * d, d);
    lemma_div_multiples_vanish(a, d);
    assert(0 <= a * b) by (nonlinear_arith)
        requires
            0 <= a,
            0 <= b,
    {
    }
    lemma_div_pos_is_pos(a * b, d);
}

/// A square root is bounded by any bound on the radicand's square.
pub proof fn lemma_sqrt_le(n: nat, b: nat)
    requires
        n <= b * b,
    ensures
        sqrt_floor(n) <= b,
{
    lemma_sqrt_floor(n);
    let s = sqrt_floor(n);
    assert(s <= b) by (nonlinear_arith)
        requires
            s * s <= n,
            n <= b * b,
    {
    }
}

/// Squared Euclidean distance between two bounded points.
pub fn dist_sq(a: Vec2I, b: Vec2I) -> (r: i128)
    requires
        a.wf(),
        b.wf(),
    ensures
        r == spec_dist_sq(a, b),
        0 <= r <= (4 * COORD_LIMIT) * (2 * COORD_LIMIT),
{
    let dx: i128 = a.x as i128 - b.x as i128;
    let dy: i128 = a.y as i128 - b.y as i128;
    proof {
        assert(dx * dx + dy * dy <= (4 * COORD_LIMIT) * (2 * COORD_LIMIT) && dx * dx >= 0
            && dy * dy >= 0) by (nonlinear_arith)
            requires
                -2 * COORD_LIMIT <= dx <= 2 * COORD_LIMIT,
                -2 * COORD_LIMIT <= dy <= 2 * COORD_LIMIT,
        {
        }
    }
    dx * dx + dy * dy
}

/// The integer square root of a squared distance, rounded down.
pub fn isqrt(n: u128) -> (r: u64)
    requires
        n < 0x4000_0000_0000_0000_0000_0000_0000_0000u128,
    ensures
        r == sqrt_floor(n as nat),
{
    let mut lo: u64 = 0;
    let mut hi: u64 = 0x8000_0000_0000_0000u64;
    proof {
        assert(0x8000_0000_0000_0000u64 as nat * 0x8000_0000_0000_0000u64 as nat
            == 0x4000_0000_0000_0000_0000_0000_0000_0000u128 as nat) by (nonlinear_arith);
    }
    while hi - lo > 1
        invariant
            lo < hi,
            hi <= 0x8000_0000_0000_0000u64,
            (lo as nat) * (lo as nat) <= n as nat,
            (n as nat) < (hi as nat) * (hi as nat),
        decreases hi - lo,
    {
        let mid: u64 = lo + (hi - lo) / 2;
        proof {
            assert((mid as nat) * (mid as nat) <= 0x4000_0000_0000_0000_0000_0000_0000_0000nat)
                by (nonlinear_arith)
                requires
                    mid as nat <= 0x8000_0000_0000_0000nat,
            {
            }
        }
        if (mid as u128) * (mid as u128) <= n {
            lo = mid;
        } else {
            hi = mid;
        }
    }
    proof {
        assert(hi == lo + 1);
        lemma_sqrt_floor_unique(n as nat, lo as nat);
    }
    lo
}

/// `a * b / d` rounded toward zero, on bounded fixed-point operands.
pub fn mul_div(a: i64, b: i64, d: i64) -> (r: i64)
    requires
        -4 * COORD_LIMIT <= a <= 4 * COORD_LIMIT,
        0 <= b <= COORD_LIMIT,
        1 <= d <= 4 * COORD_LIMIT,
        spec_abs(a as int) * b / (d as int) <= 4 * COORD_LIMIT,
    ensures
        r == spec_mul_div(a as int, b as int, d as int),
        spec_abs(r as int) == spec_abs(a as int) * b / (d as int),
{
    let ma: u128 = if a >= 0 {
        a as u128
    } else {
        (-a) as u128
    };
    proof {
        assert(ma * (b as u128) <= (4 * COORD_LIMIT) as u128 * (COORD_LIMIT as u128))
            by (nonlinear_arith)
            requires
                ma <= (4 * COORD_LIMIT) as u128,
                b as u128 <= COORD_LIMIT as u128,
        {
        }
    }
    let q: u128 = ma * (b as u128) / (d as u128);
    proof {
        assert(q == spec_abs(a as int) * b / (d as int));
        lemma_div_pos_is_pos(spec_abs(a as int) * b, d as int);
        assert(0 <= spec_abs(a as int) * b) by (nonlinear_arith)
            requires
                0 <= spec_abs(a as int),
                0 <= b,
        {
        }
    }
    if a >= 0 {
        q as i64
    } else {
        -(q as i64)
    }
}

/// The floor length of a planar vector.
pub open spec fn spec_len(d: Vec2I) -> nat {
    sqrt_floor((d.x * d.x + d.y * d.y) as nat)
}

/// One component of `direction` normalized (or left zero) and scaled by `speed`.
pub open spec fn spec_scaled_coord(c: int, d: Vec2I, speed: int) -> int {
    if d.x == 0 && d.y == 0 {
        0
    } else {
        spec_mul_div(c, speed, spec_len(d) as int)
    }
}

/// A nonzero vector's floor length is at least one and bounds each component.
pub proof fn lemma_len_window(d: Vec2I)
    requires
        d.wf(),
        !(d.x == 0 && d.y == 0),
    ensures
        1 <= spec_len(d),
        spec_abs(d.x as int) <= spec_len(d),
        spec_abs(d.y as int) <= spec_len(d),
        spec_len(d) <= 2 * COORD_LIMIT,
{
    assert(0 <= d.x * d.x + d.y * d.y) by (nonlinear_arith);
    let n = (d.x * d.x + d.y * d.y) as nat;
    lemma_sqrt_floor(n);
    let l = spec_len(d);
    assert(1 <= l && spec_abs(d.x as int) <= l && spec_abs(d.y as int) <= l)
        by (nonlinear_arith)
        requires
            l * l <= n,
            n < (l + 1) * (l + 1),
            n == d.x * d.x + d.y * d.y,
            !(d.x == 0 && d.y == 0),
    {
    }
    assert(n <= (2 * COORD_LIMIT) * (2 * COORD_LIMIT)) by (nonlinear_arith)
        requires
            -COORD_LIMIT <= d.x <= COORD_LIMIT,
            -COORD_LIMIT <= d.y <= COORD_LIMIT,
            n == d.x * d.x + d.y * d.y,
    {
    }
    lemma_sqrt_le(n, (2 * COORD_LIMIT) as nat);
}

/// Velocity given to a spawned projectile: the not-necessarily-normalized
/// `direction` is normalized — or resolved to zero when it has zero length —
/// and scaled by the kind's travel `speed`.
pub fn scaled_dir(d: Vec2I, speed: i64) -> (r: Vec2I)
    requires
        d.wf(),
        0 <= speed <= SPEED_LIMIT,
    ensures
        r.x == spec_scaled_coord(d.x as int, d, speed as int),
        r.y == spec_scaled_coord(d.y as int, d, speed as int),
        spec_abs(r.x as int) <= speed,
        spec_abs(r.y as int) <= speed,
        d.x == 0 && d.y == 0 ==> r == (Vec2I { x: 0, y: 0 }),
{
    if d.x == 0 && d.y == 0 {
        return Vec2I { x: 0, y: 0 };
    }
    let dsq: i128 = dist_sq(d, Vec2I { x: 0, y: 0 });
    proof {
        assert(spec_dist_sq(d, Vec2I { x: 0, y: 0 }) == d.x * d.x + d.y * d.y);
        lemma_len_window(d);
        assert((4 * COORD_LIMIT) * (2 * COORD_LIMIT)
            < 0x4000_0000_0000_0000_0000_0000_0000_0000) by (nonlinear_arith);
        assert(dsq < 0x4000_0000_0000_0000_0000_0000_0000_0000i128);
    }
    let l: u64 = isqrt(dsq as u128);
    proof {
        assert(l == spec_len(d));
        lemma_mul_div_le(speed as int, spec_abs(d.x as int), l as int);
        lemma_mul_div_le(speed as int, spec_abs(d.y as int), l as int);
        assert(speed * spec_abs(d.x as int) == spec_abs(d.x as int) * speed)
            by (nonlinear_arith);
        assert(speed * spec_abs(d.y as int) == spec_abs(d.y as int) * speed)
            by (nonlinear_arith);
    }
    let rx: i64 = mul_div(d.x, speed, l as i64);
    let ry: i64 = mul_div(d.y, speed, l as i64);
    Vec2I { x: rx, y: ry }
}

/// One coordinate after a motion tick: the velocity contribution for `dt`
/// sub-seconds is added and the result saturates at the coordinate bound.
pub open spec fn spec_step_coord(p: int, v: int, dt: int) -> int {
    spec_clamp(p + spec_mul_div(v, dt, SCALE as int), COORD_LIMIT as int)
}

/// A position advanced by its velocity over a tick of `dt` sub-seconds.
pub fn step(pos: Vec2I, vel: Vec2I, dt: i64) -> (r: Vec2I)
    requires
        pos.wf(),
        -VEL_LIMIT <= vel.x <= VEL_LIMIT,
        -VEL_LIMIT <= vel.y <= VEL_LIMIT,
        0 <= dt <= DT_LIMIT,
    ensures
        r.x == spec_step_coord(pos.x as int, vel.x as int, dt as int),
        r.y == spec_step_coord(pos.y as int, vel.y as int, dt as int),
        r.wf(),
{
    let sx: i64 = step_coord(pos.x, vel.x, dt);
    let sy: i64 = step_coord(pos.y, vel.y, dt);
    Vec2I { x: sx, y: sy }
}

fn step_coord(p: i64, v: i64, dt: i64) -> (r: i64)
    requires
        -COORD_LIMIT <= p <= COORD_LIMIT,
        -VEL_LIMIT <= v <= VEL_LIMIT,
        0 <= dt <= DT_LIMIT,
    ensures
        r == spec_step_coord(p as int, v as int, dt as int),
        -COORD_LIMIT <= r <= COORD_LIMIT,
{
    proof {
        lemma_div_nonincreasing(spec_abs(v as int) * dt, SCALE as int);
        assert(0 <= spec_abs(v as int) * dt <= VEL_LIMIT * DT_LIMIT) by (nonlinear_arith)
            requires
                0 <= spec_abs(v as int) <= VEL_LIMIT,
                0 <= dt <= DT_LIMIT,
        {
        }
        lemma_div_pos_is_pos(spec_abs(v as int) * dt, SCALE as int);
    }
    let s: i64 = mul_div(v, dt, SCALE);
    let n: i64 = p + s;
    if n > COORD_LIMIT {
        COORD_LIMIT
    } else if n < -COORD_LIMIT {
        -COORD_LIMIT
    } else {
        n
    }
}

} // verus!
