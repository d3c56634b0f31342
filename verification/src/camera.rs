//! The camera controller: smoothed follow of a tracked subject with a
//! distance-adaptive blend factor, plus a stack of independent, time-bounded
//! shake impulses whose noise-driven offsets perturb the rendered position.
//!
//! Coherent-noise samples are produced by the embedding (one per tracked
//! impulse, each component in `[-NOISE_UNIT, NOISE_UNIT]`); the update here
//! is proved for every value those samples may take.

use vstd::prelude::*;
use crate::entropy::random_in;
use crate::geom::{
    Vec2I, spec_abs, spec_dist_sq, spec_mul_div, sqrt_floor, lemma_mul_div_le, lemma_sqrt_le,
    dist_sq, isqrt, mul_div,
};
use crate::{
    COORD_LIMIT, DT_LIMIT, FOLLOW_MAX_DISTANCE, INTENSITY_LIMIT, LEAD_FACTOR, MAX_SMOOTH_FACTOR,
    MIN_SMOOTH_FACTOR, NOISE_UNIT, SCALE, SHAKE_OFFSET_RANGE, SNAP_DISTANCE, TIME_LIMIT,
};

verus! {

/// One time-bounded shake impulse. The two offsets decorrelate simultaneous
/// impulses sampling the same noise field; a start time reset to the zero
/// sentinel marks the impulse for removal.
#[derive(Clone, Copy, PartialEq, Eq, Structural, Debug)]
pub struct ScreenShake {
    pub intensity: i64,
    pub duration: i64,
    pub start_time: i64,
    pub x_offset: Vec2I,
    pub y_offset: Vec2I,
}

impl ScreenShake {
    pub open spec fn wf(self) -> bool {
        &&& 0 <= self.intensity <= INTENSITY_LIMIT
        &&& 1 <= self.duration <= TIME_LIMIT
        &&& 0 <= self.start_time <= TIME_LIMIT
        &&& -SHAKE_OFFSET_RANGE <= self.x_offset.x <= SHAKE_OFFSET_RANGE
        &&& -SHAKE_OFFSET_RANGE <= self.x_offset.y <= SHAKE_OFFSET_RANGE
        &&& -SHAKE_OFFSET_RANGE <= self.y_offset.x <= SHAKE_OFFSET_RANGE
        &&& -SHAKE_OFFSET_RANGE <= self.y_offset.y <= SHAKE_OFFSET_RANGE
    }

    /// A fresh impulse with its two noise offsets drawn independently from
    /// the wide uniform range.
    pub fn new(intensity: i64, duration: i64, start_time: i64) -> (s: ScreenShake)
        requires
            0 <= intensity <= INTENSITY_LIMIT,
            1 <= duration <= TIME_LIMIT,
            0 <= start_time <= TIME_LIMIT,
        ensures
            s.wf(),
            s.intensity == intensity,
            s.duration == duration,
            s.start_time == start_time,
            -SHAKE_OFFSET_RANGE <= s.x_offset.x < SHAKE_OFFSET_RANGE,
            -SHAKE_OFFSET_RANGE <= s.x_offset.y < SHAKE_OFFSET_RANGE,
            -SHAKE_OFFSET_RANGE <= s.y_offset.x < SHAKE_OFFSET_RANGE,
            -SHAKE_OFFSET_RANGE <= s.y_offset.y < SHAKE_OFFSET_RANGE,
    {
        let x_offset = Vec2I {
            x: random_in(-SHAKE_OFFSET_RANGE, SHAKE_OFFSET_RANGE),
            y: random_in(-SHAKE_OFFSET_RANGE, SHAKE_OFFSET_RANGE),
        };
        let y_offset = Vec2I {
            x: random_in(-SHAKE_OFFSET_RANGE, SHAKE_OFFSET_RANGE),
            y: random_in(-SHAKE_OFFSET_RANGE, SHAKE_OFFSET_RANGE),
        };
        ScreenShake { intensity, duration, start_time, x_offset, y_offset }
    }
}

/// An impulse is live while its elapsed time is under its duration.
pub open spec fn spec_live(s: ScreenShake, now: int) -> bool {
    now - s.start_time < s.duration
}

/// The fraction of an impulse still to run, in [`SCALE`] units.
pub open spec fn spec_remaining(s: ScreenShake, now: int) -> int {
    (s.duration - (now - s.start_time)) * SCALE / (s.duration as int)
}

/// An impulse's intensity decayed linearly toward its expiry.
pub open spec fn spec_intensity_now(s: ScreenShake, now: int) -> int {
    s.intensity * spec_remaining(s, now) / (SCALE as int)
}

/// The offset one impulse contributes, given its noise sample: the sample
/// scaled by the decayed intensity for a live impulse, zero for an expired
/// one.
pub open spec fn spec_contribution(s: ScreenShake, now: int, sample: Vec2I) -> (int, int) {
    if spec_live(s, now) {
        let ci = spec_intensity_now(s, now);
        (
            spec_mul_div(sample.x as int, ci, NOISE_UNIT as int),
            spec_mul_div(sample.y as int, ci, NOISE_UNIT as int),
        )
    } else {
        (0, 0)
    }
}

/// Whether an impulse survives an update: still live, and not carrying the
/// zero sentinel.
pub open spec fn spec_keep(s: ScreenShake, now: int) -> bool {
    spec_live(s, now) && s.start_time > 0
}

/// The impulses surviving an update, in order, from index `i` on.
pub open spec fn spec_retained_from(shakes: Seq<ScreenShake>, now: int, i: int) -> Seq<ScreenShake>
    decreases shakes.len() - i,
{
    if i < 0 || i >= shakes.len() {
        Seq::empty()
    } else if spec_keep(shakes[i], now) {
        seq![shakes[i]] + spec_retained_from(shakes, now, i + 1)
    } else {
        spec_retained_from(shakes, now, i + 1)
    }
}

/// The impulses surviving an update, in order.
pub open spec fn spec_retained(shakes: Seq<ScreenShake>, now: int) -> Seq<ScreenShake> {
    spec_retained_from(shakes, now, 0)
}

/// The shake offset after updating every impulse in order: each update
/// overwrites the offset, so the last impulse wins — its contribution if
/// live, zero if expired — and with no impulses tracked the offset is left
/// as it was.
pub open spec fn spec_final_offset(
    shakes: Seq<ScreenShake>,
    now: int,
    samples: Seq<Vec2I>,
    prev: Vec2I,
) -> (int, int) {
    if shakes.len() == 0 {
        (prev.x as int, prev.y as int)
    } else {
        spec_contribution(shakes.last(), now, samples.last())
    }
}

/// No impulse that fails the keep test survives an update.
pub proof fn lemma_not_kept_not_retained(shakes: Seq<ScreenShake>, now: int, v: ScreenShake, i: int)
    requires
        !spec_keep(v, now),
    ensures
        !spec_retained_from(shakes, now, i).contains(v),
    decreases shakes.len() - i,
{
    if i < 0 || i >= shakes.len() {
    } else {
        lemma_not_kept_not_retained(shakes, now, v, i + 1);
        if spec_keep(shakes[i], now) {
            let s = shakes[i];
            let rest = spec_retained_from(shakes, now, i + 1);
            let whole = seq![s] + rest;
            assert(s != v);
            assert forall|k: int| 0 <= k < whole.len() implies whole[k] != v by {
                if k == 0 {
                    assert(whole[0] == s);
                } else {
                    assert(whole[k] == rest[k - 1]);
                    if whole[k] == v {
                        assert(rest.contains(v));
                    }
                }
            }
            assert(!whole.contains(v));
        }
    }
}

/// An impulse whose elapsed time has reached its duration contributes zero
/// offset, whatever its noise sample, and the update purges it from the
/// live set.
pub proof fn lemma_expired_shake(shakes: Seq<ScreenShake>, now: int, v: ScreenShake, sample: Vec2I)
    requires
        now - v.start_time >= v.duration,
    ensures
        spec_contribution(v, now, sample) == (0int, 0int),
        !spec_retained(shakes, now).contains(v),
{
    lemma_not_kept_not_retained(shakes, now, v, 0);
}

/// Handles main camera logic: the smoothed follow point, the tracked shake
/// impulses, and their composition into the rendered position.
#[derive(Debug)]
pub struct PlayerCamera {
    pub screen_shake: Vec<ScreenShake>,
    pub max_smooth_factor: i64,
    pub min_smooth_factor: i64,
    pub max_distance: i64,
    pub delta: i64,
    pub lead_factor: i64,
    pub shake_offset: Vec2I,
    pub follow_point: Vec2I,
}

/// The blend factor for a given distance to the target: interpolated from
/// `min` to `max` as the distance ranges up to `max_distance`, and capped at
/// `max` beyond it.
pub open spec fn spec_smooth_factor(min: int, max: int, max_distance: int, dist: int) -> int {
    if dist > max_distance {
        max
    } else {
        min + (max - min) * dist / max_distance
    }
}

/// One coordinate of the follow point blended toward the target.
pub open spec fn spec_follow_coord(fp: int, target: int, f: int, dt: int) -> int {
    fp + spec_mul_div(target - fp, f * dt, (SCALE * SCALE) as int)
}

/// The distance used by the follow rule: the floor length of the offset to
/// the target.
pub open spec fn spec_follow_distance(target: Vec2I, fp: Vec2I) -> int {
    sqrt_floor(spec_dist_sq(target, fp) as nat) as int
}

/// The follow point after one update: a snap straight onto a nearby target,
/// or a blended step toward a distant one.
pub open spec fn spec_followed(cam: PlayerCamera, target: Vec2I, dt: int) -> (int, int) {
    let dist = spec_follow_distance(target, cam.follow_point);
    if dist < cam.delta {
        (target.x as int, target.y as int)
    } else {
        let f = spec_smooth_factor(
            cam.min_smooth_factor as int,
            cam.max_smooth_factor as int,
            cam.max_distance as int,
            dist,
        );
        (
            spec_follow_coord(cam.follow_point.x as int, target.x as int, f, dt),
            spec_follow_coord(cam.follow_point.y as int, target.y as int, f, dt),
        )
    }
}

impl PlayerCamera {
    pub open spec fn wf(self) -> bool {
        &&& forall|i: int| 0 <= i < self.screen_shake@.len()
            ==> (#[trigger] self.screen_shake@[i]).wf()
        &&& 0 <= self.min_smooth_factor <= self.max_smooth_factor <= SCALE
        &&& 1 <= self.max_distance <= COORD_LIMIT
        &&& 0 <= self.delta <= COORD_LIMIT
        &&& 0 <= self.lead_factor <= SCALE
        &&& self.follow_point.wf()
        &&& -INTENSITY_LIMIT <= self.shake_offset.x <= INTENSITY_LIMIT
        &&& -INTENSITY_LIMIT <= self.shake_offset.y <= INTENSITY_LIMIT
    }

    /// The rendered camera position: the follow point plus the shake offset.
    pub fn translation(&self) -> (r: Vec2I)
        requires
            self.wf(),
        ensures
            r.x as int == self.follow_point.x + self.shake_offset.x,
            r.y as int == self.follow_point.y + self.shake_offset.y,
    {
        Vec2I {
            x: self.follow_point.x + self.shake_offset.x,
            y: self.follow_point.y + self.shake_offset.y,
        }
    }

    /// Track a new shake impulse.
    pub fn push_screen_shake(&mut self, shake: ScreenShake)
        requires
            old(self).wf(),
            shake.wf(),
        ensures
            final(self).wf(),
            final(self).screen_shake@ == old(self).screen_shake@.push(shake),
            final(self).max_smooth_factor == old(self).max_smooth_factor,
            final(self).min_smooth_factor == old(self).min_smooth_factor,
            final(self).max_distance == old(self).max_distance,
            final(self).delta == old(self).delta,
            final(self).lead_factor == old(self).lead_factor,
            final(self).shake_offset == old(self).shake_offset,
            final(self).follow_point == old(self).follow_point,
    {
        self.screen_shake.push(shake);
    }

    /// Track a new shake impulse built from its parameters, with the two
    /// noise offsets drawn at random.
    pub fn push_screen_shake_with(&mut self, intensity: i64, duration: i64, start_time: i64)
        requires
            old(self).wf(),
            0 <= intensity <= INTENSITY_LIMIT,
            1 <= duration <= TIME_LIMIT,
            0 <= start_time <= TIME_LIMIT,
        ensures
            final(self).wf(),
            final(self).screen_shake@.len() == old(self).screen_shake@.len() + 1,
            forall|i: int| 0 <= i < old(self).screen_shake@.len()
                ==> final(self).screen_shake@[i] == old(self).screen_shake@[i],
            final(self).screen_shake@.last().intensity == intensity,
            final(self).screen_shake@.last().duration == duration,
            final(self).screen_shake@.last().start_time == start_time,
            -SHAKE_OFFSET_RANGE <= final(self).screen_shake@.last().x_offset.x
                < SHAKE_OFFSET_RANGE,
            -SHAKE_OFFSET_RANGE <= final(self).screen_shake@.last().x_offset.y
                < SHAKE_OFFSET_RANGE,
            -SHAKE_OFFSET_RANGE <= final(self).screen_shake@.last().y_offset.x
                < SHAKE_OFFSET_RANGE,
            -SHAKE_OFFSET_RANGE <= final(self).screen_shake@.last().y_offset.y
                < SHAKE_OFFSET_RANGE,
            final(self).max_smooth_factor == old(self).max_smooth_factor,
            final(self).min_smooth_factor == old(self).min_smooth_factor,
            final(self).max_distance == old(self).max_distance,
            final(self).delta == old(self).delta,
            final(self).lead_factor == old(self).lead_factor,
            final(self).shake_offset == old(self).shake_offset,
            final(self).follow_point == old(self).follow_point,
    {
        let shake = ScreenShake::new(intensity, duration, start_time);
        self.push_screen_shake(shake);
    }

    /// Update every tracked impulse against the clock: a live impulse writes
    /// its decayed, noise-scaled contribution to the shake offset, an expired
    /// one writes zero and is marked by the zero sentinel; afterwards the
    /// marked impulses are purged. The samples come from the embedding, one
    /// per impulse; the result is proved for every sample value.
    pub fn apply_screen_shake(&mut self, now: i64, samples: &Vec<Vec2I>)
        requires
            old(self).wf(),
            samples@.len() == old(self).screen_shake@.len(),
            forall|i: int| 0 <= i < samples@.len()
                ==> -NOISE_UNIT <= (#[trigger] samples@[i]).x <= NOISE_UNIT
                    && -NOISE_UNIT <= samples@[i].y <= NOISE_UNIT,
            0 <= now <= TIME_LIMIT,
            forall|i: int| 0 <= i < old(self).screen_shake@.len()
                ==> (#[trigger] old(self).screen_shake@[i]).start_time <= now,
        ensures
            final(self).wf(),
            final(self).screen_shake@ == spec_retained(old(self).screen_shake@, now as int),
            final(self).shake_offset.x as int == spec_final_offset(
                old(self).screen_shake@,
                now as int,
                samples@,
                old(self).shake_offset,
            ).0,
            final(self).shake_offset.y as int == spec_final_offset(
                old(self).screen_shake@,
                now as int,
                samples@,
                old(self).shake_offset,
            ).1,
            final(self).max_smooth_factor == old(self).max_smooth_factor,
            final(self).min_smooth_factor == old(self).min_smooth_factor,
            final(self).max_distance == old(self).max_distance,
            final(self).delta == old(self).delta,
            final(self).lead_factor == old(self).lead_factor,
            final(self).follow_point == old(self).follow_point,
    {
        let ghost shakes0 = self.screen_shake@;
        let mut kept: Vec<ScreenShake> = Vec::new();
        let mut off: Vec2I = self.shake_offset;
        let mut i: usize = 0;
        while i < self.screen_shake.len()
            invariant
                i <= shakes0.len(),
                self.screen_shake@ == shakes0,
                self.wf(),
                samples@.len() == shakes0.len(),
                forall|k: int| 0 <= k < samples@.len()
                    ==> -NOISE_UNIT <= (#[trigger] samples@[k]).x <= NOISE_UNIT
                        && -NOISE_UNIT <= samples@[k].y <= NOISE_UNIT,
                0 <= now <= TIME_LIMIT,
                forall|k: int| 0 <= k < shakes0.len()
                    ==> (#[trigger] shakes0[k]).start_time <= now,
                spec_retained(shakes0, now as int)
                    =~= kept@ + spec_retained_from(shakes0, now as int, i as int),
                forall|k: int| 0 <= k < kept@.len() ==> (#[trigger] kept@[k]).wf(),
                if i == 0 {
                    off == old(self).shake_offset
                } else {
                    off.x as int == spec_contribution(
                        shakes0[i as int - 1],
                        now as int,
                        samples@[i as int - 1],
                    ).0 && off.y as int == spec_contribution(
                        shakes0[i as int - 1],
                        now as int,
                        samples@[i as int - 1],
                    ).1
                },
                -INTENSITY_LIMIT <= off.x <= INTENSITY_LIMIT,
                -INTENSITY_LIMIT <= off.y <= INTENSITY_LIMIT,
            decreases shakes0.len() - i,
        {
            let s = self.screen_shake[i];
            let sample = samples[i];
            let elapsed: i64 = now - s.start_time;
            if elapsed < s.duration {
                let span: i64 = s.duration - elapsed;
                proof {
                    lemma_mul_div_le(SCALE as int, span as int, s.duration as int);
                    assert(SCALE * span == span * SCALE) by (nonlinear_arith);
                }
                let rem: i64 = mul_div(span, SCALE, s.duration);
                proof {
                    assert(rem as int == spec_remaining(s, now as int));
                    lemma_mul_div_le(s.intensity as int, rem as int, SCALE as int);
                }
                let ci: i64 = mul_div(s.intensity, rem, SCALE);
                proof {
                    assert(ci as int == spec_intensity_now(s, now as int));
                    lemma_mul_div_le(ci as int, spec_abs(sample.x as int), NOISE_UNIT as int);
                    lemma_mul_div_le(ci as int, spec_abs(sample.y as int), NOISE_UNIT as int);
                    assert(ci * spec_abs(sample.x as int) == spec_abs(sample.x as int) * ci)
                        by (nonlinear_arith);
                    assert(ci * spec_abs(sample.y as int) == spec_abs(sample.y as int) * ci)
                        by (nonlinear_arith);
                }
                let ox: i64 = mul_div(sample.x, ci, NOISE_UNIT);
                let oy: i64 = mul_div(sample.y, ci, NOISE_UNIT);
                off = Vec2I { x: ox, y: oy };
                if s.start_time > 0 {
                    kept.push(s);
                    proof {
                        assert(spec_retained_from(shakes0, now as int, i as int)
                            =~= seq![s] + spec_retained_from(shakes0, now as int, i as int + 1));
                        assert((kept@.drop_last() + seq![s])
                            + spec_retained_from(shakes0, now as int, i as int + 1)
                            =~= kept@.drop_last() + (seq![s]
                                + spec_retained_from(shakes0, now as int, i as int + 1)));
                        assert(kept@ =~= kept@.drop_last() + seq![s]);
                    }
                }
            } else {
                off = Vec2I { x: 0, y: 0 };
            }
            i = i + 1;
        }
        self.screen_shake = kept;
        self.shake_offset = off;
        proof {
            assert(final(self).screen_shake@ =~= spec_retained(shakes0, now as int));
        }
    }

    /// One follow update: snap onto a target closer than the snap threshold,
    /// otherwise blend toward it with the distance-adaptive factor; then
    /// report the rendered position, shake included.
    pub fn follow_player(&mut self, player: Vec2I, dt: i64) -> (cam_pos: Vec2I)
        requires
            old(self).wf(),
            player.wf(),
            0 <= dt <= DT_LIMIT,
        ensures
            final(self).wf(),
            final(self).follow_point.x as int == spec_followed(*old(self), player, dt as int).0,
            final(self).follow_point.y as int == spec_followed(*old(self), player, dt as int).1,
            spec_follow_distance(player, old(self).follow_point) < old(self).delta
                ==> final(self).follow_point == player,
            final(self).screen_shake@ == old(self).screen_shake@,
            final(self).shake_offset == old(self).shake_offset,
            final(self).max_smooth_factor == old(self).max_smooth_factor,
            final(self).min_smooth_factor == old(self).min_smooth_factor,
            final(self).max_distance == old(self).max_distance,
            final(self).delta == old(self).delta,
            final(self).lead_factor == old(self).lead_factor,
            cam_pos.x as int == final(self).follow_point.x + final(self).shake_offset.x,
            cam_pos.y as int == final(self).follow_point.y + final(self).shake_offset.y,
    {
        let target = player;  // no look-ahead: the camera leads the subject by nothing
        let dsq = dist_sq(target, self.follow_point);
        proof {
            assert((4 * COORD_LIMIT) * (2 * COORD_LIMIT) <= (3 * COORD_LIMIT) * (3 * COORD_LIMIT))
                by (nonlinear_arith);
            lemma_sqrt_le(dsq as nat, (3 * COORD_LIMIT) as nat);
        }
        let dist_u: u64 = isqrt(dsq as u128);
        let dist: i64 = dist_u as i64;
        if dist < self.delta {
            self.follow_point = target;
        } else {
            let f: i64 = if dist > self.max_distance {
                self.max_smooth_factor
            } else {
                let diff: i64 = self.max_smooth_factor - self.min_smooth_factor;
                proof {
                    lemma_mul_div_le(diff as int, dist as int, self.max_distance as int);
                }
                let t: i64 = mul_div(diff, dist, self.max_distance);
                self.min_smooth_factor + t
            };
            proof {
                assert(f as int == spec_smooth_factor(
                    self.min_smooth_factor as int,
                    self.max_smooth_factor as int,
                    self.max_distance as int,
                    dist as int,
                ));
                assert(0 <= f * dt <= SCALE * SCALE && SCALE * SCALE == 1_000_000)
                    by (nonlinear_arith)
                    requires
                        0 <= f <= SCALE,
                        0 <= dt <= DT_LIMIT,
                {
                }
            }
            let fdt: i64 = f * dt;
            let ss: i64 = 1_000_000;
            let dx: i64 = target.x - self.follow_point.x;
            let dy: i64 = target.y - self.follow_point.y;
            proof {
                lemma_mul_div_le(spec_abs(dx as int), fdt as int, ss as int);
                lemma_mul_div_le(spec_abs(dy as int), fdt as int, ss as int);
            }
            let sx: i64 = mul_div(dx, fdt, ss);
            let sy: i64 = mul_div(dy, fdt, ss);
            self.follow_point = Vec2I {
                x: self.follow_point.x + sx,
                y: self.follow_point.y + sy,
            };
        }
        Vec2I {
            x: self.follow_point.x + self.shake_offset.x,
            y: self.follow_point.y + self.shake_offset.y,
        }
    }

    /// One whole camera update: the shake impulses are updated and purged
    /// against the clock, then the follow point tracks the subject, and the
    /// rendered position composes the two.
    pub fn update_camera(&mut self, player: Vec2I, now: i64, dt: i64, samples: &Vec<Vec2I>) -> (cam_pos: Vec2I)
        requires
            old(self).wf(),
            player.wf(),
            0 <= dt <= DT_LIMIT,
            samples@.len() == old(self).screen_shake@.len(),
            forall|i: int| 0 <= i < samples@.len()
                ==> -NOISE_UNIT <= (#[trigger] samples@[i]).x <= NOISE_UNIT
                    && -NOISE_UNIT <= samples@[i].y <= NOISE_UNIT,
            0 <= now <= TIME_LIMIT,
            forall|i: int| 0 <= i < old(self).screen_shake@.len()
                ==> (#[trigger] old(self).screen_shake@[i]).start_time <= now,
        ensures
            final(self).wf(),
            final(self).screen_shake@ == spec_retained(old(self).screen_shake@, now as int),
            final(self).shake_offset.x as int == spec_final_offset(
                old(self).screen_shake@,
                now as int,
                samples@,
                old(self).shake_offset,
            ).0,
            final(self).shake_offset.y as int == spec_final_offset(
                old(self).screen_shake@,
                now as int,
                samples@,
                old(self).shake_offset,
            ).1,
            final(self).follow_point.x as int == spec_followed(*old(self), player, dt as int).0,
            final(self).follow_point.y as int == spec_followed(*old(self), player, dt as int).1,
            cam_pos.x as int == final(self).follow_point.x + final(self).shake_offset.x,
            cam_pos.y as int == final(self).follow_point.y + final(self).shake_offset.y,
    {
        self.apply_screen_shake(now, samples);
        let ghost mid = *self;
        let cam_pos = self.follow_player(player, dt);
        proof {
            assert(spec_followed(mid, player, dt as int) == spec_followed(*old(self), player, dt as int));
        }
        cam_pos
    }
}

impl Default for PlayerCamera {
    /// The stock tuning: uniform smoothing, a ten-unit snap threshold, and
    /// no tracked impulses.
    fn default() -> (c: PlayerCamera)
        ensures
            c.wf(),
            c.screen_shake@.len() == 0,
            c.max_smooth_factor == MAX_SMOOTH_FACTOR,
            c.min_smooth_factor == MIN_SMOOTH_FACTOR,
            c.max_distance == FOLLOW_MAX_DISTANCE,
            c.delta == SNAP_DISTANCE,
            c.lead_factor == LEAD_FACTOR,
            c.shake_offset == (Vec2I { x: 0, y: 0 }),
            c.follow_point == (Vec2I { x: 0, y: 0 }),
    {
        PlayerCamera {
            screen_shake: Vec::new(),
            max_smooth_factor: MAX_SMOOTH_FACTOR,
            min_smooth_factor: MIN_SMOOTH_FACTOR,
            max_distance: FOLLOW_MAX_DISTANCE,
            delta: SNAP_DISTANCE,
            lead_factor: LEAD_FACTOR,
            shake_offset: Vec2I { x: 0, y: 0 },
            follow_point: Vec2I { x: 0, y: 0 },
        }
    }
}

} // verus!
