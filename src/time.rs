//! Time positions counted in ticks.

use vstd::prelude::*;
use vstd::arithmetic::div_mod::{
    lemma_div_is_ordered, lemma_fundamental_div_mod, lemma_fundamental_div_mod_converse,
};
use crate::fixed::{floor_div, floor_quot, mul_wide, UNIT};

verus! {

/// Ticks in one second. Chosen as a common multiple of the usual frame rates
/// (24, 25, 30, 50, 60, 120, NTSC, ...), so that frame boundaries fall on
/// whole ticks.
pub const TICKS_PER_SECOND: i64 = 3_603_600;

/// `n / d` rounded toward zero, as Rust's integer division does.
pub open spec fn trunc_div(n: int, d: int) -> int {
    if n >= 0 {
        n / d
    } else {
        -((-n) / d)
    }
}

/// `n / d` rounded away from zero, for `d > 0`.
pub open spec fn away_div(n: int, d: int) -> int {
    if n >= 0 {
        (n + d - 1) / d
    } else {
        -((-n + d - 1) / d)
    }
}

/// `v` fits an `i64`.
pub open spec fn fits_i64(v: int) -> bool {
    i64::MIN <= v <= i64::MAX
}

/// Relies on frame_tick's `FrameRateConversion::<FramesPerSec>::from_frames`
/// for `Tick`: `frames * TICKS_PER_SECOND / fps` computed in 128 bits and
/// rounded toward zero, read back as a tick count through `i64::from`.
#[verifier::external_body]
fn ticks_from_frames(frames: i64, fps: u32) -> (r: i64)
    requires
        fps > 0,
        fits_i64(trunc_div(frames * TICKS_PER_SECOND, fps as int)),
    ensures
        r == trunc_div(frames * TICKS_PER_SECOND, fps as int),
{
    let rate = std::num::NonZeroU32::new(fps).unwrap();
    let tick = <frame_tick::Tick as frame_tick::FrameRateConversion<frame_tick::FramesPerSec>>::from_frames(frames, rate);
    i64::from(tick)
}

/// Relies on frame_tick's `FrameRateConversion::<FramesPerSec>::to_frames`
/// for `Tick`: `ticks * fps / TICKS_PER_SECOND` computed in 128 bits and
/// rounded toward zero.
#[verifier::external_body]
fn frames_from_ticks(ticks: i64, fps: u32) -> (r: i64)
    requires
        fps > 0,
        fits_i64(trunc_div(ticks * fps, TICKS_PER_SECOND as int)),
    ensures
        r == trunc_div(ticks * fps, TICKS_PER_SECOND as int),
{
    let rate = std::num::NonZeroU32::new(fps).unwrap();
    <frame_tick::Tick as frame_tick::FrameRateConversion<frame_tick::FramesPerSec>>::to_frames(frame_tick::Tick::new(ticks), rate)
}

/// `n / d` rounded toward zero, for `d > 0`.
fn trunc_div_i128(n: i128, d: i128) -> (r: i128)
    requires
        d > 0,
        n > i128::MIN,
    ensures
        r == trunc_div(n as int, d as int),
{
    if n >= 0 {
        n / d
    } else {
        -((-n) / d)
    }
}

/// `t` ticks rounded to the nearest whole second, halves away from zero.
pub open spec fn round_to_second(t: int) -> int {
    let half = TICKS_PER_SECOND / 2;
    if t >= 0 {
        ((t + half) / TICKS_PER_SECOND as int) * TICKS_PER_SECOND
    } else {
        -(((-t + half) / TICKS_PER_SECOND as int) * TICKS_PER_SECOND)
    }
}

/// A position in time, counted in ticks of `1 / TICKS_PER_SECOND` second.
#[derive(Debug, Clone, Copy, PartialEq, Eq, Structural, PartialOrd, Ord, Hash)]
pub struct TimeTick {
    ticks: i64,
}

impl View for TimeTick {
    type V = int;

    /// The tick count.
    closed spec fn view(&self) -> int {
        self.ticks as int
    }
}

impl TimeTick {
    /// The position `ticks` ticks after zero.
    pub fn new(ticks: i64) -> (r: TimeTick)
        ensures
            r@ == ticks,
    {
        TimeTick { ticks }
    }

    /// The tick count.
    pub fn ticks(self) -> (r: i64)
        ensures
            r == self@,
    {
        self.ticks
    }

    /// Zero time position.
    pub fn zero() -> (r: TimeTick)
        ensures
            r@ == 0,
    {
        TimeTick { ticks: 0 }
    }

    /// The position `secs` whole seconds after zero; `None` when it is out
    /// of range.
    pub fn from_seconds(secs: i64) -> (r: Option<TimeTick>)
        ensures
            match r {
                Some(t) => t@ == secs * TICKS_PER_SECOND,
                None => !fits_i64(secs * TICKS_PER_SECOND),
            },
    {
        let v = mul_wide(secs, TICKS_PER_SECOND);
        if v < i64::MIN as i128 || v > i64::MAX as i128 {
            None
        } else {
            Some(TimeTick { ticks: v as i64 })
        }
    }

    /// The position of frame `frames` at `fps` frames per second, rounded
    /// away from zero to a tick, so that `to_frames` reads the same frame
    /// back; `None` when `fps` is zero or the position is out of range.
    pub fn from_frames(frames: i64, fps: u32) -> (r: Option<TimeTick>)
        ensures
            match r {
                Some(t) => fps > 0 && t@ == away_div(frames * TICKS_PER_SECOND, fps as int),
                None => fps == 0 || !fits_i64(away_div(frames * TICKS_PER_SECOND, fps as int)),
            },
    {
        if fps == 0 {
            return None;
        }
        let n = mul_wide(frames, TICKS_PER_SECOND);
        let d = fps as i128;
        let v = if n >= 0 {
            floor_div(n + d - 1, d)
        } else {
            -floor_div(-n + d - 1, d)
        };
        if v < i64::MIN as i128 || v > i64::MAX as i128 {
            return None;
        }
        proof {
            lemma_away_from_trunc(n as int, d as int);
        }
        let t = ticks_from_frames(frames, fps);
        let exact = mul_wide(t, fps as i64) == n;
        let ticks = if exact {
            t
        } else if frames >= 0 {
            t + 1
        } else {
            t - 1
        };
        Some(TimeTick { ticks })
    }

    /// The frame number of this position at `fps` frames per second,
    /// rounded toward zero; `None` when it is out of range. At zero frames
    /// per second every position is frame 0.
    pub fn to_frames(self, fps: u32) -> (r: Option<i64>)
        ensures
            match r {
                Some(f) => f == trunc_div(self@ * fps, TICKS_PER_SECOND as int),
                None => !fits_i64(trunc_div(self@ * fps, TICKS_PER_SECOND as int)),
            },
    {
        if fps == 0 {
            return Some(0);
        }
        let v = trunc_div_i128(mul_wide(self.ticks, fps as i64), TICKS_PER_SECOND as i128);
        if v < i64::MIN as i128 || v > i64::MAX as i128 {
            return None;
        }
        Some(frames_from_ticks(self.ticks, fps))
    }

    /// The sum of two positions.
    pub fn add(self, rhs: TimeTick) -> (r: TimeTick)
        requires
            fits_i64(self@ + rhs@),
        ensures
            r@ == self@ + rhs@,
    {
        TimeTick { ticks: self.ticks + rhs.ticks }
    }

    /// The difference of two positions.
    pub fn sub(self, rhs: TimeTick) -> (r: TimeTick)
        requires
            fits_i64(self@ - rhs@),
        ensures
            r@ == self@ - rhs@,
    {
        TimeTick { ticks: self.ticks - rhs.ticks }
    }

    /// The negated position.
    pub fn neg(self) -> (r: TimeTick)
        requires
            fits_i64(-self@),
        ensures
            r@ == -self@,
    {
        TimeTick { ticks: -self.ticks }
    }

    /// The position scaled by `k`.
    pub fn mul(self, k: i64) -> (r: TimeTick)
        requires
            fits_i64(self@ * k),
        ensures
            r@ == self@ * k,
    {
        TimeTick { ticks: self.ticks * k }
    }

    /// The position divided by `k`, rounded down; `None` when `k` is zero or
    /// the quotient is out of range.
    pub fn div(self, k: i64) -> (r: Option<TimeTick>)
        ensures
            match r {
                Some(t) => k != 0 && t@ == floor_quot(self@, k as int),
                None => k == 0 || !fits_i64(floor_quot(self@, k as int)),
            },
    {
        if k == 0 {
            return None;
        }
        let q = if k > 0 {
            floor_div(self.ticks as i128, k as i128)
        } else {
            floor_div(-(self.ticks as i128), -(k as i128))
        };
        if q < i64::MIN as i128 || q > i64::MAX as i128 {
            None
        } else {
            Some(TimeTick { ticks: q as i64 })
        }
    }

    /// The dimensionless ratio `self / other` in fixed-point (see
    /// [`crate::fixed`]), rounded down; `None` when `other` is zero or the
    /// ratio is out of range.
    pub fn ratio(self, other: TimeTick) -> (r: Option<i64>)
        ensures
            match r {
                Some(v) => other@ != 0 && v == floor_quot(self@ * UNIT, other@),
                None => other@ == 0 || !fits_i64(floor_quot(self@ * UNIT, other@)),
            },
    {
        if other.ticks == 0 {
            return None;
        }
        let n = mul_wide(self.ticks, UNIT);
        let q = if other.ticks > 0 {
            floor_div(n, other.ticks as i128)
        } else {
            floor_div(-n, -(other.ticks as i128))
        };
        if q < i64::MIN as i128 || q > i64::MAX as i128 {
            None
        } else {
            Some(q as i64)
        }
    }

    /// The position a fraction `t` (fixed-point) of the way from `self` to
    /// `other`, rounded down to a tick.
    pub fn lerp(self, other: TimeTick, t: i64) -> (r: TimeTick)
        requires
            fits_i64(self@ + floor_quot((other@ - self@) * t, UNIT as int)),
            i128::MIN <= (other@ - self@) * t <= i128::MAX,
        ensures
            r@ == self@ + floor_quot((other@ - self@) * t, UNIT as int),
    {
        let d = (other.ticks as i128 - self.ticks as i128) * (t as i128);
        TimeTick { ticks: (self.ticks as i128 + floor_div(d, UNIT as i128)) as i64 }
    }

    /// The absolute value.
    pub fn abs(self) -> (r: TimeTick)
        requires
            self@ > i64::MIN,
        ensures
            r@ == if self@ < 0 { -self@ } else { self@ },
    {
        if self.ticks < 0 {
            TimeTick { ticks: -self.ticks }
        } else {
            self
        }
    }

    /// The earlier of two positions.
    pub fn min(self, other: TimeTick) -> (r: TimeTick)
        ensures
            r@ == if self@ <= other@ { self@ } else { other@ },
    {
        if self.ticks <= other.ticks {
            self
        } else {
            other
        }
    }

    /// The later of two positions.
    pub fn max(self, other: TimeTick) -> (r: TimeTick)
        ensures
            r@ == if self@ >= other@ { self@ } else { other@ },
    {
        if self.ticks >= other.ticks {
            self
        } else {
            other
        }
    }

    /// The position limited to `[min, max]`: raised to `min`, then lowered
    /// to `max`, so that `max` wins when `min > max`.
    pub fn clamp(self, min: TimeTick, max: TimeTick) -> (r: TimeTick)
        ensures
            r@ == if self@ < min@ {
                if min@ <= max@ { min@ } else { max@ }
            } else if self@ > max@ {
                max@
            } else {
                self@
            },
    {
        self.max(min).min(max)
    }

    /// Whether the position is finite: a tick count always is.
    pub fn is_finite(self) -> (r: bool)
        ensures
            r,
    {
        true
    }

    /// The position rounded down to a whole second.
    pub fn floor(self) -> (r: TimeTick)
        requires
            fits_i64((self@ / TICKS_PER_SECOND as int) * TICKS_PER_SECOND),
        ensures
            r@ == (self@ / TICKS_PER_SECOND as int) * TICKS_PER_SECOND,
    {
        let q = floor_div(self.ticks as i128, TICKS_PER_SECOND as i128);
        TimeTick { ticks: (q * TICKS_PER_SECOND as i128) as i64 }
    }

    /// The position rounded up to a whole second.
    pub fn ceil(self) -> (r: TimeTick)
        requires
            fits_i64(-(((-self@) / TICKS_PER_SECOND as int) * TICKS_PER_SECOND)),
        ensures
            r@ == -(((-self@) / TICKS_PER_SECOND as int) * TICKS_PER_SECOND),
    {
        let q = floor_div(-(self.ticks as i128), TICKS_PER_SECOND as i128);
        TimeTick { ticks: (-(q * TICKS_PER_SECOND as i128)) as i64 }
    }

    /// The position rounded to the nearest whole second, halves away from
    /// zero.
    pub fn round(self) -> (r: TimeTick)
        requires
            fits_i64(round_to_second(self@)),
        ensures
            r@ == round_to_second(self@),
    {
        let half = (TICKS_PER_SECOND / 2) as i128;
        let t = self.ticks as i128;
        let v = if t >= 0 {
            floor_div(t + half, TICKS_PER_SECOND as i128) * TICKS_PER_SECOND as i128
        } else {
            -(floor_div(-t + half, TICKS_PER_SECOND as i128) * TICKS_PER_SECOND as i128)
        };
        TimeTick { ticks: v as i64 }
    }
}

/// Rounding away from zero is rounding toward zero, moved one step away
/// from zero when the division is not exact.
proof fn lemma_away_from_trunc(n: int, d: int)
    requires
        d > 0,
        n > i128::MIN,
    ensures
        away_div(n, d) == if trunc_div(n, d) * d == n {
            trunc_div(n, d)
        } else if n >= 0 {
            trunc_div(n, d) + 1
        } else {
            trunc_div(n, d) - 1
        },
{
    let m = if n >= 0 { n } else { -n };
    lemma_fundamental_div_mod(m, d);
    let (q, r) = (m / d, m % d);
    if r == 0 {
        assert(m + d - 1 == q * d + (d - 1)) by (nonlinear_arith)
            requires m == d * q + r, r == 0;
        lemma_fundamental_div_mod_converse(m + d - 1, d, q, d - 1);
        assert(q * d == m) by (nonlinear_arith)
            requires m == d * q + r, r == 0;
        assert(trunc_div(n, d) * d == n) by (nonlinear_arith)
            requires
                m == if n >= 0 { n } else { -n },
                trunc_div(n, d) == if n >= 0 { q } else { -q },
                q * d == m;
    } else {
        assert(m + d - 1 == (q + 1) * d + (r - 1)) by (nonlinear_arith)
            requires m == d * q + r;
        lemma_fundamental_div_mod_converse(m + d - 1, d, q + 1, r - 1);
        assert(q * d != m) by (nonlinear_arith)
            requires m == d * q + r, 0 < r < d;
        assert(trunc_div(n, d) * d != n) by (nonlinear_arith)
            requires
                m == if n >= 0 { n } else { -n },
                trunc_div(n, d) == if n >= 0 { q } else { -q },
                q * d != m;
    }
}

/// For `m >= 0`, `p = ceil(m * T / f)` with `0 < f <= T` gives back `m` as
/// `floor(p * f / T)`.
proof fn lemma_ceil_then_floor(m: int, f: int)
    requires
        m >= 0,
        0 < f <= TICKS_PER_SECOND,
    ensures
        (((m * TICKS_PER_SECOND + f - 1) / f) * f) / (TICKS_PER_SECOND as int) == m,
{
    let tps = TICKS_PER_SECOND as int;
    let n = m * tps;
    assert(n >= 0) by (nonlinear_arith)
        requires m >= 0, tps > 0, n == m * tps;
    lemma_fundamental_div_mod(n + f - 1, f);
    let p = (n + f - 1) / f;
    let r = (n + f - 1) % f;
    assert(n <= p * f < n + f) by (nonlinear_arith)
        requires n + f - 1 == f * p + r, 0 <= r < f;
    assert(m * tps <= p * f < m * tps + tps);
    lemma_fundamental_div_mod_converse(p * f, tps, m, p * f - m * tps);
}

/// A frame number survives the round trip through a position: at any frame
/// rate of at most `TICKS_PER_SECOND` frames per second, `from_frames`
/// followed by `to_frames` gives the frame number back.
pub proof fn lemma_frames_round_trip(frames: int, fps: int)
    requires
        0 < fps <= TICKS_PER_SECOND,
    ensures
        trunc_div(away_div(frames * TICKS_PER_SECOND, fps) * fps, TICKS_PER_SECOND as int) == frames,
{
    let tps = TICKS_PER_SECOND as int;
    if frames >= 0 {
        lemma_ceil_then_floor(frames, fps);
        assert(frames * tps >= 0) by (nonlinear_arith)
            requires frames >= 0, tps > 0;
        let p = (frames * tps + fps - 1) / fps;
        assert(p >= 0) by {
            lemma_div_is_ordered(0, frames * tps + fps - 1, fps);
        }
        assert(p * fps >= 0) by (nonlinear_arith)
            requires p >= 0, fps > 0;
    } else {
        let m = -frames;
        lemma_ceil_then_floor(m, fps);
        assert(frames * tps == -(m * tps)) by (nonlinear_arith)
            requires m == -frames;
        assert(m * tps > 0) by (nonlinear_arith)
            requires m > 0, tps > 0;
        let p = (m * tps + fps - 1) / fps;
        assert(p >= 0) by {
            lemma_div_is_ordered(0, m * tps + fps - 1, fps);
        }
        assert(p * fps >= 0) by (nonlinear_arith)
            requires p >= 0, fps > 0;
        assert((-p) * fps == -(p * fps)) by (nonlinear_arith);
        if p * fps == 0 {
            assert(m * tps <= p * fps) by {
                lemma_fundamental_div_mod(m * tps + fps - 1, fps);
                assert(m * tps <= p * fps) by (nonlinear_arith)
                    requires
                        m * tps + fps - 1 == fps * p + (m * tps + fps - 1) % fps,
                        0 <= (m * tps + fps - 1) % fps < fps;
            }
        }
    }
}

impl Default for TimeTick {
    /// Zero.
    fn default() -> (r: TimeTick)
        ensures
            r@ == 0,
    {
        TimeTick { ticks: 0 }
    }
}

} // verus!
