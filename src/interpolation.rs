//! Evaluation of a position-sorted keyframe sequence at a time position.
//!
//! The engine finds the keyframes that bracket the query and the eased
//! progression between them; blending the two values is left to the value
//! type (see [`Lerp`]).

use vstd::prelude::*;
use crate::bezier::{coeffs_of, solve_value, CubicBezier};
use crate::fixed::UNIT;
use crate::keyframe::{Keyframe, KeyframeType};
use crate::time::TimeTick;

verus! {

/// The result of evaluating keyframes at a position.
#[derive(Debug, Clone)]
pub struct InterpolationTriple<T> {
    /// Value of the left keyframe.
    pub left: T,
    /// Value of the right keyframe, when the result blends toward it.
    pub right: Option<T>,
    /// The eased progression from `left` to `right`, fixed-point; 0 when
    /// there is no `right`.
    pub progression: i64,
}

/// Blending of two values by a fixed-point factor.
pub trait Lerp: Sized {
    /// Whether blending `self` toward `other` by `t` is representable.
    spec fn lerp_defined(&self, other: &Self, t: int) -> bool;

    /// The blend of `self` toward `other` by `t` (`t = 0` gives `self`,
    /// `t = UNIT` gives `other`).
    spec fn lerp_spec(&self, other: &Self, t: int) -> Self;

    /// Blends `self` toward `other` by the fixed-point factor `t`.
    fn lerp(&self, other: &Self, t: i64) -> (r: Self)
        requires
            self.lerp_defined(other, t as int),
        ensures
            r == self.lerp_spec(other, t as int),
    ;
}

/// `a + (b - a) * t` for the fixed-point factor `t`, rounded down.
pub open spec fn lerp_int(a: int, b: int, t: int) -> int {
    a + (b - a) * t / (UNIT as int)
}

impl Lerp for i64 {
    open spec fn lerp_defined(&self, other: &i64, t: int) -> bool {
        &&& i128::MIN <= (*other - *self) * t <= i128::MAX
        &&& i64::MIN <= lerp_int(*self as int, *other as int, t) <= i64::MAX
    }

    open spec fn lerp_spec(&self, other: &i64, t: int) -> i64 {
        lerp_int(*self as int, *other as int, t) as i64
    }

    fn lerp(&self, other: &i64, t: i64) -> (r: i64) {
        let a = *self as i128;
        let b = *other as i128;
        let p = (b - a) * (t as i128);
        (a + crate::fixed::floor_div(p, UNIT as i128)) as i64
    }
}

impl<T: Clone + Lerp> InterpolationTriple<T> {
    /// Whether `lerp` is defined on this result.
    pub open spec fn lerp_defined(&self) -> bool {
        self.right matches Some(r) ==> self.left.lerp_defined(&r, self.progression as int)
    }

    /// The blended value: `left` toward `right` by the progression, or
    /// `left` when there is no `right`.
    pub fn lerp(&self) -> (r: T)
        requires
            self.lerp_defined(),
        ensures
            match self.right {
                Some(rv) => r == self.left.lerp_spec(&rv, self.progression as int),
                None => cloned(self.left, r),
            },
    {
        match &self.right {
            Some(right) => self.left.lerp(right, self.progression),
            None => self.left.clone(),
        }
    }
}

/// Index of the first keyframe from `i` on whose position is after `q`, or
/// the length when there is none.
pub open spec fn first_after<T>(kfs: Seq<&Keyframe<T>>, q: int, i: int) -> int
    decreases kfs.len() - i,
{
    if i < 0 || i >= kfs.len() {
        kfs.len() as int
    } else if kfs[i].position@ > q {
        i
    } else {
        first_after(kfs, q, i + 1)
    }
}

/// The fixed-point ratio `offset / span`, rounded down.
pub open spec fn local_ratio(offset: int, span: int) -> int {
    offset * UNIT / span
}

/// What evaluating `kfs` at `q` gives. With `ri` the first keyframe after
/// `q`: nothing for no keyframes; a hold at the first keyframe before it, at
/// the last after the end; between keyframes `ri - 1` and `ri`, a hold at
/// the left one if it is not connected or the span is empty, else a blend
/// whose progression its type decides.
pub open spec fn evaluates_to<T>(kfs: Seq<&Keyframe<T>>, q: int, res: Option<InterpolationTriple<T>>) -> bool
    where T: Clone,
{
    let n = kfs.len();
    let ri = first_after(kfs, q, 0);
    let li = left_index(kfs, q);
    match res {
        None => n == 0,
        Some(res) => {
            &&& n > 0
            &&& cloned(kfs[li].value, res.left)
            &&& if blends(kfs, q) {
                let (lk, rk) = (kfs[li], kfs[ri]);
                let x = local_ratio(q - lk.position@, rk.position@ - lk.position@);
                &&& res.right matches Some(v) && cloned(rk.value, v)
                &&& match lk.keyframe_type {
                    KeyframeType::Hold => res.progression == 0,
                    KeyframeType::Linear => res.progression == x,
                    KeyframeType::Bezier => res.progression == solve_value(
                        coeffs_of(lk.handles.right_x as int, rk.handles.left_x as int),
                        coeffs_of(lk.handles.right_y as int, rk.handles.left_y as int),
                        x,
                    ),
                }
            } else {
                res.right is None && res.progression == 0
            }
        },
    }
}

/// Index of the keyframe whose value the evaluation at `q` starts from: the
/// one just before the first keyframe after `q`, or the first keyframe when
/// `q` comes before all of them.
pub open spec fn left_index<T>(kfs: Seq<&Keyframe<T>>, q: int) -> int {
    let ri = first_after(kfs, q, 0);
    if ri == 0 {
        0
    } else {
        ri - 1
    }
}

/// Whether the query `q` falls between two keyframes of `kfs` that blend:
/// the left one is connected and the span between them is not empty.
pub open spec fn blends<T>(kfs: Seq<&Keyframe<T>>, q: int) -> bool {
    let ri = first_after(kfs, q, 0);
    &&& 0 < ri < kfs.len()
    &&& kfs[ri - 1].connected_right
    &&& kfs[ri].position@ > kfs[ri - 1].position@
}

/// A single keyframe holds everywhere: before, at and after its position the
/// result is its value, with nothing to blend toward.
pub proof fn lemma_single_keyframe_holds<T: Clone>(kfs: Seq<&Keyframe<T>>, q: int, res: Option<InterpolationTriple<T>>)
    requires
        kfs.len() == 1,
        evaluates_to(kfs, q, res),
    ensures
        res matches Some(r) && r.right is None && r.progression == 0 && cloned(kfs[0].value, r.left),
{
    assert(first_after(kfs, q, 1) == 1);
}

/// A keyframe of type `Hold` holds across the segment it starts: wherever
/// the query falls in it, the progression is 0 and blending toward the next
/// value gives the left value exactly.
pub proof fn lemma_hold_segment_holds(kfs: Seq<&Keyframe<i64>>, q: int, res: InterpolationTriple<i64>)
    requires
        kfs[left_index(kfs, q)].keyframe_type == KeyframeType::Hold,
        evaluates_to(kfs, q, Some(res)),
    ensures
        res.progression == 0,
        res.right matches Some(v) ==> res.left.lerp_spec(&v, res.progression as int) == res.left,
{
}

proof fn lemma_first_after_step<T>(kfs: Seq<&Keyframe<T>>, q: int, i: int)
    requires
        0 <= i < kfs.len(),
        kfs[i].position@ <= q,
    ensures
        first_after(kfs, q, i) == first_after(kfs, q, i + 1),
{
}

/// Evaluates keyframes, sorted by position, at `position`.
///
/// The right keyframe is the first one after `position`; the left one the
/// keyframe just before it (or the last one). Before the first keyframe and
/// after the last the result holds that keyframe's value.
pub fn interpolate_at_position<T: Clone>(keyframes: &[&Keyframe<T>], position: TimeTick) -> (r: Option<InterpolationTriple<T>>)
    ensures
        evaluates_to(keyframes@, position@, r),
{
    let n = keyframes.len();
    if n == 0 {
        return None;
    }
    let q = position.ticks();
    let mut i: usize = 0;
    while i < n
        invariant
            n == keyframes@.len(),
            0 <= i <= n,
            first_after(keyframes@, q as int, 0) == first_after(keyframes@, q as int, i as int),
            forall|j: int| 0 <= j < i ==> keyframes@[j].position@ <= q,
        ensures
            0 <= i <= n,
            i == first_after(keyframes@, q as int, 0),
            i < n ==> keyframes@[i as int].position@ > q,
            forall|j: int| 0 <= j < i ==> keyframes@[j].position@ <= q,
        decreases n - i,
    {
        if keyframes[i].position.ticks() > q {
            break;
        }
        proof {
            lemma_first_after_step(keyframes@, q as int, i as int);
        }
        i = i + 1;
    }
    if i == 0 {
        return Some(InterpolationTriple { left: keyframes[0].value.clone(), right: None, progression: 0 });
    }
    let left_kf = keyframes[i - 1];
    if i == n {
        return Some(InterpolationTriple { left: left_kf.value.clone(), right: None, progression: 0 });
    }
    let right_kf = keyframes[i];
    if !left_kf.connected_right {
        return Some(InterpolationTriple { left: left_kf.value.clone(), right: None, progression: 0 });
    }
    let left_pos = left_kf.position.ticks() as i128;
    let span = right_kf.position.ticks() as i128 - left_pos;
    if span <= 0 {
        return Some(InterpolationTriple { left: left_kf.value.clone(), right: None, progression: 0 });
    }
    let offset = q as i128 - left_pos;
    proof {
        assert(keyframes@[i - 1].position@ <= q);
        let (o, s) = (offset as int, span as int);
        assert(0 <= o * UNIT < s * UNIT) by (nonlinear_arith)
            requires 0 <= o < s;
        assert(0 <= o * UNIT / s < UNIT) by {
            vstd::arithmetic::div_mod::lemma_div_is_ordered(0, o * UNIT, s);
            vstd::arithmetic::div_mod::lemma_div_is_ordered(o * UNIT, s * UNIT - 1, s);
            vstd::arithmetic::div_mod::lemma_fundamental_div_mod(s * UNIT - 1, s);
            assert((s * UNIT - 1) / s < UNIT) by (nonlinear_arith)
                requires s * UNIT - 1 == s * ((s * UNIT - 1) / s) + (s * UNIT - 1) % s,
                    0 <= (s * UNIT - 1) % s, s > 0;
        }
    }
    let local = (offset * (UNIT as i128) / span) as i64;
    let progression = match left_kf.keyframe_type {
        KeyframeType::Hold => 0,
        KeyframeType::Linear => local,
        KeyframeType::Bezier => {
            let bezier = CubicBezier::from_handles(
                left_kf.handles.right_x,
                left_kf.handles.right_y,
                right_kf.handles.left_x,
                right_kf.handles.left_y,
            );
            bezier.solve(local)
        },
    };
    Some(InterpolationTriple {
        left: left_kf.value.clone(),
        right: Some(right_kf.value.clone()),
        progression,
    })
}

} // verus!
