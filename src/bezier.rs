//! Cubic-bezier curves from `(0, 0)` to `(1, 1)`, solved for `y` at a given `x`.
//!
//! Coordinates, the curve parameter `t` and results are fixed-point values
//! (see [`crate::fixed`]). A curve is stored as the coefficients of its two
//! polynomials `x(t) = ((ax t + bx) t + cx) t` and `y(t)` alike, computed
//! once at construction.

use vstd::prelude::*;
use vstd::arithmetic::div_mod::*;
use crate::fixed::{floor_div, floor_quot, UNIT};

verus! {

/// Largest magnitude of a coefficient (2^36); it bounds every product the
/// solver forms.
pub const COEFF_BOUND: i64 = 0x10_0000_0000;

/// A residual `|x(t) - x|` below this ends the search (one millionth).
pub const RESIDUAL_TOLERANCE: i64 = 1;

/// A slope `|x'(t)|` below this ends the Newton-Raphson phase.
pub const SLOPE_TOLERANCE: i64 = 1;

/// Most Newton-Raphson steps taken before bisection takes over.
pub const NEWTON_ITERATIONS: usize = 8;

/// Coefficients `(a, b, c)` of `((a t + b) t + c) t` for the cubic through
/// 0 and 1 with inner control values `p1` and `p2`.
pub open spec fn coeffs_of(p1: int, p2: int) -> (int, int, int) {
    let c = 3 * p1;
    let b = 3 * (p2 - p1) - c;
    (UNIT - c - b, b, c)
}

/// Coefficients that stay within `COEFF_BOUND` and sum to one, so that the
/// polynomial passes through 0 at `t = 0` and through 1 at `t = 1`.
pub open spec fn coeffs_ok(k: (int, int, int)) -> bool {
    &&& -COEFF_BOUND <= k.0 <= COEFF_BOUND
    &&& -COEFF_BOUND <= k.1 <= COEFF_BOUND
    &&& -COEFF_BOUND <= k.2 <= COEFF_BOUND
    &&& k.0 + k.1 + k.2 == UNIT
}

/// The polynomial with coefficients `k` at parameter `t`, both fixed-point,
/// rounded down to a millionth.
pub open spec fn cubic_at(k: (int, int, int), t: int) -> int {
    (k.0 * t * t * t + k.1 * t * t * UNIT + k.2 * t * UNIT * UNIT) / (UNIT * UNIT * UNIT)
}

/// The derivative of the polynomial with coefficients `k` at `t`, rounded down.
pub open spec fn slope_at(k: (int, int, int), t: int) -> int {
    (3 * k.0 * t * t + 2 * k.1 * t * UNIT + k.2 * UNIT * UNIT) / (UNIT * UNIT)
}

/// `t` is a parameter in `[0, 1]` at which the x-polynomial `k` meets `x`:
/// exactly, or within one step of `t`, where `x` lies between the values at
/// `t` and at its neighbour.
pub open spec fn accepts(k: (int, int, int), x: int, t: int) -> bool {
    &&& 0 <= t <= UNIT
    &&& {
        ||| cubic_at(k, t) == x
        ||| (1 <= t && cubic_at(k, t - 1) <= x <= cubic_at(k, t))
        ||| (t + 1 <= UNIT && cubic_at(k, t) <= x <= cubic_at(k, t + 1))
    }
}

/// The Newton-Raphson phase of the solver for the x-polynomial `k` and the
/// query `x`, at parameter `t` after `i` steps: the parameter where the
/// residual vanishes, or `None` when the phase gives up (step budget spent,
/// slope too flat, or a step that would leave `[0, 1]`).
pub open spec fn newton_phase(k: (int, int, int), x: int, t: int, i: int) -> Option<int>
    decreases NEWTON_ITERATIONS as int - i,
{
    if i >= NEWTON_ITERATIONS as int {
        None
    } else {
        let e = cubic_at(k, t) - x;
        let d = slope_at(k, t);
        if -RESIDUAL_TOLERANCE < e < RESIDUAL_TOLERANCE {
            Some(t)
        } else if -SLOPE_TOLERANCE < d < SLOPE_TOLERANCE {
            None
        } else {
            let next = t - floor_quot(e * UNIT, d);
            if next < 0 || next > UNIT {
                None
            } else {
                newton_phase(k, x, next, i + 1)
            }
        }
    }
}

/// The bisection phase of the solver for the x-polynomial `k` and the query
/// `x`, probing `t` inside the bracket `[lo, hi]` (`first` marks the probe
/// at the query itself): the parameter where the residual vanishes or the
/// midpoint once the bracket is one step wide.
pub open spec fn bisection(k: (int, int, int), x: int, lo: int, hi: int, t: int, first: bool) -> int
    decreases 2 * (hi - lo) + if first { 1int } else { 0int },
{
    if !(lo <= t <= hi) || (!first && !(lo < t < hi)) {
        t
    } else {
        let e = cubic_at(k, t);
        if -RESIDUAL_TOLERANCE < e - x < RESIDUAL_TOLERANCE {
            t
        } else {
            let lo2 = if x > e { t } else { lo };
            let hi2 = if x > e { hi } else { t };
            let t2 = lo2 + (hi2 - lo2) / 2;
            if hi2 - lo2 < 2 {
                t2
            } else {
                bisection(k, x, lo2, hi2, t2, false)
            }
        }
    }
}

/// The parameter the solver settles on for the x-polynomial `k` and a query
/// `x` in `[0, 1]`: Newton-Raphson from `t = x`, else bisection over `[0, 1]`.
pub open spec fn solve_param(k: (int, int, int), x: int) -> int {
    match newton_phase(k, x, x, 0) {
        Some(t) => t,
        None => bisection(k, x, 0, UNIT as int, x, true),
    }
}

/// What solving the curve with x-polynomial `xk` and y-polynomial `yk`
/// gives for the query `x`: the curve's y at the parameter the solver
/// settles on for the clamped `x`.
pub open spec fn solve_value(xk: (int, int, int), yk: (int, int, int), x: int) -> int {
    cubic_at(yk, solve_param(xk, clamp_unit(x)))
}

/// `x` clamped to `[0, 1]`.
pub open spec fn clamp_unit(x: int) -> int {
    if x < 0 {
        0
    } else if x > UNIT {
        UNIT as int
    } else {
        x
    }
}

/// A cubic-bezier curve from `(0, 0)` to `(1, 1)` with two inner control
/// points, ready to be solved for `y` at a given `x`.
#[derive(Debug, Clone, Copy)]
pub struct CubicBezier {
    cx: i64,
    bx: i64,
    ax: i64,
    cy: i64,
    by: i64,
    ay: i64,
}

impl CubicBezier {
    /// Coefficients `(a, b, c)` of the x-polynomial.
    pub closed spec fn x_coeffs(&self) -> (int, int, int) {
        (self.ax as int, self.bx as int, self.cx as int)
    }

    /// Coefficients `(a, b, c)` of the y-polynomial.
    pub closed spec fn y_coeffs(&self) -> (int, int, int) {
        (self.ay as int, self.by as int, self.cy as int)
    }

    pub open spec fn wf(&self) -> bool {
        coeffs_ok(self.x_coeffs()) && coeffs_ok(self.y_coeffs())
    }

    /// What `solve` returns for the query `x`.
    pub open spec fn solve_spec(&self, x: int) -> int {
        solve_value(self.x_coeffs(), self.y_coeffs(), x)
    }

    /// The curve with control points `(x1, y1)` and `(x2, y2)`, as CSS
    /// `cubic-bezier(x1, y1, x2, y2)` gives them.
    pub fn new(x1: i32, y1: i32, x2: i32, y2: i32) -> (r: CubicBezier)
        ensures
            r.wf(),
            r.x_coeffs() == coeffs_of(x1 as int, x2 as int),
            r.y_coeffs() == coeffs_of(y1 as int, y2 as int),
    {
        let cx: i64 = 3 * (x1 as i64);
        let bx: i64 = 3 * ((x2 as i64) - (x1 as i64)) - cx;
        let ax: i64 = UNIT - cx - bx;
        let cy: i64 = 3 * (y1 as i64);
        let by: i64 = 3 * ((y2 as i64) - (y1 as i64)) - cy;
        let ay: i64 = UNIT - cy - by;
        CubicBezier { cx, bx, ax, cy, by, ay }
    }

    /// The curve from the outgoing handle of the left keyframe to the
    /// incoming handle of the right one.
    pub fn from_handles(left_right_x: i32, left_right_y: i32, right_left_x: i32, right_left_y: i32) -> (r: CubicBezier)
        ensures
            r.wf(),
            r.x_coeffs() == coeffs_of(left_right_x as int, right_left_x as int),
            r.y_coeffs() == coeffs_of(left_right_y as int, right_left_y as int),
    {
        CubicBezier::new(left_right_x, left_right_y, right_left_x, right_left_y)
    }

    /// The straight line, CSS `cubic-bezier(0, 0, 1, 1)`.
    pub fn linear() -> (r: CubicBezier)
        ensures
            r.wf(),
            r.x_coeffs() == coeffs_of(0, UNIT as int),
            r.y_coeffs() == coeffs_of(0, UNIT as int),
    {
        CubicBezier::new(0, 0, 1_000_000, 1_000_000)
    }

    /// CSS `ease-in`, `cubic-bezier(0.42, 0, 1, 1)`.
    pub fn ease_in() -> (r: CubicBezier)
        ensures
            r.wf(),
            r.x_coeffs() == coeffs_of(420_000, UNIT as int),
            r.y_coeffs() == coeffs_of(0, UNIT as int),
    {
        CubicBezier::new(420_000, 0, 1_000_000, 1_000_000)
    }

    /// CSS `ease-out`, `cubic-bezier(0, 0, 0.58, 1)`.
    pub fn ease_out() -> (r: CubicBezier)
        ensures
            r.wf(),
            r.x_coeffs() == coeffs_of(0, 580_000),
            r.y_coeffs() == coeffs_of(0, UNIT as int),
    {
        CubicBezier::new(0, 0, 580_000, 1_000_000)
    }

    /// CSS `ease-in-out`, `cubic-bezier(0.42, 0, 0.58, 1)`.
    pub fn ease_in_out() -> (r: CubicBezier)
        ensures
            r.wf(),
            r.x_coeffs() == coeffs_of(420_000, 580_000),
            r.y_coeffs() == coeffs_of(0, UNIT as int),
    {
        CubicBezier::new(420_000, 0, 580_000, 1_000_000)
    }

    fn sample_curve_x(&self, t: i64) -> (r: i64)
        requires
            self.wf(),
            0 <= t <= UNIT,
        ensures
            r == cubic_at(self.x_coeffs(), t as int),
            -3 * COEFF_BOUND <= r <= 3 * COEFF_BOUND,
    {
        cubic_value(self.ax, self.bx, self.cx, t)
    }

    fn sample_curve_y(&self, t: i64) -> (r: i64)
        requires
            self.wf(),
            0 <= t <= UNIT,
        ensures
            r == cubic_at(self.y_coeffs(), t as int),
    {
        cubic_value(self.ay, self.by, self.cy, t)
    }

    fn sample_curve_derivative_x(&self, t: i64) -> (r: i64)
        requires
            self.wf(),
            0 <= t <= UNIT,
        ensures
            r == slope_at(self.x_coeffs(), t as int),
            -6 * COEFF_BOUND <= r <= 6 * COEFF_BOUND,
    {
        slope_value(self.ax, self.bx, self.cx, t)
    }

    /// A parameter `t` at which the x-polynomial meets `x`: Newton-Raphson
    /// from `t = x`, then bisection over `[0, 1]` if that has not converged.
    /// A Newton-Raphson step that would leave `[0, 1]` ends that phase;
    /// bisection ends when the bracket is one step (a millionth) wide.
    fn solve_curve_x(&self, x: i64) -> (t: i64)
        requires
            self.wf(),
            0 <= x <= UNIT,
        ensures
            t == solve_param(self.x_coeffs(), x as int),
    {
        let mut t: i64 = x;
        let mut i: usize = 0;
        while i < NEWTON_ITERATIONS
            invariant
                self.wf(),
                0 <= x <= UNIT,
                0 <= t <= UNIT,
                i <= NEWTON_ITERATIONS,
                newton_phase(self.x_coeffs(), x as int, x as int, 0)
                    == newton_phase(self.x_coeffs(), x as int, t as int, i as int),
            ensures
                newton_phase(self.x_coeffs(), x as int, x as int, 0) is None,
            decreases NEWTON_ITERATIONS - i,
        {
            let x_est = self.sample_curve_x(t) - x;
            if -RESIDUAL_TOLERANCE < x_est && x_est < RESIDUAL_TOLERANCE {
                return t;
            }
            let d = self.sample_curve_derivative_x(t);
            if -SLOPE_TOLERANCE < d && d < SLOPE_TOLERANCE {
                break;
            }
            proof {
                let (e, u) = (x_est as int, UNIT as int);
                assert(-4 * COEFF_BOUND * u <= e * u <= 4 * COEFF_BOUND * u) by (nonlinear_arith)
                    requires -4 * COEFF_BOUND <= e <= 4 * COEFF_BOUND, u > 0;
            }
            let num = (x_est as i128) * (UNIT as i128);
            let step = if d > 0 {
                floor_div(num, d as i128)
            } else {
                floor_div(-num, -(d as i128))
            };
            let next = (t as i128) - step;
            if next < 0 || next > UNIT as i128 {
                break;
            }
            t = next as i64;
            i = i + 1;
        }

        let mut lo: i64 = 0;
        let mut hi: i64 = UNIT;
        t = x;
        let mut first = true;
        proof {
            lemma_ends(self.x_coeffs());
        }
        loop
            invariant_except_break
                !first ==> lo < t < hi,
            invariant
                self.wf(),
                0 <= x <= UNIT,
                0 <= lo <= t <= hi <= UNIT,
                cubic_at(self.x_coeffs(), lo as int) <= x <= cubic_at(self.x_coeffs(), hi as int),
                first ==> lo == 0 && hi == UNIT && t == x,
                newton_phase(self.x_coeffs(), x as int, x as int, 0) is None,
                bisection(self.x_coeffs(), x as int, 0, UNIT as int, x as int, true)
                    == bisection(self.x_coeffs(), x as int, lo as int, hi as int, t as int, first),
            ensures
                t == bisection(self.x_coeffs(), x as int, 0, UNIT as int, x as int, true),
            decreases 2 * (hi - lo) + if first { 1int } else { 0int },
        {
            let x_est = self.sample_curve_x(t);
            if -RESIDUAL_TOLERANCE < x_est - x && x_est - x < RESIDUAL_TOLERANCE {
                assert(bisection(self.x_coeffs(), x as int, lo as int, hi as int, t as int, first) == t);
                return t;
            }
            if x > x_est {
                lo = t;
            } else {
                hi = t;
            }
            t = lo + (hi - lo) / 2;
            first = false;
            if hi - lo < 2 {
                break;
            }
        }
        t
    }

    /// The curve's y at the given x, which is first clamped to `[0, 1]`.
    pub fn solve(&self, x: i64) -> (r: i64)
        requires
            self.wf(),
        ensures
            r == self.solve_spec(x as int),
    {
        let x = if x < 0 {
            0
        } else if x > UNIT {
            UNIT
        } else {
            x
        };
        let t = self.solve_curve_x(x);
        proof {
            lemma_solve_param_accepts(self.x_coeffs(), x as int);
        }
        self.sample_curve_y(t)
    }
}

/// The solver settles on a parameter accepted for the query: one where the
/// x-polynomial meets `x` exactly or within one step; and where `x` itself
/// is such a parameter, on `x`.
pub proof fn lemma_solve_param_accepts(k: (int, int, int), x: int)
    requires
        coeffs_ok(k),
        0 <= x <= UNIT,
    ensures
        accepts(k, x, solve_param(k, x)),
        cubic_at(k, x) == x ==> solve_param(k, x) == x,
{
    lemma_newton_phase(k, x, x, 0);
    lemma_ends(k);
    lemma_bisection(k, x, 0, UNIT as int, x, true);
}

proof fn lemma_newton_phase(k: (int, int, int), x: int, t: int, i: int)
    requires
        0 <= t <= UNIT,
    ensures
        newton_phase(k, x, t, i) matches Some(s) ==> 0 <= s <= UNIT && cubic_at(k, s) == x,
    decreases NEWTON_ITERATIONS as int - i,
{
    if i < NEWTON_ITERATIONS as int {
        let e = cubic_at(k, t) - x;
        let d = slope_at(k, t);
        if !(-RESIDUAL_TOLERANCE < e < RESIDUAL_TOLERANCE) && !(-SLOPE_TOLERANCE < d < SLOPE_TOLERANCE) {
            let next = t - floor_quot(e * UNIT, d);
            if 0 <= next <= UNIT {
                lemma_newton_phase(k, x, next, i + 1);
            }
        }
    }
}

proof fn lemma_bisection(k: (int, int, int), x: int, lo: int, hi: int, t: int, first: bool)
    requires
        0 <= lo <= t <= hi <= UNIT,
        cubic_at(k, lo) <= x <= cubic_at(k, hi),
        !first ==> lo < t < hi,
    ensures
        accepts(k, x, bisection(k, x, lo, hi, t, first)),
    decreases 2 * (hi - lo) + if first { 1int } else { 0int },
{
    let e = cubic_at(k, t);
    if !(-RESIDUAL_TOLERANCE < e - x < RESIDUAL_TOLERANCE) {
        let lo2 = if x > e { t } else { lo };
        let hi2 = if x > e { hi } else { t };
        let t2 = lo2 + (hi2 - lo2) / 2;
        if hi2 - lo2 >= 2 {
            lemma_bisection(k, x, lo2, hi2, t2, false);
        } else {
            assert(t2 == lo2);
        }
    }
}

/// Every curve keeps the ends of the unit interval in place: `solve` gives
/// exactly 0 at 0 and exactly 1 at 1, whatever the control points.
pub proof fn lemma_solve_fixes_ends(c: CubicBezier)
    requires
        c.wf(),
    ensures
        c.solve_spec(0) == 0,
        c.solve_spec(UNIT as int) == UNIT,
{
    lemma_ends(c.x_coeffs());
    lemma_ends(c.y_coeffs());
    lemma_solve_param_accepts(c.x_coeffs(), 0);
    lemma_solve_param_accepts(c.x_coeffs(), UNIT as int);
}

/// The linear curve `cubic-bezier(0, 0, 1, 1)` is the identity: for every
/// `x` in `[0, 1]`, `solve(x)` is within two millionths of `x`.
pub proof fn lemma_linear_solves_to_identity(c: CubicBezier, x: int)
    requires
        c.wf(),
        c.x_coeffs() == coeffs_of(0, UNIT as int),
        c.y_coeffs() == coeffs_of(0, UNIT as int),
        0 <= x <= UNIT,
    ensures
        -2 <= c.solve_spec(x) - x <= 2,
{
    let k = c.x_coeffs();
    lemma_solve_param_accepts(k, x);
    let t = solve_param(k, x);
    if 1 <= t && cubic_at(k, t - 1) <= x <= cubic_at(k, t) {
        lemma_linear_step(t - 1, t);
    }
    if t + 1 <= UNIT && cubic_at(k, t) <= x <= cubic_at(k, t + 1) {
        lemma_linear_step(t, t + 1);
    }
}

/// On `[0, 1]` the linear curve's polynomial `3 t^2 - 2 t^3` never decreases,
/// and rises by at most two millionths over one millionth of `t`.
proof fn lemma_linear_step(p: int, q: int)
    requires
        0 <= p <= q <= UNIT,
        q <= p + 1,
    ensures
        0 <= cubic_at(coeffs_of(0, UNIT as int), q) - cubic_at(coeffs_of(0, UNIT as int), p) <= 2,
{
    let u = UNIT as int;
    let d = u * u * u;
    let k = coeffs_of(0, u);
    assert(k == (-2 * u, 3 * u, 0int));
    let np = k.0 * p * p * p + k.1 * p * p * u + k.2 * p * u * u;
    let nq = k.0 * q * q * q + k.1 * q * q * u + k.2 * q * u * u;
    let g = 3 * u * (p + q) - 2 * (p * p + p * q + q * q);
    assert(np == u * (3 * u * (p * p) - 2 * (p * p * p))) by (nonlinear_arith)
        requires k == (-2 * u, 3 * u, 0int), np == k.0 * p * p * p + k.1 * p * p * u + k.2 * p * u * u;
    assert(nq == u * (3 * u * (q * q) - 2 * (q * q * q))) by (nonlinear_arith)
        requires k == (-2 * u, 3 * u, 0int), nq == k.0 * q * q * q + k.1 * q * q * u + k.2 * q * u * u;
    assert(q * q - p * p == (q - p) * (q + p)) by (nonlinear_arith);
    assert(q * q * q - p * p * p == (q - p) * (p * p + p * q + q * q)) by (nonlinear_arith);
    let a = 3 * u * (q * q - p * p) - 2 * (q * q * q - p * p * p);
    assert(a == (q - p) * g) by (nonlinear_arith)
        requires
            q * q - p * p == (q - p) * (q + p),
            q * q * q - p * p * p == (q - p) * (p * p + p * q + q * q),
            a == 3 * u * (q * q - p * p) - 2 * (q * q * q - p * p * p),
            g == 3 * u * (p + q) - 2 * (p * p + p * q + q * q);
    assert(nq - np == u * a) by (nonlinear_arith)
        requires
            np == u * (3 * u * (p * p) - 2 * (p * p * p)),
            nq == u * (3 * u * (q * q) - 2 * (q * q * q)),
            a == 3 * u * (q * q - p * p) - 2 * (q * q * q - p * p * p);
    assert(u * a == u * (q - p) * g) by (nonlinear_arith)
        requires
            a == (q - p) * g;
    assert(g >= 0) by (nonlinear_arith)
        requires
            0 <= p <= q <= u,
            g == 3 * u * (p + q) - 2 * (p * p + p * q + q * q);
    assert(u * g <= 2 * d) by (nonlinear_arith)
        requires
            0 <= p <= q <= u,
            q <= p + 1,
            u == 1_000_000,
            d == u * u * u,
            g == 3 * u * (p + q) - 2 * (p * p + p * q + q * q);
    assert(0 <= nq - np <= 2 * d) by (nonlinear_arith)
        requires
            nq - np == u * (q - p) * g,
            g >= 0,
            u * g <= 2 * d,
            0 <= q - p <= 1,
            u > 0;
    lemma_fundamental_div_mod(np, d);
    lemma_fundamental_div_mod(nq, d);
    let (fp, fq) = (np / d, nq / d);
    assert(0 <= fq - fp <= 2) by (nonlinear_arith)
        requires
            np == d * fp + np % d,
            nq == d * fq + nq % d,
            0 <= np % d < d,
            0 <= nq % d < d,
            0 <= nq - np <= 2 * d,
            d > 0;
}

proof fn lemma_cubic_terms(k: (int, int, int), t: int)
    requires
        coeffs_ok(k),
        0 <= t <= UNIT,
    ensures
        0 <= t * t <= UNIT * UNIT,
        0 <= t * t * t <= UNIT * UNIT * UNIT,
        0 <= t * t * UNIT <= UNIT * UNIT * UNIT,
        0 <= t * (UNIT * UNIT) <= UNIT * UNIT * UNIT,
        -COEFF_BOUND * (UNIT * UNIT * UNIT) <= k.0 * (t * t * t) <= COEFF_BOUND * (UNIT * UNIT * UNIT),
        -COEFF_BOUND * (UNIT * UNIT * UNIT) <= k.1 * (t * t * UNIT) <= COEFF_BOUND * (UNIT * UNIT * UNIT),
        -COEFF_BOUND * (UNIT * UNIT * UNIT) <= k.2 * (t * (UNIT * UNIT)) <= COEFF_BOUND * (UNIT * UNIT * UNIT),
        k.0 * (t * t * t) + k.1 * (t * t * UNIT) + k.2 * (t * (UNIT * UNIT))
            == k.0 * t * t * t + k.1 * t * t * UNIT + k.2 * t * UNIT * UNIT,
        -3 * COEFF_BOUND <= cubic_at(k, t) <= 3 * COEFF_BOUND,
{
    let u = UNIT as int;
    let b = COEFF_BOUND as int;
    assert(0 <= t * t <= u * u) by (nonlinear_arith)
        requires 0 <= t <= u;
    assert(0 <= t * t * t <= u * u * u) by (nonlinear_arith)
        requires 0 <= t <= u, 0 <= t * t <= u * u;
    assert(0 <= t * t * u <= u * u * u) by (nonlinear_arith)
        requires 0 <= t * t <= u * u, u > 0;
    assert(0 <= t * (u * u) <= u * u * u) by (nonlinear_arith)
        requires 0 <= t <= u, u > 0;
    assert(-b * (u * u * u) <= k.0 * (t * t * t) <= b * (u * u * u)) by (nonlinear_arith)
        requires -b <= k.0 <= b, 0 <= t * t * t <= u * u * u;
    assert(-b * (u * u * u) <= k.1 * (t * t * u) <= b * (u * u * u)) by (nonlinear_arith)
        requires -b <= k.1 <= b, 0 <= t * t <= u * u, u > 0;
    assert(-b * (u * u * u) <= k.2 * (t * (u * u)) <= b * (u * u * u)) by (nonlinear_arith)
        requires -b <= k.2 <= b, 0 <= t <= u, u > 0;
    assert(k.0 * t * t * t == k.0 * (t * t * t)) by (nonlinear_arith);
    assert(k.1 * t * t * u == k.1 * (t * t * u)) by (nonlinear_arith);
    assert(k.2 * t * u * u == k.2 * (t * (u * u))) by (nonlinear_arith);
    let n = k.0 * t * t * t + k.1 * t * t * u + k.2 * t * u * u;
    let d = u * u * u;
    assert(-3 * b * d <= n <= 3 * b * d) by (nonlinear_arith)
        requires
            -b * (u * u * u) <= k.0 * (t * t * t) <= b * (u * u * u),
            -b * (u * u * u) <= k.1 * (t * t * u) <= b * (u * u * u),
            -b * (u * u * u) <= k.2 * (t * (u * u)) <= b * (u * u * u),
            k.0 * t * t * t == k.0 * (t * t * t),
            k.1 * t * t * u == k.1 * (t * t * u),
            k.2 * t * u * u == k.2 * (t * (u * u)),
            n == k.0 * t * t * t + k.1 * t * t * u + k.2 * t * u * u,
            d == u * u * u;
    lemma_div_is_ordered(-3 * b * d, n, d);
    lemma_div_is_ordered(n, 3 * b * d, d);
    assert(-3 * b * d == d * (-3 * b)) by (nonlinear_arith);
    assert(3 * b * d == d * (3 * b)) by (nonlinear_arith);
    lemma_div_multiples_vanish(-3 * b, d);
    lemma_div_multiples_vanish(3 * b, d);
}

proof fn lemma_slope_terms(k: (int, int, int), t: int)
    requires
        coeffs_ok(k),
        0 <= t <= UNIT,
    ensures
        0 <= t * t <= UNIT * UNIT,
        -COEFF_BOUND * (UNIT * UNIT) <= k.0 * (t * t) <= COEFF_BOUND * (UNIT * UNIT),
        -COEFF_BOUND * (UNIT * UNIT) <= k.1 * (t * UNIT) <= COEFF_BOUND * (UNIT * UNIT),
        -COEFF_BOUND * (UNIT * UNIT) <= k.2 * (UNIT * UNIT) <= COEFF_BOUND * (UNIT * UNIT),
        3 * (k.0 * (t * t)) + 2 * (k.1 * (t * UNIT)) + k.2 * (UNIT * UNIT)
            == 3 * k.0 * t * t + 2 * k.1 * t * UNIT + k.2 * UNIT * UNIT,
        -6 * COEFF_BOUND <= slope_at(k, t) <= 6 * COEFF_BOUND,
{
    let u = UNIT as int;
    let b = COEFF_BOUND as int;
    let d = u * u;
    assert(0 <= t * t <= u * u) by (nonlinear_arith)
        requires 0 <= t <= u;
    assert(-b * d <= k.0 * (t * t) <= b * d) by (nonlinear_arith)
        requires -b <= k.0 <= b, 0 <= t * t <= d;
    assert(-b * d <= k.1 * (t * u) <= b * d) by (nonlinear_arith)
        requires -b <= k.1 <= b, 0 <= t <= u, d == u * u, u > 0;
    assert(-b * d <= k.2 * (u * u) <= b * d) by (nonlinear_arith)
        requires -b <= k.2 <= b, d == u * u;
    assert(3 * k.0 * t * t == 3 * (k.0 * (t * t))) by (nonlinear_arith);
    assert(2 * k.1 * t * u == 2 * (k.1 * (t * u))) by (nonlinear_arith);
    assert(k.2 * u * u == k.2 * (u * u)) by (nonlinear_arith);
    let n = 3 * k.0 * t * t + 2 * k.1 * t * u + k.2 * u * u;
    assert(-6 * b * d <= n <= 6 * b * d) by (nonlinear_arith)
        requires
            -b * d <= k.0 * (t * t) <= b * d,
            -b * d <= k.1 * (t * u) <= b * d,
            -b * d <= k.2 * (u * u) <= b * d,
            3 * k.0 * t * t == 3 * (k.0 * (t * t)),
            2 * k.1 * t * u == 2 * (k.1 * (t * u)),
            k.2 * u * u == k.2 * (u * u),
            n == 3 * k.0 * t * t + 2 * k.1 * t * u + k.2 * u * u;
    lemma_div_is_ordered(-6 * b * d, n, d);
    lemma_div_is_ordered(n, 6 * b * d, d);
    assert(-6 * b * d == d * (-6 * b)) by (nonlinear_arith);
    assert(6 * b * d == d * (6 * b)) by (nonlinear_arith);
    lemma_div_multiples_vanish(-6 * b, d);
    lemma_div_multiples_vanish(6 * b, d);
}

/// The polynomial of coefficients that sum to one is 0 at `t = 0` and 1 at
/// `t = 1`.
proof fn lemma_ends(k: (int, int, int))
    requires
        coeffs_ok(k),
    ensures
        cubic_at(k, 0) == 0,
        cubic_at(k, UNIT as int) == UNIT,
{
    let u = UNIT as int;
    let d = u * u * u;
    assert(k.0 * 0 * 0 * 0 + k.1 * 0 * 0 * u + k.2 * 0 * u * u == 0) by (nonlinear_arith);
    assert(k.0 * u * u * u + k.1 * u * u * u + k.2 * u * u * u == d * u) by (nonlinear_arith)
        requires k.0 + k.1 + k.2 == u, d == u * u * u;
    lemma_div_multiples_vanish(u, d);
}

fn cubic_value(a: i64, b: i64, c: i64, t: i64) -> (r: i64)
    requires
        coeffs_ok((a as int, b as int, c as int)),
        0 <= t <= UNIT,
    ensures
        r == cubic_at((a as int, b as int, c as int), t as int),
        -3 * COEFF_BOUND <= r <= 3 * COEFF_BOUND,
{
    proof {
        lemma_cubic_terms((a as int, b as int, c as int), t as int);
    }
    let u = UNIT as i128;
    let t = t as i128;
    let t2 = t * t;
    let t3 = t2 * t;
    let n = (a as i128) * t3 + (b as i128) * (t2 * u) + (c as i128) * (t * (u * u));
    floor_div(n, u * u * u) as i64
}

fn slope_value(a: i64, b: i64, c: i64, t: i64) -> (r: i64)
    requires
        coeffs_ok((a as int, b as int, c as int)),
        0 <= t <= UNIT,
    ensures
        r == slope_at((a as int, b as int, c as int), t as int),
        -6 * COEFF_BOUND <= r <= 6 * COEFF_BOUND,
{
    proof {
        lemma_slope_terms((a as int, b as int, c as int), t as int);
    }
    let u = UNIT as i128;
    let t = t as i128;
    let n = 3 * ((a as i128) * (t * t)) + 2 * ((b as i128) * (t * u)) + (c as i128) * (u * u);
    floor_div(n, u * u) as i64
}

} // verus!
