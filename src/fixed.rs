//! Fixed-point representation of normalized quantities.
//!
//! Handle coordinates, curve parameters and progressions are fractions of a
//! segment. They are stored as integers counting millionths, so that `UNIT`
//! stands for `1.0` and `UNIT / 2` for `0.5`.

use vstd::prelude::*;
use vstd::arithmetic::div_mod::*;

verus! {

/// The fixed-point value of `1.0`: one million.
pub const UNIT: i64 = 1_000_000;

/// `n / d` rounded down, for a divisor of either sign.
pub open spec fn floor_quot(n: int, d: int) -> int {
    if d > 0 {
        n / d
    } else {
        (-n) / (-d)
    }
}

/// The exact product of two `i64` values.
pub(crate) fn mul_wide(a: i64, b: i64) -> (r: i128)
    ensures
        r == a * b,
        -0x4000_0000_0000_0000_0000_0000_0000_0000 <= r <= 0x4000_0000_0000_0000_0000_0000_0000_0000,
{
    proof {
        let (x, y) = (a as int, b as int);
        let m = 0x8000_0000_0000_0000int;
        assert(-m * m <= x * y <= m * m) by (nonlinear_arith)
            requires -m <= x <= m, -m <= y <= m;
        assert(m * m == 0x4000_0000_0000_0000_0000_0000_0000_0000int);
    }
    (a as i128) * (b as i128)
}

/// `n / d` rounded down.
pub(crate) fn floor_div(n: i128, d: i128) -> (r: i128)
    requires
        d > 0,
    ensures
        r == n / d,
        n >= 0 ==> 0 <= r <= n,
        n < 0 ==> n <= r < 0,
{
    proof {
        let (ni, di) = (n as int, d as int);
        lemma_fundamental_div_mod(ni, di);
        let (q, m) = (ni / di, ni % di);
        assert(ni >= 0 ==> 0 <= q <= ni) by (nonlinear_arith)
            requires ni == di * q + m, 0 <= m < di, di >= 1;
        assert(ni < 0 ==> ni <= q < 0) by (nonlinear_arith)
            requires ni == di * q + m, 0 <= m < di, di >= 1;
    }
    if n >= 0 {
        n / d
    } else {
        let m = -(n + 1);
        let q = m / d;
        proof {
            let (mi, di, qi) = (m as int, d as int, q as int);
            lemma_fundamental_div_mod(mi, di);
            assert(n == (-qi - 1) * di + (di - 1 - mi % di)) by (nonlinear_arith)
                requires
                    mi == di * (mi / di) + mi % di,
                    qi == mi / di,
                    n == -mi - 1;
            lemma_fundamental_div_mod_converse(n as int, di, -qi - 1, di - 1 - (mi % di));
        }
        -q - 1
    }
}

} // verus!
