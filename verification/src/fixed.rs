//! Fixed-point scalars: 64-bit integers counting millionths of a unit, with
//! truncated (round-toward-zero) division as the rounding rule of every
//! fixed-point operation.

use vstd::prelude::*;

verus! {

use vstd::arithmetic::div_mod::{
    lemma_div_is_ordered,
    lemma_div_is_ordered_by_denominator,
    lemma_div_multiples_vanish,
    lemma_div_pos_is_pos,
};
use vstd::arithmetic::mul::lemma_mul_is_commutative;

/// Fixed-point scale: one unit is `SCALE` millionths.
pub const SCALE: i64 = 1_000_000;

/// The angle pi in fixed-point radians, truncated so that `PI == 2 * HALF_PI`
/// holds exactly.
pub const PI: i64 = 3_141_592;

/// The angle pi/2 in fixed-point radians.
pub const HALF_PI: i64 = 1_570_796;

/// One full turn in fixed-point radians; angles are kept in `[0, TWO_PI)`.
pub const TWO_PI: i64 = 6_283_184;

/// Largest radius a shape may hold (one million units).
pub const R_LIMIT: i64 = 1_000_000_000_000;

/// Largest magnitude of a position coordinate or cursor coordinate.
pub const P_LIMIT: i64 = 1_000_000_000_000;

/// Largest number of circle points.
pub const MAX_POINTS: u32 = 16_777_216;

/// Largest viewport dimension in device pixels.
pub const DIM_LIMIT: i64 = 16_777_216;

/// Truncated division: the quotient rounded toward zero, as the `/` operator
/// of the executable code computes it. Meaningful for `b > 0`. (On
/// non-negative operands it agrees with the Euclidean `/` of specifications.)
pub open spec fn tdiv(a: int, b: int) -> int {
    if a >= 0 {
        a / b
    } else {
        -((-a) / b)
    }
}

/// Magnitude bound through truncated division: a bound `m * d` on the
/// numerator gives the bound `m` on the quotient.
pub proof fn lemma_tdiv_bound(a: int, d: int, m: int)
    requires
        d >= 1,
        m >= 0,
        -(m * d) <= a <= m * d,
    ensures
        -m <= tdiv(a, d) <= m,
{
    lemma_mul_is_commutative(m, d);
    lemma_div_multiples_vanish(m, d);
    if a >= 0 {
        lemma_div_is_ordered(a, m * d, d);
        lemma_div_pos_is_pos(a, d);
    } else {
        lemma_div_is_ordered(-a, m * d, d);
        lemma_div_pos_is_pos(-a, d);
    }
}

/// Truncated division by `d >= 1` does not grow the magnitude.
pub proof fn lemma_tdiv_shrinks(a: int, d: int)
    requires
        d >= 1,
    ensures
        a >= 0 ==> 0 <= tdiv(a, d) <= a,
        a < 0 ==> a <= tdiv(a, d) <= 0,
{
    if a >= 0 {
        lemma_div_is_ordered_by_denominator(a, 1, d);
        lemma_div_pos_is_pos(a, d);
    } else {
        lemma_div_is_ordered_by_denominator(-a, 1, d);
        lemma_div_pos_is_pos(-a, d);
    }
}

/// `a * b / d` rounded toward zero, computed without intermediate overflow.
pub fn mul_tdiv(a: i64, b: i64, d: i64) -> (r: i64)
    requires
        d >= 1,
        i64::MIN <= tdiv(a * b, d as int) <= i64::MAX,
    ensures
        r == tdiv(a * b, d as int),
{
    proof {
        assert(i128::MIN <= (a as int) * (b as int) <= i128::MAX) by (nonlinear_arith)
            requires
                i64::MIN <= a <= i64::MAX,
                i64::MIN <= b <= i64::MAX,
        ;
    }
    let wide: i128 = (a as i128) * (b as i128);
    let q: i128 = wide / (d as i128);
    q as i64
}

/// Fixed-point multiply: `a * b / SCALE`, rounded toward zero.
pub fn fp_mul(a: i64, b: i64) -> (r: i64)
    requires
        i64::MIN <= tdiv(a * b, SCALE as int) <= i64::MAX,
    ensures
        r == tdiv(a * b, SCALE as int),
{
    mul_tdiv(a, b, SCALE)
}

} // verus!
