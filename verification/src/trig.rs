//! Integer sine and cosine on fixed-point angles, via Bhaskara's rational
//! approximation. The values are exact multiples of a millionth, exact at the
//! quarter turns, and within two thousandths of the real functions elsewhere,
//! which is well under a pixel at typical viewport sizes.

use vstd::prelude::*;

verus! {

use crate::fixed::{HALF_PI, PI, SCALE, TWO_PI};
use vstd::arithmetic::div_mod::{
    lemma_div_is_ordered,
    lemma_div_multiples_vanish,
    lemma_div_pos_is_pos,
    lemma_mod_sub_multiples_vanish,
    lemma_small_mod,
};

/// The product `x * (PI - x)`, shared by numerator and denominator of the
/// approximation.
pub open spec fn sin_core(x: int) -> int {
    x * (PI - x)
}

/// Bhaskara's approximation of the sine on `[0, PI]`, scaled to fixed point:
/// `16 x (PI - x) SCALE / (5 PI^2 - 4 x (PI - x))`.
pub open spec fn sin_bhaskara(x: int) -> int {
    ((16 * sin_core(x)) * SCALE) / (5 * ((PI as int) * (PI as int)) - 4 * sin_core(x))
}

/// The sine of a fixed-point angle in `[0, TWO_PI)`.
pub open spec fn sin_of(x: int) -> int {
    if x <= PI {
        sin_bhaskara(x)
    } else {
        -sin_bhaskara(x - PI)
    }
}

/// The cosine of a fixed-point angle in `[0, TWO_PI)`, as the sine a quarter
/// turn ahead.
pub open spec fn cos_of(x: int) -> int {
    sin_of((x + HALF_PI) % (TWO_PI as int))
}

/// On `[0, PI]` the shared product is non-negative and at most a quarter of
/// `PI^2`, which keeps the approximation's denominator positive and its value
/// at most one.
proof fn lemma_sin_core_bounds(x: int)
    by (nonlinear_arith)
    requires
        0 <= x <= PI,
    ensures
        0 <= sin_core(x),
        4 * sin_core(x) <= (PI as int) * (PI as int),
{
}

/// The approximation stays in `[0, SCALE]` on `[0, PI]`.
pub proof fn lemma_bhaskara_range(x: int)
    requires
        0 <= x <= PI,
    ensures
        0 <= sin_bhaskara(x) <= SCALE,
{
    lemma_sin_core_bounds(x);
    let num = (16 * sin_core(x)) * SCALE;
    let den = 5 * ((PI as int) * (PI as int)) - 4 * sin_core(x);
    lemma_div_pos_is_pos(num, den);
    lemma_div_is_ordered(num, den * SCALE, den);
    lemma_div_multiples_vanish(SCALE as int, den);
}

/// The sine over `[0, PI]`, computed exactly as `sin_bhaskara` states it.
fn sin_half(x: i64) -> (r: i64)
    requires
        0 <= x <= PI,
    ensures
        r == sin_bhaskara(x as int),
        0 <= r <= SCALE,
{
    proof {
        lemma_sin_core_bounds(x as int);
        lemma_bhaskara_range(x as int);
    }
    let p: u128 = (x as u128) * ((PI - x) as u128);
    let num: u128 = (16 * p) * (SCALE as u128);
    let den: u128 = 5 * ((PI as u128) * (PI as u128)) - 4 * p;
    let q: u128 = num / den;
    q as i64
}

/// The sine of a fixed-point angle in `[0, TWO_PI)`.
pub fn sin_fixed(x: i64) -> (r: i64)
    requires
        0 <= x < TWO_PI,
    ensures
        r == sin_of(x as int),
        -SCALE <= r <= SCALE,
{
    if x <= PI {
        sin_half(x)
    } else {
        let v: i64 = sin_half(x - PI);
        -v
    }
}

/// The cosine of a fixed-point angle in `[0, TWO_PI)`.
pub fn cos_fixed(x: i64) -> (r: i64)
    requires
        0 <= x < TWO_PI,
    ensures
        r == cos_of(x as int),
        -SCALE <= r <= SCALE,
{
    let shifted: i64 = x + HALF_PI;
    let y: i64 = if shifted >= TWO_PI {
        shifted - TWO_PI
    } else {
        shifted
    };
    proof {
        if shifted >= TWO_PI {
            lemma_mod_sub_multiples_vanish(shifted as int, TWO_PI as int);
            lemma_small_mod((shifted - TWO_PI) as nat, TWO_PI as nat);
        } else {
            lemma_small_mod(shifted as nat, TWO_PI as nat);
        }
    }
    sin_fixed(y)
}

/// The sine and cosine at the quarter turns, where the approximation is
/// exact.
pub proof fn lemma_quarter_turns()
    ensures
        sin_of(0) == 0,
        sin_of(HALF_PI as int) == SCALE,
        sin_of(PI as int) == 0,
        sin_of((PI + HALF_PI) as int) == -SCALE,
        cos_of(0) == SCALE,
        cos_of(HALF_PI as int) == 0,
        cos_of(PI as int) == -SCALE,
        cos_of((PI + HALF_PI) as int) == 0,
{
    lemma_small_mod((HALF_PI) as nat, TWO_PI as nat);
    lemma_small_mod((PI) as nat, TWO_PI as nat);
    lemma_small_mod((PI + HALF_PI) as nat, TWO_PI as nat);
    lemma_small_mod(0nat, TWO_PI as nat);
    assert((((PI + HALF_PI) + HALF_PI) as int) % (TWO_PI as int) == 0) by {
        lemma_mod_sub_multiples_vanish((TWO_PI) as int, TWO_PI as int);
        lemma_small_mod(0nat, TWO_PI as nat);
    }
    assert(sin_core(HALF_PI as int) == 2467400073616) by (nonlinear_arith);
    let den = 5 * ((PI as int) * (PI as int)) - 4 * sin_core(HALF_PI as int);
    assert((PI as int) * (PI as int) == 9869600294464) by (nonlinear_arith);
    assert(den == 39478401177856);
    lemma_div_multiples_vanish(SCALE as int, den);
    assert(den * SCALE == 39478401177856000000) by (nonlinear_arith)
        requires
            den == 39478401177856,
    ;
    assert((16 * sin_core(HALF_PI as int)) * SCALE == 39478401177856000000) by (nonlinear_arith);
    assert(sin_bhaskara(HALF_PI as int) == SCALE);
}

} // verus!
