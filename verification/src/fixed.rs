//! Fixed-point arithmetic: a quantity `q` is held as the integer `q * UNIT`.

use vstd::prelude::*;
use crate::interval::{clamp_wide, clamped};

verus! {

/// Steps per whole unit. One step is a millionth.
pub const UNIT: i64 = 1_000_000;

/// `value` held to the range of an `i64`.
pub open spec fn saturated(value: int) -> int {
    clamped(value, i64::MIN as int, i64::MAX as int)
}

/// The quotient of `a` by a positive `b`, rounded toward zero.
pub open spec fn quotient(a: int, b: int) -> int
    recommends
        b > 0,
{
    if a >= 0 {
        a / b
    } else {
        -((-a) / b)
    }
}

/// The fixed-point product of two fixed-point numbers, rounded toward zero.
pub open spec fn product(a: int, b: int) -> int {
    quotient(a * b, UNIT as int)
}

/// The quotient rounded toward zero misses the exact quotient by less than one.
pub proof fn lemma_quotient_bounds(a: int, b: int)
    requires
        b > 0,
    ensures
        a >= 0 ==> a - b < quotient(a, b) * b <= a,
        a <= 0 ==> a <= quotient(a, b) * b < a + b,
        a == 0 ==> quotient(a, b) == 0,
{
    if a >= 0 {
        vstd::arithmetic::div_mod::lemma_fundamental_div_mod(a, b);
        vstd::arithmetic::div_mod::lemma_mod_pos_bound(a, b);
        assert((a / b) * b == b * (a / b)) by (nonlinear_arith);
    } else {
        vstd::arithmetic::div_mod::lemma_fundamental_div_mod(-a, b);
        vstd::arithmetic::div_mod::lemma_mod_pos_bound(-a, b);
        assert((-((-a) / b)) * b == -(b * ((-a) / b))) by (nonlinear_arith);
    }
}

/// Adds two numbers, holding the sum to the range of an `i64`.
pub fn saturating_sum(a: i64, b: i64) -> (r: i64)
    ensures
        r == saturated(a + b),
{
    clamp_wide(a as i128 + b as i128, i64::MIN, i64::MAX)
}

/// Multiplies two fixed-point numbers, holding the product to the range of an `i64`.
pub fn scale(value: i64, factor: i64) -> (r: i64)
    ensures
        r == saturated(product(value as int, factor as int)),
{
    assert(-0x4000_0000_0000_0000_0000_0000_0000_0000 <= value * factor
        <= 0x4000_0000_0000_0000_0000_0000_0000_0000) by (nonlinear_arith)
        requires
            -0x8000_0000_0000_0000 <= value <= 0x7fff_ffff_ffff_ffff,
            -0x8000_0000_0000_0000 <= factor <= 0x7fff_ffff_ffff_ffff,
    ;
    let wide: i128 = (value as i128 * factor as i128) / (UNIT as i128);
    clamp_wide(wide, i64::MIN, i64::MAX)
}

} // verus!
