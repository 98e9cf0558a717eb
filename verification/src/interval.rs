//! Keeping a number inside a closed interval, either by clamping it to the
//! nearer end or by wrapping it around the interval like an angle.

use vstd::prelude::*;
use vstd::arithmetic::div_mod::{
    lemma_mod_multiples_vanish, lemma_mod_pos_bound,
    lemma_mod_sub_multiples_vanish, lemma_small_mod,
};

verus! {

/// Largest magnitude that the wide entry points accept. It leaves room, inside
/// an `i128`, for the difference between such a number and any `i64` bound.
pub(crate) const WIDE_LIMIT: i128 = 0x100_0000_0000_0000_0000_0000_0000_0000;

/// `value` raised to at least `lo`, then lowered to at most `hi`.
///
/// For `lo <= hi` this is the point of `[lo, hi]` nearest to `value`.
pub open spec fn clamped(value: int, lo: int, hi: int) -> int {
    let raised = if value < lo { lo } else { value };
    if raised > hi {
        hi
    } else {
        raised
    }
}

/// How far `num` lies outside `[min, max]`; zero inside.
pub open spec fn overshoot(num: int, min: int, max: int) -> nat {
    if num < min {
        (min - num) as nat
    } else if num > max {
        (num - max) as nat
    } else {
        0
    }
}

/// `num` carried into `[min, max]` by reflections: a number below `min`
/// re-enters from `max`, a number above `max` re-enters from `min`, each time
/// by the amount it overshot, until it lies inside.
///
/// Meaningful for `min < max`; otherwise `num` is returned as it is.
pub open spec fn wrapped(num: int, min: int, max: int) -> int
    decreases overshoot(num, min, max),
{
    if min >= max {
        num
    } else if num < min {
        wrapped(max - (min - num), min, max)
    } else if num > max {
        wrapped(min - (max - num), min, max)
    } else {
        num
    }
}

/// The number of reflections that `wrapped` performs on `num`.
pub open spec fn reflections(num: int, min: int, max: int) -> nat
    decreases overshoot(num, min, max),
{
    if min >= max {
        0
    } else if num < min {
        1 + reflections(max - (min - num), min, max)
    } else if num > max {
        1 + reflections(min - (max - num), min, max)
    } else {
        0
    }
}

/// A clamped value lies in the interval, and a value of the interval is left alone.
pub proof fn lemma_clamped_range(value: int, lo: int, hi: int)
    requires
        lo <= hi,
    ensures
        lo <= clamped(value, lo, hi) <= hi,
        lo <= value <= hi ==> clamped(value, lo, hi) == value,
{
}

/// Clamping twice is clamping once.
pub proof fn lemma_clamped_idempotent(value: int, lo: int, hi: int)
    ensures
        clamped(clamped(value, lo, hi), lo, hi) == clamped(value, lo, hi),
{
}

/// Clamping keeps the order of two numbers.
pub proof fn lemma_clamped_monotonic(a: int, b: int, lo: int, hi: int)
    requires
        a <= b,
    ensures
        clamped(a, lo, hi) <= clamped(b, lo, hi),
{
}

/// Wrapping moves a number by a whole count of interval lengths: upward for a
/// number below the interval, downward for one above it. The count is the
/// number of reflections.
pub proof fn lemma_wrapped_shift(num: int, min: int, max: int)
    requires
        min < max,
    ensures
        num < min ==> wrapped(num, min, max) == num + reflections(num, min, max) * (max - min),
        num > max ==> wrapped(num, min, max) == num - reflections(num, min, max) * (max - min),
        min <= num <= max ==> wrapped(num, min, max) == num && reflections(num, min, max) == 0,
    decreases overshoot(num, min, max),
{
    let period = max - min;
    if num < min {
        let next = max - (min - num);
        lemma_wrapped_shift(next, min, max);
        assert(next <= max);
        let k = reflections(next, min, max);
        assert((1 + k) * period == period + k * period) by (nonlinear_arith);
    } else if num > max {
        let next = min - (max - num);
        lemma_wrapped_shift(next, min, max);
        assert(next >= min);
        let k = reflections(next, min, max);
        assert((1 + k) * period == period + k * period) by (nonlinear_arith);
    }
}

/// A wrapped number lies in the interval. One that came from below never lands
/// on `max`, and one that came from above never lands on `min`.
pub proof fn lemma_wrapped_range(num: int, min: int, max: int)
    requires
        min < max,
    ensures
        min <= wrapped(num, min, max) <= max,
        num < min ==> wrapped(num, min, max) < max,
        num > max ==> wrapped(num, min, max) > min,
    decreases overshoot(num, min, max),
{
    if num < min {
        lemma_wrapped_range(max - (min - num), min, max);
    } else if num > max {
        lemma_wrapped_range(min - (max - num), min, max);
    }
}

/// Wrapping ends after a bounded number of reflections: each one brings the
/// number a whole interval length nearer, so their count is the overshoot
/// divided by the interval length, rounded up.
pub proof fn lemma_reflections_bounded(num: int, min: int, max: int)
    requires
        min < max,
    ensures
        overshoot(num, min, max) == 0 ==> reflections(num, min, max) == 0,
        overshoot(num, min, max) > 0 ==> (reflections(num, min, max) - 1) * (max - min)
            < overshoot(num, min, max) <= reflections(num, min, max) * (max - min),
    decreases overshoot(num, min, max),
{
    let period = max - min;
    if num < min {
        let next = max - (min - num);
        lemma_reflections_bounded(next, min, max);
        let k = reflections(next, min, max) as int;
        assert((1 + k) * period == period + k * period) by (nonlinear_arith);
        assert((k - 1) * period == k * period - period) by (nonlinear_arith);
        assert(0 * period == 0);
    } else if num > max {
        let next = min - (max - num);
        lemma_reflections_bounded(next, min, max);
        let k = reflections(next, min, max) as int;
        assert((1 + k) * period == period + k * period) by (nonlinear_arith);
        assert((k - 1) * period == k * period - period) by (nonlinear_arith);
        assert(0 * period == 0);
    }
}

/// A wrapped number differs from the number it came from by a multiple of the
/// interval length.
pub proof fn lemma_wrapped_congruent(num: int, min: int, max: int)
    requires
        min < max,
    ensures
        (wrapped(num, min, max) - num) % (max - min) == 0,
{
    let period = max - min;
    let k = reflections(num, min, max) as int;
    lemma_wrapped_shift(num, min, max);
    if num < min {
        lemma_mod_multiples_vanish(k, 0, period);
        assert(period * k + 0 == k * period) by (nonlinear_arith);
    } else if num > max {
        lemma_mod_multiples_vanish(-k, 0, period);
        assert(period * (-k) + 0 == -(k * period)) by (nonlinear_arith);
    }
    lemma_small_mod(0, period as nat);
}

/// Wrapping an already wrapped number changes nothing.
pub proof fn lemma_wrapped_idempotent(num: int, min: int, max: int)
    requires
        min < max,
    ensures
        wrapped(wrapped(num, min, max), min, max) == wrapped(num, min, max),
{
    lemma_wrapped_range(num, min, max);
}

/// The closed form of wrapping from above: the remainder of the overshoot,
/// counted from `min`, with a remainder of zero standing for `max`.
pub proof fn lemma_wrapped_above(num: int, min: int, max: int)
    requires
        min < max,
        num > max,
    ensures
        wrapped(num, min, max) == (if (num - max) % (max - min) == 0 {
            max
        } else {
            min + (num - max) % (max - min)
        }),
    decreases num - max,
{
    let period = max - min;
    let over = num - max;
    let next = min - (max - num);
    assert(wrapped(num, min, max) == wrapped(next, min, max));
    if over < period {
        assert(wrapped(next, min, max) == next);
        assert(over % period == over) by {
            lemma_small_mod(over as nat, period as nat);
        }
    } else if over == period {
        assert(wrapped(next, min, max) == next);
        assert(over % period == 0) by {
            lemma_mod_sub_multiples_vanish(over, period);
            lemma_small_mod(0, period as nat);
        }
    } else {
        lemma_wrapped_above(next, min, max);
        assert((next - max) % period == over % period) by {
            lemma_mod_sub_multiples_vanish(over, period);
            assert(next - max == -period + over);
        }
    }
}

/// The closed form of wrapping from below: the remainder of the overshoot,
/// counted back from `max`, with a remainder of zero standing for `min`.
pub proof fn lemma_wrapped_below(num: int, min: int, max: int)
    requires
        min < max,
        num < min,
    ensures
        wrapped(num, min, max) == (if (min - num) % (max - min) == 0 {
            min
        } else {
            max - (min - num) % (max - min)
        }),
    decreases min - num,
{
    let period = max - min;
    let under = min - num;
    let next = max - (min - num);
    assert(wrapped(num, min, max) == wrapped(next, min, max));
    if under < period {
        assert(wrapped(next, min, max) == next);
        assert(under % period == under) by {
            lemma_small_mod(under as nat, period as nat);
        }
    } else if under == period {
        assert(wrapped(next, min, max) == next);
        assert(under % period == 0) by {
            lemma_mod_sub_multiples_vanish(under, period);
            lemma_small_mod(0, period as nat);
        }
    } else {
        lemma_wrapped_below(next, min, max);
        assert((min - next) % period == under % period) by {
            lemma_mod_sub_multiples_vanish(under, period);
            assert(min - next == -period + under);
        }
    }
}

/// Clamps a wide number into an `i64` interval.
pub fn clamp_wide(value: i128, lo: i64, hi: i64) -> (r: i64)
    ensures
        r == clamped(value as int, lo as int, hi as int),
{
    let raised: i64 = if value < lo as i128 {
        lo
    } else if value > i64::MAX as i128 {
        i64::MAX
    } else {
        value as i64
    };
    if raised > hi {
        hi
    } else {
        raised
    }
}

/// Clamps `value` into `[lo, hi]`.
pub fn clamp(value: i64, lo: i64, hi: i64) -> (r: i64)
    ensures
        r == clamped(value as int, lo as int, hi as int),
{
    clamp_wide(value as i128, lo, hi)
}

/// Wraps a wide number into `[min, max]`, in constant time.
pub(crate) fn wrap_wide(num: i128, min: i64, max: i64) -> (r: i64)
    requires
        min < max,
        -WIDE_LIMIT <= num <= WIDE_LIMIT,
    ensures
        r == wrapped(num as int, min as int, max as int),
{
    let period: i128 = max as i128 - min as i128;
    if num > max as i128 {
        let over: i128 = (num - max as i128) % period;
        proof {
            lemma_wrapped_above(num as int, min as int, max as int);
            lemma_mod_pos_bound(num - max, period as int);
        }
        if over == 0 {
            max
        } else {
            (min as i128 + over) as i64
        }
    } else if num < min as i128 {
        let under: i128 = (min as i128 - num) % period;
        proof {
            lemma_wrapped_below(num as int, min as int, max as int);
            lemma_mod_pos_bound(min - num, period as int);
        }
        if under == 0 {
            min
        } else {
            (max as i128 - under) as i64
        }
    } else {
        num as i64
    }
}

/// Wraps `num` into `[min, max]`, in constant time.
pub fn wrap(num: i64, min: i64, max: i64) -> (r: i64)
    requires
        min < max,
    ensures
        r == wrapped(num as int, min as int, max as int),
        min <= r <= max,
{
    proof {
        lemma_wrapped_range(num as int, min as int, max as int);
    }
    wrap_wide(num as i128, min, max)
}

} // verus!
