//! Percentage conversion for brightness values.
//!
//! Both directions use exact integer arithmetic with the quotient truncated
//! toward zero, so converting a value to a percentage and back is lossy:
//! the result can fall short of the original, it never exceeds it.

use vstd::prelude::*;
use vstd::arithmetic::div_mod::{
    lemma_div_by_multiple, lemma_div_is_ordered, lemma_div_pos_is_pos,
    lemma_fundamental_div_mod, lemma_fundamental_div_mod_converse,
    lemma_mod_division_less_than_divisor,
};
use vstd::arithmetic::mul::{lemma_mul_inequality, lemma_mul_nonnegative};

verus! {

/// Division truncated toward zero, the rounding both conversions share.
pub open spec fn spec_div_trunc(a: int, b: int) -> int
    recommends
        b > 0,
{
    if a >= 0 {
        a / b
    } else {
        -((-a) / b)
    }
}

/// `floor(value / total * 100)`, truncated toward zero.
pub open spec fn spec_percentage_of(total: int, value: int) -> int
    recommends
        total > 0,
{
    spec_div_trunc(value * 100, total)
}

/// `floor(total / 100 * percentage)`, truncated toward zero. The divisor
/// here is the constant 100, so a zero total is fine and yields zero.
pub open spec fn spec_value_from_percentage(total: int, percentage: int) -> int {
    spec_div_trunc(total * percentage, 100)
}

/// The percentage that `value` is of `total`.
///
/// `total` must be positive: a total of zero would divide by zero. The result
/// bound is a machine limit; it holds whenever `0 <= value <= total`.
pub fn from_total_and_value(total: i32, value: i32) -> (r: i32)
    requires
        total > 0,
        i32::MIN <= spec_percentage_of(total as int, value as int) <= i32::MAX,
    ensures
        r as int == spec_percentage_of(total as int, value as int),
{
    let t = total as u64;
    if value >= 0 {
        let q = (value as u64 * 100) / t;
        proof {
            lemma_mul_nonnegative(value as int, 100);
        }
        q as i32
    } else {
        let m = (-(value as i64)) as u64;
        let q = (m * 100) / t;
        proof {
            assert(m as int * 100 == -(value as int * 100)) by (nonlinear_arith)
                requires
                    m as int == -(value as int),
            ;
            assert(q <= 0x8000_0000u64);
        }
        (-(q as i64)) as i32
    }
}

/// The brightness value that `percentage` of `total` denotes. A zero total
/// yields zero.
///
/// A percentage above 100 is permitted and yields a value above `total`;
/// the brightness setter's upper clamp is the only backstop.
pub fn to_value(total: i32, percentage: i8) -> (r: i32)
    requires
        total >= 0,
        i32::MIN <= spec_value_from_percentage(total as int, percentage as int) <= i32::MAX,
    ensures
        r as int == spec_value_from_percentage(total as int, percentage as int),
{
    if percentage >= 0 {
        proof {
            assert(total as int * percentage as int <= 0x7fff_ffff * 128) by (nonlinear_arith)
                requires
                    0 <= total as int <= 0x7fff_ffff,
                    0 <= percentage as int <= 128,
            ;
            lemma_mul_nonnegative(total as int, percentage as int);
        }
        let q = (total as u64 * percentage as u64) / 100;
        q as i32
    } else {
        let m = (-(percentage as i32)) as u64;
        proof {
            assert(total as int * m as int <= 0x7fff_ffff * 128) by (nonlinear_arith)
                requires
                    0 <= total as int <= 0x7fff_ffff,
                    0 <= m as int <= 128,
            ;
            assert(total as int * m as int == -(total as int * percentage as int))
                by (nonlinear_arith)
                requires
                    m as int == -(percentage as int),
            ;
            lemma_mul_nonnegative(total as int, m as int);
        }
        let q = (total as u64 * m) / 100;
        proof {
            assert(q <= 0x8000_0000u64);
        }
        (-(q as i64)) as i32
    }
}

/// The same conversion as [`from_total_and_value`], under the name the
/// command surface uses.
pub fn calculate_percentage(total: i32, value: i32) -> (r: i32)
    requires
        total > 0,
        i32::MIN <= spec_percentage_of(total as int, value as int) <= i32::MAX,
    ensures
        r as int == spec_percentage_of(total as int, value as int),
{
    from_total_and_value(total, value)
}

/// The same conversion as [`to_value`], for a percentage wider than an `i8`
/// (action strings carry the percentage as a full integer).
pub fn calculate_value_from_percentage(total: i32, percentage: i32) -> (r: i32)
    requires
        total >= 0,
        i32::MIN <= spec_value_from_percentage(total as int, percentage as int) <= i32::MAX,
    ensures
        r as int == spec_value_from_percentage(total as int, percentage as int),
{
    if percentage >= 0 {
        proof {
            assert(total as int * percentage as int <= 0x7fff_ffff * 0x7fff_ffff)
                by (nonlinear_arith)
                requires
                    0 <= total as int <= 0x7fff_ffff,
                    0 <= percentage as int <= 0x7fff_ffff,
            ;
            lemma_mul_nonnegative(total as int, percentage as int);
        }
        let q = (total as u64 * percentage as u64) / 100;
        q as i32
    } else {
        let m = (-(percentage as i64)) as u64;
        proof {
            assert(total as int * m as int <= 0x7fff_ffff * 0x8000_0000) by (nonlinear_arith)
                requires
                    0 <= total as int <= 0x7fff_ffff,
                    0 <= m as int <= 0x8000_0000,
            ;
            assert(total as int * m as int == -(total as int * percentage as int))
                by (nonlinear_arith)
                requires
                    m as int == -(percentage as int),
            ;
            lemma_mul_nonnegative(total as int, m as int);
        }
        let q = (total as u64 * m) / 100;
        proof {
            assert(q <= 0x8000_0000u64);
        }
        (-(q as i64)) as i32
    }
}

/// Law: for `total > 0` and `value` in `[0, total]`, converting to a
/// percentage and back never yields more than `value`, more than `total`,
/// or less than zero; the percentage itself stays in `[0, 100]`.
pub proof fn lemma_percentage_round_trip_bounds(total: int, value: int)
    requires
        total > 0,
        0 <= value <= total,
    ensures
        ({
            let p = spec_percentage_of(total, value);
            let back = spec_value_from_percentage(total, p);
            0 <= p <= 100 && 0 <= back <= value && back <= total
        }),
{
    let a = value * 100;
    lemma_mul_nonnegative(value, 100);
    let p = a / total;
    lemma_div_pos_is_pos(a, total);
    lemma_mul_inequality(value, total, 100);
    lemma_div_is_ordered(a, total * 100, total);
    lemma_div_by_multiple(100, total);
    assert(total * 100 == 100 * total);
    assert(p <= 100);
    let b = total * p;
    lemma_mul_nonnegative(total, p);
    let back = b / 100;
    lemma_div_pos_is_pos(b, 100);
    lemma_fundamental_div_mod(a, total);
    lemma_mod_division_less_than_divisor(a, total);
    assert(b <= a);
    lemma_div_is_ordered(b, a, 100);
    lemma_div_by_multiple(value, 100);
    assert(value * 100 == 100 * value);
    assert(back <= value);
}

/// Law: when moreover `(value * 100) % total <= 100`, the round trip is
/// within 1 of `value` (truncation tolerance). Without that bound the loss
/// can reach `total / 100`.
pub proof fn lemma_percentage_round_trip_within_one(total: int, value: int)
    requires
        total > 0,
        0 <= value <= total,
        (value * 100) % total <= 100,
    ensures
        ({
            let back = spec_value_from_percentage(total, spec_percentage_of(total, value));
            value - 1 <= back <= value && 0 <= back <= total
        }),
{
    lemma_percentage_round_trip_bounds(total, value);
    let a = value * 100;
    lemma_mul_nonnegative(value, 100);
    let p = a / total;
    lemma_div_pos_is_pos(a, total);
    let r = a % total;
    lemma_fundamental_div_mod(a, total);
    lemma_mod_division_less_than_divisor(a, total);
    let b = total * p;
    lemma_mul_nonnegative(total, p);
    assert(b == a - r);
    if r == 0 {
        lemma_div_by_multiple(value, 100);
        assert(a == value * 100 == 100 * value);
        assert(b / 100 == value);
    } else {
        assert(b == (value - 1) * 100 + (100 - r)) by {
            assert((value - 1) * 100 == value * 100 - 100);
        }
        lemma_fundamental_div_mod_converse(b, 100, value - 1, 100 - r);
        assert(b / 100 == value - 1);
    }
}

} // verus!
