//! Saturating and guarded integer operations used by the arithmetic opcodes.
//!
//! Addition, subtraction and multiplication saturate at the bounds of `i32`;
//! division and remainder yield 0 when the divisor is 0, and saturate on the
//! one overflowing case (`i32::MIN / -1`).

use vstd::prelude::*;

verus! {

/// Subtraction on `i32`, saturating at the type's bounds.
pub open spec fn sat_sub(a: i32, b: i32) -> i32 {
    if a - b > i32::MAX {
        i32::MAX
    } else if a - b < i32::MIN {
        i32::MIN
    } else {
        (a - b) as i32
    }
}

/// Compute `sat_sub` executably.
pub fn sat_sub_exec(a: i32, b: i32) -> (r: i32)
    ensures
        r == sat_sub(a, b),
{
    match a.checked_sub(b) {
        Some(v) => v,
        None => if b < 0 {
            i32::MAX
        } else {
            i32::MIN
        },
    }
}

/// Multiplication on `i32`, saturating at the type's bounds.
pub open spec fn sat_mul(a: i32, b: i32) -> i32 {
    if a * b > i32::MAX {
        i32::MAX
    } else if a * b < i32::MIN {
        i32::MIN
    } else {
        (a * b) as i32
    }
}

/// Compute `sat_mul` executably.
pub fn sat_mul_exec(a: i32, b: i32) -> (r: i32)
    ensures
        r == sat_mul(a, b),
{
    match a.checked_mul(b) {
        Some(v) => v,
        None => {
            proof {
                assert(a != 0 && b != 0);
            }
            if (a > 0) == (b > 0) {
                proof {
                    assert(a * b > i32::MAX) by (nonlinear_arith)
                        requires
                            a != 0 && b != 0 && ((a > 0) == (b > 0)),
                            a * b > i32::MAX || a * b < i32::MIN,
                    ;
                }
                i32::MAX
            } else {
                proof {
                    assert(a * b < i32::MIN) by (nonlinear_arith)
                        requires
                            a != 0 && b != 0 && ((a > 0) != (b > 0)),
                            a * b > i32::MAX || a * b < i32::MIN,
                    ;
                }
                i32::MIN
            }
        },
    }
}

/// Division truncated towards zero, as Rust's `/` computes it, made total:
/// 0 when the divisor is 0, and 0 on the one overflowing pair
/// (`i32::MIN`, -1), matching a checked division whose failure yields the
/// default value.
pub open spec fn div_op(y: i32, x: i32) -> i32 {
    if x == 0 || (y == i32::MIN && x == -1) {
        0
    } else {
        let a = y as int;
        let d = x as int;
        let q = if a == 0 {
            0
        } else if a > 0 && d > 0 {
            a / d
        } else if a < 0 && d < 0 {
            (a * -1) / (d * -1)
        } else if a < 0 {
            ((a * -1) / d) * -1
        } else {
            (a / (d * -1)) * -1
        };
        q as i32
    }
}

/// Remainder of truncated division, as Rust's `%` computes it, made total:
/// 0 when the divisor is 0 or on the overflowing pair (`i32::MIN`, -1).
pub open spec fn rem_op(y: i32, x: i32) -> i32 {
    if x == 0 || (y == i32::MIN && x == -1) {
        0
    } else {
        let a = y as int;
        let d = x as int;
        let q = if a == 0 {
            0
        } else if a > 0 && d > 0 {
            a % d
        } else if a < 0 && d < 0 {
            ((a * -1) % (d * -1)) * -1
        } else if a < 0 {
            ((a * -1) % d) * -1
        } else {
            a % (d * -1)
        };
        q as i32
    }
}

/// The quotient of a truncated division of `i32` values (other than
/// `i32::MIN / -1`) fits in `i32`.
proof fn lemma_trunc_div_in_range(y: i32, x: i32)
    requires
        x != 0,
        !(y == i32::MIN && x == -1),
    ensures
        ({
            let a = y as int;
            let d = x as int;
            let q = if a == 0 {
                0
            } else if a > 0 && d > 0 {
                a / d
            } else if a < 0 && d < 0 {
                (a * -1) / (d * -1)
            } else if a < 0 {
                ((a * -1) / d) * -1
            } else {
                (a / (d * -1)) * -1
            };
            i32::MIN <= q <= i32::MAX
        }),
{
    let a = y as int;
    let d = x as int;
    if a == 0 {
    } else if a > 0 && d > 0 {
        vstd::arithmetic::div_mod::lemma_div_pos_is_pos(a, d);
        vstd::arithmetic::div_mod::lemma_div_nonincreasing(a, d);
    } else if a < 0 && d < 0 {
        vstd::arithmetic::div_mod::lemma_div_pos_is_pos(a * -1, d * -1);
        vstd::arithmetic::div_mod::lemma_div_nonincreasing(a * -1, d * -1);
        if d == -1 {
            assert(a > i32::MIN);
        } else {
            assert(d * -1 >= 2);
            vstd::arithmetic::div_mod::lemma_div_is_ordered_by_denominator(a * -1, 2, d * -1);
            assert((a * -1) / 2 <= i32::MAX) by (nonlinear_arith)
                requires
                    a >= i32::MIN,
            ;
        }
    } else if a < 0 {
        vstd::arithmetic::div_mod::lemma_div_pos_is_pos(a * -1, d);
        vstd::arithmetic::div_mod::lemma_div_nonincreasing(a * -1, d);
    } else {
        vstd::arithmetic::div_mod::lemma_div_pos_is_pos(a, d * -1);
        vstd::arithmetic::div_mod::lemma_div_nonincreasing(a, d * -1);
    }
}

/// Compute `div_op` executably.
pub fn div_op_exec(y: i32, x: i32) -> (r: i32)
    ensures
        r == div_op(y, x),
{
    match y.checked_div(x) {
        Some(v) => v,
        None => {
            proof {
                if x != 0 && !(y == i32::MIN && x == -1) {
                    lemma_trunc_div_in_range(y, x);
                }
            }
            0
        },
    }
}

/// Compute `rem_op` executably.
pub fn rem_op_exec(y: i32, x: i32) -> (r: i32)
    ensures
        r == rem_op(y, x),
{
    match y.checked_rem(x) {
        Some(v) => v,
        None => 0,
    }
}

} // verus!
