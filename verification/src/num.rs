//! Exact integer division helpers.
//!
//! The simulation needs two different roundings on signed values: flooring
//! division (for mapping world coordinates onto chunk coordinates, where
//! negative coordinates must round toward negative infinity) and truncating
//! division (for splitting a velocity into per-tick and per-substep shares,
//! which rounds toward zero when the fractional arithmetic is quantised).
//! In ghost code `/` and `%` are already Euclidean, which for a positive
//! divisor coincides with flooring; these wrappers give the executable code
//! the same meaning.

use vstd::prelude::*;
use vstd::arithmetic::div_mod::{
    lemma_fundamental_div_mod,
    lemma_fundamental_div_mod_converse,
    lemma_div_nonincreasing,
    lemma_div_pos_is_pos,
};

verus! {

/// Truncating (round toward zero) quotient, the rounding of Rust's `/`.
pub open spec fn div_trunc(a: int, b: int) -> int {
    if a >= 0 {
        a / b
    } else {
        -((-a) / b)
    }
}

/// Flooring quotient of `a` by a positive `b`; equal to the Euclidean
/// quotient `a / b` of ghost arithmetic.
pub fn div_floor(a: i64, b: i64) -> (q: i64)
    requires
        1 <= b,
        i64::MIN < a,
    ensures
        q == a as int / b as int,
{
    let bu: u64 = b as u64;
    if a >= 0 {
        let qu: u64 = (a as u64) / bu;
        proof {
            lemma_fundamental_div_mod(a as int, b as int);
        }
        qu as i64
    } else {
        let na: u64 = (-a) as u64;
        let q0: u64 = na / bu;
        let r0: u64 = na % bu;
        if r0 == 0 {
            proof {
                lemma_fundamental_div_mod(na as int, bu as int);
                assert((-(q0 as int)) * (b as int) == -((b as int) * (q0 as int)))
                    by (nonlinear_arith);
                lemma_fundamental_div_mod_converse(a as int, b as int, -(q0 as int), 0);
            }
            -(q0 as i64)
        } else {
            proof {
                lemma_fundamental_div_mod(na as int, bu as int);
                assert((-(q0 as int) - 1) * (b as int) == -((b as int) * (q0 as int)) - b)
                    by (nonlinear_arith);
                lemma_fundamental_div_mod_converse(
                    a as int,
                    b as int,
                    -(q0 as int) - 1,
                    b - r0,
                );
            }
            -(q0 as i64) - 1
        }
    }
}

/// Flooring remainder of `a` by a positive `b`; equal to the Euclidean
/// remainder `a % b` of ghost arithmetic, always in `[0, b)`.
pub fn rem_floor(a: i64, b: i64) -> (r: i64)
    requires
        1 <= b,
        i64::MIN < a,
    ensures
        r == a as int % b as int,
        0 <= r < b,
{
    let bu: u64 = b as u64;
    if a >= 0 {
        let ru: u64 = (a as u64) % bu;
        proof {
            lemma_fundamental_div_mod(a as int, b as int);
        }
        ru as i64
    } else {
        let na: u64 = (-a) as u64;
        let q0: u64 = na / bu;
        let r0: u64 = na % bu;
        if r0 == 0 {
            proof {
                lemma_fundamental_div_mod(na as int, bu as int);
                assert((-(q0 as int)) * (b as int) == -((b as int) * (q0 as int)))
                    by (nonlinear_arith);
                lemma_fundamental_div_mod_converse(a as int, b as int, -(q0 as int), 0);
            }
            0
        } else {
            proof {
                lemma_fundamental_div_mod(na as int, bu as int);
                assert((-(q0 as int) - 1) * (b as int) == -((b as int) * (q0 as int)) - b)
                    by (nonlinear_arith);
                lemma_fundamental_div_mod_converse(
                    a as int,
                    b as int,
                    -(q0 as int) - 1,
                    b - r0,
                );
            }
            b - (r0 as i64)
        }
    }
}

/// Truncating quotient of `a` by a positive `b`, as Rust's `/` rounds.
pub fn div_toward_zero(a: i64, b: i64) -> (q: i64)
    requires
        1 <= b,
        i64::MIN < a,
    ensures
        q == div_trunc(a as int, b as int),
        a >= 0 ==> 0 <= q <= a,
        a < 0 ==> a <= q <= 0,
{
    let bu: u64 = b as u64;
    if a >= 0 {
        let qu: u64 = (a as u64) / bu;
        proof {
            lemma_div_pos_is_pos(a as int, b as int);
            lemma_div_nonincreasing(a as int, b as int);
        }
        qu as i64
    } else {
        let na: u64 = (-a) as u64;
        let q0: u64 = na / bu;
        proof {
            lemma_div_pos_is_pos(na as int, bu as int);
            lemma_div_nonincreasing(na as int, bu as int);
        }
        -(q0 as i64)
    }
}

/// Ceiling quotient of a non-negative `a` by a positive `b`.
pub fn div_ceil_nonneg(a: i64, b: i64) -> (q: i64)
    requires
        0 <= a,
        1 <= b,
        a + b <= i64::MAX,
    ensures
        q == (a + b - 1) as int / b as int,
        0 <= q,
{
    let au: u64 = a as u64;
    let bu: u64 = b as u64;
    let qu: u64 = (au + bu - 1) / bu;
    proof {
        lemma_div_pos_is_pos((a + b - 1) as int, b as int);
    }
    qu as i64
}

} // verus!
