//! Interest accrual for the lending contract.
//!
//! `repayment = principal + floor(principal * apr * duration /
//! (APR_PRECISION * BLOCKS_PER_YEAR))`.  The interest term is computed on
//! a precision-preserving path that scales the numerator by `10^18`
//! before dividing, falling back to the plain division exactly when the
//! scaled multiply would overflow (the magnitudes are then already too
//! large for the rounding to matter).  Every multiplication and the final
//! addition are checked: an overflow is a typed failure, never a silent
//! wraparound.

use vstd::prelude::*;

use crate::errors::CoreError;
use vstd::arithmetic::div_mod::{lemma_div_denominator, lemma_div_multiples_vanish_quotient};
use vstd::arithmetic::mul::lemma_mul_is_commutative;

verus! {

/// Scale factor giving 18 extra decimal digits of precision to the
/// interest division, preventing rounding to zero on small loans.
pub const PRECISION_MULTIPLIER: u128 = 1_000_000_000_000_000_000;

/// APR is expressed with 4 implied decimal digits: 10000 = 100.00%.
pub const APR_PRECISION: u128 = 10_000;

/// Number of blocks in one year.
pub const BLOCKS_PER_YEAR: u128 = 52_560;

/// The mathematical interest amount: the floored quotient of
/// `principal * apr * duration` by `APR_PRECISION * BLOCKS_PER_YEAR`.
pub open spec fn interest_amount(principal: int, apr: int, duration: int) -> int {
    (principal * apr * duration) / (APR_PRECISION as int * BLOCKS_PER_YEAR as int)
}

/// Whether the checked products of the interest formula fit the 128-bit
/// range.
pub open spec fn interest_computable(principal: int, apr: int, duration: int) -> bool {
    principal * apr <= u128::MAX && principal * apr * duration <= u128::MAX
}

/// Scaling numerator and denominator of a floored division by the same
/// positive factor leaves the quotient unchanged; hence the
/// precision-scaled path computes exactly the plain quotient.
proof fn lemma_scaled_division_exact(n: int, d: int, s: int)
    requires
        0 <= n,
        0 < d,
        0 < s,
    ensures
        ((n * s) / d) / s == n / d,
{
    lemma_mul_is_commutative(n, s);
    lemma_mul_is_commutative(d, s);
    lemma_div_denominator(n * s, d, s);
    lemma_div_multiples_vanish_quotient(s, n, d);
}

/// Interest with high precision.
///
/// Returns `floor(principal * apr * duration / (APR_PRECISION *
/// BLOCKS_PER_YEAR))`, failing exactly when one of the two checked
/// products `principal * apr` and `(principal * apr) * duration`
/// overflows the 128-bit range.  The scaled path and the fallback path
/// agree with the plain floored quotient, so the result is the same
/// deterministic value on either path.
pub fn calculate_interest_precise(principal: u128, apr: u128, duration: u128) -> (r: Result<
    u128,
    CoreError,
>)
    ensures
        match r {
            Ok(i) => interest_computable(principal as int, apr as int, duration as int) && i
                == interest_amount(principal as int, apr as int, duration as int),
            Err(e) => !interest_computable(principal as int, apr as int, duration as int) && e
                == CoreError::InterestOverflow,
        },
        r is Ok ==> (principal * apr * duration >= APR_PRECISION * BLOCKS_PER_YEAR
            ==> r.unwrap() >= 1),
{
    let first = match principal.checked_mul(apr) {
        Some(x) => x,
        None => {
            return Err(CoreError::InterestOverflow);
        },
    };
    let numerator_part = match first.checked_mul(duration) {
        Some(x) => x,
        None => {
            return Err(CoreError::InterestOverflow);
        },
    };
    let denominator = APR_PRECISION * BLOCKS_PER_YEAR;
    if let Some(scaled_numerator) = numerator_part.checked_mul(PRECISION_MULTIPLIER) {
        let scaled_interest = scaled_numerator / denominator;
        proof {
            lemma_scaled_division_exact(
                numerator_part as int,
                denominator as int,
                PRECISION_MULTIPLIER as int,
            );
        }
        Ok(scaled_interest / PRECISION_MULTIPLIER)
    } else {
        Ok(numerator_part / denominator)
    }
}

/// Full repayment: principal plus accrued interest, with the final
/// addition checked as well.
pub fn calculate_repayment(principal: u128, apr: u128, duration: u128) -> (r: Result<
    u128,
    CoreError,
>)
    ensures
        match r {
            Ok(v) => {
                &&& interest_computable(principal as int, apr as int, duration as int)
                &&& principal + interest_amount(principal as int, apr as int, duration as int)
                    <= u128::MAX
                &&& v == principal + interest_amount(
                    principal as int,
                    apr as int,
                    duration as int,
                )
            },
            Err(e) => {
                &&& e == CoreError::InterestOverflow
                &&& (!interest_computable(principal as int, apr as int, duration as int)
                    || principal + interest_amount(principal as int, apr as int, duration as int)
                    > u128::MAX)
            },
        },
        r is Ok ==> (principal * apr * duration >= APR_PRECISION * BLOCKS_PER_YEAR
            ==> r.unwrap() > principal),
{
    let interest = match calculate_interest_precise(principal, apr, duration) {
        Ok(i) => i,
        Err(e) => {
            return Err(e);
        },
    };
    match principal.checked_add(interest) {
        Some(v) => Ok(v),
        None => Err(CoreError::InterestOverflow),
    }
}

/// Interest monotonicity: whenever the formula's products fit and the
/// numerator reaches the denominator, the accrued interest is strictly
/// positive, so the repayment strictly exceeds the principal.  (With a
/// numerator below `APR_PRECISION * BLOCKS_PER_YEAR` the floored interest
/// is zero, so the bound on the numerator cannot be dropped.)
pub proof fn lemma_interest_positive(principal: int, apr: int, duration: int)
    requires
        principal >= 0,
        apr >= 0,
        duration >= 0,
        principal * apr * duration >= APR_PRECISION * BLOCKS_PER_YEAR,
    ensures
        interest_amount(principal, apr, duration) >= 1,
        principal + interest_amount(principal, apr, duration) > principal,
{
    let n = principal * apr * duration;
    let d = APR_PRECISION as int * BLOCKS_PER_YEAR as int;
    assert(n / d >= 1) by (nonlinear_arith)
        requires
            n >= d,
            d > 0,
    ;
}

} // verus!
