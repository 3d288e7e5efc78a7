//! Overflow-checked scaled arithmetic shared by the pool's liquidity math
//! and the lending contract's interest formula.

use vstd::prelude::*;

verus! {

/// The floor of the square root of `n`.
///
/// Used as the geometric-mean seed for a pool's initial liquidity shares.
pub fn isqrt(n: u128) -> (r: u128)
    ensures
        r * r <= n,
        (r + 1) * (r + 1) > n,
{
    let mut lo: u128 = 0;
    let mut hi: u128 = 0xffff_ffff_ffff_ffff;
    if n >= 0xffff_ffff_ffff_fffe_0000_0000_0000_0001 {
        // (2^64 - 1)^2 is the largest square representable below n.
        proof {
            assert((0xffff_ffff_ffff_ffffu128 + 1) * (0xffff_ffff_ffff_ffffu128 + 1)
                > 0xffff_ffff_ffff_ffff_ffff_ffff_ffff_ffffu128) by (nonlinear_arith);
        }
        return hi;
    }
    while lo < hi
        invariant
            lo <= hi,
            hi <= 0xffff_ffff_ffff_ffff,
            lo * lo <= n,
            (hi + 1) * (hi + 1) > n,
        decreases hi - lo,
    {
        let mid: u128 = lo + (hi - lo + 1) / 2;
        proof {
            assert(lo < mid <= hi);
            assert(mid * mid < 0x1_0000_0000_0000_0000_0000_0000_0000_0000) by (nonlinear_arith)
                requires
                    mid <= 0xffff_ffff_ffff_ffffu128,
            ;
        }
        if mid * mid <= n {
            lo = mid;
        } else {
            hi = mid - 1;
        }
    }
    lo
}

/// The two bracketing inequalities of `isqrt` pin its result down: no two
/// different values satisfy them for the same radicand, so a contract
/// stated through them names the square-root floor exactly.
pub proof fn lemma_isqrt_unique(r1: u128, r2: u128, n: u128)
    requires
        r1 * r1 <= n,
        (r1 + 1) * (r1 + 1) > n,
        r2 * r2 <= n,
        (r2 + 1) * (r2 + 1) > n,
    ensures
        r1 == r2,
{
    if r1 < r2 {
        assert(r2 * r2 >= (r1 + 1) * (r1 + 1)) by (nonlinear_arith)
            requires
                r1 < r2,
        ;
    }
    if r2 < r1 {
        assert(r1 * r1 >= (r2 + 1) * (r2 + 1)) by (nonlinear_arith)
            requires
                r2 < r1,
        ;
    }
}

} // verus!
