//! Minimal 256-bit unsigned arithmetic.
//!
//! The price-oracle accumulators grow without bound and the swap
//! invariant check multiplies two 128-bit reserves, so both need twice
//! the native width.  A value is two 128-bit limbs; only the operations
//! the pool needs are provided, each with an exact mathematical contract.

use vstd::prelude::*;

use vstd::arithmetic::div_mod::{
    lemma_fundamental_div_mod, lemma_fundamental_div_mod_converse_mod,
};
use vstd::arithmetic::power2::{lemma2_to64, lemma_pow2_strictly_increases, pow2};

verus! {

/// `2^64`, the split point of a 128-bit limb.
pub const LIMB_64: u128 = 0x1_0000_0000_0000_0000;

/// `2^32`, the binary fractional scale of oracle prices.
pub const FRAC_SCALE: u128 = 0x1_0000_0000;

/// `2^128` as a mathematical integer.
pub open spec fn b128() -> int {
    0x1_0000_0000_0000_0000_0000_0000_0000_0000int
}

/// `2^256` as a mathematical integer.
pub open spec fn b256() -> int {
    b128() * b128()
}

/// An unsigned 256-bit integer: `hi * 2^128 + lo`.
#[derive(Clone, Copy, Debug, PartialEq, Eq, Structural)]
pub struct U256 {
    pub hi: u128,
    pub lo: u128,
}

impl U256 {
    /// The mathematical value of this number.
    pub open spec fn value(self) -> int {
        self.hi * b128() + self.lo
    }

    /// Zero.
    pub fn zero() -> (r: U256)
        ensures
            r.value() == 0,
    {
        U256 { hi: 0, lo: 0 }
    }

    /// Widen a native value.
    pub fn from_u128(v: u128) -> (r: U256)
        ensures
            r.value() == v,
    {
        U256 { hi: 0, lo: v }
    }

    /// Every value is within the 256-bit range.
    pub proof fn lemma_value_bounds(self)
        ensures
            0 <= self.value() < b256(),
    {
        assert(self.hi * b128() + self.lo < b256()) by (nonlinear_arith)
            requires
                self.hi <= 0xffff_ffff_ffff_ffff_ffff_ffff_ffff_ffffu128,
                self.lo <= 0xffff_ffff_ffff_ffff_ffff_ffff_ffff_ffffu128,
                b128() == 0x1_0000_0000_0000_0000_0000_0000_0000_0000int,
                b256() == b128() * b128(),
        ;
        assert(self.hi * b128() >= 0) by (nonlinear_arith)
            requires
                self.hi >= 0,
                b128() > 0,
        ;
    }

    /// Addition modulo `2^256`.
    pub fn wrapping_add(self, other: U256) -> (r: U256)
        ensures
            r.value() == (self.value() + other.value()) % b256(),
            self.value() + other.value() < b256() ==> r.value() == self.value() + other.value(),
    {
        let (lo, carry): (u128, u128) = if self.lo <= u128::MAX - other.lo {
            (self.lo + other.lo, 0)
        } else {
            // lo + other.lo == 2^128 + (lo - (MAX - other.lo) - 1)
            (self.lo - (u128::MAX - other.lo) - 1, 1)
        };
        let hi: u128 = if carry == 1 && self.hi == u128::MAX {
            // self.hi + carry is exactly 2^128: the high sum wraps to other.hi
            other.hi
        } else if self.hi + carry <= u128::MAX - other.hi {
            self.hi + carry + other.hi
        } else {
            // the sum of the high limbs wraps once past 2^128
            ((self.hi + carry) - (u128::MAX - other.hi)) - 1
        };
        let r = U256 { hi, lo };
        proof {
            let s = self.value() + other.value();
            let wrapped = if self.hi + carry + other.hi > u128::MAX {
                1int
            } else {
                0int
            };
            assert(r.value() == s - wrapped * b256()) by (nonlinear_arith)
                requires
                    r.value() == hi * b128() + lo,
                    self.value() == self.hi * b128() + self.lo,
                    other.value() == other.hi * b128() + other.lo,
                    s == self.value() + other.value(),
                    lo + carry * b128() == self.lo + other.lo,
                    hi + wrapped * b128() == self.hi + other.hi + carry,
                    b256() == b128() * b128(),
            ;
            r.lemma_value_bounds();
            lemma_fundamental_div_mod_converse_mod(s, b256(), wrapped, r.value());
        }
        r
    }

    /// Whether `self <= other`.
    pub fn le(self, other: U256) -> (r: bool)
        ensures
            r == (self.value() <= other.value()),
    {
        proof {
            if self.hi < other.hi {
                assert(self.value() < other.value()) by (nonlinear_arith)
                    requires
                        self.hi < other.hi,
                        0 <= self.lo < b128(),
                        0 <= other.lo,
                        self.value() == self.hi * b128() + self.lo,
                        other.value() == other.hi * b128() + other.lo,
                ;
            }
            if self.hi > other.hi {
                assert(self.value() > other.value()) by (nonlinear_arith)
                    requires
                        self.hi > other.hi,
                        0 <= other.lo < b128(),
                        0 <= self.lo,
                        self.value() == self.hi * b128() + self.lo,
                        other.value() == other.hi * b128() + other.lo,
                ;
            }
        }
        if self.hi < other.hi {
            true
        } else if self.hi > other.hi {
            false
        } else {
            self.lo <= other.lo
        }
    }
}

/// The full 256-bit product of two native values.
pub fn mul_u128(a: u128, b: u128) -> (r: U256)
    ensures
        r.value() == a * b,
{
    let al = a % LIMB_64;
    let ah = a / LIMB_64;
    let bl = b % LIMB_64;
    let bh = b / LIMB_64;
    proof {
        assert(al * bl < b128() && al * bh < b128() && ah * bl < b128() && ah * bh < b128())
            by (nonlinear_arith)
            requires
                al < LIMB_64 && ah < LIMB_64 && bl < LIMB_64 && bh < LIMB_64,
                b128() == LIMB_64 * LIMB_64,
        ;
    }
    let p0 = al * bl;
    let p1 = al * bh;
    let p2 = ah * bl;
    let p3 = ah * bh;
    let mid = p0 / LIMB_64 + p1 % LIMB_64 + p2 % LIMB_64;
    let lo = (mid % LIMB_64) * LIMB_64 + p0 % LIMB_64;
    proof {
        assert(p1 <= (LIMB_64 - 1) * (LIMB_64 - 1) && p2 <= (LIMB_64 - 1) * (LIMB_64 - 1) && p3 <= (
        LIMB_64 - 1) * (LIMB_64 - 1)) by (nonlinear_arith)
            requires
                p1 == al * bh && p2 == ah * bl && p3 == ah * bh,
                al < LIMB_64 && ah < LIMB_64 && bl < LIMB_64 && bh < LIMB_64,
        ;
        assert(p1 / LIMB_64 <= LIMB_64 - 2 && p2 / LIMB_64 <= LIMB_64 - 2) by (nonlinear_arith)
            requires
                p1 <= (LIMB_64 - 1) * (LIMB_64 - 1),
                p2 <= (LIMB_64 - 1) * (LIMB_64 - 1),
                LIMB_64 == 0x1_0000_0000_0000_0000u128,
        ;
    }
    let hi = p3 + p1 / LIMB_64 + p2 / LIMB_64 + mid / LIMB_64;
    let r = U256 { hi, lo };
    proof {
        lemma_fundamental_div_mod(a as int, LIMB_64 as int);
        lemma_fundamental_div_mod(b as int, LIMB_64 as int);
        assert(a * b == p3 * b128() + (p1 + p2) * (LIMB_64 as int) + p0) by (nonlinear_arith)
            requires
                a == LIMB_64 * ah + al,
                b == LIMB_64 * bh + bl,
                p0 == al * bl,
                p1 == al * bh,
                p2 == ah * bl,
                p3 == ah * bh,
                b128() == LIMB_64 * LIMB_64,
        ;
        lemma_fundamental_div_mod(p0 as int, LIMB_64 as int);
        lemma_fundamental_div_mod(p1 as int, LIMB_64 as int);
        lemma_fundamental_div_mod(p2 as int, LIMB_64 as int);
        lemma_fundamental_div_mod(mid as int, LIMB_64 as int);
        assert(r.value() == p3 * b128() + (p1 + p2) * (LIMB_64 as int) + p0) by (nonlinear_arith)
            requires
                r.value() == hi * b128() + lo,
                hi == p3 + p1 / LIMB_64 + p2 / LIMB_64 + mid / LIMB_64,
                lo == (mid % LIMB_64) * LIMB_64 + p0 % LIMB_64,
                mid == p0 / LIMB_64 + p1 % LIMB_64 + p2 % LIMB_64,
                p0 == LIMB_64 * (p0 / LIMB_64) + p0 % LIMB_64,
                p1 == LIMB_64 * (p1 / LIMB_64) + p1 % LIMB_64,
                p2 == LIMB_64 * (p2 / LIMB_64) + p2 % LIMB_64,
                mid == LIMB_64 * (mid / LIMB_64) + mid % LIMB_64,
                b128() == LIMB_64 * LIMB_64,
        ;
    }
    r
}

/// The first 32 fractional binary digits of `part / den`:
/// `floor(part * 2^32 / den)` for `part < den`, by shift-and-subtract
/// long division.
pub fn frac32(part: u128, den: u128) -> (f: u128)
    requires
        den > 0,
        part < den,
    ensures
        f == (part * FRAC_SCALE) / (den as int),
        f < FRAC_SCALE,
{
    let mut rem: u128 = part;
    let mut f: u128 = 0;
    let mut j: u32 = 0;
    proof {
        lemma2_to64();
    }
    while j < 32
        invariant
            j <= 32,
            den > 0,
            rem < den,
            f < pow2(j as nat),
            part * pow2(j as nat) == f * den + rem,
        decreases 32 - j,
    {
        proof {
            lemma2_to64();
            if j < 32 {
                lemma_pow2_strictly_increases(j as nat, 32);
            }
            assert(pow2((j + 1) as nat) == 2 * pow2(j as nat)) by {
                vstd::arithmetic::power2::lemma_pow2_adds(1, j as nat);
                lemma2_to64();
            }
            assert(part * pow2((j + 1) as nat) == 2 * (part * pow2(j as nat))) by (nonlinear_arith)
                requires
                    pow2((j + 1) as nat) == 2 * pow2(j as nat),
            ;
        }
        let ghost f0 = f;
        let ghost rem0 = rem;
        if rem >= den - rem {
            // the next fractional bit is 1: rem doubles past den
            rem = rem - (den - rem);
            f = 2 * f + 1;
            proof {
                assert((2 * f0 + 1) * den + rem0 * 2 - den == 2 * (f0 * den + rem0))
                    by (nonlinear_arith);
            }
        } else {
            rem = rem + rem;
            f = 2 * f;
            proof {
                assert((2 * f0) * den + rem0 * 2 == 2 * (f0 * den + rem0)) by (nonlinear_arith);
            }
        }
        j += 1;
    }
    proof {
        lemma2_to64();
        vstd::arithmetic::div_mod::lemma_fundamental_div_mod_converse(
            part * FRAC_SCALE,
            den as int,
            f as int,
            rem as int,
        );
    }
    f
}

} // verus!
