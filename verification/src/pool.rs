//! The constant-product liquidity pool.
//!
//! One instance per trading pair: reserves, outstanding liquidity shares,
//! time-weighted price accumulators and a reentrancy lock.  Swaps are
//! priced by the constant-product formula with a proportional fee on the
//! input; liquidity is minted and burned pro rata with floor division, so
//! rounding always favours the pool; the minimum-liquidity floor burned
//! at initialization prevents share-price manipulation at tiny supply.

use vstd::prelude::*;

use crate::errors::CoreError;
use crate::ids::{
    amount_of, transfers_without, AlkaneId, AlkaneTransfer, AlkaneTransferParcel, CallResponse,
};
use crate::math::isqrt;
use crate::wide::{b256, frac32, mul_u128, U256, FRAC_SCALE};
use vstd::arithmetic::div_mod::{
    lemma_fundamental_div_mod, lemma_fundamental_div_mod_converse,
};

verus! {

/// Liquidity shares burned forever at pool initialization.
pub const MINIMUM_LIQUIDITY: u128 = 1000;

/// A constant-product pool between two tokens.
///
/// The pool's own token identifier doubles as its liquidity-share token.
/// `price_a_cumulative` integrates `reserve_b / reserve_a` (the price of
/// one unit of A in B, with 32 fractional bits) over time, and
/// symmetrically for `price_b_cumulative`; both wrap modulo `2^256`.
#[derive(Clone, Copy, Debug)]
pub struct Pool {
    pub myself: AlkaneId,
    pub token_a: AlkaneId,
    pub token_b: AlkaneId,
    pub reserve_a: u128,
    pub reserve_b: u128,
    pub total_lp_supply: u128,
    pub fee_per_1000: u128,
    pub price_a_cumulative: U256,
    pub price_b_cumulative: U256,
    pub last_update_timestamp: u64,
    pub locked: bool,
}

impl Pool {
    /// The invariant every entry point preserves: a fixed pair of
    /// distinct tokens (both distinct from the share token), a fee below
    /// 100%, and reserves that are zero exactly until the first
    /// liquidity deposit, after which the supply stays above the burned
    /// minimum and both reserves stay positive.
    pub open spec fn wf(self) -> bool {
        &&& self.token_a != self.token_b
        &&& self.myself != self.token_a
        &&& self.myself != self.token_b
        &&& self.fee_per_1000 < 1000
        &&& (self.total_lp_supply == 0 <==> self.reserve_a == 0)
        &&& (self.total_lp_supply == 0 <==> self.reserve_b == 0)
        &&& (self.total_lp_supply > 0 ==> self.total_lp_supply >= MINIMUM_LIQUIDITY)
    }

    /// How one oracle update at time `now` relates `post` to `pre`: the
    /// accumulators grow by price times elapsed time (modulo `2^256`)
    /// exactly when time advanced over a funded pool, and the update
    /// timestamp never moves backwards.
    pub open spec fn oracle_advanced(pre: Pool, post: Pool, now: u64) -> bool {
        &&& post.last_update_timestamp == if now > pre.last_update_timestamp {
            now
        } else {
            pre.last_update_timestamp
        }
        &&& if now > pre.last_update_timestamp && pre.reserve_a > 0 && pre.reserve_b > 0 {
            &&& post.price_a_cumulative.value() == (pre.price_a_cumulative.value()
                + Pool::price_increment(
                pre.reserve_b,
                pre.reserve_a,
                (now - pre.last_update_timestamp) as u64,
            )) % b256()
            &&& post.price_b_cumulative.value() == (pre.price_b_cumulative.value()
                + Pool::price_increment(
                pre.reserve_a,
                pre.reserve_b,
                (now - pre.last_update_timestamp) as u64,
            )) % b256()
        } else {
            &&& post.price_a_cumulative == pre.price_a_cumulative
            &&& post.price_b_cumulative == pre.price_b_cumulative
        }
    }

    /// A fresh pool for the pair `(token_a, token_b)`, canonically
    /// ordered by its creation call, with no reserves yet.
    pub fn create(
        myself: AlkaneId,
        token_a: AlkaneId,
        token_b: AlkaneId,
        fee_per_1000: u128,
        now: u64,
    ) -> (r: Result<Pool, CoreError>)
        ensures
            match r {
                Ok(p) => {
                    &&& token_a != token_b && myself != token_a && myself != token_b
                    &&& fee_per_1000 < 1000
                    &&& p == (Pool {
                        myself,
                        token_a,
                        token_b,
                        reserve_a: 0,
                        reserve_b: 0,
                        total_lp_supply: 0,
                        fee_per_1000,
                        price_a_cumulative: (U256 { hi: 0, lo: 0 }),
                        price_b_cumulative: (U256 { hi: 0, lo: 0 }),
                        last_update_timestamp: now,
                        locked: false,
                    })
                    &&& p.wf()
                },
                Err(e) => e == CoreError::SameTokenPair && (token_a == token_b || myself == token_a
                    || myself == token_b || fee_per_1000 >= 1000),
            },
    {
        if token_a == token_b || myself == token_a || myself == token_b || fee_per_1000 >= 1000 {
            return Err(CoreError::SameTokenPair);
        }
        Ok(
            Pool {
                myself,
                token_a,
                token_b,
                reserve_a: 0,
                reserve_b: 0,
                total_lp_supply: 0,
                fee_per_1000,
                price_a_cumulative: U256 { hi: 0, lo: 0 },
                price_b_cumulative: U256 { hi: 0, lo: 0 },
                last_update_timestamp: now,
                locked: false,
            },
        )
    }

    /// One oracle step: the fixed-point price of the `den` reserve in
    /// units of the `num` reserve, times the elapsed time.
    pub open spec fn price_increment(num: u128, den: u128, elapsed: u64) -> int {
        ((num * FRAC_SCALE) / (den as int)) * elapsed
    }

    /// Accumulate time-weighted prices once per distinct timestamp.
    ///
    /// If time has advanced and both reserves are nonzero, each
    /// accumulator grows by the current fixed-point price times the
    /// elapsed time (modulo `2^256`); the update timestamp then moves
    /// forward.  Nothing happens on a second call within one timestamp,
    /// which also avoids a zero elapsed time.
    pub fn update_oracle(&mut self, now: u64)
        ensures
            final(self).myself == old(self).myself,
            final(self).token_a == old(self).token_a,
            final(self).token_b == old(self).token_b,
            final(self).reserve_a == old(self).reserve_a,
            final(self).reserve_b == old(self).reserve_b,
            final(self).total_lp_supply == old(self).total_lp_supply,
            final(self).fee_per_1000 == old(self).fee_per_1000,
            final(self).locked == old(self).locked,
            now <= old(self).last_update_timestamp ==> *final(self) == *old(self),
            Pool::oracle_advanced(*old(self), *final(self), now),
    {
        if now <= self.last_update_timestamp {
            return ;
        }
        if self.reserve_a > 0 && self.reserve_b > 0 {
            let elapsed = now - self.last_update_timestamp;
            let inc_a = price_times_elapsed(self.reserve_b, self.reserve_a, elapsed);
            let inc_b = price_times_elapsed(self.reserve_a, self.reserve_b, elapsed);
            self.price_a_cumulative = self.price_a_cumulative.wrapping_add(inc_a);
            self.price_b_cumulative = self.price_b_cumulative.wrapping_add(inc_b);
        }
        self.last_update_timestamp = now;
    }
}

/// The 256-bit value of one oracle increment:
/// `floor(num * 2^32 / den) * elapsed`.
pub fn price_times_elapsed(num: u128, den: u128, elapsed: u64) -> (r: U256)
    requires
        den > 0,
    ensures
        r.value() == Pool::price_increment(num, den, elapsed),
{
    let q = num / den;
    let part = num % den;
    let f = frac32(part, den);
    proof {
        lemma_fundamental_div_mod(num as int, den as int);
        lemma_fundamental_div_mod(part * FRAC_SCALE, den as int);
        let rr = (part * FRAC_SCALE) % (den as int);
        assert(num * FRAC_SCALE == (den as int) * (q * FRAC_SCALE + f) + rr) by (nonlinear_arith)
            requires
                num == (den as int) * q + part,
                part * FRAC_SCALE == (den as int) * f + rr,
        ;
        assert(q * FRAC_SCALE + f >= 0) by (nonlinear_arith)
            requires
                q >= 0 && f >= 0,
                FRAC_SCALE > 0,
        ;
        lemma_fundamental_div_mod_converse(
            num * FRAC_SCALE,
            den as int,
            q * FRAC_SCALE + f,
            rr,
        );
        assert((num * FRAC_SCALE) / (den as int) == q * FRAC_SCALE + f);
    }
    let e_scaled: u128 = (elapsed as u128) * FRAC_SCALE;
    let whole = mul_u128(q, e_scaled);
    proof {
        assert(f * (elapsed as u128) <= u128::MAX) by (nonlinear_arith)
            requires
                0 <= f < 0x1_0000_0000u128,
                0 <= elapsed <= 0xffff_ffff_ffff_ffffu64,
        ;
    }
    let frac_part: u128 = f * (elapsed as u128);
    let r = whole.wrapping_add(U256 { hi: 0, lo: frac_part });
    proof {
        assert(whole.value() + frac_part == (q * FRAC_SCALE + f) * elapsed) by (nonlinear_arith)
            requires
                whole.value() == q * ((elapsed as u128) * FRAC_SCALE),
                frac_part == f * (elapsed as u128),
        ;
        assert(whole.value() + frac_part < b256()) by (nonlinear_arith)
            requires
                whole.value() == q * ((elapsed as u128) * FRAC_SCALE),
                frac_part == f * (elapsed as u128),
                q <= 0xffff_ffff_ffff_ffff_ffff_ffff_ffff_ffffu128,
                elapsed <= 0xffff_ffff_ffff_ffffu64,
                f < FRAC_SCALE,
                FRAC_SCALE == 0x1_0000_0000u128,
                b256() == 0x1_0000_0000_0000_0000_0000_0000_0000_0000int
                    * 0x1_0000_0000_0000_0000_0000_0000_0000_0000int,
        ;
    }
    r
}

/// The transfers of `s` whose token is neither `ta` nor `tb`, in order.
pub open spec fn transfers_without_pair(
    s: Seq<AlkaneTransfer>,
    ta: AlkaneId,
    tb: AlkaneId,
) -> Seq<AlkaneTransfer> {
    transfers_without(transfers_without(s, ta), tb)
}

/// Collect the attached amounts of both pool tokens, refunding every
/// unrelated transfer unchanged and in order.
pub fn collect_pair(incoming: &AlkaneTransferParcel, ta: AlkaneId, tb: AlkaneId) -> (r: Result<
    (u128, u128, CallResponse),
    CoreError,
>)
    requires
        ta != tb,
    ensures
        match r {
            Ok((got_a, got_b, resp)) => {
                &&& got_a == amount_of(incoming@, ta)
                &&& got_b == amount_of(incoming@, tb)
                &&& resp.alkanes@ =~= transfers_without_pair(incoming@, ta, tb)
                &&& resp.data@ =~= Seq::<u8>::empty()
            },
            Err(e) => e == CoreError::IncomingOverflow && (amount_of(incoming@, ta) > u128::MAX
                || amount_of(incoming@, tb) > u128::MAX),
        },
{
    let mut got_a: u128 = 0;
    let mut got_b: u128 = 0;
    let mut ret = CallResponse::new();
    let n = incoming.0.len();
    let mut i: usize = 0;
    while i < n
        invariant
            n == incoming.0.len(),
            i <= n,
            ta != tb,
            got_a == amount_of(incoming@.subrange(0, i as int), ta),
            got_b == amount_of(incoming@.subrange(0, i as int), tb),
            ret.alkanes@ =~= transfers_without_pair(incoming@.subrange(0, i as int), ta, tb),
            ret.data@ =~= Seq::<u8>::empty(),
        decreases n - i,
    {
        let t = incoming.0[i];
        proof {
            let prefix = incoming@.subrange(0, i as int);
            assert(incoming@.subrange(0, i + 1).drop_last() =~= prefix);
            crate::ids::lemma_amount_of_nonneg(prefix, ta);
            crate::ids::lemma_amount_of_nonneg(prefix, tb);
            if t.id != ta {
                assert(transfers_without(incoming@.subrange(0, i + 1), ta) =~= transfers_without(
                    prefix,
                    ta,
                ).push(t));
                assert(transfers_without(prefix, ta).push(t).drop_last() =~= transfers_without(
                    prefix,
                    ta,
                ));
            }
        }
        if t.id == ta {
            match got_a.checked_add(t.value) {
                Some(s) => {
                    got_a = s;
                },
                None => {
                    proof {
                        crate::ids::lemma_amount_prefix_bound(incoming@, ta, i + 1);
                    }
                    return Err(CoreError::IncomingOverflow);
                },
            }
        } else if t.id == tb {
            match got_b.checked_add(t.value) {
                Some(s) => {
                    got_b = s;
                },
                None => {
                    proof {
                        crate::ids::lemma_amount_prefix_bound(incoming@, tb, i + 1);
                    }
                    return Err(CoreError::IncomingOverflow);
                },
            }
        } else {
            ret.alkanes.pay(t);
        }
        i += 1;
    }
    assert(incoming@.subrange(0, incoming@.len() as int) =~= incoming@);
    Ok((got_a, got_b, ret))
}

/// The constant-product output for a given input: the input is charged
/// `fee` per 1000, and the fee-adjusted input moves the price along
/// `reserve_in * reserve_out = k`.
pub open spec fn amount_out_spec(amount_in: int, reserve_in: int, reserve_out: int, fee: int) -> int {
    (amount_in * (1000 - fee) * reserve_out) / (1000 * reserve_in + amount_in * (1000 - fee))
}

/// Constant-product pricing with the fee applied to the input.
///
/// The output is strictly below `reserve_out`, so a successful swap can
/// never empty the pool.
pub fn get_amount_out(amount_in: u128, reserve_in: u128, reserve_out: u128, fee: u128) -> (r:
    Result<u128, CoreError>)
    requires
        reserve_in > 0,
        reserve_out > 0,
        fee < 1000,
    ensures
        match r {
            Ok(v) => {
                &&& amount_in * (1000 - fee) <= u128::MAX
                &&& amount_in * (1000 - fee) * reserve_out <= u128::MAX
                &&& 1000 * reserve_in + amount_in * (1000 - fee) <= u128::MAX
                &&& v == amount_out_spec(
                    amount_in as int,
                    reserve_in as int,
                    reserve_out as int,
                    fee as int,
                )
                &&& v < reserve_out
            },
            Err(e) => {
                &&& e == CoreError::SwapOverflow
                &&& (amount_in * (1000 - fee) > u128::MAX || amount_in * (1000 - fee) * reserve_out
                    > u128::MAX || 1000 * reserve_in + amount_in * (1000 - fee) > u128::MAX)
            },
        },
{
    let amount_in_with_fee = match amount_in.checked_mul(1000 - fee) {
        Some(v) => v,
        None => {
            return Err(CoreError::SwapOverflow);
        },
    };
    let numerator = match amount_in_with_fee.checked_mul(reserve_out) {
        Some(v) => v,
        None => {
            return Err(CoreError::SwapOverflow);
        },
    };
    let scaled_reserve = match (1000u128).checked_mul(reserve_in) {
        Some(v) => v,
        None => {
            return Err(CoreError::SwapOverflow);
        },
    };
    let denominator = match scaled_reserve.checked_add(amount_in_with_fee) {
        Some(v) => v,
        None => {
            return Err(CoreError::SwapOverflow);
        },
    };
    let out = numerator / denominator;
    proof {
        assert(out < reserve_out) by (nonlinear_arith)
            requires
                out == numerator / denominator,
                numerator == amount_in_with_fee * reserve_out,
                denominator == 1000 * reserve_in + amount_in_with_fee,
                reserve_in > 0,
                reserve_out > 0,
                amount_in_with_fee >= 0,
        ;
    }
    Ok(out)
}

impl Pool {
    /// The revert, if any, of an `Initialize` call: the pool must be
    /// unlocked and empty, the attached amounts must sum within range,
    /// their product must fit 128 bits, and the geometric mean of the
    /// deposits must exceed the minimum-liquidity floor.
    pub open spec fn initialize_error(self, incoming: Seq<AlkaneTransfer>) -> Option<CoreError> {
        let got_a = amount_of(incoming, self.token_a);
        let got_b = amount_of(incoming, self.token_b);
        if self.locked {
            Some(CoreError::Locked)
        } else if self.total_lp_supply != 0 {
            Some(CoreError::AlreadyInitialized)
        } else if got_a > u128::MAX || got_b > u128::MAX {
            Some(CoreError::IncomingOverflow)
        } else if got_a * got_b > u128::MAX {
            Some(CoreError::LiquidityOverflow)
        } else if got_a * got_b < (MINIMUM_LIQUIDITY + 1) * (MINIMUM_LIQUIDITY + 1) {
            Some(CoreError::InsufficientLiquidityMinted)
        } else {
            None
        }
    }

    /// First liquidity deposit: set the reserves to the attached amounts
    /// and mint `sqrt(amount_a * amount_b)` shares, of which the
    /// caller receives all but the permanently burned
    /// `MINIMUM_LIQUIDITY`.
    pub fn initialize(&mut self, incoming: &AlkaneTransferParcel, now: u64) -> (r: Result<
        CallResponse,
        CoreError,
    >)
        requires
            old(self).wf(),
        ensures
            final(self).wf(),
            match r {
                Ok(resp) => {
                    &&& old(self).initialize_error(incoming@) is None
                    &&& final(self).reserve_a == amount_of(incoming@, old(self).token_a)
                    &&& final(self).reserve_b == amount_of(incoming@, old(self).token_b)
                    &&& final(self).total_lp_supply * final(self).total_lp_supply <= amount_of(
                        incoming@,
                        old(self).token_a,
                    ) * amount_of(incoming@, old(self).token_b)
                    &&& (final(self).total_lp_supply + 1) * (final(self).total_lp_supply + 1)
                        > amount_of(incoming@, old(self).token_a) * amount_of(
                        incoming@,
                        old(self).token_b,
                    )
                    &&& final(self).total_lp_supply > MINIMUM_LIQUIDITY
                    &&& resp.alkanes@ =~= transfers_without_pair(
                        incoming@,
                        old(self).token_a,
                        old(self).token_b,
                    ).push(
                        AlkaneTransfer {
                            id: old(self).myself,
                            value: (final(self).total_lp_supply - MINIMUM_LIQUIDITY) as u128,
                        },
                    )
                    &&& resp.data@ =~= Seq::<u8>::empty()
                    &&& final(self).myself == old(self).myself
                    &&& final(self).token_a == old(self).token_a
                    &&& final(self).token_b == old(self).token_b
                    &&& final(self).fee_per_1000 == old(self).fee_per_1000
                    &&& final(self).locked == old(self).locked
                    &&& Pool::oracle_advanced(*old(self), *final(self), now)
                },
                Err(e) => {
                    &&& Some(e) == old(self).initialize_error(incoming@)
                    &&& *final(self) == *old(self)
                },
            },
    {
        if self.locked {
            return Err(CoreError::Locked);
        }
        if self.total_lp_supply != 0 {
            return Err(CoreError::AlreadyInitialized);
        }
        let (got_a, got_b, mut resp) = match collect_pair(incoming, self.token_a, self.token_b) {
            Ok(v) => v,
            Err(e) => {
                return Err(e);
            },
        };
        let product = match got_a.checked_mul(got_b) {
            Some(p) => p,
            None => {
                return Err(CoreError::LiquidityOverflow);
            },
        };
        let liquidity = isqrt(product);
        if liquidity <= MINIMUM_LIQUIDITY {
            proof {
                assert(product < (MINIMUM_LIQUIDITY + 1) * (MINIMUM_LIQUIDITY + 1))
                    by (nonlinear_arith)
                    requires
                        liquidity <= MINIMUM_LIQUIDITY,
                        product < (liquidity + 1) * (liquidity + 1),
                ;
            }
            return Err(CoreError::InsufficientLiquidityMinted);
        }
        proof {
            assert(product >= (MINIMUM_LIQUIDITY + 1) * (MINIMUM_LIQUIDITY + 1))
                by (nonlinear_arith)
                requires
                    liquidity > MINIMUM_LIQUIDITY,
                    liquidity * liquidity <= product,
            ;
            assert(got_a > 0 && got_b > 0) by (nonlinear_arith)
                requires
                    got_a * got_b == product,
                    product > 0,
                    got_a >= 0,
                    got_b >= 0,
            ;
        }
        self.update_oracle(now);
        self.reserve_a = got_a;
        self.reserve_b = got_b;
        self.total_lp_supply = liquidity;
        resp.alkanes.pay(
            AlkaneTransfer { id: self.myself, value: liquidity - MINIMUM_LIQUIDITY },
        );
        Ok(resp)
    }
}

impl Pool {
    /// The matched deposit preserving the reserve ratio: if the B amount
    /// quoted for the desired A deposit fits within what was attached,
    /// take it; otherwise match the attached B amount instead.
    pub open spec fn optimal_pair(self, da: int, db: int) -> (int, int) {
        let b_opt = da * self.reserve_b / (self.reserve_a as int);
        if b_opt <= db {
            (da, b_opt)
        } else {
            (db * self.reserve_a / (self.reserve_b as int), db)
        }
    }

    /// Shares minted for a matched deposit: the smaller of the two
    /// pro-rata ratios, floor-divided.
    pub open spec fn minted_for(self, used_a: int, used_b: int) -> int {
        let la = self.total_lp_supply * used_a / (self.reserve_a as int);
        let lb = self.total_lp_supply * used_b / (self.reserve_b as int);
        if la <= lb {
            la
        } else {
            lb
        }
    }

    /// The share-math reverts of an `AddLiquidity` call once the matched
    /// deposit `(used_a, used_b)` is fixed.
    pub open spec fn mint_error(self, used_a: int, used_b: int) -> Option<CoreError> {
        if self.total_lp_supply * used_a > u128::MAX || self.total_lp_supply * used_b
            > u128::MAX {
            Some(CoreError::LiquidityOverflow)
        } else if self.minted_for(used_a, used_b) == 0 {
            Some(CoreError::InsufficientLiquidityMinted)
        } else if self.reserve_a + used_a > u128::MAX || self.reserve_b + used_b > u128::MAX
            || self.total_lp_supply + self.minted_for(used_a, used_b) > u128::MAX {
            Some(CoreError::LiquidityOverflow)
        } else {
            None
        }
    }

    /// The revert, if any, of an `AddLiquidity` call, in check order.
    pub open spec fn add_liquidity_error(
        self,
        incoming: Seq<AlkaneTransfer>,
        amount_a_min: u128,
        amount_b_min: u128,
        now: u64,
        deadline: u64,
    ) -> Option<CoreError> {
        let da = amount_of(incoming, self.token_a);
        let db = amount_of(incoming, self.token_b);
        if self.locked {
            Some(CoreError::Locked)
        } else if now > deadline {
            Some(CoreError::Expired)
        } else if self.total_lp_supply == 0 {
            Some(CoreError::InsufficientLiquidity)
        } else if da > u128::MAX || db > u128::MAX {
            Some(CoreError::IncomingOverflow)
        } else if da * self.reserve_b > u128::MAX {
            Some(CoreError::LiquidityOverflow)
        } else if da * self.reserve_b / (self.reserve_a as int) <= db {
            if da * self.reserve_b / (self.reserve_a as int) < amount_b_min {
                Some(CoreError::InsufficientBAmount)
            } else {
                self.mint_error(da, da * self.reserve_b / (self.reserve_a as int))
            }
        } else if db * self.reserve_a > u128::MAX {
            Some(CoreError::LiquidityOverflow)
        } else if db * self.reserve_a / (self.reserve_b as int) < amount_a_min {
            Some(CoreError::InsufficientAAmount)
        } else {
            self.mint_error(db * self.reserve_a / (self.reserve_b as int), db)
        }
    }

    /// Deposit liquidity at the current reserve ratio.
    ///
    /// The attached amounts are the desired deposit; the optimal matched
    /// amounts are consumed, everything else (unrelated tokens and the
    /// unmatched excess) is refunded, and `min(supply * added_a /
    /// reserve_a, supply * added_b / reserve_b)` new shares go to the
    /// caller.
    pub fn add_liquidity(
        &mut self,
        incoming: &AlkaneTransferParcel,
        amount_a_min: u128,
        amount_b_min: u128,
        now: u64,
        deadline: u64,
    ) -> (r: Result<CallResponse, CoreError>)
        requires
            old(self).wf(),
        ensures
            final(self).wf(),
            match r {
                Ok(resp) => ({
                    let da = amount_of(incoming@, old(self).token_a);
                    let db = amount_of(incoming@, old(self).token_b);
                    let used = old(self).optimal_pair(da, db);
                    let minted = old(self).minted_for(used.0, used.1);
                    &&& old(self).add_liquidity_error(
                        incoming@,
                        amount_a_min,
                        amount_b_min,
                        now,
                        deadline,
                    ) is None
                    &&& final(self).reserve_a == old(self).reserve_a + used.0
                    &&& final(self).reserve_b == old(self).reserve_b + used.1
                    &&& final(self).total_lp_supply == old(self).total_lp_supply + minted
                    &&& minted > 0
                    &&& resp.alkanes@ =~= transfers_without_pair(
                        incoming@,
                        old(self).token_a,
                        old(self).token_b,
                    ).push(AlkaneTransfer { id: old(self).token_a, value: (da - used.0) as u128 })
                        .push(AlkaneTransfer { id: old(self).token_b, value: (db - used.1) as u128 })
                        .push(AlkaneTransfer { id: old(self).myself, value: minted as u128 })
                    &&& resp.data@ =~= Seq::<u8>::empty()
                    &&& final(self).myself == old(self).myself
                    &&& final(self).token_a == old(self).token_a
                    &&& final(self).token_b == old(self).token_b
                    &&& final(self).fee_per_1000 == old(self).fee_per_1000
                    &&& final(self).locked == old(self).locked
                    &&& Pool::oracle_advanced(*old(self), *final(self), now)
                }),
                Err(e) => {
                    &&& Some(e) == old(self).add_liquidity_error(
                        incoming@,
                        amount_a_min,
                        amount_b_min,
                        now,
                        deadline,
                    )
                    &&& *final(self) == *old(self)
                },
            },
    {
        if self.locked {
            return Err(CoreError::Locked);
        }
        if now > deadline {
            return Err(CoreError::Expired);
        }
        if self.total_lp_supply == 0 {
            return Err(CoreError::InsufficientLiquidity);
        }
        let (da, db, mut resp) = match collect_pair(incoming, self.token_a, self.token_b) {
            Ok(v) => v,
            Err(e) => {
                return Err(e);
            },
        };
        let quoted_b_scaled = match da.checked_mul(self.reserve_b) {
            Some(v) => v,
            None => {
                return Err(CoreError::LiquidityOverflow);
            },
        };
        let b_opt = quoted_b_scaled / self.reserve_a;
        let (used_a, used_b): (u128, u128) = if b_opt <= db {
            if b_opt < amount_b_min {
                return Err(CoreError::InsufficientBAmount);
            }
            (da, b_opt)
        } else {
            let quoted_a_scaled = match db.checked_mul(self.reserve_a) {
                Some(v) => v,
                None => {
                    return Err(CoreError::LiquidityOverflow);
                },
            };
            let a_opt = quoted_a_scaled / self.reserve_b;
            if a_opt < amount_a_min {
                return Err(CoreError::InsufficientAAmount);
            }
            proof {
                // the quoted B exceeded the attached B, so the quoted A
                // fits within the attached A
                vstd::arithmetic::div_mod::lemma_fundamental_div_mod(
                    da * self.reserve_b,
                    self.reserve_a as int,
                );
                assert(db * self.reserve_a < da * self.reserve_b) by (nonlinear_arith)
                    requires
                        da * self.reserve_b == self.reserve_a * (da * self.reserve_b
                            / (self.reserve_a as int)) + (da * self.reserve_b) % (
                        self.reserve_a as int),
                        0 <= (da * self.reserve_b) % (self.reserve_a as int)
                            < self.reserve_a as int,
                        da * self.reserve_b / (self.reserve_a as int) > db,
                        self.reserve_a > 0,
                        db >= 0,
                ;
                assert(db * self.reserve_a / (self.reserve_b as int) <= da) by (nonlinear_arith)
                    requires
                        db * self.reserve_a < da * self.reserve_b,
                        self.reserve_b > 0,
                        da >= 0,
                        db >= 0,
                        self.reserve_a > 0,
                ;
            }
            (a_opt, db)
        };
        let la_scaled = match self.total_lp_supply.checked_mul(used_a) {
            Some(v) => v,
            None => {
                return Err(CoreError::LiquidityOverflow);
            },
        };
        let lb_scaled = match self.total_lp_supply.checked_mul(used_b) {
            Some(v) => v,
            None => {
                return Err(CoreError::LiquidityOverflow);
            },
        };
        let la = la_scaled / self.reserve_a;
        let lb = lb_scaled / self.reserve_b;
        let minted: u128 = if la <= lb {
            la
        } else {
            lb
        };
        if minted == 0 {
            return Err(CoreError::InsufficientLiquidityMinted);
        }
        let new_reserve_a = match self.reserve_a.checked_add(used_a) {
            Some(v) => v,
            None => {
                return Err(CoreError::LiquidityOverflow);
            },
        };
        let new_reserve_b = match self.reserve_b.checked_add(used_b) {
            Some(v) => v,
            None => {
                return Err(CoreError::LiquidityOverflow);
            },
        };
        let new_supply = match self.total_lp_supply.checked_add(minted) {
            Some(v) => v,
            None => {
                return Err(CoreError::LiquidityOverflow);
            },
        };
        self.update_oracle(now);
        self.reserve_a = new_reserve_a;
        self.reserve_b = new_reserve_b;
        self.total_lp_supply = new_supply;
        resp.alkanes.pay(AlkaneTransfer { id: self.token_a, value: da - used_a });
        resp.alkanes.pay(AlkaneTransfer { id: self.token_b, value: db - used_b });
        resp.alkanes.pay(AlkaneTransfer { id: self.myself, value: minted });
        Ok(resp)
    }

    /// The revert, if any, of a `RemoveLiquidity` call, in check order.
    pub open spec fn remove_liquidity_error(
        self,
        incoming: Seq<AlkaneTransfer>,
        lp_amount: u128,
        amount_a_min: u128,
        amount_b_min: u128,
        now: u64,
        deadline: u64,
    ) -> Option<CoreError> {
        let lp_attached = amount_of(incoming, self.myself);
        let burn = if lp_amount <= lp_attached {
            lp_amount as int
        } else {
            lp_attached
        };
        if self.locked {
            Some(CoreError::Locked)
        } else if now > deadline {
            Some(CoreError::Expired)
        } else if self.total_lp_supply == 0 {
            Some(CoreError::InsufficientLiquidity)
        } else if lp_attached > u128::MAX {
            Some(CoreError::IncomingOverflow)
        } else if burn * self.reserve_a > u128::MAX || burn * self.reserve_b > u128::MAX {
            Some(CoreError::LiquidityOverflow)
        } else if burn * self.reserve_a / (self.total_lp_supply as int) < amount_a_min {
            Some(CoreError::InsufficientAAmount)
        } else if burn * self.reserve_b / (self.total_lp_supply as int) < amount_b_min {
            Some(CoreError::InsufficientBAmount)
        } else {
            None
        }
    }

    /// Burn liquidity shares and pay out the pro-rata slice of each
    /// reserve, floor-divided.
    ///
    /// At most the attached shares are burned — asking to burn more than
    /// was attached is clamped, not an error.  The caller's minimums are
    /// checked against the floor-divided payouts.  The attached shares
    /// are at most the circulating supply (everything ever minted except
    /// the permanently burned floor), which the host's ledger guarantees.
    pub fn remove_liquidity(
        &mut self,
        incoming: &AlkaneTransferParcel,
        lp_amount: u128,
        amount_a_min: u128,
        amount_b_min: u128,
        now: u64,
        deadline: u64,
    ) -> (r: Result<CallResponse, CoreError>)
        requires
            old(self).wf(),
            old(self).total_lp_supply > 0 ==> amount_of(incoming@, old(self).myself)
                + MINIMUM_LIQUIDITY <= old(self).total_lp_supply,
        ensures
            final(self).wf(),
            match r {
                Ok(resp) => ({
                    let lp_attached = amount_of(incoming@, old(self).myself);
                    let burn = if lp_amount <= lp_attached {
                        lp_amount as int
                    } else {
                        lp_attached
                    };
                    let payout_a = burn * old(self).reserve_a / (old(self).total_lp_supply as int);
                    let payout_b = burn * old(self).reserve_b / (old(self).total_lp_supply as int);
                    &&& old(self).remove_liquidity_error(
                        incoming@,
                        lp_amount,
                        amount_a_min,
                        amount_b_min,
                        now,
                        deadline,
                    ) is None
                    &&& final(self).reserve_a == old(self).reserve_a - payout_a
                    &&& final(self).reserve_b == old(self).reserve_b - payout_b
                    &&& final(self).total_lp_supply == old(self).total_lp_supply - burn
                    &&& resp.alkanes@ =~= transfers_without(incoming@, old(self).myself).push(
                        AlkaneTransfer {
                            id: old(self).myself,
                            value: (lp_attached - burn) as u128,
                        },
                    ).push(AlkaneTransfer { id: old(self).token_a, value: payout_a as u128 }).push(
                        AlkaneTransfer { id: old(self).token_b, value: payout_b as u128 },
                    )
                    &&& resp.data@ =~= Seq::<u8>::empty()
                    &&& final(self).myself == old(self).myself
                    &&& final(self).token_a == old(self).token_a
                    &&& final(self).token_b == old(self).token_b
                    &&& final(self).fee_per_1000 == old(self).fee_per_1000
                    &&& final(self).locked == old(self).locked
                    &&& Pool::oracle_advanced(*old(self), *final(self), now)
                }),
                Err(e) => {
                    &&& Some(e) == old(self).remove_liquidity_error(
                        incoming@,
                        lp_amount,
                        amount_a_min,
                        amount_b_min,
                        now,
                        deadline,
                    )
                    &&& *final(self) == *old(self)
                },
            },
    {
        if self.locked {
            return Err(CoreError::Locked);
        }
        if now > deadline {
            return Err(CoreError::Expired);
        }
        if self.total_lp_supply == 0 {
            return Err(CoreError::InsufficientLiquidity);
        }
        let lp_attached = match incoming.amount(self.myself) {
            Some(v) => v,
            None => {
                return Err(CoreError::IncomingOverflow);
            },
        };
        let burn: u128 = if lp_amount <= lp_attached {
            lp_amount
        } else {
            lp_attached
        };
        let pa_scaled = match burn.checked_mul(self.reserve_a) {
            Some(v) => v,
            None => {
                return Err(CoreError::LiquidityOverflow);
            },
        };
        let pb_scaled = match burn.checked_mul(self.reserve_b) {
            Some(v) => v,
            None => {
                return Err(CoreError::LiquidityOverflow);
            },
        };
        let payout_a = pa_scaled / self.total_lp_supply;
        let payout_b = pb_scaled / self.total_lp_supply;
        if payout_a < amount_a_min {
            return Err(CoreError::InsufficientAAmount);
        }
        if payout_b < amount_b_min {
            return Err(CoreError::InsufficientBAmount);
        }
        proof {
            // burning less than the whole supply leaves both reserves
            // positive, and the payouts never exceed the reserves
            assert(burn * self.reserve_a / (self.total_lp_supply as int) < self.reserve_a)
                by (nonlinear_arith)
                requires
                    burn + MINIMUM_LIQUIDITY <= self.total_lp_supply,
                    MINIMUM_LIQUIDITY >= 1,
                    self.reserve_a > 0,
                    self.total_lp_supply > 0,
                    burn >= 0,
            ;
            assert(burn * self.reserve_b / (self.total_lp_supply as int) < self.reserve_b)
                by (nonlinear_arith)
                requires
                    burn + MINIMUM_LIQUIDITY <= self.total_lp_supply,
                    MINIMUM_LIQUIDITY >= 1,
                    self.reserve_b > 0,
                    self.total_lp_supply > 0,
                    burn >= 0,
            ;
        }
        self.update_oracle(now);
        self.reserve_a = self.reserve_a - payout_a;
        self.reserve_b = self.reserve_b - payout_b;
        self.total_lp_supply = self.total_lp_supply - burn;
        let mut resp = CallResponse::new();
        let others = refund_others(incoming, self.myself);
        resp.alkanes = others;
        resp.alkanes.pay(AlkaneTransfer { id: self.myself, value: lp_attached - burn });
        resp.alkanes.pay(AlkaneTransfer { id: self.token_a, value: payout_a });
        resp.alkanes.pay(AlkaneTransfer { id: self.token_b, value: payout_b });
        Ok(resp)
    }
}

impl Pool {
    /// The reserve of the incoming side of a swap.
    pub open spec fn reserve_in_of(self, token_in: AlkaneId) -> u128 {
        if token_in == self.token_a {
            self.reserve_a
        } else {
            self.reserve_b
        }
    }

    /// The reserve of the outgoing side of a swap.
    pub open spec fn reserve_out_of(self, token_in: AlkaneId) -> u128 {
        if token_in == self.token_a {
            self.reserve_b
        } else {
            self.reserve_a
        }
    }

    /// The token paid out by a swap.
    pub open spec fn token_out_of(self, token_in: AlkaneId) -> AlkaneId {
        if token_in == self.token_a {
            self.token_b
        } else {
            self.token_a
        }
    }

    /// The revert, if any, of an exact-input swap, in check order.
    pub open spec fn swap_exact_in_error(
        self,
        incoming: Seq<AlkaneTransfer>,
        token_in: AlkaneId,
        min_out: u128,
        now: u64,
        deadline: u64,
    ) -> Option<CoreError> {
        let amt = amount_of(incoming, token_in);
        let r_in = self.reserve_in_of(token_in) as int;
        let r_out = self.reserve_out_of(token_in) as int;
        let fee = self.fee_per_1000 as int;
        let out = amount_out_spec(amt, r_in, r_out, fee);
        if self.locked {
            Some(CoreError::Locked)
        } else if now > deadline {
            Some(CoreError::Expired)
        } else if self.total_lp_supply == 0 {
            Some(CoreError::InsufficientLiquidity)
        } else if amt > u128::MAX {
            Some(CoreError::IncomingOverflow)
        } else if amt == 0 {
            Some(CoreError::InsufficientInputAmount)
        } else if amt * (1000 - fee) > u128::MAX || amt * (1000 - fee) * r_out > u128::MAX || 1000
            * r_in + amt * (1000 - fee) > u128::MAX {
            Some(CoreError::SwapOverflow)
        } else if out == 0 || out < min_out {
            Some(CoreError::InsufficientOutputAmount)
        } else if r_in + amt > u128::MAX || 1000 * r_out > u128::MAX || 1000 * (r_out - out)
            > u128::MAX {
            Some(CoreError::SwapOverflow)
        } else {
            None
        }
    }

    /// Swap the whole attached amount of `token_in` for the other token
    /// of the pair at the constant-product price.
    ///
    /// `token_in` addresses one side of the fixed pair; callers name one
    /// of the pool's two tokens.  A zero-output trade and a payout below
    /// `min_out` are rejected.
    /// Before committing, the fee-adjusted product of the new reserves is
    /// recomputed in 256-bit arithmetic and required not to fall below
    /// the old one.
    pub fn swap_exact_in(
        &mut self,
        incoming: &AlkaneTransferParcel,
        token_in: AlkaneId,
        min_out: u128,
        now: u64,
        deadline: u64,
    ) -> (r: Result<CallResponse, CoreError>)
        requires
            old(self).wf(),
            token_in == old(self).token_a || token_in == old(self).token_b,
        ensures
            final(self).wf(),
            match r {
                Ok(resp) => ({
                    let amt = amount_of(incoming@, token_in);
                    let r_in = old(self).reserve_in_of(token_in) as int;
                    let r_out = old(self).reserve_out_of(token_in) as int;
                    let out = amount_out_spec(amt, r_in, r_out, old(self).fee_per_1000 as int);
                    &&& old(self).swap_exact_in_error(
                        incoming@,
                        token_in,
                        min_out,
                        now,
                        deadline,
                    ) is None
                    &&& final(self).reserve_in_of(token_in) == r_in + amt
                    &&& final(self).reserve_out_of(token_in) == r_out - out
                    &&& out >= min_out && out >= 1
                    // the constant product never decreases, and strictly
                    // grows whenever a fee is charged
                    &&& (r_in + amt) * (r_out - out) >= r_in * r_out
                    &&& (old(self).fee_per_1000 > 0 ==> (r_in + amt) * (r_out - out) > r_in
                        * r_out)
                    &&& resp.alkanes@ =~= transfers_without(incoming@, token_in).push(
                        AlkaneTransfer {
                            id: old(self).token_out_of(token_in),
                            value: out as u128,
                        },
                    )
                    &&& resp.data@ =~= Seq::<u8>::empty()
                    &&& final(self).total_lp_supply == old(self).total_lp_supply
                    &&& final(self).myself == old(self).myself
                    &&& final(self).token_a == old(self).token_a
                    &&& final(self).token_b == old(self).token_b
                    &&& final(self).fee_per_1000 == old(self).fee_per_1000
                    &&& final(self).locked == old(self).locked
                    &&& Pool::oracle_advanced(*old(self), *final(self), now)
                }),
                Err(e) => {
                    &&& Some(e) == old(self).swap_exact_in_error(
                        incoming@,
                        token_in,
                        min_out,
                        now,
                        deadline,
                    )
                    &&& *final(self) == *old(self)
                },
            },
    {
        if self.locked {
            return Err(CoreError::Locked);
        }
        if now > deadline {
            return Err(CoreError::Expired);
        }
        if self.total_lp_supply == 0 {
            return Err(CoreError::InsufficientLiquidity);
        }
        let amt = match incoming.amount(token_in) {
            Some(v) => v,
            None => {
                return Err(CoreError::IncomingOverflow);
            },
        };
        if amt == 0 {
            return Err(CoreError::InsufficientInputAmount);
        }
        let (r_in, r_out, token_out) = if token_in == self.token_a {
            (self.reserve_a, self.reserve_b, self.token_b)
        } else {
            (self.reserve_b, self.reserve_a, self.token_a)
        };
        let out = match get_amount_out(amt, r_in, r_out, self.fee_per_1000) {
            Ok(v) => v,
            Err(e) => {
                return Err(e);
            },
        };
        if out == 0 || out < min_out {
            return Err(CoreError::InsufficientOutputAmount);
        }
        let new_r_in = match r_in.checked_add(amt) {
            Some(v) => v,
            None => {
                return Err(CoreError::SwapOverflow);
            },
        };
        let new_r_out = r_out - out;
        // recompute the fee-adjusted constant product and require that it
        // did not decrease
        let old_in_adj = 1000 * r_in;
        let old_out_adj = match (1000u128).checked_mul(r_out) {
            Some(v) => v,
            None => {
                return Err(CoreError::SwapOverflow);
            },
        };
        let new_in_adj = old_in_adj + amt * (1000 - self.fee_per_1000);
        let new_out_adj = 1000 * new_r_out;
        let k_old = mul_u128(old_in_adj, old_out_adj);
        let k_new = mul_u128(new_in_adj, new_out_adj);
        proof {
            lemma_swap_preserves_k(
                amt as int,
                r_in as int,
                r_out as int,
                self.fee_per_1000 as int,
                out as int,
            );
            assert((1000 * (r_in as int) + amt * (1000 - self.fee_per_1000)) * (1000 * ((
            r_out - out) as int)) >= (1000 * (r_in as int)) * (1000 * (r_out as int)));
        }
        if !k_old.le(k_new) {
            return Err(CoreError::KNotIncreasing);
        }
        self.update_oracle(now);
        if token_in == self.token_a {
            self.reserve_a = new_r_in;
            self.reserve_b = new_r_out;
        } else {
            self.reserve_b = new_r_in;
            self.reserve_a = new_r_out;
        }
        let mut resp = CallResponse::new();
        resp.alkanes = refund_others(incoming, token_in);
        resp.alkanes.pay(AlkaneTransfer { id: token_out, value: out });
        Ok(resp)
    }
}

impl Pool {
    /// The input charged for an exact output: the smallest input whose
    /// fee-adjusted amount moves the price far enough, one more than the
    /// floored quotient.
    pub open spec fn amount_in_spec(self, amount_out: int, r_in: int, r_out: int) -> int {
        (1000 * r_in * amount_out) / ((1000 - self.fee_per_1000) * (r_out - amount_out)) + 1
    }

    /// The revert, if any, of an exact-output swap, in check order.
    pub open spec fn swap_exact_out_error(
        self,
        incoming: Seq<AlkaneTransfer>,
        token_in: AlkaneId,
        amount_out: u128,
        amount_in_max: u128,
        now: u64,
        deadline: u64,
    ) -> Option<CoreError> {
        let amt = amount_of(incoming, token_in);
        let r_in = self.reserve_in_of(token_in) as int;
        let r_out = self.reserve_out_of(token_in) as int;
        let fee = self.fee_per_1000 as int;
        let needed = self.amount_in_spec(amount_out as int, r_in, r_out);
        if self.locked {
            Some(CoreError::Locked)
        } else if now > deadline {
            Some(CoreError::Expired)
        } else if self.total_lp_supply == 0 {
            Some(CoreError::InsufficientLiquidity)
        } else if amt > u128::MAX {
            Some(CoreError::IncomingOverflow)
        } else if amount_out == 0 {
            Some(CoreError::InsufficientOutputAmount)
        } else if amount_out >= r_out {
            Some(CoreError::InsufficientLiquidity)
        } else if 1000 * r_in > u128::MAX || 1000 * r_in * amount_out > u128::MAX || (1000 - fee)
            * (r_out - amount_out) > u128::MAX || needed > u128::MAX {
            Some(CoreError::SwapOverflow)
        } else if needed > amount_in_max {
            Some(CoreError::ExcessiveInputAmount)
        } else if amt < needed {
            Some(CoreError::InsufficientTokens)
        } else if r_in + needed > u128::MAX || needed * (1000 - fee) > u128::MAX || 1000 * r_in
            + needed * (1000 - fee) > u128::MAX || 1000 * r_out > u128::MAX {
            Some(CoreError::SwapOverflow)
        } else {
            None
        }
    }

    /// Swap for an exact output amount of the other token.
    ///
    /// The required input is computed from the constant-product formula
    /// (rounded up by one in the pool's favour), capped by the caller's
    /// `amount_in_max`, collected from the attached transfers with the
    /// excess refunded, and the fee-adjusted product is re-checked before
    /// committing.
    pub fn swap_exact_out(
        &mut self,
        incoming: &AlkaneTransferParcel,
        token_in: AlkaneId,
        amount_out: u128,
        amount_in_max: u128,
        now: u64,
        deadline: u64,
    ) -> (r: Result<CallResponse, CoreError>)
        requires
            old(self).wf(),
            token_in == old(self).token_a || token_in == old(self).token_b,
        ensures
            final(self).wf(),
            match r {
                Ok(resp) => ({
                    let amt = amount_of(incoming@, token_in);
                    let r_in = old(self).reserve_in_of(token_in) as int;
                    let r_out = old(self).reserve_out_of(token_in) as int;
                    let needed = old(self).amount_in_spec(amount_out as int, r_in, r_out);
                    &&& old(self).swap_exact_out_error(
                        incoming@,
                        token_in,
                        amount_out,
                        amount_in_max,
                        now,
                        deadline,
                    ) is None
                    &&& needed <= amount_in_max
                    &&& final(self).reserve_in_of(token_in) == r_in + needed
                    &&& final(self).reserve_out_of(token_in) == r_out - amount_out
                    // the constant product never decreases
                    &&& (r_in + needed) * (r_out - amount_out) >= r_in * r_out
                    &&& resp.alkanes@ =~= transfers_without(incoming@, token_in).push(
                        AlkaneTransfer { id: token_in, value: (amt - needed) as u128 },
                    ).push(
                        AlkaneTransfer {
                            id: old(self).token_out_of(token_in),
                            value: amount_out,
                        },
                    )
                    &&& resp.data@ =~= Seq::<u8>::empty()
                    &&& final(self).total_lp_supply == old(self).total_lp_supply
                    &&& final(self).myself == old(self).myself
                    &&& final(self).token_a == old(self).token_a
                    &&& final(self).token_b == old(self).token_b
                    &&& final(self).fee_per_1000 == old(self).fee_per_1000
                    &&& final(self).locked == old(self).locked
                    &&& Pool::oracle_advanced(*old(self), *final(self), now)
                }),
                Err(e) => {
                    &&& Some(e) == old(self).swap_exact_out_error(
                        incoming@,
                        token_in,
                        amount_out,
                        amount_in_max,
                        now,
                        deadline,
                    )
                    &&& *final(self) == *old(self)
                },
            },
    {
        if self.locked {
            return Err(CoreError::Locked);
        }
        if now > deadline {
            return Err(CoreError::Expired);
        }
        if self.total_lp_supply == 0 {
            return Err(CoreError::InsufficientLiquidity);
        }
        let amt = match incoming.amount(token_in) {
            Some(v) => v,
            None => {
                return Err(CoreError::IncomingOverflow);
            },
        };
        let (r_in, r_out, token_out) = if token_in == self.token_a {
            (self.reserve_a, self.reserve_b, self.token_b)
        } else {
            (self.reserve_b, self.reserve_a, self.token_a)
        };
        if amount_out == 0 {
            return Err(CoreError::InsufficientOutputAmount);
        }
        if amount_out >= r_out {
            return Err(CoreError::InsufficientLiquidity);
        }
        let scaled_reserve = match (1000u128).checked_mul(r_in) {
            Some(v) => v,
            None => {
                return Err(CoreError::SwapOverflow);
            },
        };
        let numerator = match scaled_reserve.checked_mul(amount_out) {
            Some(v) => v,
            None => {
                return Err(CoreError::SwapOverflow);
            },
        };
        let denominator = match (1000 - self.fee_per_1000).checked_mul(r_out - amount_out) {
            Some(v) => v,
            None => {
                return Err(CoreError::SwapOverflow);
            },
        };
        proof {
            assert(denominator > 0) by (nonlinear_arith)
                requires
                    denominator == (1000 - self.fee_per_1000) * (r_out - amount_out),
                    self.fee_per_1000 < 1000,
                    amount_out < r_out,
            ;
        }
        let needed = match (numerator / denominator).checked_add(1) {
            Some(v) => v,
            None => {
                return Err(CoreError::SwapOverflow);
            },
        };
        if needed > amount_in_max {
            return Err(CoreError::ExcessiveInputAmount);
        }
        if amt < needed {
            return Err(CoreError::InsufficientTokens);
        }
        let new_r_in = match r_in.checked_add(needed) {
            Some(v) => v,
            None => {
                return Err(CoreError::SwapOverflow);
            },
        };
        let in_fee_adj = match needed.checked_mul(1000 - self.fee_per_1000) {
            Some(v) => v,
            None => {
                return Err(CoreError::SwapOverflow);
            },
        };
        let new_in_adj = match scaled_reserve.checked_add(in_fee_adj) {
            Some(v) => v,
            None => {
                return Err(CoreError::SwapOverflow);
            },
        };
        let old_out_adj = match (1000u128).checked_mul(r_out) {
            Some(v) => v,
            None => {
                return Err(CoreError::SwapOverflow);
            },
        };
        let new_r_out = r_out - amount_out;
        let new_out_adj = 1000 * new_r_out;
        let k_old = mul_u128(scaled_reserve, old_out_adj);
        let k_new = mul_u128(new_in_adj, new_out_adj);
        proof {
            lemma_exact_out_preserves_k(
                needed as int,
                r_in as int,
                r_out as int,
                self.fee_per_1000 as int,
                amount_out as int,
            );
        }
        if !k_old.le(k_new) {
            return Err(CoreError::KNotIncreasing);
        }
        self.update_oracle(now);
        if token_in == self.token_a {
            self.reserve_a = new_r_in;
            self.reserve_b = new_r_out;
        } else {
            self.reserve_b = new_r_in;
            self.reserve_a = new_r_out;
        }
        let mut resp = CallResponse::new();
        resp.alkanes = refund_others(incoming, token_in);
        resp.alkanes.pay(AlkaneTransfer { id: token_in, value: amt - needed });
        resp.alkanes.pay(AlkaneTransfer { id: token_out, value: amount_out });
        Ok(resp)
    }
}

/// The obligation left open between the two halves of a flash swap: the
/// amounts already sent out, to be covered before the lock is released.
#[derive(Clone, Copy, Debug, PartialEq, Eq, Structural)]
pub struct FlashSwap {
    pub out_a: u128,
    pub out_b: u128,
}

impl Pool {
    /// The revert, if any, of the opening half of a flash swap.
    pub open spec fn begin_flash_swap_error(self, amount_a_out: u128, amount_b_out: u128) -> Option<
        CoreError,
    > {
        if self.locked {
            Some(CoreError::Locked)
        } else if self.total_lp_supply == 0 {
            Some(CoreError::InsufficientLiquidity)
        } else if amount_a_out == 0 && amount_b_out == 0 {
            Some(CoreError::InsufficientOutputAmount)
        } else if amount_a_out >= self.reserve_a || amount_b_out >= self.reserve_b {
            Some(CoreError::InsufficientLiquidity)
        } else {
            None
        }
    }

    /// Open a flash swap: send the requested outputs first and take the
    /// reentrancy lock.
    ///
    /// The host then runs the borrower's callback (which may try — and
    /// fail — to reenter this pool) and finally settles the debt with
    /// [`Pool::complete_flash_swap`].  If anything in between reverts,
    /// the whole call is discarded, which also discards the lock.
    pub fn begin_flash_swap(&mut self, amount_a_out: u128, amount_b_out: u128) -> (r: Result<
        (CallResponse, FlashSwap),
        CoreError,
    >)
        requires
            old(self).wf(),
        ensures
            final(self).wf(),
            match r {
                Ok((resp, pending)) => {
                    &&& old(self).begin_flash_swap_error(amount_a_out, amount_b_out) is None
                    &&& *final(self) == (Pool { locked: true, ..*old(self) })
                    &&& pending == (FlashSwap { out_a: amount_a_out, out_b: amount_b_out })
                    &&& resp.alkanes@ =~= seq![
                        AlkaneTransfer { id: old(self).token_a, value: amount_a_out },
                        AlkaneTransfer { id: old(self).token_b, value: amount_b_out },
                    ]
                    &&& resp.data@ =~= Seq::<u8>::empty()
                },
                Err(e) => {
                    &&& Some(e) == old(self).begin_flash_swap_error(amount_a_out, amount_b_out)
                    &&& *final(self) == *old(self)
                },
            },
    {
        if self.locked {
            return Err(CoreError::Locked);
        }
        if self.total_lp_supply == 0 {
            return Err(CoreError::InsufficientLiquidity);
        }
        if amount_a_out == 0 && amount_b_out == 0 {
            return Err(CoreError::InsufficientOutputAmount);
        }
        if amount_a_out >= self.reserve_a || amount_b_out >= self.reserve_b {
            return Err(CoreError::InsufficientLiquidity);
        }
        self.locked = true;
        let mut resp = CallResponse::new();
        resp.alkanes.pay(AlkaneTransfer { id: self.token_a, value: amount_a_out });
        resp.alkanes.pay(AlkaneTransfer { id: self.token_b, value: amount_b_out });
        Ok((resp, FlashSwap { out_a: amount_a_out, out_b: amount_b_out }))
    }

    /// The revert, if any, of the settling half of a flash swap.
    pub open spec fn complete_flash_swap_error(
        self,
        pending: FlashSwap,
        incoming: Seq<AlkaneTransfer>,
    ) -> Option<CoreError> {
        let paid_a = amount_of(incoming, self.token_a);
        let paid_b = amount_of(incoming, self.token_b);
        let keep_a = self.reserve_a - pending.out_a;
        let keep_b = self.reserve_b - pending.out_b;
        let fee = self.fee_per_1000 as int;
        if pending.out_a >= self.reserve_a || pending.out_b >= self.reserve_b {
            Some(CoreError::InsufficientLiquidity)
        } else if paid_a > u128::MAX || paid_b > u128::MAX {
            Some(CoreError::IncomingOverflow)
        } else if paid_a == 0 && paid_b == 0 {
            Some(CoreError::InsufficientInputAmount)
        } else if keep_a + paid_a > u128::MAX || keep_b + paid_b > u128::MAX || 1000 * keep_a
            > u128::MAX || (1000 - fee) * paid_a > u128::MAX || 1000 * keep_a + (1000 - fee)
            * paid_a > u128::MAX || 1000 * keep_b > u128::MAX || (1000 - fee) * paid_b > u128::MAX
            || 1000 * keep_b + (1000 - fee) * paid_b > u128::MAX || 1000 * self.reserve_a
            > u128::MAX || 1000 * self.reserve_b > u128::MAX {
            Some(CoreError::SwapOverflow)
        } else if (1000 * keep_a + (1000 - fee) * paid_a) * (1000 * keep_b + (1000 - fee) * paid_b)
            < (1000 * self.reserve_a) * (1000 * self.reserve_b) {
            Some(CoreError::KNotIncreasing)
        } else {
            None
        }
    }

    /// Settle a flash swap: measure what came back, require the
    /// fee-adjusted constant product not to have decreased, commit the
    /// new reserves and release the lock.
    ///
    /// Whatever of the pair was attached counts as payment; unrelated
    /// tokens are refunded.
    pub fn complete_flash_swap(
        &mut self,
        pending: FlashSwap,
        incoming: &AlkaneTransferParcel,
        now: u64,
    ) -> (r: Result<CallResponse, CoreError>)
        requires
            old(self).wf(),
            old(self).locked,
        ensures
            final(self).wf(),
            match r {
                Ok(resp) => ({
                    let paid_a = amount_of(incoming@, old(self).token_a);
                    let paid_b = amount_of(incoming@, old(self).token_b);
                    let keep_a = old(self).reserve_a - pending.out_a;
                    let keep_b = old(self).reserve_b - pending.out_b;
                    let fee = old(self).fee_per_1000 as int;
                    &&& old(self).complete_flash_swap_error(pending, incoming@) is None
                    &&& final(self).reserve_a == keep_a + paid_a
                    &&& final(self).reserve_b == keep_b + paid_b
                    &&& !final(self).locked
                    // the re-checked invariant, as committed
                    &&& (1000 * keep_a + (1000 - fee) * paid_a) * (1000 * keep_b + (1000 - fee)
                        * paid_b) >= (1000 * old(self).reserve_a) * (1000 * old(self).reserve_b)
                    &&& resp.alkanes@ =~= transfers_without_pair(
                        incoming@,
                        old(self).token_a,
                        old(self).token_b,
                    )
                    &&& resp.data@ =~= Seq::<u8>::empty()
                    &&& final(self).total_lp_supply == old(self).total_lp_supply
                    &&& final(self).myself == old(self).myself
                    &&& final(self).token_a == old(self).token_a
                    &&& final(self).token_b == old(self).token_b
                    &&& final(self).fee_per_1000 == old(self).fee_per_1000
                    &&& Pool::oracle_advanced(*old(self), *final(self), now)
                }),
                Err(e) => {
                    &&& Some(e) == old(self).complete_flash_swap_error(pending, incoming@)
                    &&& *final(self) == *old(self)
                },
            },
    {
        if pending.out_a >= self.reserve_a || pending.out_b >= self.reserve_b {
            return Err(CoreError::InsufficientLiquidity);
        }
        let (paid_a, paid_b, mut resp) = match collect_pair(incoming, self.token_a, self.token_b) {
            Ok(v) => v,
            Err(e) => {
                return Err(e);
            },
        };
        if paid_a == 0 && paid_b == 0 {
            return Err(CoreError::InsufficientInputAmount);
        }
        let keep_a = self.reserve_a - pending.out_a;
        let keep_b = self.reserve_b - pending.out_b;
        let new_reserve_a = match keep_a.checked_add(paid_a) {
            Some(v) => v,
            None => {
                return Err(CoreError::SwapOverflow);
            },
        };
        let new_reserve_b = match keep_b.checked_add(paid_b) {
            Some(v) => v,
            None => {
                return Err(CoreError::SwapOverflow);
            },
        };
        let keep_a_adj = match (1000u128).checked_mul(keep_a) {
            Some(v) => v,
            None => {
                return Err(CoreError::SwapOverflow);
            },
        };
        let paid_a_adj = match (1000 - self.fee_per_1000).checked_mul(paid_a) {
            Some(v) => v,
            None => {
                return Err(CoreError::SwapOverflow);
            },
        };
        let adj_a = match keep_a_adj.checked_add(paid_a_adj) {
            Some(v) => v,
            None => {
                return Err(CoreError::SwapOverflow);
            },
        };
        let keep_b_adj = match (1000u128).checked_mul(keep_b) {
            Some(v) => v,
            None => {
                return Err(CoreError::SwapOverflow);
            },
        };
        let paid_b_adj = match (1000 - self.fee_per_1000).checked_mul(paid_b) {
            Some(v) => v,
            None => {
                return Err(CoreError::SwapOverflow);
            },
        };
        let adj_b = match keep_b_adj.checked_add(paid_b_adj) {
            Some(v) => v,
            None => {
                return Err(CoreError::SwapOverflow);
            },
        };
        let old_a_adj = match (1000u128).checked_mul(self.reserve_a) {
            Some(v) => v,
            None => {
                return Err(CoreError::SwapOverflow);
            },
        };
        let old_b_adj = match (1000u128).checked_mul(self.reserve_b) {
            Some(v) => v,
            None => {
                return Err(CoreError::SwapOverflow);
            },
        };
        let k_new = mul_u128(adj_a, adj_b);
        let k_old = mul_u128(old_a_adj, old_b_adj);
        if !k_old.le(k_new) {
            return Err(CoreError::KNotIncreasing);
        }
        self.update_oracle(now);
        self.reserve_a = new_reserve_a;
        self.reserve_b = new_reserve_b;
        self.locked = false;
        Ok(resp)
    }
}

/// Charging at least one unit more than the floored exact-output quotient
/// keeps the constant product from decreasing.
pub proof fn lemma_exact_out_preserves_k(
    amount_in: int,
    reserve_in: int,
    reserve_out: int,
    fee: int,
    out: int,
)
    requires
        reserve_in > 0,
        0 < out < reserve_out,
        0 <= fee < 1000,
        amount_in == (1000 * reserve_in * out) / ((1000 - fee) * (reserve_out - out)) + 1,
    ensures
        amount_in >= 1,
        (reserve_in + amount_in) * (reserve_out - out) >= reserve_in * reserve_out,
        (1000 * reserve_in + amount_in * (1000 - fee)) * (1000 * (reserve_out - out)) >= (1000
            * reserve_in) * (1000 * reserve_out),
{
    let num = 1000 * reserve_in * out;
    let den = (1000 - fee) * (reserve_out - out);
    assert(den > 0) by (nonlinear_arith)
        requires
            fee < 1000,
            out < reserve_out,
            den == (1000 - fee) * (reserve_out - out),
    ;
    lemma_fundamental_div_mod(num, den);
    assert(num >= 0) by (nonlinear_arith)
        requires
            reserve_in > 0,
            out > 0,
            num == 1000 * reserve_in * out,
    ;
    assert(amount_in * den > num) by (nonlinear_arith)
        requires
            amount_in == num / den + 1,
            num == den * (num / den) + num % den,
            0 <= num % den < den,
            den > 0,
    ;
    // fee-adjusted: in * (1000 - fee) * (r_out - out) > 1000 * r_in * out
    assert((1000 * reserve_in + amount_in * (1000 - fee)) * (1000 * (reserve_out - out)) >= (1000
        * reserve_in) * (1000 * reserve_out)) by (nonlinear_arith)
        requires
            amount_in * ((1000 - fee) * (reserve_out - out)) > 1000 * reserve_in * out,
            0 < out < reserve_out,
            reserve_in > 0,
            0 <= fee < 1000,
    ;
    // plain product: 1000 * (r_in + in) >= 1000 * r_in + in * (1000 - fee)
    assert((reserve_in + amount_in) * (reserve_out - out) >= reserve_in * reserve_out)
        by (nonlinear_arith)
        requires
            (1000 * reserve_in + amount_in * (1000 - fee)) * (1000 * (reserve_out - out)) >= (1000
                * reserve_in) * (1000 * reserve_out),
            amount_in >= 1,
            0 <= fee < 1000,
            reserve_in > 0,
            0 < out < reserve_out,
    ;
}

/// Whether a swap route is traversable: each hop's pool is well formed
/// and funded, and each hop takes in the token the previous hop paid out.
pub open spec fn route_ok(pools: Seq<Pool>, token_in: AlkaneId) -> bool
    decreases pools.len(),
{
    pools.len() == 0 || {
        &&& (token_in == pools[0].token_a || token_in == pools[0].token_b)
        &&& pools[0].wf()
        &&& pools[0].total_lp_supply > 0
        &&& route_ok(pools.drop_first(), pools[0].token_out_of(token_in))
    }
}

/// The chained amounts of a multi-hop swap: the input amount followed by
/// each hop's constant-product output, the output of one hop feeding the
/// next; `None` exactly when some hop's pricing overflows 128 bits.
pub open spec fn route_amounts(pools: Seq<Pool>, token_in: AlkaneId, amount_in: u128) -> Option<
    Seq<u128>,
>
    decreases pools.len(),
{
    if pools.len() == 0 {
        Some(seq![amount_in])
    } else {
        let p = pools[0];
        let r_in = p.reserve_in_of(token_in) as int;
        let r_out = p.reserve_out_of(token_in) as int;
        let fee = p.fee_per_1000 as int;
        if amount_in * (1000 - fee) > u128::MAX || amount_in * (1000 - fee) * r_out > u128::MAX
            || 1000 * r_in + amount_in * (1000 - fee) > u128::MAX {
            None
        } else {
            let out = amount_out_spec(amount_in as int, r_in, r_out, fee);
            match route_amounts(pools.drop_first(), p.token_out_of(token_in), out as u128) {
                Some(rest) => Some(seq![amount_in] + rest),
                None => None,
            }
        }
    }
}

/// Price a multi-hop swap, chaining the constant-product formula hop by
/// hop across a path of pools.
///
/// Returns one amount per hop boundary: the input first, then each hop's
/// output.  No state changes; executing the route is a sequence of
/// single-pool swaps, one per hop.
pub fn quote_route(pools: &Vec<Pool>, token_in: AlkaneId, amount_in: u128) -> (r: Result<
    Vec<u128>,
    CoreError,
>)
    requires
        route_ok(pools@, token_in),
    ensures
        match r {
            Ok(v) => route_amounts(pools@, token_in, amount_in) == Some(v@),
            Err(e) => route_amounts(pools@, token_in, amount_in) is None && e
                == CoreError::SwapOverflow,
        },
{
    let mut amounts: Vec<u128> = Vec::new();
    amounts.push(amount_in);
    let mut token = token_in;
    let mut current = amount_in;
    let n = pools.len();
    let mut i: usize = 0;
    proof {
        assert(pools@.skip(0) =~= pools@);
    }
    while i < n
        invariant
            n == pools@.len(),
            i <= n,
            route_ok(pools@.skip(i as int), token),
            amounts@.len() == i + 1,
            amounts@.last() == current,
            route_amounts(pools@, token_in, amount_in) == match route_amounts(
                pools@.skip(i as int),
                token,
                current,
            ) {
                Some(rest) => Some(amounts@.drop_last() + rest),
                None => None::<Seq<u128>>,
            },
        decreases n - i,
    {
        let p = &pools[i];
        proof {
            assert(pools@.skip(i as int)[0] == pools@[i as int]);
            assert(pools@.skip(i as int).drop_first() =~= pools@.skip(i + 1));
        }
        let (r_in, r_out, token_out) = if token == p.token_a {
            (p.reserve_a, p.reserve_b, p.token_b)
        } else {
            (p.reserve_b, p.reserve_a, p.token_a)
        };
        let out = match get_amount_out(current, r_in, r_out, p.fee_per_1000) {
            Ok(v) => v,
            Err(e) => {
                return Err(e);
            },
        };
        proof {
            let ghost old_amounts = amounts@;
            assert((old_amounts.push(out)).drop_last() =~= old_amounts);
            assert(old_amounts.drop_last().push(current) =~= old_amounts);
            assert(old_amounts.drop_last() + (seq![current] + route_amounts(
                pools@.skip(i + 1),
                p.token_out_of(token),
                out,
            ).unwrap()) =~= old_amounts + route_amounts(
                pools@.skip(i + 1),
                p.token_out_of(token),
                out,
            ).unwrap());
        }
        amounts.push(out);
        token = token_out;
        current = out;
        i += 1;
    }
    proof {
        assert(pools@.skip(n as int) =~= Seq::<Pool>::empty());
        assert(amounts@.drop_last() + seq![current] =~= amounts@);
    }
    Ok(amounts)
}

/// One liquidity event, as seen by the share supply: a mint (pool
/// initialization mints the whole geometric mean, the burned minimum
/// floor included) or a burn.
pub enum LpEvent {
    Minted(u128),
    Burned(u128),
}

/// The share supply after applying the events in order (a burn never
/// exceeds the running supply, which the pool's entry points guarantee).
pub open spec fn supply_after(initial: int, events: Seq<LpEvent>) -> int
    decreases events.len(),
{
    if events.len() == 0 {
        initial
    } else {
        match events.last() {
            LpEvent::Minted(m) => supply_after(initial, events.drop_last()) + m,
            LpEvent::Burned(b) => supply_after(initial, events.drop_last()) - b,
        }
    }
}

/// The sum of all minted shares minus all burned shares.
pub open spec fn net_minted(events: Seq<LpEvent>) -> int
    decreases events.len(),
{
    if events.len() == 0 {
        0
    } else {
        net_minted(events.drop_last()) + match events.last() {
            LpEvent::Minted(m) => m as int,
            LpEvent::Burned(b) => -(b as int),
        }
    }
}

/// Conservation of liquidity shares: across any sequence of
/// initialize / add-liquidity / remove-liquidity events, the share
/// supply tracks exactly the sum of all minted shares minus all burned
/// shares.  (Each entry point's own contract pins its event: the supply
/// grows by exactly the minted amount and shrinks by exactly the burned
/// amount, and reserve tokens move only through the explicit transfers
/// of the response.)
pub proof fn lemma_lp_supply_conservation(initial: int, events: Seq<LpEvent>)
    ensures
        supply_after(initial, events) == initial + net_minted(events),
    decreases events.len(),
{
    if events.len() > 0 {
        lemma_lp_supply_conservation(initial, events.drop_last());
    }
}

/// The transfers of `incoming` whose token differs from `id`, as a
/// parcel.
pub fn refund_others(incoming: &AlkaneTransferParcel, id: AlkaneId) -> (r: AlkaneTransferParcel)
    ensures
        r@ =~= transfers_without(incoming@, id),
{
    let mut out = AlkaneTransferParcel::new();
    let n = incoming.0.len();
    let mut i: usize = 0;
    while i < n
        invariant
            n == incoming.0.len(),
            i <= n,
            out@ =~= transfers_without(incoming@.subrange(0, i as int), id),
        decreases n - i,
    {
        let t = incoming.0[i];
        proof {
            assert(incoming@.subrange(0, i + 1).drop_last() =~= incoming@.subrange(0, i as int));
        }
        if t.id != id {
            out.pay(t);
        }
        i += 1;
    }
    assert(incoming@.subrange(0, incoming@.len() as int) =~= incoming@);
    out
}

/// The swap invariant: pricing by `amount_out_spec` never decreases the
/// reserve product, and strictly increases it whenever the fee and the
/// input are both nonzero.
pub proof fn lemma_swap_preserves_k(
    amount_in: int,
    reserve_in: int,
    reserve_out: int,
    fee: int,
    out: int,
)
    requires
        reserve_in > 0,
        reserve_out > 0,
        0 <= fee < 1000,
        amount_in >= 0,
        out == amount_out_spec(amount_in, reserve_in, reserve_out, fee),
    ensures
        0 <= out < reserve_out,
        (reserve_in + amount_in) * (reserve_out - out) >= reserve_in * reserve_out,
        fee > 0 && amount_in > 0 ==> (reserve_in + amount_in) * (reserve_out - out) > reserve_in
            * reserve_out,
        // the fee-adjusted product never decreases either
        (1000 * reserve_in + amount_in * (1000 - fee)) * (1000 * (reserve_out - out)) >= (1000
            * reserve_in) * (1000 * reserve_out),
{
    let in_f = amount_in * (1000 - fee);
    let den = 1000 * reserve_in + in_f;
    let num = in_f * reserve_out;
    assert(in_f >= 0 && den > 0) by (nonlinear_arith)
        requires
            amount_in >= 0,
            0 <= fee < 1000,
            reserve_in > 0,
            in_f == amount_in * (1000 - fee),
            den == 1000 * reserve_in + in_f,
    ;
    lemma_fundamental_div_mod(num, den);
    let rem = num % den;
    // floor division: out * den <= num
    assert(out * den == num - rem) by (nonlinear_arith)
        requires
            num == den * out + rem,
    ;
    assert(out >= 0 && rem >= 0);
    // out < reserve_out
    assert(out < reserve_out) by (nonlinear_arith)
        requires
            out * den <= num,
            num == in_f * reserve_out,
            den > in_f,
            in_f >= 0,
            reserve_out > 0,
            out >= 0,
    ;
    // the fee-adjusted product: den * 1000 * (reserve_out - out) >= den*1000*r_out - 1000*num
    assert((1000 * reserve_in + in_f) * (1000 * (reserve_out - out)) >= (1000 * reserve_in) * (1000
        * reserve_out)) by (nonlinear_arith)
        requires
            out * den <= num,
            num == in_f * reserve_out,
            den == 1000 * reserve_in + in_f,
            in_f >= 0,
            reserve_in > 0,
            reserve_out > 0,
            out >= 0,
    ;
    // the plain product: out * (reserve_in + amount_in) <= amount_in * reserve_out
    assert(in_f * (reserve_in + amount_in) <= amount_in * den) by (nonlinear_arith)
        requires
            in_f == amount_in * (1000 - fee),
            den == 1000 * reserve_in + in_f,
            amount_in >= 0,
            reserve_in > 0,
            0 <= fee < 1000,
    ;
    assert(out * (reserve_in + amount_in) * den <= amount_in * reserve_out * den)
        by (nonlinear_arith)
        requires
            out * den <= num,
            num == in_f * reserve_out,
            in_f * (reserve_in + amount_in) <= amount_in * den,
            out >= 0,
            in_f >= 0,
            den > 0,
            reserve_out > 0,
            reserve_in + amount_in > 0,
    ;
    assert(out * (reserve_in + amount_in) <= amount_in * reserve_out) by (nonlinear_arith)
        requires
            out * (reserve_in + amount_in) * den <= amount_in * reserve_out * den,
            den > 0,
    ;
    assert((reserve_in + amount_in) * (reserve_out - out) >= reserve_in * reserve_out)
        by (nonlinear_arith)
        requires
            out * (reserve_in + amount_in) <= amount_in * reserve_out,
            out < reserve_out,
    ;
    if fee > 0 && amount_in > 0 {
        if out == 0 {
            assert((reserve_in + amount_in) * (reserve_out - 0) > reserve_in * reserve_out)
                by (nonlinear_arith)
                requires
                    amount_in > 0,
                    reserve_in > 0,
                    reserve_out > 0,
            ;
        } else {
            assert(in_f > 0) by (nonlinear_arith)
                requires
                    in_f == amount_in * (1000 - fee),
                    amount_in > 0,
                    fee < 1000,
            ;
            assert(in_f * (reserve_in + amount_in) < amount_in * den) by (nonlinear_arith)
                requires
                    in_f == amount_in * (1000 - fee),
                    den == 1000 * reserve_in + in_f,
                    amount_in > 0,
                    reserve_in > 0,
                    0 < fee < 1000,
            ;
            assert(out * (reserve_in + amount_in) * den < amount_in * reserve_out * den)
                by (nonlinear_arith)
                requires
                    out * den <= num,
                    num == in_f * reserve_out,
                    in_f * (reserve_in + amount_in) < amount_in * den,
                    out > 0,
                    in_f > 0,
                    den > 0,
                    reserve_out > 0,
                    reserve_in + amount_in > 0,
            ;
            assert(out * (reserve_in + amount_in) < amount_in * reserve_out) by (nonlinear_arith)
                requires
                    out * (reserve_in + amount_in) * den < amount_in * reserve_out * den,
                    den > 0,
            ;
            assert((reserve_in + amount_in) * (reserve_out - out) > reserve_in * reserve_out)
                by (nonlinear_arith)
                requires
                    out * (reserve_in + amount_in) < amount_in * reserve_out,
                    out < reserve_out,
            ;
        }
    }
}

} // verus!
