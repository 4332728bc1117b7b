//! The pool state machine: construction, liquidity deposit and withdrawal
//! accounting, and the dynamic swap-fee curve.

use vstd::prelude::*;
use vstd::arithmetic::div_mod::{
    lemma_div_is_ordered, lemma_div_multiples_vanish, lemma_fundamental_div_mod, lemma_mod_bound,
};
use vstd::arithmetic::mul::{
    lemma_mul_inequality, lemma_mul_is_commutative, lemma_mul_upper_bound,
};

use crate::calc::{
    divide, lemma_divide_fraction_ge_one, lemma_divide_fraction_le_one, lemma_divide_self,
    lemma_multiply_by_one_unit, lemma_multiply_fraction_le, lemma_multiply_monotonic,
    lemma_multiply_nonneg, multiply, spec_divide, spec_multiply, PRECISION,
};
use crate::errors::Errors;

verus! {

/// A liquidity pool for a staked-token/base-token pair.
///
/// `price`, `min_fee`, `max_fee` and `liquidity_target` are immutable after
/// a successful `init`; the three counters move only through `add_liquidity`,
/// `remove_liquidity` and `swap`.
pub struct LpPool {
    /// Base-token value of one unit of staked token, scaled by `PRECISION`.
    pub price: u64,
    /// The fee charged while the reserve sits above the target, scaled.
    pub min_fee: u64,
    /// The fee the curve climbs toward as the reserve empties, scaled.
    pub max_fee: u64,
    /// The base reserve level at which the fee curve bottoms out.
    pub liquidity_target: u64,
    /// Base tokens held.
    pub token_amount_reserve: u64,
    /// Staked tokens held.
    pub st_token_amount: u64,
    /// LP tokens outstanding.
    pub lp_token_amount: u64,
}

/// The mathematical model of a pool state.
pub struct PoolView {
    pub price: int,
    pub min_fee: int,
    pub max_fee: int,
    pub liquidity_target: int,
    pub base_reserve: int,
    pub staked_reserve: int,
    pub lp_supply: int,
}

impl View for LpPool {
    type V = PoolView;

    open spec fn view(&self) -> PoolView {
        PoolView {
            price: self.price as int,
            min_fee: self.min_fee as int,
            max_fee: self.max_fee as int,
            liquidity_target: self.liquidity_target as int,
            base_reserve: self.token_amount_reserve as int,
            staked_reserve: self.st_token_amount as int,
            lp_supply: self.lp_token_amount as int,
        }
    }
}

impl PoolView {
    /// What a successful `init` establishes and every operation preserves.
    pub open spec fn wf(self) -> bool {
        &&& self.price > 0
        &&& self.min_fee < self.max_fee
        &&& self.liquidity_target > 0
    }
}

/// The pool's total holdings valued in base tokens at the fixed price.
pub open spec fn spec_pool_value(p: PoolView) -> int {
    p.base_reserve + spec_multiply(p.staked_reserve, p.price)
}

/// A deposit mints one LP token per base token whenever the pool's value is
/// trivially its base reserve: the supply equals the reserve and nothing is
/// staked (the empty pool included).
pub open spec fn spec_bootstrap(p: PoolView) -> bool {
    p.lp_supply == p.base_reserve && p.staked_reserve == 0
}

/// LP tokens minted by a general-case deposit of `x`: the supply grows by the
/// scaled ratio of the new pool value to the old, preserving each existing
/// holder's claim.
pub open spec fn spec_minted(p: PoolView, x: int) -> int {
    let value: int = spec_pool_value(p);
    let growth: int = spec_divide(value + x, value);
    spec_multiply(p.lp_supply, growth) - p.lp_supply
}

/// The scaled share of the outstanding supply that `x` LP tokens represent.
pub open spec fn spec_share(p: PoolView, x: int) -> int {
    spec_divide(x, p.lp_supply)
}

/// Base tokens paid out when `x` LP tokens are withdrawn.
pub open spec fn spec_base_out(p: PoolView, x: int) -> int {
    spec_multiply(spec_share(p, x), p.base_reserve)
}

/// Staked tokens paid out when `x` LP tokens are withdrawn.
pub open spec fn spec_staked_out(p: PoolView, x: int) -> int {
    spec_multiply(spec_share(p, x), p.staked_reserve)
}

/// The base-token equivalent of a staked amount at the pool price.
pub open spec fn spec_token_for_staked(p: PoolView, s: int) -> int {
    spec_multiply(p.price, s)
}

/// What remains of `amount` after the scaled `fee` is charged on it.
pub open spec fn spec_after_fee(amount: int, fee: int) -> int {
    amount - spec_multiply(amount, fee)
}

/// The swap cannot be satisfied: even at the maximum fee the payout would
/// exceed the current base reserve.
pub open spec fn spec_swap_too_big(p: PoolView, s: int) -> bool {
    spec_after_fee(spec_token_for_staked(p, s), p.max_fee) > p.base_reserve
}

/// The largest staked amount the current reserve could absorb at the maximum
/// fee; carried as the diagnostic payload of a rejected swap.
pub open spec fn spec_max_swap(p: PoolView) -> int {
    spec_divide(spec_after_fee(p.base_reserve, p.max_fee), p.price)
}

/// The flat minimum fee applies: charging it still leaves the reserve above
/// the liquidity target, or the fee curve is flat.
pub open spec fn spec_flat_fee_applies(p: PoolView, s: int) -> bool {
    let token_min_fee: int = spec_after_fee(spec_token_for_staked(p, s), p.min_fee);
    p.base_reserve - token_min_fee > p.liquidity_target || p.min_fee == p.max_fee
}

/// The sliding fee: it interpolates linearly from the minimum toward the
/// maximum as the fee-free post-swap reserve falls from the liquidity target
/// toward zero.
pub open spec fn spec_unstake_fee(p: PoolView, s: int) -> int {
    let amount_after: int = p.base_reserve - spec_token_for_staked(p, s);
    let target_part: int = spec_divide(amount_after, p.liquidity_target);
    p.max_fee - spec_multiply(p.max_fee - p.min_fee, target_part)
}

/// The payout of a sliding-fee swap.
pub open spec fn spec_sliding_payout(p: PoolView, s: int) -> int {
    spec_after_fee(spec_token_for_staked(p, s), spec_unstake_fee(p, s))
}

/// The machine-width bounds under which `swap` runs without overflow or
/// underflow, for a swap of `s > 0`. A fee is a scaled fraction of at most
/// one whole unit, and the intermediate products must fit in 64 bits.
pub open spec fn swap_fits(p: PoolView, s: int) -> bool {
    let token_for_staked: int = spec_token_for_staked(p, s);
    &&& p.price * s <= u64::MAX
    &&& p.max_fee <= PRECISION
    &&& token_for_staked * p.max_fee <= u64::MAX
    &&& spec_swap_too_big(p, s) ==> {
        &&& p.base_reserve * p.max_fee <= u64::MAX
        &&& spec_after_fee(p.base_reserve, p.max_fee) * PRECISION <= u64::MAX
    }
    &&& !spec_swap_too_big(p, s) ==> {
        &&& spec_after_fee(token_for_staked, p.min_fee) <= p.base_reserve
        &&& p.staked_reserve + s <= u64::MAX
        &&& !spec_flat_fee_applies(p, s) ==> {
            &&& token_for_staked <= p.base_reserve
            &&& (p.base_reserve - token_for_staked) * PRECISION <= u64::MAX
        }
    }
}

/// The machine-width bounds under which `add_liquidity` runs without
/// overflow. These are limits of the 64-bit representation, not pool rules.
pub open spec fn add_liquidity_fits(p: PoolView, x: int) -> bool {
    if spec_bootstrap(p) {
        p.base_reserve + x <= u64::MAX
    } else {
        let value: int = spec_pool_value(p);
        &&& p.staked_reserve * p.price <= u64::MAX
        &&& value > 0
        &&& value + x <= u64::MAX
        &&& (value + x) * PRECISION <= u64::MAX
        &&& p.lp_supply * spec_divide(value + x, value) <= u64::MAX
    }
}

/// The machine-width bounds under which `remove_liquidity` runs without
/// overflow, for a withdrawal of `0 < x <= lp_supply`.
pub open spec fn remove_liquidity_fits(p: PoolView, x: int) -> bool {
    &&& x * PRECISION <= u64::MAX
    &&& spec_share(p, x) * p.base_reserve <= u64::MAX
    &&& spec_share(p, x) * p.staked_reserve <= u64::MAX
}

impl LpPool {
    /// Validates the immutable parameters and returns an active pool with
    /// all reserves and the LP supply at zero.
    pub fn init(price: u64, min_fee: u64, max_fee: u64, liquidity_target: u64) -> (r: Result<
        LpPool,
        Errors,
    >)
        ensures
            min_fee >= max_fee ==> r == Err::<LpPool, Errors>(Errors::InvalidFee),
            min_fee < max_fee && price == 0 ==> r == Err::<LpPool, Errors>(Errors::InvalidPrice),
            min_fee < max_fee && price > 0 && liquidity_target == 0 ==> r == Err::<LpPool, Errors>(
                Errors::InvalidLiquidityTarget,
            ),
            min_fee < max_fee && price > 0 && liquidity_target > 0 ==> (r matches Ok(pool)
                && pool@ == (PoolView {
                price: price as int,
                min_fee: min_fee as int,
                max_fee: max_fee as int,
                liquidity_target: liquidity_target as int,
                base_reserve: 0,
                staked_reserve: 0,
                lp_supply: 0,
            }) && pool@.wf()),
    {
        if min_fee >= max_fee {
            return Err(Errors::InvalidFee);
        }
        if price == 0 {
            return Err(Errors::InvalidPrice);
        }
        if liquidity_target == 0 {
            return Err(Errors::InvalidLiquidityTarget);
        }
        Ok(
            LpPool {
                price,
                token_amount_reserve: 0,
                st_token_amount: 0,
                lp_token_amount: 0,
                liquidity_target,
                min_fee,
                max_fee,
            },
        )
    }

    /// Deposits base tokens and mints LP tokens in return.
    ///
    /// A zero deposit is rejected. In the one-to-one regime (supply equals
    /// reserve, nothing staked) the deposit mints LP tokens one for one;
    /// otherwise the supply grows by the scaled ratio of the new pool value
    /// to the old.
    pub fn add_liquidity(&mut self, token_amount: u64) -> (r: Result<u64, Errors>)
        requires
            old(self)@.wf(),
            token_amount > 0 ==> add_liquidity_fits(old(self)@, token_amount as int),
        ensures
            final(self)@.price == old(self)@.price,
            final(self)@.min_fee == old(self)@.min_fee,
            final(self)@.max_fee == old(self)@.max_fee,
            final(self)@.liquidity_target == old(self)@.liquidity_target,
            final(self)@.staked_reserve == old(self)@.staked_reserve,
            token_amount == 0 ==> r == Err::<u64, Errors>(Errors::InvalidDeposit) && *final(self)
                == *old(self),
            token_amount > 0 ==> {
                let minted: int = if spec_bootstrap(old(self)@) {
                    token_amount as int
                } else {
                    spec_minted(old(self)@, token_amount as int)
                };
                &&& (r matches Ok(m) && m == minted)
                &&& final(self)@.base_reserve == old(self)@.base_reserve + token_amount
                &&& final(self)@.lp_supply == old(self)@.lp_supply + minted
            },
    {
        if token_amount == 0 {
            return Err(Errors::InvalidDeposit);
        }
        if self.lp_token_amount == self.token_amount_reserve && self.st_token_amount == 0 {
            self.token_amount_reserve = self.token_amount_reserve + token_amount;
            self.lp_token_amount = self.lp_token_amount + token_amount;
            return Ok(token_amount);
        }
        proof {
            lemma_multiply_nonneg(old(self)@.staked_reserve, old(self)@.price);
        }
        let value_token: u64 = self.token_amount_reserve + multiply(
            self.st_token_amount,
            self.price,
        );
        let new_value_token: u64 = value_token + token_amount;
        let token_proportion: u64 = divide(new_value_token, value_token);
        proof {
            lemma_mint_keeps_supply(
                old(self)@.lp_supply,
                value_token as int,
                token_amount as int,
            );
        }
        let lp_token_minted: u64 = multiply(self.lp_token_amount, token_proportion)
            - self.lp_token_amount;
        self.token_amount_reserve = self.token_amount_reserve + token_amount;
        self.lp_token_amount = self.lp_token_amount + lp_token_minted;
        Ok(lp_token_minted)
    }

    /// Burns LP tokens and pays out both reserves in proportion to the
    /// withdrawn share of the outstanding supply.
    ///
    /// A zero withdrawal, or one beyond the outstanding supply, is rejected.
    /// Both payouts are computed from the reserves as they stood before the
    /// call.
    pub fn remove_liquidity(&mut self, lp_token_amount: u64) -> (r: Result<(u64, u64), Errors>)
        requires
            old(self)@.wf(),
            0 < lp_token_amount <= old(self)@.lp_supply ==> remove_liquidity_fits(
                old(self)@,
                lp_token_amount as int,
            ),
        ensures
            final(self)@.price == old(self)@.price,
            final(self)@.min_fee == old(self)@.min_fee,
            final(self)@.max_fee == old(self)@.max_fee,
            final(self)@.liquidity_target == old(self)@.liquidity_target,
            lp_token_amount == 0 || lp_token_amount > old(self)@.lp_supply ==> r == Err::<
                (u64, u64),
                Errors,
            >(Errors::InvalidLpTokenToRemove) && *final(self) == *old(self),
            0 < lp_token_amount <= old(self)@.lp_supply ==> {
                let base_out: int = spec_base_out(old(self)@, lp_token_amount as int);
                let staked_out: int = spec_staked_out(old(self)@, lp_token_amount as int);
                &&& (r matches Ok(out) && out.0 == base_out && out.1 == staked_out)
                &&& final(self)@.lp_supply == old(self)@.lp_supply - lp_token_amount
                &&& final(self)@.base_reserve == old(self)@.base_reserve - base_out
                &&& final(self)@.staked_reserve == old(self)@.staked_reserve - staked_out
            },
    {
        if lp_token_amount == 0 || lp_token_amount > self.lp_token_amount {
            return Err(Errors::InvalidLpTokenToRemove);
        }
        proof {
            lemma_divide_fraction_le_one(lp_token_amount as int, old(self)@.lp_supply);
        }
        let part_of_lp: u64 = divide(lp_token_amount, self.lp_token_amount);
        self.lp_token_amount = self.lp_token_amount - lp_token_amount;
        proof {
            lemma_multiply_fraction_le(part_of_lp as int, old(self)@.base_reserve);
            lemma_multiply_fraction_le(part_of_lp as int, old(self)@.staked_reserve);
        }
        let token_to_receive: u64 = multiply(part_of_lp, self.token_amount_reserve);
        self.token_amount_reserve = self.token_amount_reserve - token_to_receive;
        let st_token_to_receive: u64 = multiply(part_of_lp, self.st_token_amount);
        self.st_token_amount = self.st_token_amount - st_token_to_receive;
        Ok((token_to_receive, st_token_to_receive))
    }

    /// Swaps staked tokens for base tokens, charging the dynamic fee.
    ///
    /// A zero swap is rejected. A swap the reserve cannot satisfy even at the
    /// maximum fee is rejected with the largest staked amount that would
    /// succeed. Otherwise the flat minimum fee applies while the reserve
    /// stays above the liquidity target, and the sliding fee below it.
    pub fn swap(&mut self, staked_token_amount: u64) -> (r: Result<u64, Errors>)
        requires
            old(self)@.wf(),
            staked_token_amount > 0 ==> swap_fits(old(self)@, staked_token_amount as int),
        ensures
            final(self)@.price == old(self)@.price,
            final(self)@.min_fee == old(self)@.min_fee,
            final(self)@.max_fee == old(self)@.max_fee,
            final(self)@.liquidity_target == old(self)@.liquidity_target,
            final(self)@.lp_supply == old(self)@.lp_supply,
            staked_token_amount == 0 ==> r == Err::<u64, Errors>(Errors::InvalidSwapAmount)
                && *final(self) == *old(self),
            staked_token_amount > 0 && spec_swap_too_big(old(self)@, staked_token_amount as int)
                ==> (r matches Err(e) && e == (Errors::ToBigSwap(
                spec_max_swap(old(self)@) as u64,
            ))) && 0 <= spec_max_swap(old(self)@) <= u64::MAX && *final(self) == *old(self),
            staked_token_amount > 0 && !spec_swap_too_big(old(self)@, staked_token_amount as int)
                ==> {
                let payout: int = if spec_flat_fee_applies(old(self)@, staked_token_amount as int) {
                    spec_after_fee(
                        spec_token_for_staked(old(self)@, staked_token_amount as int),
                        old(self)@.min_fee,
                    )
                } else {
                    spec_sliding_payout(old(self)@, staked_token_amount as int)
                };
                &&& (r matches Ok(t) && t == payout)
                &&& final(self)@.base_reserve == old(self)@.base_reserve - payout
                &&& final(self)@.staked_reserve == old(self)@.staked_reserve + staked_token_amount
            },
    {
        if staked_token_amount == 0 {
            return Err(Errors::InvalidSwapAmount);
        }
        let token_for_st: u64 = multiply(self.price, staked_token_amount);
        proof {
            lemma_multiply_fraction_le(old(self)@.max_fee, token_for_st as int);
        }
        let token_receive_max_fee: u64 = token_for_st - multiply(token_for_st, self.max_fee);
        if token_receive_max_fee > self.token_amount_reserve {
            proof {
                lemma_multiply_fraction_le(old(self)@.max_fee, old(self)@.base_reserve);
            }
            let token_max_fee: u64 = self.token_amount_reserve - multiply(
                self.token_amount_reserve,
                self.max_fee,
            );
            let st_max_swap: u64 = divide(token_max_fee, self.price);
            return Err(Errors::ToBigSwap(st_max_swap));
        }
        proof {
            lemma_mul_inequality(
                old(self)@.min_fee,
                old(self)@.max_fee,
                token_for_st as int,
            );
            lemma_mul_is_commutative(old(self)@.min_fee, token_for_st as int);
            lemma_mul_is_commutative(old(self)@.max_fee, token_for_st as int);
            lemma_multiply_fraction_le(old(self)@.min_fee, token_for_st as int);
        }
        let token_min_fee: u64 = token_for_st - multiply(token_for_st, self.min_fee);
        let check_target: u64 = self.token_amount_reserve - token_min_fee;
        if check_target > self.liquidity_target || self.min_fee == self.max_fee {
            self.st_token_amount = self.st_token_amount + staked_token_amount;
            self.token_amount_reserve = self.token_amount_reserve - token_min_fee;
            return Ok(token_min_fee);
        }
        let amount_after: u64 = self.token_amount_reserve - token_for_st;
        proof {
            lemma_multiply_nonneg(token_for_st as int, old(self)@.min_fee);
            lemma_divide_fraction_le_one(amount_after as int, old(self)@.liquidity_target);
        }
        let target_part: u64 = divide(amount_after, self.liquidity_target);
        proof {
            lemma_mul_upper_bound(
                old(self)@.max_fee - old(self)@.min_fee,
                PRECISION as int,
                target_part as int,
                PRECISION as int,
            );
            lemma_multiply_fraction_le(
                target_part as int,
                old(self)@.max_fee - old(self)@.min_fee,
            );
        }
        let unstake_fee: u64 = self.max_fee - multiply(self.max_fee - self.min_fee, target_part);
        proof {
            lemma_mul_inequality(
                unstake_fee as int,
                old(self)@.max_fee,
                token_for_st as int,
            );
            lemma_mul_is_commutative(unstake_fee as int, token_for_st as int);
            lemma_multiply_fraction_le(unstake_fee as int, token_for_st as int);
            lemma_multiply_monotonic(
                token_for_st as int,
                old(self)@.min_fee,
                unstake_fee as int,
            );
        }
        let token_to_receive: u64 = token_for_st - multiply(token_for_st, unstake_fee);
        self.token_amount_reserve = self.token_amount_reserve - token_to_receive;
        self.st_token_amount = self.st_token_amount + staked_token_amount;
        Ok(token_to_receive)
    }
}

/// A deposit on a pool in the one-to-one regime keeps it there: with no swaps
/// in between, every deposit in a run meets `add_liquidity`'s one-to-one case
/// and mints LP tokens exactly equal to the value deposited, in exact
/// proportion to the pool's value.
pub proof fn lemma_bootstrap_deposit_exact(p: PoolView, x: int)
    requires
        spec_bootstrap(p),
        0 < x,
    ensures
        spec_bootstrap(
            (PoolView { base_reserve: p.base_reserve + x, lp_supply: p.lp_supply + x, ..p }),
        ),
{
}

/// Outside the one-to-one regime, minted LP tokens are proportional to the
/// deposited value relative to the pool's existing value, up to fixed-point
/// truncation: the minted amount never exceeds the exact proportional claim
/// `lp_supply * x / value`, and falls short of it by less than
/// `lp_supply / PRECISION + 1`.
pub proof fn lemma_minted_proportional(p: PoolView, x: int)
    requires
        0 <= p.lp_supply,
        0 < spec_pool_value(p),
        0 < x,
    ensures
        0 <= spec_minted(p, x),
        spec_minted(p, x) * spec_pool_value(p) <= p.lp_supply * x,
        spec_minted(p, x) * spec_pool_value(p) * PRECISION + p.lp_supply * spec_pool_value(p)
            + PRECISION * spec_pool_value(p) >= p.lp_supply * x * PRECISION,
{
    let s: int = PRECISION as int;
    let v: int = spec_pool_value(p);
    let lp: int = p.lp_supply;
    let growth: int = spec_divide(v + x, v);
    let m: int = spec_multiply(lp, growth);
    let r1: int = ((v + x) * s) % v;
    let r2: int = (lp * growth) % s;
    lemma_fundamental_div_mod((v + x) * s, v);
    lemma_mod_bound((v + x) * s, v);
    lemma_fundamental_div_mod(lp * growth, s);
    lemma_mod_bound(lp * growth, s);
    lemma_mint_keeps_supply(lp, v, x);
    assert((m - lp) * v <= lp * x && (m - lp) * v * s + lp * v + s * v >= lp * x * s)
        by (nonlinear_arith)
        requires
            0 < v,
            0 < x,
            0 <= lp,
            0 < s,
            (v + x) * s == v * growth + r1,
            0 <= r1 < v,
            lp * growth == s * m + r2,
            0 <= r2 < s,
    ;
}

/// Withdrawing the entire outstanding supply pays out both reserves in full:
/// the withdrawn share is exactly one whole unit, so the payouts equal the
/// reserves and the pool returns to exactly zero everywhere.
pub proof fn lemma_full_withdrawal_drains_pool(p: PoolView)
    requires
        0 < p.lp_supply,
        0 <= p.base_reserve,
        0 <= p.staked_reserve,
    ensures
        spec_share(p, p.lp_supply) == PRECISION,
        spec_base_out(p, p.lp_supply) == p.base_reserve,
        spec_staked_out(p, p.lp_supply) == p.staked_reserve,
{
    lemma_divide_self(p.lp_supply);
    lemma_multiply_by_one_unit(p.base_reserve);
    lemma_multiply_by_one_unit(p.staked_reserve);
}

/// A positive deposit never shrinks the supply: the scaled growth ratio is at
/// least one whole unit, so scaling the supply by it gives back at least the
/// supply.
proof fn lemma_mint_keeps_supply(lp: int, value: int, x: int)
    requires
        0 <= lp,
        0 < value,
        0 < x,
    ensures
        spec_multiply(lp, spec_divide(value + x, value)) >= lp,
{
    let s: int = PRECISION as int;
    let growth: int = spec_divide(value + x, value);
    lemma_divide_fraction_ge_one(value + x, value);
    lemma_mul_inequality(s, growth, lp);
    lemma_mul_is_commutative(s, lp);
    lemma_mul_is_commutative(growth, lp);
    lemma_div_is_ordered(lp * s, lp * growth, s);
    lemma_div_multiples_vanish(lp, s);
    lemma_mul_is_commutative(lp, s);
}

} // verus!
