//! Withdrawals: what a redemption of liquidity shares returns.
//!
//! A share is a claim on the reserves in proportion to all shares, those
//! locked by the first deposit included. What is returned is rounded down, so
//! that a withdrawal never takes more than its exact proportion.

use crate::constants::INTEGER_LIMIT;
use crate::constants::MINIMUM_LIQUIDITY;
use crate::errors::PlutoError;
use crate::fixed_point::mul_div_floor;
use crate::math::lemma_div_bounds;
use crate::math::lemma_div_range;
use crate::state::PoolState;
use vstd::prelude::*;

verus! {

/// The share of a reserve that `amount` liquidity shares stand for, rounded down.
pub open spec fn share_of(amount: u64, reserve: u64, liquidity_supply: u64) -> int {
    (amount * reserve) / (liquidity_supply + MINIMUM_LIQUIDITY)
}

/// Every quantity of the withdrawal has a fixed-point representation: the
/// shares, the reserves, the products of the shares with each reserve, and
/// the number of all shares.
pub open spec fn withdrawal_fits(pool: PoolState, amount: u64) -> bool {
    &&& amount < INTEGER_LIMIT
    &&& pool.reserve_a < INTEGER_LIMIT
    &&& pool.reserve_b < INTEGER_LIMIT
    &&& amount * pool.reserve_a < INTEGER_LIMIT
    &&& amount * pool.reserve_b < INTEGER_LIMIT
    &&& pool.liquidity_supply + MINIMUM_LIQUIDITY < INTEGER_LIMIT
}

/// What a redemption of `amount` shares returns of each asset, before the
/// pool is asked to give it.
pub open spec fn withdrawal_quote(pool: PoolState, amount: u64, share_balance: u64) -> Result<
    (u64, u64),
    PlutoError,
> {
    if amount > share_balance {
        Err(PlutoError::InvalidWithdrawalAmount)
    } else if !withdrawal_fits(pool, amount) {
        Err(PlutoError::ArithmeticOverflow)
    } else {
        Ok(
            (
                share_of(amount, pool.reserve_a, pool.liquidity_supply) as u64,
                share_of(amount, pool.reserve_b, pool.liquidity_supply) as u64,
            ),
        )
    }
}

/// What [`withdraw_liquidity`] answers: the quote, unless more shares are
/// redeemed than are outstanding.
pub open spec fn withdraw_result(pool: PoolState, amount: u64, share_balance: u64) -> Result<
    (u64, u64),
    PlutoError,
> {
    match withdrawal_quote(pool, amount, share_balance) {
        Err(e) => Err(e),
        Ok(out) => if amount > pool.liquidity_supply {
            Err(PlutoError::Underflow)
        } else {
            Ok(out)
        },
    }
}

/// The pool after [`withdraw_liquidity`]: less what was returned and
/// redeemed, or as it was where the withdrawal is rejected.
pub open spec fn pool_after_withdrawal(pool: PoolState, amount: u64, share_balance: u64) -> PoolState {
    match withdraw_result(pool, amount, share_balance) {
        Err(_) => pool,
        Ok((out_a, out_b)) => pool.shifted(-(out_a as int), -(out_b as int), -(amount as int)),
    }
}

/// A share of a reserve is not more than the exact proportion, and where no
/// more shares are redeemed than are outstanding it leaves some of a reserve
/// that is not empty.
pub proof fn lemma_share_of_bounds(amount: u64, reserve: u64, liquidity_supply: u64)
    ensures
        0 <= share_of(amount, reserve, liquidity_supply) <= amount * reserve,
        share_of(amount, reserve, liquidity_supply) * (liquidity_supply + MINIMUM_LIQUIDITY)
            <= amount * reserve,
        amount <= liquidity_supply ==> share_of(amount, reserve, liquidity_supply) <= reserve,
        amount <= liquidity_supply && reserve > 0 ==> share_of(amount, reserve, liquidity_supply)
            < reserve,
{
    let total = liquidity_supply + MINIMUM_LIQUIDITY;
    let n = amount * reserve;
    let q = share_of(amount, reserve, liquidity_supply);
    assert(n >= 0) by (nonlinear_arith)
        requires
            n == amount * reserve,
    ;
    lemma_div_bounds(n, total);
    lemma_div_range(n, total);
    if amount <= liquidity_supply {
        assert(q <= reserve && (reserve > 0 ==> q < reserve)) by (nonlinear_arith)
            requires
                q * total <= n,
                n == amount * reserve,
                amount < total,
                q >= 0,
                total > 0,
        {
            if q >= reserve && reserve > 0 {
                assert(q * total >= reserve * total);
                assert(reserve * total > reserve * amount);
            }
            if q > reserve && reserve == 0 {
                assert(q * total > 0);
            }
        }
    }
}

/// What a redemption of `amount` shares would return, the pool being left
/// alone. `InvalidWithdrawalAmount` where the caller owns fewer shares.
pub fn compute_withdrawal(pool: &PoolState, amount: u64, share_balance: u64) -> (r: Result<
    (u64, u64),
    PlutoError,
>)
    ensures
        r == withdrawal_quote(*pool, amount, share_balance),
{
    if amount > share_balance {
        return Err(PlutoError::InvalidWithdrawalAmount);
    }
    let all_shares = match pool.liquidity_supply.checked_add(MINIMUM_LIQUIDITY) {
        Some(all_shares) => all_shares,
        None => {
            return Err(PlutoError::ArithmeticOverflow);
        },
    };
    let out_a = mul_div_floor(amount, pool.reserve_a, all_shares)?;
    let out_b = mul_div_floor(amount, pool.reserve_b, all_shares)?;
    Ok((out_a, out_b))
}

/// Redeems `amount` liquidity shares: answers what is returned of each
/// asset, and takes that and the shares off the pool's numbers.
///
/// `InvalidWithdrawalAmount` where the caller owns fewer shares than
/// `amount`; `Underflow` where fewer are outstanding. A withdrawal that is
/// rejected leaves the pool as it was.
pub fn withdraw_liquidity(pool: &mut PoolState, amount: u64, share_balance: u64) -> (r: Result<
    (u64, u64),
    PlutoError,
>)
    ensures
        r == withdraw_result(*old(pool), amount, share_balance),
        *final(pool) == pool_after_withdrawal(*old(pool), amount, share_balance),
        r is Err ==> *final(pool) == *old(pool),
        amount > share_balance ==> r == Err::<(u64, u64), PlutoError>(
            PlutoError::InvalidWithdrawalAmount,
        ),
        r matches Ok(out) ==> out.0 * (old(pool).liquidity_supply + MINIMUM_LIQUIDITY) <= amount
            * old(pool).reserve_a && out.1 * (old(pool).liquidity_supply + MINIMUM_LIQUIDITY)
            <= amount * old(pool).reserve_b,
        old(pool).wf() ==> final(pool).wf(),
{
    let (out_a, out_b) = compute_withdrawal(pool, amount, share_balance)?;
    proof {
        lemma_share_of_bounds(amount, pool.reserve_a, pool.liquidity_supply);
        lemma_share_of_bounds(amount, pool.reserve_b, pool.liquidity_supply);
    }
    pool.apply(-(out_a as i64), -(out_b as i64), -(amount as i64))?;
    Ok((out_a, out_b))
}

} // verus!
