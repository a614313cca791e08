//! What holds of the pool's operations taken one after another.

use crate::deposit_liquidity::deposit_result;
use crate::deposit_liquidity::pool_after_deposit;
use crate::state::PoolState;
use crate::swap_token::pool_after_swap;
use crate::swap_token::swap_result;
use crate::withdraw_liquidity::pool_after_withdrawal;
use crate::withdraw_liquidity::withdraw_result;
use vstd::prelude::*;

verus! {

/// A deposit never lowers a reserve, and so never lowers their product.
pub proof fn lemma_deposit_raises_product(
    pool: PoolState,
    amount_a: u64,
    amount_b: u64,
    balance_a: u64,
    balance_b: u64,
)
    ensures
        ({
            let after = pool_after_deposit(pool, amount_a, amount_b, balance_a, balance_b);
            &&& after.reserve_a >= pool.reserve_a
            &&& after.reserve_b >= pool.reserve_b
            &&& after.liquidity_supply >= pool.liquidity_supply
            &&& after.product() >= pool.product()
        }),
{
    let after = pool_after_deposit(pool, amount_a, amount_b, balance_a, balance_b);
    assert(after.reserve_a * after.reserve_b >= pool.reserve_a * pool.reserve_b)
        by (nonlinear_arith)
        requires
            after.reserve_a >= pool.reserve_a,
            after.reserve_b >= pool.reserve_b,
    ;
}

/// A deposit that is rejected leaves no trace: the pool is as it was, so a
/// deposit made after it, with any amounts and balances, is answered and
/// changes the pool as if the rejected one had never been tried.
pub proof fn lemma_rejected_deposit_leaves_no_trace(
    pool: PoolState,
    amount_a: u64,
    amount_b: u64,
    balance_a: u64,
    balance_b: u64,
    next_amount_a: u64,
    next_amount_b: u64,
    next_balance_a: u64,
    next_balance_b: u64,
)
    requires
        deposit_result(pool, amount_a, amount_b, balance_a, balance_b) is Err,
    ensures
        pool_after_deposit(pool, amount_a, amount_b, balance_a, balance_b) == pool,
        deposit_result(
            pool_after_deposit(pool, amount_a, amount_b, balance_a, balance_b),
            next_amount_a,
            next_amount_b,
            next_balance_a,
            next_balance_b,
        ) == deposit_result(pool, next_amount_a, next_amount_b, next_balance_a, next_balance_b),
        pool_after_deposit(
            pool_after_deposit(pool, amount_a, amount_b, balance_a, balance_b),
            next_amount_a,
            next_amount_b,
            next_balance_a,
            next_balance_b,
        ) == pool_after_deposit(
            pool,
            next_amount_a,
            next_amount_b,
            next_balance_a,
            next_balance_b,
        ),
{
}

/// A withdrawal that is rejected leaves no trace: the pool is as it was, so
/// a withdrawal made after it, of any amount, is answered and changes the
/// pool as if the rejected one had never been tried.
pub proof fn lemma_rejected_withdrawal_leaves_no_trace(
    pool: PoolState,
    amount: u64,
    share_balance: u64,
    next_amount: u64,
    next_share_balance: u64,
)
    requires
        withdraw_result(pool, amount, share_balance) is Err,
    ensures
        pool_after_withdrawal(pool, amount, share_balance) == pool,
        withdraw_result(
            pool_after_withdrawal(pool, amount, share_balance),
            next_amount,
            next_share_balance,
        ) == withdraw_result(pool, next_amount, next_share_balance),
        pool_after_withdrawal(
            pool_after_withdrawal(pool, amount, share_balance),
            next_amount,
            next_share_balance,
        ) == pool_after_withdrawal(pool, next_amount, next_share_balance),
{
}

/// A swap that is rejected leaves no trace: the pool is as it was, so a swap
/// made after it, of any amount in either direction, is answered and changes
/// the pool as if the rejected one had never been tried.
pub proof fn lemma_rejected_swap_leaves_no_trace(
    pool: PoolState,
    swap_a: bool,
    input_amount: u64,
    balance: u64,
    next_swap_a: bool,
    next_input_amount: u64,
    next_balance: u64,
)
    requires
        swap_result(pool, swap_a, input_amount, balance) is Err,
    ensures
        pool_after_swap(pool, swap_a, input_amount, balance) == pool,
        swap_result(
            pool_after_swap(pool, swap_a, input_amount, balance),
            next_swap_a,
            next_input_amount,
            next_balance,
        ) == swap_result(pool, next_swap_a, next_input_amount, next_balance),
        pool_after_swap(
            pool_after_swap(pool, swap_a, input_amount, balance),
            next_swap_a,
            next_input_amount,
            next_balance,
        ) == pool_after_swap(pool, next_swap_a, next_input_amount, next_balance),
{
}

} // verus!
