//! Swaps: what a trade of one asset pays out in the other.
//!
//! The pool prices a trade on the curve `reserve_in * reserve_out = k`: after
//! the trade the output side holds `k` divided by the new input side,
//! rounded down, and the trader gets the rest. No fee is taken.

use crate::constants::INTEGER_LIMIT;
use crate::errors::PlutoError;
use crate::fixed_point::mul_div_floor;
use crate::math::clamp;
use crate::math::clamped;
use crate::math::lemma_div_bounds;
use crate::math::lemma_div_range;
use crate::state::PoolState;
use vstd::arithmetic::div_mod::lemma_fundamental_div_mod;
use vstd::prelude::*;

verus! {

/// What the output side holds after `input` has come in on the other side.
pub open spec fn reserve_out_after(reserve_in: u64, reserve_out: u64, input: u64) -> int {
    (reserve_in * reserve_out) / (reserve_in + input)
}

/// What a trade of `input` pays out.
pub open spec fn swap_output(reserve_in: u64, reserve_out: u64, input: u64) -> int {
    reserve_out - reserve_out_after(reserve_in, reserve_out, input)
}

/// Every quantity of the swap has a fixed-point representation: the two
/// reserves, their product, and the input side after the trade.
pub open spec fn swap_fits(reserve_in: u64, reserve_out: u64, input: u64) -> bool {
    &&& reserve_in < INTEGER_LIMIT
    &&& reserve_out < INTEGER_LIMIT
    &&& reserve_in * reserve_out < INTEGER_LIMIT
    &&& reserve_in + input < INTEGER_LIMIT
}

/// What a trade of at most `input_amount`, and at most `balance`, pays out.
pub open spec fn swap_quote(reserve_in: u64, reserve_out: u64, input_amount: u64, balance: u64) -> Result<
    u64,
    PlutoError,
> {
    let input = clamped(input_amount, balance);
    if input == 0 {
        Err(PlutoError::InsufficientLiquidity)
    } else if !swap_fits(reserve_in, reserve_out, input) {
        Err(PlutoError::ArithmeticOverflow)
    } else if swap_output(reserve_in, reserve_out, input) == 0 || swap_output(
        reserve_in,
        reserve_out,
        input,
    ) >= reserve_out {
        Err(PlutoError::InsufficientLiquidity)
    } else {
        Ok(swap_output(reserve_in, reserve_out, input) as u64)
    }
}

/// What [`swap_tokens`] answers: the quote for the side that is traded in.
pub open spec fn swap_result(pool: PoolState, swap_a: bool, input_amount: u64, balance: u64) -> Result<
    u64,
    PlutoError,
> {
    if swap_a {
        swap_quote(pool.reserve_a, pool.reserve_b, input_amount, balance)
    } else {
        swap_quote(pool.reserve_b, pool.reserve_a, input_amount, balance)
    }
}

/// The pool after [`swap_tokens`]: the input added on one side and the
/// output taken off the other, or as it was where the swap is rejected.
pub open spec fn pool_after_swap(pool: PoolState, swap_a: bool, input_amount: u64, balance: u64) -> PoolState {
    let input = clamped(input_amount, balance);
    match swap_result(pool, swap_a, input_amount, balance) {
        Err(_) => pool,
        Ok(output) => if swap_a {
            pool.shifted(input as int, -(output as int), 0)
        } else {
            pool.shifted(-(output as int), input as int, 0)
        },
    }
}

/// What is left on the output side is between nothing and all of it, and
/// times the new input side it is the old product of the reserves, less
/// what rounding down lost: at most the new input side less one.
pub proof fn lemma_reserve_out_after_bounds(reserve_in: u64, reserve_out: u64, input: u64)
    requires
        reserve_in + input > 0,
    ensures
        0 <= reserve_out_after(reserve_in, reserve_out, input) <= reserve_out,
        reserve_in * reserve_out - (reserve_in + input) < (reserve_in + input) * reserve_out_after(
            reserve_in,
            reserve_out,
            input,
        ) <= reserve_in * reserve_out,
{
    let k = reserve_in * reserve_out;
    let d = reserve_in + input;
    let q = reserve_out_after(reserve_in, reserve_out, input);
    assert(k >= 0) by (nonlinear_arith)
        requires
            k == reserve_in * reserve_out,
    ;
    lemma_div_bounds(k, d);
    lemma_div_range(k, d);
    assert(q * d == d * q && (q + 1) * d == d * q + d) by (nonlinear_arith);
    assert(q <= reserve_out) by (nonlinear_arith)
        requires
            q * d <= k,
            k == reserve_in * reserve_out,
            d >= reserve_in,
            d > 0,
            q >= 0,
    {
        if q > reserve_out {
            assert(q * d >= (reserve_out + 1) * d);
            assert((reserve_out + 1) * d > reserve_out * reserve_in);
        }
    }
}

/// The input side of a swap as it stands once the input has come in.
pub open spec fn input_side_after(pool: PoolState, swap_a: bool, input_amount: u64, balance: u64) -> int {
    if swap_a {
        pool.reserve_a + clamped(input_amount, balance)
    } else {
        pool.reserve_b + clamped(input_amount, balance)
    }
}

/// A swap never raises the product of the reserves, and lowers it by less
/// than the new input side: the output side keeps the old product divided
/// by the new input side, rounded down.
pub proof fn lemma_swap_product_bounds(pool: PoolState, swap_a: bool, input_amount: u64, balance: u64)
    requires
        swap_result(pool, swap_a, input_amount, balance) is Ok,
    ensures
        pool.product() - input_side_after(pool, swap_a, input_amount, balance) < pool_after_swap(
            pool,
            swap_a,
            input_amount,
            balance,
        ).product() <= pool.product(),
{
    let input = clamped(input_amount, balance);
    let after = pool_after_swap(pool, swap_a, input_amount, balance);
    if swap_a {
        lemma_reserve_out_after_bounds(pool.reserve_a, pool.reserve_b, input);
    } else {
        lemma_reserve_out_after_bounds(pool.reserve_b, pool.reserve_a, input);
        assert(pool.reserve_b * pool.reserve_a == pool.reserve_a * pool.reserve_b)
            by (nonlinear_arith);
        assert(after.reserve_b * after.reserve_a == after.reserve_a * after.reserve_b)
            by (nonlinear_arith);
    }
}

/// A swap does not lower the product of the reserves, unless it is carried
/// out and the new input side does not divide the old product: then the
/// remainder of that division is lost to rounding.
pub proof fn lemma_swap_keeps_product(pool: PoolState, swap_a: bool, input_amount: u64, balance: u64)
    requires
        swap_result(pool, swap_a, input_amount, balance) is Ok ==> pool.product()
            % input_side_after(pool, swap_a, input_amount, balance) == 0,
    ensures
        pool_after_swap(pool, swap_a, input_amount, balance).product() >= pool.product(),
{
    let input = clamped(input_amount, balance);
    let after = pool_after_swap(pool, swap_a, input_amount, balance);
    let d = input_side_after(pool, swap_a, input_amount, balance);
    if swap_result(pool, swap_a, input_amount, balance) is Err {
    } else if swap_a {
        lemma_reserve_out_after_bounds(pool.reserve_a, pool.reserve_b, input);
        lemma_fundamental_div_mod(pool.reserve_a * pool.reserve_b, d);
    } else {
        lemma_reserve_out_after_bounds(pool.reserve_b, pool.reserve_a, input);
        assert(pool.reserve_b * pool.reserve_a == pool.reserve_a * pool.reserve_b)
            by (nonlinear_arith);
        lemma_fundamental_div_mod(pool.reserve_b * pool.reserve_a, d);
        assert(after.reserve_b * after.reserve_a == after.reserve_a * after.reserve_b)
            by (nonlinear_arith);
    }
}

/// What a trade would pay out, the reserves being left alone.
///
/// The input is first cut down to the caller's balance. A trade of nothing
/// is `InsufficientLiquidity`, and so is one that would pay out nothing or
/// the whole output reserve.
pub fn compute_swap(reserve_in: u64, reserve_out: u64, input_amount: u64, balance: u64) -> (r: Result<
    u64,
    PlutoError,
>)
    ensures
        r == swap_quote(reserve_in, reserve_out, input_amount, balance),
        r matches Ok(output) ==> 0 < output < reserve_out && swap_fits(
            reserve_in,
            reserve_out,
            clamped(input_amount, balance),
        ),
{
    let input = clamp(input_amount, balance);
    if input == 0 {
        return Err(PlutoError::InsufficientLiquidity);
    }
    let reserve_in_after = match reserve_in.checked_add(input) {
        Some(sum) => sum,
        None => {
            return Err(PlutoError::ArithmeticOverflow);
        },
    };
    let reserve_out_after = mul_div_floor(reserve_in, reserve_out, reserve_in_after)?;
    proof {
        lemma_reserve_out_after_bounds(reserve_in, reserve_out, input);
    }
    let output = reserve_out - reserve_out_after;
    if output == 0 || output >= reserve_out {
        return Err(PlutoError::InsufficientLiquidity);
    }
    Ok(output)
}

/// Trades at most `input_amount` of one asset, and at most `balance`, for
/// the other: asset A for asset B where `swap_a`, else B for A. Answers what
/// is paid out, adds the input to the pool's one reserve and takes the
/// output off the other. The share supply does not change.
///
/// A swap that is rejected leaves the pool as it was.
pub fn swap_tokens(pool: &mut PoolState, swap_a: bool, input_amount: u64, balance: u64) -> (r: Result<
    u64,
    PlutoError,
>)
    ensures
        r == swap_result(*old(pool), swap_a, input_amount, balance),
        *final(pool) == pool_after_swap(*old(pool), swap_a, input_amount, balance),
        r is Err ==> *final(pool) == *old(pool),
        clamped(input_amount, balance) == 0 ==> r == Err::<u64, PlutoError>(
            PlutoError::InsufficientLiquidity,
        ),
        old(pool).wf() ==> final(pool).wf(),
        r is Ok ==> old(pool).product() - input_side_after(
            *old(pool),
            swap_a,
            input_amount,
            balance,
        ) < final(pool).product() <= old(pool).product(),
        (r is Ok ==> old(pool).product() % input_side_after(
            *old(pool),
            swap_a,
            input_amount,
            balance,
        ) == 0) ==> final(pool).product() >= old(pool).product(),
{
    let input = clamp(input_amount, balance);
    proof {
        if swap_result(*pool, swap_a, input_amount, balance) is Ok {
            lemma_swap_product_bounds(*pool, swap_a, input_amount, balance);
            if pool.product() % input_side_after(*pool, swap_a, input_amount, balance) == 0 {
                lemma_swap_keeps_product(*pool, swap_a, input_amount, balance);
            }
        }
    }
    if swap_a {
        let output = compute_swap(pool.reserve_a, pool.reserve_b, input_amount, balance)?;
        pool.apply(input as i64, -(output as i64), 0)?;
        Ok(output)
    } else {
        let output = compute_swap(pool.reserve_b, pool.reserve_a, input_amount, balance)?;
        pool.apply(-(output as i64), input as i64, 0)?;
        Ok(output)
    }
}

} // verus!
