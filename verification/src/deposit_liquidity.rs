//! Deposits: how much of each asset a deposit uses and how many liquidity
//! shares it mints.
//!
//! The first deposit into a pool sets its price and uses both amounts as
//! they are. A later deposit is brought into the ratio of the reserves: the
//! side of the smaller reserve is used as offered and the other side is
//! scaled from it. Shares are the geometric mean of the two used amounts,
//! rounded down; the first deposit gives up [`MINIMUM_LIQUIDITY`] of them.

use crate::constants::INTEGER_LIMIT;
use crate::constants::MINIMUM_LIQUIDITY;
use crate::constants::SCALE;
use crate::errors::PlutoError;
use crate::fixed_point::Fixed;
use crate::math::clamp;
use crate::math::clamped;
use crate::math::floor_sqrt;
use crate::math::is_floor_sqrt;
use crate::math::lemma_div_exact;
use crate::math::lemma_floor_sqrt_unique;
use crate::math::lemma_integer_part_of_root;
use crate::math::lemma_product_of_integers;
use crate::math::lemma_ratio_of_integers;
use crate::math::lemma_scale_by_ratio_bounds;
use crate::math::ratio_scaled;
use crate::math::scale_by_ratio;
use crate::state::PoolState;
use vstd::prelude::*;

verus! {

/// `amount` times the fixed-point ratio `num / den`: which amount of the
/// larger reserve goes with `amount` of the smaller one.
pub open spec fn matched_amount(amount: u64, num: u64, den: u64) -> Result<u64, PlutoError> {
    if den == 0 {
        Err(PlutoError::DivisionByZero)
    } else if amount >= INTEGER_LIMIT || amount * ratio_scaled(num as int, den as int)
        > i128::MAX {
        Err(PlutoError::ArithmeticOverflow)
    } else {
        Ok(scale_by_ratio(amount as int, num as int, den as int) as u64)
    }
}

/// Which amounts of the two assets a deposit of at most `a` and `b` uses.
pub open spec fn used_amounts(pool: PoolState, a: u64, b: u64) -> Result<(u64, u64), PlutoError> {
    if pool.is_empty() {
        Ok((a, b))
    } else if pool.reserve_a >= INTEGER_LIMIT || pool.reserve_b >= INTEGER_LIMIT {
        Err(PlutoError::ArithmeticOverflow)
    } else if pool.reserve_a > pool.reserve_b {
        match matched_amount(b, pool.reserve_a, pool.reserve_b) {
            Ok(used_a) => Ok((used_a, b)),
            Err(e) => Err(e),
        }
    } else if pool.reserve_a < pool.reserve_b {
        match matched_amount(a, pool.reserve_b, pool.reserve_a) {
            Ok(used_b) => Ok((a, used_b)),
            Err(e) => Err(e),
        }
    } else {
        Ok((clamped(a, b), clamped(a, b)))
    }
}

/// The shares that two used amounts are worth: their geometric mean, rounded
/// down, where the amounts and their product can be represented.
pub open spec fn shares_for(used_a: u64, used_b: u64) -> Result<u64, PlutoError> {
    if used_a >= INTEGER_LIMIT || used_b >= INTEGER_LIMIT || used_a * used_b >= INTEGER_LIMIT {
        Err(PlutoError::ArithmeticOverflow)
    } else {
        Ok(floor_sqrt(used_a * used_b) as u64)
    }
}

/// What a deposit uses of each asset and how many shares it credits, before
/// the pool is asked to take it.
pub open spec fn deposit_quote(
    pool: PoolState,
    amount_a: u64,
    amount_b: u64,
    balance_a: u64,
    balance_b: u64,
) -> Result<(u64, u64, u64), PlutoError> {
    match used_amounts(pool, clamped(amount_a, balance_a), clamped(amount_b, balance_b)) {
        Err(e) => Err(e),
        Ok((used_a, used_b)) => match shares_for(used_a, used_b) {
            Err(e) => Err(e),
            Ok(shares) => if !pool.is_empty() {
                Ok((used_a, used_b, shares))
            } else if shares < MINIMUM_LIQUIDITY {
                Err(PlutoError::DepositTooSmall)
            } else {
                Ok((used_a, used_b, (shares - MINIMUM_LIQUIDITY) as u64))
            },
        },
    }
}

/// What [`deposit_liquidity`] answers: the quote, where the pool can take it.
pub open spec fn deposit_result(
    pool: PoolState,
    amount_a: u64,
    amount_b: u64,
    balance_a: u64,
    balance_b: u64,
) -> Result<(u64, u64, u64), PlutoError> {
    match deposit_quote(pool, amount_a, amount_b, balance_a, balance_b) {
        Err(e) => Err(e),
        Ok((used_a, used_b, minted)) => match pool.apply_result(
            used_a as int,
            used_b as int,
            minted as int,
        ) {
            Err(e) => Err(e),
            Ok(_) => Ok((used_a, used_b, minted)),
        },
    }
}

/// The pool after [`deposit_liquidity`]: grown by what was used and minted,
/// or as it was where the deposit is rejected.
pub open spec fn pool_after_deposit(
    pool: PoolState,
    amount_a: u64,
    amount_b: u64,
    balance_a: u64,
    balance_b: u64,
) -> PoolState {
    match deposit_result(pool, amount_a, amount_b, balance_a, balance_b) {
        Err(_) => pool,
        Ok((used_a, used_b, minted)) => pool.shifted(used_a as int, used_b as int, minted as int),
    }
}

/// The used amounts stand in the ratio of the reserves, as far as whole
/// units allow: the scaled side is the exact proportional amount rounded
/// down, or one unit less.
pub open spec fn in_pool_ratio(pool: PoolState, used_a: u64, used_b: u64) -> bool {
    if pool.reserve_a > pool.reserve_b {
        (used_b * pool.reserve_a) / (pool.reserve_b as int) - 1 <= used_a <= (used_b
            * pool.reserve_a) / (pool.reserve_b as int)
    } else if pool.reserve_a < pool.reserve_b {
        (used_a * pool.reserve_b) / (pool.reserve_a as int) - 1 <= used_b <= (used_a
            * pool.reserve_b) / (pool.reserve_a as int)
    } else {
        used_a == used_b
    }
}

/// A later deposit that is quoted uses amounts in the ratio of the reserves.
pub proof fn lemma_deposit_keeps_ratio(
    pool: PoolState,
    amount_a: u64,
    amount_b: u64,
    balance_a: u64,
    balance_b: u64,
)
    requires
        !pool.is_empty(),
        deposit_quote(pool, amount_a, amount_b, balance_a, balance_b) is Ok,
    ensures
        ({
            let quote = deposit_quote(pool, amount_a, amount_b, balance_a, balance_b)->Ok_0;
            in_pool_ratio(pool, quote.0, quote.1)
        }),
{
    let a = clamped(amount_a, balance_a);
    let b = clamped(amount_b, balance_b);
    if pool.reserve_a > pool.reserve_b {
        lemma_scale_by_ratio_bounds(b as int, pool.reserve_a as int, pool.reserve_b as int);
    } else if pool.reserve_a < pool.reserve_b {
        lemma_scale_by_ratio_bounds(a as int, pool.reserve_b as int, pool.reserve_a as int);
    }
}

/// `amount` times a fixed-point ratio, rounded down to an integer.
fn scale_amount(amount: u64, ratio: Fixed) -> (r: Result<u64, PlutoError>)
    ensures
        match r {
            Ok(scaled) => amount < INTEGER_LIMIT && amount * ratio.scaled() <= i128::MAX
                && scaled == (amount * ratio.scaled()) / (SCALE as int),
            Err(e) => e == PlutoError::ArithmeticOverflow && (amount >= INTEGER_LIMIT || amount
                * ratio.scaled() > i128::MAX),
        },
{
    let fixed_amount = Fixed::from_integer(amount)?;
    proof {
        lemma_div_exact(amount * ratio.scaled(), SCALE as int);
        assert((amount * SCALE) * ratio.scaled() == (amount * ratio.scaled()) * SCALE)
            by (nonlinear_arith);
    }
    let product = fixed_amount.checked_mul(ratio)?;
    Ok(product.to_integer_floor())
}

/// The geometric mean of two amounts, rounded down: the square root, taken in
/// fixed point, of their product. `ArithmeticOverflow` where an amount or the
/// product has no fixed-point representation.
pub fn geometric_mean(used_a: u64, used_b: u64) -> (r: Result<u64, PlutoError>)
    ensures
        r == shares_for(used_a, used_b),
        r matches Ok(shares) ==> is_floor_sqrt(used_a * used_b, shares as int),
{
    let fixed_a = Fixed::from_integer(used_a)?;
    let fixed_b = Fixed::from_integer(used_b)?;
    proof {
        lemma_product_of_integers(used_a as int, used_b as int);
    }
    let product = fixed_a.checked_mul(fixed_b)?;
    let root = product.sqrt();
    let shares = root.to_integer_floor();
    proof {
        lemma_integer_part_of_root(used_a * used_b, root.scaled());
        lemma_floor_sqrt_unique(used_a * used_b, shares as int);
    }
    Ok(shares)
}

/// What a deposit would use and mint, the pool being left alone.
///
/// The amounts asked for are first cut down to the caller's balances.
pub fn compute_deposit(
    pool: &PoolState,
    amount_a: u64,
    amount_b: u64,
    balance_a: u64,
    balance_b: u64,
) -> (r: Result<(u64, u64, u64), PlutoError>)
    ensures
        r == deposit_quote(*pool, amount_a, amount_b, balance_a, balance_b),
        r matches Ok(quote) ==> quote.0 < INTEGER_LIMIT && quote.1 < INTEGER_LIMIT && quote.2
            < INTEGER_LIMIT && (pool.is_empty() ==> quote.0 > 0 && quote.1 > 0),
{
    let a = clamp(amount_a, balance_a);
    let b = clamp(amount_b, balance_b);
    let bootstrap = pool.reserve_a == 0 && pool.reserve_b == 0;
    let (used_a, used_b) = if bootstrap {
        (a, b)
    } else {
        let fixed_a = Fixed::from_integer(pool.reserve_a)?;
        let fixed_b = Fixed::from_integer(pool.reserve_b)?;
        proof {
            lemma_ratio_of_integers(pool.reserve_a as int, pool.reserve_b as int);
            lemma_ratio_of_integers(pool.reserve_b as int, pool.reserve_a as int);
        }
        if pool.reserve_a > pool.reserve_b {
            let ratio = fixed_a.checked_div(fixed_b)?;
            (scale_amount(b, ratio)?, b)
        } else if pool.reserve_a < pool.reserve_b {
            let ratio = fixed_b.checked_div(fixed_a)?;
            (a, scale_amount(a, ratio)?)
        } else {
            let both = clamp(a, b);
            (both, both)
        }
    };
    let shares = geometric_mean(used_a, used_b)?;
    proof {
        let n = used_a * used_b;
        assert(shares < INTEGER_LIMIT && (shares >= 1 ==> used_a > 0 && used_b > 0))
            by (nonlinear_arith)
            requires
                n == used_a * used_b,
                is_floor_sqrt(n, shares as int),
                n < INTEGER_LIMIT,
        ;
    }
    if !bootstrap {
        return Ok((used_a, used_b, shares));
    }
    if shares < MINIMUM_LIQUIDITY {
        return Err(PlutoError::DepositTooSmall);
    }
    Ok((used_a, used_b, shares - MINIMUM_LIQUIDITY))
}

/// Deposits into the pool: at most `amount_a` and `amount_b`, and at most
/// what the caller holds. Answers what was used of each asset and how many
/// shares the caller is credited, and adds the three to the pool's numbers.
///
/// Into an empty pool both amounts go as they are, and the deposit must be
/// worth at least [`MINIMUM_LIQUIDITY`] shares, which the caller does not
/// get. Into any other pool the amounts go in the ratio of the reserves. A
/// deposit that is rejected leaves the pool as it was.
pub fn deposit_liquidity(
    pool: &mut PoolState,
    amount_a: u64,
    amount_b: u64,
    balance_a: u64,
    balance_b: u64,
) -> (r: Result<(u64, u64, u64), PlutoError>)
    ensures
        r == deposit_result(*old(pool), amount_a, amount_b, balance_a, balance_b),
        *final(pool) == pool_after_deposit(*old(pool), amount_a, amount_b, balance_a, balance_b),
        r is Err ==> *final(pool) == *old(pool),
        old(pool).wf() ==> final(pool).wf(),
        !old(pool).is_empty() ==> (r matches Ok(used) ==> in_pool_ratio(
            *old(pool),
            used.0,
            used.1,
        )),
        old(pool).is_empty() ==> (shares_for(
            clamped(amount_a, balance_a),
            clamped(amount_b, balance_b),
        ) matches Ok(shares) ==> shares < MINIMUM_LIQUIDITY ==> r == Err::<
            (u64, u64, u64),
            PlutoError,
        >(PlutoError::DepositTooSmall)),
        r matches Ok(used) ==> {
            &&& old(pool).reserve_a <= old(pool).reserve_b ==> used.0 <= amount_a && used.0
                <= balance_a
            &&& old(pool).reserve_a >= old(pool).reserve_b ==> used.1 <= amount_b && used.1
                <= balance_b
        },
{
    let (used_a, used_b, minted) = compute_deposit(pool, amount_a, amount_b, balance_a, balance_b)?;
    proof {
        if !pool.is_empty() {
            lemma_deposit_keeps_ratio(*pool, amount_a, amount_b, balance_a, balance_b);
        }
    }
    pool.apply(used_a as i64, used_b as i64, minted as i64)?;
    Ok((used_a, used_b, minted))
}

} // verus!
