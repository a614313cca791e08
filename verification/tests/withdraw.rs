use pluto_amm::constants::INTEGER_LIMIT;
use pluto_amm::errors::PlutoError;
use pluto_amm::state::AssetId;
use pluto_amm::state::PoolState;
use pluto_amm::withdraw_liquidity::compute_withdrawal;
use pluto_amm::withdraw_liquidity::withdraw_liquidity;

fn pool(reserve_a: u64, reserve_b: u64, liquidity_supply: u64) -> PoolState {
    PoolState {
        mint_a: AssetId::new([1u8; 32]),
        mint_b: AssetId::new([2u8; 32]),
        reserve_a,
        reserve_b,
        liquidity_supply,
    }
}

#[test]
fn withdrawal_returns_the_share_of_each_reserve() {
    let mut p = pool(3000, 4500, 2000);
    assert_eq!(withdraw_liquidity(&mut p, 500, 500), Ok((500, 750)));
    assert_eq!(p.snapshot(), (2500, 3750, 1500));
}

#[test]
fn withdrawal_counts_the_locked_shares() {
    // All outstanding shares are redeemed, and the locked thousand keep their part.
    let mut p = pool(1_000_000, 1_000_000, 999_000);
    assert_eq!(withdraw_liquidity(&mut p, 999_000, 999_000), Ok((999_000, 999_000)));
    assert_eq!(p.snapshot(), (1000, 1000, 0));
}

#[test]
fn withdrawal_rounds_down() {
    let mut p = pool(10, 10, 2);
    // 1 * 10 / 1002 = 0.0099
    assert_eq!(withdraw_liquidity(&mut p, 1, 1), Ok((0, 0)));
    assert_eq!(p.snapshot(), (10, 10, 1));
    let mut q = pool(7000, 9999, 2000);
    // 1000 * 7000 / 3000 = 2333.3 and 1000 * 9999 / 3000 = 3333
    assert_eq!(withdraw_liquidity(&mut q, 1000, 5000), Ok((2333, 3333)));
    assert_eq!(q.snapshot(), (4667, 6666, 1000));
}

#[test]
fn withdrawal_of_nothing_returns_nothing() {
    let mut p = pool(3000, 4500, 2000);
    assert_eq!(withdraw_liquidity(&mut p, 0, 500), Ok((0, 0)));
    assert_eq!(p.snapshot(), (3000, 4500, 2000));
    let mut empty = pool(0, 0, 0);
    assert_eq!(withdraw_liquidity(&mut empty, 0, 0), Ok((0, 0)));
    assert_eq!(empty.snapshot(), (0, 0, 0));
}

#[test]
fn withdrawal_of_more_than_the_caller_owns_is_invalid() {
    let mut p = pool(3000, 4500, 2000);
    assert_eq!(withdraw_liquidity(&mut p, 501, 500), Err(PlutoError::InvalidWithdrawalAmount));
    assert_eq!(withdraw_liquidity(&mut p, 1, 0), Err(PlutoError::InvalidWithdrawalAmount));
    assert_eq!(
        withdraw_liquidity(&mut p, u64::MAX, u64::MAX - 1),
        Err(PlutoError::InvalidWithdrawalAmount)
    );
    assert_eq!(p.snapshot(), (3000, 4500, 2000));
}

#[test]
fn withdrawal_of_more_than_is_outstanding_underflows() {
    let mut p = pool(3000, 4500, 2000);
    assert_eq!(withdraw_liquidity(&mut p, 2001, 5000), Err(PlutoError::Underflow));
    assert_eq!(p.snapshot(), (3000, 4500, 2000));
    assert_eq!(compute_withdrawal(&p, 2001, 5000), Ok((2001, 3001)));
    assert_eq!(withdraw_liquidity(&mut p, 2000, 5000), Ok((2000, 3000)));
    assert_eq!(p.snapshot(), (1000, 1500, 0));
}

#[test]
fn withdrawal_reports_overflow_and_changes_nothing() {
    // Shares without a fixed-point representation.
    let mut p = pool(3000, 4500, u64::MAX - 1000);
    assert_eq!(
        withdraw_liquidity(&mut p, INTEGER_LIMIT, u64::MAX),
        Err(PlutoError::ArithmeticOverflow)
    );
    // All shares together are more than a u64 holds.
    let mut q = pool(3000, 4500, u64::MAX - 999);
    assert_eq!(withdraw_liquidity(&mut q, 1, 1), Err(PlutoError::ArithmeticOverflow));
    assert_eq!(q.snapshot(), (3000, 4500, u64::MAX - 999));
    // All shares together have no fixed-point representation.
    let mut r = pool(3000, 4500, INTEGER_LIMIT - 1000);
    assert_eq!(withdraw_liquidity(&mut r, 1, 1), Err(PlutoError::ArithmeticOverflow));
    let mut r_fits = pool(3000, 4500, INTEGER_LIMIT - 1001);
    assert_eq!(withdraw_liquidity(&mut r_fits, 1, 1), Ok((0, 0)));
    // A reserve without one.
    let mut s = pool(INTEGER_LIMIT, 4500, 2000);
    assert_eq!(withdraw_liquidity(&mut s, 0, 1), Err(PlutoError::ArithmeticOverflow));
    let mut t = pool(3000, INTEGER_LIMIT, 2000);
    assert_eq!(withdraw_liquidity(&mut t, 0, 1), Err(PlutoError::ArithmeticOverflow));
    // A product of shares and reserve without one.
    let mut u = pool(1 << 32, 4500, 1 << 40);
    assert_eq!(withdraw_liquidity(&mut u, 1 << 31, 1 << 31), Err(PlutoError::ArithmeticOverflow));
    assert_eq!(u.snapshot(), (1 << 32, 4500, 1 << 40));
    let mut v = pool(4500, 1 << 32, 1 << 40);
    assert_eq!(withdraw_liquidity(&mut v, 1 << 31, 1 << 31), Err(PlutoError::ArithmeticOverflow));
    assert_eq!(v.snapshot(), (4500, 1 << 32, 1 << 40));
}

#[test]
fn compute_withdrawal_leaves_the_pool_alone() {
    let p = pool(3000, 4500, 2000);
    assert_eq!(compute_withdrawal(&p, 500, 500), Ok((500, 750)));
    assert_eq!(compute_withdrawal(&p, 501, 500), Err(PlutoError::InvalidWithdrawalAmount));
    assert_eq!(p.snapshot(), (3000, 4500, 2000));
}

#[test]
fn withdrawal_never_returns_more_than_the_exact_proportion() {
    let cases: [(u64, u64, u64, u64); 5] = [
        (3000, 4500, 2000, 500),
        (7000, 9999, 2000, 1000),
        (1_000_000, 1_000_000, 999_000, 999_000),
        (123_456_789, 987_654_321, 55_555, 44_444),
        (1, 1, 1, 1),
    ];
    for (reserve_a, reserve_b, supply, amount) in cases {
        let mut p = pool(reserve_a, reserve_b, supply);
        let (out_a, out_b) = withdraw_liquidity(&mut p, amount, amount).unwrap();
        let all_shares = supply as u128 + 1000;
        assert!(out_a as u128 * all_shares <= amount as u128 * reserve_a as u128);
        assert!((out_a as u128 + 1) * all_shares > amount as u128 * reserve_a as u128);
        assert!(out_b as u128 * all_shares <= amount as u128 * reserve_b as u128);
        assert!((out_b as u128 + 1) * all_shares > amount as u128 * reserve_b as u128);
        assert_eq!(p.snapshot(), (reserve_a - out_a, reserve_b - out_b, supply - amount));
    }
}
