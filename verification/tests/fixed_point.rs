use pluto_amm::constants::INTEGER_LIMIT;
use pluto_amm::constants::SCALE;
use pluto_amm::errors::PlutoError;
use pluto_amm::fixed_point::mul_div_floor;
use pluto_amm::fixed_point::Fixed;

fn fixed(n: u64) -> Fixed {
    Fixed::from_integer(n).unwrap()
}

fn quotient(n: u64, d: u64) -> Fixed {
    fixed(n).checked_div(fixed(d)).unwrap()
}

#[test]
fn from_integer_shifts_by_the_fractional_bits() {
    assert_eq!(fixed(0).to_bits(), 0);
    assert_eq!(fixed(1).to_bits(), SCALE);
    assert_eq!(fixed(5).to_bits(), 5i128 << 64);
    assert_eq!(fixed(INTEGER_LIMIT - 1).to_bits(), ((INTEGER_LIMIT - 1) as i128) << 64);
}

#[test]
fn from_integer_rejects_what_has_no_representation() {
    assert_eq!(Fixed::from_integer(INTEGER_LIMIT), Err(PlutoError::ArithmeticOverflow));
    assert_eq!(Fixed::from_integer(u64::MAX), Err(PlutoError::ArithmeticOverflow));
}

#[test]
fn to_integer_floor_drops_the_fraction() {
    assert_eq!(fixed(0).to_integer_floor(), 0);
    assert_eq!(fixed(42).to_integer_floor(), 42);
    assert_eq!(quotient(7, 2).to_integer_floor(), 3);
    assert_eq!(quotient(1, 3).to_integer_floor(), 0);
    assert_eq!(quotient(999_999, 1000).to_integer_floor(), 999);
    assert_eq!(fixed(INTEGER_LIMIT - 1).to_integer_floor(), INTEGER_LIMIT - 1);
}

#[test]
fn floor_clears_the_fraction() {
    assert_eq!(quotient(7, 2).to_bits(), 0x3_8000_0000_0000_0000);
    assert_eq!(quotient(7, 2).floor().to_bits(), 3i128 << 64);
    assert_eq!(quotient(1, 3).floor().to_bits(), 0);
    assert_eq!(fixed(9).floor(), fixed(9));
}

#[test]
fn checked_mul_multiplies_and_rounds_down() {
    assert_eq!(fixed(2).checked_mul(fixed(3)), Ok(fixed(6)));
    assert_eq!(fixed(0).checked_mul(fixed(3)), Ok(fixed(0)));
    assert_eq!(quotient(7, 2).checked_mul(fixed(2)), Ok(fixed(7)));
    assert_eq!(quotient(1, 2).checked_mul(quotient(1, 2)), Ok(quotient(1, 4)));
    // A third is rounded down, and three of them fall short of one by one bit.
    let third = quotient(1, 3);
    assert_eq!(third.to_bits(), 0x5555_5555_5555_5555);
    assert_eq!(third.checked_mul(fixed(3)).unwrap().to_bits(), 0xffff_ffff_ffff_ffff);
    // The smallest positive number times itself is rounded down to nothing.
    let tiny = quotient(1, 1 << 62).checked_div(fixed(4)).unwrap();
    assert_eq!(tiny.to_bits(), 1);
    assert_eq!(tiny.checked_mul(tiny).unwrap().to_bits(), 0);
}

#[test]
fn checked_mul_reports_overflow() {
    let big = fixed(1 << 32);
    assert_eq!(big.checked_mul(fixed(1 << 31)), Err(PlutoError::ArithmeticOverflow));
    assert_eq!(big.checked_mul(fixed((1 << 31) - 1)), Ok(fixed(((1u64 << 31) - 1) << 32)));
    let largest = fixed(INTEGER_LIMIT - 1);
    assert_eq!(largest.checked_mul(fixed(1)), Ok(largest));
    assert_eq!(largest.checked_mul(fixed(2)), Err(PlutoError::ArithmeticOverflow));
}

#[test]
fn checked_div_divides_and_rounds_down() {
    assert_eq!(fixed(6).checked_div(fixed(3)), Ok(fixed(2)));
    assert_eq!(fixed(0).checked_div(fixed(3)), Ok(fixed(0)));
    assert_eq!(quotient(1, 3).to_bits(), 6148914691236517205);
    assert_eq!(quotient(2, 3).to_bits(), 12297829382473034410);
    assert_eq!(quotient(1_000_000, 3).to_integer_floor(), 333_333);
}

#[test]
fn checked_div_reports_division_by_zero() {
    assert_eq!(fixed(6).checked_div(fixed(0)), Err(PlutoError::DivisionByZero));
    assert_eq!(fixed(0).checked_div(fixed(0)), Err(PlutoError::DivisionByZero));
}

#[test]
fn checked_div_reports_overflow() {
    let tiny = quotient(1, 1 << 62);
    assert_eq!(fixed(2).checked_div(tiny), Err(PlutoError::ArithmeticOverflow));
    assert_eq!(fixed(1).checked_div(tiny), Ok(fixed(1 << 62)));
}

#[test]
fn sqrt_is_rounded_down() {
    assert_eq!(fixed(0).sqrt(), fixed(0));
    assert_eq!(fixed(1).sqrt(), fixed(1));
    assert_eq!(fixed(16).sqrt(), fixed(4));
    assert_eq!(fixed(1_000_000_000_000).sqrt(), fixed(1_000_000));
    assert_eq!(fixed(2).sqrt().to_bits(), 0x1_6a09_e667_f3bc_c908);
    assert_eq!(fixed(15).sqrt().to_integer_floor(), 3);
    assert_eq!(fixed(17).sqrt().to_integer_floor(), 4);
    assert_eq!(quotient(1, 4).sqrt(), quotient(1, 2));
}

#[test]
fn sqrt_squared_is_never_above_the_number() {
    for n in [2u64, 3, 5, 10, 99, 1_000_003, 123_456_789_012] {
        let root = fixed(n).sqrt().to_bits();
        let number = fixed(n).to_bits();
        // root^2 <= number * SCALE < (root + 1)^2, the squares taken in 256 bits.
        let (hi, lo) = widening_square(root as u128);
        let (hi_next, lo_next) = widening_square(root as u128 + 1);
        let target_hi = (number as u128) >> 64;
        let target_lo = (number as u128) << 64;
        assert!((hi, lo) <= (target_hi, target_lo));
        assert!((target_hi, target_lo) < (hi_next, lo_next));
    }
}

fn widening_square(x: u128) -> (u128, u128) {
    let mask = (1u128 << 64) - 1;
    let (x1, x0) = (x >> 64, x & mask);
    let low = x0 * x0;
    let mid = x1 * x0;
    let high = x1 * x1;
    let (lo, carry_a) = low.overflowing_add(mid << 64);
    let (lo, carry_b) = lo.overflowing_add(mid << 64);
    let hi = high + 2 * (mid >> 64) + carry_a as u128 + carry_b as u128;
    (hi, lo)
}

#[test]
fn mul_div_floor_gives_the_rounded_down_quotient() {
    assert_eq!(mul_div_floor(999_000, 1_000_000, 1_000_000), Ok(999_000));
    assert_eq!(mul_div_floor(500, 4500, 3000), Ok(750));
    assert_eq!(mul_div_floor(10, 10, 13), Ok(7));
    assert_eq!(mul_div_floor(0, 10, 13), Ok(0));
    assert_eq!(mul_div_floor(1, 1, 2), Ok(0));
    assert_eq!(mul_div_floor(3_037_000_499, 3_037_000_499, 1), Ok(9_223_372_030_926_249_001));
}

#[test]
fn mul_div_floor_reports_what_it_cannot_represent() {
    assert_eq!(mul_div_floor(INTEGER_LIMIT, 1, 1), Err(PlutoError::ArithmeticOverflow));
    assert_eq!(mul_div_floor(1, INTEGER_LIMIT, 1), Err(PlutoError::ArithmeticOverflow));
    assert_eq!(mul_div_floor(1, 1, INTEGER_LIMIT), Err(PlutoError::ArithmeticOverflow));
    assert_eq!(mul_div_floor(1 << 32, 1 << 31, 1), Err(PlutoError::ArithmeticOverflow));
    assert_eq!(mul_div_floor(3_037_000_500, 3_037_000_500, 1), Err(PlutoError::ArithmeticOverflow));
    assert_eq!(mul_div_floor(1, 1, 0), Err(PlutoError::DivisionByZero));
    assert_eq!(mul_div_floor(1 << 32, 1 << 31, 0), Err(PlutoError::ArithmeticOverflow));
}
