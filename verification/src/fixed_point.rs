//! Non-negative fixed-point numbers with 64 integer and 64 fractional bits.
//!
//! The arithmetic itself is done by the `fixed` crate on its `I64F64` type.
//! A [`Fixed`] keeps the bit pattern of such a number and never holds a
//! negative one, so every operation here is total: it returns a number or
//! says why it cannot.

use crate::constants::INTEGER_LIMIT;
use crate::constants::SCALE;
use crate::errors::PlutoError;
use crate::math::floor_sqrt;
use crate::math::is_floor_sqrt;
use crate::math::lemma_div_exact;
use crate::math::lemma_div_range;
use crate::math::lemma_floor_sqrt_unique;
use crate::math::lemma_integer_part_of_quotient;
use crate::math::lemma_product_of_integers;
use crate::math::lemma_ratio_of_integers;
use fixed::types::I64F64;
use vstd::prelude::*;

verus! {

/// A number `scaled() / SCALE` with `0 <= scaled() <= i128::MAX`.
#[derive(Clone, Copy, Debug, PartialEq, Eq, Structural)]
pub struct Fixed {
    bits: i128,
}

/// `I64F64::from_num` on a `u64` that fits: the number `n` itself, whose bit
/// pattern is `n * SCALE`. Larger integers, on which `from_num` panics or
/// wraps, are left out.
#[verifier::external_body]
fn bits_from_num(n: u64) -> (bits: i128)
    requires
        n < INTEGER_LIMIT,
    ensures
        bits == n * SCALE,
{
    I64F64::from_num(n).to_bits()
}

/// `I64F64::to_num::<u64>` on a non-negative number: its integer part, the
/// fractional bits being discarded.
#[verifier::external_body]
fn bits_to_num(bits: i128) -> (n: u64)
    requires
        bits >= 0,
    ensures
        n == bits / SCALE,
{
    I64F64::from_bits(bits).to_num::<u64>()
}

/// `I64F64::floor` on a non-negative number: the fractional bits are cleared.
#[verifier::external_body]
fn bits_floor(bits: i128) -> (floored: i128)
    requires
        bits >= 0,
    ensures
        floored == (bits / SCALE) * SCALE,
{
    I64F64::from_bits(bits).floor().to_bits()
}

/// `I64F64::checked_mul` on non-negative numbers: the product of the two bit
/// patterns shifted down by the 64 fractional bits, or `None` when that does
/// not fit the type.
#[verifier::external_body]
fn bits_checked_mul(lhs: i128, rhs: i128) -> (product: Option<i128>)
    requires
        lhs >= 0,
        rhs >= 0,
    ensures
        product == (if (lhs * rhs) / (SCALE as int) <= i128::MAX {
            Some(((lhs * rhs) / (SCALE as int)) as i128)
        } else {
            None
        }),
{
    match I64F64::from_bits(lhs).checked_mul(I64F64::from_bits(rhs)) {
        Some(product) => Some(product.to_bits()),
        None => None,
    }
}

/// `I64F64::checked_div` on non-negative numbers: `None` for a zero divisor;
/// otherwise the dividend's bit pattern shifted up by the 64 fractional bits
/// and divided by the divisor's, or `None` when that does not fit the type.
#[verifier::external_body]
fn bits_checked_div(lhs: i128, rhs: i128) -> (quotient: Option<i128>)
    requires
        lhs >= 0,
        rhs >= 0,
    ensures
        quotient == (if rhs != 0 && (lhs * SCALE) / (rhs as int) <= i128::MAX {
            Some(((lhs * SCALE) / (rhs as int)) as i128)
        } else {
            None
        }),
{
    match I64F64::from_bits(lhs).checked_div(I64F64::from_bits(rhs)) {
        Some(quotient) => Some(quotient.to_bits()),
        None => None,
    }
}

/// `I64F64::sqrt` on a non-negative number: the square root rounded down to
/// the next representable number, so that `root <= sqrt(x) < root + 1/SCALE`.
/// Over bit patterns, `root` is the integer square root of `bits * SCALE`.
#[verifier::external_body]
fn bits_sqrt(bits: i128) -> (root: i128)
    requires
        bits >= 0,
    ensures
        root >= 0,
        root * root <= bits * SCALE < (root + 1) * (root + 1),
{
    I64F64::from_bits(bits).sqrt().to_bits()
}

impl Fixed {
    #[verifier::type_invariant]
    spec fn non_negative(self) -> bool {
        self.bits >= 0
    }

    /// The number times `SCALE`, an integer.
    pub closed spec fn scaled(self) -> int {
        self.bits as int
    }

    /// The integer part of the number.
    pub open spec fn integer_part(self) -> int {
        self.scaled() / (SCALE as int)
    }

    /// The bit pattern of the number.
    pub fn to_bits(self) -> (bits: i128)
        ensures
            bits == self.scaled(),
            bits >= 0,
    {
        proof {
            use_type_invariant(&self);
        }
        self.bits
    }

    /// The fixed-point number equal to `n`; `ArithmeticOverflow` for an `n`
    /// that has no representation.
    pub fn from_integer(n: u64) -> (r: Result<Fixed, PlutoError>)
        ensures
            match r {
                Ok(x) => n < INTEGER_LIMIT && x.scaled() == n * SCALE,
                Err(e) => n >= INTEGER_LIMIT && e == PlutoError::ArithmeticOverflow,
            },
    {
        if n < INTEGER_LIMIT {
            Ok(Fixed { bits: bits_from_num(n) })
        } else {
            Err(PlutoError::ArithmeticOverflow)
        }
    }

    /// The integer part: the number rounded towards zero.
    pub fn to_integer_floor(self) -> (n: u64)
        ensures
            n == self.integer_part(),
    {
        proof {
            use_type_invariant(&self);
        }
        bits_to_num(self.bits)
    }

    /// The largest integer that is not above the number, as a fixed-point number.
    pub fn floor(self) -> (r: Fixed)
        ensures
            r.scaled() == self.integer_part() * SCALE,
    {
        proof {
            use_type_invariant(&self);
            assert((self.bits / SCALE) * SCALE >= 0) by (nonlinear_arith)
                requires
                    self.bits >= 0,
                    SCALE > 0,
            ;
        }
        Fixed { bits: bits_floor(self.bits) }
    }

    /// The product, rounded down to the next representable number;
    /// `ArithmeticOverflow` when it is too large to represent.
    pub fn checked_mul(self, rhs: Fixed) -> (r: Result<Fixed, PlutoError>)
        ensures
            match r {
                Ok(p) => p.scaled() == (self.scaled() * rhs.scaled()) / (SCALE as int)
                    && p.scaled() <= i128::MAX,
                Err(e) => e == PlutoError::ArithmeticOverflow
                    && (self.scaled() * rhs.scaled()) / (SCALE as int) > i128::MAX,
            },
    {
        proof {
            use_type_invariant(&self);
            use_type_invariant(&rhs);
            assert((self.bits * rhs.bits) / (SCALE as int) >= 0) by (nonlinear_arith)
                requires
                    self.bits >= 0,
                    rhs.bits >= 0,
                    SCALE > 0,
            ;
        }
        match bits_checked_mul(self.bits, rhs.bits) {
            Some(bits) => Ok(Fixed { bits }),
            None => Err(PlutoError::ArithmeticOverflow),
        }
    }

    /// The quotient, rounded down to the next representable number;
    /// `DivisionByZero` for a zero divisor, `ArithmeticOverflow` when the
    /// quotient is too large to represent.
    pub fn checked_div(self, rhs: Fixed) -> (r: Result<Fixed, PlutoError>)
        ensures
            match r {
                Ok(q) => rhs.scaled() != 0
                    && q.scaled() == (self.scaled() * SCALE) / rhs.scaled()
                    && q.scaled() <= i128::MAX,
                Err(e) => if rhs.scaled() == 0 {
                    e == PlutoError::DivisionByZero
                } else {
                    e == PlutoError::ArithmeticOverflow
                        && (self.scaled() * SCALE) / rhs.scaled() > i128::MAX
                },
            },
    {
        proof {
            use_type_invariant(&self);
            use_type_invariant(&rhs);
            assert(rhs.bits != 0 ==> (self.bits * SCALE) / (rhs.bits as int) >= 0)
                by (nonlinear_arith)
                requires
                    self.bits >= 0,
                    rhs.bits >= 0,
                    SCALE > 0,
            ;
        }
        if rhs.bits == 0 {
            return Err(PlutoError::DivisionByZero);
        }
        match bits_checked_div(self.bits, rhs.bits) {
            Some(bits) => Ok(Fixed { bits }),
            None => Err(PlutoError::ArithmeticOverflow),
        }
    }

    /// The square root, rounded down to the next representable number.
    pub fn sqrt(self) -> (r: Fixed)
        ensures
            is_floor_sqrt(self.scaled() * SCALE, r.scaled()),
            r.scaled() == floor_sqrt(self.scaled() * SCALE),
    {
        proof {
            use_type_invariant(&self);
        }
        let root = bits_sqrt(self.bits);
        proof {
            lemma_floor_sqrt_unique(self.bits * SCALE, root as int);
        }
        Fixed { bits: root }
    }
}

/// What [`mul_div_floor`] answers: the quotient `x * y / d` rounded down,
/// where the factors, their product and the divisor can be represented.
pub open spec fn mul_div_result(x: u64, y: u64, d: u64) -> Result<u64, PlutoError> {
    if x >= INTEGER_LIMIT || y >= INTEGER_LIMIT || x * y >= INTEGER_LIMIT || d >= INTEGER_LIMIT {
        Err(PlutoError::ArithmeticOverflow)
    } else if d == 0 {
        Err(PlutoError::DivisionByZero)
    } else {
        Ok(((x * y) / (d as int)) as u64)
    }
}

/// `x * y / d` rounded down, computed in fixed point: the product of `x` and
/// `y`, divided by `d`, floored and turned back into an integer.
pub fn mul_div_floor(x: u64, y: u64, d: u64) -> (r: Result<u64, PlutoError>)
    ensures
        r == mul_div_result(x, y, d),
        r matches Ok(q) ==> q == (x * y) / (d as int),
{
    let fixed_x = Fixed::from_integer(x)?;
    let fixed_y = Fixed::from_integer(y)?;
    proof {
        lemma_product_of_integers(x as int, y as int);
    }
    let product = fixed_x.checked_mul(fixed_y)?;
    let fixed_d = Fixed::from_integer(d)?;
    proof {
        lemma_ratio_of_integers(x * y, d as int);
        if d != 0 {
            lemma_integer_part_of_quotient(x * y, d as int);
            lemma_div_range(x * y, d as int);
            lemma_div_exact((x * y) / (d as int), SCALE as int);
        }
    }
    let quotient = product.checked_div(fixed_d)?;
    Ok(quotient.floor().to_integer_floor())
}

} // verus!
