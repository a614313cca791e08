//! The integer functions that the contracts of the pool are stated over, and
//! what is proved of them.

use crate::constants::INTEGER_LIMIT;
use crate::constants::SCALE;
use vstd::arithmetic::div_mod::lemma_fundamental_div_mod;
use vstd::arithmetic::div_mod::lemma_fundamental_div_mod_converse;
use vstd::arithmetic::div_mod::lemma_mod_bound;
use vstd::prelude::*;

verus! {

/// The amount asked for, but no more than the balance that it comes from.
pub open spec fn clamped(amount: u64, balance: u64) -> u64 {
    if amount > balance {
        balance
    } else {
        amount
    }
}

/// The amount asked for, cut down to the balance that it comes from.
pub fn clamp(amount: u64, balance: u64) -> (r: u64)
    ensures
        r == clamped(amount, balance),
{
    if amount > balance {
        balance
    } else {
        amount
    }
}

/// `root` is the square root of `n` rounded down.
pub open spec fn is_floor_sqrt(n: int, root: int) -> bool {
    &&& 0 <= root
    &&& root * root <= n
    &&& n < (root + 1) * (root + 1)
}

/// The square root of `n` rounded down (arbitrary for a negative `n`).
pub open spec fn floor_sqrt(n: int) -> int {
    choose|root: int| is_floor_sqrt(n, root)
}

/// The ratio `num / den` as a fixed-point number, rounded down: its bit pattern.
pub open spec fn ratio_scaled(num: int, den: int) -> int {
    (num * SCALE) / den
}

/// `amount` times the fixed-point ratio `num / den`, rounded down to an integer.
pub open spec fn scale_by_ratio(amount: int, num: int, den: int) -> int {
    (amount * ratio_scaled(num, den)) / (SCALE as int)
}

/// Only one integer is the rounded-down square root of `n`.
pub proof fn lemma_floor_sqrt_unique(n: int, root: int)
    requires
        is_floor_sqrt(n, root),
    ensures
        floor_sqrt(n) == root,
{
    let other = floor_sqrt(n);
    assert(is_floor_sqrt(n, other));
    assert(other == root) by (nonlinear_arith)
        requires
            is_floor_sqrt(n, root),
            is_floor_sqrt(n, other),
    {
        if other < root {
            assert((other + 1) * (other + 1) <= root * root);
        }
        if root < other {
            assert((root + 1) * (root + 1) <= other * other);
        }
    }
}

/// A quotient by a positive divisor lies within one divisor below the dividend.
pub proof fn lemma_div_bounds(x: int, d: int)
    requires
        d > 0,
    ensures
        (x / d) * d <= x < (x / d + 1) * d,
{
    lemma_fundamental_div_mod(x, d);
    lemma_mod_bound(x, d);
    assert((x / d) * d == d * (x / d)) by (nonlinear_arith);
    assert((x / d + 1) * d == d * (x / d) + d) by (nonlinear_arith);
}

/// The quotient by a positive divisor is the only integer within those bounds.
pub proof fn lemma_div_unique(x: int, d: int, q: int)
    requires
        d > 0,
        q * d <= x < (q + 1) * d,
    ensures
        x / d == q,
{
    assert((q + 1) * d == q * d + d) by (nonlinear_arith);
    lemma_fundamental_div_mod_converse(x, d, q, x - q * d);
}

/// A quotient of non-negative numbers is not negative and not above the dividend.
pub proof fn lemma_div_range(x: int, d: int)
    requires
        x >= 0,
        d > 0,
    ensures
        0 <= x / d <= x,
{
    lemma_div_bounds(x, d);
    let q = x / d;
    assert(q >= 0) by (nonlinear_arith)
        requires
            x < (q + 1) * d,
            x >= 0,
            d > 0,
    ;
    assert(q <= x) by (nonlinear_arith)
        requires
            q * d <= x,
            q >= 0,
            d > 0,
    ;
}

/// A common factor of dividend and divisor cancels.
pub proof fn lemma_div_cancel(x: int, d: int, c: int)
    requires
        d > 0,
        c > 0,
    ensures
        (x * c) / (d * c) == x / d,
{
    lemma_div_bounds(x, d);
    let q = x / d;
    assert(d * c > 0) by (nonlinear_arith)
        requires
            d > 0,
            c > 0,
    ;
    assert(q * (d * c) <= x * c < (q + 1) * (d * c)) by (nonlinear_arith)
        requires
            q * d <= x < (q + 1) * d,
            c > 0,
    ;
    lemma_div_unique(x * c, d * c, q);
}

/// A multiple of the divisor divides without remainder.
pub proof fn lemma_div_exact(x: int, d: int)
    requires
        d > 0,
    ensures
        (x * d) / d == x,
{
    assert(x * d < (x + 1) * d) by (nonlinear_arith)
        requires
            d > 0,
    ;
    lemma_div_unique(x * d, d, x);
}

/// Rounding down twice, by `d` and then by `c`, is rounding down once by both.
pub proof fn lemma_div_twice(x: int, d: int, c: int)
    requires
        d > 0,
        c > 0,
    ensures
        (x / d) / c == x / (d * c),
{
    lemma_div_bounds(x, d);
    let y = x / d;
    lemma_div_bounds(y, c);
    let q = y / c;
    assert(d * c > 0) by (nonlinear_arith)
        requires
            d > 0,
            c > 0,
    ;
    assert(q * (d * c) <= x < (q + 1) * (d * c)) by (nonlinear_arith)
        requires
            y * d <= x < (y + 1) * d,
            q * c <= y < (q + 1) * c,
            d > 0,
            c > 0,
    {
        assert(q * c * d <= y * d);
        assert(y + 1 <= (q + 1) * c);
        assert((y + 1) * d <= (q + 1) * c * d);
    }
    lemma_div_unique(x, d * c, q);
}

/// The fixed-point product of two integers is their product, and can be
/// represented just where that product can.
pub proof fn lemma_product_of_integers(x: int, y: int)
    requires
        0 <= x,
        0 <= y,
    ensures
        0 <= x * y,
        ((x * SCALE) * (y * SCALE)) / (SCALE as int) == (x * y) * SCALE,
        (x * y) * SCALE > i128::MAX <==> x * y >= INTEGER_LIMIT,
{
    let n = x * y;
    assert(n >= 0) by (nonlinear_arith)
        requires
            n == x * y,
            0 <= x,
            0 <= y,
    ;
    assert((x * SCALE) * (y * SCALE) == (n * SCALE) * SCALE) by (nonlinear_arith)
        requires
            n == x * y,
    ;
    lemma_div_exact(n * SCALE, SCALE as int);
}

/// The fixed-point quotient of two representable integers is their ratio
/// rounded down, and can itself be represented.
pub proof fn lemma_ratio_of_integers(num: int, den: int)
    requires
        0 <= num < INTEGER_LIMIT,
        0 <= den,
    ensures
        den * SCALE == 0 <==> den == 0,
        den != 0 ==> ((num * SCALE) * SCALE) / (den * SCALE) == ratio_scaled(num, den),
        den != 0 ==> 0 <= ratio_scaled(num, den) <= i128::MAX,
{
    if den != 0 {
        lemma_div_cancel(num * SCALE, den, SCALE as int);
        lemma_div_range(num * SCALE, den);
    }
}

/// The integer part of the fixed-point quotient of two integers is their
/// integer quotient.
pub proof fn lemma_integer_part_of_quotient(x: int, d: int)
    requires
        d > 0,
    ensures
        ratio_scaled(x, d) / (SCALE as int) == x / d,
{
    lemma_div_twice(x * SCALE, d, SCALE as int);
    lemma_div_cancel(x, d, SCALE as int);
}

/// The integer part of the fixed-point square root of an integer is its
/// rounded-down square root.
pub proof fn lemma_integer_part_of_root(n: int, root: int)
    requires
        n >= 0,
        is_floor_sqrt(n * SCALE * SCALE, root),
    ensures
        is_floor_sqrt(n, root / (SCALE as int)),
{
    let c = SCALE as int;
    lemma_div_bounds(root, c);
    lemma_div_range(root, c);
    let s = root / c;
    assert(s * s <= n) by (nonlinear_arith)
        requires
            s >= 0,
            c > 0,
            s * c <= root,
            root * root <= n * c * c,
    {
        assert((s * c) * (s * c) <= root * root);
        assert((s * c) * (s * c) == (s * s) * (c * c));
        assert(n * c * c == n * (c * c));
    }
    assert(n < (s + 1) * (s + 1)) by (nonlinear_arith)
        requires
            s >= 0,
            c > 0,
            root >= 0,
            root < (s + 1) * c,
            n * c * c < (root + 1) * (root + 1),
    {
        assert(root + 1 <= (s + 1) * c);
        assert((root + 1) * (root + 1) <= ((s + 1) * c) * ((s + 1) * c));
        assert(((s + 1) * c) * ((s + 1) * c) == ((s + 1) * (s + 1)) * (c * c));
        assert(n * c * c == n * (c * c));
    }
}

/// Scaling an amount by a fixed-point ratio gives the exact proportional
/// amount rounded down, or one less: the ratio itself was rounded down.
pub proof fn lemma_scale_by_ratio_bounds(amount: int, num: int, den: int)
    requires
        0 <= amount < INTEGER_LIMIT,
        0 <= num,
        0 < den,
    ensures
        (amount * num) / den - 1 <= scale_by_ratio(amount, num, den) <= (amount * num) / den,
        scale_by_ratio(amount, num, den) * den <= amount * num < (scale_by_ratio(
            amount,
            num,
            den,
        ) + 2) * den,
{
    let c = SCALE as int;
    let q = ratio_scaled(num, den);
    let t = scale_by_ratio(amount, num, den);
    let e = (amount * num) / den;
    lemma_div_bounds(num * c, den);
    lemma_div_bounds(amount * q, c);
    lemma_div_bounds(amount * num, den);
    assert(t * den <= amount * num) by (nonlinear_arith)
        requires
            t * c <= amount * q,
            q * den <= num * c,
            amount >= 0,
            den > 0,
            c > 0,
    {
        assert(t * c * den <= amount * q * den);
        assert(amount * (q * den) <= amount * (num * c));
        assert((t * den) * c <= (amount * num) * c);
    }
    assert(amount * num < (t + 2) * den) by (nonlinear_arith)
        requires
            amount * q < (t + 1) * c,
            num * c < (q + 1) * den,
            0 <= amount,
            2 * amount < c,
            den > 0,
            c > 0,
    {
        assert(amount * (num * c) <= amount * ((q + 1) * den));
        assert(amount * q * den < (t + 1) * c * den);
        assert(2 * amount * den <= c * den);
        assert((amount * num) * c < ((t + 2) * den) * c);
    }
    assert(t <= e) by (nonlinear_arith)
        requires
            t * den <= amount * num,
            amount * num < (e + 1) * den,
            den > 0,
    ;
    assert(e - 1 <= t) by (nonlinear_arith)
        requires
            e * den <= amount * num,
            amount * num < (t + 2) * den,
            den > 0,
    ;
}

} // verus!
