//! Fixed-point arithmetic: quantities are whole numbers of millionths.

use vstd::prelude::*;

verus! {

/// The number one in fixed-point form. A length of `ONE` is one unit, a level of `ONE` is
/// full, and an elapsed time of `ONE` is one second.
pub const ONE: i64 = 1_000_000;

/// `value` restricted to the closed range from `low` to `high`.
pub open spec fn clamp(value: int, low: int, high: int) -> int {
    if value < low {
        low
    } else if value > high {
        high
    } else {
        value
    }
}

/// `value` restricted to what an `i64` can hold.
pub open spec fn saturate(value: int) -> int {
    clamp(value, i64::MIN as int, i64::MAX as int)
}

/// The size of a number, whatever its sign.
pub open spec fn magnitude(value: int) -> int {
    if value < 0 {
        -value
    } else {
        value
    }
}

/// The quotient of `a` by a positive `b`, rounded toward zero.
pub open spec fn quotient(a: int, b: int) -> int {
    if a >= 0 {
        a / b
    } else {
        -((-a) / b)
    }
}

/// The product of two fixed-point numbers, rounded toward zero: `quotient(a * b, ONE)`,
/// written out for the three factors at which nothing is rounded.
pub open spec fn scaled(a: int, b: int) -> int {
    if a == 0 {
        0
    } else if a == ONE {
        b
    } else if a == -ONE {
        -b
    } else {
        quotient(a * b, ONE as int)
    }
}

/// Whether `root` is the integer square root of `n`: the largest whole number whose square
/// does not exceed `n`.
pub open spec fn is_floor_sqrt(root: int, n: int) -> bool {
    0 <= root && root * root <= n < (root + 1) * (root + 1)
}

/// The integer square root of `n`, for `n` that is not negative.
pub open spec fn floor_sqrt(n: int) -> int {
    choose|root: int| is_floor_sqrt(root, n)
}

/// Squaring keeps the order of numbers that are not negative.
pub proof fn lemma_square_monotone(a: int, b: int)
    requires
        0 <= a <= b,
    ensures
        a * a <= b * b,
{
    assert(a * a <= b * b) by (nonlinear_arith)
        requires
            0 <= a <= b,
    ;
}

/// A number has at most one integer square root.
pub proof fn lemma_floor_sqrt_unique(r1: int, r2: int, n: int)
    requires
        is_floor_sqrt(r1, n),
        is_floor_sqrt(r2, n),
    ensures
        r1 == r2,
{
    if r1 < r2 {
        lemma_square_monotone(r1 + 1, r2);
    }
    if r2 < r1 {
        lemma_square_monotone(r2 + 1, r1);
    }
}

/// Every number that is not negative has an integer square root.
pub proof fn lemma_floor_sqrt_exists(n: int)
    requires
        0 <= n,
    ensures
        is_floor_sqrt(floor_sqrt(n), n),
    decreases n,
{
    if n == 0 {
        assert(is_floor_sqrt(0, 0));
    } else {
        lemma_floor_sqrt_exists(n - 1);
        let r = floor_sqrt(n - 1);
        if (r + 1) * (r + 1) <= n {
            assert((r + 1) * (r + 1) == n);
            assert(n < (r + 2) * (r + 2)) by (nonlinear_arith)
                requires
                    (r + 1) * (r + 1) == n,
                    r >= 0,
            ;
            assert(is_floor_sqrt(r + 1, n));
        } else {
            assert(is_floor_sqrt(r, n));
        }
    }
}

/// Whoever holds an integer square root of `n` holds `floor_sqrt(n)`.
pub proof fn lemma_floor_sqrt_is(root: int, n: int)
    requires
        is_floor_sqrt(root, n),
    ensures
        floor_sqrt(n) == root,
{
    lemma_floor_sqrt_unique(floor_sqrt(n), root, n);
}

/// `scaled` is the product over `ONE`, rounded toward zero, for every pair of factors.
pub proof fn lemma_scaled_is_quotient(a: int, b: int)
    ensures
        scaled(a, b) == quotient(a * b, ONE as int),
{
    let one = ONE as int;
    let size = magnitude(b);
    vstd::arithmetic::div_mod::lemma_div_multiples_vanish(size, one);
    if a == 0 {
        assert(a * b == 0) by (nonlinear_arith)
            requires
                a == 0,
        ;
    } else if a == one {
        assert(a * b == b * one) by (nonlinear_arith)
            requires
                a == one,
        ;
        assert(b >= 0 ==> b * one == size * one) by (nonlinear_arith)
            requires
                size == magnitude(b),
        ;
        assert(b < 0 ==> -(b * one) == size * one) by (nonlinear_arith)
            requires
                size == magnitude(b),
        ;
    } else if a == -one {
        assert(a * b == -(b * one)) by (nonlinear_arith)
            requires
                a == -one,
        ;
        assert(b > 0 ==> b * one == size * one) by (nonlinear_arith)
            requires
                size == magnitude(b),
        ;
        assert(b <= 0 ==> -(b * one) == size * one) by (nonlinear_arith)
            requires
                size == magnitude(b),
        ;
    }
}

/// Rounding a product toward zero keeps its sign and loses less than one unit of size:
/// the size of `scaled(a, b)` is the whole part of the sizes' product over `ONE`.
pub proof fn lemma_scaled_size(a: int, b: int)
    ensures
        ONE * magnitude(scaled(a, b)) <= magnitude(a) * magnitude(b),
        magnitude(a) * magnitude(b) < ONE * (magnitude(scaled(a, b)) + 1),
        a * b >= 0 ==> scaled(a, b) >= 0,
        a * b <= 0 ==> scaled(a, b) <= 0,
{
    lemma_scaled_is_quotient(a, b);
    let one = ONE as int;
    let product = a * b;
    let size = magnitude(product);
    assert(size == magnitude(a) * magnitude(b)) by (nonlinear_arith)
        requires
            product == a * b,
            size == magnitude(product),
    ;
    vstd::arithmetic::div_mod::lemma_fundamental_div_mod(size, one);
    assert(0 <= size % one < one);
    assert(size / one >= 0) by (nonlinear_arith)
        requires
            size >= 0,
            one > 0,
    ;
    assert(magnitude(scaled(a, b)) == size / one);
    assert(one * (size / one + 1) == one * (size / one) + one) by (nonlinear_arith);
}

/// A factor of size at most one does not lengthen what it multiplies.
pub proof fn lemma_scaled_bound(a: int, b: int)
    requires
        -ONE <= a <= ONE,
    ensures
        magnitude(scaled(a, b)) <= magnitude(b),
{
    lemma_scaled_size(a, b);
    let one = ONE as int;
    let s = magnitude(scaled(a, b));
    let ma = magnitude(a);
    let mb = magnitude(b);
    assert(s <= mb) by (nonlinear_arith)
        requires
            one * s <= ma * mb,
            0 <= ma <= one,
            0 <= mb,
            0 <= s,
            one > 0,
    ;
}

/// Restricts `value` to the closed range from `low` to `high`.
pub fn clamp_to(value: i64, low: i64, high: i64) -> (r: i64)
    requires
        low <= high,
    ensures
        r == clamp(value as int, low as int, high as int),
{
    if value < low {
        low
    } else if value > high {
        high
    } else {
        value
    }
}

/// Brings a wide number into an `i64`, stopping at the ends of its range.
pub fn narrow(value: i128) -> (r: i64)
    ensures
        r == saturate(value as int),
{
    if value < i64::MIN as i128 {
        i64::MIN
    } else if value > i64::MAX as i128 {
        i64::MAX
    } else {
        value as i64
    }
}

/// Multiplies two fixed-point numbers, rounding toward zero. The result is exact apart from
/// that rounding, which is why it is wide.
pub fn scale(a: i64, b: i64) -> (r: i128)
    ensures
        r == scaled(a as int, b as int),
{
    assert(-0x4000_0000_0000_0000_0000_0000_0000_0000 <= (a as int) * (b as int)
        <= 0x4000_0000_0000_0000_0000_0000_0000_0000) by (nonlinear_arith)
        requires
            -0x8000_0000_0000_0000 <= a as int <= 0x8000_0000_0000_0000,
            -0x8000_0000_0000_0000 <= b as int <= 0x8000_0000_0000_0000,
    ;
    proof {
        lemma_scaled_is_quotient(a as int, b as int);
    }
    let product: i128 = (a as i128) * (b as i128);
    product / (ONE as i128)
}

/// Computes the integer square root by bisection.
pub fn isqrt(n: u64) -> (root: u64)
    ensures
        root == floor_sqrt(n as int),
        is_floor_sqrt(root as int, n as int),
{
    let mut low: u64 = 0;
    let mut high: u64 = 0x1_0000_0000;
    while high - low > 1
        invariant
            low < high <= 0x1_0000_0000,
            low * low <= n < high * high,
        decreases high - low,
    {
        let mid: u64 = low + (high - low) / 2;
        assert(mid * mid < 0x1_0000_0000_0000_0000) by (nonlinear_arith)
            requires
                0 <= mid < 0x1_0000_0000,
        ;
        if mid * mid <= n {
            low = mid;
        } else {
            high = mid;
        }
    }
    proof {
        lemma_floor_sqrt_is(low as int, n as int);
    }
    low
}

} // verus!
