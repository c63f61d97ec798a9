//! Fixed-point scalars: rounding division and integer square root.

use vstd::prelude::*;
use vstd::arithmetic::div_mod::lemma_div_multiples_vanish_quotient;

verus! {

/// Number of grid steps in one unit: `1.0` is stored as `SCALE`.
pub const SCALE: i32 = 1000;

/// Whether a mathematical integer can be stored in a coordinate.
pub open spec fn fits_i32(v: int) -> bool {
    i32::MIN <= v <= i32::MAX
}

/// Quotient of `n` by a positive `d`, rounded toward zero.
pub open spec fn trunc_div(n: int, d: int) -> int {
    if n >= 0 {
        n / d
    } else {
        -((-n) / d)
    }
}

/// `r` is the integer square root of `n`: the largest integer whose square
/// does not exceed `n`.
pub open spec fn is_isqrt(n: int, r: int) -> bool {
    0 <= r && r * r <= n && n < (r + 1) * (r + 1)
}

/// The integer square root of `n`.
pub open spec fn isqrt_of(n: int) -> int {
    choose|r: int| is_isqrt(n, r)
}

/// Two integers that both qualify as the square root of `n` are equal.
pub proof fn lemma_isqrt_unique(n: int, r1: int, r2: int)
    requires
        is_isqrt(n, r1),
        is_isqrt(n, r2),
    ensures
        r1 == r2,
{
    if r1 < r2 {
        assert((r1 + 1) * (r1 + 1) <= r2 * r2) by (nonlinear_arith)
            requires
                0 <= r1,
                r1 + 1 <= r2,
        ;
    }
    if r2 < r1 {
        assert((r2 + 1) * (r2 + 1) <= r1 * r1) by (nonlinear_arith)
            requires
                0 <= r2,
                r2 + 1 <= r1,
        ;
    }
}

/// Every non-negative integer has an integer square root.
pub proof fn lemma_isqrt_exists(n: int)
    requires
        n >= 0,
    ensures
        is_isqrt(n, isqrt_of(n)),
    decreases n,
{
    if n == 0 {
        assert(is_isqrt(0, 0));
    } else {
        lemma_isqrt_exists(n - 1);
        let r = isqrt_of(n - 1);
        assert((r + 2) * (r + 2) > (r + 1) * (r + 1)) by (nonlinear_arith)
            requires
                0 <= r,
        ;
        if (r + 1) * (r + 1) <= n {
            assert(is_isqrt(n, r + 1));
        } else {
            assert(is_isqrt(n, r));
        }
    }
}

/// The integer square root never decreases when its argument grows.
pub proof fn lemma_isqrt_monotone(a: int, b: int)
    requires
        0 <= a <= b,
    ensures
        isqrt_of(a) <= isqrt_of(b),
{
    lemma_isqrt_exists(a);
    lemma_isqrt_exists(b);
    let ra = isqrt_of(a);
    let rb = isqrt_of(b);
    if rb < ra {
        assert((rb + 1) * (rb + 1) <= ra * ra) by (nonlinear_arith)
            requires
                0 <= rb,
                rb + 1 <= ra,
        ;
    }
}

/// A product is bounded by the product of the bounds of its factors.
pub proof fn lemma_product_bound(a: int, b: int, ma: int, mb: int)
    by (nonlinear_arith)
    requires
        -ma <= a <= ma,
        -mb <= b <= mb,
    ensures
        -(ma * mb) <= a * b <= ma * mb,
{
}

/// A common positive factor of numerator and denominator does not change
/// a quotient rounded toward zero.
pub proof fn lemma_trunc_div_cancel(n: int, d: int, k: int)
    requires
        d > 0,
        k > 0,
    ensures
        trunc_div(n * k, d * k) == trunc_div(n, d),
{
    assert(n * k == k * n && d * k == k * d && (-n) * k == k * (-n) && -(n * k) == (-n) * k)
        by (nonlinear_arith);
    if n >= 0 {
        assert(n * k >= 0) by (nonlinear_arith)
            requires
                n >= 0,
                k > 0,
        ;
        lemma_div_multiples_vanish_quotient(k, n, d);
    } else {
        assert(n * k < 0) by (nonlinear_arith)
            requires
                n < 0,
                k > 0,
        ;
        lemma_div_multiples_vanish_quotient(k, -n, d);
    }
}

/// Divides `n` by a positive `d`, rounding toward zero.
pub fn div_toward_zero(n: i128, d: i128) -> (q: i128)
    requires
        d > 0,
    ensures
        q == trunc_div(n as int, d as int),
{
    n / d
}

/// Integer square root of `n`.
pub fn isqrt(n: u128) -> (r: u64)
    ensures
        is_isqrt(n as int, r as int),
        r == isqrt_of(n as int),
{
    let mut lo: u128 = 0;
    let mut hi: u128 = 0x1_0000_0000_0000_0000;
    assert(0x1_0000_0000_0000_0000int * 0x1_0000_0000_0000_0000int > u128::MAX);
    while hi - lo > 1
        invariant
            lo < hi <= 0x1_0000_0000_0000_0000,
            lo * lo <= n,
            n < hi * hi,
        decreases hi - lo,
    {
        let mid: u128 = lo + (hi - lo) / 2;
        assert(mid * mid <= 0xffff_ffff_ffff_ffff * 0xffff_ffff_ffff_ffff) by (nonlinear_arith)
            requires
                0 <= mid <= 0xffff_ffff_ffff_ffff,
        ;
        if mid * mid <= n {
            lo = mid;
        } else {
            hi = mid;
        }
    }
    proof {
        assert(hi == lo + 1);
        assert(is_isqrt(n as int, lo as int));
        lemma_isqrt_exists(n as int);
        lemma_isqrt_unique(n as int, lo as int, isqrt_of(n as int));
    }
    lo as u64
}

/// The number that the pair `(high, low)` stands for: `high * 2^128 + low`.
pub open spec fn wide_value(high: u128, low: u128) -> int {
    high * 0x1_0000_0000_0000_0000_0000_0000_0000_0000 + low
}

/// The product of `a` and `b`, which may need 256 bits, as a pair
/// `(high, low)` of 128 bits each.
pub fn mul_wide(a: u128, b: u128) -> (r: (u128, u128))
    ensures
        wide_value(r.0, r.1) == a * b,
{
    let a0: u128 = a % 0x1_0000_0000_0000_0000;
    let a1: u128 = a / 0x1_0000_0000_0000_0000;
    let b0: u128 = b % 0x1_0000_0000_0000_0000;
    let b1: u128 = b / 0x1_0000_0000_0000_0000;
    proof {
        lemma_product_bound(a0 as int, b0 as int, 0xffff_ffff_ffff_ffff, 0xffff_ffff_ffff_ffff);
        lemma_product_bound(a0 as int, b1 as int, 0xffff_ffff_ffff_ffff, 0xffff_ffff_ffff_ffff);
        lemma_product_bound(a1 as int, b0 as int, 0xffff_ffff_ffff_ffff, 0xffff_ffff_ffff_ffff);
        lemma_product_bound(a1 as int, b1 as int, 0xffff_ffff_ffff_ffff, 0xffff_ffff_ffff_ffff);
    }
    let p00: u128 = a0 * b0;
    let p01: u128 = a0 * b1;
    let p10: u128 = a1 * b0;
    let p11: u128 = a1 * b1;
    let carry: u128 = p00 / 0x1_0000_0000_0000_0000 + p01 % 0x1_0000_0000_0000_0000 + p10
        % 0x1_0000_0000_0000_0000;
    let low: u128 = (carry % 0x1_0000_0000_0000_0000) * 0x1_0000_0000_0000_0000 + p00
        % 0x1_0000_0000_0000_0000;
    let high: u128 = p11 + p01 / 0x1_0000_0000_0000_0000 + p10 / 0x1_0000_0000_0000_0000 + carry
        / 0x1_0000_0000_0000_0000;
    proof {
        lemma_limb_product(a1 as int, a0 as int, b1 as int, b0 as int);
    }
    (high, low)
}

/// The product of two numbers written in two limbs each, to the base
/// `2^64`.
proof fn lemma_limb_product(a1: int, a0: int, b1: int, b0: int)
    ensures
        (a1 * 0x1_0000_0000_0000_0000 + a0) * (b1 * 0x1_0000_0000_0000_0000 + b0) == (a1 * b1)
            * 0x1_0000_0000_0000_0000_0000_0000_0000_0000 + (a0 * b1 + a1 * b0)
            * 0x1_0000_0000_0000_0000 + a0 * b0,
{
    let x = a1 * 0x1_0000_0000_0000_0000;
    let y = b1 * 0x1_0000_0000_0000_0000;
    assert((x + a0) * (y + b0) == x * y + x * b0 + a0 * y + a0 * b0) by (nonlinear_arith);
    assert(x * y == (a1 * b1) * 0x1_0000_0000_0000_0000_0000_0000_0000_0000) by (nonlinear_arith)
        requires
            x == a1 * 0x1_0000_0000_0000_0000,
            y == b1 * 0x1_0000_0000_0000_0000,
    ;
    assert(x * b0 == (a1 * b0) * 0x1_0000_0000_0000_0000) by (nonlinear_arith)
        requires
            x == a1 * 0x1_0000_0000_0000_0000,
    ;
    assert(a0 * y == (a0 * b1) * 0x1_0000_0000_0000_0000) by (nonlinear_arith)
        requires
            y == b1 * 0x1_0000_0000_0000_0000,
    ;
}

/// Whether `a * b <= c * d`, decided without rounding and without
/// overflow.
pub fn product_le(a: u128, b: u128, c: u128, d: u128) -> (le: bool)
    ensures
        le == (a * b <= c * d),
{
    let left: (u128, u128) = mul_wide(a, b);
    let right: (u128, u128) = mul_wide(c, d);
    left.0 < right.0 || (left.0 == right.0 && left.1 <= right.1)
}

} // verus!
