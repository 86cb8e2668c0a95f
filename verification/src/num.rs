//! Fixed-point scalar arithmetic: truncating division, fixed-point products
//! and quotients, and integer square roots, each pinned to an exact
//! mathematical definition.

use vstd::arithmetic::div_mod::{
    lemma_div_is_ordered, lemma_div_multiples_vanish, lemma_div_nonincreasing,
    lemma_div_pos_is_pos,
};
use vstd::arithmetic::mul::{lemma_mul_is_commutative, lemma_mul_unary_negation};
use vstd::prelude::*;

verus! {

/// Number of fractional steps per whole unit. Coordinates, matrix entries and
/// trigonometric values are all fixed-point numbers counted in `1/SCALE`
/// units, so the value `1.5` is stored as `3 * SCALE / 2`.
pub const SCALE: i64 = 65536;

/// Division rounding toward zero, the rounding that the executable code in
/// this crate uses throughout. Only meaningful for a positive divisor.
pub open spec fn tdiv(a: int, b: int) -> int {
    if a >= 0 {
        a / b
    } else {
        -((-a) / b)
    }
}

/// Largest `r` with `r * r <= n`.
pub open spec fn isqrt(n: nat) -> nat
    decreases n,
{
    if n == 0 {
        0
    } else {
        let r = isqrt((n - 1) as nat);
        if (r + 1) * (r + 1) <= n {
            r + 1
        } else {
            r
        }
    }
}

/// `isqrt(n)` really is the floor of the square root: its square is at most
/// `n`, and the next square is beyond `n`.
pub proof fn lemma_isqrt_bounds(n: nat)
    ensures
        isqrt(n) * isqrt(n) <= n,
        n < (isqrt(n) + 1) * (isqrt(n) + 1),
    decreases n,
{
    if n == 0 {
        assert(isqrt(n) == 0);
        assert(n < (isqrt(n) + 1) * (isqrt(n) + 1)) by (nonlinear_arith)
            requires
                n == 0,
                isqrt(n) == 0,
        ;
    } else {
        let r = isqrt((n - 1) as nat);
        lemma_isqrt_bounds((n - 1) as nat);
        assert(r * r <= n - 1);
        assert(n - 1 < (r + 1) * (r + 1));
        if (r + 1) * (r + 1) <= n {
            assert(isqrt(n) == r + 1);
            assert(n < (r + 2) * (r + 2)) by (nonlinear_arith)
                requires
                    n <= (r + 1) * (r + 1),
            ;
        } else {
            assert(isqrt(n) == r);
        }
    }
}

/// Any `r` whose square brackets `n` is the integer square root of `n`.
pub proof fn lemma_isqrt_unique(n: nat, r: nat)
    requires
        r * r <= n,
        n < (r + 1) * (r + 1),
    ensures
        r == isqrt(n),
{
    let s = isqrt(n);
    lemma_isqrt_bounds(n);
    if r < s {
        assert((r + 1) * (r + 1) <= s * s) by (nonlinear_arith)
            requires
                r + 1 <= s,
        ;
    }
    if s < r {
        assert((s + 1) * (s + 1) <= r * r) by (nonlinear_arith)
            requires
                s + 1 <= r,
        ;
    }
}

/// The integer square root never decreases.
pub proof fn lemma_isqrt_monotone(a: nat, b: nat)
    requires
        a <= b,
    ensures
        isqrt(a) <= isqrt(b),
{
    lemma_isqrt_bounds(a);
    lemma_isqrt_bounds(b);
    if isqrt(b) < isqrt(a) {
        assert((isqrt(b) + 1) * (isqrt(b) + 1) <= isqrt(a) * isqrt(a)) by (nonlinear_arith)
            requires
                isqrt(b) + 1 <= isqrt(a),
        ;
    }
}

/// A square is monotone in the absolute value of its root.
pub proof fn lemma_square_bound(a: int, b: int)
    by (nonlinear_arith)
    requires
        -b <= a <= b,
    ensures
        0 <= a * a <= b * b,
{
}

/// The product of two bounded factors is bounded by the product of the bounds.
pub proof fn lemma_mul_bound(a: int, b: int, ca: int, cb: int)
    by (nonlinear_arith)
    requires
        -ca <= a <= ca,
        -cb <= b <= cb,
    ensures
        -(ca * cb) <= a * b <= ca * cb,
{
}

/// A numerator bounded by `b * d` gives a truncated quotient bounded by `b`.
pub proof fn lemma_tdiv_abs_le(x: int, d: int, b: int)
    requires
        d > 0,
        b >= 0,
        -(b * d) <= x <= b * d,
    ensures
        -b <= tdiv(x, d) <= b,
{
    lemma_mul_is_commutative(b, d);
    lemma_div_multiples_vanish(b, d);
    assert((b * d) / d == b);
    if x >= 0 {
        lemma_div_pos_is_pos(x, d);
        lemma_div_is_ordered(x, b * d, d);
    } else {
        lemma_div_pos_is_pos(-x, d);
        lemma_div_is_ordered(-x, b * d, d);
    }
}

/// Dividing an exact multiple truncates to the exact factor.
pub proof fn lemma_tdiv_mul_cancel(x: int, d: int)
    requires
        d > 0,
    ensures
        tdiv(x * d, d) == x,
{
    lemma_mul_is_commutative(x, d);
    lemma_div_multiples_vanish(x, d);
    assert((x * d) / d == x);
    if x < 0 {
        lemma_mul_unary_negation(x, d);
        assert(-(x * d) == (-x) * d);
        lemma_mul_is_commutative(-x, d);
        lemma_div_multiples_vanish(-x, d);
        assert(((-x) * d) / d == -x);
    }
}

/// Truncating division of `i128` values, rounding toward zero as the `tdiv`
/// specification does.
pub fn tdiv_i128(a: i128, b: i128) -> (q: i128)
    requires
        b > 0,
        a > i128::MIN,
    ensures
        q as int == tdiv(a as int, b as int),
{
    if a >= 0 {
        let ua: u128 = a as u128;
        let ub: u128 = b as u128;
        let uq: u128 = ua / ub;
        proof {
            lemma_div_nonincreasing(ua as int, ub as int);
            lemma_div_pos_is_pos(ua as int, ub as int);
        }
        uq as i128
    } else {
        let na: i128 = -a;
        let ua: u128 = na as u128;
        let ub: u128 = b as u128;
        let uq: u128 = ua / ub;
        proof {
            lemma_div_nonincreasing(ua as int, ub as int);
            lemma_div_pos_is_pos(ua as int, ub as int);
        }
        -(uq as i128)
    }
}

/// Fixed-point product: the exact real product of two `1/SCALE` values,
/// rounded toward zero back into `1/SCALE` steps.
pub fn fixed_mul(a: i64, b: i64) -> (r: i64)
    requires
        -(i64::MAX * SCALE) <= a * b <= i64::MAX * SCALE,
    ensures
        r as int == tdiv(a * b, SCALE as int),
{
    let p: i128 = (a as i128) * (b as i128);
    let q: i128 = tdiv_i128(p, SCALE as i128);
    proof {
        lemma_tdiv_abs_le(p as int, SCALE as int, i64::MAX as int);
    }
    q as i64
}

/// Fixed-point quotient: the exact real quotient of two `1/SCALE` values,
/// rounded toward zero back into `1/SCALE` steps.
pub fn fixed_div(a: i64, b: i64) -> (r: i64)
    requires
        b > 0,
        -(i64::MAX * b) <= a * SCALE <= i64::MAX * b,
    ensures
        r as int == tdiv(a * SCALE, b as int),
{
    let p: i128 = (a as i128) * (SCALE as i128);
    let q: i128 = tdiv_i128(p, b as i128);
    proof {
        lemma_tdiv_abs_le(p as int, b as int, i64::MAX as int);
    }
    q as i64
}

/// Integer square root of a `u128`, found by bisection.
pub fn isqrt_u128(n: u128) -> (r: u128)
    ensures
        r as nat == isqrt(n as nat),
        r * r <= n,
{
    let mut lo: u128 = 0;
    let mut hi: u128 = 0x1_0000_0000_0000_0000;
    proof {
        assert((hi as nat) * (hi as nat) > n as nat) by (nonlinear_arith)
            requires
                hi == 0x1_0000_0000_0000_0000u128,
                n <= u128::MAX,
        ;
    }
    while lo + 1 < hi
        invariant
            lo < hi,
            hi <= 0x1_0000_0000_0000_0000,
            (lo as nat) * (lo as nat) <= n as nat,
            (n as nat) < (hi as nat) * (hi as nat),
        decreases hi - lo,
    {
        let mid: u128 = lo + (hi - lo) / 2;
        assert(lo < mid < hi);
        proof {
            assert((mid as int) * (mid as int) < 0x1_0000_0000_0000_0000_0000_0000_0000_0000int)
                by (nonlinear_arith)
                requires
                    0 <= (mid as int) < 0x1_0000_0000_0000_0000int,
            ;
        }
        if mid * mid <= n {
            lo = mid;
        } else {
            hi = mid;
        }
    }
    proof {
        assert(hi == lo + 1);
        lemma_isqrt_unique(n as nat, lo as nat);
    }
    lo
}

} // verus!
