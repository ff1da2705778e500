//! Fixed-point arithmetic.
//!
//! Lengths, weights and times are whole numbers of steps, a million steps to
//! the unit. Quotients round toward zero and square roots round down, so every
//! result is an exact function of its inputs.

use vstd::prelude::*;

verus! {

/// One unit of length, one full weight, one second: a million steps.
pub const ONE: i32 = 1_000_000;

/// Sub-step resolution used for vector lengths: lengths are measured in
/// 65536ths of a step so that short vectors keep their direction.
pub const FINE: u64 = 65536;

/// The quotient of `a` by a positive `b`, rounded toward zero.
pub open spec fn trunc_div(a: int, b: int) -> int {
    if a >= 0 {
        a / b
    } else {
        -((-a) / b)
    }
}

/// The magnitude of `a`.
pub open spec fn magnitude(a: int) -> int {
    if a >= 0 {
        a
    } else {
        -a
    }
}

/// `r` is the square root of `n`, rounded down.
pub open spec fn is_floor_sqrt(n: int, r: int) -> bool {
    r >= 0 && r * r <= n && n < (r + 1) * (r + 1)
}

/// The square root of a non-negative `n`, rounded down.
pub open spec fn floor_sqrt(n: int) -> int {
    choose|r: int| is_floor_sqrt(n, r)
}

/// Squares grow with their base.
pub proof fn lemma_square_monotonic(a: int, b: int)
    requires
        0 <= a <= b,
    ensures
        a * a <= b * b,
{
    assert(a * a <= b * b) by (nonlinear_arith)
        requires
            0 <= a <= b,
    ;
}

/// A number whose square exceeds another square is the larger number.
pub proof fn lemma_square_order(a: int, b: int)
    requires
        0 <= a,
        0 <= b,
        a * a < b * b,
    ensures
        a < b,
{
    if a >= b {
        lemma_square_monotonic(b, a);
    }
}

/// Every non-negative number has a rounded-down square root.
pub proof fn lemma_floor_sqrt_exists(n: nat)
    ensures
        exists|r: int| is_floor_sqrt(n as int, r),
    decreases n,
{
    if n == 0 {
        assert(is_floor_sqrt(0, 0));
    } else {
        let m: int = n - 1;
        lemma_floor_sqrt_exists(m as nat);
        let r: int = choose|r: int| is_floor_sqrt(m, r);
        if (r + 1) * (r + 1) <= n {
            assert((r + 2) * (r + 2) > (r + 1) * (r + 1)) by (nonlinear_arith)
                requires
                    r >= 0,
            ;
            assert(is_floor_sqrt(n as int, r + 1));
        } else {
            assert(is_floor_sqrt(n as int, r));
        }
    }
}

/// `floor_sqrt` names the one number that passes `is_floor_sqrt`.
pub proof fn lemma_floor_sqrt(n: int, r: int)
    requires
        0 <= n,
    ensures
        is_floor_sqrt(n, floor_sqrt(n)),
        is_floor_sqrt(n, r) ==> r == floor_sqrt(n),
{
    lemma_floor_sqrt_exists(n as nat);
    let s: int = floor_sqrt(n);
    if is_floor_sqrt(n, r) {
        if r < s {
            lemma_square_monotonic(r + 1, s);
        } else if s < r {
            lemma_square_monotonic(s + 1, r);
        }
    }
}

/// A quotient lies between two bounds when the dividend lies between the
/// bounds times the divisor.
pub proof fn lemma_trunc_div_bounds(a: int, b: int, lo: int, hi: int)
    requires
        b > 0,
        lo <= 0 <= hi,
        lo * b <= a <= hi * b,
    ensures
        lo <= trunc_div(a, b) <= hi,
{
    if a >= 0 {
        vstd::arithmetic::div_mod::lemma_div_is_ordered(a, hi * b, b);
        vstd::arithmetic::div_mod::lemma_div_multiples_vanish(hi, b);
        vstd::arithmetic::div_mod::lemma_div_pos_is_pos(a, b);
        assert(hi * b == b * hi) by (nonlinear_arith);
    } else {
        assert(-a <= (-lo) * b) by (nonlinear_arith)
            requires
                lo * b <= a,
        ;
        vstd::arithmetic::div_mod::lemma_div_is_ordered(-a, (-lo) * b, b);
        vstd::arithmetic::div_mod::lemma_div_multiples_vanish(-lo, b);
        vstd::arithmetic::div_mod::lemma_div_pos_is_pos(-a, b);
        assert((-lo) * b == b * (-lo)) by (nonlinear_arith);
    }
}

/// A multiple of the divisor divides exactly.
pub proof fn lemma_trunc_div_exact(x: int, b: int)
    requires
        b > 0,
    ensures
        trunc_div(x * b, b) == x,
{
    if x >= 0 {
        assert(x * b >= 0) by (nonlinear_arith)
            requires
                x >= 0,
                b > 0,
        ;
        vstd::arithmetic::div_mod::lemma_div_multiples_vanish(x, b);
        assert(x * b == b * x) by (nonlinear_arith);
    } else {
        assert(x * b < 0) by (nonlinear_arith)
            requires
                x < 0,
                b > 0,
        ;
        assert(-(x * b) == b * (-x)) by (nonlinear_arith);
        vstd::arithmetic::div_mod::lemma_div_multiples_vanish(-x, b);
    }
}

/// The quotient of `a` by a positive `b`, rounded toward zero.
pub fn quotient(a: i128, b: i128) -> (q: i128)
    requires
        b > 0,
    ensures
        q == trunc_div(a as int, b as int),
{
    a / b
}

/// The square root of `n`, rounded down.
pub fn isqrt(n: u128) -> (r: u64)
    ensures
        r == floor_sqrt(n as int),
        is_floor_sqrt(n as int, r as int),
{
    let mut lo: u128 = 0;
    let mut hi: u128 = 0x1_0000_0000_0000_0000;
    assert(0x1_0000_0000_0000_0000int * 0x1_0000_0000_0000_0000int > u128::MAX);
    while hi - lo > 1
        invariant
            lo < hi <= 0x1_0000_0000_0000_0000,
            lo * lo <= n,
            n < hi * hi,
        decreases hi - lo,
    {
        let mid: u128 = lo + (hi - lo) / 2;
        assert(mid * mid <= 0xffff_ffff_ffff_ffff * 0xffff_ffff_ffff_ffff) by (nonlinear_arith)
            requires
                0 <= mid <= 0xffff_ffff_ffff_ffff,
        ;
        assert(0xffff_ffff_ffff_ffffint * 0xffff_ffff_ffff_ffffint <= u128::MAX);
        if mid * mid <= n {
            lo = mid;
        } else {
            hi = mid;
        }
    }
    proof {
        assert(hi == lo + 1);
        lemma_floor_sqrt(n as int, lo as int);
    }
    lo as u64
}

} // verus!
