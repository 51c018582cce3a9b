//! Integer square roots and truncating division helpers.
//!
//! Distances between grid cells are compared through their squares, and
//! fixed-point quantities are divided with the same truncation that the
//! platform's signed division performs, so everything here is exact
//! integer arithmetic.

use vstd::prelude::*;

verus! {

/// Floor of the square root of `n`.
pub open spec fn isqrt(n: nat) -> nat
    decreases n,
{
    if n == 0 {
        0
    } else {
        let r = isqrt((n - 1) as nat);
        if (r + 1) * (r + 1) <= n {
            (r + 1) as nat
        } else {
            r
        }
    }
}

/// Least `s` with `s * s >= n`.
pub open spec fn ceil_sqrt(n: nat) -> nat {
    if n == 0 {
        0
    } else {
        isqrt((n - 1) as nat) + 1
    }
}

/// Quotient of `a` by `b`, truncated toward zero (the signed division of
/// the machine), as opposed to the euclidean `/` of specifications.
pub open spec fn div_trunc(a: int, b: int) -> int {
    if a >= 0 {
        a / b
    } else {
        -((-a) / b)
    }
}

pub broadcast proof fn lemma_isqrt_bounds(n: nat)
    ensures
        #[trigger] isqrt(n) * isqrt(n) <= n,
        n < (isqrt(n) + 1) * (isqrt(n) + 1),
    decreases n,
{
    let q = isqrt(n);
    if n == 0 {
        assert(q == 0);
        assert(n < (q + 1) * (q + 1)) by (nonlinear_arith)
            requires q == 0 && n == 0;
    } else {
        lemma_isqrt_bounds((n - 1) as nat);
        let r = isqrt((n - 1) as nat);
        if (r + 1) * (r + 1) <= n {
            assert(q == r + 1);
            assert(n <= q * q);
            assert(n < (q + 1) * (q + 1)) by (nonlinear_arith)
                requires n <= q * q;
        } else {
            assert(q == r);
            assert(q * q <= n);
            assert(n < (q + 1) * (q + 1));
        }
    }
}

pub proof fn lemma_isqrt_unique(n: nat, r: nat)
    requires
        r * r <= n,
        n < (r + 1) * (r + 1),
    ensures
        r == isqrt(n),
{
    lemma_isqrt_bounds(n);
    let q = isqrt(n);
    if q < r {
        assert((q + 1) * (q + 1) <= r * r) by (nonlinear_arith)
            requires q + 1 <= r;
    }
    if r < q {
        assert((r + 1) * (r + 1) <= q * q) by (nonlinear_arith)
            requires r + 1 <= q;
    }
}

pub proof fn lemma_isqrt_square(x: nat)
    ensures
        isqrt(x * x) == x,
{
    assert(x * x < (x + 1) * (x + 1)) by (nonlinear_arith);
    lemma_isqrt_unique(x * x, x);
}

pub proof fn lemma_isqrt_monotone(a: nat, b: nat)
    requires
        a <= b,
    ensures
        isqrt(a) <= isqrt(b),
{
    lemma_isqrt_bounds(a);
    lemma_isqrt_bounds(b);
    if isqrt(b) < isqrt(a) {
        assert((isqrt(b) + 1) * (isqrt(b) + 1) <= isqrt(a) * isqrt(a)) by (nonlinear_arith)
            requires isqrt(b) + 1 <= isqrt(a);
    }
}

/// `ceil_sqrt(n)` squared covers `n`, and the previous square does not.
pub proof fn lemma_ceil_sqrt_bounds(n: nat)
    ensures
        n <= ceil_sqrt(n) * ceil_sqrt(n),
        n > 0 ==> (ceil_sqrt(n) - 1) * (ceil_sqrt(n) - 1) < n,
        n > 0 ==> ceil_sqrt(n) > 0,
{
    if n > 0 {
        lemma_isqrt_bounds((n - 1) as nat);
    }
}

/// A slot index below `s * s` lands on a row and column below `s`.
pub proof fn lemma_div_below_square(i: nat, s: nat)
    requires
        s > 0,
        i < s * s,
    ensures
        i / s < s,
        i % s < s,
{
    vstd::arithmetic::div_mod::lemma_fundamental_div_mod(i as int, s as int);
    vstd::arithmetic::div_mod::lemma_mod_division_less_than_divisor(i as int, s as int);
    if i / s >= s {
        assert(s * (i as int / s as int) >= s * s) by (nonlinear_arith)
            requires i as int / s as int >= s, s > 0;
    }
}

/// Floor division is superadditive on non-negative operands:
/// `a / d + b / d <= (a + b) / d`.
pub proof fn lemma_div_superadd(a: int, b: int, d: int)
    requires
        a >= 0,
        b >= 0,
        d > 0,
    ensures
        a / d + b / d <= (a + b) / d,
{
    let k = a / d + b / d;
    vstd::arithmetic::div_mod::lemma_fundamental_div_mod(a, d);
    vstd::arithmetic::div_mod::lemma_fundamental_div_mod(b, d);
    vstd::arithmetic::div_mod::lemma_mod_division_less_than_divisor(a, d);
    vstd::arithmetic::div_mod::lemma_mod_division_less_than_divisor(b, d);
    vstd::arithmetic::div_mod::lemma_div_pos_is_pos(a, d);
    vstd::arithmetic::div_mod::lemma_div_pos_is_pos(b, d);
    assert(d * k == d * (a / d) + d * (b / d)) by (nonlinear_arith)
        requires k == a / d + b / d;
    assert(d * k <= a + b);
    vstd::arithmetic::div_mod::lemma_div_is_ordered(d * k, a + b, d);
    vstd::arithmetic::mul::lemma_mul_is_commutative(d, k);
    vstd::arithmetic::div_mod::lemma_div_by_multiple(k, d);
}

/// A truncated quotient keeps the magnitude bound of its dividend:
/// if `|a| <= b * m` then `|a / b| <= m`.
pub proof fn lemma_div_trunc_bound(a: int, b: int, m: int)
    requires
        b > 0,
        m >= 0,
        -(b * m) <= a <= b * m,
    ensures
        -m <= div_trunc(a, b) <= m,
{
    vstd::arithmetic::mul::lemma_mul_is_commutative(b, m);
    vstd::arithmetic::div_mod::lemma_div_by_multiple(m, b);
    if a >= 0 {
        vstd::arithmetic::div_mod::lemma_div_is_ordered(a, b * m, b);
        vstd::arithmetic::div_mod::lemma_div_pos_is_pos(a, b);
    } else {
        vstd::arithmetic::div_mod::lemma_div_is_ordered(-a, b * m, b);
        vstd::arithmetic::div_mod::lemma_div_pos_is_pos(-a, b);
    }
}

/// Rounding to the nearest multiple of `d`, halves away from zero, as
/// `f32::round` does after a division by `d`.
pub open spec fn round_half_away(a: int, d: int) -> int {
    if a >= 0 {
        (a + d / 2) / d
    } else {
        -((-a + d / 2) / d)
    }
}

/// Binary search for the integer square root of a `u128`.
pub fn isqrt_u128(n: u128) -> (r: u128)
    ensures
        r * r <= n < (r + 1) * (r + 1),
        r == isqrt(n as nat),
{
    let mut lo: u128 = 0;
    let mut hi: u128 = 0x1_0000_0000_0000_0000;
    while lo + 1 < hi
        invariant
            lo < hi,
            hi <= 0x1_0000_0000_0000_0000,
            lo * lo <= n,
            n < hi * hi,
        decreases hi - lo,
    {
        let mid = lo + (hi - lo) / 2;
        proof {
            assert(mid <= 0xffff_ffff_ffff_ffffu128);
            assert(mid * mid <= 0xffff_ffff_ffff_ffffu128 * 0xffff_ffff_ffff_ffffu128)
                by (nonlinear_arith)
                requires mid <= 0xffff_ffff_ffff_ffffu128;
        }
        if mid * mid <= n {
            lo = mid;
        } else {
            hi = mid;
        }
    }
    proof {
        lemma_isqrt_unique(n as nat, lo as nat);
    }
    lo
}

/// Integer square root of a `u64`.
pub fn isqrt_u64(n: u64) -> (r: u64)
    ensures
        r * r <= n < (r + 1) * (r + 1),
        r == isqrt(n as nat),
{
    let wide = isqrt_u128(n as u128);
    proof {
        assert(wide * wide <= n < 0x1_0000_0000_0000_0000);
        assert(wide < 0x1_0000_0000) by (nonlinear_arith)
            requires wide * wide < 0x1_0000_0000_0000_0000;
    }
    wide as u64
}

/// Side length of the smallest square grid with at least `n` slots.
pub fn grid_side(n: usize) -> (s: usize)
    ensures
        s == ceil_sqrt(n as nat),
        n <= s * s,
{
    if n == 0 {
        0
    } else {
        let r = isqrt_u64((n - 1) as u64);
        proof {
            lemma_ceil_sqrt_bounds(n as nat);
            assert(r <= r * r) by (nonlinear_arith);
        }
        (r as usize) + 1
    }
}

/// `round_half_away(a, d)` computed on machine integers.
pub fn round_half_away_i64(a: i64, d: i64) -> (r: i64)
    requires
        0 < d <= 0x4000_0000_0000_0000,
        -0x4000_0000_0000_0000 <= a <= 0x4000_0000_0000_0000,
    ensures
        r == round_half_away(a as int, d as int),
{
    let du = d as u64;
    let half = du / 2;
    if a >= 0 {
        let q = ((a as u64) + half) / du;
        proof {
            vstd::arithmetic::div_mod::lemma_div_nonincreasing(
                (a as u64 + half) as int,
                du as int,
            );
        }
        q as i64
    } else {
        let q = (((-a) as u64) + half) / du;
        proof {
            vstd::arithmetic::div_mod::lemma_div_nonincreasing(
                ((-a) as u64 + half) as int,
                du as int,
            );
        }
        -(q as i64)
    }
}

/// Signed division truncated toward zero, as `i64` division performs it.
pub fn div_trunc_i64(a: i64, b: i64) -> (r: i64)
    requires
        b > 0,
    ensures
        r == div_trunc(a as int, b as int),
{
    a.checked_div(b).unwrap()
}

/// Signed division truncated toward zero, as `i32` division performs it.
pub fn div_trunc_i32(a: i32, b: i32) -> (r: i32)
    requires
        b > 0,
    ensures
        r == div_trunc(a as int, b as int),
{
    a.checked_div(b).unwrap()
}

} // verus!
