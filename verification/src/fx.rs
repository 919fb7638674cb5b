//! Fixed-point scalar arithmetic: truncating division, floor square
//! roots, and a fused multiply-divide, with the lemmas the geometry
//! modules need about them.

use vstd::prelude::*;

verus! {

/// Number of fixed-point sub-units per world unit.  Every coordinate,
/// radius, color channel and brightness in this crate is an `i64` count
/// of these sub-units.
pub const SCALE: i64 = 1024;

/// Truncating (round-toward-zero) division, the semantics of Rust's `/`
/// on machine integers.
pub open spec fn tdiv(a: int, b: int) -> int
    recommends
        b >= 1,
{
    if a >= 0 {
        a / b
    } else {
        -((-a) / b)
    }
}

/// Floor of the real square root of `n`.
pub open spec fn sqrt_floor(n: nat) -> nat
    decreases n,
{
    if n == 0 {
        0
    } else {
        let p = sqrt_floor((n - 1) as nat);
        if (p + 1) * (p + 1) <= n {
            (p + 1) as nat
        } else {
            p
        }
    }
}

/// `sqrt_floor(n)` is the unique `r` with `r * r <= n < (r + 1) * (r + 1)`.
pub proof fn lemma_sqrt_floor(n: nat)
    ensures
        sqrt_floor(n) * sqrt_floor(n) <= n,
        n < (sqrt_floor(n) + 1) * (sqrt_floor(n) + 1),
    decreases n,
{
    if n > 0 {
        let m = (n - 1) as nat;
        lemma_sqrt_floor(m);
        let p = sqrt_floor(m);
        assert(p * p <= m < (p + 1) * (p + 1));
        if (p + 1) * (p + 1) <= n {
            assert(sqrt_floor(n) == p + 1);
            assert(n <= (p + 1) * (p + 1));
            assert(n < (p + 1 + 1) * (p + 1 + 1)) by (nonlinear_arith)
                requires
                    p >= 0,
                    n <= (p + 1) * (p + 1),
            ;
            assert(sqrt_floor(n) * sqrt_floor(n) <= n);
            assert(n < (sqrt_floor(n) + 1) * (sqrt_floor(n) + 1));
        } else {
            assert(sqrt_floor(n) == p);
            assert(sqrt_floor(n) * sqrt_floor(n) <= n);
            assert(n < (sqrt_floor(n) + 1) * (sqrt_floor(n) + 1));
        }
    } else {
        assert(sqrt_floor(n) == 0);
        assert(sqrt_floor(n) * sqrt_floor(n) <= n);
        assert(n < (sqrt_floor(n) + 1) * (sqrt_floor(n) + 1)) by (nonlinear_arith)
            requires
                n == 0,
                sqrt_floor(n) == 0,
        ;
    }
}

/// Any `r` that brackets `n` between consecutive squares is `sqrt_floor(n)`.
pub proof fn lemma_sqrt_floor_is(n: nat, r: nat)
    requires
        r * r <= n,
        n < (r + 1) * (r + 1),
    ensures
        sqrt_floor(n) == r,
{
    lemma_sqrt_floor(n);
    let s = sqrt_floor(n);
    if s < r {
        assert((s + 1) * (s + 1) <= r * r) by (nonlinear_arith)
            requires
                0 <= s,
                s + 1 <= r,
        ;
    }
    if r < s {
        assert((r + 1) * (r + 1) <= s * s) by (nonlinear_arith)
            requires
                0 <= r,
                r + 1 <= s,
        ;
    }
}

/// `sqrt_floor` of an exact square.
pub proof fn lemma_sqrt_floor_square(r: nat)
    ensures
        sqrt_floor(r * r) == r,
{
    assert(r * r < (r + 1) * (r + 1)) by (nonlinear_arith)
        requires
            r >= 0,
    ;
    lemma_sqrt_floor_is(r * r, r);
}

/// `sqrt_floor` is monotone.
pub proof fn lemma_sqrt_floor_mono(a: nat, b: nat)
    requires
        a <= b,
    ensures
        sqrt_floor(a) <= sqrt_floor(b),
{
    lemma_sqrt_floor(a);
    lemma_sqrt_floor(b);
    let ra = sqrt_floor(a);
    let rb = sqrt_floor(b);
    if rb < ra {
        assert((rb + 1) * (rb + 1) <= ra * ra) by (nonlinear_arith)
            requires
                0 <= rb,
                rb + 1 <= ra,
        ;
    }
}

/// The quotient and remainder view of truncating division.
pub proof fn lemma_tdiv_parts(a: int, d: int)
    requires
        d >= 1,
    ensures
        a >= 0 ==> tdiv(a, d) * d <= a < tdiv(a, d) * d + d,
        a <= 0 ==> tdiv(a, d) * d - d < a <= tdiv(a, d) * d,
        a >= 0 ==> tdiv(a, d) >= 0,
        a <= 0 ==> tdiv(a, d) <= 0,
{
    if a >= 0 {
        assert((a / d) * d + a % d == a) by (nonlinear_arith)
            requires
                d >= 1,
        ;
        assert(0 <= a % d < d) by (nonlinear_arith)
            requires
                d >= 1,
        ;
        assert(a / d >= 0) by (nonlinear_arith)
            requires
                d >= 1,
                a >= 0,
        ;
    } else {
        let b = -a;
        let q = b / d;
        assert(q * d + b % d == b) by (nonlinear_arith)
            requires
                d >= 1,
                q == b / d,
        ;
        assert(0 <= b % d < d) by (nonlinear_arith)
            requires
                d >= 1,
        ;
        assert(q >= 0) by (nonlinear_arith)
            requires
                d >= 1,
                b >= 0,
                q == b / d,
        ;
        assert(tdiv(a, d) == -q);
        assert((-q) * d == -(q * d)) by (nonlinear_arith);
    }
}

/// A bound on the dividend gives the same bound, scaled down, on the
/// truncating quotient.
pub proof fn lemma_tdiv_bound(a: int, d: int, m: int)
    requires
        d >= 1,
        m >= 0,
        -(m * d) <= a <= m * d,
    ensures
        -m <= tdiv(a, d) <= m,
{
    lemma_tdiv_parts(a, d);
    let q = tdiv(a, d);
    if a >= 0 {
        assert(q <= m) by (nonlinear_arith)
            requires
                d >= 1,
                q * d <= a,
                a <= m * d,
        ;
    } else {
        assert(-m <= q) by (nonlinear_arith)
            requires
                d >= 1,
                a <= q * d,
                -(m * d) <= a,
        ;
    }
}

/// Truncating division is monotone in the dividend.
pub proof fn lemma_tdiv_mono(a: int, b: int, d: int)
    requires
        d >= 1,
        a <= b,
    ensures
        tdiv(a, d) <= tdiv(b, d),
{
    lemma_tdiv_parts(a, d);
    lemma_tdiv_parts(b, d);
    let qa = tdiv(a, d);
    let qb = tdiv(b, d);
    if a >= 0 {
        assert(qa <= qb) by (nonlinear_arith)
            requires
                d >= 1,
                qa * d <= a,
                a <= b,
                b < qb * d + d,
        ;
    } else if b >= 0 {
        assert(qa <= 0 <= qb);
    } else {
        assert(qa <= qb) by (nonlinear_arith)
            requires
                d >= 1,
                qa * d - d < a,
                a <= b,
                b <= qb * d,
        ;
    }
}

/// An upper bound on a square gives an upper bound on `sqrt_floor`.
pub proof fn lemma_sqrt_floor_le(n: nat, m: nat)
    requires
        n <= m * m,
    ensures
        sqrt_floor(n) <= m,
{
    lemma_sqrt_floor(n);
    let r = sqrt_floor(n);
    if r > m {
        assert((m + 1) * (m + 1) <= r * r) by (nonlinear_arith)
            requires
                0 <= m,
                m + 1 <= r,
        ;
        assert(m * m < (m + 1) * (m + 1)) by (nonlinear_arith)
            requires
                0 <= m,
        ;
    }
}

/// Interval bounds on two factors bound their product.
pub proof fn lemma_mul_bound(a: int, b: int, ma: int, mb: int)
    by (nonlinear_arith)
    requires
        -ma <= a <= ma,
        -mb <= b <= mb,
        0 <= ma,
        0 <= mb,
    ensures
        -(ma * mb) <= a * b <= ma * mb,
{
}

/// Floor square root of a 128-bit integer, by binary search on the
/// bracket `lo * lo <= n < hi * hi`.
pub fn isqrt(n: u128) -> (r: u64)
    ensures
        r == sqrt_floor(n as nat),
{
    let mut lo: u128 = 0;
    let mut hi: u128 = 0x1_0000_0000_0000_0000;
    assert(hi * hi > n) by (nonlinear_arith)
        requires
            hi == 0x1_0000_0000_0000_0000u128,
            n <= u128::MAX,
    ;
    while lo + 1 < hi
        invariant
            0 <= lo < hi <= 0x1_0000_0000_0000_0000,
            lo * lo <= n,
            hi * hi > n,
        decreases hi - lo,
    {
        let mid: u128 = lo + (hi - lo) / 2;
        assert(lo < mid < hi);
        assert(mid * mid <= 0xffff_ffff_ffff_ffffu128 * 0xffff_ffff_ffff_ffffu128)
            by (nonlinear_arith)
            requires
                0 <= mid <= 0xffff_ffff_ffff_ffffu128,
        ;
        if mid * mid <= n {
            lo = mid;
        } else {
            hi = mid;
        }
    }
    proof {
        lemma_sqrt_floor_is(n as nat, lo as nat);
    }
    lo as u64
}

/// What `clamp` returns.
pub open spec fn s_clamp(val: int, lo: int, hi: int) -> int {
    if val < lo {
        lo
    } else if val > hi {
        hi
    } else {
        val
    }
}

/// Clamp `val` into `[lo, hi]` (`lo` wins when the interval is empty).
pub fn clamp(val: i64, lo: i64, hi: i64) -> (r: i64)
    ensures
        r == s_clamp(val as int, lo as int, hi as int),
{
    if val < lo {
        lo
    } else if val > hi {
        hi
    } else {
        val
    }
}

/// Truncating division of a full-width intermediate by a positive
/// divisor, with the quotient known to fit back in an `i64`.
pub fn tdiv128(p: i128, d: i64) -> (r: i64)
    requires
        d >= 1,
        -(0x7fff_ffff_ffff_ffff * (d as int)) <= p as int <= 0x7fff_ffff_ffff_ffff * (d as int),
    ensures
        r == tdiv(p as int, d as int),
{
    proof {
        lemma_tdiv_bound(p as int, d as int, 0x7fff_ffff_ffff_ffff);
        lemma_tdiv_parts(p as int, d as int);
        lemma_mul_bound(0x7fff_ffff_ffff_ffff, d as int, 0x7fff_ffff_ffff_ffff, 0x7fff_ffff_ffff_ffff);
    }
    if p >= 0 {
        let q: u128 = (p as u128) / (d as u128);
        proof {
            assert(q == tdiv(p as int, d as int));
        }
        q as i64
    } else {
        let q: u128 = ((-p) as u128) / (d as u128);
        proof {
            assert(q == -tdiv(p as int, d as int));
        }
        -(q as i64)
    }
}

/// Flooring division of a full-width intermediate by a positive divisor,
/// with the quotient known to fit back in an `i64`.
pub fn fdiv128(p: i128, d: i64) -> (r: i64)
    requires
        d >= 1,
        -(0x7fff_ffff_ffff_ffff * (d as int)) <= p as int <= 0x7fff_ffff_ffff_ffff * (d as int),
    ensures
        r == (p as int) / (d as int),
{
    if p >= 0 {
        let r = tdiv128(p, d);
        proof {
            assert(r == (p as int) / (d as int));
        }
        r
    } else {
        let n: u128 = (-p) as u128;
        proof {
            lemma_mul_bound(0x7fff_ffff_ffff_ffff, d as int, 0x7fff_ffff_ffff_ffff, 0x7fff_ffff_ffff_ffff);
        }
        let q: u128 = (n + (d as u128) - 1) / (d as u128);
        proof {
            let ni = n as int;
            let di = d as int;
            let qi = q as int;
            assert(qi == (ni + di - 1) / di);
            assert(qi * di <= ni + di - 1 < qi * di + di) by (nonlinear_arith)
                requires
                    di >= 1,
                    qi == (ni + di - 1) / di,
            ;
            assert(qi >= 0) by (nonlinear_arith)
                requires
                    di >= 1,
                    ni >= 1,
                    qi == (ni + di - 1) / di,
            ;
            let rem = qi * di - ni;
            assert(0 <= rem < di);
            assert((-qi) * di + rem == p as int) by (nonlinear_arith)
                requires
                    rem == qi * di - ni,
                    p as int == -ni,
            ;
            vstd::arithmetic::div_mod::lemma_fundamental_div_mod_converse_div(
                p as int,
                di,
                -qi,
                rem,
            );
            assert(qi <= 0x7fff_ffff_ffff_ffff) by (nonlinear_arith)
                requires
                    di >= 1,
                    ni <= 0x7fff_ffff_ffff_ffff * di,
                    qi * di <= ni + di - 1,
            ;
        }
        -(q as i64)
    }
}

/// `a * b / d` with round-toward-zero semantics, the product taken at
/// full width so it cannot overflow on the way.
pub fn muldiv_trunc(a: i64, b: i64, d: i64) -> (r: i64)
    requires
        d >= 1,
        -(0x7fff_ffff_ffff_ffff * (d as int)) <= (a as int) * (b as int),
        (a as int) * (b as int) <= 0x7fff_ffff_ffff_ffff * (d as int),
    ensures
        r == tdiv((a as int) * (b as int), d as int),
{
    proof {
        lemma_mul_bound(a as int, b as int, 0x8000_0000_0000_0000, 0x8000_0000_0000_0000);
    }
    let p: i128 = (a as i128) * (b as i128);
    tdiv128(p, d)
}

} // verus!
