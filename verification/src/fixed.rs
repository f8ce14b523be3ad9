//! Fixed-point scalar arithmetic.
//!
//! A scalar is an `i64` holding the real value `x / ONE`.  Multiplying two
//! scalars therefore needs a rescale by `ONE`; the rescale rounds toward
//! zero, exactly as `tdiv` describes.

use vstd::prelude::*;
use vstd::arithmetic::div_mod::{lemma_div_multiples_vanish, lemma_div_is_ordered, lemma_div_pos_is_pos};

verus! {

/// The fixed-point representation of the real number 1.
pub const ONE: i64 = 1_000_000;

/// Largest coordinate magnitude the model accepts; keeps every product
/// taken by the geometry inside `i64`.
pub const MAX_COORD: i64 = 1_000_000_000;

/// Quotient of `a / d` rounded toward zero (the rounding of hardware
/// division), defined for `d > 0` via Euclidean division.
pub open spec fn tdiv(a: int, d: int) -> int {
    if a >= 0 {
        a / d
    } else {
        -((-a) / d)
    }
}

/// Rounding toward zero never increases magnitude: `|tdiv(a, d)| <= |a| / d`
/// componentwise, hence `|a| <= m * d` bounds the quotient by `m`.
pub proof fn lemma_tdiv_bound(a: int, d: int, m: int)
    requires
        d > 0,
        m >= 0,
        -(m * d) <= a <= m * d,
    ensures
        -m <= tdiv(a, d) <= m,
{
    lemma_div_multiples_vanish(m, d);
    if a >= 0 {
        lemma_div_is_ordered(a, m * d, d);
        lemma_div_pos_is_pos(a, d);
    } else {
        lemma_div_is_ordered(-a, m * d, d);
        lemma_div_pos_is_pos(-a, d);
    }
}

/// Dividing an exact multiple is exact: `tdiv(x * d, d) == x`.
pub proof fn lemma_tdiv_exact(x: int, d: int)
    requires
        d > 0,
    ensures
        tdiv(x * d, d) == x,
{
    if x * d >= 0 {
        assert(x * d == d * x) by (nonlinear_arith);
        lemma_div_multiples_vanish(x, d);
        assert((d * x) / d == x);
    } else {
        assert(-(x * d) == d * (-x)) by (nonlinear_arith);
        lemma_div_multiples_vanish(-x, d);
        assert((d * -x) / d == -x);
    }
}

/// `tdiv` of zero is zero.
pub proof fn lemma_tdiv_zero(d: int)
    requires
        d > 0,
    ensures
        tdiv(0, d) == 0,
{
    lemma_div_multiples_vanish(0, d);
}

/// Magnitude bounds multiply: `|x| <= a` and `|k| <= b` give `|x * k| <= a * b`.
pub proof fn lemma_mul_bound(x: int, k: int, a: int, b: int)
    requires
        0 <= a,
        0 <= b,
        -a <= x <= a,
        -b <= k <= b,
    ensures
        -(a * b) <= x * k <= a * b,
{
    assert(-(a * b) <= x * k <= a * b) by (nonlinear_arith)
        requires
            0 <= a,
            0 <= b,
            -a <= x <= a,
            -b <= k <= b,
    ;
}

/// `trunc(a * m / d)`: the product is formed exactly, then divided with
/// rounding toward zero.  This is the one rounding primitive of the model.
pub fn mul_div(a: i64, m: i64, d: u64) -> (r: i64)
    requires
        d > 0,
        -0x7fff_ffff_ffff_ffff <= a * m <= 0x7fff_ffff_ffff_ffff,
    ensures
        r == tdiv(a * m, d as int),
{
    let ua: u64 = if a >= 0 {
        a as u64
    } else {
        (-(a as i128)) as u64
    };
    let um: u64 = if m >= 0 {
        m as u64
    } else {
        (-(m as i128)) as u64
    };
    proof {
        assert(ua == if a >= 0 { a as int } else { -(a as int) });
        assert(um == if m >= 0 { m as int } else { -(m as int) });
        assert(ua * um <= 0x7fff_ffff_ffff_ffffu64 && (ua * um == a * m || ua * um == -(a * m)))
            by (nonlinear_arith)
            requires
                ua == if a >= 0 { a as int } else { -(a as int) },
                um == if m >= 0 { m as int } else { -(m as int) },
                -0x7fff_ffff_ffff_ffff <= a * m <= 0x7fff_ffff_ffff_ffff,
        ;
    }
    let p: u64 = ua * um;
    let q: u64 = p / d;
    proof {
        lemma_div_pos_is_pos(p as int, d as int);
        lemma_div_is_ordered(p as int, 0x7fff_ffff_ffff_ffff, d as int);
        lemma_div_nonincreasing_local(p as int, d as int);
    }
    if (a < 0) != (m < 0) {
        proof {
            assert(a * m <= 0 && (a * m == 0 ==> p == 0)) by (nonlinear_arith)
                requires
                    (a < 0) != (m < 0),
                    p == ua * um,
                    ua == if a >= 0 { a as int } else { -(a as int) },
                    um == if m >= 0 { m as int } else { -(m as int) },
            ;
        }
        -(q as i64)
    } else {
        proof {
            assert(a * m >= 0) by (nonlinear_arith)
                requires
                    (a < 0) == (m < 0),
            ;
        }
        q as i64
    }
}

/// The integer square root, rounded down: the largest `r` with
/// `r * r <= n`.
pub open spec fn sqrt_floor(n: nat) -> nat
    decreases n,
{
    if n == 0 {
        0
    } else {
        let p = sqrt_floor((n - 1) as nat);
        if (p + 1) * (p + 1) <= n {
            p + 1
        } else {
            p
        }
    }
}

/// `sqrt_floor(n)` is the unique value whose square brackets `n`:
/// `sqrt_floor(n)^2 <= n < (sqrt_floor(n) + 1)^2`.
pub proof fn lemma_sqrt_floor_bracket(n: nat)
    ensures
        sqrt_floor(n) * sqrt_floor(n) <= n,
        n < (sqrt_floor(n) + 1) * (sqrt_floor(n) + 1),
    decreases n,
{
    if n == 0 {
        assert(sqrt_floor(0) == 0);
        assert((sqrt_floor(0) + 1) * (sqrt_floor(0) + 1) == 1) by (nonlinear_arith)
            requires
                sqrt_floor(0) == 0,
        ;
    } else {
        lemma_sqrt_floor_bracket((n - 1) as nat);
        let p = sqrt_floor((n - 1) as nat);
        if (p + 1) * (p + 1) <= n {
            assert(sqrt_floor(n) == p + 1);
            assert(n - 1 < (p + 1) * (p + 1));
            assert(n == (p + 1) * (p + 1));
            assert((p + 1) * (p + 1) < (p + 2) * (p + 2)) by (nonlinear_arith)
                requires
                    p >= 0,
            ;
        } else {
            assert(sqrt_floor(n) == p);
            assert(n < (p + 1) * (p + 1));
        }
    }
}

/// Any value whose square brackets `n` is `sqrt_floor(n)`.
pub proof fn lemma_sqrt_floor_unique(n: nat, r: nat)
    requires
        r * r <= n,
        n < (r + 1) * (r + 1),
    ensures
        r == sqrt_floor(n),
{
    lemma_sqrt_floor_bracket(n);
    let q = sqrt_floor(n);
    if r < q {
        assert((r + 1) * (r + 1) <= q * q) by (nonlinear_arith)
            requires
                r < q,
                0 <= r,
        ;
    }
    if q < r {
        assert((q + 1) * (q + 1) <= r * r) by (nonlinear_arith)
            requires
                q < r,
                0 <= q,
        ;
    }
}

/// Executable integer square root, by bisection.
pub fn isqrt(n: u64) -> (r: u64)
    ensures
        r * r <= n < (r + 1) * (r + 1),
        r == sqrt_floor(n as nat),
{
    let mut lo: u64 = 0;
    let mut hi: u64 = 0xffff_ffff;
    while lo < hi
        invariant
            lo <= hi <= 0xffff_ffffu64,
            lo * lo <= n,
            n < (hi + 1) * (hi + 1),
        decreases hi - lo,
    {
        let mid: u64 = lo + (hi - lo + 1) / 2;
        proof {
            lemma_mul_bound(mid as int, mid as int, 0xffff_ffff, 0xffff_ffff);
        }
        let m2: u64 = mid * mid;
        if m2 <= n {
            lo = mid;
        } else {
            hi = mid - 1;
        }
    }
    proof {
        lemma_sqrt_floor_unique(n as nat, lo as nat);
    }
    lo
}

/// A quotient with a positive divisor never exceeds a nonnegative dividend.
proof fn lemma_div_nonincreasing_local(x: int, d: int)
    requires
        x >= 0,
        d > 0,
    ensures
        x / d <= x,
{
    vstd::arithmetic::div_mod::lemma_div_nonincreasing(x, d);
}

} // verus!
