//! Fixed-point scalar arithmetic.
//!
//! A quantity of one whole unit is stored as `SCALE` subunits, so a value
//! carries three decimal places: a radius of 4.0 units is the integer 4000.
//! Products and quotients are rescaled with truncating (round-toward-zero)
//! division, the same rounding that hardware integer division performs.

use vstd::prelude::*;
use vstd::arithmetic::div_mod::lemma_div_is_ordered;
use vstd::arithmetic::mul::lemma_mul_inequality;

verus! {

/// Subunits per whole unit.
pub const SCALE: i64 = 1000;

/// Magnitude of `x`.
pub open spec fn abs_spec(x: int) -> int {
    if x < 0 {
        -x
    } else {
        x
    }
}

/// Sign of `x`: -1, 0 or 1.
pub open spec fn sgn_spec(x: int) -> int {
    if x > 0 {
        1
    } else if x < 0 {
        -1
    } else {
        0
    }
}

/// `x` forced into `[lo, hi]`.
pub open spec fn clamp_spec(x: int, lo: int, hi: int) -> int {
    if x < lo {
        lo
    } else if x > hi {
        hi
    } else {
        x
    }
}

/// Truncating (round-toward-zero) division by a positive divisor; this is
/// what `/` computes on machine integers, while `/` on `int` is Euclidean.
pub open spec fn tdiv(a: int, b: int) -> int
    recommends
        b > 0,
{
    if a >= 0 {
        a / b
    } else {
        -((-a) / b)
    }
}

/// Fixed-point product: `a * b` rescaled back to subunits.
pub open spec fn fx_mul_spec(a: int, b: int) -> int {
    tdiv(a * b, SCALE as int)
}

/// Fixed-point quotient: `a / b` kept in subunits.
pub open spec fn fx_div_spec(a: int, b: int) -> int
    recommends
        b > 0,
{
    tdiv(a * (SCALE as int), b)
}

/// For a non-negative numerator bounded by `m * b`, the quotient is at most `m`.
pub proof fn lemma_div_le(x: int, b: int, m: int)
    requires
        b >= 1,
        0 <= x,
        x <= m * b,
    ensures
        x / b <= m,
{
    assert(x <= b * m) by (nonlinear_arith)
        requires
            x <= m * b,
    {}
    vstd::arithmetic::div_mod::lemma_multiply_divide_le(x, b, m);
}

/// Truncating division shrinks magnitudes: `|tdiv(a, b)| <= m` whenever
/// `|a| <= m * b`.
pub proof fn lemma_tdiv_bound(a: int, b: int, m: int)
    requires
        b >= 1,
        abs_spec(a) <= m * b,
    ensures
        abs_spec(tdiv(a, b)) <= m,
        abs_spec(tdiv(a, b)) <= abs_spec(a),
{
    let x = abs_spec(a);
    assert(x <= x * b) by (nonlinear_arith)
        requires
            b >= 1,
            x >= 0,
    {}
    lemma_div_le(x, b, m);
    lemma_div_le(x, b, x);
    vstd::arithmetic::div_mod::lemma_div_pos_is_pos(x, b);
    if a >= 0 {
        assert(tdiv(a, b) == x / b);
    } else {
        assert(tdiv(a, b) == -(x / b));
    }
}

/// Truncating division is monotone in the numerator.
pub proof fn lemma_tdiv_monotone(a1: int, a2: int, b: int)
    requires
        b >= 1,
        a1 <= a2,
    ensures
        tdiv(a1, b) <= tdiv(a2, b),
{
    if a1 >= 0 {
        lemma_div_is_ordered(a1, a2, b);
    } else if a2 < 0 {
        lemma_div_is_ordered(-a2, -a1, b);
    } else {
        vstd::arithmetic::div_mod::lemma_div_pos_is_pos(-a1, b);
        vstd::arithmetic::div_mod::lemma_div_pos_is_pos(a2, b);
    }
}

/// Magnitudes multiply: `|a * b| == |a| * |b|`.
pub proof fn lemma_abs_mul(a: int, b: int)
    ensures
        abs_spec(a * b) == abs_spec(a) * abs_spec(b),
{
    assert(abs_spec(a * b) == abs_spec(a) * abs_spec(b)) by (nonlinear_arith);
}

/// Bound on a fixed-point product from bounds on its factors.
pub proof fn lemma_fx_mul_bound(a: int, b: int, ca: int, cb: int)
    requires
        0 <= ca,
        0 <= cb,
        abs_spec(a) <= ca,
        abs_spec(b) <= cb,
    ensures
        abs_spec(fx_mul_spec(a, b)) <= tdiv(ca * cb, SCALE as int),
        abs_spec(fx_mul_spec(a, b)) <= ca * cb,
{
    lemma_abs_mul(a, b);
    lemma_mul_inequality(abs_spec(a), ca, abs_spec(b));
    lemma_mul_inequality(abs_spec(b), cb, ca);
    assert(ca * abs_spec(b) == abs_spec(b) * ca) by (nonlinear_arith);
    assert(abs_spec(a * b) <= ca * cb);
    if abs_spec(a * b) >= 0 {
        if a * b >= 0 {
            lemma_div_is_ordered(a * b, ca * cb, SCALE as int);
        } else {
            lemma_div_is_ordered(-(a * b), ca * cb, SCALE as int);
        }
    }
    lemma_tdiv_bound(a * b, SCALE as int, ca * cb);
    assert(0 <= tdiv(ca * cb, SCALE as int)) by {
        vstd::arithmetic::div_mod::lemma_div_pos_is_pos(ca * cb, SCALE as int);
    }
}

/// A square is non-negative and monotone in the magnitude of its root.
pub proof fn lemma_square_bound(x: int, m: int)
    requires
        abs_spec(x) <= m,
    ensures
        0 <= x * x <= m * m,
{
    assert(0 <= x * x <= m * m) by (nonlinear_arith)
        requires
            abs_spec(x) <= m,
    {}
}

/// Truncating product rescale of two machine values.
pub fn fx_mul(a: i64, b: i64) -> (r: i64)
    requires
        abs_spec(a as int) * abs_spec(b as int) <= i64::MAX * (SCALE as int),
    ensures
        r as int == fx_mul_spec(a as int, b as int),
{
    let am: u128 = if a >= 0 {
        a as u128
    } else {
        (-(a as i128)) as u128
    };
    let bm: u128 = if b >= 0 {
        b as u128
    } else {
        (-(b as i128)) as u128
    };
    proof {
        lemma_abs_mul(a as int, b as int);
        lemma_tdiv_bound((a as int) * (b as int), SCALE as int, i64::MAX as int);
    }
    let m: u128 = (am * bm) / (SCALE as u128);
    if (a < 0) != (b < 0) {
        proof {
            assert(abs_spec((a as int) * (b as int)) == am * bm);
            assert((a as int) * (b as int) <= 0) by (nonlinear_arith)
                requires
                    (a < 0 && b >= 0) || (a >= 0 && b < 0),
            {}
        }
        -(m as i64)
    } else {
        proof {
            assert(abs_spec((a as int) * (b as int)) == am * bm);
            assert((a as int) * (b as int) >= 0) by (nonlinear_arith)
                requires
                    (a < 0 && b < 0) || (a >= 0 && b >= 0),
            {}
        }
        m as i64
    }
}

/// Truncating fixed-point division by a positive divisor.
pub fn fx_div(a: i64, b: i64) -> (r: i64)
    requires
        b >= 1,
        abs_spec(a as int) * (SCALE as int) <= i64::MAX * (b as int),
    ensures
        r as int == fx_div_spec(a as int, b as int),
{
    let am: u128 = if a >= 0 {
        a as u128
    } else {
        (-(a as i128)) as u128
    };
    proof {
        lemma_abs_mul(a as int, SCALE as int);
        lemma_tdiv_bound((a as int) * (SCALE as int), b as int, i64::MAX as int);
    }
    let m: u128 = (am * (SCALE as u128)) / (b as u128);
    if a < 0 {
        proof {
            assert(abs_spec((a as int) * (SCALE as int)) == am * (SCALE as u128));
            assert((a as int) * (SCALE as int) <= 0) by (nonlinear_arith)
                requires
                    a < 0,
            {}
        }
        -(m as i64)
    } else {
        proof {
            assert(abs_spec((a as int) * (SCALE as int)) == am * (SCALE as u128));
            assert((a as int) * (SCALE as int) >= 0) by (nonlinear_arith)
                requires
                    a >= 0,
            {}
        }
        m as i64
    }
}

/// Truncating `(a * b) / d` with the product taken at full width.
pub fn mul_div(a: i64, b: i64, d: i64) -> (r: i64)
    requires
        d >= 1,
        abs_spec((a as int) * (b as int)) <= i64::MAX * (d as int),
    ensures
        r as int == tdiv((a as int) * (b as int), d as int),
{
    let am: u128 = if a >= 0 {
        a as u128
    } else {
        (-(a as i128)) as u128
    };
    let bm: u128 = if b >= 0 {
        b as u128
    } else {
        (-(b as i128)) as u128
    };
    proof {
        lemma_abs_mul(a as int, b as int);
        lemma_tdiv_bound((a as int) * (b as int), d as int, i64::MAX as int);
    }
    let m: u128 = (am * bm) / (d as u128);
    if (a < 0) != (b < 0) {
        proof {
            assert(abs_spec((a as int) * (b as int)) == am * bm);
            assert((a as int) * (b as int) <= 0) by (nonlinear_arith)
                requires
                    (a < 0 && b >= 0) || (a >= 0 && b < 0),
            {}
        }
        -(m as i64)
    } else {
        proof {
            assert(abs_spec((a as int) * (b as int)) == am * bm);
            assert((a as int) * (b as int) >= 0) by (nonlinear_arith)
                requires
                    (a < 0 && b < 0) || (a >= 0 && b >= 0),
            {}
        }
        m as i64
    }
}

/// Truncating division of a machine value by a positive machine value.
pub fn tdiv_i64(a: i64, b: i64) -> (r: i64)
    requires
        b >= 1,
        a > i64::MIN,
    ensures
        r as int == tdiv(a as int, b as int),
{
    proof {
        assert(abs_spec(a as int) <= abs_spec(a as int) * (b as int)) by (nonlinear_arith)
            requires
                b >= 1,
                abs_spec(a as int) >= 0,
        {}
        lemma_tdiv_bound(a as int, b as int, abs_spec(a as int));
    }
    if a >= 0 {
        ((a as u64) / (b as u64)) as i64
    } else {
        let m: u64 = ((-(a as i128)) as u64) / (b as u64);
        -(m as i64)
    }
}

/// `x` forced into `[lo, hi]`.
pub fn clamp_i64(x: i64, lo: i64, hi: i64) -> (r: i64)
    requires
        lo <= hi,
    ensures
        r as int == clamp_spec(x as int, lo as int, hi as int),
{
    if x < lo {
        lo
    } else if x > hi {
        hi
    } else {
        x
    }
}

/// Magnitude of `x`.
pub fn abs_i64(x: i64) -> (r: i64)
    requires
        x != i64::MIN,
    ensures
        r as int == abs_spec(x as int),
{
    if x < 0 {
        -x
    } else {
        x
    }
}

/// Floor of the square root: the greatest `r` with `r * r <= x`.
pub fn isqrt(x: u128) -> (r: u64)
    ensures
        (r as int) * (r as int) <= x as int,
        (r as int + 1) * (r as int + 1) > x as int,
        r as int == sqrt_floor(x as int),
{
    if x == 0 {
        proof {
            lemma_sqrt_floor_unique(0, 0);
        }
        return 0;
    }
    let mut lo: u128 = 0;
    let mut hi: u128 = 0x1_0000_0000_0000_0000;
    while hi - lo > 1
        invariant
            lo < hi,
            hi <= 0x1_0000_0000_0000_0000,
            (lo as int) * (lo as int) <= x as int,
            (hi as int) * (hi as int) > x as int,
        decreases hi - lo,
    {
        let mid: u128 = lo + (hi - lo) / 2;
        proof {
            assert(mid < hi);
            assert((mid as int) * (mid as int) < 0x1_0000_0000_0000_0000 * 0x1_0000_0000_0000_0000)
                by (nonlinear_arith)
                requires
                    0 <= mid < 0x1_0000_0000_0000_0000,
            {}
        }
        if mid * mid <= x {
            lo = mid;
        } else {
            hi = mid;
        }
    }
    proof {
        assert(lo < 0x1_0000_0000_0000_0000);
        lemma_sqrt_floor_unique(x as int, lo as int);
    }
    lo as u64
}

/// Floor of the square root, as a specification value.
pub open spec fn sqrt_floor(x: int) -> int
    decreases x,
{
    if x <= 0 {
        0
    } else {
        let p = sqrt_floor(x - 1);
        if (p + 1) * (p + 1) <= x {
            p + 1
        } else {
            p
        }
    }
}

/// `sqrt_floor` is the greatest integer whose square is at most `x`.
pub proof fn lemma_sqrt_floor_props(x: int)
    requires
        0 <= x,
    ensures
        0 <= sqrt_floor(x),
        sqrt_floor(x) * sqrt_floor(x) <= x,
        (sqrt_floor(x) + 1) * (sqrt_floor(x) + 1) > x,
    decreases x,
{
    if x > 0 {
        lemma_sqrt_floor_props(x - 1);
        let p = sqrt_floor(x - 1);
        if (p + 1) * (p + 1) <= x {
            assert((p + 2) * (p + 2) > x) by (nonlinear_arith)
                requires
                    0 <= p,
                    (p + 1) * (p + 1) > x - 1,
            {}
        }
    }
}

/// Any value sandwiched like a floor square root is the floor square
/// root.
pub proof fn lemma_sqrt_floor_unique(x: int, r: int)
    requires
        0 <= x,
        0 <= r,
        r * r <= x,
        (r + 1) * (r + 1) > x,
    ensures
        r == sqrt_floor(x),
{
    lemma_sqrt_floor_props(x);
    let s = sqrt_floor(x);
    assert(r == s) by (nonlinear_arith)
        requires
            0 <= r,
            0 <= s,
            r * r <= x,
            (r + 1) * (r + 1) > x,
            s * s <= x,
            (s + 1) * (s + 1) > x,
    {}
}

/// The floor square root bounds every component: if `c * c <= x` then
/// `c <= isqrt(x)`.
pub proof fn lemma_isqrt_component(c: int, r: int, x: int)
    requires
        0 <= c,
        0 <= r,
        c * c <= x,
        r * r <= x,
        (r + 1) * (r + 1) > x,
    ensures
        c <= r,
{
    if c > r {
        assert(c >= r + 1);
        assert(c * c >= (r + 1) * (r + 1)) by (nonlinear_arith)
            requires
                0 <= r + 1,
                c >= r + 1,
        {}
    }
}

} // verus!
