//! Fixed-point scalars: an `i32` that counts 1/65536ths.

use vstd::prelude::*;

verus! {

/// The raw value of the fixed-point number one.
pub const ONE: i32 = 65536;

/// Integer quotient rounded toward zero, for a non-zero divisor.
pub open spec fn trunc_div(n: int, d: int) -> int
    recommends
        d != 0,
{
    if d > 0 {
        if n >= 0 {
            n / d
        } else {
            -((-n) / d)
        }
    } else {
        if n >= 0 {
            -(n / (-d))
        } else {
            (-n) / (-d)
        }
    }
}

/// The magnitude of an integer.
pub open spec fn magnitude(a: int) -> int {
    if a >= 0 {
        a
    } else {
        -a
    }
}

/// The value of `v` brought into the range of `i32`.
pub open spec fn saturate(v: int) -> int {
    if v < i32::MIN {
        i32::MIN as int
    } else if v > i32::MAX {
        i32::MAX as int
    } else {
        v
    }
}

/// A product of two bounded integers is bounded by the product of the bounds.
pub proof fn lemma_mul_bounded(a: int, b: int, ma: int, mb: int)
    requires
        -ma <= a <= ma,
        -mb <= b <= mb,
    ensures
        -(ma * mb) <= a * b <= ma * mb,
{
    assert(-(ma * mb) <= a * b <= ma * mb) by (nonlinear_arith)
        requires
            -ma <= a <= ma,
            -mb <= b <= mb,
    ;
}

/// A truncated quotient is no larger in magnitude than its dividend.
pub proof fn lemma_trunc_div_bounded(n: int, d: int, m: int)
    requires
        d != 0,
        -m <= n <= m,
    ensures
        -m <= trunc_div(n, d) <= m,
{
    let an = if n >= 0 { n } else { -n };
    let ad = if d > 0 { d } else { -d };
    assert(0 <= an / ad <= an) by (nonlinear_arith)
        requires
            an >= 0,
            ad > 0,
    ;
}

/// A truncated quotient by a positive divisor lies between any two integers
/// whose multiples enclose the dividend.
pub proof fn lemma_trunc_div_between(n: int, d: int, lo: int, hi: int)
    requires
        d > 0,
        lo <= 0 <= hi,
        lo * d <= n <= hi * d,
    ensures
        lo <= trunc_div(n, d) <= hi,
{
    if n >= 0 {
        assert(0 <= n / d <= hi) by (nonlinear_arith)
            requires
                0 <= n <= hi * d,
                d > 0,
        ;
    } else {
        assert((-lo) * d == -(lo * d)) by (nonlinear_arith);
        assert(0 <= (-n) / d <= -lo) by (nonlinear_arith)
            requires
                0 <= -n <= (-lo) * d,
                d > 0,
        ;
    }
}

/// An exact multiple divides back to its factor.
pub proof fn lemma_trunc_div_multiple(a: int, d: int)
    requires
        d > 0,
    ensures
        trunc_div(a * d, d) == a,
{
    if a >= 0 {
        assert((a * d) / d == a) by (nonlinear_arith)
            requires
                d > 0,
        ;
        assert(a * d >= 0) by (nonlinear_arith)
            requires
                a >= 0,
                d > 0,
        ;
    } else {
        assert(-(a * d) == (-a) * d) by (nonlinear_arith);
        assert(((-a) * d) / d == -a) by (nonlinear_arith)
            requires
                d > 0,
        ;
        assert(a * d < 0) by (nonlinear_arith)
            requires
                a < 0,
                d > 0,
        ;
    }
}

/// Divides rounding toward zero.
pub fn div_toward_zero(n: i128, d: i128) -> (q: i128)
    requires
        d != 0,
        n > i128::MIN,
        d > i128::MIN,
    ensures
        q == trunc_div(n as int, d as int),
{
    proof {
        lemma_trunc_div_bounded(n as int, d as int, i128::MAX as int);
    }
    if d > 0 {
        if n >= 0 {
            n / d
        } else {
            let m: i128 = -n;
            let p: i128 = m / d;
            -p
        }
    } else {
        let e: i128 = -d;
        if n >= 0 {
            let p: i128 = n / e;
            -p
        } else {
            let m: i128 = -n;
            m / e
        }
    }
}

/// Brings a wide integer into the range of `i32`.
pub fn saturate_i32(v: i128) -> (r: i32)
    ensures
        r == saturate(v as int),
{
    if v < -2147483648i128 {
        i32::MIN
    } else if v > 2147483647i128 {
        i32::MAX
    } else {
        v as i32
    }
}

/// The fixed-point product of two fixed-point numbers, saturating.
pub open spec fn fx_mul(a: int, b: int) -> int {
    saturate(trunc_div(a * b, 65536))
}

/// Multiplies two fixed-point numbers; the result saturates at the ends of `i32`.
pub fn mul_fixed(a: i32, b: i32) -> (r: i32)
    ensures
        r == fx_mul(a as int, b as int),
{
    proof {
        lemma_mul_bounded(a as int, b as int, 0x8000_0000, 0x8000_0000);
    }
    let p: i128 = (a as i128) * (b as i128);
    saturate_i32(div_toward_zero(p, 65536))
}

/// The fixed-point quotient of two fixed-point numbers, saturating.
pub open spec fn fx_div(a: int, b: int) -> int
    recommends
        b != 0,
{
    saturate(trunc_div(a * 65536, b))
}

/// Divides two fixed-point numbers; the result saturates at the ends of `i32`.
pub fn div_fixed(a: i32, b: i32) -> (r: i32)
    requires
        b != 0,
    ensures
        r == fx_div(a as int, b as int),
{
    let p: i128 = (a as i128) * 65536;
    saturate_i32(div_toward_zero(p, b as i128))
}

} // verus!
