//! Integer division with explicit rounding, and the few facts about it that
//! the rest of the crate relies on.
use vstd::arithmetic::div_mod::{
    lemma_fundamental_div_mod, lemma_fundamental_div_mod_converse, lemma_mod_bound,
};
use vstd::prelude::*;

verus! {

/// The quotient of `n` by `d`, rounded toward zero.
pub open spec fn trunc_div(n: int, d: int) -> int
    recommends
        d != 0,
{
    if n >= 0 {
        if d > 0 {
            n / d
        } else {
            -(n / (-d))
        }
    } else {
        if d > 0 {
            -((-n) / d)
        } else {
            (-n) / (-d)
        }
    }
}

/// The quotient of `n` by a positive `d`, rounded toward minus infinity.
pub open spec fn floor_div(n: int, d: int) -> int
    recommends
        d > 0,
{
    n / d
}

/// `v` limited to the closed interval from `lo` to `hi`.
pub open spec fn clamp(v: int, lo: int, hi: int) -> int
    recommends
        lo <= hi,
{
    if v < lo {
        lo
    } else if v > hi {
        hi
    } else {
        v
    }
}

/// The absolute value of `v`.
pub open spec fn abs(v: int) -> int {
    if v < 0 {
        -v
    } else {
        v
    }
}

/// Division rounded toward zero on 64-bit values.
pub fn div_trunc(n: i64, d: i64) -> (q: i64)
    requires
        d != 0,
        n > i64::MIN,
        d > i64::MIN,
    ensures
        q == trunc_div(n as int, d as int),
{
    if d > 0 {
        n / d
    } else {
        (-n) / (-d)
    }
}

/// Division rounded toward zero on 128-bit values.
pub fn div_trunc_wide(n: i128, d: i128) -> (q: i128)
    requires
        d != 0,
        n > i128::MIN,
        d > i128::MIN,
    ensures
        q == trunc_div(n as int, d as int),
{
    if d > 0 {
        n / d
    } else {
        (-n) / (-d)
    }
}

/// Division by a positive number rounded toward minus infinity.
pub fn div_floor_wide(n: i128, d: i128) -> (q: i128)
    requires
        d > 0,
        n > i128::MIN,
    ensures
        q == floor_div(n as int, d as int),
{
    if n >= 0 {
        n / d
    } else {
        let m: i128 = -n;
        let q: i128 = m / d;
        let r: i128 = m % d;
        proof {
            lemma_fundamental_div_mod(m as int, d as int);
            lemma_mod_bound(m as int, d as int);
            assert(d * (m as int / d as int) == (m as int / d as int) * d) by (nonlinear_arith);
            if r == 0 {
                assert((-q) * d + 0 == n) by (nonlinear_arith)
                    requires
                        m == q * d + r,
                        r == 0,
                        n == -m,
                ;
                lemma_fundamental_div_mod_converse(n as int, d as int, -q, 0);
            } else {
                assert((-q - 1) * d + (d - r) == n) by (nonlinear_arith)
                    requires
                        m == q * d + r,
                        n == -m,
                ;
                lemma_fundamental_div_mod_converse(n as int, d as int, -q - 1, d - r);
            }
        }
        if r == 0 {
            -q
        } else {
            -q - 1
        }
    }
}

/// What is left of `n` after taking out `trunc_div(n, d)` times `d`: it has
/// the sign of `n` and is smaller than `d` in magnitude.
pub proof fn lemma_trunc_div_remainder(n: int, d: int)
    requires
        d != 0,
    ensures
        n >= 0 ==> 0 <= n - trunc_div(n, d) * d < abs(d),
        n <= 0 ==> -abs(d) < n - trunc_div(n, d) * d <= 0,
{
    let an = abs(n);
    let ad = abs(d);
    lemma_fundamental_div_mod(an, ad);
    lemma_mod_bound(an, ad);
    let q = an / ad;
    assert(ad * q == q * ad) by (nonlinear_arith);
    assert((-q) * ad == -(q * ad)) by (nonlinear_arith);
    assert((-q) * (-ad) == q * ad) by (nonlinear_arith);
    assert(q * (-ad) == -(q * ad)) by (nonlinear_arith);
}

/// Rounding toward zero never increases the magnitude: the quotient times
/// the divisor lies between zero and the dividend.
pub proof fn lemma_trunc_div_magnitude(n: int, d: int)
    requires
        d != 0,
    ensures
        abs(trunc_div(n, d)) <= abs(n),
        abs(trunc_div(n, d)) * abs(d) <= abs(n),
{
    lemma_trunc_div_remainder(n, d);
    let q = trunc_div(n, d);
    assert(abs(q) * abs(d) <= abs(n) && abs(q) <= abs(n)) by (nonlinear_arith)
        requires
            d != 0,
            n >= 0 ==> 0 <= n - q * d < abs(d),
            n <= 0 ==> -abs(d) < n - q * d <= 0,
            abs(q) == if q < 0 { -q } else { q },
            abs(d) == if d < 0 { -d } else { d },
            abs(n) == if n < 0 { -n } else { n },
    ;
}

/// Rounding toward minus infinity keeps the quotient by a positive number
/// within the magnitude of the dividend.
pub proof fn lemma_floor_div_magnitude(n: int, d: int)
    requires
        d > 0,
    ensures
        -abs(n) <= floor_div(n, d) <= abs(n),
{
    lemma_fundamental_div_mod(n, d);
    lemma_mod_bound(n, d);
    let q = n / d;
    let r = n % d;
    assert(-abs(n) <= q <= abs(n)) by (nonlinear_arith)
        requires
            d > 0,
            n == d * q + r,
            0 <= r < d,
            abs(n) == if n < 0 { -n } else { n },
    ;
}

} // verus!
