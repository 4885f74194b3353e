use vstd::arithmetic::div_mod::{
    lemma_div_basics, lemma_div_is_ordered_by_denominator, lemma_div_pos_is_pos,
    lemma_div_is_ordered, lemma_div_multiples_vanish, lemma_fundamental_div_mod,
    lemma_fundamental_div_mod_converse, lemma_mod_bound,
};
use vstd::arithmetic::mul::lemma_mul_inequality;
use vstd::prelude::*;

verus! {

/// A mapping was asked for from a source interval of zero width.
#[derive(Debug, Clone, Copy, PartialEq, Eq)]
pub struct DegenerateRangeError;

/// The exact affine image of `v` under the map that sends `a` to `c` and `b` to `d`,
/// rounded down to an integer.
///
/// Defined for `a != b`; the divisor is made positive so that `/` is the floor.
pub open spec fn map_spec(v: int, a: int, b: int, c: int, d: int) -> int {
    if a < b {
        c + ((d - c) * (v - a)) / (b - a)
    } else {
        c + ((d - c) * (a - v)) / (a - b)
    }
}

/// `num / den` rounded down, for a positive `den`.
fn floor_div(num: i128, den: i128) -> (q: i128)
    requires
        den > 0,
        num > i128::MIN,
    ensures
        q == num / den,
        num >= 0 ==> 0 <= q <= num,
        num < 0 ==> num <= q < 0,
{
    if num >= 0 {
        proof {
            lemma_div_pos_is_pos(num as int, den as int);
            lemma_div_is_ordered_by_denominator(num as int, 1, den as int);
            lemma_div_basics(num as int);
        }
        ((num as u128) / (den as u128)) as i128
    } else {
        let m: u128 = (-num - 1) as u128;
        let k: u128 = m / (den as u128);
        proof {
            let mi = m as int;
            let di = den as int;
            let ki = k as int;
            let r = mi % di;
            lemma_fundamental_div_mod(mi, di);
            lemma_mod_bound(mi, di);
            assert(num as int == (-ki - 1) * di + (di - r - 1)) by (nonlinear_arith)
                requires
                    mi == di * ki + r,
                    num as int == -mi - 1,
            ;
            lemma_fundamental_div_mod_converse(num as int, di, -ki - 1, di - r - 1);
            lemma_div_is_ordered_by_denominator(mi, 1, di);
            lemma_div_basics(mi);
        }
        -(k as i128) - 1
    }
}

/// Maps `val` from the interval `[a, b]` onto `[c, d]` by affine interpolation,
/// rounding the exact image down to an integer.
///
/// `val` may lie outside `[a, b]`, in which case the map extrapolates. A source
/// interval of zero width (`a == b`) is refused with `DegenerateRangeError`.
pub fn map_val(val: i32, a: i32, b: i32, c: i32, d: i32) -> (r: Result<i128, DegenerateRangeError>)
    ensures
        a == b <==> r is Err,
        r matches Ok(m) ==> m == map_spec(val as int, a as int, b as int, c as int, d as int),
{
    if a == b {
        return Err(DegenerateRangeError);
    }
    let span: i128 = d as i128 - c as i128;
    let (offset, den): (i128, i128) = if a < b {
        (val as i128 - a as i128, b as i128 - a as i128)
    } else {
        (a as i128 - val as i128, a as i128 - b as i128)
    };
    proof {
        lemma_product_bound(span as int, offset as int);
    }
    let num: i128 = span * offset;
    let q = floor_div(num, den);
    Ok(c as i128 + q)
}

proof fn lemma_product_bound(x: int, y: int)
    requires
        -0x1_0000_0000 <= x <= 0x1_0000_0000,
        -0x1_0000_0000 <= y <= 0x1_0000_0000,
    ensures
        -0x1_0000_0000_0000_0000 <= x * y <= 0x1_0000_0000_0000_0000,
{
    assert(-0x1_0000_0000_0000_0000 <= x * y <= 0x1_0000_0000_0000_0000) by (nonlinear_arith)
        requires
            -0x1_0000_0000 <= x <= 0x1_0000_0000,
            -0x1_0000_0000 <= y <= 0x1_0000_0000,
    ;
}

/// `s * t / den` lies between `0` and `s` when `t` lies between `0` and `den`,
/// and meets each end exactly.
proof fn lemma_scaled_between(s: int, t: int, den: int)
    requires
        den > 0,
        0 <= t <= den,
    ensures
        s >= 0 ==> 0 <= (s * t) / den <= s,
        s < 0 ==> s <= (s * t) / den <= 0,
        t == 0 ==> (s * t) / den == 0,
        t == den ==> (s * t) / den == s,
{
    lemma_div_multiples_vanish(s, den);
    lemma_div_multiples_vanish(0, den);
    assert(s * den == den * s) by (nonlinear_arith);
    assert(s * 0 == den * 0) by (nonlinear_arith);
    if s >= 0 {
        lemma_mul_inequality(0, t, s);
        lemma_mul_inequality(t, den, s);
        assert(t * s == s * t && den * s == s * den && 0 * s == 0) by (nonlinear_arith);
        lemma_div_is_ordered(0, s * t, den);
        lemma_div_is_ordered(s * t, s * den, den);
    } else {
        lemma_mul_inequality(0, t, -s);
        lemma_mul_inequality(t, den, -s);
        assert(t * (-s) == -(s * t) && den * (-s) == -(s * den) && 0 * (-s) == 0)
            by (nonlinear_arith);
        lemma_div_is_ordered(s * t, 0, den);
        lemma_div_is_ordered(s * den, s * t, den);
    }
}

/// For every `v` between `a` and `b` (either way round), the mapped value lies
/// between `c` and `d`; `a` itself maps exactly to `c` and `b` exactly to `d`.
pub proof fn lemma_map_within_range(v: int, a: int, b: int, c: int, d: int)
    requires
        a != b,
        a <= v <= b || b <= v <= a,
    ensures
        c <= d ==> c <= map_spec(v, a, b, c, d) <= d,
        d < c ==> d <= map_spec(v, a, b, c, d) <= c,
        map_spec(a, a, b, c, d) == c,
        map_spec(b, a, b, c, d) == d,
{
    if a < b {
        lemma_scaled_between(d - c, v - a, b - a);
        lemma_scaled_between(d - c, 0, b - a);
        lemma_scaled_between(d - c, b - a, b - a);
    } else {
        lemma_scaled_between(d - c, a - v, a - b);
        lemma_scaled_between(d - c, 0, a - b);
        lemma_scaled_between(d - c, a - b, a - b);
    }
}

} // verus!
