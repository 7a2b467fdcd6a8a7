use vstd::arithmetic::div_mod::{
    lemma_div_is_ordered, lemma_fundamental_div_mod, lemma_fundamental_div_mod_converse,
};
use vstd::prelude::*;

verus! {

/// `|a * b|` is bounded by the product of bounds on `|a|` and `|b|`.
pub proof fn lemma_abs_mul_bound(a: int, b: int, x: int, y: int)
    by (nonlinear_arith)
    requires
        -x <= a <= x,
        -y <= b <= y,
        0 <= x,
        0 <= y,
    ensures
        -(x * y) <= a * b <= x * y,
{
}

/// Flooring division of a negated non-negative numerator, written in terms
/// of the quotient and remainder of the numerator itself.
pub proof fn lemma_neg_div(n: int, b: int)
    requires
        1 <= b,
        0 <= n,
    ensures
        (-n) / b == if n % b == 0 {
            -(n / b)
        } else {
            -(n / b) - 1
        },
{
    lemma_fundamental_div_mod(n, b);
    let q = n / b;
    let r = n % b;
    assert((-q) * b == -(b * q)) by (nonlinear_arith);
    assert((-q - 1) * b == -(b * q) - b) by (nonlinear_arith);
    if r == 0 {
        lemma_fundamental_div_mod_converse(-n, b, -q, 0);
    } else {
        lemma_fundamental_div_mod_converse(-n, b, -q - 1, b - r);
    }
}

/// Flooring division keeps `|a / b|` within `x / b + 1` when `|a| <= x`.
pub proof fn lemma_div_bound(a: int, b: int, x: int)
    requires
        1 <= b,
        0 <= x,
        -x <= a <= x,
    ensures
        -(x / b) - 1 <= a / b <= x / b,
{
    lemma_div_is_ordered(a, x, b);
    lemma_div_is_ordered(-x, a, b);
    lemma_neg_div(x, b);
}

/// Flooring division of `a` by a positive `b`, exact over the integers.
pub fn div_floor_i64(a: i64, b: i64) -> (r: i64)
    requires
        1 <= b,
        -0x7fff_ffff_ffff_ffff <= a as int,
    ensures
        r as int == a as int / b as int,
{
    if a >= 0 {
        let q = (a as u64) / (b as u64);
        proof {
            lemma_div_is_ordered(0, a as int, b as int);
            lemma_div_is_ordered(a as int, a as int, b as int);
            lemma_div_bound(a as int, b as int, a as int);
        }
        q as i64
    } else {
        let n = (-a) as u64;
        let d = b as u64;
        let q = n / d;
        let rem = n % d;
        proof {
            lemma_div_is_ordered(0, n as int, d as int);
            lemma_div_bound(n as int, d as int, n as int);
            lemma_neg_div(n as int, b as int);
        }
        if rem == 0 {
            -(q as i64)
        } else {
            -(q as i64) - 1
        }
    }
}

} // verus!
