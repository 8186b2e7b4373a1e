//! Small facts about integers.
use vstd::prelude::*;

verus! {

/// The quotient of `a` by `b`, rounded up.
pub open spec fn ceil_div(a: int, b: int) -> int {
    if a % b == 0 {
        a / b
    } else {
        a / b + 1
    }
}

/// The quotient of `a` by `b`, rounded up.
pub fn div_up(a: usize, b: usize) -> (q: usize)
    requires
        b > 0,
    ensures
        q == ceil_div(a as int, b as int),
{
    proof {
        lemma_ceil_div(a as int, b as int);
    }
    if a % b == 0 {
        a / b
    } else {
        a / b + 1
    }
}

/// The rounded quotient is the least number of blocks of `b` that cover `a`.
pub proof fn lemma_ceil_div(a: int, b: int)
    requires
        0 <= a,
        0 < b,
    ensures
        0 <= ceil_div(a, b) <= a,
        a <= ceil_div(a, b) * b < a + b,
        a > 0 ==> ceil_div(a, b) > 0,
{
    let q = a / b;
    let r = a % b;
    assert(a == b * q + r && 0 <= r < b) by (nonlinear_arith)
        requires
            b > 0,
            q == a / b,
            r == a % b,
    ;
    assert(0 <= q <= a) by (nonlinear_arith)
        requires
            a == b * q + r,
            0 <= r < b,
            0 <= a,
    ;
    assert(r > 0 ==> q + 1 <= a) by (nonlinear_arith)
        requires
            a == b * q + r,
            0 <= r < b,
            0 <= q,
    ;
    assert((q + 1) * b == q * b + b) by (nonlinear_arith);
    assert(q * b == b * q) by (nonlinear_arith);
}

/// Products grow with their factors.
pub proof fn lemma_mul_le(a: int, b: int, c: int, d: int)
    requires
        0 <= a <= c,
        0 <= b <= d,
    ensures
        0 <= a * b <= c * d,
{
    assert(0 <= a * b <= c * d) by (nonlinear_arith)
        requires
            0 <= a <= c,
            0 <= b <= d,
    ;
}

/// Multiplication is associative.
pub proof fn lemma_mul_assoc(a: int, b: int, c: int)
    ensures
        a * b * c == a * (b * c),
{
    assert(a * b * c == a * (b * c)) by (nonlinear_arith);
}

/// Multiplication is commutative.
pub proof fn lemma_mul_comm(a: int, b: int)
    ensures
        a * b == b * a,
{
    assert(a * b == b * a) by (nonlinear_arith);
}

/// A number of blocks that covers `a` and is not one too many is the rounded
/// quotient.
pub proof fn lemma_ceil_div_unique(a: int, b: int, q: int)
    requires
        0 <= a,
        0 < b,
        (q - 1) * b < a <= q * b,
    ensures
        q == ceil_div(a, b),
{
    lemma_ceil_div(a, b);
    let c = ceil_div(a, b);
    assert(c * b < a + b);
    assert(q == c) by (nonlinear_arith)
        requires
            0 < b,
            (q - 1) * b < a <= q * b,
            a <= c * b < a + b,
    ;
}

/// Dividing twice, rounding up, is dividing once by the product.
pub proof fn lemma_ceil_div_nested(a: int, b: int, c: int)
    requires
        0 <= a,
        0 < b,
        0 < c,
    ensures
        ceil_div(ceil_div(a, b), c) == ceil_div(a, b * c),
{
    let p = ceil_div(a, b);
    lemma_ceil_div(a, b);
    let q = ceil_div(p, c);
    lemma_ceil_div(p, c);
    assert(b * c > 0) by (nonlinear_arith)
        requires
            b > 0,
            c > 0,
    ;
    assert(a <= q * (b * c)) by (nonlinear_arith)
        requires
            a <= p * b,
            p <= q * c,
            0 < b,
    ;
    assert((q - 1) * (b * c) < a) by (nonlinear_arith)
        requires
            p * b < a + b,
            q * c < p + c,
            0 < b,
            0 < c,
    ;
    lemma_ceil_div_unique(a, b * c, q);
}

} // verus!
