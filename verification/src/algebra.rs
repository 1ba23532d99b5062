//! Facts of integer arithmetic that the proofs about vectors and rotations
//! rest on. The solver does not find them by itself once several products
//! meet in one formula, so each is stated once, in its smallest form.

use vstd::prelude::*;
use crate::scalar::{magnitude, ONE};

verus! {

/// A square is never negative and only the square of zero is zero.
pub proof fn lemma_square(c: int)
    ensures
        c * c >= 0,
        c * c == magnitude(c) * magnitude(c),
        c * c == 0 <==> c == 0,
{
    assert(c * c >= 0 && c * c == magnitude(c) * magnitude(c) && (c * c == 0 <==> c == 0))
        by (nonlinear_arith);
}

/// A square grows with the magnitude of its root.
pub proof fn lemma_square_bound(c: int, limit: int)
    requires
        -limit <= c <= limit,
    ensures
        c * c <= limit * limit,
{
    assert(c * c <= limit * limit) by (nonlinear_arith)
        requires
            -limit <= c <= limit,
    ;
}

/// Of two non-negative numbers the one with the smaller square is the
/// smaller.
pub proof fn lemma_square_order(x: int, y: int)
    requires
        0 <= x,
        0 <= y,
        x * x <= y * y,
    ensures
        x <= y,
{
    assert(x <= y) by (nonlinear_arith)
        requires
            0 <= x,
            0 <= y,
            x * x <= y * y,
    {
        if x > y {
            assert(x * x >= (y + 1) * (y + 1));
        }
    }
}

/// A number whose square is at most that of a bound lies within the bound.
pub proof fn lemma_within_square(c: int, bound: int)
    requires
        0 <= bound,
        c * c <= bound * bound,
    ensures
        -bound <= c <= bound,
{
    lemma_square(c);
    lemma_square_order(magnitude(c), bound);
}

/// The product of two numbers within a world unit of zero lies within a
/// squared world unit of zero.
pub proof fn lemma_product_bound(a: int, b: int)
    requires
        -ONE <= a <= ONE,
        -ONE <= b <= ONE,
    ensures
        -(ONE * ONE) <= a * b <= ONE * ONE,
{
    assert(-(ONE * ONE) <= a * b <= ONE * ONE) by (nonlinear_arith)
        requires
            -ONE <= a <= ONE,
            -ONE <= b <= ONE,
    ;
}

/// A product does not depend on the order of its factors.
pub proof fn lemma_mul_commutes(a: int, b: int)
    by (nonlinear_arith)
    ensures
        a * b == b * a,
{
}

/// A product of three factors does not depend on their order.
pub proof fn lemma_mul3(a: int, b: int, c: int)
    by (nonlinear_arith)
    ensures
        a * (b * c) == b * (a * c),
        a * (b * c) == c * (a * b),
        a * (b * c) == c * (b * a),
        a * (b * c) == a * (c * b),
        a * (b * c) == b * (c * a),
{
}

/// Multiplication distributes over a difference.
pub proof fn lemma_mul_sub(x: int, a: int, b: int)
    by (nonlinear_arith)
    ensures
        x * (a - b) == x * a - x * b,
{
}

/// Multiplication distributes over a sum of three.
pub proof fn lemma_mul_sum3(x: int, a: int, b: int, c: int)
    by (nonlinear_arith)
    ensures
        x * (a + b + c) == x * a + x * b + x * c,
        (a + b + c) * x == x * a + x * b + x * c,
{
}

/// The square of a product is the product of the squares, and two products
/// may trade a factor.
pub proof fn lemma_mul4(a: int, b: int, x: int, y: int)
    by (nonlinear_arith)
    ensures
        (a * x) * (b * y) == (a * y) * (b * x),
        (a * a) * (x * x) == (a * x) * (a * x),
{
}

/// The square of a difference and of a sum of three.
pub proof fn lemma_squares(p: int, q: int, r: int)
    by (nonlinear_arith)
    ensures
        (p - q) * (p - q) == p * p - 2 * (p * q) + q * q,
        (p + q + r) * (p + q + r) == p * p + q * q + r * r + 2 * (p * q) + 2 * (p * r) + 2 * (q
            * r),
{
}

/// The difference of two products of bounded factors.
pub proof fn lemma_cross_term(a: int, x: int, b: int, y: int, s: int, m: int)
    requires
        -s <= a <= s,
        -s <= b <= s,
        -m <= x <= m,
        -m <= y <= m,
        0 <= s,
        0 <= m,
    ensures
        -(2 * (s * m)) <= a * x - b * y <= 2 * (s * m),
{
    assert(-(s * m) <= a * x <= s * m) by (nonlinear_arith)
        requires
            -s <= a <= s,
            -m <= x <= m,
            0 <= s,
            0 <= m,
    ;
    assert(-(s * m) <= b * y <= s * m) by (nonlinear_arith)
        requires
            -s <= b <= s,
            -m <= y <= m,
            0 <= s,
            0 <= m,
    ;
}

/// A number whose product with a positive `m` lies within `2 * s * m` of
/// zero lies within `2 * s` of zero.
pub proof fn lemma_cancel(c: int, g: int, s: int, m: int)
    requires
        m > 0,
        0 <= s,
        c == m || c == -m,
        -(2 * (s * m)) <= c * g <= 2 * (s * m),
    ensures
        -(2 * s) <= g <= 2 * s,
{
    assert(-(2 * s) <= g <= 2 * s) by (nonlinear_arith)
        requires
            m > 0,
            0 <= s,
            c == m || c == -m,
            -(2 * (s * m)) <= c * g <= 2 * (s * m),
    {
        assert(c * g == m * g || c * g == -(m * g));
        if g > 2 * s {
            assert(m * g >= m * (2 * s + 1));
        }
        if g < -(2 * s) {
            assert(m * g <= m * (-(2 * s) - 1));
        }
    }
}

} // verus!
