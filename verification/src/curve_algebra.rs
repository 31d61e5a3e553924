//! Polynomial identities behind the group law of the curve `-x^2 + y^2 = 1 + d x^2 y^2`.
//!
//! All identities are over the integers; the curve equation enters through [`curve_eq`], which
//! vanishes modulo `p` for points of the curve.
use crate::ring;
use vstd::arithmetic::mul::*;
use vstd::prelude::*;

verus! {

/// The curve equation as a difference.
pub open spec fn curve_eq(d: int, x: int, y: int) -> int {
    y * y - x * x - 1 - d * (x * x * (y * y))
}

/// If `d x1 x2 y1 y2` were `e` with `e^2 = 1`, then `d` would be a square.
pub proof fn lemma_completeness_identity(d: int, j: int, e: int, x1: int, y1: int, x2: int, y2: int)
    ensures
        d * (x1 * y1 * (j * x2 + y2) * (x1 * y1 * (j * x2 + y2))) - (j * x1 + e * y1) * (j * x1 + e * y1) == d * (x1 * y1 * (x1 * y1)) * curve_eq(d, x2, y2) - curve_eq(d, x1, y1) + (j * j + 1) * (d * (x1 * y1 * (x1 * y1)) * (x2 * x2) - x1 * x1) + (d * (x1 * x2 * (y1 * y2)) - e) * (d * (x1 * x2 * (y1 * y2)) + e) + 2 * (j * (x1 * y1) * (d * (x1 * x2 * (y1 * y2)) - e)) + (1 - y1 * y1) * (e * e - 1),
{
    ring::lin2(j * x2 + y2, x1 * y1, 1, y2, 1, j * x2);
    ring::assoc(y2, x1, y1);
    lemma_mul_is_commutative(y2, x1);
    ring::swap(x1, y2, y1);
    ring::assoc(j * x2, x1, y1);
    ring::swap(j, x2, x1);
    ring::lin2(x1 * y1 * (j * x2 + y2), x1 * y1 * (j * x2 + y2), 1, x1 * y1 * y2, 1, j * x1 * x2 * y1);
    ring::lin2(x1 * y1 * (j * x2 + y2), x1 * y1 * y2, 1, x1 * y1 * y2, 1, j * x1 * x2 * y1);
    ring::assoc(x1 * y1 * y2, x1 * y1, y2);
    ring::assoc(x1 * y1 * y2, x1, y1);
    ring::swap(x1 * y1, y2, x1);
    ring::swap(x1, y1, x1);
    ring::swap(x1 * x1 * y1, y2, y1);
    ring::assoc(j * x1 * x2 * y1, x1 * y1, y2);
    ring::assoc(j * x1 * x2 * y1, x1, y1);
    ring::swap(j * x1 * x2, y1, x1);
    ring::swap(j * x1, x2, x1);
    ring::lin2(x1 * y1 * (j * x2 + y2), j * x1 * x2 * y1, 1, x1 * y1 * y2, 1, j * x1 * x2 * y1);
    ring::assoc(x1 * y1 * y2, j * x1 * x2, y1);
    ring::assoc(x1 * y1 * y2, j * x1, x2);
    ring::assoc(x1 * y1 * y2, j, x1);
    ring::swap(x1 * y1, y2, j);
    ring::swap(x1, y1, j);
    lemma_mul_is_commutative(x1, j);
    ring::swap(j * x1 * y1, y2, x1);
    ring::swap(j * x1, y1, x1);
    ring::swap(j * x1 * x1 * y1, y2, x2);
    ring::swap(j * x1 * x1, y1, x2);
    ring::swap(j * x1 * x1 * x2 * y1, y2, y1);
    ring::assoc(j * x1 * x2 * y1, j * x1 * x2, y1);
    ring::assoc(j * x1 * x2 * y1, j * x1, x2);
    ring::assoc(j * x1 * x2 * y1, j, x1);
    ring::swap(j * x1 * x2, y1, j);
    ring::swap(j * x1, x2, j);
    ring::swap(j, x1, j);
    ring::swap(j * j * x1 * x2, y1, x1);
    ring::swap(j * j * x1, x2, x1);
    ring::swap(j * j * x1 * x1 * x2, y1, x2);
    ring::lin3(x1 * y1 * (j * x2 + y2) * (x1 * y1 * (j * x2 + y2)), d, 1, x1 * x1 * y1 * y1 * y2 * y2, 2, j * x1 * x1 * x2 * y1 * y1 * y2, 1, j * j * x1 * x1 * x2 * x2 * y1 * y1);
    ring::swap(x1 * x1 * y1 * y1 * y2, y2, d);
    ring::swap(x1 * x1 * y1 * y1, y2, d);
    ring::swap(x1 * x1 * y1, y1, d);
    ring::swap(x1 * x1, y1, d);
    ring::swap(x1, x1, d);
    lemma_mul_is_commutative(x1, d);
    ring::swap(j * x1 * x1 * x2 * y1 * y1, y2, d);
    ring::swap(j * x1 * x1 * x2 * y1, y1, d);
    ring::swap(j * x1 * x1 * x2, y1, d);
    ring::swap(j * x1 * x1, x2, d);
    ring::swap(j * x1, x1, d);
    ring::swap(j, x1, d);
    lemma_mul_is_commutative(j, d);
    ring::swap(j * j * x1 * x1 * x2 * x2 * y1, y1, d);
    ring::swap(j * j * x1 * x1 * x2 * x2, y1, d);
    ring::swap(j * j * x1 * x1 * x2, x2, d);
    ring::swap(j * j * x1 * x1, x2, d);
    ring::swap(j * j * x1, x1, d);
    ring::swap(j * j, x1, d);
    ring::swap(j, j, d);
    ring::lin2(j * x1 + e * y1, j * x1 + e * y1, 1, e * y1, 1, j * x1);
    ring::lin2(j * x1 + e * y1, e * y1, 1, e * y1, 1, j * x1);
    ring::assoc(e * y1, e, y1);
    ring::swap(e, y1, e);
    ring::assoc(j * x1, e, y1);
    ring::swap(j, x1, e);
    lemma_mul_is_commutative(j, e);
    ring::lin2(j * x1 + e * y1, j * x1, 1, e * y1, 1, j * x1);
    ring::assoc(e * y1, j, x1);
    ring::swap(e, y1, j);
    ring::swap(e * j, y1, x1);
    ring::assoc(j * x1, j, x1);
    ring::assoc(x1 * y1, x1, y1);
    ring::assoc(d, x1 * x1 * y1, y1);
    ring::assoc(d, x1 * x1, y1);
    ring::assoc(d, x1, x1);
    ring::assoc(x2 * x2, y2, y2);
    ring::assoc(d, x2 * x2 * y2, y2);
    ring::assoc(d, x2 * x2, y2);
    ring::assoc(d, x2, x2);
    ring::lin1(d * (x1 * y1 * (x1 * y1)), y2 * y2 - x2 * x2 - 1 - d * (x2 * x2 * (y2 * y2)), 1, d * x1 * x1 * y1 * y1);
    ring::lin4(y2 * y2 - x2 * x2 - 1 - d * (x2 * x2 * (y2 * y2)), d * x1 * x1 * y1 * y1, -1, 1, -1, x2 * x2, 1, y2 * y2, -1, d * x2 * x2 * y2 * y2);
    ring::assoc(x2 * x2, d * x1 * x1 * y1, y1);
    ring::assoc(x2 * x2, d * x1 * x1, y1);
    ring::assoc(x2 * x2, d * x1, x1);
    ring::assoc(x2 * x2, d, x1);
    ring::swap(x2, x2, d);
    lemma_mul_is_commutative(x2, d);
    ring::swap(d * x2, x2, x1);
    ring::swap(d, x2, x1);
    ring::swap(d * x1 * x2, x2, x1);
    ring::swap(d * x1, x2, x1);
    ring::assoc(y2 * y2, d * x1 * x1 * y1, y1);
    ring::assoc(y2 * y2, d * x1 * x1, y1);
    ring::assoc(y2 * y2, d * x1, x1);
    ring::assoc(y2 * y2, d, x1);
    ring::swap(y2, y2, d);
    lemma_mul_is_commutative(y2, d);
    ring::swap(d * y2, y2, x1);
    ring::swap(d, y2, x1);
    ring::swap(d * x1 * y2, y2, x1);
    ring::swap(d * x1, y2, x1);
    ring::swap(d * x1 * x1 * y2, y2, y1);
    ring::swap(d * x1 * x1, y2, y1);
    ring::swap(d * x1 * x1 * y1 * y2, y2, y1);
    ring::swap(d * x1 * x1 * y1, y2, y1);
    ring::assoc(d * x2 * x2 * y2 * y2, d * x1 * x1 * y1, y1);
    ring::assoc(d * x2 * x2 * y2 * y2, d * x1 * x1, y1);
    ring::assoc(d * x2 * x2 * y2 * y2, d * x1, x1);
    ring::assoc(d * x2 * x2 * y2 * y2, d, x1);
    ring::swap(d * x2 * x2 * y2, y2, d);
    ring::swap(d * x2 * x2, y2, d);
    ring::swap(d * x2, x2, d);
    ring::swap(d, x2, d);
    ring::swap(d * d * x2 * x2 * y2, y2, x1);
    ring::swap(d * d * x2 * x2, y2, x1);
    ring::swap(d * d * x2, x2, x1);
    ring::swap(d * d, x2, x1);
    ring::swap(d * d * x1 * x2 * x2 * y2, y2, x1);
    ring::swap(d * d * x1 * x2 * x2, y2, x1);
    ring::swap(d * d * x1 * x2, x2, x1);
    ring::swap(d * d * x1, x2, x1);
    ring::swap(d * d * x1 * x1 * x2 * x2 * y2, y2, y1);
    ring::swap(d * d * x1 * x1 * x2 * x2, y2, y1);
    ring::swap(d * d * x1 * x1 * x2 * x2 * y1 * y2, y2, y1);
    ring::swap(d * d * x1 * x1 * x2 * x2 * y1, y2, y1);
    ring::assoc(x1 * x1, y1, y1);
    ring::assoc(d * x1 * x1 * y1 * y1, x2, x2);
    ring::swap(d * x1 * x1 * y1, y1, x2);
    ring::swap(d * x1 * x1, y1, x2);
    ring::swap(d * x1 * x1 * x2 * y1, y1, x2);
    ring::swap(d * x1 * x1 * x2, y1, x2);
    ring::lin2(j * j + 1, d * (x1 * y1 * (x1 * y1)) * (x2 * x2) - x1 * x1, 1, 1, 1, j * j);
    ring::lin2(d * (x1 * y1 * (x1 * y1)) * (x2 * x2) - x1 * x1, 1, -1, x1 * x1, 1, d * x1 * x1 * x2 * x2 * y1 * y1);
    ring::lin2(d * (x1 * y1 * (x1 * y1)) * (x2 * x2) - x1 * x1, j * j, -1, x1 * x1, 1, d * x1 * x1 * x2 * x2 * y1 * y1);
    ring::assoc(x1 * x1, j, j);
    ring::swap(x1, x1, j);
    ring::swap(j * x1, x1, j);
    ring::assoc(d * x1 * x1 * x2 * x2 * y1 * y1, j, j);
    ring::swap(d * x1 * x1 * x2 * x2 * y1, y1, j);
    ring::swap(d * x1 * x1 * x2 * x2, y1, j);
    ring::swap(d * x1 * x1 * x2, x2, j);
    ring::swap(d * x1 * x1, x2, j);
    ring::swap(d * x1, x1, j);
    ring::swap(d, x1, j);
    ring::swap(d * j * x1 * x1 * x2 * x2 * y1, y1, j);
    ring::swap(d * j * x1 * x1 * x2 * x2, y1, j);
    ring::swap(d * j * x1 * x1 * x2, x2, j);
    ring::swap(d * j * x1 * x1, x2, j);
    ring::swap(d * j * x1, x1, j);
    ring::swap(d * j, x1, j);
    ring::assoc(x1 * x2, y1, y2);
    ring::assoc(d, x1 * x2 * y1, y2);
    ring::assoc(d, x1 * x2, y1);
    ring::assoc(d, x1, x2);
    ring::lin2(d * (x1 * x2 * (y1 * y2)) - e, d * (x1 * x2 * (y1 * y2)) + e, -1, e, 1, d * x1 * x2 * y1 * y2);
    ring::lin2(d * (x1 * x2 * (y1 * y2)) + e, e, 1, e, 1, d * x1 * x2 * y1 * y2);
    ring::swap(d * x1 * x2 * y1, y2, e);
    ring::swap(d * x1 * x2, y1, e);
    ring::swap(d * x1, x2, e);
    ring::swap(d, x1, e);
    ring::lin2(d * (x1 * x2 * (y1 * y2)) + e, d * x1 * x2 * y1 * y2, 1, e, 1, d * x1 * x2 * y1 * y2);
    ring::assoc(e, d * x1 * x2 * y1, y2);
    ring::assoc(e, d * x1 * x2, y1);
    ring::assoc(e, d * x1, x2);
    ring::assoc(e, d, x1);
    lemma_mul_is_commutative(e, d);
    ring::assoc(d * x1 * x2 * y1 * y2, d * x1 * x2 * y1, y2);
    ring::assoc(d * x1 * x2 * y1 * y2, d * x1 * x2, y1);
    ring::assoc(d * x1 * x2 * y1 * y2, d * x1, x2);
    ring::assoc(d * x1 * x2 * y1 * y2, d, x1);
    ring::swap(d * x1 * x2 * y1, y2, d);
    ring::swap(d * x1 * x2, y1, d);
    ring::swap(d * x1, x2, d);
    ring::swap(d, x1, d);
    ring::swap(d * d * x1 * x2 * y1, y2, x1);
    ring::swap(d * d * x1 * x2, y1, x1);
    ring::swap(d * d * x1 * x1 * x2 * y1, y2, x2);
    ring::swap(d * d * x1 * x1 * x2, y1, x2);
    ring::assoc(j, x1, y1);
    ring::lin1(j * (x1 * y1), d * (x1 * x2 * (y1 * y2)) - e, 1, j * x1 * y1);
    ring::lin2(d * (x1 * x2 * (y1 * y2)) - e, j * x1 * y1, -1, e, 1, d * x1 * x2 * y1 * y2);
    ring::assoc(e, j * x1, y1);
    ring::assoc(e, j, x1);
    ring::assoc(d * x1 * x2 * y1 * y2, j * x1, y1);
    ring::assoc(d * x1 * x2 * y1 * y2, j, x1);
    ring::swap(d * x1 * x2 * y1, y2, j);
    ring::swap(d * x1 * x2, y1, j);
    ring::swap(d * x1, x2, j);
    ring::swap(d * j * x1 * x2 * y1, y2, x1);
    ring::swap(d * j * x1 * x2, y1, x1);
    ring::swap(d * j * x1, x2, x1);
    ring::swap(d * j * x1 * x1 * x2 * y1, y2, y1);
    ring::lin2(1 - y1 * y1, e * e - 1, 1, 1, -1, y1 * y1);
    ring::lin2(e * e - 1, 1, -1, 1, 1, e * e);
    ring::lin2(e * e - 1, y1 * y1, -1, 1, 1, e * e);
    ring::assoc(e * e, y1, y1);
    assert(d * (x1 * y1 * (j * x2 + y2) * (x1 * y1 * (j * x2 + y2))) - (j * x1 + e * y1) * (j * x1 + e * y1) == d * (x1 * y1 * (x1 * y1)) * (y2 * y2 - x2 * x2 - 1 - d * (x2 * x2 * (y2 * y2))) - (y1 * y1 - x1 * x1 - 1 - d * (x1 * x1 * (y1 * y1))) + (j * j + 1) * (d * (x1 * y1 * (x1 * y1)) * (x2 * x2) - x1 * x1) + (d * (x1 * x2 * (y1 * y2)) - e) * (d * (x1 * x2 * (y1 * y2)) + e) + 2 * (j * (x1 * y1) * (d * (x1 * x2 * (y1 * y2)) - e)) + (1 - y1 * y1) * (e * e - 1));
}

/// Clears the denominators of the curve equation of a sum.
pub proof fn lemma_closure_denominators(d: int, X: int, Y: int, A: int, B: int, u: int, v: int)
    ensures
        u * v * (u * v) * curve_eq(d, X, Y) - (B * B * (u * u) - A * A * (v * v) - u * v * (u * v) - d * (A * A * (B * B))) == (Y * v - B) * ((Y * v + B) * (u * u)) - (X * u - A) * ((X * u + A) * (v * v)) - d * ((Y * v - B) * ((Y * v + B) * (X * u * (X * u))) + (X * u - A) * ((X * u + A) * (B * B))),
{
    ring::assoc(u * v, u, v);
    ring::swap(u, v, u);
    ring::assoc(X * X, Y, Y);
    ring::assoc(d, X * X * Y, Y);
    ring::assoc(d, X * X, Y);
    ring::assoc(d, X, X);
    lemma_mul_is_commutative(d, X);
    ring::swap(X, d, X);
    ring::swap(X * X, d, Y);
    ring::swap(X * X * Y, d, Y);
    ring::lin1(u * v * (u * v), Y * Y - X * X - 1 - d * (X * X * (Y * Y)), 1, u * u * v * v);
    ring::lin4(Y * Y - X * X - 1 - d * (X * X * (Y * Y)), u * u * v * v, -1, 1, -1, X * X, 1, Y * Y, -1, X * X * Y * Y * d);
    ring::assoc(X * X, u * u * v, v);
    ring::assoc(X * X, u * u, v);
    ring::assoc(X * X, u, u);
    ring::assoc(Y * Y, u * u * v, v);
    ring::assoc(Y * Y, u * u, v);
    ring::assoc(Y * Y, u, u);
    ring::assoc(X * X * Y * Y * d, u * u * v, v);
    ring::assoc(X * X * Y * Y * d, u * u, v);
    ring::assoc(X * X * Y * Y * d, u, u);
    ring::assoc(B * B, u, u);
    ring::assoc(A * A, v, v);
    ring::assoc(A * A, B, B);
    ring::assoc(d, A * A * B, B);
    ring::assoc(d, A * A, B);
    ring::assoc(d, A, A);
    lemma_mul_is_commutative(d, A);
    ring::swap(A, d, A);
    ring::swap(A * A, d, B);
    ring::swap(A * A * B, d, B);
    ring::lin2(Y * v + B, u * u, 1, B, 1, Y * v);
    ring::swap(u, u, B);
    lemma_mul_is_commutative(u, B);
    ring::assoc(u * u, Y, v);
    ring::swap(u, u, Y);
    lemma_mul_is_commutative(u, Y);
    ring::lin2(Y * v - B, (Y * v + B) * (u * u), -1, B, 1, Y * v);
    ring::lin2((Y * v + B) * (u * u), B, 1, B * u * u, 1, Y * u * u * v);
    ring::swap(B * u, u, B);
    ring::swap(B, u, B);
    ring::swap(Y * u * u, v, B);
    ring::swap(Y * u, u, B);
    ring::swap(Y, u, B);
    lemma_mul_is_commutative(Y, B);
    ring::lin2((Y * v + B) * (u * u), Y * v, 1, B * u * u, 1, Y * u * u * v);
    ring::assoc(B * u * u, Y, v);
    ring::swap(B * u, u, Y);
    ring::swap(B, u, Y);
    ring::assoc(Y * u * u * v, Y, v);
    ring::swap(Y * u * u, v, Y);
    ring::swap(Y * u, u, Y);
    ring::swap(Y, u, Y);
    ring::lin2(X * u + A, v * v, 1, A, 1, X * u);
    ring::swap(v, v, A);
    lemma_mul_is_commutative(v, A);
    ring::assoc(v * v, X, u);
    ring::swap(v, v, X);
    lemma_mul_is_commutative(v, X);
    ring::swap(X * v, v, u);
    ring::swap(X, v, u);
    ring::lin2(X * u - A, (X * u + A) * (v * v), -1, A, 1, X * u);
    ring::lin2((X * u + A) * (v * v), A, 1, A * v * v, 1, X * u * v * v);
    ring::swap(A * v, v, A);
    ring::swap(A, v, A);
    ring::swap(X * u * v, v, A);
    ring::swap(X * u, v, A);
    ring::swap(X, u, A);
    lemma_mul_is_commutative(X, A);
    ring::lin2((X * u + A) * (v * v), X * u, 1, A * v * v, 1, X * u * v * v);
    ring::assoc(A * v * v, X, u);
    ring::swap(A * v, v, X);
    ring::swap(A, v, X);
    ring::swap(A * X * v, v, u);
    ring::swap(A * X, v, u);
    ring::assoc(X * u * v * v, X, u);
    ring::swap(X * u * v, v, X);
    ring::swap(X * u, v, X);
    ring::swap(X, u, X);
    ring::swap(X * X * u * v, v, u);
    ring::swap(X * X * u, v, u);
    ring::assoc(X * u, X, u);
    ring::lin2(Y * v + B, X * u * (X * u), 1, B, 1, Y * v);
    ring::lin1(X * u * (X * u), B, 1, X * X * u * u);
    ring::swap(X * X * u, u, B);
    ring::swap(X * X, u, B);
    ring::swap(X, X, B);
    lemma_mul_is_commutative(X, B);
    ring::lin1(X * u * (X * u), Y * v, 1, X * X * u * u);
    ring::assoc(X * X * u * u, Y, v);
    ring::swap(X * X * u, u, Y);
    ring::swap(X * X, u, Y);
    ring::lin2(Y * v - B, (Y * v + B) * (X * u * (X * u)), -1, B, 1, Y * v);
    ring::lin2((Y * v + B) * (X * u * (X * u)), B, 1, B * X * X * u * u, 1, X * X * Y * u * u * v);
    ring::swap(B * X * X * u, u, B);
    ring::swap(B * X * X, u, B);
    ring::swap(B * X, X, B);
    ring::swap(B, X, B);
    ring::swap(X * X * Y * u * u, v, B);
    ring::swap(X * X * Y * u, u, B);
    ring::swap(X * X * Y, u, B);
    ring::swap(X * X, Y, B);
    ring::lin2((Y * v + B) * (X * u * (X * u)), Y * v, 1, B * X * X * u * u, 1, X * X * Y * u * u * v);
    ring::assoc(B * X * X * u * u, Y, v);
    ring::swap(B * X * X * u, u, Y);
    ring::swap(B * X * X, u, Y);
    ring::assoc(X * X * Y * u * u * v, Y, v);
    ring::swap(X * X * Y * u * u, v, Y);
    ring::swap(X * X * Y * u, u, Y);
    ring::swap(X * X * Y, u, Y);
    ring::lin2(X * u + A, B * B, 1, A, 1, X * u);
    ring::swap(B, B, A);
    lemma_mul_is_commutative(B, A);
    ring::assoc(B * B, X, u);
    ring::lin2(X * u - A, (X * u + A) * (B * B), -1, A, 1, X * u);
    ring::lin2((X * u + A) * (B * B), A, 1, A * B * B, 1, B * B * X * u);
    ring::swap(A * B, B, A);
    ring::swap(A, B, A);
    ring::swap(B * B * X, u, A);
    ring::swap(B * B, X, A);
    ring::lin2((X * u + A) * (B * B), X * u, 1, A * B * B, 1, B * B * X * u);
    ring::assoc(A * B * B, X, u);
    ring::assoc(B * B * X * u, X, u);
    ring::swap(B * B * X, u, X);
    ring::lin2((Y * v - B) * ((Y * v + B) * (X * u * (X * u))) + (X * u - A) * ((X * u + A) * (B * B)), d, -1, A * A * B * B, 1, X * X * Y * Y * u * u * v * v);
    ring::swap(X * X * Y * Y * u * u * v, v, d);
    ring::swap(X * X * Y * Y * u * u, v, d);
    ring::swap(X * X * Y * Y * u, u, d);
    ring::swap(X * X * Y * Y, u, d);
    assert(u * v * (u * v) * (Y * Y - X * X - 1 - d * (X * X * (Y * Y))) - (B * B * (u * u) - A * A * (v * v) - u * v * (u * v) - d * (A * A * (B * B))) == (Y * v - B) * ((Y * v + B) * (u * u)) - (X * u - A) * ((X * u + A) * (v * v)) - d * ((Y * v - B) * ((Y * v + B) * (X * u * (X * u))) + (X * u - A) * ((X * u + A) * (B * B))));
}

/// Square of the numerator of `x`.
pub proof fn lemma_sum_square_x(x1: int, y1: int, x2: int, y2: int)
    ensures
        (x1 * y2 + y1 * x2) * (x1 * y2 + y1 * x2) == x1 * x1 * (y2 * y2) + y1 * y1 * (x2 * x2) + 2 * (x1 * x2 * (y1 * y2)),
{
    lemma_mul_is_commutative(y1, x2);
    ring::lin2(x1 * y2 + y1 * x2, x1 * y2 + y1 * x2, 1, x1 * y2, 1, x2 * y1);
    ring::lin2(x1 * y2 + y1 * x2, x1 * y2, 1, x1 * y2, 1, x2 * y1);
    ring::assoc(x1 * y2, x1, y2);
    ring::swap(x1, y2, x1);
    ring::assoc(x2 * y1, x1, y2);
    ring::swap(x2, y1, x1);
    lemma_mul_is_commutative(x2, x1);
    ring::lin2(x1 * y2 + y1 * x2, x2 * y1, 1, x1 * y2, 1, x2 * y1);
    ring::assoc(x1 * y2, x2, y1);
    ring::swap(x1, y2, x2);
    ring::swap(x1 * x2, y2, y1);
    ring::assoc(x2 * y1, x2, y1);
    ring::swap(x2, y1, x2);
    ring::assoc(x1 * x1, y2, y2);
    ring::assoc(y1 * y1, x2, x2);
    ring::swap(y1, y1, x2);
    ring::swap(x2 * y1, y1, x2);
    ring::assoc(x1 * x2, y1, y2);
    assert((x1 * y2 + y1 * x2) * (x1 * y2 + y1 * x2) == x1 * x1 * (y2 * y2) + y1 * y1 * (x2 * x2) + 2 * (x1 * x2 * (y1 * y2)));
}

/// Square of the numerator of `y`.
pub proof fn lemma_sum_square_y(x1: int, y1: int, x2: int, y2: int)
    ensures
        (y1 * y2 + x1 * x2) * (y1 * y2 + x1 * x2) == y1 * y1 * (y2 * y2) + x1 * x1 * (x2 * x2) + 2 * (x1 * x2 * (y1 * y2)),
{
    ring::lin2(y1 * y2 + x1 * x2, y1 * y2 + x1 * x2, 1, x1 * x2, 1, y1 * y2);
    ring::lin2(y1 * y2 + x1 * x2, x1 * x2, 1, x1 * x2, 1, y1 * y2);
    ring::assoc(x1 * x2, x1, x2);
    ring::swap(x1, x2, x1);
    ring::assoc(y1 * y2, x1, x2);
    ring::swap(y1, y2, x1);
    lemma_mul_is_commutative(y1, x1);
    ring::swap(x1 * y1, y2, x2);
    ring::swap(x1, y1, x2);
    ring::lin2(y1 * y2 + x1 * x2, y1 * y2, 1, x1 * x2, 1, y1 * y2);
    ring::assoc(x1 * x2, y1, y2);
    ring::assoc(y1 * y2, y1, y2);
    ring::swap(y1, y2, y1);
    ring::assoc(y1 * y1, y2, y2);
    ring::assoc(x1 * x1, x2, x2);
    assert((y1 * y2 + x1 * x2) * (y1 * y2 + x1 * x2) == y1 * y1 * (y2 * y2) + x1 * x1 * (x2 * x2) + 2 * (x1 * x2 * (y1 * y2)));
}

/// Square of the cross term.
pub proof fn lemma_cross_square(x1: int, y1: int, x2: int, y2: int)
    ensures
        x1 * x2 * (y1 * y2) * (x1 * x2 * (y1 * y2)) == x1 * x1 * (y1 * y1) * (x2 * x2 * (y2 * y2)),
{
    ring::assoc(x1 * x2, y1, y2);
    ring::assoc(x1 * x2 * y1 * y2, x1 * x2 * y1, y2);
    ring::assoc(x1 * x2 * y1 * y2, x1 * x2, y1);
    ring::assoc(x1 * x2 * y1 * y2, x1, x2);
    ring::swap(x1 * x2 * y1, y2, x1);
    ring::swap(x1 * x2, y1, x1);
    ring::swap(x1, x2, x1);
    ring::swap(x1 * x1 * x2 * y1, y2, x2);
    ring::swap(x1 * x1 * x2, y1, x2);
    ring::swap(x1 * x1 * x2 * x2 * y1, y2, y1);
    ring::assoc(x1 * x1, y1, y1);
    ring::assoc(x2 * x2, y2, y2);
    ring::assoc(x1 * x1 * y1 * y1, x2 * x2 * y2, y2);
    ring::assoc(x1 * x1 * y1 * y1, x2 * x2, y2);
    ring::assoc(x1 * x1 * y1 * y1, x2, x2);
    ring::swap(x1 * x1 * y1, y1, x2);
    ring::swap(x1 * x1, y1, x2);
    ring::swap(x1 * x1 * x2 * y1, y1, x2);
    assert(x1 * x2 * (y1 * y2) * (x1 * x2 * (y1 * y2)) == x1 * x1 * (y1 * y1) * (x2 * x2 * (y2 * y2)));
}

/// Square of the cross term with its constant.
pub proof fn lemma_cross_product(d: int, x1: int, y1: int, x2: int, y2: int)
    ensures
        d * (x1 * x2 * (y1 * y2)) * (d * (x1 * x2 * (y1 * y2))) == d * (x1 * x1 * (y1 * y1)) * (d * (x2 * x2 * (y2 * y2))),
{
    ring::assoc(x1 * x2, y1, y2);
    ring::assoc(d, x1 * x2 * y1, y2);
    ring::assoc(d, x1 * x2, y1);
    ring::assoc(d, x1, x2);
    ring::assoc(d * x1 * x2 * y1 * y2, d * x1 * x2 * y1, y2);
    ring::assoc(d * x1 * x2 * y1 * y2, d * x1 * x2, y1);
    ring::assoc(d * x1 * x2 * y1 * y2, d * x1, x2);
    ring::assoc(d * x1 * x2 * y1 * y2, d, x1);
    ring::swap(d * x1 * x2 * y1, y2, d);
    ring::swap(d * x1 * x2, y1, d);
    ring::swap(d * x1, x2, d);
    ring::swap(d, x1, d);
    ring::swap(d * d * x1 * x2 * y1, y2, x1);
    ring::swap(d * d * x1 * x2, y1, x1);
    ring::swap(d * d * x1, x2, x1);
    ring::swap(d * d * x1 * x1 * x2 * y1, y2, x2);
    ring::swap(d * d * x1 * x1 * x2, y1, x2);
    ring::swap(d * d * x1 * x1 * x2 * x2 * y1, y2, y1);
    ring::assoc(x1 * x1, y1, y1);
    ring::assoc(d, x1 * x1 * y1, y1);
    ring::assoc(d, x1 * x1, y1);
    ring::assoc(d, x1, x1);
    ring::assoc(x2 * x2, y2, y2);
    ring::assoc(d, x2 * x2 * y2, y2);
    ring::assoc(d, x2 * x2, y2);
    ring::assoc(d, x2, x2);
    ring::assoc(d * x1 * x1 * y1 * y1, d * x2 * x2 * y2, y2);
    ring::assoc(d * x1 * x1 * y1 * y1, d * x2 * x2, y2);
    ring::assoc(d * x1 * x1 * y1 * y1, d * x2, x2);
    ring::assoc(d * x1 * x1 * y1 * y1, d, x2);
    ring::swap(d * x1 * x1 * y1, y1, d);
    ring::swap(d * x1 * x1, y1, d);
    ring::swap(d * x1, x1, d);
    ring::swap(d * d * x1 * x1 * y1, y1, x2);
    ring::swap(d * d * x1 * x1, y1, x2);
    ring::swap(d * d * x1 * x1 * x2 * y1, y1, x2);
    assert(d * (x1 * x2 * (y1 * y2)) * (d * (x1 * x2 * (y1 * y2))) == d * (x1 * x1 * (y1 * y1)) * (d * (x2 * x2 * (y2 * y2))));
}

/// The cleared equation in terms of squares.
pub proof fn lemma_closure_squares(d: int, q1: int, r1: int, q2: int, r2: int, m: int)
    ensures
        (r1 * r2 + q1 * q2 + 2 * m) * ((1 + d * m) * (1 + d * m)) - (q1 * r2 + r1 * q2 + 2 * m) * ((1 - d * m) * (1 - d * m)) - (1 + d * m) * (1 - d * m) * ((1 + d * m) * (1 - d * m)) - d * ((q1 * r2 + r1 * q2 + 2 * m) * (r1 * r2 + q1 * q2 + 2 * m)) == (r1 - q1) * (r2 - q2) * (1 + d * m * (d * m)) - (1 - d * m * (d * m)) * (1 - d * m * (d * m)) - d * (q1 * r1) * ((r2 - q2) * (r2 - q2)) - d * (q2 * r2) * ((r1 - q1) * (r1 - q1)) + 4 * d * (m * m - q1 * r1 * (q2 * r2)),
{
    ring::lin2(1 + d * m, 1 + d * m, 1, 1, 1, d * m);
    ring::lin2(1 + d * m, 1, 1, 1, 1, d * m);
    ring::lin2(1 + d * m, d * m, 1, 1, 1, d * m);
    ring::assoc(d * m, d, m);
    ring::swap(d, m, d);
    ring::lin3(r1 * r2 + q1 * q2 + 2 * m, (1 + d * m) * (1 + d * m), 2, m, 1, q1 * q2, 1, r1 * r2);
    ring::lin3((1 + d * m) * (1 + d * m), m, 1, 1, 2, d * m, 1, d * d * m * m);
    ring::lin3((1 + d * m) * (1 + d * m), q1 * q2, 1, 1, 2, d * m, 1, d * d * m * m);
    ring::assoc(d * m, q1, q2);
    ring::assoc(d * d * m * m, q1, q2);
    ring::lin3((1 + d * m) * (1 + d * m), r1 * r2, 1, 1, 2, d * m, 1, d * d * m * m);
    ring::assoc(d * m, r1, r2);
    ring::assoc(d * d * m * m, r1, r2);
    lemma_mul_is_commutative(r1, q2);
    ring::lin2(1 - d * m, 1 - d * m, 1, 1, -1, d * m);
    ring::lin2(1 - d * m, 1, 1, 1, -1, d * m);
    ring::lin2(1 - d * m, d * m, 1, 1, -1, d * m);
    ring::lin3(q1 * r2 + r1 * q2 + 2 * m, (1 - d * m) * (1 - d * m), 2, m, 1, q1 * r2, 1, q2 * r1);
    ring::lin3((1 - d * m) * (1 - d * m), m, 1, 1, -2, d * m, 1, d * d * m * m);
    ring::lin3((1 - d * m) * (1 - d * m), q1 * r2, 1, 1, -2, d * m, 1, d * d * m * m);
    ring::assoc(d * m, q1, r2);
    ring::assoc(d * d * m * m, q1, r2);
    ring::lin3((1 - d * m) * (1 - d * m), q2 * r1, 1, 1, -2, d * m, 1, d * d * m * m);
    ring::assoc(d * m, q2, r1);
    ring::assoc(d * d * m * m, q2, r1);
    ring::lin2(1 + d * m, 1 - d * m, 1, 1, 1, d * m);
    ring::lin2((1 + d * m) * (1 - d * m), (1 + d * m) * (1 - d * m), 1, 1, -1, d * d * m * m);
    ring::lin2((1 + d * m) * (1 - d * m), 1, 1, 1, -1, d * d * m * m);
    ring::lin2((1 + d * m) * (1 - d * m), d * d * m * m, 1, 1, -1, d * d * m * m);
    ring::assoc(d * d * m * m, d * d * m, m);
    ring::assoc(d * d * m * m, d * d, m);
    ring::assoc(d * d * m * m, d, d);
    ring::swap(d * d * m, m, d);
    ring::swap(d * d, m, d);
    ring::swap(d * d * d * m, m, d);
    ring::swap(d * d * d, m, d);
    ring::lin3(q1 * r2 + r1 * q2 + 2 * m, r1 * r2 + q1 * q2 + 2 * m, 2, m, 1, q1 * r2, 1, q2 * r1);
    ring::lin3(r1 * r2 + q1 * q2 + 2 * m, m, 2, m, 1, q1 * q2, 1, r1 * r2);
    ring::swap(q1, q2, m);
    lemma_mul_is_commutative(q1, m);
    ring::swap(r1, r2, m);
    lemma_mul_is_commutative(r1, m);
    ring::lin3(r1 * r2 + q1 * q2 + 2 * m, q1 * r2, 2, m, 1, q1 * q2, 1, r1 * r2);
    ring::assoc(m, q1, r2);
    ring::assoc(q1 * q2, q1, r2);
    ring::swap(q1, q2, q1);
    ring::assoc(r1 * r2, q1, r2);
    ring::swap(r1, r2, q1);
    lemma_mul_is_commutative(r1, q1);
    ring::lin3(r1 * r2 + q1 * q2 + 2 * m, q2 * r1, 2, m, 1, q1 * q2, 1, r1 * r2);
    ring::assoc(m, q2, r1);
    ring::assoc(q1 * q2, q2, r1);
    ring::assoc(r1 * r2, q2, r1);
    ring::swap(r1, r2, q2);
    ring::swap(q2 * r1, r2, r1);
    ring::lin9((q1 * r2 + r1 * q2 + 2 * m) * (r1 * r2 + q1 * q2 + 2 * m), d, 4, m * m, 2, m * q1 * q2, 2, m * q1 * r2, 2, m * q2 * r1, 2, m * r1 * r2, 1, q1 * q1 * q2 * r2, 1, q1 * q2 * q2 * r1, 1, q1 * r1 * r2 * r2, 1, q2 * r1 * r1 * r2);
    ring::swap(m, m, d);
    lemma_mul_is_commutative(m, d);
    ring::swap(m * q1, q2, d);
    ring::swap(m, q1, d);
    ring::swap(m * q1, r2, d);
    ring::swap(m * q2, r1, d);
    ring::swap(m, q2, d);
    ring::swap(m * r1, r2, d);
    ring::swap(m, r1, d);
    ring::swap(q1 * q1 * q2, r2, d);
    ring::swap(q1 * q1, q2, d);
    ring::swap(q1, q1, d);
    lemma_mul_is_commutative(q1, d);
    ring::swap(q1 * q2 * q2, r1, d);
    ring::swap(q1 * q2, q2, d);
    ring::swap(q1, q2, d);
    ring::swap(q1 * r1 * r2, r2, d);
    ring::swap(q1 * r1, r2, d);
    ring::swap(q1, r1, d);
    ring::swap(q2 * r1 * r1, r2, d);
    ring::swap(q2 * r1, r1, d);
    ring::swap(q2, r1, d);
    lemma_mul_is_commutative(q2, d);
    ring::lin2(r1 - q1, r2 - q2, -1, q1, 1, r1);
    ring::lin2(r2 - q2, q1, -1, q2, 1, r2);
    lemma_mul_is_commutative(q2, q1);
    lemma_mul_is_commutative(r2, q1);
    ring::lin2(r2 - q2, r1, -1, q2, 1, r2);
    lemma_mul_is_commutative(r2, r1);
    ring::lin4((r1 - q1) * (r2 - q2), 1 + d * m * (d * m), 1, q1 * q2, -1, q1 * r2, -1, q2 * r1, 1, r1 * r2);
    ring::lin2(1 + d * m * (d * m), q1 * q2, 1, 1, 1, d * d * m * m);
    ring::lin2(1 + d * m * (d * m), q1 * r2, 1, 1, 1, d * d * m * m);
    ring::lin2(1 + d * m * (d * m), q2 * r1, 1, 1, 1, d * d * m * m);
    ring::lin2(1 + d * m * (d * m), r1 * r2, 1, 1, 1, d * d * m * m);
    ring::lin2(1 - d * m * (d * m), 1 - d * m * (d * m), 1, 1, -1, d * d * m * m);
    ring::lin2(1 - d * m * (d * m), 1, 1, 1, -1, d * d * m * m);
    ring::lin2(1 - d * m * (d * m), d * d * m * m, 1, 1, -1, d * d * m * m);
    ring::assoc(d, q1, r1);
    ring::lin2(r2 - q2, r2 - q2, -1, q2, 1, r2);
    ring::lin2(r2 - q2, q2, -1, q2, 1, r2);
    lemma_mul_is_commutative(r2, q2);
    ring::lin2(r2 - q2, r2, -1, q2, 1, r2);
    ring::lin1(d * (q1 * r1), (r2 - q2) * (r2 - q2), 1, d * q1 * r1);
    ring::lin3((r2 - q2) * (r2 - q2), d * q1 * r1, 1, q2 * q2, -2, q2 * r2, 1, r2 * r2);
    ring::assoc(q2 * q2, d * q1, r1);
    ring::assoc(q2 * q2, d, q1);
    ring::swap(q2, q2, d);
    ring::swap(d * q2, q2, q1);
    ring::swap(d, q2, q1);
    ring::assoc(q2 * r2, d * q1, r1);
    ring::assoc(q2 * r2, d, q1);
    ring::swap(q2, r2, d);
    ring::swap(d * q2, r2, q1);
    ring::swap(d * q1 * q2, r2, r1);
    ring::assoc(r2 * r2, d * q1, r1);
    ring::assoc(r2 * r2, d, q1);
    ring::swap(r2, r2, d);
    lemma_mul_is_commutative(r2, d);
    ring::swap(d * r2, r2, q1);
    ring::swap(d, r2, q1);
    ring::swap(d * q1 * r2, r2, r1);
    ring::swap(d * q1, r2, r1);
    ring::assoc(d, q2, r2);
    ring::lin2(r1 - q1, r1 - q1, -1, q1, 1, r1);
    ring::lin2(r1 - q1, q1, -1, q1, 1, r1);
    ring::lin2(r1 - q1, r1, -1, q1, 1, r1);
    ring::lin1(d * (q2 * r2), (r1 - q1) * (r1 - q1), 1, d * q2 * r2);
    ring::lin3((r1 - q1) * (r1 - q1), d * q2 * r2, 1, q1 * q1, -2, q1 * r1, 1, r1 * r1);
    ring::assoc(q1 * q1, d * q2, r2);
    ring::assoc(q1 * q1, d, q2);
    ring::assoc(q1 * r1, d * q2, r2);
    ring::assoc(q1 * r1, d, q2);
    ring::swap(d * q1, r1, q2);
    ring::assoc(r1 * r1, d * q2, r2);
    ring::assoc(r1 * r1, d, q2);
    ring::swap(r1, r1, d);
    lemma_mul_is_commutative(r1, d);
    ring::swap(d * r1, r1, q2);
    ring::swap(d, r1, q2);
    ring::assoc(q1 * r1, q2, r2);
    ring::swap(q1, r1, q2);
    ring::lin1(4 * d, m * m - q1 * r1 * (q2 * r2), 4, d);
    ring::lin2(m * m - q1 * r1 * (q2 * r2), d, 1, m * m, -1, q1 * q2 * r1 * r2);
    ring::swap(q1 * q2 * r1, r2, d);
    ring::swap(q1 * q2, r1, d);
    assert((r1 * r2 + q1 * q2 + 2 * m) * ((1 + d * m) * (1 + d * m)) - (q1 * r2 + r1 * q2 + 2 * m) * ((1 - d * m) * (1 - d * m)) - (1 + d * m) * (1 - d * m) * ((1 + d * m) * (1 - d * m)) - d * ((q1 * r2 + r1 * q2 + 2 * m) * (r1 * r2 + q1 * q2 + 2 * m)) == (r1 - q1) * (r2 - q2) * (1 + d * m * (d * m)) - (1 - d * m * (d * m)) * (1 - d * m * (d * m)) - d * (q1 * r1) * ((r2 - q2) * (r2 - q2)) - d * (q2 * r2) * ((r1 - q1) * (r1 - q1)) + 4 * d * (m * m - q1 * r1 * (q2 * r2)));
}

/// With `e_k` the curve equations, the cleared equation of a sum is a combination of `e1` and `e2`.
pub proof fn lemma_closure_residual(r1: int, r2: int, e1: int, e2: int)
    ensures
        (1 + r1 + e1) * (1 + r2 + e2) * (1 + r1 * r2) - (1 - r1 * r2) * (1 - r1 * r2) - r1 * ((1 + r2 + e2) * (1 + r2 + e2)) - r2 * ((1 + r1 + e1) * (1 + r1 + e1)) == e1 * ((1 + r2 + e2) * (1 + r1 * r2) - r2 * (2 * (1 + r1) + e1)) + e2 * ((1 + r1) * (1 + r1 * r2) - r1 * (2 * (1 + r2) + e2)),
{
    ring::lin3(1 + r1 + e1, 1 + r2 + e2, 1, 1, 1, e1, 1, r1);
    ring::lin3(1 + r2 + e2, 1, 1, 1, 1, e2, 1, r2);
    ring::lin3(1 + r2 + e2, e1, 1, 1, 1, e2, 1, r2);
    lemma_mul_is_commutative(e2, e1);
    lemma_mul_is_commutative(r2, e1);
    ring::lin3(1 + r2 + e2, r1, 1, 1, 1, e2, 1, r2);
    lemma_mul_is_commutative(r2, r1);
    ring::lin9((1 + r1 + e1) * (1 + r2 + e2), 1 + r1 * r2, 1, 1, 1, e1, 1, e2, 1, r1, 1, r2, 1, e1 * e2, 1, e1 * r2, 1, e2 * r1, 1, r1 * r2);
    ring::lin2(1 + r1 * r2, 1, 1, 1, 1, r1 * r2);
    ring::lin2(1 + r1 * r2, e1, 1, 1, 1, r1 * r2);
    ring::swap(r1, r2, e1);
    lemma_mul_is_commutative(r1, e1);
    ring::lin2(1 + r1 * r2, e2, 1, 1, 1, r1 * r2);
    ring::swap(r1, r2, e2);
    lemma_mul_is_commutative(r1, e2);
    ring::lin2(1 + r1 * r2, r1, 1, 1, 1, r1 * r2);
    ring::swap(r1, r2, r1);
    ring::lin2(1 + r1 * r2, r2, 1, 1, 1, r1 * r2);
    ring::lin2(1 + r1 * r2, e1 * e2, 1, 1, 1, r1 * r2);
    ring::assoc(r1 * r2, e1, e2);
    ring::swap(e1 * r1, r2, e2);
    ring::swap(e1, r1, e2);
    ring::lin2(1 + r1 * r2, e1 * r2, 1, 1, 1, r1 * r2);
    ring::assoc(r1 * r2, e1, r2);
    ring::lin2(1 + r1 * r2, e2 * r1, 1, 1, 1, r1 * r2);
    ring::assoc(r1 * r2, e2, r1);
    ring::swap(e2 * r1, r2, r1);
    ring::lin2(1 + r1 * r2, r1 * r2, 1, 1, 1, r1 * r2);
    ring::assoc(r1 * r2, r1, r2);
    ring::lin2(1 - r1 * r2, 1 - r1 * r2, 1, 1, -1, r1 * r2);
    ring::lin2(1 - r1 * r2, 1, 1, 1, -1, r1 * r2);
    ring::lin2(1 - r1 * r2, r1 * r2, 1, 1, -1, r1 * r2);
    ring::lin3(1 + r2 + e2, 1 + r2 + e2, 1, 1, 1, e2, 1, r2);
    ring::lin3(1 + r2 + e2, e2, 1, 1, 1, e2, 1, r2);
    lemma_mul_is_commutative(r2, e2);
    ring::lin3(1 + r2 + e2, r2, 1, 1, 1, e2, 1, r2);
    ring::lin6((1 + r2 + e2) * (1 + r2 + e2), r1, 1, 1, 2, e2, 2, r2, 1, e2 * e2, 2, e2 * r2, 1, r2 * r2);
    ring::swap(e2, r2, r1);
    ring::swap(r2, r2, r1);
    ring::lin3(1 + r1 + e1, 1 + r1 + e1, 1, 1, 1, e1, 1, r1);
    ring::lin3(1 + r1 + e1, 1, 1, 1, 1, e1, 1, r1);
    ring::lin3(1 + r1 + e1, e1, 1, 1, 1, e1, 1, r1);
    ring::lin3(1 + r1 + e1, r1, 1, 1, 1, e1, 1, r1);
    ring::lin6((1 + r1 + e1) * (1 + r1 + e1), r2, 1, 1, 2, e1, 2, r1, 1, e1 * e1, 2, e1 * r1, 1, r1 * r1);
    ring::lin3(1 + r2 + e2, 1 + r1 * r2, 1, 1, 1, e2, 1, r2);
    ring::lin3(2 * (1 + r1) + e1, r2, 2, 1, 1, e1, 2, r1);
    ring::lin7((1 + r2 + e2) * (1 + r1 * r2) - r2 * (2 * (1 + r1) + e1), e1, 1, 1, 1, e2, -1, r2, -1, e1 * r2, -1, r1 * r2, 1, e2 * r1 * r2, 1, r1 * r2 * r2);
    ring::swap(e1, r2, e1);
    ring::swap(e2 * r1, r2, e1);
    ring::swap(e2, r1, e1);
    ring::swap(r1 * r2, r2, e1);
    ring::lin2(1 + r1, 1 + r1 * r2, 1, 1, 1, r1);
    ring::lin3(2 * (1 + r2) + e2, r1, 2, 1, 1, e2, 2, r2);
    ring::lin5((1 + r1) * (1 + r1 * r2) - r1 * (2 * (1 + r2) + e2), e2, 1, 1, -1, r1, -1, e2 * r1, -1, r1 * r2, 1, r1 * r1 * r2);
    ring::swap(e2, r1, e2);
    ring::swap(r1 * r1, r2, e2);
    ring::swap(r1, r1, e2);
    assert((1 + r1 + e1) * (1 + r2 + e2) * (1 + r1 * r2) - (1 - r1 * r2) * (1 - r1 * r2) - r1 * ((1 + r2 + e2) * (1 + r2 + e2)) - r2 * ((1 + r1 + e1) * (1 + r1 + e1)) == e1 * ((1 + r2 + e2) * (1 + r1 * r2) - r2 * (2 * (1 + r1) + e1)) + e2 * ((1 + r1) * (1 + r1 * r2) - r1 * (2 * (1 + r2) + e2)));
}

/// First coefficient relation of associativity.
pub proof fn lemma_assoc_first(d: int, x1: int, y1: int, x2: int, y2: int)
    ensures
        (1 - d * (x1 * x2 * (y1 * y2))) * (d * (x2 * x2 * (y2 * y2)) - d * (x1 * x2 * (y1 * y2))) + d * (x2 * y2) * ((y1 * y2 + x1 * x2) * (x1 * y2 - y1 * x2)) == d * (x1 * x2 * (y1 * y2)) * curve_eq(d, x2, y2) - d * (x2 * x2 * (y2 * y2)) * curve_eq(d, x1, y1),
{
    ring::assoc(x1 * x2, y1, y2);
    ring::assoc(d, x1 * x2 * y1, y2);
    ring::assoc(d, x1 * x2, y1);
    ring::assoc(d, x1, x2);
    ring::assoc(x2 * x2, y2, y2);
    ring::assoc(d, x2 * x2 * y2, y2);
    ring::assoc(d, x2 * x2, y2);
    ring::assoc(d, x2, x2);
    ring::lin2(1 - d * (x1 * x2 * (y1 * y2)), d * (x2 * x2 * (y2 * y2)) - d * (x1 * x2 * (y1 * y2)), 1, 1, -1, d * x1 * x2 * y1 * y2);
    ring::lin2(d * (x2 * x2 * (y2 * y2)) - d * (x1 * x2 * (y1 * y2)), 1, -1, d * x1 * x2 * y1 * y2, 1, d * x2 * x2 * y2 * y2);
    ring::lin2(d * (x2 * x2 * (y2 * y2)) - d * (x1 * x2 * (y1 * y2)), d * x1 * x2 * y1 * y2, -1, d * x1 * x2 * y1 * y2, 1, d * x2 * x2 * y2 * y2);
    ring::assoc(d * x1 * x2 * y1 * y2, d * x1 * x2 * y1, y2);
    ring::assoc(d * x1 * x2 * y1 * y2, d * x1 * x2, y1);
    ring::assoc(d * x1 * x2 * y1 * y2, d * x1, x2);
    ring::assoc(d * x1 * x2 * y1 * y2, d, x1);
    ring::swap(d * x1 * x2 * y1, y2, d);
    ring::swap(d * x1 * x2, y1, d);
    ring::swap(d * x1, x2, d);
    ring::swap(d, x1, d);
    ring::swap(d * d * x1 * x2 * y1, y2, x1);
    ring::swap(d * d * x1 * x2, y1, x1);
    ring::swap(d * d * x1, x2, x1);
    ring::swap(d * d * x1 * x1 * x2 * y1, y2, x2);
    ring::swap(d * d * x1 * x1 * x2, y1, x2);
    ring::swap(d * d * x1 * x1 * x2 * x2 * y1, y2, y1);
    ring::assoc(d * x2 * x2 * y2 * y2, d * x1 * x2 * y1, y2);
    ring::assoc(d * x2 * x2 * y2 * y2, d * x1 * x2, y1);
    ring::assoc(d * x2 * x2 * y2 * y2, d * x1, x2);
    ring::assoc(d * x2 * x2 * y2 * y2, d, x1);
    ring::swap(d * x2 * x2 * y2, y2, d);
    ring::swap(d * x2 * x2, y2, d);
    ring::swap(d * x2, x2, d);
    ring::swap(d, x2, d);
    ring::swap(d * d * x2 * x2 * y2, y2, x1);
    ring::swap(d * d * x2 * x2, y2, x1);
    ring::swap(d * d * x2, x2, x1);
    ring::swap(d * d, x2, x1);
    ring::swap(d * d * x1 * x2 * x2 * y2, y2, x2);
    ring::swap(d * d * x1 * x2 * x2, y2, x2);
    ring::swap(d * d * x1 * x2 * x2 * x2 * y2, y2, y1);
    ring::swap(d * d * x1 * x2 * x2 * x2, y2, y1);
    ring::assoc(d, x2, y2);
    lemma_mul_is_commutative(y1, x2);
    ring::lin2(y1 * y2 + x1 * x2, x1 * y2 - y1 * x2, 1, x1 * x2, 1, y1 * y2);
    ring::lin2(x1 * y2 - y1 * x2, x1 * x2, 1, x1 * y2, -1, x2 * y1);
    ring::assoc(x1 * y2, x1, x2);
    ring::swap(x1, y2, x1);
    ring::swap(x1 * x1, y2, x2);
    ring::assoc(x2 * y1, x1, x2);
    ring::swap(x2, y1, x1);
    lemma_mul_is_commutative(x2, x1);
    ring::swap(x1 * x2, y1, x2);
    ring::lin2(x1 * y2 - y1 * x2, y1 * y2, 1, x1 * y2, -1, x2 * y1);
    ring::assoc(x1 * y2, y1, y2);
    ring::swap(x1, y2, y1);
    ring::assoc(x2 * y1, y1, y2);
    ring::lin1(d * (x2 * y2), (y1 * y2 + x1 * x2) * (x1 * y2 - y1 * x2), 1, d * x2 * y2);
    ring::lin4((y1 * y2 + x1 * x2) * (x1 * y2 - y1 * x2), d * x2 * y2, 1, x1 * x1 * x2 * y2, -1, x1 * x2 * x2 * y1, 1, x1 * y1 * y2 * y2, -1, x2 * y1 * y1 * y2);
    ring::assoc(x1 * x1 * x2 * y2, d * x2, y2);
    ring::assoc(x1 * x1 * x2 * y2, d, x2);
    ring::swap(x1 * x1 * x2, y2, d);
    ring::swap(x1 * x1, x2, d);
    ring::swap(x1, x1, d);
    lemma_mul_is_commutative(x1, d);
    ring::swap(d * x1 * x1 * x2, y2, x2);
    ring::assoc(x1 * x2 * x2 * y1, d * x2, y2);
    ring::assoc(x1 * x2 * x2 * y1, d, x2);
    ring::swap(x1 * x2 * x2, y1, d);
    ring::swap(x1 * x2, x2, d);
    ring::swap(x1, x2, d);
    ring::swap(d * x1 * x2 * x2, y1, x2);
    ring::assoc(x1 * y1 * y2 * y2, d * x2, y2);
    ring::assoc(x1 * y1 * y2 * y2, d, x2);
    ring::swap(x1 * y1 * y2, y2, d);
    ring::swap(x1 * y1, y2, d);
    ring::swap(x1, y1, d);
    ring::swap(d * x1 * y1 * y2, y2, x2);
    ring::swap(d * x1 * y1, y2, x2);
    ring::swap(d * x1, y1, x2);
    ring::assoc(x2 * y1 * y1 * y2, d * x2, y2);
    ring::assoc(x2 * y1 * y1 * y2, d, x2);
    ring::swap(x2 * y1 * y1, y2, d);
    ring::swap(x2 * y1, y1, d);
    ring::swap(x2, y1, d);
    lemma_mul_is_commutative(x2, d);
    ring::swap(d * x2 * y1 * y1, y2, x2);
    ring::swap(d * x2 * y1, y1, x2);
    ring::swap(d * x2, y1, x2);
    ring::lin1(d * (x1 * x2 * (y1 * y2)), y2 * y2 - x2 * x2 - 1 - d * (x2 * x2 * (y2 * y2)), 1, d * x1 * x2 * y1 * y2);
    ring::lin4(y2 * y2 - x2 * x2 - 1 - d * (x2 * x2 * (y2 * y2)), d * x1 * x2 * y1 * y2, -1, 1, -1, x2 * x2, 1, y2 * y2, -1, d * x2 * x2 * y2 * y2);
    ring::assoc(x2 * x2, d * x1 * x2 * y1, y2);
    ring::assoc(x2 * x2, d * x1 * x2, y1);
    ring::assoc(x2 * x2, d * x1, x2);
    ring::assoc(x2 * x2, d, x1);
    ring::swap(x2, x2, d);
    ring::swap(d * x2, x2, x1);
    ring::swap(d, x2, x1);
    ring::assoc(y2 * y2, d * x1 * x2 * y1, y2);
    ring::assoc(y2 * y2, d * x1 * x2, y1);
    ring::assoc(y2 * y2, d * x1, x2);
    ring::assoc(y2 * y2, d, x1);
    ring::swap(y2, y2, d);
    lemma_mul_is_commutative(y2, d);
    ring::swap(d * y2, y2, x1);
    ring::swap(d, y2, x1);
    ring::swap(d * x1 * y2, y2, x2);
    ring::swap(d * x1, y2, x2);
    ring::swap(d * x1 * x2 * y2, y2, y1);
    ring::swap(d * x1 * x2, y2, y1);
    ring::assoc(x1 * x1, y1, y1);
    ring::assoc(d, x1 * x1 * y1, y1);
    ring::assoc(d, x1 * x1, y1);
    ring::assoc(d, x1, x1);
    ring::lin1(d * (x2 * x2 * (y2 * y2)), y1 * y1 - x1 * x1 - 1 - d * (x1 * x1 * (y1 * y1)), 1, d * x2 * x2 * y2 * y2);
    ring::lin4(y1 * y1 - x1 * x1 - 1 - d * (x1 * x1 * (y1 * y1)), d * x2 * x2 * y2 * y2, -1, 1, -1, x1 * x1, 1, y1 * y1, -1, d * x1 * x1 * y1 * y1);
    ring::assoc(x1 * x1, d * x2 * x2 * y2, y2);
    ring::assoc(x1 * x1, d * x2 * x2, y2);
    ring::assoc(x1 * x1, d * x2, x2);
    ring::assoc(x1 * x1, d, x2);
    ring::assoc(y1 * y1, d * x2 * x2 * y2, y2);
    ring::assoc(y1 * y1, d * x2 * x2, y2);
    ring::assoc(y1 * y1, d * x2, x2);
    ring::assoc(y1 * y1, d, x2);
    ring::swap(y1, y1, d);
    lemma_mul_is_commutative(y1, d);
    ring::swap(d * y1, y1, x2);
    ring::swap(d, y1, x2);
    ring::assoc(d * x1 * x1 * y1 * y1, d * x2 * x2 * y2, y2);
    ring::assoc(d * x1 * x1 * y1 * y1, d * x2 * x2, y2);
    ring::assoc(d * x1 * x1 * y1 * y1, d * x2, x2);
    ring::assoc(d * x1 * x1 * y1 * y1, d, x2);
    ring::swap(d * x1 * x1 * y1, y1, d);
    ring::swap(d * x1 * x1, y1, d);
    ring::swap(d * x1, x1, d);
    ring::swap(d * d * x1 * x1 * y1, y1, x2);
    ring::swap(d * d * x1 * x1, y1, x2);
    ring::swap(d * d * x1 * x1 * x2 * y1, y1, x2);
    assert((1 - d * (x1 * x2 * (y1 * y2))) * (d * (x2 * x2 * (y2 * y2)) - d * (x1 * x2 * (y1 * y2))) + d * (x2 * y2) * ((y1 * y2 + x1 * x2) * (x1 * y2 - y1 * x2)) == d * (x1 * x2 * (y1 * y2)) * (y2 * y2 - x2 * x2 - 1 - d * (x2 * x2 * (y2 * y2))) - d * (x2 * x2 * (y2 * y2)) * (y1 * y1 - x1 * x1 - 1 - d * (x1 * x1 * (y1 * y1))));
}

/// Second coefficient relation of associativity.
pub proof fn lemma_assoc_second(d: int, x1: int, y1: int, x2: int, y2: int)
    ensures
        (1 + d * (x1 * x2 * (y1 * y2))) * (d * (x2 * x2 * (y2 * y2)) + d * (x1 * x2 * (y1 * y2))) + d * (x2 * y2) * ((x1 * y2 + y1 * x2) * (x1 * x2 - y1 * y2)) == 0 - d * (x2 * x2 * (y2 * y2)) * curve_eq(d, x1, y1) - d * (x1 * x2 * (y1 * y2)) * curve_eq(d, x2, y2),
{
    ring::assoc(x1 * x2, y1, y2);
    ring::assoc(d, x1 * x2 * y1, y2);
    ring::assoc(d, x1 * x2, y1);
    ring::assoc(d, x1, x2);
    ring::assoc(x2 * x2, y2, y2);
    ring::assoc(d, x2 * x2 * y2, y2);
    ring::assoc(d, x2 * x2, y2);
    ring::assoc(d, x2, x2);
    ring::lin2(1 + d * (x1 * x2 * (y1 * y2)), d * (x2 * x2 * (y2 * y2)) + d * (x1 * x2 * (y1 * y2)), 1, 1, 1, d * x1 * x2 * y1 * y2);
    ring::lin2(d * (x2 * x2 * (y2 * y2)) + d * (x1 * x2 * (y1 * y2)), 1, 1, d * x1 * x2 * y1 * y2, 1, d * x2 * x2 * y2 * y2);
    ring::lin2(d * (x2 * x2 * (y2 * y2)) + d * (x1 * x2 * (y1 * y2)), d * x1 * x2 * y1 * y2, 1, d * x1 * x2 * y1 * y2, 1, d * x2 * x2 * y2 * y2);
    ring::assoc(d * x1 * x2 * y1 * y2, d * x1 * x2 * y1, y2);
    ring::assoc(d * x1 * x2 * y1 * y2, d * x1 * x2, y1);
    ring::assoc(d * x1 * x2 * y1 * y2, d * x1, x2);
    ring::assoc(d * x1 * x2 * y1 * y2, d, x1);
    ring::swap(d * x1 * x2 * y1, y2, d);
    ring::swap(d * x1 * x2, y1, d);
    ring::swap(d * x1, x2, d);
    ring::swap(d, x1, d);
    ring::swap(d * d * x1 * x2 * y1, y2, x1);
    ring::swap(d * d * x1 * x2, y1, x1);
    ring::swap(d * d * x1, x2, x1);
    ring::swap(d * d * x1 * x1 * x2 * y1, y2, x2);
    ring::swap(d * d * x1 * x1 * x2, y1, x2);
    ring::swap(d * d * x1 * x1 * x2 * x2 * y1, y2, y1);
    ring::assoc(d * x2 * x2 * y2 * y2, d * x1 * x2 * y1, y2);
    ring::assoc(d * x2 * x2 * y2 * y2, d * x1 * x2, y1);
    ring::assoc(d * x2 * x2 * y2 * y2, d * x1, x2);
    ring::assoc(d * x2 * x2 * y2 * y2, d, x1);
    ring::swap(d * x2 * x2 * y2, y2, d);
    ring::swap(d * x2 * x2, y2, d);
    ring::swap(d * x2, x2, d);
    ring::swap(d, x2, d);
    ring::swap(d * d * x2 * x2 * y2, y2, x1);
    ring::swap(d * d * x2 * x2, y2, x1);
    ring::swap(d * d * x2, x2, x1);
    ring::swap(d * d, x2, x1);
    ring::swap(d * d * x1 * x2 * x2 * y2, y2, x2);
    ring::swap(d * d * x1 * x2 * x2, y2, x2);
    ring::swap(d * d * x1 * x2 * x2 * x2 * y2, y2, y1);
    ring::swap(d * d * x1 * x2 * x2 * x2, y2, y1);
    ring::assoc(d, x2, y2);
    lemma_mul_is_commutative(y1, x2);
    ring::lin2(x1 * y2 + y1 * x2, x1 * x2 - y1 * y2, 1, x1 * y2, 1, x2 * y1);
    ring::lin2(x1 * x2 - y1 * y2, x1 * y2, 1, x1 * x2, -1, y1 * y2);
    ring::assoc(x1 * x2, x1, y2);
    ring::swap(x1, x2, x1);
    ring::assoc(y1 * y2, x1, y2);
    ring::swap(y1, y2, x1);
    lemma_mul_is_commutative(y1, x1);
    ring::lin2(x1 * x2 - y1 * y2, x2 * y1, 1, x1 * x2, -1, y1 * y2);
    ring::assoc(x1 * x2, x2, y1);
    ring::assoc(y1 * y2, x2, y1);
    ring::swap(y1, y2, x2);
    ring::swap(x2 * y1, y2, y1);
    ring::lin1(d * (x2 * y2), (x1 * y2 + y1 * x2) * (x1 * x2 - y1 * y2), 1, d * x2 * y2);
    ring::lin4((x1 * y2 + y1 * x2) * (x1 * x2 - y1 * y2), d * x2 * y2, 1, x1 * x1 * x2 * y2, 1, x1 * x2 * x2 * y1, -1, x1 * y1 * y2 * y2, -1, x2 * y1 * y1 * y2);
    ring::assoc(x1 * x1 * x2 * y2, d * x2, y2);
    ring::assoc(x1 * x1 * x2 * y2, d, x2);
    ring::swap(x1 * x1 * x2, y2, d);
    ring::swap(x1 * x1, x2, d);
    ring::swap(x1, x1, d);
    lemma_mul_is_commutative(x1, d);
    ring::swap(d * x1 * x1 * x2, y2, x2);
    ring::assoc(x1 * x2 * x2 * y1, d * x2, y2);
    ring::assoc(x1 * x2 * x2 * y1, d, x2);
    ring::swap(x1 * x2 * x2, y1, d);
    ring::swap(x1 * x2, x2, d);
    ring::swap(x1, x2, d);
    ring::swap(d * x1 * x2 * x2, y1, x2);
    ring::assoc(x1 * y1 * y2 * y2, d * x2, y2);
    ring::assoc(x1 * y1 * y2 * y2, d, x2);
    ring::swap(x1 * y1 * y2, y2, d);
    ring::swap(x1 * y1, y2, d);
    ring::swap(x1, y1, d);
    ring::swap(d * x1 * y1 * y2, y2, x2);
    ring::swap(d * x1 * y1, y2, x2);
    ring::swap(d * x1, y1, x2);
    ring::assoc(x2 * y1 * y1 * y2, d * x2, y2);
    ring::assoc(x2 * y1 * y1 * y2, d, x2);
    ring::swap(x2 * y1 * y1, y2, d);
    ring::swap(x2 * y1, y1, d);
    ring::swap(x2, y1, d);
    lemma_mul_is_commutative(x2, d);
    ring::swap(d * x2 * y1 * y1, y2, x2);
    ring::swap(d * x2 * y1, y1, x2);
    ring::swap(d * x2, y1, x2);
    ring::assoc(x1 * x1, y1, y1);
    ring::assoc(d, x1 * x1 * y1, y1);
    ring::assoc(d, x1 * x1, y1);
    ring::assoc(d, x1, x1);
    ring::lin1(d * (x2 * x2 * (y2 * y2)), y1 * y1 - x1 * x1 - 1 - d * (x1 * x1 * (y1 * y1)), 1, d * x2 * x2 * y2 * y2);
    ring::lin4(y1 * y1 - x1 * x1 - 1 - d * (x1 * x1 * (y1 * y1)), d * x2 * x2 * y2 * y2, -1, 1, -1, x1 * x1, 1, y1 * y1, -1, d * x1 * x1 * y1 * y1);
    ring::assoc(x1 * x1, d * x2 * x2 * y2, y2);
    ring::assoc(x1 * x1, d * x2 * x2, y2);
    ring::assoc(x1 * x1, d * x2, x2);
    ring::assoc(x1 * x1, d, x2);
    ring::assoc(y1 * y1, d * x2 * x2 * y2, y2);
    ring::assoc(y1 * y1, d * x2 * x2, y2);
    ring::assoc(y1 * y1, d * x2, x2);
    ring::assoc(y1 * y1, d, x2);
    ring::swap(y1, y1, d);
    lemma_mul_is_commutative(y1, d);
    ring::swap(d * y1, y1, x2);
    ring::swap(d, y1, x2);
    ring::assoc(d * x1 * x1 * y1 * y1, d * x2 * x2 * y2, y2);
    ring::assoc(d * x1 * x1 * y1 * y1, d * x2 * x2, y2);
    ring::assoc(d * x1 * x1 * y1 * y1, d * x2, x2);
    ring::assoc(d * x1 * x1 * y1 * y1, d, x2);
    ring::swap(d * x1 * x1 * y1, y1, d);
    ring::swap(d * x1 * x1, y1, d);
    ring::swap(d * x1, x1, d);
    ring::swap(d * d * x1 * x1 * y1, y1, x2);
    ring::swap(d * d * x1 * x1, y1, x2);
    ring::swap(d * d * x1 * x1 * x2 * y1, y1, x2);
    ring::lin1(d * (x1 * x2 * (y1 * y2)), y2 * y2 - x2 * x2 - 1 - d * (x2 * x2 * (y2 * y2)), 1, d * x1 * x2 * y1 * y2);
    ring::lin4(y2 * y2 - x2 * x2 - 1 - d * (x2 * x2 * (y2 * y2)), d * x1 * x2 * y1 * y2, -1, 1, -1, x2 * x2, 1, y2 * y2, -1, d * x2 * x2 * y2 * y2);
    ring::assoc(x2 * x2, d * x1 * x2 * y1, y2);
    ring::assoc(x2 * x2, d * x1 * x2, y1);
    ring::assoc(x2 * x2, d * x1, x2);
    ring::assoc(x2 * x2, d, x1);
    ring::swap(x2, x2, d);
    ring::swap(d * x2, x2, x1);
    ring::swap(d, x2, x1);
    ring::assoc(y2 * y2, d * x1 * x2 * y1, y2);
    ring::assoc(y2 * y2, d * x1 * x2, y1);
    ring::assoc(y2 * y2, d * x1, x2);
    ring::assoc(y2 * y2, d, x1);
    ring::swap(y2, y2, d);
    lemma_mul_is_commutative(y2, d);
    ring::swap(d * y2, y2, x1);
    ring::swap(d, y2, x1);
    ring::swap(d * x1 * y2, y2, x2);
    ring::swap(d * x1, y2, x2);
    ring::swap(d * x1 * x2 * y2, y2, y1);
    ring::swap(d * x1 * x2, y2, y1);
    assert((1 + d * (x1 * x2 * (y1 * y2))) * (d * (x2 * x2 * (y2 * y2)) + d * (x1 * x2 * (y1 * y2))) + d * (x2 * y2) * ((x1 * y2 + y1 * x2) * (x1 * x2 - y1 * y2)) == 0 - d * (x2 * x2 * (y2 * y2)) * (y1 * y1 - x1 * x1 - 1 - d * (x1 * x1 * (y1 * y1))) - d * (x1 * x2 * (y1 * y2)) * (y2 * y2 - x2 * x2 - 1 - d * (x2 * x2 * (y2 * y2))));
}

/// Third coefficient relation of associativity.
pub proof fn lemma_assoc_third(d: int, x1: int, y1: int, x2: int, y2: int)
    ensures
        (x1 * y2 + y1 * x2) * (1 - d * (x1 * x2 * (y1 * y2))) * (d * (x1 * y1 * (x2 * x2 + y2 * y2))) + 2 * ((y1 * y2 + x1 * x2) * (d * (x1 * x2 * (y1 * y2))) * (1 + d * (x1 * x2 * (y1 * y2)))) - (1 - d * (x1 * x2 * (y1 * y2)) * (d * (x1 * x2 * (y1 * y2)))) * (d * (x2 * y2) * (x1 * y2 - y1 * x2)) - d * ((x1 * y2 + y1 * x2) * (y1 * y2 + x1 * x2)) * (x1 * y2 + y1 * x2) == d * (x2 * y2) * (x1 * y2 - y1 * x2) * (curve_eq(d, x1, y1) - d * (x1 * x1 * (y1 * y1)) * curve_eq(d, x2, y2)),
{
    lemma_mul_is_commutative(y1, x2);
    ring::assoc(x1 * x2, y1, y2);
    ring::assoc(d, x1 * x2 * y1, y2);
    ring::assoc(d, x1 * x2, y1);
    ring::assoc(d, x1, x2);
    ring::lin2(x1 * y2 + y1 * x2, 1 - d * (x1 * x2 * (y1 * y2)), 1, x1 * y2, 1, x2 * y1);
    ring::lin2(1 - d * (x1 * x2 * (y1 * y2)), x1 * y2, 1, 1, -1, d * x1 * x2 * y1 * y2);
    ring::assoc(d * x1 * x2 * y1 * y2, x1, y2);
    ring::swap(d * x1 * x2 * y1, y2, x1);
    ring::swap(d * x1 * x2, y1, x1);
    ring::swap(d * x1, x2, x1);
    ring::lin2(1 - d * (x1 * x2 * (y1 * y2)), x2 * y1, 1, 1, -1, d * x1 * x2 * y1 * y2);
    ring::assoc(d * x1 * x2 * y1 * y2, x2, y1);
    ring::swap(d * x1 * x2 * y1, y2, x2);
    ring::swap(d * x1 * x2, y1, x2);
    ring::swap(d * x1 * x2 * x2 * y1, y2, y1);
    ring::lin2(x2 * x2 + y2 * y2, x1 * y1, 1, x2 * x2, 1, y2 * y2);
    ring::assoc(x2 * x2, x1, y1);
    ring::swap(x2, x2, x1);
    lemma_mul_is_commutative(x2, x1);
    ring::assoc(y2 * y2, x1, y1);
    ring::swap(y2, y2, x1);
    lemma_mul_is_commutative(y2, x1);
    ring::swap(x1 * y2, y2, y1);
    ring::swap(x1, y2, y1);
    ring::lin2(x1 * y1 * (x2 * x2 + y2 * y2), d, 1, x1 * x2 * x2 * y1, 1, x1 * y1 * y2 * y2);
    ring::swap(x1 * x2 * x2, y1, d);
    ring::swap(x1 * x2, x2, d);
    ring::swap(x1, x2, d);
    lemma_mul_is_commutative(x1, d);
    ring::swap(x1 * y1 * y2, y2, d);
    ring::swap(x1 * y1, y2, d);
    ring::swap(x1, y1, d);
    ring::lin4((x1 * y2 + y1 * x2) * (1 - d * (x1 * x2 * (y1 * y2))), d * (x1 * y1 * (x2 * x2 + y2 * y2)), 1, x1 * y2, 1, x2 * y1, -1, d * x1 * x1 * x2 * y1 * y2 * y2, -1, d * x1 * x2 * x2 * y1 * y1 * y2);
    ring::lin2(d * (x1 * y1 * (x2 * x2 + y2 * y2)), x1 * y2, 1, d * x1 * x2 * x2 * y1, 1, d * x1 * y1 * y2 * y2);
    ring::assoc(d * x1 * x2 * x2 * y1, x1, y2);
    ring::swap(d * x1 * x2 * x2, y1, x1);
    ring::swap(d * x1 * x2, x2, x1);
    ring::assoc(d * x1 * y1 * y2 * y2, x1, y2);
    ring::swap(d * x1 * y1 * y2, y2, x1);
    ring::swap(d * x1 * y1, y2, x1);
    ring::swap(d * x1, y1, x1);
    ring::lin2(d * (x1 * y1 * (x2 * x2 + y2 * y2)), x2 * y1, 1, d * x1 * x2 * x2 * y1, 1, d * x1 * y1 * y2 * y2);
    ring::assoc(d * x1 * x2 * x2 * y1, x2, y1);
    ring::swap(d * x1 * x2 * x2, y1, x2);
    ring::assoc(d * x1 * y1 * y2 * y2, x2, y1);
    ring::swap(d * x1 * y1 * y2, y2, x2);
    ring::swap(d * x1 * y1, y2, x2);
    ring::swap(d * x1, y1, x2);
    ring::swap(d * x1 * x2 * y1 * y2, y2, y1);
    ring::swap(d * x1 * x2 * y1, y2, y1);
    ring::lin2(d * (x1 * y1 * (x2 * x2 + y2 * y2)), d * x1 * x1 * x2 * y1 * y2 * y2, 1, d * x1 * x2 * x2 * y1, 1, d * x1 * y1 * y2 * y2);
    ring::assoc(d * x1 * x2 * x2 * y1, d * x1 * x1 * x2 * y1 * y2, y2);
    ring::assoc(d * x1 * x2 * x2 * y1, d * x1 * x1 * x2 * y1, y2);
    ring::assoc(d * x1 * x2 * x2 * y1, d * x1 * x1 * x2, y1);
    ring::assoc(d * x1 * x2 * x2 * y1, d * x1 * x1, x2);
    ring::assoc(d * x1 * x2 * x2 * y1, d * x1, x1);
    ring::assoc(d * x1 * x2 * x2 * y1, d, x1);
    ring::swap(d * x1 * x2 * x2, y1, d);
    ring::swap(d * x1 * x2, x2, d);
    ring::swap(d * x1, x2, d);
    ring::swap(d, x1, d);
    ring::swap(d * d * x1 * x2 * x2, y1, x1);
    ring::swap(d * d * x1 * x2, x2, x1);
    ring::swap(d * d * x1, x2, x1);
    ring::swap(d * d * x1 * x1 * x2 * x2, y1, x1);
    ring::swap(d * d * x1 * x1 * x2, x2, x1);
    ring::swap(d * d * x1 * x1, x2, x1);
    ring::swap(d * d * x1 * x1 * x1 * x2 * x2, y1, x2);
    ring::assoc(d * x1 * y1 * y2 * y2, d * x1 * x1 * x2 * y1 * y2, y2);
    ring::assoc(d * x1 * y1 * y2 * y2, d * x1 * x1 * x2 * y1, y2);
    ring::assoc(d * x1 * y1 * y2 * y2, d * x1 * x1 * x2, y1);
    ring::assoc(d * x1 * y1 * y2 * y2, d * x1 * x1, x2);
    ring::assoc(d * x1 * y1 * y2 * y2, d * x1, x1);
    ring::assoc(d * x1 * y1 * y2 * y2, d, x1);
    ring::swap(d * x1 * y1 * y2, y2, d);
    ring::swap(d * x1 * y1, y2, d);
    ring::swap(d * x1, y1, d);
    ring::swap(d * d * x1 * y1 * y2, y2, x1);
    ring::swap(d * d * x1 * y1, y2, x1);
    ring::swap(d * d * x1, y1, x1);
    ring::swap(d * d * x1 * x1 * y1 * y2, y2, x1);
    ring::swap(d * d * x1 * x1 * y1, y2, x1);
    ring::swap(d * d * x1 * x1, y1, x1);
    ring::swap(d * d * x1 * x1 * x1 * y1 * y2, y2, x2);
    ring::swap(d * d * x1 * x1 * x1 * y1, y2, x2);
    ring::swap(d * d * x1 * x1 * x1, y1, x2);
    ring::swap(d * d * x1 * x1 * x1 * x2 * y1 * y2, y2, y1);
    ring::swap(d * d * x1 * x1 * x1 * x2 * y1, y2, y1);
    ring::lin2(d * (x1 * y1 * (x2 * x2 + y2 * y2)), d * x1 * x2 * x2 * y1 * y1 * y2, 1, d * x1 * x2 * x2 * y1, 1, d * x1 * y1 * y2 * y2);
    ring::assoc(d * x1 * x2 * x2 * y1, d * x1 * x2 * x2 * y1 * y1, y2);
    ring::assoc(d * x1 * x2 * x2 * y1, d * x1 * x2 * x2 * y1, y1);
    ring::assoc(d * x1 * x2 * x2 * y1, d * x1 * x2 * x2, y1);
    ring::assoc(d * x1 * x2 * x2 * y1, d * x1 * x2, x2);
    ring::assoc(d * x1 * x2 * x2 * y1, d * x1, x2);
    ring::swap(d * d * x1 * x1 * x2 * x2, y1, x2);
    ring::swap(d * d * x1 * x1 * x2 * x2 * x2, y1, x2);
    ring::assoc(d * x1 * y1 * y2 * y2, d * x1 * x2 * x2 * y1 * y1, y2);
    ring::assoc(d * x1 * y1 * y2 * y2, d * x1 * x2 * x2 * y1, y1);
    ring::assoc(d * x1 * y1 * y2 * y2, d * x1 * x2 * x2, y1);
    ring::assoc(d * x1 * y1 * y2 * y2, d * x1 * x2, x2);
    ring::assoc(d * x1 * y1 * y2 * y2, d * x1, x2);
    ring::swap(d * d * x1 * x1 * y1 * y2, y2, x2);
    ring::swap(d * d * x1 * x1 * y1, y2, x2);
    ring::swap(d * d * x1 * x1, y1, x2);
    ring::swap(d * d * x1 * x1 * x2 * y1 * y2, y2, x2);
    ring::swap(d * d * x1 * x1 * x2 * y1, y2, x2);
    ring::swap(d * d * x1 * x1 * x2, y1, x2);
    ring::swap(d * d * x1 * x1 * x2 * x2 * y1 * y2, y2, y1);
    ring::swap(d * d * x1 * x1 * x2 * x2 * y1, y2, y1);
    ring::swap(d * d * x1 * x1 * x2 * x2 * y1 * y1 * y2, y2, y1);
    ring::swap(d * d * x1 * x1 * x2 * x2 * y1 * y1, y2, y1);
    ring::lin2(y1 * y2 + x1 * x2, d * (x1 * x2 * (y1 * y2)), 1, x1 * x2, 1, y1 * y2);
    ring::lin1(d * (x1 * x2 * (y1 * y2)), x1 * x2, 1, d * x1 * x2 * y1 * y2);
    ring::assoc(d * x1 * x2 * y1 * y2, x1, x2);
    ring::swap(d * x1 * x1 * x2 * y1, y2, x2);
    ring::swap(d * x1 * x1 * x2, y1, x2);
    ring::lin1(d * (x1 * x2 * (y1 * y2)), y1 * y2, 1, d * x1 * x2 * y1 * y2);
    ring::assoc(d * x1 * x2 * y1 * y2, y1, y2);
    ring::lin2((y1 * y2 + x1 * x2) * (d * (x1 * x2 * (y1 * y2))), 1 + d * (x1 * x2 * (y1 * y2)), 1, d * x1 * x1 * x2 * x2 * y1 * y2, 1, d * x1 * x2 * y1 * y1 * y2 * y2);
    ring::lin2(1 + d * (x1 * x2 * (y1 * y2)), d * x1 * x1 * x2 * x2 * y1 * y2, 1, 1, 1, d * x1 * x2 * y1 * y2);
    ring::assoc(d * x1 * x2 * y1 * y2, d * x1 * x1 * x2 * x2 * y1, y2);
    ring::assoc(d * x1 * x2 * y1 * y2, d * x1 * x1 * x2 * x2, y1);
    ring::assoc(d * x1 * x2 * y1 * y2, d * x1 * x1 * x2, x2);
    ring::assoc(d * x1 * x2 * y1 * y2, d * x1 * x1, x2);
    ring::assoc(d * x1 * x2 * y1 * y2, d * x1, x1);
    ring::assoc(d * x1 * x2 * y1 * y2, d, x1);
    ring::swap(d * x1 * x2 * y1, y2, d);
    ring::swap(d * x1 * x2, y1, d);
    ring::swap(d * d * x1 * x2 * y1, y2, x1);
    ring::swap(d * d * x1 * x2, y1, x1);
    ring::swap(d * d * x1 * x1 * x2 * y1, y2, x1);
    ring::swap(d * d * x1 * x1 * x2, y1, x1);
    ring::swap(d * d * x1 * x1 * x1 * x2 * y1, y2, x2);
    ring::swap(d * d * x1 * x1 * x1 * x2, y1, x2);
    ring::swap(d * d * x1 * x1 * x1 * x2 * x2 * y1, y2, x2);
    ring::swap(d * d * x1 * x1 * x1 * x2 * x2 * x2 * y1, y2, y1);
    ring::lin2(1 + d * (x1 * x2 * (y1 * y2)), d * x1 * x2 * y1 * y1 * y2 * y2, 1, 1, 1, d * x1 * x2 * y1 * y2);
    ring::assoc(d * x1 * x2 * y1 * y2, d * x1 * x2 * y1 * y1 * y2, y2);
    ring::assoc(d * x1 * x2 * y1 * y2, d * x1 * x2 * y1 * y1, y2);
    ring::assoc(d * x1 * x2 * y1 * y2, d * x1 * x2 * y1, y1);
    ring::assoc(d * x1 * x2 * y1 * y2, d * x1 * x2, y1);
    ring::assoc(d * x1 * x2 * y1 * y2, d * x1, x2);
    ring::assoc(d * x1 * x2 * y1 * y2, d * x1 * x2 * y1, y2);
    ring::assoc(d, x2, y2);
    ring::lin1(d * (x2 * y2), x1 * y2 - y1 * x2, 1, d * x2 * y2);
    ring::lin2(x1 * y2 - y1 * x2, d * x2 * y2, 1, x1 * y2, -1, x2 * y1);
    ring::assoc(x1 * y2, d * x2, y2);
    ring::assoc(x1 * y2, d, x2);
    ring::swap(x1, y2, d);
    ring::swap(d * x1, y2, x2);
    ring::assoc(x2 * y1, d * x2, y2);
    ring::assoc(x2 * y1, d, x2);
    ring::swap(x2, y1, d);
    lemma_mul_is_commutative(x2, d);
    ring::swap(d * x2, y1, x2);
    ring::lin2(1 - d * (x1 * x2 * (y1 * y2)) * (d * (x1 * x2 * (y1 * y2))), d * (x2 * y2) * (x1 * y2 - y1 * x2), 1, 1, -1, d * d * x1 * x1 * x2 * x2 * y1 * y1 * y2 * y2);
    ring::lin2(d * (x2 * y2) * (x1 * y2 - y1 * x2), 1, 1, d * x1 * x2 * y2 * y2, -1, d * x2 * x2 * y1 * y2);
    ring::lin2(d * (x2 * y2) * (x1 * y2 - y1 * x2), d * d * x1 * x1 * x2 * x2 * y1 * y1 * y2 * y2, 1, d * x1 * x2 * y2 * y2, -1, d * x2 * x2 * y1 * y2);
    ring::assoc(d * x1 * x2 * y2 * y2, d * d * x1 * x1 * x2 * x2 * y1 * y1 * y2, y2);
    ring::assoc(d * x1 * x2 * y2 * y2, d * d * x1 * x1 * x2 * x2 * y1 * y1, y2);
    ring::assoc(d * x1 * x2 * y2 * y2, d * d * x1 * x1 * x2 * x2 * y1, y1);
    ring::assoc(d * x1 * x2 * y2 * y2, d * d * x1 * x1 * x2 * x2, y1);
    ring::assoc(d * x1 * x2 * y2 * y2, d * d * x1 * x1 * x2, x2);
    ring::assoc(d * x1 * x2 * y2 * y2, d * d * x1 * x1, x2);
    ring::assoc(d * x1 * x2 * y2 * y2, d * d * x1, x1);
    ring::assoc(d * x1 * x2 * y2 * y2, d * d, x1);
    ring::assoc(d * x1 * x2 * y2 * y2, d, d);
    ring::swap(d * x1 * x2 * y2, y2, d);
    ring::swap(d * x1 * x2, y2, d);
    ring::swap(d * d * x1 * x2 * y2, y2, d);
    ring::swap(d * d * x1 * x2, y2, d);
    ring::swap(d * d * x1, x2, d);
    ring::swap(d * d, x1, d);
    ring::swap(d * d * d * x1 * x2 * y2, y2, x1);
    ring::swap(d * d * d * x1 * x2, y2, x1);
    ring::swap(d * d * d * x1, x2, x1);
    ring::swap(d * d * d * x1 * x1 * x2 * y2, y2, x1);
    ring::swap(d * d * d * x1 * x1 * x2, y2, x1);
    ring::swap(d * d * d * x1 * x1, x2, x1);
    ring::swap(d * d * d * x1 * x1 * x1 * x2 * y2, y2, x2);
    ring::swap(d * d * d * x1 * x1 * x1 * x2, y2, x2);
    ring::swap(d * d * d * x1 * x1 * x1 * x2 * x2 * y2, y2, x2);
    ring::swap(d * d * d * x1 * x1 * x1 * x2 * x2, y2, x2);
    ring::swap(d * d * d * x1 * x1 * x1 * x2 * x2 * x2 * y2, y2, y1);
    ring::swap(d * d * d * x1 * x1 * x1 * x2 * x2 * x2, y2, y1);
    ring::swap(d * d * d * x1 * x1 * x1 * x2 * x2 * x2 * y1 * y2, y2, y1);
    ring::swap(d * d * d * x1 * x1 * x1 * x2 * x2 * x2 * y1, y2, y1);
    ring::assoc(d * x2 * x2 * y1 * y2, d * d * x1 * x1 * x2 * x2 * y1 * y1 * y2, y2);
    ring::assoc(d * x2 * x2 * y1 * y2, d * d * x1 * x1 * x2 * x2 * y1 * y1, y2);
    ring::assoc(d * x2 * x2 * y1 * y2, d * d * x1 * x1 * x2 * x2 * y1, y1);
    ring::assoc(d * x2 * x2 * y1 * y2, d * d * x1 * x1 * x2 * x2, y1);
    ring::assoc(d * x2 * x2 * y1 * y2, d * d * x1 * x1 * x2, x2);
    ring::assoc(d * x2 * x2 * y1 * y2, d * d * x1 * x1, x2);
    ring::assoc(d * x2 * x2 * y1 * y2, d * d * x1, x1);
    ring::assoc(d * x2 * x2 * y1 * y2, d * d, x1);
    ring::assoc(d * x2 * x2 * y1 * y2, d, d);
    ring::swap(d * x2 * x2 * y1, y2, d);
    ring::swap(d * x2 * x2, y1, d);
    ring::swap(d * x2, x2, d);
    ring::swap(d, x2, d);
    ring::swap(d * d * x2 * x2 * y1, y2, d);
    ring::swap(d * d * x2 * x2, y1, d);
    ring::swap(d * d * x2, x2, d);
    ring::swap(d * d, x2, d);
    ring::swap(d * d * d * x2 * x2 * y1, y2, x1);
    ring::swap(d * d * d * x2 * x2, y1, x1);
    ring::swap(d * d * d * x2, x2, x1);
    ring::swap(d * d * d, x2, x1);
    ring::swap(d * d * d * x1 * x2 * x2 * y1, y2, x1);
    ring::swap(d * d * d * x1 * x2 * x2, y1, x1);
    ring::swap(d * d * d * x1 * x2, x2, x1);
    ring::swap(d * d * d * x1 * x1 * x2 * x2 * y1, y2, x2);
    ring::swap(d * d * d * x1 * x1 * x2 * x2, y1, x2);
    ring::swap(d * d * d * x1 * x1 * x2 * x2 * x2 * y1, y2, x2);
    ring::swap(d * d * d * x1 * x1 * x2 * x2 * x2, y1, x2);
    ring::swap(d * d * d * x1 * x1 * x2 * x2 * x2 * x2 * y1, y2, y1);
    ring::swap(d * d * d * x1 * x1 * x2 * x2 * x2 * x2 * y1 * y1, y2, y1);
    ring::lin2(x1 * y2 + y1 * x2, y1 * y2 + x1 * x2, 1, x1 * y2, 1, x2 * y1);
    ring::lin2(y1 * y2 + x1 * x2, x1 * y2, 1, x1 * x2, 1, y1 * y2);
    ring::assoc(x1 * x2, x1, y2);
    ring::swap(x1, x2, x1);
    ring::assoc(y1 * y2, x1, y2);
    ring::swap(y1, y2, x1);
    lemma_mul_is_commutative(y1, x1);
    ring::lin2(y1 * y2 + x1 * x2, x2 * y1, 1, x1 * x2, 1, y1 * y2);
    ring::assoc(x1 * x2, x2, y1);
    ring::assoc(y1 * y2, x2, y1);
    ring::swap(y1, y2, x2);
    ring::swap(x2 * y1, y2, y1);
    ring::lin4((x1 * y2 + y1 * x2) * (y1 * y2 + x1 * x2), d, 1, x1 * x1 * x2 * y2, 1, x1 * x2 * x2 * y1, 1, x1 * y1 * y2 * y2, 1, x2 * y1 * y1 * y2);
    ring::swap(x1 * x1 * x2, y2, d);
    ring::swap(x1 * x1, x2, d);
    ring::swap(x1, x1, d);
    ring::swap(x2 * y1 * y1, y2, d);
    ring::swap(x2 * y1, y1, d);
    ring::lin4(d * ((x1 * y2 + y1 * x2) * (y1 * y2 + x1 * x2)), x1 * y2 + y1 * x2, 1, d * x1 * x1 * x2 * y2, 1, d * x1 * x2 * x2 * y1, 1, d * x1 * y1 * y2 * y2, 1, d * x2 * y1 * y1 * y2);
    ring::lin2(x1 * y2 + y1 * x2, d * x1 * x1 * x2 * y2, 1, x1 * y2, 1, x2 * y1);
    ring::assoc(x1 * y2, d * x1 * x1 * x2, y2);
    ring::assoc(x1 * y2, d * x1 * x1, x2);
    ring::assoc(x1 * y2, d * x1, x1);
    ring::assoc(x1 * y2, d, x1);
    ring::swap(d * x1, y2, x1);
    ring::swap(d * x1 * x1, y2, x1);
    ring::swap(d * x1 * x1 * x1, y2, x2);
    ring::assoc(x2 * y1, d * x1 * x1 * x2, y2);
    ring::assoc(x2 * y1, d * x1 * x1, x2);
    ring::assoc(x2 * y1, d * x1, x1);
    ring::assoc(x2 * y1, d, x1);
    ring::swap(d * x2, y1, x1);
    ring::swap(d, x2, x1);
    ring::lin2(x1 * y2 + y1 * x2, d * x1 * x2 * x2 * y1, 1, x1 * y2, 1, x2 * y1);
    ring::assoc(x1 * y2, d * x1 * x2 * x2, y1);
    ring::assoc(x1 * y2, d * x1 * x2, x2);
    ring::assoc(x1 * y2, d * x1, x2);
    ring::swap(d * x1 * x1, y2, x2);
    ring::swap(d * x1 * x1 * x2, y2, x2);
    ring::swap(d * x1 * x1 * x2 * x2, y2, y1);
    ring::assoc(x2 * y1, d * x1 * x2 * x2, y1);
    ring::assoc(x2 * y1, d * x1 * x2, x2);
    ring::assoc(x2 * y1, d * x1, x2);
    ring::lin2(x1 * y2 + y1 * x2, d * x1 * y1 * y2 * y2, 1, x1 * y2, 1, x2 * y1);
    ring::assoc(x1 * y2, d * x1 * y1 * y2, y2);
    ring::assoc(x1 * y2, d * x1 * y1, y2);
    ring::assoc(x1 * y2, d * x1, y1);
    ring::swap(d * x1 * x1, y2, y1);
    ring::assoc(x2 * y1, d * x1 * y1 * y2, y2);
    ring::assoc(x2 * y1, d * x1 * y1, y2);
    ring::assoc(x2 * y1, d * x1, y1);
    ring::lin2(x1 * y2 + y1 * x2, d * x2 * y1 * y1 * y2, 1, x1 * y2, 1, x2 * y1);
    ring::assoc(x1 * y2, d * x2 * y1 * y1, y2);
    ring::assoc(x1 * y2, d * x2 * y1, y1);
    ring::assoc(x1 * y2, d * x2, y1);
    ring::swap(d * x1 * x2, y2, y1);
    ring::assoc(x2 * y1, d * x2 * y1 * y1, y2);
    ring::assoc(x2 * y1, d * x2 * y1, y1);
    ring::assoc(x2 * y1, d * x2, y1);
    ring::assoc(x1 * x1, y1, y1);
    ring::assoc(d, x1 * x1 * y1, y1);
    ring::assoc(d, x1 * x1, y1);
    ring::assoc(d, x1, x1);
    ring::assoc(x2 * x2, y2, y2);
    ring::assoc(d, x2 * x2 * y2, y2);
    ring::assoc(d, x2 * x2, y2);
    ring::assoc(d, x2, x2);
    ring::lin1(d * (x1 * x1 * (y1 * y1)), y2 * y2 - x2 * x2 - 1 - d * (x2 * x2 * (y2 * y2)), 1, d * x1 * x1 * y1 * y1);
    ring::lin4(y2 * y2 - x2 * x2 - 1 - d * (x2 * x2 * (y2 * y2)), d * x1 * x1 * y1 * y1, -1, 1, -1, x2 * x2, 1, y2 * y2, -1, d * x2 * x2 * y2 * y2);
    ring::assoc(x2 * x2, d * x1 * x1 * y1, y1);
    ring::assoc(x2 * x2, d * x1 * x1, y1);
    ring::assoc(x2 * x2, d * x1, x1);
    ring::assoc(x2 * x2, d, x1);
    ring::swap(x2, x2, d);
    ring::swap(d * x2, x2, x1);
    ring::assoc(y2 * y2, d * x1 * x1 * y1, y1);
    ring::assoc(y2 * y2, d * x1 * x1, y1);
    ring::assoc(y2 * y2, d * x1, x1);
    ring::assoc(y2 * y2, d, x1);
    ring::swap(y2, y2, d);
    lemma_mul_is_commutative(y2, d);
    ring::swap(d * y2, y2, x1);
    ring::swap(d, y2, x1);
    ring::swap(d * x1 * y2, y2, x1);
    ring::swap(d * x1 * x1 * y2, y2, y1);
    ring::swap(d * x1 * x1 * y1 * y2, y2, y1);
    ring::swap(d * x1 * x1 * y1, y2, y1);
    ring::assoc(d * x2 * x2 * y2 * y2, d * x1 * x1 * y1, y1);
    ring::assoc(d * x2 * x2 * y2 * y2, d * x1 * x1, y1);
    ring::assoc(d * x2 * x2 * y2 * y2, d * x1, x1);
    ring::assoc(d * x2 * x2 * y2 * y2, d, x1);
    ring::swap(d * x2 * x2 * y2, y2, d);
    ring::swap(d * x2 * x2, y2, d);
    ring::swap(d * d * x2 * x2 * y2, y2, x1);
    ring::swap(d * d * x2 * x2, y2, x1);
    ring::swap(d * d * x2, x2, x1);
    ring::swap(d * d, x2, x1);
    ring::swap(d * d * x1 * x2 * x2 * y2, y2, x1);
    ring::swap(d * d * x1 * x2 * x2, y2, x1);
    ring::swap(d * d * x1 * x1 * x2 * x2 * y2, y2, y1);
    ring::swap(d * d * x1 * x1 * x2 * x2, y2, y1);
    ring::lin2(d * (x2 * y2) * (x1 * y2 - y1 * x2), y1 * y1 - x1 * x1 - 1 - d * (x1 * x1 * (y1 * y1)) - d * (x1 * x1 * (y1 * y1)) * (y2 * y2 - x2 * x2 - 1 - d * (x2 * x2 * (y2 * y2))), 1, d * x1 * x2 * y2 * y2, -1, d * x2 * x2 * y1 * y2);
    ring::lin6(y1 * y1 - x1 * x1 - 1 - d * (x1 * x1 * (y1 * y1)) - d * (x1 * x1 * (y1 * y1)) * (y2 * y2 - x2 * x2 - 1 - d * (x2 * x2 * (y2 * y2))), d * x1 * x2 * y2 * y2, -1, 1, -1, x1 * x1, 1, y1 * y1, 1, d * x1 * x1 * x2 * x2 * y1 * y1, -1, d * x1 * x1 * y1 * y1 * y2 * y2, 1, d * d * x1 * x1 * x2 * x2 * y1 * y1 * y2 * y2);
    ring::assoc(x1 * x1, d * x1 * x2 * y2, y2);
    ring::assoc(x1 * x1, d * x1 * x2, y2);
    ring::assoc(x1 * x1, d * x1, x2);
    ring::assoc(x1 * x1, d, x1);
    ring::assoc(y1 * y1, d * x1 * x2 * y2, y2);
    ring::assoc(y1 * y1, d * x1 * x2, y2);
    ring::assoc(y1 * y1, d * x1, x2);
    ring::assoc(y1 * y1, d, x1);
    ring::swap(y1, y1, d);
    lemma_mul_is_commutative(y1, d);
    ring::swap(d * y1, y1, x1);
    ring::swap(d, y1, x1);
    ring::swap(d * x1 * y1, y1, x2);
    ring::assoc(d * x1 * x1 * x2 * x2 * y1 * y1, d * x1 * x2 * y2, y2);
    ring::assoc(d * x1 * x1 * x2 * x2 * y1 * y1, d * x1 * x2, y2);
    ring::assoc(d * x1 * x1 * x2 * x2 * y1 * y1, d * x1, x2);
    ring::assoc(d * x1 * x1 * x2 * x2 * y1 * y1, d, x1);
    ring::swap(d * x1 * x1 * x2 * x2 * y1, y1, d);
    ring::swap(d * x1 * x1 * x2 * x2, y1, d);
    ring::swap(d * x1 * x1 * x2, x2, d);
    ring::swap(d * x1 * x1, x2, d);
    ring::swap(d * x1, x1, d);
    ring::swap(d * d * x1 * x1 * x2 * x2 * y1, y1, x1);
    ring::swap(d * d * x1 * x1 * x1 * x2 * x2 * y1, y1, x2);
    ring::assoc(d * x1 * x1 * y1 * y1 * y2 * y2, d * x1 * x2 * y2, y2);
    ring::assoc(d * x1 * x1 * y1 * y1 * y2 * y2, d * x1 * x2, y2);
    ring::assoc(d * x1 * x1 * y1 * y1 * y2 * y2, d * x1, x2);
    ring::assoc(d * x1 * x1 * y1 * y1 * y2 * y2, d, x1);
    ring::swap(d * x1 * x1 * y1 * y1 * y2, y2, d);
    ring::swap(d * x1 * x1 * y1 * y1, y2, d);
    ring::swap(d * x1 * x1 * y1, y1, d);
    ring::swap(d * x1 * x1, y1, d);
    ring::swap(d * d * x1 * x1 * y1 * y1 * y2, y2, x1);
    ring::swap(d * d * x1 * x1 * y1 * y1, y2, x1);
    ring::swap(d * d * x1 * x1 * y1, y1, x1);
    ring::swap(d * d * x1 * x1 * x1 * y1 * y1 * y2, y2, x2);
    ring::swap(d * d * x1 * x1 * x1 * y1 * y1, y2, x2);
    ring::swap(d * d * x1 * x1 * x1 * y1, y1, x2);
    ring::assoc(d * d * x1 * x1 * x2 * x2 * y1 * y1 * y2 * y2, d * x1 * x2 * y2, y2);
    ring::assoc(d * d * x1 * x1 * x2 * x2 * y1 * y1 * y2 * y2, d * x1 * x2, y2);
    ring::assoc(d * d * x1 * x1 * x2 * x2 * y1 * y1 * y2 * y2, d * x1, x2);
    ring::assoc(d * d * x1 * x1 * x2 * x2 * y1 * y1 * y2 * y2, d, x1);
    ring::swap(d * d * x1 * x1 * x2 * x2 * y1 * y1 * y2, y2, d);
    ring::swap(d * d * x1 * x1 * x2 * x2 * y1 * y1, y2, d);
    ring::swap(d * d * x1 * x1 * x2 * x2 * y1, y1, d);
    ring::swap(d * d * x1 * x1 * x2 * x2, y1, d);
    ring::swap(d * d * x1 * x1 * x2, x2, d);
    ring::swap(d * d * x1 * x1, x2, d);
    ring::swap(d * d * x1, x1, d);
    ring::swap(d * d * d * x1 * x1 * x2 * x2 * y1 * y1 * y2, y2, x1);
    ring::swap(d * d * d * x1 * x1 * x2 * x2 * y1 * y1, y2, x1);
    ring::swap(d * d * d * x1 * x1 * x2 * x2 * y1, y1, x1);
    ring::swap(d * d * d * x1 * x1 * x2 * x2, y1, x1);
    ring::swap(d * d * d * x1 * x1 * x2, x2, x1);
    ring::swap(d * d * d * x1 * x1 * x1 * x2 * x2 * y1 * y1 * y2, y2, x2);
    ring::swap(d * d * d * x1 * x1 * x1 * x2 * x2 * y1 * y1, y2, x2);
    ring::swap(d * d * d * x1 * x1 * x1 * x2 * x2 * y1, y1, x2);
    ring::swap(d * d * d * x1 * x1 * x1 * x2 * x2, y1, x2);
    ring::lin6(y1 * y1 - x1 * x1 - 1 - d * (x1 * x1 * (y1 * y1)) - d * (x1 * x1 * (y1 * y1)) * (y2 * y2 - x2 * x2 - 1 - d * (x2 * x2 * (y2 * y2))), d * x2 * x2 * y1 * y2, -1, 1, -1, x1 * x1, 1, y1 * y1, 1, d * x1 * x1 * x2 * x2 * y1 * y1, -1, d * x1 * x1 * y1 * y1 * y2 * y2, 1, d * d * x1 * x1 * x2 * x2 * y1 * y1 * y2 * y2);
    ring::assoc(x1 * x1, d * x2 * x2 * y1, y2);
    ring::assoc(x1 * x1, d * x2 * x2, y1);
    ring::assoc(x1 * x1, d * x2, x2);
    ring::assoc(x1 * x1, d, x2);
    ring::assoc(y1 * y1, d * x2 * x2 * y1, y2);
    ring::assoc(y1 * y1, d * x2 * x2, y1);
    ring::assoc(y1 * y1, d * x2, x2);
    ring::assoc(y1 * y1, d, x2);
    ring::swap(d * y1, y1, x2);
    ring::swap(d, y1, x2);
    ring::swap(d * x2 * y1, y1, x2);
    ring::assoc(d * x1 * x1 * x2 * x2 * y1 * y1, d * x2 * x2 * y1, y2);
    ring::assoc(d * x1 * x1 * x2 * x2 * y1 * y1, d * x2 * x2, y1);
    ring::assoc(d * x1 * x1 * x2 * x2 * y1 * y1, d * x2, x2);
    ring::assoc(d * x1 * x1 * x2 * x2 * y1 * y1, d, x2);
    ring::swap(d * d * x1 * x1 * x2 * x2 * y1, y1, x2);
    ring::swap(d * d * x1 * x1 * x2 * x2 * x2 * y1, y1, x2);
    ring::assoc(d * x1 * x1 * y1 * y1 * y2 * y2, d * x2 * x2 * y1, y2);
    ring::assoc(d * x1 * x1 * y1 * y1 * y2 * y2, d * x2 * x2, y1);
    ring::assoc(d * x1 * x1 * y1 * y1 * y2 * y2, d * x2, x2);
    ring::assoc(d * x1 * x1 * y1 * y1 * y2 * y2, d, x2);
    ring::swap(d * d * x1 * x1 * y1 * y1 * y2, y2, x2);
    ring::swap(d * d * x1 * x1 * y1 * y1, y2, x2);
    ring::swap(d * d * x1 * x1 * y1, y1, x2);
    ring::swap(d * d * x1 * x1 * x2 * y1 * y1 * y2, y2, x2);
    ring::swap(d * d * x1 * x1 * x2 * y1 * y1, y2, x2);
    ring::swap(d * d * x1 * x1 * x2 * y1, y1, x2);
    ring::assoc(d * d * x1 * x1 * x2 * x2 * y1 * y1 * y2 * y2, d * x2 * x2 * y1, y2);
    ring::assoc(d * d * x1 * x1 * x2 * x2 * y1 * y1 * y2 * y2, d * x2 * x2, y1);
    ring::assoc(d * d * x1 * x1 * x2 * x2 * y1 * y1 * y2 * y2, d * x2, x2);
    ring::assoc(d * d * x1 * x1 * x2 * x2 * y1 * y1 * y2 * y2, d, x2);
    ring::swap(d * d * d * x1 * x1 * x2 * x2 * y1 * y1 * y2, y2, x2);
    ring::swap(d * d * d * x1 * x1 * x2 * x2 * y1 * y1, y2, x2);
    ring::swap(d * d * d * x1 * x1 * x2 * x2 * y1, y1, x2);
    ring::swap(d * d * d * x1 * x1 * x2 * x2 * x2 * y1 * y1 * y2, y2, x2);
    ring::swap(d * d * d * x1 * x1 * x2 * x2 * x2 * y1 * y1, y2, x2);
    ring::swap(d * d * d * x1 * x1 * x2 * x2 * x2 * y1, y1, x2);
    ring::swap(d * d * d * x1 * x1 * x2 * x2 * x2 * x2 * y1 * y1 * y2, y2, y1);
    assert((x1 * y2 + y1 * x2) * (1 - d * (x1 * x2 * (y1 * y2))) * (d * (x1 * y1 * (x2 * x2 + y2 * y2))) + 2 * ((y1 * y2 + x1 * x2) * (d * (x1 * x2 * (y1 * y2))) * (1 + d * (x1 * x2 * (y1 * y2)))) - (1 - d * (x1 * x2 * (y1 * y2)) * (d * (x1 * x2 * (y1 * y2)))) * (d * (x2 * y2) * (x1 * y2 - y1 * x2)) - d * ((x1 * y2 + y1 * x2) * (y1 * y2 + x1 * x2)) * (x1 * y2 + y1 * x2) == d * (x2 * y2) * (x1 * y2 - y1 * x2) * (y1 * y1 - x1 * x1 - 1 - d * (x1 * x1 * (y1 * y1)) - d * (x1 * x1 * (y1 * y1)) * (y2 * y2 - x2 * x2 - 1 - d * (x2 * x2 * (y2 * y2)))));
}

/// Fourth coefficient relation of associativity.
pub proof fn lemma_assoc_fourth(d: int, x1: int, y1: int, x2: int, y2: int)
    ensures
        2 * ((x1 * y2 + y1 * x2) * (1 - d * (x1 * x2 * (y1 * y2))) * (d * (x1 * x2 * (y1 * y2)))) + (y1 * y2 + x1 * x2) * (1 + d * (x1 * x2 * (y1 * y2))) * (d * (x1 * y1 * (x2 * x2 + y2 * y2))) - (1 - d * (x1 * x2 * (y1 * y2)) * (d * (x1 * x2 * (y1 * y2)))) * (d * (x2 * y2) * (x1 * x2 - y1 * y2)) - d * ((x1 * y2 + y1 * x2) * (y1 * y2 + x1 * x2)) * (y1 * y2 + x1 * x2) == d * (x2 * y2) * (x1 * x2 - y1 * y2) * (curve_eq(d, x1, y1) - d * (x1 * x1 * (y1 * y1)) * curve_eq(d, x2, y2)),
{
    lemma_mul_is_commutative(y1, x2);
    ring::assoc(x1 * x2, y1, y2);
    ring::assoc(d, x1 * x2 * y1, y2);
    ring::assoc(d, x1 * x2, y1);
    ring::assoc(d, x1, x2);
    ring::lin2(x1 * y2 + y1 * x2, 1 - d * (x1 * x2 * (y1 * y2)), 1, x1 * y2, 1, x2 * y1);
    ring::lin2(1 - d * (x1 * x2 * (y1 * y2)), x1 * y2, 1, 1, -1, d * x1 * x2 * y1 * y2);
    ring::assoc(d * x1 * x2 * y1 * y2, x1, y2);
    ring::swap(d * x1 * x2 * y1, y2, x1);
    ring::swap(d * x1 * x2, y1, x1);
    ring::swap(d * x1, x2, x1);
    ring::lin2(1 - d * (x1 * x2 * (y1 * y2)), x2 * y1, 1, 1, -1, d * x1 * x2 * y1 * y2);
    ring::assoc(d * x1 * x2 * y1 * y2, x2, y1);
    ring::swap(d * x1 * x2 * y1, y2, x2);
    ring::swap(d * x1 * x2, y1, x2);
    ring::swap(d * x1 * x2 * x2 * y1, y2, y1);
    ring::lin4((x1 * y2 + y1 * x2) * (1 - d * (x1 * x2 * (y1 * y2))), d * (x1 * x2 * (y1 * y2)), 1, x1 * y2, 1, x2 * y1, -1, d * x1 * x1 * x2 * y1 * y2 * y2, -1, d * x1 * x2 * x2 * y1 * y1 * y2);
    ring::lin1(d * (x1 * x2 * (y1 * y2)), x1 * y2, 1, d * x1 * x2 * y1 * y2);
    ring::lin1(d * (x1 * x2 * (y1 * y2)), x2 * y1, 1, d * x1 * x2 * y1 * y2);
    ring::lin1(d * (x1 * x2 * (y1 * y2)), d * x1 * x1 * x2 * y1 * y2 * y2, 1, d * x1 * x2 * y1 * y2);
    ring::assoc(d * x1 * x2 * y1 * y2, d * x1 * x1 * x2 * y1 * y2, y2);
    ring::assoc(d * x1 * x2 * y1 * y2, d * x1 * x1 * x2 * y1, y2);
    ring::assoc(d * x1 * x2 * y1 * y2, d * x1 * x1 * x2, y1);
    ring::assoc(d * x1 * x2 * y1 * y2, d * x1 * x1, x2);
    ring::assoc(d * x1 * x2 * y1 * y2, d * x1, x1);
    ring::assoc(d * x1 * x2 * y1 * y2, d, x1);
    ring::swap(d * x1 * x2 * y1, y2, d);
    ring::swap(d * x1 * x2, y1, d);
    ring::swap(d * x1, x2, d);
    ring::swap(d, x1, d);
    ring::swap(d * d * x1 * x2 * y1, y2, x1);
    ring::swap(d * d * x1 * x2, y1, x1);
    ring::swap(d * d * x1, x2, x1);
    ring::swap(d * d * x1 * x1 * x2 * y1, y2, x1);
    ring::swap(d * d * x1 * x1 * x2, y1, x1);
    ring::swap(d * d * x1 * x1, x2, x1);
    ring::swap(d * d * x1 * x1 * x1 * x2 * y1, y2, x2);
    ring::swap(d * d * x1 * x1 * x1 * x2, y1, x2);
    ring::swap(d * d * x1 * x1 * x1 * x2 * x2 * y1, y2, y1);
    ring::lin1(d * (x1 * x2 * (y1 * y2)), d * x1 * x2 * x2 * y1 * y1 * y2, 1, d * x1 * x2 * y1 * y2);
    ring::assoc(d * x1 * x2 * y1 * y2, d * x1 * x2 * x2 * y1 * y1, y2);
    ring::assoc(d * x1 * x2 * y1 * y2, d * x1 * x2 * x2 * y1, y1);
    ring::assoc(d * x1 * x2 * y1 * y2, d * x1 * x2 * x2, y1);
    ring::assoc(d * x1 * x2 * y1 * y2, d * x1 * x2, x2);
    ring::assoc(d * x1 * x2 * y1 * y2, d * x1, x2);
    ring::swap(d * d * x1 * x1 * x2 * y1, y2, x2);
    ring::swap(d * d * x1 * x1 * x2, y1, x2);
    ring::swap(d * d * x1 * x1 * x2 * x2 * y1, y2, x2);
    ring::swap(d * d * x1 * x1 * x2 * x2, y1, x2);
    ring::swap(d * d * x1 * x1 * x2 * x2 * x2 * y1, y2, y1);
    ring::swap(d * d * x1 * x1 * x2 * x2 * x2 * y1 * y1, y2, y1);
    ring::lin2(y1 * y2 + x1 * x2, 1 + d * (x1 * x2 * (y1 * y2)), 1, x1 * x2, 1, y1 * y2);
    ring::lin2(1 + d * (x1 * x2 * (y1 * y2)), x1 * x2, 1, 1, 1, d * x1 * x2 * y1 * y2);
    ring::assoc(d * x1 * x2 * y1 * y2, x1, x2);
    ring::swap(d * x1 * x1 * x2 * y1, y2, x2);
    ring::swap(d * x1 * x1 * x2, y1, x2);
    ring::lin2(1 + d * (x1 * x2 * (y1 * y2)), y1 * y2, 1, 1, 1, d * x1 * x2 * y1 * y2);
    ring::assoc(d * x1 * x2 * y1 * y2, y1, y2);
    ring::swap(d * x1 * x2 * y1, y2, y1);
    ring::lin2(x2 * x2 + y2 * y2, x1 * y1, 1, x2 * x2, 1, y2 * y2);
    ring::assoc(x2 * x2, x1, y1);
    ring::swap(x2, x2, x1);
    lemma_mul_is_commutative(x2, x1);
    ring::assoc(y2 * y2, x1, y1);
    ring::swap(y2, y2, x1);
    lemma_mul_is_commutative(y2, x1);
    ring::swap(x1 * y2, y2, y1);
    ring::swap(x1, y2, y1);
    ring::lin2(x1 * y1 * (x2 * x2 + y2 * y2), d, 1, x1 * x2 * x2 * y1, 1, x1 * y1 * y2 * y2);
    ring::swap(x1 * x2 * x2, y1, d);
    ring::swap(x1 * x2, x2, d);
    ring::swap(x1, x2, d);
    lemma_mul_is_commutative(x1, d);
    ring::swap(x1 * y1 * y2, y2, d);
    ring::swap(x1 * y1, y2, d);
    ring::swap(x1, y1, d);
    ring::lin4((y1 * y2 + x1 * x2) * (1 + d * (x1 * x2 * (y1 * y2))), d * (x1 * y1 * (x2 * x2 + y2 * y2)), 1, x1 * x2, 1, y1 * y2, 1, d * x1 * x1 * x2 * x2 * y1 * y2, 1, d * x1 * x2 * y1 * y1 * y2 * y2);
    ring::lin2(d * (x1 * y1 * (x2 * x2 + y2 * y2)), x1 * x2, 1, d * x1 * x2 * x2 * y1, 1, d * x1 * y1 * y2 * y2);
    ring::assoc(d * x1 * x2 * x2 * y1, x1, x2);
    ring::swap(d * x1 * x2 * x2, y1, x1);
    ring::swap(d * x1 * x2, x2, x1);
    ring::swap(d * x1 * x1 * x2 * x2, y1, x2);
    ring::assoc(d * x1 * y1 * y2 * y2, x1, x2);
    ring::swap(d * x1 * y1 * y2, y2, x1);
    ring::swap(d * x1 * y1, y2, x1);
    ring::swap(d * x1, y1, x1);
    ring::swap(d * x1 * x1 * y1 * y2, y2, x2);
    ring::swap(d * x1 * x1 * y1, y2, x2);
    ring::swap(d * x1 * x1, y1, x2);
    ring::lin2(d * (x1 * y1 * (x2 * x2 + y2 * y2)), y1 * y2, 1, d * x1 * x2 * x2 * y1, 1, d * x1 * y1 * y2 * y2);
    ring::assoc(d * x1 * x2 * x2 * y1, y1, y2);
    ring::assoc(d * x1 * y1 * y2 * y2, y1, y2);
    ring::swap(d * x1 * y1 * y2, y2, y1);
    ring::swap(d * x1 * y1, y2, y1);
    ring::lin2(d * (x1 * y1 * (x2 * x2 + y2 * y2)), d * x1 * x1 * x2 * x2 * y1 * y2, 1, d * x1 * x2 * x2 * y1, 1, d * x1 * y1 * y2 * y2);
    ring::assoc(d * x1 * x2 * x2 * y1, d * x1 * x1 * x2 * x2 * y1, y2);
    ring::assoc(d * x1 * x2 * x2 * y1, d * x1 * x1 * x2 * x2, y1);
    ring::assoc(d * x1 * x2 * x2 * y1, d * x1 * x1 * x2, x2);
    ring::assoc(d * x1 * x2 * x2 * y1, d * x1 * x1, x2);
    ring::assoc(d * x1 * x2 * x2 * y1, d * x1, x1);
    ring::assoc(d * x1 * x2 * x2 * y1, d, x1);
    ring::swap(d * x1 * x2 * x2, y1, d);
    ring::swap(d * x1 * x2, x2, d);
    ring::swap(d * d * x1 * x2 * x2, y1, x1);
    ring::swap(d * d * x1 * x2, x2, x1);
    ring::swap(d * d * x1 * x1 * x2 * x2, y1, x1);
    ring::swap(d * d * x1 * x1 * x2, x2, x1);
    ring::swap(d * d * x1 * x1 * x1 * x2 * x2, y1, x2);
    ring::swap(d * d * x1 * x1 * x1 * x2 * x2 * x2, y1, x2);
    ring::assoc(d * x1 * y1 * y2 * y2, d * x1 * x1 * x2 * x2 * y1, y2);
    ring::assoc(d * x1 * y1 * y2 * y2, d * x1 * x1 * x2 * x2, y1);
    ring::assoc(d * x1 * y1 * y2 * y2, d * x1 * x1 * x2, x2);
    ring::assoc(d * x1 * y1 * y2 * y2, d * x1 * x1, x2);
    ring::assoc(d * x1 * y1 * y2 * y2, d * x1, x1);
    ring::assoc(d * x1 * y1 * y2 * y2, d, x1);
    ring::swap(d * x1 * y1 * y2, y2, d);
    ring::swap(d * x1 * y1, y2, d);
    ring::swap(d * x1, y1, d);
    ring::swap(d * d * x1 * y1 * y2, y2, x1);
    ring::swap(d * d * x1 * y1, y2, x1);
    ring::swap(d * d * x1, y1, x1);
    ring::swap(d * d * x1 * x1 * y1 * y2, y2, x1);
    ring::swap(d * d * x1 * x1 * y1, y2, x1);
    ring::swap(d * d * x1 * x1, y1, x1);
    ring::swap(d * d * x1 * x1 * x1 * y1 * y2, y2, x2);
    ring::swap(d * d * x1 * x1 * x1 * y1, y2, x2);
    ring::swap(d * d * x1 * x1 * x1, y1, x2);
    ring::swap(d * d * x1 * x1 * x1 * x2 * y1 * y2, y2, x2);
    ring::swap(d * d * x1 * x1 * x1 * x2 * x2 * y1 * y2, y2, y1);
    ring::lin2(d * (x1 * y1 * (x2 * x2 + y2 * y2)), d * x1 * x2 * y1 * y1 * y2 * y2, 1, d * x1 * x2 * x2 * y1, 1, d * x1 * y1 * y2 * y2);
    ring::assoc(d * x1 * x2 * x2 * y1, d * x1 * x2 * y1 * y1 * y2, y2);
    ring::assoc(d * x1 * x2 * x2 * y1, d * x1 * x2 * y1 * y1, y2);
    ring::assoc(d * x1 * x2 * x2 * y1, d * x1 * x2 * y1, y1);
    ring::assoc(d * x1 * x2 * x2 * y1, d * x1 * x2, y1);
    ring::assoc(d * x1 * x2 * x2 * y1, d * x1, x2);
    ring::assoc(d * x1 * y1 * y2 * y2, d * x1 * x2 * y1 * y1 * y2, y2);
    ring::assoc(d * x1 * y1 * y2 * y2, d * x1 * x2 * y1 * y1, y2);
    ring::assoc(d * x1 * y1 * y2 * y2, d * x1 * x2 * y1, y1);
    ring::assoc(d * x1 * y1 * y2 * y2, d * x1 * x2, y1);
    ring::assoc(d * x1 * y1 * y2 * y2, d * x1, x2);
    ring::swap(d * d * x1 * x1 * y1 * y2, y2, x2);
    ring::swap(d * d * x1 * x1 * y1, y2, x2);
    ring::swap(d * d * x1 * x1, y1, x2);
    ring::swap(d * d * x1 * x1 * x2 * y1 * y2, y2, y1);
    ring::swap(d * d * x1 * x1 * x2 * y1, y2, y1);
    ring::swap(d * d * x1 * x1 * x2 * y1 * y1 * y2, y2, y1);
    ring::swap(d * d * x1 * x1 * x2 * y1 * y1, y2, y1);
    ring::assoc(d * x1 * x2 * y1 * y2, d * x1 * x2 * y1, y2);
    ring::assoc(d * x1 * x2 * y1 * y2, d * x1 * x2, y1);
    ring::swap(d * d * x1 * x1 * x2 * x2 * y1, y2, y1);
    ring::assoc(d, x2, y2);
    ring::lin1(d * (x2 * y2), x1 * x2 - y1 * y2, 1, d * x2 * y2);
    ring::lin2(x1 * x2 - y1 * y2, d * x2 * y2, 1, x1 * x2, -1, y1 * y2);
    ring::assoc(x1 * x2, d * x2, y2);
    ring::assoc(x1 * x2, d, x2);
    ring::assoc(y1 * y2, d * x2, y2);
    ring::assoc(y1 * y2, d, x2);
    ring::swap(y1, y2, d);
    lemma_mul_is_commutative(y1, d);
    ring::swap(d * y1, y2, x2);
    ring::swap(d, y1, x2);
    ring::lin2(1 - d * (x1 * x2 * (y1 * y2)) * (d * (x1 * x2 * (y1 * y2))), d * (x2 * y2) * (x1 * x2 - y1 * y2), 1, 1, -1, d * d * x1 * x1 * x2 * x2 * y1 * y1 * y2 * y2);
    ring::lin2(d * (x2 * y2) * (x1 * x2 - y1 * y2), 1, 1, d * x1 * x2 * x2 * y2, -1, d * x2 * y1 * y2 * y2);
    ring::lin2(d * (x2 * y2) * (x1 * x2 - y1 * y2), d * d * x1 * x1 * x2 * x2 * y1 * y1 * y2 * y2, 1, d * x1 * x2 * x2 * y2, -1, d * x2 * y1 * y2 * y2);
    ring::assoc(d * x1 * x2 * x2 * y2, d * d * x1 * x1 * x2 * x2 * y1 * y1 * y2, y2);
    ring::assoc(d * x1 * x2 * x2 * y2, d * d * x1 * x1 * x2 * x2 * y1 * y1, y2);
    ring::assoc(d * x1 * x2 * x2 * y2, d * d * x1 * x1 * x2 * x2 * y1, y1);
    ring::assoc(d * x1 * x2 * x2 * y2, d * d * x1 * x1 * x2 * x2, y1);
    ring::assoc(d * x1 * x2 * x2 * y2, d * d * x1 * x1 * x2, x2);
    ring::assoc(d * x1 * x2 * x2 * y2, d * d * x1 * x1, x2);
    ring::assoc(d * x1 * x2 * x2 * y2, d * d * x1, x1);
    ring::assoc(d * x1 * x2 * x2 * y2, d * d, x1);
    ring::assoc(d * x1 * x2 * x2 * y2, d, d);
    ring::swap(d * x1 * x2 * x2, y2, d);
    ring::swap(d * d * x1 * x2 * x2, y2, d);
    ring::swap(d * d * x1 * x2, x2, d);
    ring::swap(d * d * x1, x2, d);
    ring::swap(d * d, x1, d);
    ring::swap(d * d * d * x1 * x2 * x2, y2, x1);
    ring::swap(d * d * d * x1 * x2, x2, x1);
    ring::swap(d * d * d * x1, x2, x1);
    ring::swap(d * d * d * x1 * x1 * x2 * x2, y2, x1);
    ring::swap(d * d * d * x1 * x1 * x2, x2, x1);
    ring::swap(d * d * d * x1 * x1, x2, x1);
    ring::swap(d * d * d * x1 * x1 * x1 * x2 * x2, y2, x2);
    ring::swap(d * d * d * x1 * x1 * x1 * x2 * x2 * x2, y2, x2);
    ring::swap(d * d * d * x1 * x1 * x1 * x2 * x2 * x2 * x2, y2, y1);
    ring::swap(d * d * d * x1 * x1 * x1 * x2 * x2 * x2 * x2 * y1, y2, y1);
    ring::assoc(d * x2 * y1 * y2 * y2, d * d * x1 * x1 * x2 * x2 * y1 * y1 * y2, y2);
    ring::assoc(d * x2 * y1 * y2 * y2, d * d * x1 * x1 * x2 * x2 * y1 * y1, y2);
    ring::assoc(d * x2 * y1 * y2 * y2, d * d * x1 * x1 * x2 * x2 * y1, y1);
    ring::assoc(d * x2 * y1 * y2 * y2, d * d * x1 * x1 * x2 * x2, y1);
    ring::assoc(d * x2 * y1 * y2 * y2, d * d * x1 * x1 * x2, x2);
    ring::assoc(d * x2 * y1 * y2 * y2, d * d * x1 * x1, x2);
    ring::assoc(d * x2 * y1 * y2 * y2, d * d * x1, x1);
    ring::assoc(d * x2 * y1 * y2 * y2, d * d, x1);
    ring::assoc(d * x2 * y1 * y2 * y2, d, d);
    ring::swap(d * x2 * y1 * y2, y2, d);
    ring::swap(d * x2 * y1, y2, d);
    ring::swap(d * x2, y1, d);
    ring::swap(d, x2, d);
    ring::swap(d * d * x2 * y1 * y2, y2, d);
    ring::swap(d * d * x2 * y1, y2, d);
    ring::swap(d * d * x2, y1, d);
    ring::swap(d * d, x2, d);
    ring::swap(d * d * d * x2 * y1 * y2, y2, x1);
    ring::swap(d * d * d * x2 * y1, y2, x1);
    ring::swap(d * d * d * x2, y1, x1);
    ring::swap(d * d * d, x2, x1);
    ring::swap(d * d * d * x1 * x2 * y1 * y2, y2, x1);
    ring::swap(d * d * d * x1 * x2 * y1, y2, x1);
    ring::swap(d * d * d * x1 * x2, y1, x1);
    ring::swap(d * d * d * x1 * x1 * x2 * y1 * y2, y2, x2);
    ring::swap(d * d * d * x1 * x1 * x2 * y1, y2, x2);
    ring::swap(d * d * d * x1 * x1 * x2, y1, x2);
    ring::swap(d * d * d * x1 * x1 * x2 * x2 * y1 * y2, y2, x2);
    ring::swap(d * d * d * x1 * x1 * x2 * x2 * y1, y2, x2);
    ring::swap(d * d * d * x1 * x1 * x2 * x2, y1, x2);
    ring::swap(d * d * d * x1 * x1 * x2 * x2 * x2 * y1 * y2, y2, y1);
    ring::swap(d * d * d * x1 * x1 * x2 * x2 * x2 * y1, y2, y1);
    ring::swap(d * d * d * x1 * x1 * x2 * x2 * x2 * y1 * y1 * y2, y2, y1);
    ring::swap(d * d * d * x1 * x1 * x2 * x2 * x2 * y1 * y1, y2, y1);
    ring::lin2(x1 * y2 + y1 * x2, y1 * y2 + x1 * x2, 1, x1 * y2, 1, x2 * y1);
    ring::lin2(y1 * y2 + x1 * x2, x1 * y2, 1, x1 * x2, 1, y1 * y2);
    ring::assoc(x1 * x2, x1, y2);
    ring::swap(x1, x2, x1);
    ring::assoc(y1 * y2, x1, y2);
    ring::swap(y1, y2, x1);
    lemma_mul_is_commutative(y1, x1);
    ring::lin2(y1 * y2 + x1 * x2, x2 * y1, 1, x1 * x2, 1, y1 * y2);
    ring::assoc(x1 * x2, x2, y1);
    ring::assoc(y1 * y2, x2, y1);
    ring::swap(y1, y2, x2);
    ring::swap(x2 * y1, y2, y1);
    ring::lin4((x1 * y2 + y1 * x2) * (y1 * y2 + x1 * x2), d, 1, x1 * x1 * x2 * y2, 1, x1 * x2 * x2 * y1, 1, x1 * y1 * y2 * y2, 1, x2 * y1 * y1 * y2);
    ring::swap(x1 * x1 * x2, y2, d);
    ring::swap(x1 * x1, x2, d);
    ring::swap(x1, x1, d);
    ring::swap(x2 * y1 * y1, y2, d);
    ring::swap(x2 * y1, y1, d);
    ring::swap(x2, y1, d);
    lemma_mul_is_commutative(x2, d);
    ring::lin4(d * ((x1 * y2 + y1 * x2) * (y1 * y2 + x1 * x2)), y1 * y2 + x1 * x2, 1, d * x1 * x1 * x2 * y2, 1, d * x1 * x2 * x2 * y1, 1, d * x1 * y1 * y2 * y2, 1, d * x2 * y1 * y1 * y2);
    ring::lin2(y1 * y2 + x1 * x2, d * x1 * x1 * x2 * y2, 1, x1 * x2, 1, y1 * y2);
    ring::assoc(x1 * x2, d * x1 * x1 * x2, y2);
    ring::assoc(x1 * x2, d * x1 * x1, x2);
    ring::assoc(x1 * x2, d * x1, x1);
    ring::assoc(x1 * x2, d, x1);
    ring::swap(d * x1 * x1, x2, x1);
    ring::assoc(y1 * y2, d * x1 * x1 * x2, y2);
    ring::assoc(y1 * y2, d * x1 * x1, x2);
    ring::assoc(y1 * y2, d * x1, x1);
    ring::assoc(y1 * y2, d, x1);
    ring::swap(d * y1, y2, x1);
    ring::swap(d, y1, x1);
    ring::lin2(y1 * y2 + x1 * x2, d * x1 * x2 * x2 * y1, 1, x1 * x2, 1, y1 * y2);
    ring::assoc(x1 * x2, d * x1 * x2 * x2, y1);
    ring::assoc(x1 * x2, d * x1 * x2, x2);
    ring::assoc(x1 * x2, d * x1, x2);
    ring::assoc(y1 * y2, d * x1 * x2 * x2, y1);
    ring::assoc(y1 * y2, d * x1 * x2, x2);
    ring::assoc(y1 * y2, d * x1, x2);
    ring::swap(d * x1 * y1, y2, x2);
    ring::swap(d * x1, y1, x2);
    ring::lin2(y1 * y2 + x1 * x2, d * x1 * y1 * y2 * y2, 1, x1 * x2, 1, y1 * y2);
    ring::assoc(x1 * x2, d * x1 * y1 * y2, y2);
    ring::assoc(x1 * x2, d * x1 * y1, y2);
    ring::assoc(x1 * x2, d * x1, y1);
    ring::assoc(y1 * y2, d * x1 * y1 * y2, y2);
    ring::assoc(y1 * y2, d * x1 * y1, y2);
    ring::assoc(y1 * y2, d * x1, y1);
    ring::lin2(y1 * y2 + x1 * x2, d * x2 * y1 * y1 * y2, 1, x1 * x2, 1, y1 * y2);
    ring::assoc(x1 * x2, d * x2 * y1 * y1, y2);
    ring::assoc(x1 * x2, d * x2 * y1, y1);
    ring::assoc(x1 * x2, d * x2, y1);
    ring::assoc(y1 * y2, d * x2 * y1 * y1, y2);
    ring::assoc(y1 * y2, d * x2 * y1, y1);
    ring::assoc(y1 * y2, d * x2, y1);
    ring::swap(d * x2 * y1, y2, y1);
    ring::swap(d * x2 * y1 * y1, y2, y1);
    ring::assoc(x1 * x1, y1, y1);
    ring::assoc(d, x1 * x1 * y1, y1);
    ring::assoc(d, x1 * x1, y1);
    ring::assoc(d, x1, x1);
    ring::assoc(x2 * x2, y2, y2);
    ring::assoc(d, x2 * x2 * y2, y2);
    ring::assoc(d, x2 * x2, y2);
    ring::assoc(d, x2, x2);
    ring::lin1(d * (x1 * x1 * (y1 * y1)), y2 * y2 - x2 * x2 - 1 - d * (x2 * x2 * (y2 * y2)), 1, d * x1 * x1 * y1 * y1);
    ring::lin4(y2 * y2 - x2 * x2 - 1 - d * (x2 * x2 * (y2 * y2)), d * x1 * x1 * y1 * y1, -1, 1, -1, x2 * x2, 1, y2 * y2, -1, d * x2 * x2 * y2 * y2);
    ring::assoc(x2 * x2, d * x1 * x1 * y1, y1);
    ring::assoc(x2 * x2, d * x1 * x1, y1);
    ring::assoc(x2 * x2, d * x1, x1);
    ring::assoc(x2 * x2, d, x1);
    ring::swap(x2, x2, d);
    ring::swap(d * x2, x2, x1);
    ring::swap(d, x2, x1);
    ring::assoc(y2 * y2, d * x1 * x1 * y1, y1);
    ring::assoc(y2 * y2, d * x1 * x1, y1);
    ring::assoc(y2 * y2, d * x1, x1);
    ring::assoc(y2 * y2, d, x1);
    ring::swap(y2, y2, d);
    lemma_mul_is_commutative(y2, d);
    ring::swap(d * y2, y2, x1);
    ring::swap(d, y2, x1);
    ring::swap(d * x1 * y2, y2, x1);
    ring::swap(d * x1, y2, x1);
    ring::swap(d * x1 * x1 * y2, y2, y1);
    ring::swap(d * x1 * x1, y2, y1);
    ring::swap(d * x1 * x1 * y1 * y2, y2, y1);
    ring::swap(d * x1 * x1 * y1, y2, y1);
    ring::assoc(d * x2 * x2 * y2 * y2, d * x1 * x1 * y1, y1);
    ring::assoc(d * x2 * x2 * y2 * y2, d * x1 * x1, y1);
    ring::assoc(d * x2 * x2 * y2 * y2, d * x1, x1);
    ring::assoc(d * x2 * x2 * y2 * y2, d, x1);
    ring::swap(d * x2 * x2 * y2, y2, d);
    ring::swap(d * x2 * x2, y2, d);
    ring::swap(d * x2, x2, d);
    ring::swap(d * d * x2 * x2 * y2, y2, x1);
    ring::swap(d * d * x2 * x2, y2, x1);
    ring::swap(d * d * x2, x2, x1);
    ring::swap(d * d, x2, x1);
    ring::swap(d * d * x1 * x2 * x2 * y2, y2, x1);
    ring::swap(d * d * x1 * x2 * x2, y2, x1);
    ring::swap(d * d * x1 * x1 * x2 * x2 * y2, y2, y1);
    ring::swap(d * d * x1 * x1 * x2 * x2, y2, y1);
    ring::swap(d * d * x1 * x1 * x2 * x2 * y1 * y2, y2, y1);
    ring::lin2(d * (x2 * y2) * (x1 * x2 - y1 * y2), y1 * y1 - x1 * x1 - 1 - d * (x1 * x1 * (y1 * y1)) - d * (x1 * x1 * (y1 * y1)) * (y2 * y2 - x2 * x2 - 1 - d * (x2 * x2 * (y2 * y2))), 1, d * x1 * x2 * x2 * y2, -1, d * x2 * y1 * y2 * y2);
    ring::lin6(y1 * y1 - x1 * x1 - 1 - d * (x1 * x1 * (y1 * y1)) - d * (x1 * x1 * (y1 * y1)) * (y2 * y2 - x2 * x2 - 1 - d * (x2 * x2 * (y2 * y2))), d * x1 * x2 * x2 * y2, -1, 1, -1, x1 * x1, 1, y1 * y1, 1, d * x1 * x1 * x2 * x2 * y1 * y1, -1, d * x1 * x1 * y1 * y1 * y2 * y2, 1, d * d * x1 * x1 * x2 * x2 * y1 * y1 * y2 * y2);
    ring::assoc(x1 * x1, d * x1 * x2 * x2, y2);
    ring::assoc(x1 * x1, d * x1 * x2, x2);
    ring::assoc(x1 * x1, d * x1, x2);
    ring::assoc(x1 * x1, d, x1);
    ring::assoc(y1 * y1, d * x1 * x2 * x2, y2);
    ring::assoc(y1 * y1, d * x1 * x2, x2);
    ring::assoc(y1 * y1, d * x1, x2);
    ring::assoc(y1 * y1, d, x1);
    ring::swap(y1, y1, d);
    ring::swap(d * y1, y1, x1);
    ring::swap(d * x1 * y1, y1, x2);
    ring::swap(d * x1 * x2 * y1, y1, x2);
    ring::assoc(d * x1 * x1 * x2 * x2 * y1 * y1, d * x1 * x2 * x2, y2);
    ring::assoc(d * x1 * x1 * x2 * x2 * y1 * y1, d * x1 * x2, x2);
    ring::assoc(d * x1 * x1 * x2 * x2 * y1 * y1, d * x1, x2);
    ring::assoc(d * x1 * x1 * x2 * x2 * y1 * y1, d, x1);
    ring::swap(d * x1 * x1 * x2 * x2 * y1, y1, d);
    ring::swap(d * x1 * x1 * x2 * x2, y1, d);
    ring::swap(d * x1 * x1 * x2, x2, d);
    ring::swap(d * x1 * x1, x2, d);
    ring::swap(d * x1, x1, d);
    ring::swap(d * d * x1 * x1 * x2 * x2 * y1, y1, x1);
    ring::swap(d * d * x1 * x1 * x1 * x2 * x2 * y1, y1, x2);
    ring::swap(d * d * x1 * x1 * x1 * x2 * x2 * x2 * y1, y1, x2);
    ring::assoc(d * x1 * x1 * y1 * y1 * y2 * y2, d * x1 * x2 * x2, y2);
    ring::assoc(d * x1 * x1 * y1 * y1 * y2 * y2, d * x1 * x2, x2);
    ring::assoc(d * x1 * x1 * y1 * y1 * y2 * y2, d * x1, x2);
    ring::assoc(d * x1 * x1 * y1 * y1 * y2 * y2, d, x1);
    ring::swap(d * x1 * x1 * y1 * y1 * y2, y2, d);
    ring::swap(d * x1 * x1 * y1 * y1, y2, d);
    ring::swap(d * x1 * x1 * y1, y1, d);
    ring::swap(d * x1 * x1, y1, d);
    ring::swap(d * d * x1 * x1 * y1 * y1 * y2, y2, x1);
    ring::swap(d * d * x1 * x1 * y1 * y1, y2, x1);
    ring::swap(d * d * x1 * x1 * y1, y1, x1);
    ring::swap(d * d * x1 * x1 * x1 * y1 * y1 * y2, y2, x2);
    ring::swap(d * d * x1 * x1 * x1 * y1 * y1, y2, x2);
    ring::swap(d * d * x1 * x1 * x1 * y1, y1, x2);
    ring::swap(d * d * x1 * x1 * x1 * x2 * y1 * y1 * y2, y2, x2);
    ring::swap(d * d * x1 * x1 * x1 * x2 * y1 * y1, y2, x2);
    ring::swap(d * d * x1 * x1 * x1 * x2 * y1, y1, x2);
    ring::assoc(d * d * x1 * x1 * x2 * x2 * y1 * y1 * y2 * y2, d * x1 * x2 * x2, y2);
    ring::assoc(d * d * x1 * x1 * x2 * x2 * y1 * y1 * y2 * y2, d * x1 * x2, x2);
    ring::assoc(d * d * x1 * x1 * x2 * x2 * y1 * y1 * y2 * y2, d * x1, x2);
    ring::assoc(d * d * x1 * x1 * x2 * x2 * y1 * y1 * y2 * y2, d, x1);
    ring::swap(d * d * x1 * x1 * x2 * x2 * y1 * y1 * y2, y2, d);
    ring::swap(d * d * x1 * x1 * x2 * x2 * y1 * y1, y2, d);
    ring::swap(d * d * x1 * x1 * x2 * x2 * y1, y1, d);
    ring::swap(d * d * x1 * x1 * x2 * x2, y1, d);
    ring::swap(d * d * x1 * x1 * x2, x2, d);
    ring::swap(d * d * x1 * x1, x2, d);
    ring::swap(d * d * x1, x1, d);
    ring::swap(d * d * d * x1 * x1 * x2 * x2 * y1 * y1 * y2, y2, x1);
    ring::swap(d * d * d * x1 * x1 * x2 * x2 * y1 * y1, y2, x1);
    ring::swap(d * d * d * x1 * x1 * x2 * x2 * y1, y1, x1);
    ring::swap(d * d * d * x1 * x1 * x2 * x2, y1, x1);
    ring::swap(d * d * d * x1 * x1 * x1 * x2 * x2 * y1 * y1 * y2, y2, x2);
    ring::swap(d * d * d * x1 * x1 * x1 * x2 * x2 * y1 * y1, y2, x2);
    ring::swap(d * d * d * x1 * x1 * x1 * x2 * x2 * y1, y1, x2);
    ring::swap(d * d * d * x1 * x1 * x1 * x2 * x2, y1, x2);
    ring::swap(d * d * d * x1 * x1 * x1 * x2 * x2 * x2 * y1 * y1 * y2, y2, x2);
    ring::swap(d * d * d * x1 * x1 * x1 * x2 * x2 * x2 * y1 * y1, y2, x2);
    ring::swap(d * d * d * x1 * x1 * x1 * x2 * x2 * x2 * y1, y1, x2);
    ring::swap(d * d * d * x1 * x1 * x1 * x2 * x2 * x2, y1, x2);
    ring::lin6(y1 * y1 - x1 * x1 - 1 - d * (x1 * x1 * (y1 * y1)) - d * (x1 * x1 * (y1 * y1)) * (y2 * y2 - x2 * x2 - 1 - d * (x2 * x2 * (y2 * y2))), d * x2 * y1 * y2 * y2, -1, 1, -1, x1 * x1, 1, y1 * y1, 1, d * x1 * x1 * x2 * x2 * y1 * y1, -1, d * x1 * x1 * y1 * y1 * y2 * y2, 1, d * d * x1 * x1 * x2 * x2 * y1 * y1 * y2 * y2);
    ring::assoc(x1 * x1, d * x2 * y1 * y2, y2);
    ring::assoc(x1 * x1, d * x2 * y1, y2);
    ring::assoc(x1 * x1, d * x2, y1);
    ring::assoc(x1 * x1, d, x2);
    ring::assoc(y1 * y1, d * x2 * y1 * y2, y2);
    ring::assoc(y1 * y1, d * x2 * y1, y2);
    ring::assoc(y1 * y1, d * x2, y1);
    ring::assoc(y1 * y1, d, x2);
    ring::swap(d * y1, y1, x2);
    ring::assoc(d * x1 * x1 * x2 * x2 * y1 * y1, d * x2 * y1 * y2, y2);
    ring::assoc(d * x1 * x1 * x2 * x2 * y1 * y1, d * x2 * y1, y2);
    ring::assoc(d * x1 * x1 * x2 * x2 * y1 * y1, d * x2, y1);
    ring::assoc(d * x1 * x1 * x2 * x2 * y1 * y1, d, x2);
    ring::swap(d * d * x1 * x1 * x2 * x2 * y1, y1, x2);
    ring::assoc(d * x1 * x1 * y1 * y1 * y2 * y2, d * x2 * y1 * y2, y2);
    ring::assoc(d * x1 * x1 * y1 * y1 * y2 * y2, d * x2 * y1, y2);
    ring::assoc(d * x1 * x1 * y1 * y1 * y2 * y2, d * x2, y1);
    ring::assoc(d * x1 * x1 * y1 * y1 * y2 * y2, d, x2);
    ring::swap(d * d * x1 * x1 * y1 * y1 * y2, y2, x2);
    ring::swap(d * d * x1 * x1 * y1 * y1, y2, x2);
    ring::swap(d * d * x1 * x1 * y1, y1, x2);
    ring::assoc(d * d * x1 * x1 * x2 * x2 * y1 * y1 * y2 * y2, d * x2 * y1 * y2, y2);
    ring::assoc(d * d * x1 * x1 * x2 * x2 * y1 * y1 * y2 * y2, d * x2 * y1, y2);
    ring::assoc(d * d * x1 * x1 * x2 * x2 * y1 * y1 * y2 * y2, d * x2, y1);
    ring::assoc(d * d * x1 * x1 * x2 * x2 * y1 * y1 * y2 * y2, d, x2);
    ring::swap(d * d * d * x1 * x1 * x2 * x2 * y1 * y1 * y2, y2, x2);
    ring::swap(d * d * d * x1 * x1 * x2 * x2 * y1 * y1, y2, x2);
    ring::swap(d * d * d * x1 * x1 * x2 * x2 * y1, y1, x2);
    assert(2 * ((x1 * y2 + y1 * x2) * (1 - d * (x1 * x2 * (y1 * y2))) * (d * (x1 * x2 * (y1 * y2)))) + (y1 * y2 + x1 * x2) * (1 + d * (x1 * x2 * (y1 * y2))) * (d * (x1 * y1 * (x2 * x2 + y2 * y2))) - (1 - d * (x1 * x2 * (y1 * y2)) * (d * (x1 * x2 * (y1 * y2)))) * (d * (x2 * y2) * (x1 * x2 - y1 * y2)) - d * ((x1 * y2 + y1 * x2) * (y1 * y2 + x1 * x2)) * (y1 * y2 + x1 * x2) == d * (x2 * y2) * (x1 * x2 - y1 * y2) * (y1 * y1 - x1 * x1 - 1 - d * (x1 * x1 * (y1 * y1)) - d * (x1 * x1 * (y1 * y1)) * (y2 * y2 - x2 * x2 - 1 - d * (x2 * x2 * (y2 * y2)))));
}

/// Numerator of `x` in `P + (Q + R)`.
pub proof fn lemma_assoc_right_numerator(d: int, x1: int, y1: int, x2: int, y2: int, s: int, t: int)
    ensures
        (x2 * t + y2 * s) * (1 - d * (x2 * y2) * (s * t)) * y1 + (y2 * t + x2 * s) * (1 + d * (x2 * y2) * (s * t)) * x1 == (x1 * y2 + y1 * x2) * t + (y1 * y2 + x1 * x2) * s + d * (x2 * y2) * (s * t) * ((x1 * y2 - y1 * x2) * t + (x1 * x2 - y1 * y2) * s),
{
    lemma_mul_is_commutative(x2, t);
    lemma_mul_is_commutative(y2, s);
    ring::assoc(d, x2, y2);
    ring::assoc(d * x2 * y2, s, t);
    ring::swap(d * x2, y2, s);
    ring::swap(d, x2, s);
    ring::swap(d * s * x2, y2, t);
    ring::swap(d * s, x2, t);
    ring::lin2(x2 * t + y2 * s, 1 - d * (x2 * y2) * (s * t), 1, s * y2, 1, t * x2);
    ring::lin2(1 - d * (x2 * y2) * (s * t), s * y2, 1, 1, -1, d * s * t * x2 * y2);
    ring::assoc(d * s * t * x2 * y2, s, y2);
    ring::swap(d * s * t * x2, y2, s);
    ring::swap(d * s * t, x2, s);
    ring::swap(d * s, t, s);
    ring::lin2(1 - d * (x2 * y2) * (s * t), t * x2, 1, 1, -1, d * s * t * x2 * y2);
    ring::assoc(d * s * t * x2 * y2, t, x2);
    ring::swap(d * s * t * x2, y2, t);
    ring::swap(d * s * t, x2, t);
    ring::swap(d * s * t * t * x2, y2, x2);
    ring::lin4((x2 * t + y2 * s) * (1 - d * (x2 * y2) * (s * t)), y1, 1, s * y2, 1, t * x2, -1, d * s * s * t * x2 * y2 * y2, -1, d * s * t * t * x2 * x2 * y2);
    ring::assoc(y1, s, y2);
    lemma_mul_is_commutative(y1, s);
    ring::assoc(y1, t, x2);
    lemma_mul_is_commutative(y1, t);
    ring::swap(t, y1, x2);
    ring::assoc(y1, d * s * s * t * x2 * y2, y2);
    ring::assoc(y1, d * s * s * t * x2, y2);
    ring::assoc(y1, d * s * s * t, x2);
    ring::assoc(y1, d * s * s, t);
    ring::assoc(y1, d * s, s);
    ring::assoc(y1, d, s);
    lemma_mul_is_commutative(y1, d);
    ring::swap(d, y1, s);
    ring::swap(d * s, y1, s);
    ring::swap(d * s * s, y1, t);
    ring::swap(d * s * s * t, y1, x2);
    ring::assoc(y1, d * s * t * t * x2 * x2, y2);
    ring::assoc(y1, d * s * t * t * x2, x2);
    ring::assoc(y1, d * s * t * t, x2);
    ring::assoc(y1, d * s * t, t);
    ring::assoc(y1, d * s, t);
    ring::swap(d * s, y1, t);
    ring::swap(d * s * t, y1, t);
    ring::swap(d * s * t * t, y1, x2);
    ring::swap(d * s * t * t * x2, y1, x2);
    lemma_mul_is_commutative(y2, t);
    lemma_mul_is_commutative(x2, s);
    ring::lin2(y2 * t + x2 * s, 1 + d * (x2 * y2) * (s * t), 1, s * x2, 1, t * y2);
    ring::lin2(1 + d * (x2 * y2) * (s * t), s * x2, 1, 1, 1, d * s * t * x2 * y2);
    ring::assoc(d * s * t * x2 * y2, s, x2);
    ring::swap(d * s * s * t * x2, y2, x2);
    ring::lin2(1 + d * (x2 * y2) * (s * t), t * y2, 1, 1, 1, d * s * t * x2 * y2);
    ring::assoc(d * s * t * x2 * y2, t, y2);
    ring::lin4((y2 * t + x2 * s) * (1 + d * (x2 * y2) * (s * t)), x1, 1, s * x2, 1, t * y2, 1, d * s * s * t * x2 * x2 * y2, 1, d * s * t * t * x2 * y2 * y2);
    ring::assoc(x1, s, x2);
    lemma_mul_is_commutative(x1, s);
    ring::assoc(x1, t, y2);
    lemma_mul_is_commutative(x1, t);
    ring::assoc(x1, d * s * s * t * x2 * x2, y2);
    ring::assoc(x1, d * s * s * t * x2, x2);
    ring::assoc(x1, d * s * s * t, x2);
    ring::assoc(x1, d * s * s, t);
    ring::assoc(x1, d * s, s);
    ring::assoc(x1, d, s);
    lemma_mul_is_commutative(x1, d);
    ring::swap(d, x1, s);
    ring::swap(d * s, x1, s);
    ring::swap(d * s * s, x1, t);
    ring::assoc(x1, d * s * t * t * x2 * y2, y2);
    ring::assoc(x1, d * s * t * t * x2, y2);
    ring::assoc(x1, d * s * t * t, x2);
    ring::assoc(x1, d * s * t, t);
    ring::assoc(x1, d * s, t);
    ring::swap(d * s, x1, t);
    ring::swap(d * s * t, x1, t);
    lemma_mul_is_commutative(y1, x2);
    ring::lin2(x1 * y2 + y1 * x2, t, 1, x1 * y2, 1, x2 * y1);
    ring::assoc(t, x1, y2);
    ring::assoc(t, x2, y1);
    ring::lin2(y1 * y2 + x1 * x2, s, 1, x1 * x2, 1, y1 * y2);
    ring::assoc(s, x1, x2);
    ring::assoc(s, y1, y2);
    ring::lin2(x1 * y2 - y1 * x2, t, 1, x1 * y2, -1, x2 * y1);
    ring::lin2(x1 * x2 - y1 * y2, s, 1, x1 * x2, -1, y1 * y2);
    ring::lin1(d * (x2 * y2) * (s * t), (x1 * y2 - y1 * x2) * t + (x1 * x2 - y1 * y2) * s, 1, d * s * t * x2 * y2);
    ring::lin4((x1 * y2 - y1 * x2) * t + (x1 * x2 - y1 * y2) * s, d * s * t * x2 * y2, 1, s * x1 * x2, -1, s * y1 * y2, 1, t * x1 * y2, -1, t * x2 * y1);
    ring::assoc(s * x1 * x2, d * s * t * x2, y2);
    ring::assoc(s * x1 * x2, d * s * t, x2);
    ring::assoc(s * x1 * x2, d * s, t);
    ring::assoc(s * x1 * x2, d, s);
    ring::swap(s * x1, x2, d);
    ring::swap(s, x1, d);
    lemma_mul_is_commutative(s, d);
    ring::swap(d * s * x1, x2, s);
    ring::swap(d * s * s * x1, x2, t);
    ring::assoc(s * y1 * y2, d * s * t * x2, y2);
    ring::assoc(s * y1 * y2, d * s * t, x2);
    ring::assoc(s * y1 * y2, d * s, t);
    ring::assoc(s * y1 * y2, d, s);
    ring::swap(s * y1, y2, d);
    ring::swap(s, y1, d);
    ring::swap(d * s * y1, y2, s);
    ring::swap(d * s * s * y1, y2, t);
    ring::swap(d * s * s * t * y1, y2, x2);
    ring::assoc(t * x1 * y2, d * s * t * x2, y2);
    ring::assoc(t * x1 * y2, d * s * t, x2);
    ring::assoc(t * x1 * y2, d * s, t);
    ring::assoc(t * x1 * y2, d, s);
    ring::swap(t * x1, y2, d);
    ring::swap(t, x1, d);
    lemma_mul_is_commutative(t, d);
    ring::swap(d * t * x1, y2, s);
    ring::swap(d * t, x1, s);
    ring::swap(d, t, s);
    ring::swap(d * s * t * x1, y2, t);
    ring::swap(d * s * t * t * x1, y2, x2);
    ring::assoc(t * x2 * y1, d * s * t * x2, y2);
    ring::assoc(t * x2 * y1, d * s * t, x2);
    ring::assoc(t * x2 * y1, d * s, t);
    ring::assoc(t * x2 * y1, d, s);
    ring::swap(t * x2, y1, d);
    ring::swap(t, x2, d);
    ring::swap(d * t * x2, y1, s);
    ring::swap(d * t, x2, s);
    ring::swap(d * s * t * x2, y1, t);
    assert((x2 * t + y2 * s) * (1 - d * (x2 * y2) * (s * t)) * y1 + (y2 * t + x2 * s) * (1 + d * (x2 * y2) * (s * t)) * x1 == (x1 * y2 + y1 * x2) * t + (y1 * y2 + x1 * x2) * s + d * (x2 * y2) * (s * t) * ((x1 * y2 - y1 * x2) * t + (x1 * x2 - y1 * y2) * s));
}

/// Denominator of `x` in `P + (Q + R)`.
pub proof fn lemma_assoc_right_denominator(d: int, x1: int, y1: int, x2: int, y2: int, s: int, t: int)
    ensures
        (1 + d * (x2 * y2) * (s * t)) * (1 - d * (x2 * y2) * (s * t)) + d * ((x2 * t + y2 * s) * (y2 * t + x2 * s)) * (x1 * y1) == 1 + d * (x2 * x2 * (y2 * y2)) + (d * (x1 * x2 * (y1 * y2)) - d * (x2 * x2 * (y2 * y2))) * (t * t) + (d * (x1 * x2 * (y1 * y2)) + d * (x2 * x2 * (y2 * y2))) * (s * s) + d * (x1 * y1 * (x2 * x2 + y2 * y2)) * (s * t) + d * (x2 * x2 * (y2 * y2)) * curve_eq(d, s, t),
{
    ring::assoc(d, x2, y2);
    ring::assoc(d * x2 * y2, s, t);
    ring::swap(d * x2, y2, s);
    ring::swap(d, x2, s);
    ring::swap(d * s * x2, y2, t);
    ring::swap(d * s, x2, t);
    ring::lin2(1 + d * (x2 * y2) * (s * t), 1 - d * (x2 * y2) * (s * t), 1, 1, 1, d * s * t * x2 * y2);
    ring::lin2(1 - d * (x2 * y2) * (s * t), 1, 1, 1, -1, d * s * t * x2 * y2);
    ring::lin2(1 - d * (x2 * y2) * (s * t), d * s * t * x2 * y2, 1, 1, -1, d * s * t * x2 * y2);
    ring::assoc(d * s * t * x2 * y2, d * s * t * x2, y2);
    ring::assoc(d * s * t * x2 * y2, d * s * t, x2);
    ring::assoc(d * s * t * x2 * y2, d * s, t);
    ring::assoc(d * s * t * x2 * y2, d, s);
    ring::swap(d * s * t * x2, y2, d);
    ring::swap(d * s * t, x2, d);
    ring::swap(d * s, t, d);
    ring::swap(d, s, d);
    ring::swap(d * d * s * t * x2, y2, s);
    ring::swap(d * d * s * t, x2, s);
    ring::swap(d * d * s, t, s);
    ring::swap(d * d * s * s * t * x2, y2, t);
    ring::swap(d * d * s * s * t, x2, t);
    ring::swap(d * d * s * s * t * t * x2, y2, x2);
    lemma_mul_is_commutative(x2, t);
    lemma_mul_is_commutative(y2, s);
    lemma_mul_is_commutative(y2, t);
    lemma_mul_is_commutative(x2, s);
    ring::lin2(x2 * t + y2 * s, y2 * t + x2 * s, 1, s * y2, 1, t * x2);
    ring::lin2(y2 * t + x2 * s, s * y2, 1, s * x2, 1, t * y2);
    ring::assoc(s * x2, s, y2);
    ring::swap(s, x2, s);
    ring::assoc(t * y2, s, y2);
    ring::swap(t, y2, s);
    lemma_mul_is_commutative(t, s);
    ring::lin2(y2 * t + x2 * s, t * x2, 1, s * x2, 1, t * y2);
    ring::assoc(s * x2, t, x2);
    ring::swap(s, x2, t);
    ring::assoc(t * y2, t, x2);
    ring::swap(t, y2, t);
    ring::swap(t * t, y2, x2);
    ring::lin4((x2 * t + y2 * s) * (y2 * t + x2 * s), d, 1, s * s * x2 * y2, 1, s * t * x2 * x2, 1, s * t * y2 * y2, 1, t * t * x2 * y2);
    ring::swap(s * s * x2, y2, d);
    ring::swap(s * s, x2, d);
    ring::swap(s, s, d);
    lemma_mul_is_commutative(s, d);
    ring::swap(s * t * x2, x2, d);
    ring::swap(s * t, x2, d);
    ring::swap(s, t, d);
    ring::swap(s * t * y2, y2, d);
    ring::swap(s * t, y2, d);
    ring::swap(t * t * x2, y2, d);
    ring::swap(t * t, x2, d);
    ring::swap(t, t, d);
    lemma_mul_is_commutative(t, d);
    ring::lin4(d * ((x2 * t + y2 * s) * (y2 * t + x2 * s)), x1 * y1, 1, d * s * s * x2 * y2, 1, d * s * t * x2 * x2, 1, d * s * t * y2 * y2, 1, d * t * t * x2 * y2);
    ring::assoc(x1 * y1, d * s * s * x2, y2);
    ring::assoc(x1 * y1, d * s * s, x2);
    ring::assoc(x1 * y1, d * s, s);
    ring::assoc(x1 * y1, d, s);
    ring::swap(x1, y1, d);
    lemma_mul_is_commutative(x1, d);
    ring::swap(d * x1, y1, s);
    ring::swap(d, x1, s);
    ring::swap(d * s * x1, y1, s);
    ring::swap(d * s, x1, s);
    ring::swap(d * s * s * x1, y1, x2);
    ring::assoc(x1 * y1, d * s * t * x2, x2);
    ring::assoc(x1 * y1, d * s * t, x2);
    ring::assoc(x1 * y1, d * s, t);
    ring::swap(d * s * x1, y1, t);
    ring::swap(d * s, x1, t);
    ring::swap(d * s * t * x1, y1, x2);
    ring::swap(d * s * t * x1 * x2, y1, x2);
    ring::assoc(x1 * y1, d * s * t * y2, y2);
    ring::assoc(x1 * y1, d * s * t, y2);
    ring::assoc(x1 * y1, d * t * t * x2, y2);
    ring::assoc(x1 * y1, d * t * t, x2);
    ring::assoc(x1 * y1, d * t, t);
    ring::assoc(x1 * y1, d, t);
    ring::swap(d * x1, y1, t);
    ring::swap(d, x1, t);
    ring::swap(d * t * x1, y1, t);
    ring::swap(d * t, x1, t);
    ring::swap(d * t * t * x1, y1, x2);
    ring::assoc(x2 * x2, y2, y2);
    ring::assoc(d, x2 * x2 * y2, y2);
    ring::assoc(d, x2 * x2, y2);
    ring::assoc(d, x2, x2);
    ring::assoc(x1 * x2, y1, y2);
    ring::assoc(d, x1 * x2 * y1, y2);
    ring::assoc(d, x1 * x2, y1);
    ring::assoc(d, x1, x2);
    ring::lin2(d * (x1 * x2 * (y1 * y2)) - d * (x2 * x2 * (y2 * y2)), t * t, 1, d * x1 * x2 * y1 * y2, -1, d * x2 * x2 * y2 * y2);
    ring::assoc(t * t, d * x1 * x2 * y1, y2);
    ring::assoc(t * t, d * x1 * x2, y1);
    ring::assoc(t * t, d * x1, x2);
    ring::assoc(t * t, d, x1);
    ring::assoc(t * t, d * x2 * x2 * y2, y2);
    ring::assoc(t * t, d * x2 * x2, y2);
    ring::assoc(t * t, d * x2, x2);
    ring::assoc(t * t, d, x2);
    ring::lin2(d * (x1 * x2 * (y1 * y2)) + d * (x2 * x2 * (y2 * y2)), s * s, 1, d * x1 * x2 * y1 * y2, 1, d * x2 * x2 * y2 * y2);
    ring::assoc(s * s, d * x1 * x2 * y1, y2);
    ring::assoc(s * s, d * x1 * x2, y1);
    ring::assoc(s * s, d * x1, x2);
    ring::assoc(s * s, d, x1);
    ring::assoc(s * s, d * x2 * x2 * y2, y2);
    ring::assoc(s * s, d * x2 * x2, y2);
    ring::assoc(s * s, d * x2, x2);
    ring::assoc(s * s, d, x2);
    ring::lin2(x2 * x2 + y2 * y2, x1 * y1, 1, x2 * x2, 1, y2 * y2);
    ring::assoc(x2 * x2, x1, y1);
    ring::swap(x2, x2, x1);
    lemma_mul_is_commutative(x2, x1);
    ring::assoc(y2 * y2, x1, y1);
    ring::swap(y2, y2, x1);
    lemma_mul_is_commutative(y2, x1);
    ring::swap(x1 * y2, y2, y1);
    ring::swap(x1, y2, y1);
    ring::lin2(x1 * y1 * (x2 * x2 + y2 * y2), d, 1, x1 * x2 * x2 * y1, 1, x1 * y1 * y2 * y2);
    ring::swap(x1 * x2 * x2, y1, d);
    ring::swap(x1 * x2, x2, d);
    ring::swap(x1, x2, d);
    ring::swap(x1 * y1 * y2, y2, d);
    ring::swap(x1 * y1, y2, d);
    ring::lin2(d * (x1 * y1 * (x2 * x2 + y2 * y2)), s * t, 1, d * x1 * x2 * x2 * y1, 1, d * x1 * y1 * y2 * y2);
    ring::assoc(s * t, d * x1 * x2 * x2, y1);
    ring::assoc(s * t, d * x1 * x2, x2);
    ring::assoc(s * t, d * x1, x2);
    ring::assoc(s * t, d, x1);
    ring::assoc(s * t, d * x1 * y1 * y2, y2);
    ring::assoc(s * t, d * x1 * y1, y2);
    ring::assoc(s * t, d * x1, y1);
    ring::assoc(s * s, t, t);
    ring::assoc(d, s * s * t, t);
    ring::assoc(d, s * s, t);
    ring::assoc(d, s, s);
    ring::lin1(d * (x2 * x2 * (y2 * y2)), t * t - s * s - 1 - d * (s * s * (t * t)), 1, d * x2 * x2 * y2 * y2);
    ring::lin4(t * t - s * s - 1 - d * (s * s * (t * t)), d * x2 * x2 * y2 * y2, -1, 1, -1, s * s, 1, t * t, -1, d * s * s * t * t);
    ring::assoc(d * s * s * t * t, d * x2 * x2 * y2, y2);
    ring::assoc(d * s * s * t * t, d * x2 * x2, y2);
    ring::assoc(d * s * s * t * t, d * x2, x2);
    ring::assoc(d * s * s * t * t, d, x2);
    ring::swap(d * s * s * t, t, d);
    ring::swap(d * s * s, t, d);
    ring::swap(d * s, s, d);
    assert((1 + d * (x2 * y2) * (s * t)) * (1 - d * (x2 * y2) * (s * t)) + d * ((x2 * t + y2 * s) * (y2 * t + x2 * s)) * (x1 * y1) == 1 + d * (x2 * x2 * (y2 * y2)) + (d * (x1 * x2 * (y1 * y2)) - d * (x2 * x2 * (y2 * y2))) * (t * t) + (d * (x1 * x2 * (y1 * y2)) + d * (x2 * x2 * (y2 * y2))) * (s * s) + d * (x1 * y1 * (x2 * x2 + y2 * y2)) * (s * t) + d * (x2 * x2 * (y2 * y2)) * (t * t - s * s - 1 - d * (s * s * (t * t))));
}

/// Cross-multiplied difference of both sides, collected by the coefficient relations.
pub proof fn lemma_assoc_cross(g: int, A: int, B: int, C: int, D: int, w: int, v: int, k: int, m: int, s: int, t: int)
    ensures
        (A * (1 - w) * t + B * (1 + w) * s) * (1 + v + (w - v) * (t * t) + (w + v) * (s * s) + m * (s * t)) - (A * t + B * s + k * (s * t) * (C * t + D * s)) * (1 - w * w + g * (A * B) * (s * t)) == (1 + s * s - t * t) * (A * ((1 - w) * (v - w) + k * (B * C)) * t + B * ((1 + w) * (v + w) + k * (A * D)) * s) + s * t * ((A * (1 - w) * m + 2 * (B * w * (1 + w)) - (1 - w * w) * (k * C) - g * (A * B) * A) * t + (2 * (A * (1 - w) * w) + B * (1 + w) * m - (1 - w * w) * (k * D) - g * (A * B) * B) * s) + A * B * k * curve_eq(g, s, t) * (C * t + D * s),
{
    ring::lin2(1 - w, A, 1, 1, -1, w);
    lemma_mul_is_commutative(w, A);
    ring::lin2(A * (1 - w), t, 1, A, -1, A * w);
    lemma_mul_is_commutative(t, A);
    ring::assoc(t, A, w);
    ring::lin2(1 + w, B, 1, 1, 1, w);
    lemma_mul_is_commutative(w, B);
    ring::lin2(B * (1 + w), s, 1, B, 1, B * w);
    lemma_mul_is_commutative(s, B);
    ring::assoc(s, B, w);
    ring::lin2(w - v, t * t, -1, v, 1, w);
    ring::lin2(w + v, s * s, 1, v, 1, w);
    ring::assoc(m, s, t);
    ring::lin4(A * (1 - w) * t + B * (1 + w) * s, 1 + v + (w - v) * (t * t) + (w + v) * (s * s) + m * (s * t), 1, A * t, 1, B * s, -1, A * t * w, 1, B * s * w);
    ring::lin7(1 + v + (w - v) * (t * t) + (w + v) * (s * s) + m * (s * t), A * t, 1, 1, 1, v, 1, m * s * t, 1, s * s * v, 1, s * s * w, -1, t * t * v, 1, t * t * w);
    ring::assoc(v, A, t);
    lemma_mul_is_commutative(v, A);
    ring::swap(A, v, t);
    ring::assoc(m * s * t, A, t);
    ring::swap(m * s, t, A);
    ring::swap(m, s, A);
    lemma_mul_is_commutative(m, A);
    ring::assoc(s * s * v, A, t);
    ring::swap(s * s, v, A);
    ring::swap(s, s, A);
    lemma_mul_is_commutative(s, A);
    ring::swap(A * s * s, v, t);
    ring::assoc(s * s * w, A, t);
    ring::swap(s * s, w, A);
    ring::swap(A * s * s, w, t);
    ring::assoc(t * t * v, A, t);
    ring::swap(t * t, v, A);
    ring::swap(t, t, A);
    ring::swap(A * t * t, v, t);
    ring::assoc(t * t * w, A, t);
    ring::swap(t * t, w, A);
    ring::swap(A * t * t, w, t);
    ring::lin7(1 + v + (w - v) * (t * t) + (w + v) * (s * s) + m * (s * t), B * s, 1, 1, 1, v, 1, m * s * t, 1, s * s * v, 1, s * s * w, -1, t * t * v, 1, t * t * w);
    ring::assoc(v, B, s);
    lemma_mul_is_commutative(v, B);
    ring::swap(B, v, s);
    ring::assoc(m * s * t, B, s);
    ring::swap(m * s, t, B);
    ring::swap(m, s, B);
    lemma_mul_is_commutative(m, B);
    ring::swap(B * m * s, t, s);
    ring::assoc(s * s * v, B, s);
    ring::swap(s * s, v, B);
    ring::swap(s, s, B);
    ring::swap(B * s * s, v, s);
    ring::assoc(s * s * w, B, s);
    ring::swap(s * s, w, B);
    ring::swap(B * s * s, w, s);
    ring::assoc(t * t * v, B, s);
    ring::swap(t * t, v, B);
    ring::swap(t, t, B);
    lemma_mul_is_commutative(t, B);
    ring::swap(B * t * t, v, s);
    ring::swap(B * t, t, s);
    ring::swap(B, t, s);
    ring::assoc(t * t * w, B, s);
    ring::swap(t * t, w, B);
    ring::swap(B * t * t, w, s);
    ring::lin7(1 + v + (w - v) * (t * t) + (w + v) * (s * s) + m * (s * t), A * t * w, 1, 1, 1, v, 1, m * s * t, 1, s * s * v, 1, s * s * w, -1, t * t * v, 1, t * t * w);
    ring::assoc(v, A * t, w);
    ring::assoc(m * s * t, A * t, w);
    ring::assoc(s * s * v, A * t, w);
    ring::assoc(s * s * w, A * t, w);
    ring::assoc(t * t * v, A * t, w);
    ring::assoc(t * t * w, A * t, w);
    ring::lin7(1 + v + (w - v) * (t * t) + (w + v) * (s * s) + m * (s * t), B * s * w, 1, 1, 1, v, 1, m * s * t, 1, s * s * v, 1, s * s * w, -1, t * t * v, 1, t * t * w);
    ring::assoc(v, B * s, w);
    ring::assoc(m * s * t, B * s, w);
    ring::assoc(s * s * v, B * s, w);
    ring::assoc(s * s * w, B * s, w);
    ring::assoc(t * t * v, B * s, w);
    ring::assoc(t * t * w, B * s, w);
    ring::assoc(k, s, t);
    ring::lin1(k * (s * t), C * t + D * s, 1, k * s * t);
    ring::lin2(C * t + D * s, k * s * t, 1, C * t, 1, D * s);
    ring::assoc(C * t, k * s, t);
    ring::assoc(C * t, k, s);
    ring::swap(C, t, k);
    ring::swap(C * k, t, s);
    ring::assoc(D * s, k * s, t);
    ring::assoc(D * s, k, s);
    ring::swap(D, s, k);
    ring::assoc(g, A, B);
    lemma_mul_is_commutative(g, A);
    ring::swap(A, g, B);
    ring::assoc(A * B * g, s, t);
    ring::lin4(A * t + B * s + k * (s * t) * (C * t + D * s), 1 - w * w + g * (A * B) * (s * t), 1, A * t, 1, B * s, 1, C * k * s * t * t, 1, D * k * s * s * t);
    ring::lin3(1 - w * w + g * (A * B) * (s * t), A * t, 1, 1, -1, w * w, 1, A * B * g * s * t);
    ring::assoc(w * w, A, t);
    ring::swap(w, w, A);
    ring::swap(A * w, w, t);
    ring::swap(A, w, t);
    ring::assoc(A * B * g * s * t, A, t);
    ring::swap(A * B * g * s, t, A);
    ring::swap(A * B * g, s, A);
    ring::swap(A * B, g, A);
    ring::swap(A, B, A);
    ring::lin3(1 - w * w + g * (A * B) * (s * t), B * s, 1, 1, -1, w * w, 1, A * B * g * s * t);
    ring::assoc(w * w, B, s);
    ring::swap(w, w, B);
    ring::swap(B * w, w, s);
    ring::swap(B, w, s);
    ring::assoc(A * B * g * s * t, B, s);
    ring::swap(A * B * g * s, t, B);
    ring::swap(A * B * g, s, B);
    ring::swap(A * B, g, B);
    ring::swap(A * B * B * g * s, t, s);
    ring::lin3(1 - w * w + g * (A * B) * (s * t), C * k * s * t * t, 1, 1, -1, w * w, 1, A * B * g * s * t);
    ring::assoc(w * w, C * k * s * t, t);
    ring::assoc(w * w, C * k * s, t);
    ring::assoc(w * w, C * k, s);
    ring::assoc(w * w, C, k);
    ring::swap(w, w, C);
    lemma_mul_is_commutative(w, C);
    ring::swap(C * w, w, k);
    ring::swap(C, w, k);
    ring::swap(C * k * w, w, s);
    ring::swap(C * k, w, s);
    ring::swap(C * k * s * w, w, t);
    ring::swap(C * k * s, w, t);
    ring::swap(C * k * s * t * w, w, t);
    ring::swap(C * k * s * t, w, t);
    ring::assoc(A * B * g * s * t, C * k * s * t, t);
    ring::assoc(A * B * g * s * t, C * k * s, t);
    ring::assoc(A * B * g * s * t, C * k, s);
    ring::assoc(A * B * g * s * t, C, k);
    ring::swap(A * B * g * s, t, C);
    ring::swap(A * B * g, s, C);
    ring::swap(A * B, g, C);
    ring::swap(A * B * C * g * s, t, k);
    ring::swap(A * B * C * g, s, k);
    ring::swap(A * B * C * g * k * s, t, s);
    ring::lin3(1 - w * w + g * (A * B) * (s * t), D * k * s * s * t, 1, 1, -1, w * w, 1, A * B * g * s * t);
    ring::assoc(w * w, D * k * s * s, t);
    ring::assoc(w * w, D * k * s, s);
    ring::assoc(w * w, D * k, s);
    ring::assoc(w * w, D, k);
    ring::swap(w, w, D);
    lemma_mul_is_commutative(w, D);
    ring::swap(D * w, w, k);
    ring::swap(D, w, k);
    ring::swap(D * k * w, w, s);
    ring::swap(D * k, w, s);
    ring::swap(D * k * s * w, w, s);
    ring::swap(D * k * s, w, s);
    ring::swap(D * k * s * s * w, w, t);
    ring::swap(D * k * s * s, w, t);
    ring::assoc(A * B * g * s * t, D * k * s * s, t);
    ring::assoc(A * B * g * s * t, D * k * s, s);
    ring::assoc(A * B * g * s * t, D * k, s);
    ring::assoc(A * B * g * s * t, D, k);
    ring::swap(A * B * g * s, t, D);
    ring::swap(A * B * g, s, D);
    ring::swap(A * B, g, D);
    ring::swap(A * B * D * g * s, t, k);
    ring::swap(A * B * D * g, s, k);
    ring::swap(A * B * D * g * k * s, t, s);
    ring::swap(A * B * D * g * k * s * s, t, s);
    ring::lin2(1 - w, v - w, 1, 1, -1, w);
    ring::lin2(v - w, 1, 1, v, -1, w);
    ring::lin2(v - w, w, 1, v, -1, w);
    ring::assoc(k, B, C);
    lemma_mul_is_commutative(k, B);
    ring::swap(B, k, C);
    ring::lin5((1 - w) * (v - w) + k * (B * C), A, 1, v, -1, w, -1, v * w, 1, w * w, 1, B * C * k);
    ring::swap(v, w, A);
    ring::swap(B * C, k, A);
    ring::swap(B, C, A);
    lemma_mul_is_commutative(B, A);
    ring::lin5(A * ((1 - w) * (v - w) + k * (B * C)), t, 1, A * v, -1, A * w, -1, A * v * w, 1, A * w * w, 1, A * B * C * k);
    ring::assoc(t, A, v);
    ring::assoc(t, A * v, w);
    ring::assoc(t, A * w, w);
    ring::assoc(t, A * B * C, k);
    ring::assoc(t, A * B, C);
    ring::assoc(t, A, B);
    ring::swap(A, t, B);
    ring::swap(A * B, t, C);
    ring::swap(A * B * C, t, k);
    ring::lin2(1 + w, v + w, 1, 1, 1, w);
    ring::lin2(v + w, 1, 1, v, 1, w);
    ring::lin2(v + w, w, 1, v, 1, w);
    ring::assoc(k, A, D);
    lemma_mul_is_commutative(k, A);
    ring::swap(A, k, D);
    ring::lin5((1 + w) * (v + w) + k * (A * D), B, 1, v, 1, w, 1, v * w, 1, w * w, 1, A * D * k);
    ring::swap(v, w, B);
    ring::swap(A * D, k, B);
    ring::swap(A, D, B);
    ring::lin5(B * ((1 + w) * (v + w) + k * (A * D)), s, 1, B * v, 1, B * w, 1, B * v * w, 1, B * w * w, 1, A * B * D * k);
    ring::assoc(s, B, v);
    ring::assoc(s, B * v, w);
    ring::assoc(s, B * w, w);
    ring::assoc(s, A * B * D, k);
    ring::assoc(s, A * B, D);
    ring::assoc(s, A, B);
    ring::swap(A, s, B);
    ring::swap(A * B, s, D);
    ring::swap(A * B * D, s, k);
    ring::lin3(1 + s * s - t * t, A * ((1 - w) * (v - w) + k * (B * C)) * t + B * ((1 + w) * (v + w) + k * (A * D)) * s, 1, 1, 1, s * s, -1, t * t);
    ring::lin10(A * ((1 - w) * (v - w) + k * (B * C)) * t + B * ((1 + w) * (v + w) + k * (A * D)) * s, 1, 1, A * t * v, -1, A * t * w, 1, B * s * v, 1, B * s * w, -1, A * t * v * w, 1, A * t * w * w, 1, B * s * v * w, 1, B * s * w * w, 1, A * B * C * k * t, 1, A * B * D * k * s);
    ring::lin10(A * ((1 - w) * (v - w) + k * (B * C)) * t + B * ((1 + w) * (v + w) + k * (A * D)) * s, s * s, 1, A * t * v, -1, A * t * w, 1, B * s * v, 1, B * s * w, -1, A * t * v * w, 1, A * t * w * w, 1, B * s * v * w, 1, B * s * w * w, 1, A * B * C * k * t, 1, A * B * D * k * s);
    ring::assoc(A * t * v, s, s);
    ring::swap(A * t, v, s);
    ring::swap(A, t, s);
    ring::swap(A * s * t, v, s);
    ring::swap(A * s, t, s);
    ring::assoc(A * t * w, s, s);
    ring::swap(A * t, w, s);
    ring::swap(A * s * t, w, s);
    ring::assoc(B * s * v, s, s);
    ring::swap(B * s, v, s);
    ring::assoc(B * s * w, s, s);
    ring::swap(B * s, w, s);
    ring::assoc(A * t * v * w, s, s);
    ring::swap(A * t * v, w, s);
    ring::swap(A * s * t * v, w, s);
    ring::assoc(A * t * w * w, s, s);
    ring::swap(A * t * w, w, s);
    ring::swap(A * s * t * w, w, s);
    ring::assoc(B * s * v * w, s, s);
    ring::swap(B * s * v, w, s);
    ring::swap(B * s * s * v, w, s);
    ring::assoc(B * s * w * w, s, s);
    ring::swap(B * s * w, w, s);
    ring::swap(B * s * s * w, w, s);
    ring::assoc(A * B * C * k * t, s, s);
    ring::swap(A * B * C * k, t, s);
    ring::swap(A * B * C * k * s, t, s);
    ring::assoc(A * B * D * k * s, s, s);
    ring::lin10(A * ((1 - w) * (v - w) + k * (B * C)) * t + B * ((1 + w) * (v + w) + k * (A * D)) * s, t * t, 1, A * t * v, -1, A * t * w, 1, B * s * v, 1, B * s * w, -1, A * t * v * w, 1, A * t * w * w, 1, B * s * v * w, 1, B * s * w * w, 1, A * B * C * k * t, 1, A * B * D * k * s);
    ring::assoc(A * t * v, t, t);
    ring::swap(A * t, v, t);
    ring::assoc(A * t * w, t, t);
    ring::swap(A * t, w, t);
    ring::assoc(B * s * v, t, t);
    ring::swap(B * s, v, t);
    ring::swap(B * s * t, v, t);
    ring::assoc(B * s * w, t, t);
    ring::swap(B * s, w, t);
    ring::swap(B * s * t, w, t);
    ring::assoc(A * t * v * w, t, t);
    ring::swap(A * t * v, w, t);
    ring::swap(A * t * t * v, w, t);
    ring::assoc(A * t * w * w, t, t);
    ring::swap(A * t * w, w, t);
    ring::swap(A * t * t * w, w, t);
    ring::assoc(B * s * v * w, t, t);
    ring::swap(B * s * v, w, t);
    ring::swap(B * s * t * v, w, t);
    ring::assoc(B * s * w * w, t, t);
    ring::swap(B * s * w, w, t);
    ring::swap(B * s * t * w, w, t);
    ring::assoc(A * B * C * k * t, t, t);
    ring::assoc(A * B * D * k * s, t, t);
    ring::lin2(A * (1 - w), m, 1, A, -1, A * w);
    ring::assoc(m, A, w);
    ring::lin2(1 + w, B * w, 1, 1, 1, w);
    ring::assoc(w, B, w);
    lemma_mul_is_commutative(k, C);
    ring::lin2(1 - w * w, k * C, 1, 1, -1, w * w);
    ring::lin1(k * C, 1, 1, C * k);
    ring::lin1(k * C, w * w, 1, C * k);
    ring::assoc(C * k, w, w);
    ring::lin7(A * (1 - w) * m + 2 * (B * w * (1 + w)) - (1 - w * w) * (k * C) - g * (A * B) * A, t, 1, A * m, 2, B * w, -1, C * k, -1, A * m * w, 2, B * w * w, -1, A * A * B * g, 1, C * k * w * w);
    ring::assoc(t, A, m);
    ring::swap(A, t, m);
    ring::assoc(t, B, w);
    ring::assoc(t, C, k);
    lemma_mul_is_commutative(t, C);
    ring::assoc(t, A * m, w);
    ring::assoc(t, B * w, w);
    ring::assoc(t, A * A * B, g);
    ring::assoc(t, A * A, B);
    ring::assoc(t, A, A);
    ring::swap(A, t, A);
    ring::swap(A * A, t, B);
    ring::swap(A * A * B, t, g);
    ring::assoc(t, C * k * w, w);
    ring::assoc(t, C * k, w);
    ring::lin2(A * (1 - w), w, 1, A, -1, A * w);
    ring::assoc(w, A, w);
    ring::lin2(B * (1 + w), m, 1, B, 1, B * w);
    ring::assoc(m, B, w);
    lemma_mul_is_commutative(k, D);
    ring::lin2(1 - w * w, k * D, 1, 1, -1, w * w);
    ring::lin1(k * D, 1, 1, D * k);
    ring::lin1(k * D, w * w, 1, D * k);
    ring::assoc(D * k, w, w);
    ring::lin7(2 * (A * (1 - w) * w) + B * (1 + w) * m - (1 - w * w) * (k * D) - g * (A * B) * B, s, 2, A * w, 1, B * m, -1, D * k, -2, A * w * w, 1, B * m * w, -1, A * B * B * g, 1, D * k * w * w);
    ring::assoc(s, A, w);
    ring::assoc(s, B, m);
    ring::swap(B, s, m);
    ring::assoc(s, D, k);
    lemma_mul_is_commutative(s, D);
    ring::assoc(s, A * w, w);
    ring::assoc(s, B * m, w);
    ring::assoc(s, A * B * B, g);
    ring::assoc(s, A * B, B);
    ring::swap(A * B, s, B);
    ring::swap(A * B * B, s, g);
    ring::assoc(s, D * k * w, w);
    ring::assoc(s, D * k, w);
    ring::lin14((A * (1 - w) * m + 2 * (B * w * (1 + w)) - (1 - w * w) * (k * C) - g * (A * B) * A) * t + (2 * (A * (1 - w) * w) + B * (1 + w) * m - (1 - w * w) * (k * D) - g * (A * B) * B) * s, s * t, 1, A * m * t, 2, A * s * w, 1, B * m * s, 2, B * t * w, -1, C * k * t, -1, D * k * s, -1, A * m * t * w, -2, A * s * w * w, 1, B * m * s * w, 2, B * t * w * w, -1, A * A * B * g * t, -1, A * B * B * g * s, 1, C * k * t * w * w, 1, D * k * s * w * w);
    ring::assoc(A * m * t, s, t);
    ring::swap(A * m, t, s);
    ring::assoc(A * s * w, s, t);
    ring::swap(A * s, w, s);
    ring::assoc(B * m * s, s, t);
    ring::assoc(B * t * w, s, t);
    ring::swap(B * t, w, s);
    ring::assoc(C * k * t, s, t);
    ring::assoc(D * k * s, s, t);
    ring::assoc(A * m * t * w, s, t);
    ring::swap(A * m * t, w, s);
    ring::swap(A * m * s * t, w, t);
    ring::assoc(A * s * w * w, s, t);
    ring::swap(A * s * w, w, s);
    ring::swap(A * s * s * w, w, t);
    ring::assoc(B * m * s * w, s, t);
    ring::swap(B * m * s, w, s);
    ring::swap(B * m * s * s, w, t);
    ring::assoc(B * t * w * w, s, t);
    ring::swap(B * t * w, w, s);
    ring::assoc(A * A * B * g * t, s, t);
    ring::swap(A * A * B * g, t, s);
    ring::assoc(A * B * B * g * s, s, t);
    ring::assoc(C * k * t * w * w, s, t);
    ring::swap(C * k * t * w, w, s);
    ring::swap(C * k * t, w, s);
    ring::assoc(D * k * s * w * w, s, t);
    ring::assoc(s * s, t, t);
    ring::assoc(g, s * s * t, t);
    ring::assoc(g, s * s, t);
    ring::assoc(g, s, s);
    ring::lin4(t * t - s * s - 1 - g * (s * s * (t * t)), A * B * k, -1, 1, -1, s * s, 1, t * t, -1, g * s * s * t * t);
    ring::assoc(s * s, A * B, k);
    ring::assoc(s * s, A, B);
    ring::swap(A * s, s, B);
    ring::swap(A * B * s, s, k);
    ring::swap(A * B, s, k);
    ring::assoc(t * t, A * B, k);
    ring::assoc(t * t, A, B);
    ring::swap(A * t, t, B);
    ring::swap(A * B * t, t, k);
    ring::swap(A * B, t, k);
    ring::assoc(g * s * s * t * t, A * B, k);
    ring::assoc(g * s * s * t * t, A, B);
    ring::swap(g * s * s * t, t, A);
    ring::swap(g * s * s, t, A);
    ring::swap(g * s, s, A);
    ring::swap(g, s, A);
    ring::swap(A * g * s * s * t, t, B);
    ring::swap(A * g * s * s, t, B);
    ring::swap(A * g * s, s, B);
    ring::swap(A * g, s, B);
    ring::swap(A * B * g * s * s * t, t, k);
    ring::swap(A * B * g * s * s, t, k);
    ring::swap(A * B * g * s, s, k);
    ring::swap(A * B * g, s, k);
    ring::lin4(A * B * k * (t * t - s * s - 1 - g * (s * s * (t * t))), C * t + D * s, -1, A * B * k, -1, A * B * k * s * s, 1, A * B * k * t * t, -1, A * B * g * k * s * s * t * t);
    ring::lin2(C * t + D * s, A * B * k, 1, C * t, 1, D * s);
    ring::assoc(C * t, A * B, k);
    ring::assoc(C * t, A, B);
    ring::swap(C, t, A);
    lemma_mul_is_commutative(C, A);
    ring::swap(A * C, t, B);
    ring::swap(A, C, B);
    ring::assoc(D * s, A * B, k);
    ring::assoc(D * s, A, B);
    ring::swap(D, s, A);
    lemma_mul_is_commutative(D, A);
    ring::swap(A * D, s, B);
    ring::lin2(C * t + D * s, A * B * k * s * s, 1, C * t, 1, D * s);
    ring::assoc(C * t, A * B * k * s, s);
    ring::assoc(C * t, A * B * k, s);
    ring::assoc(D * s, A * B * k * s, s);
    ring::assoc(D * s, A * B * k, s);
    ring::lin2(C * t + D * s, A * B * k * t * t, 1, C * t, 1, D * s);
    ring::assoc(C * t, A * B * k * t, t);
    ring::assoc(C * t, A * B * k, t);
    ring::assoc(D * s, A * B * k * t, t);
    ring::assoc(D * s, A * B * k, t);
    ring::lin2(C * t + D * s, A * B * g * k * s * s * t * t, 1, C * t, 1, D * s);
    ring::assoc(C * t, A * B * g * k * s * s * t, t);
    ring::assoc(C * t, A * B * g * k * s * s, t);
    ring::assoc(C * t, A * B * g * k * s, s);
    ring::assoc(C * t, A * B * g * k, s);
    ring::assoc(C * t, A * B * g, k);
    ring::assoc(C * t, A * B, g);
    ring::swap(A * B * C, t, g);
    ring::swap(A * B * C * g, t, k);
    ring::swap(A * B * C * g * k, t, s);
    ring::assoc(D * s, A * B * g * k * s * s * t, t);
    ring::assoc(D * s, A * B * g * k * s * s, t);
    ring::assoc(D * s, A * B * g * k * s, s);
    ring::assoc(D * s, A * B * g * k, s);
    ring::assoc(D * s, A * B * g, k);
    ring::assoc(D * s, A * B, g);
    ring::swap(A * B * D, s, g);
    assert((A * (1 - w) * t + B * (1 + w) * s) * (1 + v + (w - v) * (t * t) + (w + v) * (s * s) + m * (s * t)) - (A * t + B * s + k * (s * t) * (C * t + D * s)) * (1 - w * w + g * (A * B) * (s * t)) == (1 + s * s - t * t) * (A * ((1 - w) * (v - w) + k * (B * C)) * t + B * ((1 + w) * (v + w) + k * (A * D)) * s) + s * t * ((A * (1 - w) * m + 2 * (B * w * (1 + w)) - (1 - w * w) * (k * C) - g * (A * B) * A) * t + (2 * (A * (1 - w) * w) + B * (1 + w) * m - (1 - w * w) * (k * D) - g * (A * B) * B) * s) + A * B * k * (t * t - s * s - 1 - g * (s * s * (t * t))) * (C * t + D * s));
}

/// Denominator of a nested sum.
pub proof fn lemma_nested_denominator(d: int, x: int, y: int, u: int, v: int, s: int, t: int)
    ensures
        u * v + d * (x * u * (y * v)) * (s * t) == u * v * (1 + d * (x * s * (y * t))),
{
    lemma_mul_is_commutative(x, u);
    lemma_mul_is_commutative(y, v);
    ring::assoc(u * x, v, y);
    ring::swap(u, x, v);
    ring::assoc(d, u * v * x, y);
    ring::assoc(d, u * v, x);
    ring::assoc(d, u, v);
    ring::assoc(d * u * v * x * y, s, t);
    ring::swap(d * u * v * x, y, s);
    ring::swap(d * u * v, x, s);
    ring::swap(d * u, v, s);
    ring::swap(d, u, s);
    ring::swap(d * s * u * v * x, y, t);
    ring::swap(d * s * u * v, x, t);
    ring::swap(d * s * u, v, t);
    ring::swap(d * s, u, t);
    lemma_mul_is_commutative(x, s);
    lemma_mul_is_commutative(y, t);
    ring::assoc(s * x, t, y);
    ring::swap(s, x, t);
    ring::assoc(d, s * t * x, y);
    ring::assoc(d, s * t, x);
    ring::assoc(d, s, t);
    ring::lin2(1 + d * (x * s * (y * t)), u * v, 1, 1, 1, d * s * t * x * y);
    ring::assoc(d * s * t * x * y, u, v);
    ring::swap(d * s * t * x, y, u);
    ring::swap(d * s * t, x, u);
    ring::swap(d * s * t * u * x, y, v);
    ring::swap(d * s * t * u, x, v);
    assert(u * v + d * (x * u * (y * v)) * (s * t) == u * v * (1 + d * (x * s * (y * t))));
}

/// Numerator of a nested sum.
pub proof fn lemma_nested_numerator(x: int, y: int, u: int, v: int, s: int, t: int)
    ensures
        x * u * v * t + y * v * u * s == u * v * (x * t + y * s),
{
    lemma_mul_is_commutative(x, u);
    ring::swap(u, x, v);
    ring::swap(u * v, x, t);
    ring::swap(u, v, t);
    lemma_mul_is_commutative(u, t);
    lemma_mul_is_commutative(y, v);
    ring::swap(v, y, u);
    lemma_mul_is_commutative(v, u);
    ring::swap(u * v, y, s);
    ring::swap(u, v, s);
    lemma_mul_is_commutative(u, s);
    lemma_mul_is_commutative(x, t);
    lemma_mul_is_commutative(y, s);
    ring::lin2(x * t + y * s, u * v, 1, s * y, 1, t * x);
    ring::assoc(s * y, u, v);
    ring::swap(s, y, u);
    ring::swap(s * u, y, v);
    ring::assoc(t * x, u, v);
    ring::swap(t, x, u);
    ring::swap(t * u, x, v);
    assert(x * u * v * t + y * v * u * s == u * v * (x * t + y * s));
}

/// Difference of squares.
pub proof fn lemma_difference_of_squares(w: int)
    ensures
        (1 + w) * (1 - w) == 1 - w * w,
{
    ring::lin2(1 + w, 1 - w, 1, 1, 1, w);
    ring::lin2(1 - w, 1, 1, 1, -1, w);
    ring::lin2(1 - w, w, 1, 1, -1, w);
    assert((1 + w) * (1 - w) == 1 - w * w);
}

/// Regroups a cross term.
pub proof fn lemma_regroup(d: int, x: int, y: int, s: int, t: int)
    ensures
        d * (x * s * (y * t)) == d * (x * y) * (s * t),
{
    lemma_mul_is_commutative(x, s);
    lemma_mul_is_commutative(y, t);
    ring::assoc(s * x, t, y);
    ring::swap(s, x, t);
    ring::assoc(d, s * t * x, y);
    ring::assoc(d, s * t, x);
    ring::assoc(d, s, t);
    ring::assoc(d, x, y);
    ring::assoc(d * x * y, s, t);
    ring::swap(d * x, y, s);
    ring::swap(d, x, s);
    ring::swap(d * s * x, y, t);
    ring::swap(d * s, x, t);
    assert(d * (x * s * (y * t)) == d * (x * y) * (s * t));
}

/// The curve equation of the rotated point.
pub proof fn lemma_rotated_curve(d: int, j: int, x: int, y: int)
    ensures
        curve_eq(d, j * y, j * x) == (j * j + 1) * (x * x - y * y - (j * j - 1) * (d * (x * x * (y * y)))) + curve_eq(d, x, y),
{
    ring::assoc(j * x, j, x);
    ring::swap(j, x, j);
    ring::assoc(j * y, j, y);
    ring::swap(j, y, j);
    ring::assoc(j * j * y * y, j * j * x, x);
    ring::assoc(j * j * y * y, j * j, x);
    ring::assoc(j * j * y * y, j, j);
    ring::swap(j * j * y, y, j);
    ring::swap(j * j, y, j);
    ring::swap(j * j * j * y, y, j);
    ring::swap(j * j * j, y, j);
    ring::swap(j * j * j * j * y, y, x);
    ring::swap(j * j * j * j, y, x);
    ring::swap(j * j * j * j * x * y, y, x);
    ring::swap(j * j * j * j * x, y, x);
    ring::assoc(d, j * j * j * j * x * x * y, y);
    ring::assoc(d, j * j * j * j * x * x, y);
    ring::assoc(d, j * j * j * j * x, x);
    ring::assoc(d, j * j * j * j, x);
    ring::assoc(d, j * j * j, j);
    ring::assoc(d, j * j, j);
    ring::assoc(d, j, j);
    ring::assoc(x * x, y, y);
    ring::assoc(d, x * x * y, y);
    ring::assoc(d, x * x, y);
    ring::assoc(d, x, x);
    ring::lin2(j * j - 1, d * (x * x * (y * y)), -1, 1, 1, j * j);
    ring::lin1(d * (x * x * (y * y)), 1, 1, d * x * x * y * y);
    ring::lin1(d * (x * x * (y * y)), j * j, 1, d * x * x * y * y);
    ring::assoc(d * x * x * y * y, j, j);
    ring::swap(d * x * x * y, y, j);
    ring::swap(d * x * x, y, j);
    ring::swap(d * x, x, j);
    ring::swap(d, x, j);
    ring::swap(d * j * x * x * y, y, j);
    ring::swap(d * j * x * x, y, j);
    ring::swap(d * j * x, x, j);
    ring::swap(d * j, x, j);
    ring::lin2(j * j + 1, x * x - y * y - (j * j - 1) * (d * (x * x * (y * y))), 1, 1, 1, j * j);
    ring::lin4(x * x - y * y - (j * j - 1) * (d * (x * x * (y * y))), 1, 1, x * x, -1, y * y, 1, d * x * x * y * y, -1, d * j * j * x * x * y * y);
    ring::lin4(x * x - y * y - (j * j - 1) * (d * (x * x * (y * y))), j * j, 1, x * x, -1, y * y, 1, d * x * x * y * y, -1, d * j * j * x * x * y * y);
    ring::assoc(x * x, j, j);
    ring::swap(x, x, j);
    lemma_mul_is_commutative(x, j);
    ring::swap(j * x, x, j);
    ring::assoc(y * y, j, j);
    ring::swap(y, y, j);
    lemma_mul_is_commutative(y, j);
    ring::swap(j * y, y, j);
    ring::assoc(d * j * j * x * x * y * y, j, j);
    ring::swap(d * j * j * x * x * y, y, j);
    ring::swap(d * j * j * x * x, y, j);
    ring::swap(d * j * j * x, x, j);
    ring::swap(d * j * j, x, j);
    ring::swap(d * j * j * j * x * x * y, y, j);
    ring::swap(d * j * j * j * x * x, y, j);
    ring::swap(d * j * j * j * x, x, j);
    ring::swap(d * j * j * j, x, j);
    assert(j * x * (j * x) - j * y * (j * y) - 1 - d * (j * y * (j * y) * (j * x * (j * x))) == (j * j + 1) * (x * x - y * y - (j * j - 1) * (d * (x * x * (y * y)))) + (y * y - x * x - 1 - d * (x * x * (y * y))));
}

/// The cross term of the rotated point.
pub proof fn lemma_rotated_cross(d: int, j: int, x1: int, y1: int, x2: int, y2: int)
    ensures
        d * (x1 * (j * y2) * (y1 * (j * x2))) == (-(d * (x1 * x2 * (y1 * y2)))) + (j * j + 1) * (d * (x1 * x2 * (y1 * y2))),
{
    ring::assoc(x1, j, y2);
    lemma_mul_is_commutative(x1, j);
    ring::assoc(y1, j, x2);
    lemma_mul_is_commutative(y1, j);
    ring::swap(j, y1, x2);
    ring::assoc(j * x1 * y2, j * x2, y1);
    ring::assoc(j * x1 * y2, j, x2);
    ring::swap(j * x1, y2, j);
    ring::swap(j, x1, j);
    ring::swap(j * j * x1, y2, x2);
    ring::swap(j * j * x1 * x2, y2, y1);
    ring::assoc(d, j * j * x1 * x2 * y1, y2);
    ring::assoc(d, j * j * x1 * x2, y1);
    ring::assoc(d, j * j * x1, x2);
    ring::assoc(d, j * j, x1);
    ring::assoc(d, j, j);
    ring::assoc(x1 * x2, y1, y2);
    ring::assoc(d, x1 * x2 * y1, y2);
    ring::assoc(d, x1 * x2, y1);
    ring::assoc(d, x1, x2);
    ring::lin2(j * j + 1, d * (x1 * x2 * (y1 * y2)), 1, 1, 1, j * j);
    ring::lin1(d * (x1 * x2 * (y1 * y2)), 1, 1, d * x1 * x2 * y1 * y2);
    ring::lin1(d * (x1 * x2 * (y1 * y2)), j * j, 1, d * x1 * x2 * y1 * y2);
    ring::assoc(d * x1 * x2 * y1 * y2, j, j);
    ring::swap(d * x1 * x2 * y1, y2, j);
    ring::swap(d * x1 * x2, y1, j);
    ring::swap(d * x1, x2, j);
    ring::swap(d, x1, j);
    ring::swap(d * j * x1 * x2 * y1, y2, j);
    ring::swap(d * j * x1 * x2, y1, j);
    ring::swap(d * j * x1, x2, j);
    ring::swap(d * j, x1, j);
    assert(d * (x1 * (j * y2) * (y1 * (j * x2))) == (-(d * (x1 * x2 * (y1 * y2)))) + (j * j + 1) * (d * (x1 * x2 * (y1 * y2))));
}

/// The numerators of the rotated point.
pub proof fn lemma_rotated_numerators(j: int, x1: int, y1: int, x2: int, y2: int)
    ensures
        x1 * (j * x2) + y1 * (j * y2) == j * (y1 * y2 + x1 * x2),
        y1 * (j * x2) + x1 * (j * y2) == j * (x1 * y2 + y1 * x2),
{
    ring::assoc(x1, j, x2);
    lemma_mul_is_commutative(x1, j);
    ring::assoc(y1, j, y2);
    lemma_mul_is_commutative(y1, j);
    ring::lin2(y1 * y2 + x1 * x2, j, 1, x1 * x2, 1, y1 * y2);
    ring::swap(x1, x2, j);
    ring::swap(y1, y2, j);
    assert(x1 * (j * x2) + y1 * (j * y2) == j * (y1 * y2 + x1 * x2));
    ring::assoc(y1, j, x2);
    lemma_mul_is_commutative(y1, j);
    ring::swap(j, y1, x2);
    ring::assoc(x1, j, y2);
    lemma_mul_is_commutative(x1, j);
    lemma_mul_is_commutative(y1, x2);
    ring::lin2(x1 * y2 + y1 * x2, j, 1, x1 * y2, 1, x2 * y1);
    ring::swap(x1, y2, j);
    ring::swap(x2, y1, j);
    lemma_mul_is_commutative(x2, j);
    assert(y1 * (j * x2) + x1 * (j * y2) == j * (x1 * y2 + y1 * x2));
}

} // verus!
