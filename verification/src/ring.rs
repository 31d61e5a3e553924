//! Rewriting steps for polynomial identities over the integers.
use vstd::arithmetic::mul::*;
use vstd::prelude::*;

verus! {

/// Exchanges the last two factors of a product.
pub proof fn swap(q: int, y: int, x: int)
    ensures
        q * y * x == q * x * y,
{
    lemma_mul_is_associative(q, y, x);
    lemma_mul_is_associative(q, x, y);
    lemma_mul_is_commutative(x, y);
}

/// Moves the brackets of a product to the left.
pub proof fn assoc(m: int, n: int, x: int)
    ensures
        m * (n * x) == m * n * x,
{
    lemma_mul_is_associative(m, n, x);
}

/// Distributes a factor over 1 term.
pub proof fn lin1(u: int, v: int, c1: int, t1: int)
    requires
        u == c1 * t1,
    ensures
        u * v == c1 * (t1 * v),
        v * u == c1 * (t1 * v),
{
    lemma_mul_is_commutative(u, v);
    lemma_mul_is_associative(c1, t1, v);
}

/// Distributes a factor over 2 terms.
pub proof fn lin2(u: int, v: int, c1: int, t1: int, c2: int, t2: int)
    requires
        u == c1 * t1 + c2 * t2,
    ensures
        u * v == c1 * (t1 * v) + c2 * (t2 * v),
        v * u == c1 * (t1 * v) + c2 * (t2 * v),
{
    lemma_mul_is_commutative(u, v);
    lemma_mul_is_associative(c1, t1, v);
    lemma_mul_is_associative(c2, t2, v);
    lemma_mul_is_distributive_add_other_way(v, c1 * t1, c2 * t2);
}

/// Distributes a factor over 3 terms.
pub proof fn lin3(u: int, v: int, c1: int, t1: int, c2: int, t2: int, c3: int, t3: int)
    requires
        u == c1 * t1 + c2 * t2 + c3 * t3,
    ensures
        u * v == c1 * (t1 * v) + c2 * (t2 * v) + c3 * (t3 * v),
        v * u == c1 * (t1 * v) + c2 * (t2 * v) + c3 * (t3 * v),
{
    lemma_mul_is_commutative(u, v);
    lemma_mul_is_associative(c1, t1, v);
    lemma_mul_is_associative(c2, t2, v);
    lemma_mul_is_associative(c3, t3, v);
    lemma_mul_is_distributive_add_other_way(v, c1 * t1, c2 * t2);
    lemma_mul_is_distributive_add_other_way(v, c1 * t1 + c2 * t2, c3 * t3);
}

/// Distributes a factor over 4 terms.
pub proof fn lin4(u: int, v: int, c1: int, t1: int, c2: int, t2: int, c3: int, t3: int, c4: int, t4: int)
    requires
        u == c1 * t1 + c2 * t2 + c3 * t3 + c4 * t4,
    ensures
        u * v == c1 * (t1 * v) + c2 * (t2 * v) + c3 * (t3 * v) + c4 * (t4 * v),
        v * u == c1 * (t1 * v) + c2 * (t2 * v) + c3 * (t3 * v) + c4 * (t4 * v),
{
    lemma_mul_is_commutative(u, v);
    lemma_mul_is_associative(c1, t1, v);
    lemma_mul_is_associative(c2, t2, v);
    lemma_mul_is_associative(c3, t3, v);
    lemma_mul_is_associative(c4, t4, v);
    lemma_mul_is_distributive_add_other_way(v, c1 * t1, c2 * t2);
    lemma_mul_is_distributive_add_other_way(v, c1 * t1 + c2 * t2, c3 * t3);
    lemma_mul_is_distributive_add_other_way(v, c1 * t1 + c2 * t2 + c3 * t3, c4 * t4);
}

/// Distributes a factor over 5 terms.
pub proof fn lin5(u: int, v: int, c1: int, t1: int, c2: int, t2: int, c3: int, t3: int, c4: int, t4: int, c5: int, t5: int)
    requires
        u == c1 * t1 + c2 * t2 + c3 * t3 + c4 * t4 + c5 * t5,
    ensures
        u * v == c1 * (t1 * v) + c2 * (t2 * v) + c3 * (t3 * v) + c4 * (t4 * v) + c5 * (t5 * v),
        v * u == c1 * (t1 * v) + c2 * (t2 * v) + c3 * (t3 * v) + c4 * (t4 * v) + c5 * (t5 * v),
{
    lemma_mul_is_commutative(u, v);
    lemma_mul_is_associative(c1, t1, v);
    lemma_mul_is_associative(c2, t2, v);
    lemma_mul_is_associative(c3, t3, v);
    lemma_mul_is_associative(c4, t4, v);
    lemma_mul_is_associative(c5, t5, v);
    lemma_mul_is_distributive_add_other_way(v, c1 * t1, c2 * t2);
    lemma_mul_is_distributive_add_other_way(v, c1 * t1 + c2 * t2, c3 * t3);
    lemma_mul_is_distributive_add_other_way(v, c1 * t1 + c2 * t2 + c3 * t3, c4 * t4);
    lemma_mul_is_distributive_add_other_way(v, c1 * t1 + c2 * t2 + c3 * t3 + c4 * t4, c5 * t5);
}

/// Distributes a factor over 6 terms.
pub proof fn lin6(u: int, v: int, c1: int, t1: int, c2: int, t2: int, c3: int, t3: int, c4: int, t4: int, c5: int, t5: int, c6: int, t6: int)
    requires
        u == c1 * t1 + c2 * t2 + c3 * t3 + c4 * t4 + c5 * t5 + c6 * t6,
    ensures
        u * v == c1 * (t1 * v) + c2 * (t2 * v) + c3 * (t3 * v) + c4 * (t4 * v) + c5 * (t5 * v) + c6 * (t6 * v),
        v * u == c1 * (t1 * v) + c2 * (t2 * v) + c3 * (t3 * v) + c4 * (t4 * v) + c5 * (t5 * v) + c6 * (t6 * v),
{
    lemma_mul_is_commutative(u, v);
    lemma_mul_is_associative(c1, t1, v);
    lemma_mul_is_associative(c2, t2, v);
    lemma_mul_is_associative(c3, t3, v);
    lemma_mul_is_associative(c4, t4, v);
    lemma_mul_is_associative(c5, t5, v);
    lemma_mul_is_associative(c6, t6, v);
    lemma_mul_is_distributive_add_other_way(v, c1 * t1, c2 * t2);
    lemma_mul_is_distributive_add_other_way(v, c1 * t1 + c2 * t2, c3 * t3);
    lemma_mul_is_distributive_add_other_way(v, c1 * t1 + c2 * t2 + c3 * t3, c4 * t4);
    lemma_mul_is_distributive_add_other_way(v, c1 * t1 + c2 * t2 + c3 * t3 + c4 * t4, c5 * t5);
    lemma_mul_is_distributive_add_other_way(v, c1 * t1 + c2 * t2 + c3 * t3 + c4 * t4 + c5 * t5, c6 * t6);
}

/// Distributes a factor over 7 terms.
pub proof fn lin7(u: int, v: int, c1: int, t1: int, c2: int, t2: int, c3: int, t3: int, c4: int, t4: int, c5: int, t5: int, c6: int, t6: int, c7: int, t7: int)
    requires
        u == c1 * t1 + c2 * t2 + c3 * t3 + c4 * t4 + c5 * t5 + c6 * t6 + c7 * t7,
    ensures
        u * v == c1 * (t1 * v) + c2 * (t2 * v) + c3 * (t3 * v) + c4 * (t4 * v) + c5 * (t5 * v) + c6 * (t6 * v) + c7 * (t7 * v),
        v * u == c1 * (t1 * v) + c2 * (t2 * v) + c3 * (t3 * v) + c4 * (t4 * v) + c5 * (t5 * v) + c6 * (t6 * v) + c7 * (t7 * v),
{
    lemma_mul_is_commutative(u, v);
    lemma_mul_is_associative(c1, t1, v);
    lemma_mul_is_associative(c2, t2, v);
    lemma_mul_is_associative(c3, t3, v);
    lemma_mul_is_associative(c4, t4, v);
    lemma_mul_is_associative(c5, t5, v);
    lemma_mul_is_associative(c6, t6, v);
    lemma_mul_is_associative(c7, t7, v);
    lemma_mul_is_distributive_add_other_way(v, c1 * t1, c2 * t2);
    lemma_mul_is_distributive_add_other_way(v, c1 * t1 + c2 * t2, c3 * t3);
    lemma_mul_is_distributive_add_other_way(v, c1 * t1 + c2 * t2 + c3 * t3, c4 * t4);
    lemma_mul_is_distributive_add_other_way(v, c1 * t1 + c2 * t2 + c3 * t3 + c4 * t4, c5 * t5);
    lemma_mul_is_distributive_add_other_way(v, c1 * t1 + c2 * t2 + c3 * t3 + c4 * t4 + c5 * t5, c6 * t6);
    lemma_mul_is_distributive_add_other_way(v, c1 * t1 + c2 * t2 + c3 * t3 + c4 * t4 + c5 * t5 + c6 * t6, c7 * t7);
}

/// Distributes a factor over 9 terms.
pub proof fn lin9(u: int, v: int, c1: int, t1: int, c2: int, t2: int, c3: int, t3: int, c4: int, t4: int, c5: int, t5: int, c6: int, t6: int, c7: int, t7: int, c8: int, t8: int, c9: int, t9: int)
    requires
        u == c1 * t1 + c2 * t2 + c3 * t3 + c4 * t4 + c5 * t5 + c6 * t6 + c7 * t7 + c8 * t8 + c9 * t9,
    ensures
        u * v == c1 * (t1 * v) + c2 * (t2 * v) + c3 * (t3 * v) + c4 * (t4 * v) + c5 * (t5 * v) + c6 * (t6 * v) + c7 * (t7 * v) + c8 * (t8 * v) + c9 * (t9 * v),
        v * u == c1 * (t1 * v) + c2 * (t2 * v) + c3 * (t3 * v) + c4 * (t4 * v) + c5 * (t5 * v) + c6 * (t6 * v) + c7 * (t7 * v) + c8 * (t8 * v) + c9 * (t9 * v),
{
    lemma_mul_is_commutative(u, v);
    lemma_mul_is_associative(c1, t1, v);
    lemma_mul_is_associative(c2, t2, v);
    lemma_mul_is_associative(c3, t3, v);
    lemma_mul_is_associative(c4, t4, v);
    lemma_mul_is_associative(c5, t5, v);
    lemma_mul_is_associative(c6, t6, v);
    lemma_mul_is_associative(c7, t7, v);
    lemma_mul_is_associative(c8, t8, v);
    lemma_mul_is_associative(c9, t9, v);
    lemma_mul_is_distributive_add_other_way(v, c1 * t1, c2 * t2);
    lemma_mul_is_distributive_add_other_way(v, c1 * t1 + c2 * t2, c3 * t3);
    lemma_mul_is_distributive_add_other_way(v, c1 * t1 + c2 * t2 + c3 * t3, c4 * t4);
    lemma_mul_is_distributive_add_other_way(v, c1 * t1 + c2 * t2 + c3 * t3 + c4 * t4, c5 * t5);
    lemma_mul_is_distributive_add_other_way(v, c1 * t1 + c2 * t2 + c3 * t3 + c4 * t4 + c5 * t5, c6 * t6);
    lemma_mul_is_distributive_add_other_way(v, c1 * t1 + c2 * t2 + c3 * t3 + c4 * t4 + c5 * t5 + c6 * t6, c7 * t7);
    lemma_mul_is_distributive_add_other_way(v, c1 * t1 + c2 * t2 + c3 * t3 + c4 * t4 + c5 * t5 + c6 * t6 + c7 * t7, c8 * t8);
    lemma_mul_is_distributive_add_other_way(v, c1 * t1 + c2 * t2 + c3 * t3 + c4 * t4 + c5 * t5 + c6 * t6 + c7 * t7 + c8 * t8, c9 * t9);
}

/// Distributes a factor over 10 terms.
pub proof fn lin10(u: int, v: int, c1: int, t1: int, c2: int, t2: int, c3: int, t3: int, c4: int, t4: int, c5: int, t5: int, c6: int, t6: int, c7: int, t7: int, c8: int, t8: int, c9: int, t9: int, c10: int, t10: int)
    requires
        u == c1 * t1 + c2 * t2 + c3 * t3 + c4 * t4 + c5 * t5 + c6 * t6 + c7 * t7 + c8 * t8 + c9 * t9 + c10 * t10,
    ensures
        u * v == c1 * (t1 * v) + c2 * (t2 * v) + c3 * (t3 * v) + c4 * (t4 * v) + c5 * (t5 * v) + c6 * (t6 * v) + c7 * (t7 * v) + c8 * (t8 * v) + c9 * (t9 * v) + c10 * (t10 * v),
        v * u == c1 * (t1 * v) + c2 * (t2 * v) + c3 * (t3 * v) + c4 * (t4 * v) + c5 * (t5 * v) + c6 * (t6 * v) + c7 * (t7 * v) + c8 * (t8 * v) + c9 * (t9 * v) + c10 * (t10 * v),
{
    lemma_mul_is_commutative(u, v);
    lemma_mul_is_associative(c1, t1, v);
    lemma_mul_is_associative(c2, t2, v);
    lemma_mul_is_associative(c3, t3, v);
    lemma_mul_is_associative(c4, t4, v);
    lemma_mul_is_associative(c5, t5, v);
    lemma_mul_is_associative(c6, t6, v);
    lemma_mul_is_associative(c7, t7, v);
    lemma_mul_is_associative(c8, t8, v);
    lemma_mul_is_associative(c9, t9, v);
    lemma_mul_is_associative(c10, t10, v);
    lemma_mul_is_distributive_add_other_way(v, c1 * t1, c2 * t2);
    lemma_mul_is_distributive_add_other_way(v, c1 * t1 + c2 * t2, c3 * t3);
    lemma_mul_is_distributive_add_other_way(v, c1 * t1 + c2 * t2 + c3 * t3, c4 * t4);
    lemma_mul_is_distributive_add_other_way(v, c1 * t1 + c2 * t2 + c3 * t3 + c4 * t4, c5 * t5);
    lemma_mul_is_distributive_add_other_way(v, c1 * t1 + c2 * t2 + c3 * t3 + c4 * t4 + c5 * t5, c6 * t6);
    lemma_mul_is_distributive_add_other_way(v, c1 * t1 + c2 * t2 + c3 * t3 + c4 * t4 + c5 * t5 + c6 * t6, c7 * t7);
    lemma_mul_is_distributive_add_other_way(v, c1 * t1 + c2 * t2 + c3 * t3 + c4 * t4 + c5 * t5 + c6 * t6 + c7 * t7, c8 * t8);
    lemma_mul_is_distributive_add_other_way(v, c1 * t1 + c2 * t2 + c3 * t3 + c4 * t4 + c5 * t5 + c6 * t6 + c7 * t7 + c8 * t8, c9 * t9);
    lemma_mul_is_distributive_add_other_way(v, c1 * t1 + c2 * t2 + c3 * t3 + c4 * t4 + c5 * t5 + c6 * t6 + c7 * t7 + c8 * t8 + c9 * t9, c10 * t10);
}

/// Distributes a factor over 14 terms.
pub proof fn lin14(u: int, v: int, c1: int, t1: int, c2: int, t2: int, c3: int, t3: int, c4: int, t4: int, c5: int, t5: int, c6: int, t6: int, c7: int, t7: int, c8: int, t8: int, c9: int, t9: int, c10: int, t10: int, c11: int, t11: int, c12: int, t12: int, c13: int, t13: int, c14: int, t14: int)
    requires
        u == c1 * t1 + c2 * t2 + c3 * t3 + c4 * t4 + c5 * t5 + c6 * t6 + c7 * t7 + c8 * t8 + c9 * t9 + c10 * t10 + c11 * t11 + c12 * t12 + c13 * t13 + c14 * t14,
    ensures
        u * v == c1 * (t1 * v) + c2 * (t2 * v) + c3 * (t3 * v) + c4 * (t4 * v) + c5 * (t5 * v) + c6 * (t6 * v) + c7 * (t7 * v) + c8 * (t8 * v) + c9 * (t9 * v) + c10 * (t10 * v) + c11 * (t11 * v) + c12 * (t12 * v) + c13 * (t13 * v) + c14 * (t14 * v),
        v * u == c1 * (t1 * v) + c2 * (t2 * v) + c3 * (t3 * v) + c4 * (t4 * v) + c5 * (t5 * v) + c6 * (t6 * v) + c7 * (t7 * v) + c8 * (t8 * v) + c9 * (t9 * v) + c10 * (t10 * v) + c11 * (t11 * v) + c12 * (t12 * v) + c13 * (t13 * v) + c14 * (t14 * v),
{
    lemma_mul_is_commutative(u, v);
    lemma_mul_is_associative(c1, t1, v);
    lemma_mul_is_associative(c2, t2, v);
    lemma_mul_is_associative(c3, t3, v);
    lemma_mul_is_associative(c4, t4, v);
    lemma_mul_is_associative(c5, t5, v);
    lemma_mul_is_associative(c6, t6, v);
    lemma_mul_is_associative(c7, t7, v);
    lemma_mul_is_associative(c8, t8, v);
    lemma_mul_is_associative(c9, t9, v);
    lemma_mul_is_associative(c10, t10, v);
    lemma_mul_is_associative(c11, t11, v);
    lemma_mul_is_associative(c12, t12, v);
    lemma_mul_is_associative(c13, t13, v);
    lemma_mul_is_associative(c14, t14, v);
    lemma_mul_is_distributive_add_other_way(v, c1 * t1, c2 * t2);
    lemma_mul_is_distributive_add_other_way(v, c1 * t1 + c2 * t2, c3 * t3);
    lemma_mul_is_distributive_add_other_way(v, c1 * t1 + c2 * t2 + c3 * t3, c4 * t4);
    lemma_mul_is_distributive_add_other_way(v, c1 * t1 + c2 * t2 + c3 * t3 + c4 * t4, c5 * t5);
    lemma_mul_is_distributive_add_other_way(v, c1 * t1 + c2 * t2 + c3 * t3 + c4 * t4 + c5 * t5, c6 * t6);
    lemma_mul_is_distributive_add_other_way(v, c1 * t1 + c2 * t2 + c3 * t3 + c4 * t4 + c5 * t5 + c6 * t6, c7 * t7);
    lemma_mul_is_distributive_add_other_way(v, c1 * t1 + c2 * t2 + c3 * t3 + c4 * t4 + c5 * t5 + c6 * t6 + c7 * t7, c8 * t8);
    lemma_mul_is_distributive_add_other_way(v, c1 * t1 + c2 * t2 + c3 * t3 + c4 * t4 + c5 * t5 + c6 * t6 + c7 * t7 + c8 * t8, c9 * t9);
    lemma_mul_is_distributive_add_other_way(v, c1 * t1 + c2 * t2 + c3 * t3 + c4 * t4 + c5 * t5 + c6 * t6 + c7 * t7 + c8 * t8 + c9 * t9, c10 * t10);
    lemma_mul_is_distributive_add_other_way(v, c1 * t1 + c2 * t2 + c3 * t3 + c4 * t4 + c5 * t5 + c6 * t6 + c7 * t7 + c8 * t8 + c9 * t9 + c10 * t10, c11 * t11);
    lemma_mul_is_distributive_add_other_way(v, c1 * t1 + c2 * t2 + c3 * t3 + c4 * t4 + c5 * t5 + c6 * t6 + c7 * t7 + c8 * t8 + c9 * t9 + c10 * t10 + c11 * t11, c12 * t12);
    lemma_mul_is_distributive_add_other_way(v, c1 * t1 + c2 * t2 + c3 * t3 + c4 * t4 + c5 * t5 + c6 * t6 + c7 * t7 + c8 * t8 + c9 * t9 + c10 * t10 + c11 * t11 + c12 * t12, c13 * t13);
    lemma_mul_is_distributive_add_other_way(v, c1 * t1 + c2 * t2 + c3 * t3 + c4 * t4 + c5 * t5 + c6 * t6 + c7 * t7 + c8 * t8 + c9 * t9 + c10 * t10 + c11 * t11 + c12 * t12 + c13 * t13, c14 * t14);
}

} // verus!
