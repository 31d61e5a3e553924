//! Extended coordinates `(X : Y : Z : T)` with `x = X/Z`, `y = Y/Z`, `x y = T/Z`.
use crate::curve;
use crate::curve::Point;
use crate::curve_algebra;
use crate::field_laws;
use crate::fp;
use crate::ring;
use vstd::arithmetic::mul::*;
use vstd::prelude::*;

verus! {

broadcast use fp::group_field_ops;

/// `(X : Y : Z)` represents the point `a` of the curve.
pub open spec fn represents_xyz(x: int, y: int, z: int, a: Point) -> bool {
    &&& curve::on_curve(a)
    &&& z % fp::p() != 0
    &&& x % fp::p() == (a.x * z) % fp::p()
    &&& y % fp::p() == (a.y * z) % fp::p()
}

/// `(X : Y : Z : T)` represents the point `a` of the curve.
pub open spec fn represents(x: int, y: int, z: int, t: int, a: Point) -> bool {
    &&& represents_xyz(x, y, z, a)
    &&& t % fp::p() == (a.x * a.y * z) % fp::p()
}

/// `Y + X`, `Y - X`, `2Z` and `2dT` of some coordinates of `a`.
pub open spec fn represents_cached(ypx: int, ymx: int, z2: int, t2d: int, a: Point) -> bool {
    &&& curve::on_curve(a)
    &&& z2 % fp::p() != 0
    &&& (2 * ypx) % fp::p() == ((a.y + a.x) * z2) % fp::p()
    &&& (2 * ymx) % fp::p() == ((a.y - a.x) * z2) % fp::p()
    &&& t2d % fp::p() == (fp::d() * (a.x * a.y) * z2) % fp::p()
}

/// `y + x`, `y - x` and `2 d x y` of the point `a`.
pub open spec fn represents_affine_cached(ypx: int, ymx: int, t2d: int, a: Point) -> bool {
    &&& curve::on_curve(a)
    &&& ypx % fp::p() == (a.y + a.x) % fp::p()
    &&& ymx % fp::p() == (a.y - a.x) % fp::p()
    &&& t2d % fp::p() == (2 * (fp::d() * (a.x * a.y))) % fp::p()
}

/// The affine point of projective coordinates.
pub open spec fn affine(x: int, y: int, z: int) -> Point {
    Point {
        x: fp::fmul(x, field_laws::finv(z)),
        y: fp::fmul(y, field_laws::finv(z)),
    }
}

/// The affine point of cached coordinates.
pub open spec fn cached_affine(ypx: int, ymx: int, z2: int) -> Point {
    affine(ypx - ymx, ypx + ymx, z2)
}

/// `(E, F, G, H)` with `x = E/G` and `y = H/F`, the state in which formulas deliver a sum.
pub open spec fn completed(e: int, f: int, g: int, h: int, a: Point) -> bool {
    &&& curve::on_curve(a)
    &&& f % fp::p() != 0
    &&& g % fp::p() != 0
    &&& e % fp::p() == (a.x * g) % fp::p()
    &&& h % fp::p() == (a.y * f) % fp::p()
}

/// Projective coordinates represent their affine point and no other.
pub proof fn lemma_affine(x: int, y: int, z: int, a: Point)
    requires
        represents_xyz(x, y, z, a),
    ensures
        affine(x, y, z) == a,
{
    lemma_ratio(x, z, a.x);
    lemma_ratio(y, z, a.y);
}

/// Cached coordinates represent their affine point and no other.
pub proof fn lemma_cached_affine(ypx: int, ymx: int, z2: int, t2d: int, a: Point)
    requires
        represents_cached(ypx, ymx, z2, t2d, a),
    ensures
        cached_affine(ypx, ymx, z2) == a,
{
    fp::lemma_cong_sub(2 * ypx, (a.y + a.x) * z2, 2 * ymx, (a.y - a.x) * z2);
    lemma_mul_is_distributive_add_other_way(z2, a.y, a.x);
    lemma_mul_is_distributive_sub_other_way(z2, a.y, a.x);
    lemma_halve(ypx - ymx, a.x * z2);
    lemma_halve(ypx + ymx, a.y * z2);
    lemma_affine(ypx - ymx, ypx + ymx, z2, a);
}

proof fn lemma_ratio(x: int, z: int, v: int)
    requires
        0 <= v < fp::p(),
        z % fp::p() != 0,
        x % fp::p() == (v * z) % fp::p(),
    ensures
        fp::fmul(x, field_laws::finv(z)) == v,
{
    let i = field_laws::finv(z);
    field_laws::lemma_inverse(z);
    fp::lemma_cong_mul(x, v * z, i, i);
    lemma_mul_is_associative(v, z, i);
    fp::lemma_cong_mul(v, v, z * i, 1);
    fp::lemma_small_residue(v);
}

/// Completed coordinates give extended ones with four products.
proof fn lemma_completed(e: int, f: int, g: int, h: int, a: Point)
    requires
        completed(e, f, g, h, a),
    ensures
        represents(fp::fmul(e, f), fp::fmul(g, h), fp::fmul(f, g), fp::fmul(e, h), a),
{
    let p = fp::p();
    let z = f * g;
    fp::lemma_cong_mul(fp::fmul(f, g), z, 1, 1);
    if z % p == 0 {
        field_laws::lemma_no_zero_divisors(f, g);
    }
    assert((e * f) % p == (a.x * z) % p) by {
        fp::lemma_cong_mul(e, a.x * g, f, f);
        lemma_mul_is_associative(a.x, g, f);
        lemma_mul_is_commutative(g, f);
    }
    assert((g * h) % p == (a.y * z) % p) by {
        fp::lemma_cong_mul(g, g, h, a.y * f);
        lemma_mul_is_commutative(g, a.y * f);
        lemma_mul_is_associative(a.y, f, g);
    }
    assert((e * h) % p == (a.x * a.y * z) % p) by {
        fp::lemma_cong_mul(e, a.x * g, h, a.y * f);
        lemma_completed_product(a.x, a.y, f, g);
    }
    fp::lemma_cong_mul(a.x, a.x, fp::fmul(f, g), z);
    fp::lemma_cong_mul(a.y, a.y, fp::fmul(f, g), z);
    fp::lemma_cong_mul(a.x * a.y, a.x * a.y, fp::fmul(f, g), z);
}

proof fn lemma_completed_product(x: int, y: int, f: int, g: int)
    ensures
        x * g * (y * f) == x * y * (f * g),
{
    lemma_mul_is_commutative(x, g);
    lemma_mul_is_commutative(y, f);
    ring::assoc(g * x, f, y);
    ring::swap(g, x, f);
    lemma_mul_is_commutative(g, f);
    ring::assoc(x * y, f, g);
    ring::swap(x, y, f);
    lemma_mul_is_commutative(x, f);
    ring::swap(f * x, y, g);
    ring::swap(f, x, g);
    assert(x * g * (y * f) == x * y * (f * g));
}

proof fn lemma_add_numerators(k: int, x1: int, y1: int, x2: int, y2: int)
    ensures
        k * ((y1 + x1) * (y2 + x2)) - k * ((y1 - x1) * (y2 - x2)) == 2 * (k * (x1 * y2 + y1 * x2)),
        k * ((y1 + x1) * (y2 + x2)) + k * ((y1 - x1) * (y2 - x2)) == 2 * (k * (y1 * y2 + x1 * x2)),
{
    ring::lin2(y1 + x1, y2 + x2, 1, x1, 1, y1);
    ring::lin2(y2 + x2, x1, 1, x2, 1, y2);
    lemma_mul_is_commutative(x2, x1);
    lemma_mul_is_commutative(y2, x1);
    ring::lin2(y2 + x2, y1, 1, x2, 1, y2);
    lemma_mul_is_commutative(y2, y1);
    ring::lin4((y1 + x1) * (y2 + x2), k, 1, x1 * x2, 1, x1 * y2, 1, x2 * y1, 1, y1 * y2);
    ring::swap(x1, x2, k);
    lemma_mul_is_commutative(x1, k);
    ring::swap(x1, y2, k);
    ring::swap(x2, y1, k);
    lemma_mul_is_commutative(x2, k);
    ring::swap(y1, y2, k);
    lemma_mul_is_commutative(y1, k);
    ring::lin2(y1 - x1, y2 - x2, -1, x1, 1, y1);
    ring::lin2(y2 - x2, x1, -1, x2, 1, y2);
    ring::lin2(y2 - x2, y1, -1, x2, 1, y2);
    ring::lin4((y1 - x1) * (y2 - x2), k, 1, x1 * x2, -1, x1 * y2, -1, x2 * y1, 1, y1 * y2);
    lemma_mul_is_commutative(y1, x2);
    ring::lin2(x1 * y2 + y1 * x2, k, 1, x1 * y2, 1, x2 * y1);
    assert(k * ((y1 + x1) * (y2 + x2)) - k * ((y1 - x1) * (y2 - x2)) == 2 * (k * (x1 * y2 + y1 * x2)));
    ring::lin2(y1 + x1, y2 + x2, 1, x1, 1, y1);
    ring::lin2(y2 + x2, x1, 1, x2, 1, y2);
    lemma_mul_is_commutative(x2, x1);
    lemma_mul_is_commutative(y2, x1);
    ring::lin2(y2 + x2, y1, 1, x2, 1, y2);
    lemma_mul_is_commutative(y2, y1);
    ring::lin4((y1 + x1) * (y2 + x2), k, 1, x1 * x2, 1, x1 * y2, 1, x2 * y1, 1, y1 * y2);
    ring::swap(x1, x2, k);
    lemma_mul_is_commutative(x1, k);
    ring::swap(x1, y2, k);
    ring::swap(x2, y1, k);
    lemma_mul_is_commutative(x2, k);
    ring::swap(y1, y2, k);
    lemma_mul_is_commutative(y1, k);
    ring::lin2(y1 - x1, y2 - x2, -1, x1, 1, y1);
    ring::lin2(y2 - x2, x1, -1, x2, 1, y2);
    ring::lin2(y2 - x2, y1, -1, x2, 1, y2);
    ring::lin4((y1 - x1) * (y2 - x2), k, 1, x1 * x2, -1, x1 * y2, -1, x2 * y1, 1, y1 * y2);
    ring::lin2(y1 * y2 + x1 * x2, k, 1, x1 * x2, 1, y1 * y2);
    assert(k * ((y1 + x1) * (y2 + x2)) + k * ((y1 - x1) * (y2 - x2)) == 2 * (k * (y1 * y2 + x1 * x2)));
}

proof fn lemma_add_products(z1: int, z2: int, u: int, v: int, r: int, s: int)
    ensures
        u * z1 * (v * z2) == z1 * z2 * (u * v),
        r * z1 * (s * z2) == s * r * (z1 * z2),
{
    ring::assoc(u * z1, v, z2);
    ring::swap(u, z1, v);
    ring::assoc(z1 * z2, u, v);
    ring::swap(z1, z2, u);
    lemma_mul_is_commutative(z1, u);
    ring::swap(u * z1, z2, v);
    assert(u * z1 * (v * z2) == z1 * z2 * (u * v));
    ring::assoc(r * z1, s, z2);
    ring::swap(r, z1, s);
    lemma_mul_is_commutative(s, r);
    ring::assoc(r * s, z1, z2);
    assert(r * z1 * (s * z2) == s * r * (z1 * z2));
}

proof fn lemma_scaled(k: int, x: int, u: int, n: int)
    requires
        (x * u) % fp::p() == n % fp::p(),
    ensures
        (k * n) % fp::p() == (x * (k * u)) % fp::p(),
{
    fp::lemma_cong_mul(k, k, x * u, n);
    lemma_mul_is_associative(k, x, u);
    lemma_mul_is_commutative(k, x);
    lemma_mul_is_associative(x, k, u);
}

/// Mixed addition: the sum of `a1` in extended and `a2` in cached coordinates.
proof fn lemma_add_completed(
    x: int,
    y: int,
    z: int,
    t: int,
    a1: Point,
    ypx: int,
    ymx: int,
    z2: int,
    t2d: int,
    a2: Point,
    a: int,
    b: int,
    c: int,
    dd: int,
)
    requires
        represents(x, y, z, t, a1),
        represents_cached(ypx, ymx, z2, t2d, a2),
        a % fp::p() == ((y - x) * ymx) % fp::p(),
        b % fp::p() == ((y + x) * ypx) % fp::p(),
        c % fp::p() == (t * t2d) % fp::p(),
        dd % fp::p() == (z * z2) % fp::p(),
    ensures
        completed(b - a, dd - c, dd + c, b + a, curve::sum(a1, a2)),
{
    let p = fp::p();
    let d = fp::d();
    let s = curve::sum(a1, a2);
    let k = z * z2;
    let w = curve::cross(a1, a2);
    curve::lemma_closed(a1, a2);
    curve::lemma_complete(a1, a2);
    curve::lemma_add_is_sum(a1, a2);
    // twice a and b
    let u = (a1.y - a1.x) * (a2.y - a2.x);
    let v = (a1.y + a1.x) * (a2.y + a2.x);
    assert((2 * a) % p == (k * u) % p) by {
        lemma_mul_is_distributive_sub_other_way(z, a1.y, a1.x);
        fp::lemma_cong_sub(y, a1.y * z, x, a1.x * z);
        fp::lemma_cong_mul(y - x, (a1.y - a1.x) * z, 2 * ymx, (a2.y - a2.x) * z2);
        fp::lemma_cong_mul(2, 2, a, (y - x) * ymx);
        lemma_double_product(y - x, ymx);
        lemma_add_products(z, z2, a1.y - a1.x, a2.y - a2.x, 0, 0);
    }
    assert((2 * b) % p == (k * v) % p) by {
        lemma_mul_is_distributive_add_other_way(z, a1.y, a1.x);
        fp::lemma_cong_sub(y, a1.y * z, x, a1.x * z);
        fp::lemma_cong_mul(y + x, (a1.y + a1.x) * z, 2 * ypx, (a2.y + a2.x) * z2);
        fp::lemma_cong_mul(2, 2, b, (y + x) * ypx);
        lemma_double_product(y + x, ypx);
        lemma_add_products(z, z2, a1.y + a1.x, a2.y + a2.x, 0, 0);
    }
    lemma_add_numerators(k, a1.x, a1.y, a2.x, a2.y);
    fp::lemma_cong_sub(2 * b, k * v, 2 * a, k * u);
    let nx = k * curve::num_x(a1, a2);
    let ny = k * curve::num_y(a1, a2);
    lemma_halve(b - a, nx);
    lemma_halve(b + a, ny);
    // c and dd
    assert(c % p == (w * k) % p) by {
        fp::lemma_cong_mul(t, a1.x * a1.y * z, t2d, d * (a2.x * a2.y) * z2);
        lemma_add_products(z, z2, 0, 0, a1.x * a1.y, d * (a2.x * a2.y));
        lemma_cross_form(d, a1.x, a1.y, a2.x, a2.y);
    }
    assert((dd - c) % p == (k * (1 - w)) % p) by {
        fp::lemma_cong_sub(dd, k, c, w * k);
        lemma_mul_is_distributive_sub(k, 1, w);
        lemma_mul_is_commutative(k, w);
    }
    assert((dd + c) % p == (k * (1 + w)) % p) by {
        fp::lemma_cong_sub(dd, k, c, w * k);
        lemma_mul_is_distributive_add(k, 1, w);
        lemma_mul_is_commutative(k, w);
    }
    if k % p == 0 {
        field_laws::lemma_no_zero_divisors(z, z2);
    }
    if (dd - c) % p == 0 {
        field_laws::lemma_no_zero_divisors(k, 1 - w);
    }
    if (dd + c) % p == 0 {
        field_laws::lemma_no_zero_divisors(k, 1 + w);
    }
    lemma_scaled(k, s.x, 1 + w, curve::num_x(a1, a2));
    lemma_scaled(k, s.y, 1 - w, curve::num_y(a1, a2));
    fp::lemma_cong_mul(s.x, s.x, dd + c, k * (1 + w));
    fp::lemma_cong_mul(s.y, s.y, dd - c, k * (1 - w));
}

proof fn lemma_cross_form(d: int, x1: int, y1: int, x2: int, y2: int)
    ensures
        d * (x2 * y2) * (x1 * y1) == d * (x1 * x2 * (y1 * y2)),
{
    ring::assoc(d, x2, y2);
    ring::assoc(d * x2 * y2, x1, y1);
    ring::swap(d * x2, y2, x1);
    ring::swap(d, x2, x1);
    ring::swap(d * x1 * x2, y2, y1);
    ring::assoc(x1 * x2, y1, y2);
    ring::assoc(d, x1 * x2 * y1, y2);
    ring::assoc(d, x1 * x2, y1);
    ring::assoc(d, x1, x2);
    assert(d * (x2 * y2) * (x1 * y1) == d * (x1 * x2 * (y1 * y2)));
}

proof fn lemma_double_product(u: int, v: int)
    ensures
        u * (2 * v) == 2 * (u * v),
{
    lemma_mul_is_associative(u, 2, v);
    lemma_mul_is_associative(2, u, v);
}

proof fn lemma_halve(e: int, n: int)
    requires
        (2 * e) % fp::p() == (2 * n) % fp::p(),
    ensures
        e % fp::p() == n % fp::p(),
{
    field_laws::lemma_cancel(e, n, 2);
}

/// The cached form of extended coordinates.
proof fn lemma_cache(x: int, y: int, z: int, t: int, a: Point, ypx: int, ymx: int, z2: int, t2d: int)
    requires
        represents(x, y, z, t, a),
        ypx % fp::p() == (y + x) % fp::p(),
        ymx % fp::p() == (y - x) % fp::p(),
        z2 % fp::p() == (2 * z) % fp::p(),
        t2d % fp::p() == (t * (2 * fp::d())) % fp::p(),
    ensures
        represents_cached(ypx, ymx, z2, t2d, a),
{
    let p = fp::p();
    let d = fp::d();
    if z2 % p == 0 {
        field_laws::lemma_no_zero_divisors(2, z);
    }
    fp::lemma_cong_sub(y, a.y * z, x, a.x * z);
    assert((2 * ypx) % p == ((a.y + a.x) * z2) % p) by {
        lemma_mul_is_distributive_add_other_way(z, a.y, a.x);
        fp::lemma_cong_mul(2, 2, ypx, (a.y + a.x) * z);
        fp::lemma_cong_mul(a.y + a.x, a.y + a.x, z2, 2 * z);
        lemma_double_product(a.y + a.x, z);
    }
    assert((2 * ymx) % p == ((a.y - a.x) * z2) % p) by {
        lemma_mul_is_distributive_sub_other_way(z, a.y, a.x);
        fp::lemma_cong_mul(2, 2, ymx, (a.y - a.x) * z);
        fp::lemma_cong_mul(a.y - a.x, a.y - a.x, z2, 2 * z);
        lemma_double_product(a.y - a.x, z);
    }
    assert(t2d % p == (d * (a.x * a.y) * z2) % p) by {
        fp::lemma_cong_mul(t, a.x * a.y * z, 2 * d, 2 * d);
        fp::lemma_cong_mul(d * (a.x * a.y), d * (a.x * a.y), z2, 2 * z);
        lemma_cache_product(d, a.x * a.y, z);
    }
}

/// The cached form, computed by field operations.
pub proof fn lemma_cache_ops(x: int, y: int, z: int, t: int, a: Point)
    requires
        represents(x, y, z, t, a),
    ensures
        represents_cached(
            fp::fadd(y, x),
            fp::fsub(y, x),
            fp::fadd(z, z),
            fp::fmul(t, fp::fadd(fp::d(), fp::d())),
            a,
        ),
{
    let d2 = fp::fadd(fp::d(), fp::d());
    fp::lemma_cong_mul(t, t, d2, 2 * fp::d());
    lemma_cache(x, y, z, t, a, fp::fadd(y, x), fp::fsub(y, x), fp::fadd(z, z), fp::fmul(t, d2));
}

proof fn lemma_cache_product(d: int, m: int, z: int)
    ensures
        m * z * (2 * d) == d * m * (2 * z),
{
    ring::lin1(2 * d, m * z, 2, d);
    ring::assoc(d, m, z);
    ring::lin1(2 * z, d * m, 2, z);
    ring::assoc(z, d, m);
    lemma_mul_is_commutative(z, d);
    ring::swap(d, z, m);
    assert(m * z * (2 * d) == d * m * (2 * z));
}

/// An affine cached point is a cached point with `2Z = 2`.
proof fn lemma_affine_is_cached(ypx: int, ymx: int, t2d: int, a: Point)
    requires
        represents_affine_cached(ypx, ymx, t2d, a),
    ensures
        represents_cached(ypx, ymx, 2, t2d, a),
{
    let d = fp::d();
    fp::lemma_cong_mul(2, 2, ypx, a.y + a.x);
    fp::lemma_cong_mul(2, 2, ymx, a.y - a.x);
}

/// The cached form of the inverse: `Y + X` and `Y - X` exchanged, `2dT` negated.
pub proof fn lemma_cached_neg(ypx: int, ymx: int, z2: int, t2d: int, a: Point)
    requires
        represents_cached(ypx, ymx, z2, t2d, a),
    ensures
        represents_cached(ymx, ypx, z2, fp::fneg(t2d), curve::neg(a)),
{
    let p = fp::p();
    let d = fp::d();
    let b = curve::neg(a);
    curve::lemma_neg_on_curve(a);
    fp::lemma_neg_residue(a.x);
    fp::lemma_cong_sub(b.y, b.y, b.x, -a.x);
    fp::lemma_cong_mul(b.y + b.x, a.y - a.x, z2, z2);
    fp::lemma_cong_mul(b.y - b.x, a.y + a.x, z2, z2);
    fp::lemma_cong_mul(b.x, -a.x, a.y, a.y);
    lemma_mul_unary_negation(a.x, a.y);
    fp::lemma_cong_mul(d, d, b.x * b.y, -(a.x * a.y));
    lemma_mul_unary_negation(d, a.x * a.y);
    fp::lemma_cong_mul(d * (b.x * b.y), -(d * (a.x * a.y)), z2, z2);
    lemma_mul_unary_negation(d * (a.x * a.y), z2);
    fp::lemma_cong_sub(0, 0, t2d, d * (a.x * a.y) * z2);
}

/// The affine cached form of the inverse.
pub proof fn lemma_affine_cached_neg(ypx: int, ymx: int, t2d: int, a: Point)
    requires
        represents_affine_cached(ypx, ymx, t2d, a),
    ensures
        represents_affine_cached(ymx, ypx, fp::fneg(t2d), curve::neg(a)),
{
    let d = fp::d();
    let b = curve::neg(a);
    curve::lemma_neg_on_curve(a);
    fp::lemma_neg_residue(a.x);
    fp::lemma_cong_sub(b.y, b.y, b.x, -a.x);
    fp::lemma_cong_mul(b.x, -a.x, a.y, a.y);
    lemma_mul_unary_negation(a.x, a.y);
    fp::lemma_cong_mul(d, d, b.x * b.y, -(a.x * a.y));
    lemma_mul_unary_negation(d, a.x * a.y);
    let m = d * (a.x * a.y);
    fp::lemma_cong_mul(2, 2, d * (b.x * b.y), -m);
    fp::lemma_cong_sub(0, 0, t2d, 2 * m);
}

/// Extended coordinates of the inverse.
pub proof fn lemma_represents_neg(x: int, y: int, z: int, t: int, a: Point)
    requires
        represents(x, y, z, t, a),
    ensures
        represents(fp::fneg(x), y, z, fp::fneg(t), curve::neg(a)),
{
    let p = fp::p();
    let b = curve::neg(a);
    curve::lemma_neg_on_curve(a);
    fp::lemma_neg_residue(a.x);
    fp::lemma_cong_mul(b.x, -a.x, z, z);
    lemma_mul_unary_negation(a.x, z);
    fp::lemma_cong_sub(0, 0, x, a.x * z);
    fp::lemma_cong_mul(b.x, -a.x, a.y, a.y);
    lemma_mul_unary_negation(a.x, a.y);
    fp::lemma_cong_mul(b.x * b.y, -(a.x * a.y), z, z);
    lemma_mul_unary_negation(a.x * a.y, z);
    fp::lemma_cong_sub(0, 0, t, a.x * a.y * z);
}

proof fn lemma_double_squares(x: int, y: int, z: int)
    ensures
        x * z * (x * z) == z * z * (x * x),
        (x * z + y * z) * (x * z + y * z) - (x * z * (x * z) + y * z * (y * z)) == z * z * (2 * (x * y)),
{
    ring::assoc(x * z, x, z);
    ring::swap(x, z, x);
    ring::assoc(z * z, x, x);
    ring::swap(z, z, x);
    lemma_mul_is_commutative(z, x);
    ring::swap(x * z, z, x);
    assert(x * z * (x * z) == z * z * (x * x));
    ring::lin2(x * z + y * z, x * z + y * z, 1, x * z, 1, y * z);
    ring::lin2(x * z + y * z, x * z, 1, x * z, 1, y * z);
    ring::assoc(x * z, x, z);
    ring::swap(x, z, x);
    ring::assoc(y * z, x, z);
    ring::swap(y, z, x);
    lemma_mul_is_commutative(y, x);
    ring::lin2(x * z + y * z, y * z, 1, x * z, 1, y * z);
    ring::assoc(x * z, y, z);
    ring::swap(x, z, y);
    ring::assoc(y * z, y, z);
    ring::swap(y, z, y);
    ring::lin1(2 * (x * y), z * z, 2, x * y);
    ring::assoc(x * y, z, z);
    assert((x * z + y * z) * (x * z + y * z) - (x * z * (x * z) + y * z * (y * z)) == z * z * (2 * (x * y)));
}

/// Doubling: `E = (X+Y)^2 - X^2 - Y^2`, `G = Y^2 - X^2`, `F = G - 2Z^2`, `H = -(X^2 + Y^2)`.
proof fn lemma_double_completed(x: int, y: int, z: int, p1: Point, a: int, b: int, c: int, s: int)
    requires
        represents_xyz(x, y, z, p1),
        a % fp::p() == (x * x) % fp::p(),
        b % fp::p() == (y * y) % fp::p(),
        c % fp::p() == (2 * (z * z)) % fp::p(),
        s % fp::p() == ((x + y) * (x + y)) % fp::p(),
    ensures
        completed(s - (a + b), b - (a + c), b - a, -(a + b), curve::sum(p1, p1)),
{
    let p = fp::p();
    let d = fp::d();
    let q = curve::sum(p1, p1);
    let w = curve::cross(p1, p1);
    let k = z * z;
    let xx = p1.x * p1.x;
    let yy = p1.y * p1.y;
    curve::lemma_closed(p1, p1);
    curve::lemma_complete(p1, p1);
    curve::lemma_add_is_sum(p1, p1);
    fp::lemma_cong_mul(x, p1.x * z, x, p1.x * z);
    fp::lemma_cong_mul(y, p1.y * z, y, p1.y * z);
    fp::lemma_cong_sub(x, p1.x * z, y, p1.y * z);
    fp::lemma_cong_mul(x + y, p1.x * z + p1.y * z, x + y, p1.x * z + p1.y * z);
    lemma_double_squares(p1.x, p1.y, z);
    lemma_double_squares(p1.y, p1.x, z);
    assert(a % p == (k * xx) % p);
    assert(b % p == (k * yy) % p);
    // sums of squares: e = k (2xy), g = k (1 + w), f = -k (1 - w), h = -k (y^2 + x^2)
    let e = s - (a + b);
    let f = b - (a + c);
    let g = b - a;
    let h = -(a + b);
    fp::lemma_cong_sub(a, p1.x * z * (p1.x * z), b, p1.y * z * (p1.y * z));
    fp::lemma_cong_sub(
        s,
        (p1.x * z + p1.y * z) * (p1.x * z + p1.y * z),
        a + b,
        p1.x * z * (p1.x * z) + p1.y * z * (p1.y * z),
    );
    let nx = curve::num_x(p1, p1);
    let ny = curve::num_y(p1, p1);
    assert(nx == 2 * (p1.x * p1.y)) by {
        lemma_mul_is_commutative(p1.x, p1.y);
    }
    assert(e % p == (k * nx) % p);
    fp::lemma_cong_sub(b, k * yy, a, k * xx);
    lemma_mul_is_distributive_add(k, yy, xx);
    lemma_mul_is_distributive_sub(k, yy, xx);
    assert((b + a) % p == (k * ny) % p);
    // y^2 - x^2 = 1 + w
    let eq = curve_algebra::curve_eq(d, p1.x, p1.y);
    assert(yy - xx == 1 + w + eq);
    fp::lemma_cong_sub(1 + w, 1 + w, eq, 0);
    fp::lemma_cong_mul(k, k, yy - xx, 1 + w);
    assert(g % p == (k * (1 + w)) % p);
    assert(f % p == (-(k * (1 - w))) % p) by {
        fp::lemma_cong_sub(g, k * (1 + w), c, 2 * k);
        lemma_mul_is_distributive_add(k, 1, w);
        lemma_mul_is_distributive_sub(k, 1, w);
    }
    if k % p == 0 {
        field_laws::lemma_no_zero_divisors(z, z);
    }
    if g % p == 0 {
        field_laws::lemma_no_zero_divisors(k, 1 + w);
    }
    if f % p == 0 {
        fp::lemma_zero_neg(k * (1 - w));
        field_laws::lemma_no_zero_divisors(k, 1 - w);
    }
    lemma_scaled(k, q.x, 1 + w, nx);
    lemma_scaled(k, q.y, 1 - w, ny);
    fp::lemma_cong_mul(q.x, q.x, g, k * (1 + w));
    fp::lemma_cong_mul(q.y, q.y, f, -(k * (1 - w)));
    lemma_mul_unary_negation(q.y, k * (1 - w));
    fp::lemma_cong_sub(0, 0, b + a, k * ny);
    fp::lemma_cong_sub(0, 0, k * ny, q.y * (k * (1 - w)));
}

/// Completed coordinates may be reduced.
proof fn lemma_completed_mod(e: int, f: int, g: int, h: int, a: Point)
    requires
        completed(e, f, g, h, a),
    ensures
        completed(e % fp::p(), f % fp::p(), g % fp::p(), h % fp::p(), a),
{
    fp::lemma_cong_mul(a.x, a.x, g % fp::p(), g);
    fp::lemma_cong_mul(a.y, a.y, f % fp::p(), f);
}

/// The coordinates of a sum, from `A`, `B`, `C` and `D` of the addition formulas.
pub open spec fn sum_coords(a: int, b: int, c: int, d: int) -> (int, int, int, int) {
    let e = fp::fsub(b, a);
    let f = fp::fsub(d, c);
    let g = fp::fadd(d, c);
    let h = fp::fadd(b, a);
    (fp::fmul(e, f), fp::fmul(g, h), fp::fmul(f, g), fp::fmul(e, h))
}

/// Mixed addition computes the sum.
proof fn lemma_add_mixed(
    x: int,
    y: int,
    z: int,
    t: int,
    a1: Point,
    ypx: int,
    ymx: int,
    z2: int,
    t2d: int,
    a2: Point,
    dd: int,
)
    requires
        represents(x, y, z, t, a1),
        represents_cached(ypx, ymx, z2, t2d, a2),
        dd % fp::p() == (z * z2) % fp::p(),
    ensures
        ({
            let r = sum_coords(
                fp::fmul(fp::fsub(y, x), ymx),
                fp::fmul(fp::fadd(y, x), ypx),
                fp::fmul(t, t2d),
                dd,
            );
            represents(r.0, r.1, r.2, r.3, curve::sum(a1, a2))
        }),
{
    let a = fp::fmul(fp::fsub(y, x), ymx);
    let b = fp::fmul(fp::fadd(y, x), ypx);
    let c = fp::fmul(t, t2d);
    let s = curve::sum(a1, a2);
    fp::lemma_fmul_mod(y - x, ymx);
    fp::lemma_fmul_mod(y + x, ypx);
    lemma_add_completed(x, y, z, t, a1, ypx, ymx, z2, t2d, a2, a, b, c, dd);
    lemma_completed_mod(b - a, dd - c, dd + c, b + a, s);
    lemma_completed(fp::fsub(b, a), fp::fsub(dd, c), fp::fadd(dd, c), fp::fadd(b, a), s);
}

proof fn lemma_doubled_product(z1: int, z2: int)
    ensures
        fp::fadd(fp::fmul(z1, z2), fp::fmul(z1, z2)) % fp::p() == (z1 * fp::fadd(z2, z2)) % fp::p(),
{
    let zz = fp::fmul(z1, z2);
    fp::lemma_cong_mul(z1, z1, fp::fadd(z2, z2), 2 * z2);
    lemma_double_product(z1, z2);
    fp::lemma_cong_mul(2, 2, zz, z1 * z2);
}

proof fn lemma_product_of_three(a: int, b: int, c: int)
    ensures
        fp::fmul(a, fp::fmul(b, c)) == fp::fmul(fp::fmul(a, b), c),
{
    fp::lemma_cong_mul(a, a, fp::fmul(b, c), b * c);
    fp::lemma_cong_mul(fp::fmul(a, b), a * b, c, c);
    lemma_mul_is_associative(a, b, c);
}

/// Addition of extended coordinates computes the sum.
pub proof fn lemma_add_extended(
    x1: int,
    y1: int,
    z1: int,
    t1: int,
    a1: Point,
    x2: int,
    y2: int,
    z2: int,
    t2: int,
    a2: Point,
)
    requires
        represents(x1, y1, z1, t1, a1),
        represents(x2, y2, z2, t2, a2),
    ensures
        ({
            let zz = fp::fmul(z1, z2);
            let r = sum_coords(
                fp::fmul(fp::fsub(y1, x1), fp::fsub(y2, x2)),
                fp::fmul(fp::fadd(y1, x1), fp::fadd(y2, x2)),
                fp::fmul(fp::fmul(t1, t2), fp::fadd(fp::d(), fp::d())),
                fp::fadd(zz, zz),
            );
            represents(r.0, r.1, r.2, r.3, curve::sum(a1, a2))
        }),
{
    let d2 = fp::fadd(fp::d(), fp::d());
    let ypx = fp::fadd(y2, x2);
    let ymx = fp::fsub(y2, x2);
    let zc = fp::fadd(z2, z2);
    let tc = fp::fmul(t2, d2);
    lemma_cache_ops(x2, y2, z2, t2, a2);
    let zz = fp::fmul(z1, z2);
    let dd = fp::fadd(zz, zz);
    lemma_doubled_product(z1, z2);
    lemma_add_mixed(x1, y1, z1, t1, a1, ypx, ymx, zc, tc, a2, dd);
    lemma_product_of_three(t1, t2, d2);
}

/// The coordinates of a double, from `X^2`, `Y^2`, `2Z^2` and `(X+Y)^2`.
pub open spec fn double_coords(a: int, b: int, c: int, s: int) -> (int, int, int, int) {
    let e = fp::fsub(s, fp::fadd(a, b));
    let f = fp::fsub(b, fp::fadd(a, c));
    let g = fp::fsub(b, a);
    let h = fp::fneg(fp::fadd(a, b));
    (fp::fmul(e, f), fp::fmul(g, h), fp::fmul(f, g), fp::fmul(e, h))
}

/// Doubling computes the sum of a point with itself.
pub proof fn lemma_double(x: int, y: int, z: int, q: Point)
    requires
        represents_xyz(x, y, z, q),
    ensures
        ({
            let zz = fp::fmul(z, z);
            let r = double_coords(
                fp::fmul(x, x),
                fp::fmul(y, y),
                fp::fadd(zz, zz),
                fp::fmul(fp::fadd(x, y), fp::fadd(x, y)),
            );
            represents(r.0, r.1, r.2, r.3, curve::sum(q, q))
        }),
{
    let a = fp::fmul(x, x);
    let b = fp::fmul(y, y);
    let zz = fp::fmul(z, z);
    let c = fp::fadd(zz, zz);
    let s = fp::fmul(fp::fadd(x, y), fp::fadd(x, y));
    let r = curve::sum(q, q);
    lemma_double_squares_mod(x, y, z);
    lemma_double_completed(x, y, z, q, a, b, c, s);
    lemma_completed_mod(s - (a + b), b - (a + c), b - a, -(a + b), r);
    lemma_double_ops(a, b, c, s);
    lemma_completed(
        fp::fsub(s, fp::fadd(a, b)),
        fp::fsub(b, fp::fadd(a, c)),
        fp::fsub(b, a),
        fp::fneg(fp::fadd(a, b)),
        r,
    );
}

/// The squares that doubling starts from.
proof fn lemma_double_squares_mod(x: int, y: int, z: int)
    ensures
        fp::fmul(x, x) % fp::p() == (x * x) % fp::p(),
        fp::fmul(y, y) % fp::p() == (y * y) % fp::p(),
        fp::fadd(fp::fmul(z, z), fp::fmul(z, z)) % fp::p() == (2 * (z * z)) % fp::p(),
        fp::fmul(fp::fadd(x, y), fp::fadd(x, y)) % fp::p() == ((x + y) * (x + y)) % fp::p(),
{
    let zz = fp::fmul(z, z);
    fp::lemma_fmul_mod(x + y, x + y);
    fp::lemma_cong_mul(2, 2, zz, z * z);
}

/// The differences that doubling takes.
proof fn lemma_double_ops(a: int, b: int, c: int, s: int)
    ensures
        fp::fsub(s, fp::fadd(a, b)) == (s - (a + b)) % fp::p(),
        fp::fsub(b, fp::fadd(a, c)) == (b - (a + c)) % fp::p(),
        fp::fsub(b, a) == (b - a) % fp::p(),
        fp::fneg(fp::fadd(a, b)) == (-(a + b)) % fp::p(),
{
    fp::lemma_cong_sub(s, s, fp::fadd(a, b), a + b);
    fp::lemma_cong_sub(b, b, fp::fadd(a, c), a + c);
    fp::lemma_cong_sub(0, 0, fp::fadd(a, b), a + b);
}

/// A point is neutral exactly when `X = 0` and `Y = Z`.
pub proof fn lemma_is_identity(x: int, y: int, z: int, a: Point)
    requires
        represents_xyz(x, y, z, a),
        0 <= x < fp::p(),
        0 <= y < fp::p(),
        0 <= z < fp::p(),
    ensures
        (a == curve::identity()) == (x == 0 && y == z),
{
    let p = fp::p();
    fp::lemma_small_residue(x);
    fp::lemma_small_residue(y);
    fp::lemma_small_residue(z);
    if x == 0 && y == z {
        field_laws::lemma_no_zero_divisors(a.x, z);
        fp::lemma_small_residue(a.x);
        field_laws::lemma_cancel(a.y, 1, z);
        fp::lemma_small_residue(a.y);
    }
}

/// Coordinates represent the affine point `b` exactly when they are its multiple by `Z`.
pub proof fn lemma_equals_affine(x: int, y: int, z: int, b: Point)
    requires
        0 <= x < fp::p(),
        0 <= y < fp::p(),
        z % fp::p() != 0,
        curve::on_curve(b),
    ensures
        represents_xyz(x, y, z, b) == (x == fp::fmul(b.x, z) && y == fp::fmul(b.y, z)),
{
    fp::lemma_small_residue(x);
    fp::lemma_small_residue(y);
}

/// A point with `Z = 1`.
pub proof fn lemma_affine_represents(a: Point)
    requires
        curve::on_curve(a),
    ensures
        represents(a.x, a.y, 1, fp::fmul(a.x, a.y), a),
{
}

/// The coordinates `(0 : 1 : 1 : 0)` of the neutral element.
pub proof fn lemma_identity_represents()
    ensures
        represents(0, 1, 1, 0, curve::identity()),
{
    curve::lemma_identity_on_curve();
    assert(0int * 1 == 0);
    lemma_affine_represents(curve::identity());
}

/// The cached form of an affine point, computed by field operations.
pub proof fn lemma_affine_cache_ops(a: Point)
    requires
        curve::on_curve(a),
    ensures
        represents_affine_cached(
            fp::fadd(a.y, a.x),
            fp::fsub(a.y, a.x),
            fp::fmul(fp::fmul(a.x, a.y), fp::fadd(fp::d(), fp::d())),
            a,
        ),
{
    let d = fp::d();
    let m = a.x * a.y;
    fp::lemma_cong_mul(fp::fmul(a.x, a.y), m, fp::fadd(d, d), 2 * d);
    lemma_mul_is_associative(m, 2, d);
    lemma_mul_is_associative(2, m, d);
    lemma_mul_is_commutative(m, d);
    assert(m * (2 * d) == 2 * (d * m));
}

/// The affine cached form `(1, 1, 0)` of the neutral element.
pub proof fn lemma_identity_affine_cached()
    ensures
        represents_affine_cached(1, 1, 0, curve::identity()),
{
    curve::lemma_identity_on_curve();
    assert(0int * 1 == 0);
    lemma_mul_by_zero_is_zero(fp::d());
}

/// Mixed addition with cached coordinates.
pub proof fn lemma_add_cached(
    x: int,
    y: int,
    z: int,
    t: int,
    a1: Point,
    ypx: int,
    ymx: int,
    z2: int,
    t2d: int,
    a2: Point,
)
    requires
        represents(x, y, z, t, a1),
        represents_cached(ypx, ymx, z2, t2d, a2),
    ensures
        ({
            let r = sum_coords(
                fp::fmul(fp::fsub(y, x), ymx),
                fp::fmul(fp::fadd(y, x), ypx),
                fp::fmul(t, t2d),
                fp::fmul(z, z2),
            );
            represents(r.0, r.1, r.2, r.3, curve::sum(a1, a2))
        }),
{
    lemma_add_mixed(x, y, z, t, a1, ypx, ymx, z2, t2d, a2, fp::fmul(z, z2));
}

/// Mixed addition with affine cached coordinates.
pub proof fn lemma_add_affine_cached(
    x: int,
    y: int,
    z: int,
    t: int,
    a1: Point,
    ypx: int,
    ymx: int,
    t2d: int,
    a2: Point,
)
    requires
        represents(x, y, z, t, a1),
        represents_affine_cached(ypx, ymx, t2d, a2),
    ensures
        ({
            let r = sum_coords(
                fp::fmul(fp::fsub(y, x), ymx),
                fp::fmul(fp::fadd(y, x), ypx),
                fp::fmul(t, t2d),
                fp::fadd(z, z),
            );
            represents(r.0, r.1, r.2, r.3, curve::sum(a1, a2))
        }),
{
    lemma_affine_is_cached(ypx, ymx, t2d, a2);
    lemma_add_mixed(x, y, z, t, a1, ypx, ymx, 2, t2d, a2, fp::fadd(z, z));
}

} // verus!
