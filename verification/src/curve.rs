//! The group of points of the twisted Edwards curve `-x^2 + y^2 = 1 + d x^2 y^2`.
use crate::curve_algebra;
use crate::field_laws;
use crate::fp;
use vstd::arithmetic::mul::*;
use vstd::prelude::*;

verus! {

broadcast use fp::group_field_ops;

/// A point in affine coordinates.
pub struct Point {
    pub x: int,
    pub y: int,
}

/// Reduced coordinates that satisfy the curve equation.
pub open spec fn on_curve(a: Point) -> bool {
    &&& 0 <= a.x < fp::p()
    &&& 0 <= a.y < fp::p()
    &&& curve_algebra::curve_eq(fp::d(), a.x, a.y) % fp::p() == 0
}

/// The neutral element.
pub open spec fn identity() -> Point {
    Point { x: 0, y: 1 }
}

/// The inverse of a point.
pub open spec fn neg(a: Point) -> Point {
    Point { x: fp::fneg(a.x), y: a.y }
}

/// `d x1 x2 y1 y2`, the term that perturbs the denominators of a sum.
pub open spec fn cross(a: Point, b: Point) -> int {
    fp::d() * (a.x * b.x * (a.y * b.y))
}

/// Numerator of the `x` coordinate of a sum.
pub open spec fn num_x(a: Point, b: Point) -> int {
    a.x * b.y + a.y * b.x
}

/// Numerator of the `y` coordinate of a sum.
pub open spec fn num_y(a: Point, b: Point) -> int {
    a.y * b.y + a.x * b.x
}

/// The sum of two points.
pub open spec fn sum(a: Point, b: Point) -> Point {
    Point {
        x: fp::fmul(num_x(a, b), field_laws::finv(1 + cross(a, b))),
        y: fp::fmul(num_y(a, b), field_laws::finv(1 - cross(a, b))),
    }
}

/// `c` satisfies the defining equations of `a + b`.
pub open spec fn is_sum(a: Point, b: Point, c: Point) -> bool {
    &&& (c.x * (1 + cross(a, b))) % fp::p() == num_x(a, b) % fp::p()
    &&& (c.y * (1 - cross(a, b))) % fp::p() == num_y(a, b) % fp::p()
}

/// If `d x1 x2 y1 y2 = e` with `e = 1` or `e = -1`, then `x1 y1 (i x2 + y2)` vanishes.
proof fn lemma_exceptional(a: Point, x2: int, y2: int, e: int)
    requires
        on_curve(a),
        curve_algebra::curve_eq(fp::d(), x2, y2) % fp::p() == 0,
        e == 1 || e == -1,
        (fp::d() * (a.x * x2 * (a.y * y2)) - e) % fp::p() == 0,
    ensures
        (a.x * a.y * (fp::sqrt_m1() * x2 + y2)) % fp::p() == 0,
{
    let d = fp::d();
    let j = fp::sqrt_m1();
    let w = a.x * a.y * (j * x2 + y2);
    let v = j * a.x + e * a.y;
    let e1 = curve_algebra::curve_eq(d, a.x, a.y);
    let e2 = curve_algebra::curve_eq(d, x2, y2);
    let t = d * (a.x * x2 * (a.y * y2)) - e;
    curve_algebra::lemma_completeness_identity(d, j, e, a.x, a.y, x2, y2);
    field_laws::lemma_sqrt_m1();
    let c2 = d * (a.x * a.y * (a.x * a.y));
    let cj = d * (a.x * a.y * (a.x * a.y)) * (x2 * x2) - a.x * a.x;
    let ct = d * (a.x * x2 * (a.y * y2)) + e;
    let cs = j * (a.x * a.y);
    fp::lemma_zero_mul(e2, c2);
    fp::lemma_zero_mul(j * j + 1, cj);
    fp::lemma_zero_mul(t, ct);
    fp::lemma_zero_mul(t, cs);
    assert(e * e - 1 == 0) by (nonlinear_arith)
        requires
            e == 1 || e == -1,
    ;
    lemma_mul_by_zero_is_zero(1 - a.y * a.y);
    assert((1 - a.y * a.y) * (e * e - 1) == 0);
    fp::lemma_zero_add(c2 * e2, e1);
    fp::lemma_zero_add(c2 * e2 - e1, (j * j + 1) * cj);
    fp::lemma_zero_add(c2 * e2 - e1 + (j * j + 1) * cj, t * ct);
    fp::lemma_zero_add(cs * t, cs * t);
    fp::lemma_zero_add(c2 * e2 - e1 + (j * j + 1) * cj + t * ct, cs * t + cs * t);
    fp::lemma_cong_diff(d * (w * w), v * v);
    field_laws::lemma_d_nonsquare(w, v);
}

/// Completeness: the denominators of a sum never vanish.
pub proof fn lemma_complete(a: Point, b: Point)
    requires
        on_curve(a),
        on_curve(b),
    ensures
        (1 + cross(a, b)) % fp::p() != 0,
        (1 - cross(a, b)) % fp::p() != 0,
{
    lemma_no_exception(a, b, -1);
    lemma_no_exception(a, b, 1);
    fp::lemma_zero_neg(1 - cross(a, b));
}

proof fn lemma_no_exception(a: Point, b: Point, e: int)
    requires
        on_curve(a),
        on_curve(b),
        e == 1 || e == -1,
    ensures
        (cross(a, b) - e) % fp::p() != 0,
{
    if (cross(a, b) - e) % fp::p() == 0 {
        let d = fp::d();
        let j = fp::sqrt_m1();
        let p = fp::p();
        let u = a.x * a.y;
        let f = j * b.x + b.y;
        let g = j * b.x - b.y;
        lemma_exceptional(a, b.x, b.y, e);
        // the same for the mirrored point (x2, -y2) and -e
        assert((-b.y) * (-b.y) == b.y * b.y) by (nonlinear_arith);
        assert(d * (a.x * b.x * (a.y * (-b.y))) == -cross(a, b)) by {
            lemma_mul_unary_negation(a.y, b.y);
            lemma_mul_unary_negation(a.x * b.x, a.y * b.y);
            lemma_mul_unary_negation(d, a.x * b.x * (a.y * b.y));
        }
        assert((-cross(a, b) - (-e)) % p == 0);
        lemma_exceptional(a, b.x, -b.y, -e);
        assert(j * b.x + (-b.y) == g);
        if u % p == 0 {
            // then the cross term vanishes
            assert(a.x * b.x * (a.y * b.y) == u * (b.x * b.y)) by (nonlinear_arith)
                requires
                    u == a.x * a.y,
            ;
            fp::lemma_zero_mul(u, b.x * b.y);
            fp::lemma_zero_mul(u * (b.x * b.y), d);
            assert(cross(a, b) % p == 0);
        } else {
            field_laws::lemma_no_zero_divisors(u, f);
            field_laws::lemma_no_zero_divisors(u, g);
            assert((f - g) % p == 0);
            assert(f - g == 2 * b.y);
            field_laws::lemma_no_zero_divisors(2, b.y);
            assert(b.y % p == 0);
            assert(b.y == 0);
            assert(a.y * b.y == 0);
            assert(cross(a, b) == 0);
        }
    }
}

/// The sum satisfies its defining equations.
pub proof fn lemma_add_is_sum(a: Point, b: Point)
    requires
        on_curve(a),
        on_curve(b),
    ensures
        is_sum(a, b, sum(a, b)),
{
    lemma_complete(a, b);
    lemma_quotient(num_x(a, b), 1 + cross(a, b));
    lemma_quotient(num_y(a, b), 1 - cross(a, b));
}

proof fn lemma_quotient(n: int, u: int)
    requires
        u % fp::p() != 0,
    ensures
        (fp::fmul(n, field_laws::finv(u)) * u) % fp::p() == n % fp::p(),
{
    let i = field_laws::finv(u);
    field_laws::lemma_inverse(u);
    fp::lemma_cong_mul(fp::fmul(n, i), n * i, u, u);
    lemma_mul_is_associative(n, i, u);
    lemma_mul_is_commutative(i, u);
    fp::lemma_cong_mul(n, n, u * i, 1);
}

/// The defining equations determine the sum.
pub proof fn lemma_sum_unique(a: Point, b: Point, c: Point)
    requires
        on_curve(a),
        on_curve(b),
        0 <= c.x < fp::p(),
        0 <= c.y < fp::p(),
        is_sum(a, b, c),
    ensures
        c == sum(a, b),
{
    lemma_complete(a, b);
    lemma_add_is_sum(a, b);
    let s = sum(a, b);
    field_laws::lemma_cancel(c.x, s.x, 1 + cross(a, b));
    field_laws::lemma_cancel(c.y, s.y, 1 - cross(a, b));
    fp::lemma_small_residue(c.x);
    fp::lemma_small_residue(c.y);
    fp::lemma_small_residue(s.x);
    fp::lemma_small_residue(s.y);
}

/// The sum of two points of the curve lies on the curve.
pub proof fn lemma_closed(a: Point, b: Point)
    requires
        on_curve(a),
        on_curve(b),
    ensures
        on_curve(sum(a, b)),
{
    let d = fp::d();
    let p = fp::p();
    let s = sum(a, b);
    let m = a.x * b.x * (a.y * b.y);
    let u = 1 + cross(a, b);
    let v = 1 - cross(a, b);
    let na = num_x(a, b);
    let nb = num_y(a, b);
    let e1 = curve_algebra::curve_eq(d, a.x, a.y);
    let e2 = curve_algebra::curve_eq(d, b.x, b.y);
    let es = curve_algebra::curve_eq(d, s.x, s.y);
    lemma_complete(a, b);
    lemma_add_is_sum(a, b);
    let h1 = s.x * u - na;
    let h2 = s.y * v - nb;
    fp::lemma_cong_diff(s.x * u, na);
    fp::lemma_cong_diff(s.y * v, nb);
    let cleared = nb * nb * (u * u) - na * na * (v * v) - u * v * (u * v) - d * (na * na * (nb * nb));
    // the cleared equation is a combination of the two curve equations
    assert(cleared % p == 0) by {
        let q1 = a.x * a.x;
        let r1 = a.y * a.y;
        let q2 = b.x * b.x;
        let r2 = b.y * b.y;
        curve_algebra::lemma_sum_square_x(a.x, a.y, b.x, b.y);
        curve_algebra::lemma_sum_square_y(a.x, a.y, b.x, b.y);
        curve_algebra::lemma_cross_square(a.x, a.y, b.x, b.y);
        curve_algebra::lemma_cross_product(d, a.x, a.y, b.x, b.y);
        curve_algebra::lemma_closure_squares(d, q1, r1, q2, r2, m);
        let z = m * m - q1 * r1 * (q2 * r2);
        assert(z == 0);
        let cz = 4 * d;
        lemma_mul_by_zero_is_zero(cz);
        assert(cz * z == 0);
        let k1 = d * (q1 * r1);
        let k2 = d * (q2 * r2);
        assert(d * m * (d * m) == k1 * k2);
        curve_algebra::lemma_closure_residual(k1, k2, e1, e2);
        assert(r1 - q1 == 1 + k1 + e1);
        assert(r2 - q2 == 1 + k2 + e2);
        let c1 = (1 + k2 + e2) * (1 + k1 * k2) - k2 * (2 * (1 + k1) + e1);
        let c2 = (1 + k1) * (1 + k1 * k2) - k1 * (2 * (1 + k2) + e2);
        fp::lemma_zero_mul(e1, c1);
        fp::lemma_zero_mul(e2, c2);
        fp::lemma_zero_add(e1 * c1, e2 * c2);
        assert(na * na == q1 * r2 + r1 * q2 + 2 * m);
        assert(nb * nb == r1 * r2 + q1 * q2 + 2 * m);
        assert(u == 1 + d * m && v == 1 - d * m);
        assert(nb * nb * (u * u) == (r1 * r2 + q1 * q2 + 2 * m) * (u * u));
        assert(na * na * (v * v) == (q1 * r2 + r1 * q2 + 2 * m) * (v * v));
        assert(na * na * (nb * nb) == (q1 * r2 + r1 * q2 + 2 * m) * (r1 * r2 + q1 * q2 + 2 * m));
        assert((r1 - q1) * (r2 - q2) == (1 + k1 + e1) * (1 + k2 + e2));
        assert((r2 - q2) * (r2 - q2) == (1 + k2 + e2) * (1 + k2 + e2));
        assert((r1 - q1) * (r1 - q1) == (1 + k1 + e1) * (1 + k1 + e1));
        let ab = (r1 - q1) * (r2 - q2);
        assert(ab * (1 + k1 * k2) == (1 + k1 + e1) * (1 + k2 + e2) * (1 + k1 * k2));
        assert(k1 * ((r2 - q2) * (r2 - q2)) == k1 * ((1 + k2 + e2) * (1 + k2 + e2)));
        assert(k2 * ((r1 - q1) * (r1 - q1)) == k2 * ((1 + k1 + e1) * (1 + k1 + e1)));
        assert(cleared == ab * (1 + k1 * k2) - (1 - k1 * k2) * (1 - k1 * k2) - k1 * ((r2 - q2) * (r2 - q2))
            - k2 * ((r1 - q1) * (r1 - q1)) + cz * z);
        assert(cleared == e1 * c1 + e2 * c2);
    }
    assert((u * v * (u * v) * es) % p == 0) by {
        curve_algebra::lemma_closure_denominators(d, s.x, s.y, na, nb, u, v);
        fp::lemma_zero_mul(h2, (s.y * v + nb) * (u * u));
        fp::lemma_zero_mul(h1, (s.x * u + na) * (v * v));
        fp::lemma_zero_mul(h2, (s.y * v + nb) * (s.x * u * (s.x * u)));
        fp::lemma_zero_mul(h1, (s.x * u + na) * (nb * nb));
        let rest = h2 * ((s.y * v + nb) * (s.x * u * (s.x * u))) + h1 * ((s.x * u + na) * (nb * nb));
        fp::lemma_zero_mul(rest, d);
    }
    field_laws::lemma_no_zero_divisors(u * v * (u * v), es);
    if (u * v * (u * v)) % p == 0 {
        field_laws::lemma_no_zero_divisors(u * v, u * v);
        field_laws::lemma_no_zero_divisors(u, v);
    }
}

/// Addition is commutative.
pub proof fn lemma_commutative(a: Point, b: Point)
    ensures
        sum(a, b) == sum(b, a),
{
    lemma_mul_is_commutative(a.x, b.x);
    lemma_mul_is_commutative(a.y, b.y);
    lemma_mul_is_commutative(a.x, b.y);
    lemma_mul_is_commutative(a.y, b.x);
}

/// The neutral element lies on the curve.
pub proof fn lemma_identity_on_curve()
    ensures
        on_curve(identity()),
{
    assert(0int * 0 * (1int * 1) == 0);
    lemma_mul_by_zero_is_zero(fp::d());
    assert(curve_algebra::curve_eq(fp::d(), 0, 1) == 0);
}

/// The neutral element is neutral.
pub proof fn lemma_identity(a: Point)
    requires
        on_curve(a),
    ensures
        on_curve(identity()),
        sum(a, identity()) == a,
        sum(identity(), a) == a,
{
    let o = identity();
    lemma_identity_on_curve();
    lemma_mul_basics(a.x);
    lemma_mul_basics(a.y);
    lemma_mul_by_zero_is_zero(a.y * o.y);
    lemma_mul_by_zero_is_zero(fp::d());
    assert(cross(a, o) == 0);
    assert(num_x(a, o) == a.x);
    assert(num_y(a, o) == a.y);
    lemma_sum_unique(a, o, a);
    lemma_commutative(a, o);
}

/// The mirrored point lies on the curve.
pub proof fn lemma_neg_on_curve(a: Point)
    requires
        on_curve(a),
    ensures
        on_curve(neg(a)),
        neg(neg(a)) == a,
{
    let p = fp::p();
    let d = fp::d();
    let b = neg(a);
    let xx = b.x * b.x;
    let yy = a.y * a.y;
    let u = a.x * a.x;
    fp::lemma_neg_residue(a.x);
    fp::lemma_cong_mul(b.x, -a.x, b.x, -a.x);
    assert((-a.x) * (-a.x) == u) by (nonlinear_arith)
        requires
            u == a.x * a.x,
    ;
    fp::lemma_cong_mul(xx, u, yy, yy);
    fp::lemma_cong_mul(d, d, xx * yy, u * yy);
    let k = d * (u * yy);
    let l = d * (xx * yy);
    fp::lemma_cong_sub(yy - 1, yy - 1, xx, u);
    fp::lemma_cong_sub(yy - 1 - xx, yy - 1 - u, l, k);
    assert(yy - 1 - u - k == curve_algebra::curve_eq(d, a.x, a.y));
    assert(yy - 1 - xx - l == curve_algebra::curve_eq(d, b.x, b.y));
}

/// The mirrored point is the inverse.
pub proof fn lemma_inverse(a: Point)
    requires
        on_curve(a),
    ensures
        on_curve(neg(a)),
        neg(neg(a)) == a,
        sum(a, neg(a)) == identity(),
        sum(neg(a), a) == identity(),
{
    let p = fp::p();
    let d = fp::d();
    let b = neg(a);
    let yy = a.y * a.y;
    let u = a.x * a.x;
    let c = cross(a, b);
    let q = d * (u * yy);
    lemma_neg_on_curve(a);
    fp::lemma_neg_residue(a.x);
    fp::lemma_cong_mul(a.x, a.x, b.x, -a.x);
    lemma_mul_unary_negation(a.x, a.x);
    assert((a.x * b.x) % p == (-u) % p);
    assert(c % p == (-q) % p) by {
        fp::lemma_cong_mul(a.x * b.x, -u, yy, yy);
        lemma_mul_unary_negation(u, yy);
        fp::lemma_cong_mul(d, d, a.x * b.x * yy, -(u * yy));
        lemma_mul_unary_negation(d, u * yy);
    }
    assert(num_x(a, b) % p == 0) by {
        let xy = a.x * a.y;
        fp::lemma_cong_mul(a.y, a.y, b.x, -a.x);
        lemma_mul_unary_negation(a.y, a.x);
        lemma_mul_is_commutative(a.x, a.y);
        fp::lemma_cong_sub(xy, xy, a.y * b.x, -xy);
    }
    assert(num_y(a, b) % p == (1 - c) % p) by {
        let e = curve_algebra::curve_eq(d, a.x, a.y);
        fp::lemma_cong_sub(yy, yy, a.x * b.x, -u);
        fp::lemma_cong_sub(1, 1, c, -q);
        fp::lemma_cong_sub(1 + q, 1 + q, e, 0);
        assert(yy - u == 1 + q + e);
    }
    assert(is_sum(a, b, identity())) by {
        assert(0 * (1 + c) == 0);
        assert(1 * (1 - c) == 1 - c);
    }
    lemma_sum_unique(a, b, identity());
    lemma_commutative(a, b);
}

/// Clears the denominators `u` and `v` in the equation of the `x` coordinate of a nested sum.
proof fn lemma_clear_nested(c: int, x: int, y: int, a: int, b: int, u: int, v: int, s: int, t: int)
    requires
        (x * u) % fp::p() == a % fp::p(),
        (y * v) % fp::p() == b % fp::p(),
        (c * (1 + fp::d() * (x * s * (y * t)))) % fp::p() == (x * t + y * s) % fp::p(),
    ensures
        (c * (u * v + fp::d() * (a * b) * (s * t))) % fp::p() == (a * v * t + b * u * s) % fp::p(),
        (u * v + fp::d() * (a * b) * (s * t)) % fp::p() == (u * v * (1 + fp::d() * (x * s * (y * t))))
            % fp::p(),
{
    let p = fp::p();
    let d = fp::d();
    let m = 1 + d * (x * s * (y * t));
    let xu = x * u;
    let yv = y * v;
    curve_algebra::lemma_nested_denominator(d, x, y, u, v, s, t);
    curve_algebra::lemma_nested_numerator(x, y, u, v, s, t);
    // the denominator
    fp::lemma_cong_mul(xu, a, yv, b);
    fp::lemma_cong_mul(d, d, xu * yv, a * b);
    fp::lemma_cong_mul(d * (xu * yv), d * (a * b), s * t, s * t);
    fp::lemma_cong_sub(u * v, u * v, d * (xu * yv) * (s * t), d * (a * b) * (s * t));
    let den = u * v + d * (a * b) * (s * t);
    assert(den % p == (u * v * m) % p);
    // the numerator
    fp::lemma_cong_mul(xu, a, v, v);
    fp::lemma_cong_mul(xu * v, a * v, t, t);
    fp::lemma_cong_mul(yv, b, u, u);
    fp::lemma_cong_mul(yv * u, b * u, s, s);
    fp::lemma_cong_sub(xu * v * t, a * v * t, yv * u * s, b * u * s);
    let num = a * v * t + b * u * s;
    assert(num % p == (u * v * (x * t + y * s)) % p);
    fp::lemma_cong_mul(u * v, u * v, c * m, x * t + y * s);
    fp::lemma_cong_mul(c, c, den, u * v * m);
    assert(c * (u * v * m) == u * v * (c * m)) by {
        lemma_mul_is_associative(c, u * v, m);
        lemma_mul_is_commutative(c, u * v);
        lemma_mul_is_associative(u * v, c, m);
    }
}

/// The cross-multiplied difference of `(a + b) + c` and `a + (b + c)` vanishes in `x`.
proof fn lemma_assoc_cross_zero(a: Point, b: Point, c: Point)
    requires
        on_curve(a),
        on_curve(b),
        on_curve(c),
    ensures
        ({
            let d = fp::d();
            let w = cross(a, b);
            let na = num_x(a, b);
            let nb = num_y(a, b);
            let k = d * (b.x * b.y);
            let v = d * (b.x * b.x * (b.y * b.y));
            let m = d * (a.x * a.y * (b.x * b.x + b.y * b.y));
            let nl = na * (1 - w) * c.y + nb * (1 + w) * c.x;
            let dl = 1 - w * w + d * (na * nb) * (c.x * c.y);
            let nr = na * c.y + nb * c.x + k * (c.x * c.y) * ((a.x * b.y - a.y * b.x) * c.y + (a.x * b.x
                - a.y * b.y) * c.x);
            let dr = 1 + v + (w - v) * (c.y * c.y) + (w + v) * (c.x * c.x) + m * (c.x * c.y);
            (nl * dr - nr * dl) % fp::p() == 0
        }),
{
    let d = fp::d();
    let w = cross(a, b);
    let na = num_x(a, b);
    let nb = num_y(a, b);
    let k = d * (b.x * b.y);
    let v = d * (b.x * b.x * (b.y * b.y));
    let r = d * (a.x * a.x * (a.y * a.y));
    let m = d * (a.x * a.y * (b.x * b.x + b.y * b.y));
    let ca = a.x * b.y - a.y * b.x;
    let cb = a.x * b.x - a.y * b.y;
    let s = c.x;
    let t = c.y;
    let e1 = curve_algebra::curve_eq(d, a.x, a.y);
    let e2 = curve_algebra::curve_eq(d, b.x, b.y);
    let e3 = curve_algebra::curve_eq(d, s, t);
    let z1 = (1 - w) * (v - w) + k * (nb * ca);
    let z2 = (1 + w) * (v + w) + k * (na * cb);
    let w1 = na * (1 - w) * m + 2 * (nb * w * (1 + w)) - (1 - w * w) * (k * ca) - d * (na * nb) * na;
    let w2 = 2 * (na * (1 - w) * w) + nb * (1 + w) * m - (1 - w * w) * (k * cb) - d * (na * nb) * nb;
    assert(z1 % fp::p() == 0) by {
        curve_algebra::lemma_assoc_first(d, a.x, a.y, b.x, b.y);
        fp::lemma_zero_mul(e2, w);
        fp::lemma_zero_mul(e1, v);
        fp::lemma_zero_add(w * e2, v * e1);
    }
    assert(z2 % fp::p() == 0) by {
        curve_algebra::lemma_assoc_second(d, a.x, a.y, b.x, b.y);
        fp::lemma_zero_mul(e2, w);
        fp::lemma_zero_mul(e1, v);
        fp::lemma_zero_add(0, v * e1);
        fp::lemma_zero_add(0 - v * e1, w * e2);
    }
    assert((e1 - r * e2) % fp::p() == 0) by {
        fp::lemma_zero_mul(e2, r);
        fp::lemma_zero_add(e1, r * e2);
    }
    assert(w1 % fp::p() == 0) by {
        curve_algebra::lemma_assoc_third(d, a.x, a.y, b.x, b.y);
        fp::lemma_zero_mul(e1 - r * e2, k * ca);
    }
    assert(w2 % fp::p() == 0) by {
        curve_algebra::lemma_assoc_fourth(d, a.x, a.y, b.x, b.y);
        fp::lemma_zero_mul(e1 - r * e2, k * cb);
    }
    let p1 = na * z1 * t;
    let p2 = nb * z2 * s;
    fp::lemma_zero_mul(z1, na);
    fp::lemma_zero_mul(na * z1, t);
    fp::lemma_zero_mul(z2, nb);
    fp::lemma_zero_mul(nb * z2, s);
    fp::lemma_zero_add(p1, p2);
    fp::lemma_zero_mul(p1 + p2, 1 + s * s - t * t);
    fp::lemma_zero_mul(w1, t);
    fp::lemma_zero_mul(w2, s);
    fp::lemma_zero_add(w1 * t, w2 * s);
    fp::lemma_zero_mul(w1 * t + w2 * s, s * t);
    fp::lemma_zero_mul(e3, na * nb * k);
    fp::lemma_zero_mul(na * nb * k * e3, ca * t + cb * s);
    fp::lemma_zero_add((1 + s * s - t * t) * (p1 + p2), s * t * (w1 * t + w2 * s));
    fp::lemma_zero_add(
        (1 + s * s - t * t) * (p1 + p2) + s * t * (w1 * t + w2 * s),
        na * nb * k * e3 * (ca * t + cb * s),
    );
    curve_algebra::lemma_assoc_cross(d, na, nb, ca, cb, w, v, k, m, s, t);
}

/// Both ways to add three points agree in `x`.
proof fn lemma_assoc_x(a: Point, b: Point, c: Point)
    requires
        on_curve(a),
        on_curve(b),
        on_curve(c),
    ensures
        sum(sum(a, b), c).x == sum(a, sum(b, c)).x,
{
    let p = fp::p();
    let d = fp::d();
    let ab = sum(a, b);
    let bc = sum(b, c);
    let l = sum(ab, c);
    let r = sum(a, bc);
    lemma_closed(a, b);
    lemma_closed(b, c);
    lemma_add_is_sum(a, b);
    lemma_add_is_sum(b, c);
    lemma_add_is_sum(ab, c);
    lemma_add_is_sum(a, bc);
    lemma_complete(a, b);
    lemma_complete(b, c);
    lemma_complete(ab, c);
    lemma_complete(a, bc);
    let w = cross(a, b);
    let na = num_x(a, b);
    let nb = num_y(a, b);
    let s = c.x;
    let t = c.y;
    let k = d * (b.x * b.y);
    let v = d * (b.x * b.x * (b.y * b.y));
    let m = d * (a.x * a.y * (b.x * b.x + b.y * b.y));
    let nl = na * (1 - w) * t + nb * (1 + w) * s;
    let dl = 1 - w * w + d * (na * nb) * (s * t);
    let nr = na * t + nb * s + k * (s * t) * ((a.x * b.y - a.y * b.x) * t + (a.x * b.x - a.y * b.y) * s);
    let dr = 1 + v + (w - v) * (t * t) + (w + v) * (s * s) + m * (s * t);
    // left: l.x * dl = nl, with dl nonzero
    assert((1 + w) * (1 - w) == 1 - w * w) by {
        curve_algebra::lemma_difference_of_squares(w);
    }
    lemma_clear_nested(l.x, ab.x, ab.y, na, nb, 1 + w, 1 - w, s, t);
    assert((l.x * dl) % p == nl % p);
    assert(dl % p != 0) by {
        if dl % p == 0 {
            field_laws::lemma_no_zero_divisors((1 + w) * (1 - w), 1 + cross(ab, c));
            field_laws::lemma_no_zero_divisors(1 + w, 1 - w);
        }
    }
    // right: r.x * dr = nr, with dr nonzero
    let g = k * (s * t);
    assert(cross(b, c) == g) by {
        curve_algebra::lemma_regroup(d, b.x, b.y, s, t);
    }
    let n3 = num_x(b, c);
    let m3 = num_y(b, c);
    assert(r.x * (1 + d * (bc.x * a.x * (bc.y * a.y))) == r.x * (1 + cross(a, bc))) by {
        lemma_mul_is_commutative(bc.x, a.x);
        lemma_mul_is_commutative(bc.y, a.y);
    }
    assert(bc.x * a.y + bc.y * a.x == num_x(a, bc)) by {
        lemma_mul_is_commutative(bc.x, a.y);
        lemma_mul_is_commutative(bc.y, a.x);
    }
    lemma_clear_nested(r.x, bc.x, bc.y, n3, m3, 1 + g, 1 - g, a.x, a.y);
    let dr3 = (1 + g) * (1 - g) + d * (n3 * m3) * (a.x * a.y);
    curve_algebra::lemma_assoc_right_numerator(d, a.x, a.y, b.x, b.y, s, t);
    curve_algebra::lemma_assoc_right_denominator(d, a.x, a.y, b.x, b.y, s, t);
    let e3 = curve_algebra::curve_eq(d, s, t);
    assert(dr3 == dr + v * e3);
    assert((r.x * dr3) % p == nr % p);
    assert(dr3 % p != 0) by {
        if dr3 % p == 0 {
            lemma_mul_is_commutative(bc.x, a.x);
            lemma_mul_is_commutative(bc.y, a.y);
            field_laws::lemma_no_zero_divisors((1 + g) * (1 - g), 1 + cross(a, bc));
            field_laws::lemma_no_zero_divisors(1 + g, 1 - g);
        }
    }
    fp::lemma_zero_mul(e3, v);
    assert(dr3 % p == dr % p) by {
        fp::lemma_cong_sub(dr, dr, v * e3, 0);
    }
    // cross-multiply
    lemma_assoc_cross_zero(a, b, c);
    fp::lemma_cong_diff(nl * dr, nr * dl);
    fp::lemma_cong_mul(l.x * dl, nl, dr3, dr);
    fp::lemma_cong_mul(r.x * dr3, nr, dl, dl);
    assert(l.x * dl * dr3 == l.x * (dl * dr3)) by {
        lemma_mul_is_associative(l.x, dl, dr3);
    }
    assert(r.x * dr3 * dl == r.x * (dl * dr3)) by {
        lemma_mul_is_associative(r.x, dr3, dl);
        lemma_mul_is_commutative(dr3, dl);
    }
    if (dl * dr3) % p == 0 {
        field_laws::lemma_no_zero_divisors(dl, dr3);
    }
    field_laws::lemma_cancel(l.x, r.x, dl * dr3);
    fp::lemma_small_residue(l.x);
    fp::lemma_small_residue(r.x);
}

/// Translation by the point `(i, 0)` of order four, which exchanges the coordinates.
spec fn rotate(a: Point) -> Point {
    Point { x: fp::fmul(fp::sqrt_m1(), a.y), y: fp::fmul(fp::sqrt_m1(), a.x) }
}

/// The curve equation depends on the residues of the coordinates alone.
proof fn lemma_curve_eq_congruent(x: int, x2: int, y: int, y2: int)
    requires
        x % fp::p() == x2 % fp::p(),
        y % fp::p() == y2 % fp::p(),
    ensures
        curve_algebra::curve_eq(fp::d(), x, y) % fp::p() == curve_algebra::curve_eq(fp::d(), x2, y2) % fp::p(),
{
    let d = fp::d();
    fp::lemma_cong_mul(x, x2, x, x2);
    fp::lemma_cong_mul(y, y2, y, y2);
    fp::lemma_cong_mul(x * x, x2 * x2, y * y, y2 * y2);
    fp::lemma_cong_mul(d, d, x * x * (y * y), x2 * x2 * (y2 * y2));
    fp::lemma_cong_sub(y * y, y2 * y2, x * x, x2 * x2);
    fp::lemma_cong_sub(y * y - x * x, y2 * y2 - x2 * x2, 1, 1);
    fp::lemma_cong_sub(
        y * y - x * x - 1,
        y2 * y2 - x2 * x2 - 1,
        d * (x * x * (y * y)),
        d * (x2 * x2 * (y2 * y2)),
    );
}

/// Rotation stays on the curve.
proof fn lemma_rotate_on_curve(b: Point)
    requires
        on_curve(b),
    ensures
        on_curve(rotate(b)),
{
    let p = fp::p();
    let d = fp::d();
    let j = fp::sqrt_m1();
    let r = rotate(b);
    let rx = j * b.y;
    let ry = j * b.x;
    lemma_curve_eq_congruent(r.x, rx, r.y, ry);
    assert(curve_algebra::curve_eq(d, rx, ry) % p == 0) by {
        field_laws::lemma_sqrt_m1();
        curve_algebra::lemma_rotated_curve(d, j, b.x, b.y);
        let e = curve_algebra::curve_eq(d, b.x, b.y);
        let f = b.x * b.x - b.y * b.y - (j * j - 1) * (d * (b.x * b.x * (b.y * b.y)));
        fp::lemma_zero_mul(j * j + 1, f);
        fp::lemma_zero_add((j * j + 1) * f, e);
    }
}

/// Rotation of one operand negates the perturbing term.
proof fn lemma_rotate_cross(a: Point, b: Point)
    ensures
        cross(a, rotate(b)) % fp::p() == (-cross(a, b)) % fp::p(),
{
    let d = fp::d();
    let j = fp::sqrt_m1();
    let r = rotate(b);
    let rx = j * b.y;
    let ry = j * b.x;
    let c = cross(a, b);
    field_laws::lemma_sqrt_m1();
    fp::lemma_cong_mul(a.x, a.x, r.x, rx);
    fp::lemma_cong_mul(a.y, a.y, r.y, ry);
    fp::lemma_cong_mul(a.x * r.x, a.x * rx, a.y * r.y, a.y * ry);
    fp::lemma_cong_mul(d, d, a.x * r.x * (a.y * r.y), a.x * rx * (a.y * ry));
    curve_algebra::lemma_rotated_cross(d, j, a.x, a.y, b.x, b.y);
    fp::lemma_zero_mul(j * j + 1, c);
    fp::lemma_cong_sub(-c, -c, (j * j + 1) * c, 0);
}

/// Rotation of one operand exchanges the numerators.
proof fn lemma_rotate_numerators(a: Point, b: Point)
    ensures
        num_x(a, rotate(b)) % fp::p() == (fp::sqrt_m1() * num_y(a, b)) % fp::p(),
        num_y(a, rotate(b)) % fp::p() == (fp::sqrt_m1() * num_x(a, b)) % fp::p(),
{
    let j = fp::sqrt_m1();
    let r = rotate(b);
    let rx = j * b.y;
    let ry = j * b.x;
    fp::lemma_cong_mul(a.x, a.x, r.y, ry);
    fp::lemma_cong_mul(a.y, a.y, r.x, rx);
    fp::lemma_cong_sub(a.x * r.y, a.x * ry, a.y * r.x, a.y * rx);
    fp::lemma_cong_mul(a.y, a.y, r.y, ry);
    fp::lemma_cong_mul(a.x, a.x, r.x, rx);
    fp::lemma_cong_sub(a.y * r.y, a.y * ry, a.x * r.x, a.x * rx);
    curve_algebra::lemma_rotated_numerators(j, a.x, a.y, b.x, b.y);
}

/// Rotation commutes with addition.
proof fn lemma_rotate(a: Point, b: Point)
    requires
        on_curve(a),
        on_curve(b),
    ensures
        on_curve(rotate(b)),
        sum(a, rotate(b)) == rotate(sum(a, b)),
{
    let p = fp::p();
    let j = fp::sqrt_m1();
    let r = rotate(b);
    let s = sum(a, b);
    let q = rotate(s);
    let c = cross(a, b);
    let n = cross(a, r);
    lemma_rotate_on_curve(b);
    lemma_add_is_sum(a, b);
    lemma_rotate_cross(a, b);
    lemma_rotate_numerators(a, b);
    assert((q.x * (1 + n)) % p == num_x(a, r) % p) by {
        fp::lemma_cong_sub(1, 1, n, -c);
        fp::lemma_cong_mul(q.x, j * s.y, 1 + n, 1 - c);
        lemma_mul_is_associative(j, s.y, 1 - c);
        fp::lemma_cong_mul(j, j, s.y * (1 - c), num_y(a, b));
    }
    assert((q.y * (1 - n)) % p == num_y(a, r) % p) by {
        fp::lemma_cong_sub(1, 1, n, -c);
        fp::lemma_cong_mul(q.y, j * s.x, 1 - n, 1 + c);
        lemma_mul_is_associative(j, s.x, 1 + c);
        fp::lemma_cong_mul(j, j, s.x * (1 + c), num_x(a, b));
    }
    lemma_sum_unique(a, r, q);
}

/// Addition is associative.
pub proof fn lemma_associative(a: Point, b: Point, c: Point)
    requires
        on_curve(a),
        on_curve(b),
        on_curve(c),
    ensures
        sum(sum(a, b), c) == sum(a, sum(b, c)),
{
    let j = fp::sqrt_m1();
    let l = sum(sum(a, b), c);
    let r = sum(a, sum(b, c));
    lemma_assoc_x(a, b, c);
    // the same for the rotated third point compares the y coordinates
    lemma_closed(a, b);
    lemma_closed(b, c);
    lemma_rotate(a, c);
    lemma_rotate(b, c);
    lemma_rotate(sum(a, b), c);
    lemma_rotate(a, sum(b, c));
    lemma_assoc_x(a, b, rotate(c));
    assert(fp::fmul(j, l.y) == fp::fmul(j, r.y));
    field_laws::lemma_sqrt_m1();
    lemma_mul_is_commutative(j, l.y);
    lemma_mul_is_commutative(j, r.y);
    field_laws::lemma_cancel(l.y, r.y, j);
    fp::lemma_small_residue(l.y);
    fp::lemma_small_residue(r.y);
}

/// The standard base point, with `y = 4/5` and even `x`.
#[verifier::opaque]
pub open spec fn basepoint() -> Point {
    Point {
        x: 0x216936d3cd6e53fec0a4e231fdd6dc5c692cc7609525a7b2c9562d608f25d51aint,
        y: 0x6666666666666666666666666666666666666666666666666666666666666658int,
    }
}

/// The base point lies on the curve.
pub proof fn lemma_basepoint_on_curve()
    ensures
        on_curve(basepoint()),
{
    reveal(basepoint);
    reveal(fp::d);
    let b = basepoint();
    let xx = 0x39e5a76b6f33fadbc92a232fdb1c32f2ebe39c555ccb6a7d690b8a0f82e81c67int;
    let yy = 0x51eb851eb851eb851eb851eb851eb851eb851eb851eb851eb851eb851eb851e0int;
    let t = 0x43c62db565e3d3bfdce7c49981fd913f4f49fda745a0e7fe57b577142ad1fdaeint;
    let dt = 0x1805ddb3491df0a9558e2ebbaa02855effa18262f5201aa14f4661759bd03578int;
    assert((b.x * b.x) % fp::p() == xx);
    assert((b.y * b.y) % fp::p() == yy);
    assert((xx * yy) % fp::p() == t);
    assert((fp::d() * t) % fp::p() == dt);
    fp::lemma_cong_mul(b.x * b.x, xx, b.y * b.y, yy);
    fp::lemma_cong_mul(fp::d(), fp::d(), b.x * b.x * (b.y * b.y), t);
    fp::lemma_cong_sub(b.y * b.y, yy, b.x * b.x, xx);
    fp::lemma_cong_sub(
        b.y * b.y - b.x * b.x - 1,
        yy - xx - 1,
        fp::d() * (b.x * b.x * (b.y * b.y)),
        dt,
    );
}

/// `n` times a point.
pub open spec fn nmul(n: nat, a: Point) -> Point
    decreases n,
{
    if n == 0 {
        identity()
    } else {
        sum(nmul((n - 1) as nat, a), a)
    }
}

/// `k` times a point, for any integer `k`.
pub open spec fn smul(k: int, a: Point) -> Point {
    if k >= 0 {
        nmul(k as nat, a)
    } else {
        nmul((-k) as nat, neg(a))
    }
}

/// The difference of two points.
pub open spec fn diff(a: Point, b: Point) -> Point {
    sum(a, neg(b))
}

/// Multiples of a point of the curve lie on the curve.
pub proof fn lemma_nmul_on_curve(n: nat, a: Point)
    requires
        on_curve(a),
    ensures
        on_curve(nmul(n, a)),
    decreases n,
{
    if n == 0 {
        lemma_identity(a);
    } else {
        lemma_nmul_on_curve((n - 1) as nat, a);
        lemma_closed(nmul((n - 1) as nat, a), a);
    }
}

/// Multiples of a point of the curve lie on the curve.
pub proof fn lemma_smul_on_curve(k: int, a: Point)
    requires
        on_curve(a),
    ensures
        on_curve(smul(k, a)),
{
    lemma_inverse(a);
    if k >= 0 {
        lemma_nmul_on_curve(k as nat, a);
    } else {
        lemma_nmul_on_curve((-k) as nat, neg(a));
    }
}

/// The first multiples.
pub proof fn lemma_smul_base(a: Point)
    requires
        on_curve(a),
    ensures
        smul(0, a) == identity(),
        smul(1, a) == a,
        smul(2, a) == sum(a, a),
        smul(-1, a) == neg(a),
{
    lemma_identity(a);
    lemma_inverse(a);
    lemma_identity(neg(a));
    reveal_with_fuel(nmul, 3);
    assert(nmul(1, a) == sum(identity(), a));
    assert(nmul(2, a) == sum(nmul(1, a), a));
    assert(nmul(1, neg(a)) == sum(identity(), neg(a)));
}

/// Adding the point increments the multiple.
pub proof fn lemma_smul_step(k: int, a: Point)
    requires
        on_curve(a),
    ensures
        smul(k + 1, a) == sum(smul(k, a), a),
        smul(k - 1, a) == sum(smul(k, a), neg(a)),
{
    lemma_step_up(k, a);
    // down: step up from k - 1 and cancel
    lemma_step_up(k - 1, a);
    lemma_smul_on_curve(k - 1, a);
    lemma_inverse(a);
    lemma_associative(smul(k - 1, a), a, neg(a));
    lemma_identity(smul(k - 1, a));
}

proof fn lemma_step_up(k: int, a: Point)
    requires
        on_curve(a),
    ensures
        smul(k + 1, a) == sum(smul(k, a), a),
{
    if k < 0 {
        let m = (-k - 1) as nat;
        let r = nmul(m, neg(a));
        lemma_inverse(a);
        lemma_nmul_on_curve(m, neg(a));
        assert(smul(k, a) == sum(r, neg(a)));
        lemma_associative(r, neg(a), a);
        lemma_identity(r);
    }
}

/// Multiples add.
pub proof fn lemma_smul_add(j: int, k: int, a: Point)
    requires
        on_curve(a),
    ensures
        sum(smul(j, a), smul(k, a)) == smul(j + k, a),
    decreases (if k >= 0 { k } else { -k }),
{
    lemma_smul_on_curve(j, a);
    lemma_smul_base(a);
    if k == 0 {
        lemma_identity(smul(j, a));
    } else if k > 0 {
        lemma_smul_add(j, k - 1, a);
        lemma_smul_on_curve(k - 1, a);
        lemma_smul_step(k - 1, a);
        lemma_smul_step(j + k - 1, a);
        lemma_associative(smul(j, a), smul(k - 1, a), a);
    } else {
        lemma_smul_add(j, k + 1, a);
        lemma_inverse(a);
        lemma_smul_on_curve(k + 1, a);
        lemma_smul_step(k + 1, a);
        lemma_smul_step(j + k + 1, a);
        lemma_associative(smul(j, a), smul(k + 1, a), neg(a));
    }
}

/// Only the inverse sums to the neutral element.
pub proof fn lemma_inverse_unique(a: Point, b: Point)
    requires
        on_curve(a),
        on_curve(b),
        sum(a, b) == identity(),
    ensures
        b == neg(a),
{
    lemma_inverse(a);
    lemma_associative(neg(a), a, b);
    lemma_identity(b);
    lemma_identity(neg(a));
}

/// Negating a multiple negates the factor.
pub proof fn lemma_smul_neg(k: int, a: Point)
    requires
        on_curve(a),
    ensures
        smul(-k, a) == neg(smul(k, a)),
        smul(k, neg(a)) == neg(smul(k, a)),
{
    lemma_smul_add(k, -k, a);
    lemma_smul_base(a);
    lemma_smul_on_curve(k, a);
    lemma_smul_on_curve(-k, a);
    lemma_inverse_unique(smul(k, a), smul(-k, a));
    lemma_inverse(a);
    assert(smul(k, neg(a)) == smul(-k, a));
}

/// Exchanges the inner two of four summands.
pub proof fn lemma_interchange(a: Point, b: Point, c: Point, e: Point)
    requires
        on_curve(a),
        on_curve(b),
        on_curve(c),
        on_curve(e),
    ensures
        sum(sum(a, b), sum(c, e)) == sum(sum(a, c), sum(b, e)),
{
    lemma_closed(c, e);
    lemma_closed(b, e);
    lemma_associative(a, b, sum(c, e));
    lemma_associative(b, c, e);
    lemma_commutative(b, c);
    lemma_associative(c, b, e);
    lemma_associative(a, c, sum(b, e));
}

/// Multiplication distributes over sums of points.
pub proof fn lemma_smul_sum(k: int, a: Point, b: Point)
    requires
        on_curve(a),
        on_curve(b),
    ensures
        smul(k, sum(a, b)) == sum(smul(k, a), smul(k, b)),
    decreases (if k >= 0 { 2 * k } else { 1 - 2 * k }),
{
    lemma_closed(a, b);
    if k == 0 {
        lemma_identity(a);
        lemma_identity(identity());
    } else if k > 0 {
        lemma_smul_sum(k - 1, a, b);
        lemma_smul_step(k - 1, a);
        lemma_smul_step(k - 1, b);
        lemma_smul_step(k - 1, sum(a, b));
        lemma_smul_on_curve(k - 1, a);
        lemma_smul_on_curve(k - 1, b);
        lemma_interchange(smul(k - 1, a), smul(k - 1, b), a, b);
    } else {
        lemma_smul_sum(-k, a, b);
        lemma_smul_neg(-k, a);
        lemma_smul_neg(-k, b);
        lemma_smul_neg(-k, sum(a, b));
        lemma_smul_on_curve(-k, a);
        lemma_smul_on_curve(-k, b);
        lemma_neg_sum(smul(-k, a), smul(-k, b));
    }
}

/// The inverse of a sum.
pub proof fn lemma_neg_sum(a: Point, b: Point)
    requires
        on_curve(a),
        on_curve(b),
    ensures
        neg(sum(a, b)) == sum(neg(a), neg(b)),
{
    lemma_inverse(a);
    lemma_inverse(b);
    lemma_closed(a, b);
    lemma_closed(neg(a), neg(b));
    lemma_interchange(a, b, neg(a), neg(b));
    lemma_identity(a);
    lemma_identity(identity());
    lemma_inverse_unique(sum(a, b), sum(neg(a), neg(b)));
}

/// A multiple of a multiple.
pub proof fn lemma_smul_smul(j: int, k: int, a: Point)
    requires
        on_curve(a),
    ensures
        smul(j, smul(k, a)) == smul(j * k, a),
    decreases (if j >= 0 { 2 * j } else { 1 - 2 * j }),
{
    let b = smul(k, a);
    lemma_smul_on_curve(k, a);
    if j == 0 {
        assert(0 * k == 0);
    } else if j > 0 {
        lemma_smul_smul(j - 1, k, a);
        lemma_smul_step(j - 1, b);
        lemma_smul_add((j - 1) * k, k, a);
        assert((j - 1) * k + k == j * k) by (nonlinear_arith);
    } else {
        lemma_smul_smul(-j, k, a);
        lemma_smul_neg(-j, b);
        lemma_smul_neg((-j) * k, a);
        assert(-((-j) * k) == j * k) by (nonlinear_arith);
    }
}

/// `[s]B + [k]A`.
pub open spec fn combination(s: int, b: Point, k: int, a: Point) -> Point {
    sum(smul(s, b), smul(k, a))
}

/// Scaling a combination scales both factors.
pub proof fn lemma_combination_scale(m: int, s: int, b: Point, k: int, a: Point)
    requires
        on_curve(a),
        on_curve(b),
    ensures
        smul(m, combination(s, b, k, a)) == combination(m * s, b, m * k, a),
{
    lemma_smul_on_curve(s, b);
    lemma_smul_on_curve(k, a);
    lemma_smul_sum(m, smul(s, b), smul(k, a));
    lemma_smul_smul(m, s, b);
    lemma_smul_smul(m, k, a);
}

/// Adding a multiple of `a`.
pub proof fn lemma_combination_add_a(s: int, b: Point, k: int, a: Point, e: int)
    requires
        on_curve(a),
        on_curve(b),
    ensures
        sum(combination(s, b, k, a), smul(e, a)) == combination(s, b, k + e, a),
{
    lemma_smul_on_curve(s, b);
    lemma_smul_on_curve(k, a);
    lemma_smul_on_curve(e, a);
    lemma_associative(smul(s, b), smul(k, a), smul(e, a));
    lemma_smul_add(k, e, a);
}

/// Adding a multiple of `b`.
pub proof fn lemma_combination_add_b(s: int, b: Point, k: int, a: Point, e: int)
    requires
        on_curve(a),
        on_curve(b),
    ensures
        sum(combination(s, b, k, a), smul(e, b)) == combination(s + e, b, k, a),
{
    let sb = smul(s, b);
    let ka = smul(k, a);
    let eb = smul(e, b);
    lemma_smul_on_curve(s, b);
    lemma_smul_on_curve(k, a);
    lemma_smul_on_curve(e, b);
    lemma_associative(sb, ka, eb);
    lemma_commutative(ka, eb);
    lemma_associative(sb, eb, ka);
    lemma_smul_add(s, e, b);
}

} // verus!
