//! Compressed points: 255 bits of `y` and the parity of `x`.
use crate::bytes;
use crate::curve;
use crate::curve::Point;
use crate::curve_algebra;
use crate::field_laws;
use crate::fp;
use crate::ring;
use vstd::arithmetic::mul::*;
use vstd::arithmetic::power::*;
use vstd::prelude::*;

verus! {

broadcast use fp::group_field_ops;

/// `2^255`.
pub open spec fn two_255() -> int {
    0x8000000000000000000000000000000000000000000000000000000000000000int
}

/// The ordinate of an encoding: its low 255 bits, taken modulo `p`.
pub open spec fn encoded_y(b: Seq<u8>) -> int {
    (bytes::le_value(b) % two_255()) % fp::p()
}

/// The sign bit of an encoding.
pub open spec fn encoded_sign(b: Seq<u8>) -> bool {
    (bytes::le_value(b) / two_255()) % 2 == 1
}

/// `b` decodes to the point `a`. For `x = 0` both signs are accepted.
pub open spec fn decodes_to(b: Seq<u8>, a: Point) -> bool {
    &&& curve::on_curve(a)
    &&& a.y == encoded_y(b)
    &&& a.x == 0 || (a.x % 2 == 1) == encoded_sign(b)
}

/// Whether `b` decodes to a point.
pub open spec fn decodable(b: Seq<u8>) -> bool {
    exists|a: Point| decodes_to(b, a)
}

/// The point that `b` decodes to.
pub open spec fn decoded(b: Seq<u8>) -> Point {
    choose|a: Point| decodes_to(b, a)
}

/// The canonical encoding of a point.
pub open spec fn encode(a: Point) -> Seq<u8> {
    bytes::le_bytes(a.y + two_255() * (a.x % 2), 32)
}

/// `-x^2 + y^2 = 1 + d x^2 y^2` as `v x^2 = u` with `u = y^2 - 1` and `v = 1 + d y^2`.
pub proof fn lemma_curve_as_ratio(x: int, y: int)
    ensures
        curve_algebra::curve_eq(fp::d(), x, y) == (y * y - 1) - (1 + fp::d() * (y * y)) * (x * x),
{
    let d = fp::d();
    let q = x * x;
    let r = y * y;
    lemma_mul_is_distributive_add_other_way(q, 1, d * r);
    lemma_mul_is_associative(d, r, q);
    lemma_mul_is_commutative(r, q);
}

/// The denominator `1 + d y^2` never vanishes.
pub proof fn lemma_denominator_nonzero(y: int)
    ensures
        (1 + fp::d() * (y * y)) % fp::p() != 0,
{
    let d = fp::d();
    let j = fp::sqrt_m1();
    if (1 + d * (y * y)) % fp::p() == 0 {
        field_laws::lemma_sqrt_m1();
        fp::lemma_cong_diff(j * j, -1);
        fp::lemma_cong_diff(d * (y * y), -1);
        field_laws::lemma_d_nonsquare(y, j);
        fp::lemma_zero_mul(y, y);
        fp::lemma_zero_mul(y * y, d);
        assert(-1int % fp::p() != 0);
    }
}

/// Opposite nonzero residues have opposite parities.
proof fn lemma_parity(x: int)
    requires
        0 < x < fp::p(),
    ensures
        fp::fneg(x) == fp::p() - x,
        (fp::fneg(x) % 2 == 1) != (x % 2 == 1),
{
}

/// Two points of the curve with one ordinate are equal or opposite.
pub proof fn lemma_same_ordinate(a: Point, b: Point)
    requires
        curve::on_curve(a),
        curve::on_curve(b),
        a.y == b.y,
    ensures
        a.x == b.x || a.x == fp::fneg(b.x),
{
    let p = fp::p();
    let v = 1 + fp::d() * (a.y * a.y);
    let u = a.y * a.y - 1;
    lemma_curve_as_ratio(a.x, a.y);
    lemma_curve_as_ratio(b.x, a.y);
    lemma_denominator_nonzero(a.y);
    fp::lemma_cong_diff(u, v * (a.x * a.x));
    fp::lemma_cong_diff(u, v * (b.x * b.x));
    lemma_mul_is_commutative(v, a.x * a.x);
    lemma_mul_is_commutative(v, b.x * b.x);
    field_laws::lemma_cancel(a.x * a.x, b.x * b.x, v);
    fp::lemma_cong_diff(a.x * a.x, b.x * b.x);
    assert((a.x - b.x) * (a.x + b.x) == a.x * a.x - b.x * b.x) by (nonlinear_arith);
    field_laws::lemma_no_zero_divisors(a.x - b.x, a.x + b.x);
    if (a.x - b.x) % p == 0 {
        fp::lemma_cong_diff(a.x, b.x);
        fp::lemma_small_residue(a.x);
        fp::lemma_small_residue(b.x);
    } else {
        fp::lemma_cong_diff(a.x, -b.x);
        fp::lemma_small_residue(a.x);
    }
}

/// An encoding decodes to at most one point.
pub proof fn lemma_decoding_unique(b: Seq<u8>, a: Point)
    requires
        decodes_to(b, a),
    ensures
        decodable(b),
        decoded(b) == a,
{
    let c = decoded(b);
    assert(decodes_to(b, c));
    lemma_same_ordinate(a, c);
    if a.x != c.x {
        if a.x == 0 {
            assert(fp::fneg(c.x) == 0);
            assert(c.x == 0) by {
                if c.x != 0 {
                    lemma_parity(c.x);
                }
            }
        } else if c.x == 0 {
            assert(fp::fneg(0) == 0);
        } else {
            lemma_parity(c.x);
        }
    }
}

/// If a point has the encoded ordinate, then it or its inverse is what is encoded.
pub proof fn lemma_ordinate_decodes(b: Seq<u8>, a: Point)
    requires
        curve::on_curve(a),
        a.y == encoded_y(b),
    ensures
        decodable(b),
        a.x == 0 || (a.x % 2 == 1) == encoded_sign(b) ==> decodes_to(b, a),
        a.x != 0 && (a.x % 2 == 1) != encoded_sign(b) ==> decodes_to(b, curve::neg(a)),
{
    curve::lemma_inverse(a);
    if a.x == 0 || (a.x % 2 == 1) == encoded_sign(b) {
        assert(decodes_to(b, a));
    } else {
        lemma_parity(a.x);
        assert(decodes_to(b, curve::neg(a)));
    }
}

/// The square-root candidate of `u / v`: `u v^3 (u v^7)^((p-5)/8)`.
pub open spec fn root_candidate(u: int, v: int) -> int {
    let v3 = fp::fmul(fp::fmul(v, v), v);
    let v7 = fp::fmul(fp::fmul(v3, v3), v);
    fp::fmul(fp::fmul(u, v3), fp::fpow(fp::fmul(u, v7), fp::p_minus_5_over_8()))
}

proof fn lemma_root_powers(v: int, x: int)
    ensures
        v * (x * x) * (v * v * v * (v * v * v) * v) == x * (v * v * (v * v)) * (x * (v * v * (v * v))),
        v * (x * x) * (v * v * v) == x * (x * (v * v * (v * v))),
{
    ring::assoc(v, x, x);
    ring::assoc(v * v * v, v * v, v);
    ring::assoc(v * v * v, v, v);
    ring::assoc(v * x * x, v * v * v * v * v * v, v);
    ring::assoc(v * x * x, v * v * v * v * v, v);
    ring::assoc(v * x * x, v * v * v * v, v);
    ring::assoc(v * x * x, v * v * v, v);
    ring::assoc(v * x * x, v * v, v);
    ring::assoc(v * x * x, v, v);
    ring::swap(v * x, x, v);
    ring::swap(v, x, v);
    ring::swap(v * v * x, x, v);
    ring::swap(v * v, x, v);
    ring::swap(v * v * v * x, x, v);
    ring::swap(v * v * v, x, v);
    ring::swap(v * v * v * v * x, x, v);
    ring::swap(v * v * v * v, x, v);
    ring::swap(v * v * v * v * v * x, x, v);
    ring::swap(v * v * v * v * v, x, v);
    ring::swap(v * v * v * v * v * v * x, x, v);
    ring::swap(v * v * v * v * v * v, x, v);
    ring::swap(v * v * v * v * v * v * v * x, x, v);
    ring::swap(v * v * v * v * v * v * v, x, v);
    ring::assoc(v * v, v, v);
    ring::assoc(x, v * v * v, v);
    ring::assoc(x, v * v, v);
    ring::assoc(x, v, v);
    lemma_mul_is_commutative(x, v);
    ring::assoc(v * v * v * v * x, v * v * v * v, x);
    ring::assoc(v * v * v * v * x, v * v * v, v);
    ring::assoc(v * v * v * v * x, v * v, v);
    ring::assoc(v * v * v * v * x, v, v);
    assert(v * (x * x) * (v * v * v * (v * v * v) * v) == x * (v * v * (v * v)) * (x * (v * v * (v * v))));
    ring::assoc(v, x, x);
    ring::assoc(v * x * x, v * v, v);
    ring::assoc(v * x * x, v, v);
    ring::swap(v * x, x, v);
    ring::swap(v, x, v);
    ring::swap(v * v * x, x, v);
    ring::swap(v * v, x, v);
    ring::swap(v * v * v * x, x, v);
    ring::swap(v * v * v, x, v);
    ring::assoc(v * v, v, v);
    ring::assoc(x, v * v * v, v);
    ring::assoc(x, v * v, v);
    ring::assoc(x, v, v);
    lemma_mul_is_commutative(x, v);
    ring::assoc(x, v * v * v * v, x);
    assert(v * (x * x) * (v * v * v) == x * (x * (v * v * (v * v))));
}

/// If `u / v` is a square, then the candidate squares to it or to its negation.
pub proof fn lemma_root_candidate(u: int, v: int, x: int)
    requires
        (v * (x * x)) % fp::p() == u % fp::p(),
    ensures
        ({
            let r = root_candidate(u, v);
            (v * (r * r)) % fp::p() == u % fp::p() || (v * (r * r)) % fp::p() == (-u) % fp::p()
        }),
{
    let p = fp::p();
    let e = fp::p_minus_5_over_8();
    let h = 0x3ffffffffffffffffffffffffffffffffffffffffffffffffffffffffffffff6nat;
    let w = x * (v * v * (v * v));
    let q = v * (x * x);
    let c3 = v * v * v;
    let c7 = c3 * c3 * v;
    let v3 = fp::fmul(fp::fmul(v, v), v);
    let v7 = fp::fmul(fp::fmul(v3, v3), v);
    let r = root_candidate(u, v);
    lemma_root_powers(v, x);
    fp::lemma_cong_mul(fp::fmul(v, v), v * v, v, v);
    fp::lemma_cong_mul(v3, c3, v3, c3);
    fp::lemma_cong_mul(fp::fmul(v3, v3), c3 * c3, v, v);
    fp::lemma_cong_mul(u, q, v7, c7);
    fp::lemma_cong_mul(u, q, v3, c3);
    let f = fp::fmul(u, v7);
    assert(f % p == (w * w) % p);
    // (u v^7)^e = w^(2e)
    lemma_pow_mod_noop(f, e, p);
    lemma_pow_mod_noop(w * w, e, p);
    lemma_square_is_pow2(w);
    lemma_pow_multiplies(w, 2, e);
    assert(fp::fpow(f, e) % p == pow(w, 2 * e) % p);
    // r = x w^(2e+1)
    fp::lemma_cong_mul(fp::fmul(u, v3), x * w, fp::fpow(f, e), pow(w, 2 * e));
    lemma_pow_adds(w, 2 * e, 1);
    lemma_pow1(w);
    let g = pow(w, 2 * e + 1);
    lemma_mul_is_associative(x, w, pow(w, 2 * e));
    lemma_mul_is_commutative(w, pow(w, 2 * e));
    assert(r % p == (x * g) % p);
    // v r^2 = u w^((p-1)/2)
    fp::lemma_cong_mul(r, x * g, r, x * g);
    fp::lemma_cong_mul(v, v, r * r, x * g * (x * g));
    lemma_pow_adds(w, 2 * e + 1, 2 * e + 1);
    let k = pow(w, h);
    assert(g * g == k);
    assert(v * (x * g * (x * g)) == q * k) by (nonlinear_arith)
        requires
            q == v * (x * x),
            k == g * g,
    ;
    fp::lemma_cong_mul(q, u, k, k);
    assert((v * (r * r)) % p == (u * k) % p);
    if w % p == 0 {
        lemma_pow1(w);
        lemma_pow_adds(w, 1, (h - 1) as nat);
        fp::lemma_zero_mul(w, pow(w, (h - 1) as nat));
        fp::lemma_zero_mul(k, u);
        // u v^7 = w^2 = 0 and u = v x^2 vanish together
        fp::lemma_zero_mul(w, w);
        lemma_zero_root(u, v, x);
    } else {
        field_laws::lemma_fermat(w);
        lemma_pow_adds(w, h, h);
        assert((k * k) % p == 1);
        fp::lemma_cong_diff(k * k, 1);
        assert((k - 1) * (k + 1) == k * k - 1) by (nonlinear_arith);
        field_laws::lemma_no_zero_divisors(k - 1, k + 1);
        if (k - 1) % p == 0 {
            fp::lemma_cong_diff(k, 1);
            fp::lemma_cong_mul(u, u, k, 1);
        } else {
            fp::lemma_cong_diff(k, -1);
            fp::lemma_cong_mul(u, u, k, -1);
            assert(u * (-1) == -u);
        }
    }
}

/// If `x v^4` vanishes, so does `v x^2`.
proof fn lemma_zero_root(u: int, v: int, x: int)
    requires
        (v * (x * x)) % fp::p() == u % fp::p(),
        (x * (v * v * (v * v))) % fp::p() == 0,
    ensures
        u % fp::p() == 0,
{
    field_laws::lemma_no_zero_divisors(x, v * v * (v * v));
    if x % fp::p() == 0 {
        fp::lemma_zero_mul(x, x);
        fp::lemma_zero_mul(x * x, v);
    } else {
        field_laws::lemma_no_zero_divisors(v * v, v * v);
        field_laws::lemma_no_zero_divisors(v, v);
        fp::lemma_zero_mul(v, x * x);
    }
}

proof fn lemma_alternative_product(v: int, r: int, j: int)
    ensures
        v * (r * j * (r * j)) == (j * j + 1) * (v * (r * r)) - v * (r * r),
{
    lemma_mul_is_commutative(r, j);
    ring::assoc(j * r, j, r);
    ring::swap(j, r, j);
    ring::assoc(v, j * j * r, r);
    ring::assoc(v, j * j, r);
    ring::assoc(v, j, j);
    lemma_mul_is_commutative(v, j);
    ring::swap(j, v, j);
    ring::swap(j * j, v, r);
    ring::swap(j * j * r, v, r);
    ring::assoc(v, r, r);
    lemma_mul_is_commutative(v, r);
    ring::swap(r, v, r);
    ring::lin2(j * j + 1, v * (r * r), 1, 1, 1, j * j);
    ring::lin1(v * (r * r), 1, 1, r * r * v);
    ring::lin1(v * (r * r), j * j, 1, r * r * v);
    ring::assoc(r * r * v, j, j);
    ring::swap(r * r, v, j);
    ring::swap(r, r, j);
    ring::swap(j * r * r, v, j);
    ring::swap(j * r, r, j);
    assert(v * (r * j * (r * j)) == (j * j + 1) * (v * (r * r)) - v * (r * r));
}

/// The value that a root of `u / v` must reproduce.
pub open spec fn root_check(v: int, r: int) -> int {
    fp::fmul(v, fp::fmul(r, r))
}

/// The candidate times a square root of `-1`.
pub open spec fn alternative_root(r: int) -> int {
    fp::fmul(r, fp::sqrt_m1())
}

/// One of the candidate and its alternative is a root of `u / v`, if there is a root at all.
pub proof fn lemma_roots(u: int, v: int)
    requires
        0 <= u < fp::p(),
    ensures
        ({
            let r = root_candidate(u, v);
            let s = alternative_root(r);
            &&& root_check(v, r) == (v * (r * r)) % fp::p()
            &&& root_check(v, s) == (v * (s * s)) % fp::p()
            &&& (forall|x: int| #[trigger] root_check(v, x) == u ==> root_check(v, r) == u || root_check(v, s)
                == u)
        }),
{
    let p = fp::p();
    let j = fp::sqrt_m1();
    let r = root_candidate(u, v);
    let s = alternative_root(r);
    fp::lemma_cong_mul(v, v, fp::fmul(r, r), r * r);
    fp::lemma_cong_mul(v, v, fp::fmul(s, s), s * s);
    fp::lemma_small_residue(u);
    assert forall|x: int| #[trigger] root_check(v, x) == u implies root_check(v, r) == u || root_check(v, s)
        == u by {
        fp::lemma_cong_mul(v, v, fp::fmul(x, x), x * x);
        lemma_root_candidate(u, v, x);
        if root_check(v, r) != u {
            // the alternative flips the sign
            fp::lemma_cong_mul(s, r * j, s, r * j);
            fp::lemma_cong_mul(v, v, s * s, r * j * (r * j));
            lemma_alternative_product(v, r, j);
            field_laws::lemma_sqrt_m1();
            fp::lemma_zero_mul(j * j + 1, v * (r * r));
            fp::lemma_cong_sub((j * j + 1) * (v * (r * r)), 0, v * (r * r), -u);
            assert(root_check(v, s) == u);
        }
    }
}

/// `y^2 - 1`.
pub open spec fn ratio_u(y: int) -> int {
    fp::fsub(fp::fmul(y, y), 1)
}

/// `1 + d y^2`.
pub open spec fn ratio_v(y: int) -> int {
    fp::fadd(1, fp::fmul(fp::d(), fp::fmul(y, y)))
}

/// Abscissas of an ordinate are the roots of `u / v`.
pub proof fn lemma_ratio_on_curve(x: int, y: int)
    ensures
        (root_check(ratio_v(y), x) == ratio_u(y)) == (curve_algebra::curve_eq(fp::d(), x, y) % fp::p()
            == 0),
{
    let p = fp::p();
    let d = fp::d();
    let yy = y * y;
    let v = 1 + d * yy;
    fp::lemma_cong_mul(d, d, fp::fmul(y, y), yy);
    fp::lemma_cong_sub(1, 1, fp::fmul(d, fp::fmul(y, y)), d * yy);
    fp::lemma_cong_sub(fp::fmul(y, y), yy, 1, 1);
    fp::lemma_cong_mul(ratio_v(y), v, fp::fmul(x, x), x * x);
    lemma_curve_as_ratio(x, y);
    fp::lemma_cong_diff(yy - 1, v * (x * x));
}

/// The sign bit is the top bit of the last byte.
pub proof fn lemma_sign_bit(b: Seq<u8>)
    requires
        b.len() == 32,
    ensures
        encoded_sign(b) == (b[31] >= 128),
        bytes::le_value(b) / two_255() == (if b[31] >= 128 { 1int } else { 0int }),
{
    let low = b.subrange(0, 31);
    let top = b.subrange(31, 32);
    let w = 0x100000000000000000000000000000000000000000000000000000000000000int;
    assert(b =~= low + top);
    bytes::lemma_pow2_248();
    bytes::lemma_le_concat(low, top, w);
    bytes::lemma_le_bound(low);
    bytes::lemma_le_1(top);
}

/// The abscissa with the encoded parity.
pub open spec fn select_sign(b: Seq<u8>, x: int) -> int {
    if (x % 2 == 1) != encoded_sign(b) {
        fp::fneg(x)
    } else {
        x
    }
}

/// Adjusting the sign of a root gives the decoded point.
pub proof fn lemma_decode_some(b: Seq<u8>, x: int)
    requires
        0 <= x < fp::p(),
        root_check(ratio_v(encoded_y(b)), x) == ratio_u(encoded_y(b)),
    ensures
        decodable(b),
        decoded(b) == (Point { x: select_sign(b, x), y: encoded_y(b) }),
        curve::on_curve(decoded(b)),
{
    let y = encoded_y(b);
    let a = Point { x, y };
    lemma_ratio_on_curve(x, y);
    lemma_ordinate_decodes(b, a);
    if x == 0 {
        assert(fp::fneg(x) == 0);
        lemma_decoding_unique(b, a);
    } else if (x % 2 == 1) == encoded_sign(b) {
        lemma_decoding_unique(b, a);
    } else {
        lemma_decoding_unique(b, curve::neg(a));
    }
}

/// Without a root there is no decoded point.
pub proof fn lemma_decode_none(b: Seq<u8>)
    requires
        forall|x: int| #[trigger] root_check(ratio_v(encoded_y(b)), x) != ratio_u(encoded_y(b)),
    ensures
        !decodable(b),
{
    if decodable(b) {
        let a = decoded(b);
        lemma_ratio_on_curve(a.x, a.y);
    }
}

/// Decoding by the square-root candidate: the candidate or its alternative, with the encoded
/// sign.
pub proof fn lemma_decode_by_candidate(b: Seq<u8>, x0: int, x1: int, x: int)
    requires
        x0 == root_candidate(ratio_u(encoded_y(b)), ratio_v(encoded_y(b))),
        x1 == (if root_check(ratio_v(encoded_y(b)), x0) != ratio_u(encoded_y(b)) && root_check(
            ratio_v(encoded_y(b)),
            alternative_root(x0),
        ) == ratio_u(encoded_y(b)) {
            alternative_root(x0)
        } else {
            x0
        }),
        x == select_sign(b, x1),
    ensures
        decodable(b) == (root_check(ratio_v(encoded_y(b)), x1) == ratio_u(encoded_y(b))),
        decodable(b) ==> decoded(b) == (Point { x, y: encoded_y(b) }) && curve::on_curve(decoded(b)),
{
    let u = ratio_u(encoded_y(b));
    let v = ratio_v(encoded_y(b));
    lemma_roots(u, v);
    if root_check(v, x1) == u {
        lemma_decode_some(b, x1);
    } else {
        lemma_decode_none(b);
    }
}

/// The value of a canonical encoding.
pub proof fn lemma_encode_value(a: Point)
    requires
        curve::on_curve(a),
    ensures
        encode(a).len() == 32,
        bytes::le_value(encode(a)) == a.y + two_255() * (a.x % 2),
{
    bytes::lemma_pow2_256();
    bytes::lemma_le_bytes(a.y + two_255() * (a.x % 2), 32);
}

/// Decoding undoes encoding.
pub proof fn lemma_decode_encode(a: Point)
    requires
        curve::on_curve(a),
    ensures
        decodable(encode(a)),
        decoded(encode(a)) == a,
{
    let b = encode(a);
    lemma_encode_value(a);
    fp::lemma_small_residue(a.y);
    assert(encoded_y(b) == a.y);
    assert(encoded_sign(b) == (a.x % 2 == 1));
    lemma_decoding_unique(b, a);
}

/// Sets the sign bit of an encoding that has it clear.
pub fn set_sign(b: &mut [u8; 32])
    requires
        bytes::le_value(old(b)@) < two_255(),
    ensures
        bytes::le_value(final(b)@) == bytes::le_value(old(b)@) + two_255(),
{
    let ghost before = b@;
    proof {
        lemma_sign_bit(before);
    }
    let top: u8 = b[31];
    b[31] = top + 0x80;
    proof {
        let w = 0x100000000000000000000000000000000000000000000000000000000000000int;
        let low = before.subrange(0, 31);
        bytes::lemma_pow2_248();
        assert(before =~= low + before.subrange(31, 32));
        assert(b@ =~= low + b@.subrange(31, 32));
        bytes::lemma_le_concat(low, before.subrange(31, 32), w);
        bytes::lemma_le_concat(low, b@.subrange(31, 32), w);
        bytes::lemma_le_1(before.subrange(31, 32));
        bytes::lemma_le_1(b@.subrange(31, 32));
    }
}

/// The encoding of the base point.
pub const ED25519_BASEPOINT_COMPRESSED: [u8; 32] = [
    0x58, 0x66, 0x66, 0x66, 0x66, 0x66, 0x66, 0x66,
    0x66, 0x66, 0x66, 0x66, 0x66, 0x66, 0x66, 0x66,
    0x66, 0x66, 0x66, 0x66, 0x66, 0x66, 0x66, 0x66,
    0x66, 0x66, 0x66, 0x66, 0x66, 0x66, 0x66, 0x66,
];

/// The base point encoding decodes to the base point.
pub proof fn lemma_basepoint_encoding()
    ensures
        decodable(ED25519_BASEPOINT_COMPRESSED@),
        decoded(ED25519_BASEPOINT_COMPRESSED@) == curve::basepoint(),
{
    let b = ED25519_BASEPOINT_COMPRESSED@;
    curve::lemma_basepoint_on_curve();
    reveal(curve::basepoint);
    bytes::lemma_le_words(b);
    bytes::lemma_le_8(b.subrange(0, 8));
    bytes::lemma_le_8(b.subrange(8, 16));
    bytes::lemma_le_8(b.subrange(16, 24));
    bytes::lemma_le_8(b.subrange(24, 32));
    assert(bytes::le_value(b) == 0x6666666666666666666666666666666666666666666666666666666666666658int);
    lemma_decoding_unique(b, curve::basepoint());
}

} // verus!
