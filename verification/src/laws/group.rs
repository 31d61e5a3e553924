//! The numbers, the curve and the encodings that the promises speak of.
use crate::bytes;
use crate::curve;
use crate::curve::Point;
use crate::encoding;
use crate::fp;
use crate::order;
use crate::scalar;
use vstd::arithmetic::div_mod::*;
use vstd::arithmetic::power2::*;
use vstd::prelude::*;

verus! {

/// The field has `2^255 - 19` elements, the curve constant is `-121665 / 121666`, and the group
/// order is `2^252 + 27742317777372353535851937790883648493`.
pub proof fn lemma_constants()
    ensures
        fp::p() == pow2(255) - 19,
        0 <= fp::d() < fp::p(),
        (121666 * fp::d() + 121665) % fp::p() == 0,
        scalar::group_order() == pow2(252) + 27742317777372353535851937790883648493,
{
    reveal(fp::d);
    bytes::lemma_pow2_256();
    lemma_pow2_unfold(256);
    lemma_pow2_unfold(255);
    lemma_pow2_unfold(254);
    lemma_pow2_unfold(253);
}

/// The value of a byte string: bytes weigh 256 times what the byte before weighs. A string `a`
/// followed by `b` has the value of `a` plus `256^|a|` times that of `b`.
pub proof fn lemma_byte_strings(x: u8, a: Seq<u8>, b: Seq<u8>)
    ensures
        bytes::le_value(a) == a.fold_right(|byte: u8, above: int| byte + 256 * above, 0int),
        bytes::le_value(Seq::empty()) == 0,
        bytes::le_value(seq![x]) == x,
        bytes::le_value(a + b) == bytes::le_value(a) + pow2(8 * a.len()) * bytes::le_value(b),
{
    lemma_bytes_folded(a);
    bytes::lemma_le_1(seq![x]);
    bytes::lemma_le_concat(a, b, pow2(8 * a.len()) as int);
}

proof fn lemma_bytes_folded(a: Seq<u8>)
    ensures
        bytes::le_value(a) == a.fold_right(|byte: u8, above: int| byte + 256 * above, 0int),
    decreases a.len(),
{
    let f = |byte: u8, above: int| byte + 256 * above;
    a.lemma_fold_right_alt(f, 0int);
    if a.len() > 0 {
        let tail = a.subrange(1, a.len() as int);
        lemma_bytes_folded(tail);
        tail.lemma_fold_right_alt(f, 0int);
    }
}

/// The points of the curve are the pairs of reduced coordinates with `-x^2 + y^2 = 1 + d x^2 y^2`.
pub proof fn lemma_points(a: Point)
    ensures
        curve::on_curve(a) == (0 <= a.x < fp::p() && 0 <= a.y < fp::p() && (a.y * a.y - a.x * a.x - (1
            + fp::d() * (a.x * a.x * (a.y * a.y)))) % fp::p() == 0),
{
}

/// The sum of two points is the one reduced pair `(x, y)` with
/// `x (1 + d x1 x2 y1 y2) = x1 y2 + y1 x2` and `y (1 - d x1 x2 y1 y2) = y1 y2 + x1 x2`.
pub proof fn lemma_sums(a: Point, b: Point, c: Point)
    requires
        curve::on_curve(a),
        curve::on_curve(b),
    ensures
        (curve::sum(a, b) == c) == (0 <= c.x < fp::p() && 0 <= c.y < fp::p() && (c.x * (1 + fp::d() * (a.x
            * b.x * (a.y * b.y)))) % fp::p() == (a.x * b.y + a.y * b.x) % fp::p() && (c.y * (1 - fp::d() * (
        a.x * b.x * (a.y * b.y)))) % fp::p() == (a.y * b.y + a.x * b.x) % fp::p()),
        curve::on_curve(curve::sum(a, b)),
{
    curve::lemma_add_is_sum(a, b);
    curve::lemma_closed(a, b);
    if curve::is_sum(a, b, c) && 0 <= c.x < fp::p() && 0 <= c.y < fp::p() {
        curve::lemma_sum_unique(a, b, c);
    }
}

/// The points are an abelian group: `(0, 1)` is neutral, `(-x, y)` is the inverse of `(x, y)`.
pub proof fn lemma_group(a: Point, b: Point, c: Point)
    requires
        curve::on_curve(a),
        curve::on_curve(b),
        curve::on_curve(c),
    ensures
        curve::identity() == (Point { x: 0, y: 1 }),
        curve::sum(a, curve::identity()) == a,
        curve::sum(a, b) == curve::sum(b, a),
        curve::sum(curve::sum(a, b), c) == curve::sum(a, curve::sum(b, c)),
        curve::neg(a).y == a.y,
        (curve::neg(a).x + a.x) % fp::p() == 0,
        curve::sum(a, curve::neg(a)) == curve::identity(),
        curve::sum(curve::diff(a, b), b) == a,
{
    broadcast use fp::group_field_ops;

    curve::lemma_identity(a);
    curve::lemma_commutative(a, b);
    curve::lemma_associative(a, b, c);
    curve::lemma_inverse(a);
    curve::lemma_inverse(b);
    curve::lemma_associative(a, curve::neg(b), b);
    lemma_add_mod_noop(-a.x, a.x, fp::p());
    lemma_small_mod(0, fp::p() as nat);
    assert((((-a.x) % fp::p()) + a.x) % fp::p() == (-a.x + a.x) % fp::p()) by {
        lemma_add_mod_noop((-a.x) % fp::p(), a.x, fp::p());
        lemma_mod_twice(-a.x, fp::p());
    }
}

/// Multiples of a point are repeated sums, for every integer.
pub proof fn lemma_multiples(j: int, k: int, a: Point)
    requires
        curve::on_curve(a),
    ensures
        curve::smul(0, a) == (Point { x: 0, y: 1 }),
        curve::smul(1, a) == a,
        curve::smul(k + 1, a) == curve::sum(curve::smul(k, a), a),
        curve::smul(j + k, a) == curve::sum(curve::smul(j, a), curve::smul(k, a)),
        curve::smul(j * k, a) == curve::smul(j, curve::smul(k, a)),
        curve::on_curve(curve::smul(k, a)),
{
    curve::lemma_smul_base(a);
    curve::lemma_smul_step(k, a);
    curve::lemma_smul_add(j, k, a);
    curve::lemma_smul_smul(j, k, a);
    curve::lemma_smul_on_curve(k, a);
}

/// The base point has `y = 4/5` and even `x`, and the group order annihilates it.
pub proof fn lemma_base_point()
    ensures
        curve::on_curve(curve::basepoint()),
        (5 * curve::basepoint().y) % fp::p() == 4,
        curve::basepoint().x % 2 == 0,
        curve::basepoint() != (Point { x: 0, y: 1 }),
        curve::smul(scalar::group_order(), curve::basepoint()) == (Point { x: 0, y: 1 }),
{
    curve::lemma_basepoint_on_curve();
    order::lemma_basepoint_order();
    reveal(curve::basepoint);
}

/// A byte string decodes to a point exactly if the point lies on the curve, its ordinate is the
/// low 255 bits modulo `p`, and the next bit is the parity of its abscissa, unless that is zero.
/// It decodes to no other point.
pub proof fn lemma_decoding(b: Seq<u8>, x: int, y: int)
    ensures
        encoding::decodes_to(b, Point { x, y }) == (0 <= x < fp::p() && 0 <= y < fp::p() && (y * y - x * x
            - (1 + fp::d() * (x * x * (y * y)))) % fp::p() == 0 && y == (bytes::le_value(b)
            % 0x8000000000000000000000000000000000000000000000000000000000000000int) % fp::p() && (x == 0 || x
            % 2 == (bytes::le_value(b)
            / 0x8000000000000000000000000000000000000000000000000000000000000000int) % 2)),
        encoding::decodable(b) == exists|a: Point| encoding::decodes_to(b, a),
        encoding::decodes_to(b, Point { x, y }) ==> encoding::decoded(b) == (Point { x, y }),
{
    if encoding::decodes_to(b, Point { x, y }) {
        encoding::lemma_decoding_unique(b, Point { x, y });
    }
}

/// The encoding of a point is 32 bytes: its ordinate, plus `2^255` for an odd abscissa. It decodes
/// to the point.
pub proof fn lemma_encoding(a: Point)
    requires
        curve::on_curve(a),
    ensures
        encoding::encode(a).len() == 32,
        bytes::le_value(encoding::encode(a)) == a.y
            + 0x8000000000000000000000000000000000000000000000000000000000000000int * (a.x % 2),
        encoding::decodes_to(encoding::encode(a), a),
{
    encoding::lemma_encode_value(a);
    encoding::lemma_decode_encode(a);
    assert(encoding::decodes_to(encoding::encode(a), encoding::decoded(encoding::encode(a))));
}

} // verus!
