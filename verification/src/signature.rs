//! What it means for a signature to be valid.
use crate::bytes;
use crate::curve;
use crate::curve::Point;
use crate::encoding;
use crate::fp;
use crate::order;
use crate::policy;
use crate::policy::VerifyPolicy;
use crate::scalar;
use crate::sha512;
use vstd::prelude::*;

verus! {

/// The encoded point `R` of a signature.
pub open spec fn r_part(signature: Seq<u8>) -> Seq<u8> {
    signature.subrange(0, 32)
}

/// The encoded scalar `S` of a signature.
pub open spec fn s_part(signature: Seq<u8>) -> Seq<u8> {
    signature.subrange(32, 64)
}

/// Calls `ed25519::Signature::from_bytes` and `r_bytes`: the first 32 bytes of a signature.
#[verifier::external_body]
pub(crate) fn signature_r(signature: &[u8; 64]) -> (r: [u8; 32])
    ensures
        r@ == r_part(signature@),
{
    *ed25519::Signature::from_bytes(signature).r_bytes()
}

/// Calls `ed25519::Signature::from_bytes` and `s_bytes`: the last 32 bytes of a signature.
#[verifier::external_body]
pub(crate) fn signature_s(signature: &[u8; 64]) -> (r: [u8; 32])
    ensures
        r@ == s_part(signature@),
{
    *ed25519::Signature::from_bytes(signature).s_bytes()
}

/// `[8]P` is the neutral element.
pub open spec fn small_order(a: Point) -> bool {
    curve::smul(8, a) == curve::identity()
}

/// `[s]B - [k]A`, which an honest signer chose as `R`.
pub open spec fn recovered(s: int, k: int, a: Point) -> Point {
    curve::diff(curve::smul(s, curve::basepoint()), curve::smul(k, a))
}

/// The key decodes, and `S` is below the group order.
pub open spec fn well_encoded(key: Seq<u8>, s: Seq<u8>) -> bool {
    encoding::decodable(key) && bytes::le_value(s) < scalar::group_order()
}

/// Cofactored verification: `R` decodes and `[8]([s]B - [k]A - R)` is the neutral element.
pub open spec fn zip215_equation(r: Seq<u8>, recovered: Point) -> bool {
    encoding::decodable(r) && small_order(curve::diff(recovered, encoding::decoded(r)))
}

/// Strict verification: `R` is the encoding of `[s]B - [k]A`, and neither point has small order.
pub open spec fn dalek_equation(key: Seq<u8>, r: Seq<u8>, recovered: Point) -> bool {
    &&& encoding::encode(recovered) == r
    &&& !small_order(encoding::decoded(key))
    &&& !small_order(recovered)
}

/// Whether a policy accepts a signature `R || S` for a key, given the challenge `k`.
pub open spec fn accepts(policy: VerifyPolicy, key: Seq<u8>, r: Seq<u8>, s: Seq<u8>, k: int) -> bool {
    let point = recovered(bytes::le_value(s), k, encoding::decoded(key));
    well_encoded(key, s) && match policy {
        VerifyPolicy::Zip215 => zip215_equation(r, point),
        VerifyPolicy::Dalek => dalek_equation(key, r, point),
    }
}

/// Whether a policy accepts a signature of a message.
pub open spec fn verifies(policy: VerifyPolicy, key: Seq<u8>, signature: Seq<u8>, message: Seq<u8>) -> bool {
    let r = r_part(signature);
    accepts(policy, key, r, s_part(signature), sha512::challenge(r, key, message))
}

/// An encoding is canonical if its ordinate is reduced and the sign of a zero abscissa is clear.
pub open spec fn canonical(b: Seq<u8>) -> bool {
    policy::canonical_y(b) && !(encoding::decoded(b).x == 0 && encoding::encoded_sign(b))
}

/// Comparing encodings is comparing points, for canonical encodings: the encoding of a point is
/// `b` exactly when `b` is canonical and decodes to that point.
pub proof fn lemma_encoding_equals(a: Point, b: Seq<u8>)
    requires
        curve::on_curve(a),
        b.len() == 32,
    ensures
        (encoding::encode(a) == b) == (encoding::decodable(b) && canonical(b) && encoding::decoded(b) == a),
{
    let v = bytes::le_value(b);
    let t = encoding::two_255();
    encoding::lemma_sign_bit(b);
    if encoding::encode(a) == b {
        encoding::lemma_decode_encode(a);
        encoding::lemma_encode_value(a);
        assert(v == a.y + t * (a.x % 2));
        assert(v % t == a.y);
    }
    if encoding::decodable(b) && canonical(b) && encoding::decoded(b) == a {
        assert(encoding::decodes_to(b, a));
        fp::lemma_small_residue(v % t);
        assert(a.y == v % t);
        assert(v / t == a.x % 2);
        bytes::lemma_le_bytes_unique(b, a.y + t * (a.x % 2), 32);
    }
}

/// The neutral element has small order.
proof fn lemma_identity_small_order()
    ensures
        small_order(curve::identity()),
{
    let e = curve::identity();
    curve::lemma_identity_on_curve();
    curve::lemma_smul_base(e);
    curve::lemma_identity(e);
    curve::lemma_smul_add(1, 1, e);
    curve::lemma_smul_add(2, 2, e);
    curve::lemma_smul_add(4, 4, e);
}

/// What the strict policy accepts, the cofactored policy accepts too.
pub proof fn lemma_dalek_implies_zip215(key: Seq<u8>, r: Seq<u8>, s: Seq<u8>, k: int)
    requires
        accepts(VerifyPolicy::Dalek, key, r, s, k),
    ensures
        accepts(VerifyPolicy::Zip215, key, r, s, k),
{
    let a = encoding::decoded(key);
    let b = curve::basepoint();
    let q = recovered(bytes::le_value(s), k, a);
    assert(encoding::decodes_to(key, a));
    curve::lemma_basepoint_on_curve();
    curve::lemma_smul_on_curve(bytes::le_value(s), b);
    curve::lemma_smul_on_curve(k, a);
    curve::lemma_neg_on_curve(curve::smul(k, a));
    curve::lemma_closed(curve::smul(bytes::le_value(s), b), curve::neg(curve::smul(k, a)));
    encoding::lemma_decode_encode(q);
    curve::lemma_inverse(q);
    lemma_identity_small_order();
}

/// Multiples of the base point repeat with the group order.
pub proof fn lemma_reduced_multiple(j: int, k: int)
    requires
        (j - k) % scalar::group_order() == 0,
    ensures
        curve::smul(j, curve::basepoint()) == curve::smul(k, curve::basepoint()),
{
    let b = curve::basepoint();
    let l = scalar::group_order();
    let q = (j - k) / l;
    curve::lemma_basepoint_on_curve();
    order::lemma_basepoint_order();
    assert(j == k + q * l) by (nonlinear_arith)
        requires
            l > 0,
            q == (j - k) / l,
            (j - k) % l == 0,
    ;
    curve::lemma_smul_add(k, q * l, b);
    curve::lemma_smul_smul(q, l, b);
    curve::lemma_smul_base(b);
    curve::lemma_smul_smul(q, 0, b);
    assert(q * 0 == 0);
    curve::lemma_smul_on_curve(k, b);
    curve::lemma_identity(curve::smul(k, b));
}

/// A signer with the secret scalar `a` and the nonce `r` computes `S = r + k a` modulo the group
/// order; then `[s]B - [k]A` is `R`.
pub proof fn lemma_signer_recovered(a: int, r: int, s: int, k: int)
    requires
        (s - (r + k * a)) % scalar::group_order() == 0,
    ensures
        recovered(s, k, curve::smul(a, curve::basepoint())) == curve::smul(r, curve::basepoint()),
{
    let b = curve::basepoint();
    let rb = curve::smul(r, b);
    let ka = curve::smul(k, curve::smul(a, b));
    curve::lemma_basepoint_on_curve();
    lemma_reduced_multiple(s, r + k * a);
    curve::lemma_smul_add(r, k * a, b);
    curve::lemma_smul_smul(k, a, b);
    curve::lemma_smul_on_curve(r, b);
    curve::lemma_smul_on_curve(k * a, b);
    curve::lemma_neg_on_curve(ka);
    curve::lemma_associative(rb, ka, curve::neg(ka));
    curve::lemma_inverse(ka);
    curve::lemma_identity(rb);
}

/// Signatures made as the signature scheme prescribes verify: for the key `A = [a]B`, the point
/// `R = [r]B` and the canonical `S = r + k a` modulo the group order, the cofactored policy
/// accepts, and the strict policy accepts unless `A` or `R` has small order.
pub proof fn lemma_signed_verifies(a: int, r: int, key: Seq<u8>, signature: Seq<u8>, message: Seq<u8>)
    requires
        key == encoding::encode(curve::smul(a, curve::basepoint())),
        r_part(signature) == encoding::encode(curve::smul(r, curve::basepoint())),
        bytes::le_value(s_part(signature)) == (r + sha512::challenge(r_part(signature), key, message) * a)
            % scalar::group_order(),
    ensures
        verifies(VerifyPolicy::Zip215, key, signature, message),
        verifies(VerifyPolicy::Dalek, key, signature, message) == (!small_order(
            curve::smul(a, curve::basepoint()),
        ) && !small_order(curve::smul(r, curve::basepoint()))),
{
    let b = curve::basepoint();
    let s = bytes::le_value(s_part(signature));
    let k = sha512::challenge(r_part(signature), key, message);
    let e = r + k * a;
    let point = curve::smul(r, b);
    curve::lemma_basepoint_on_curve();
    curve::lemma_smul_on_curve(a, b);
    curve::lemma_smul_on_curve(r, b);
    encoding::lemma_decode_encode(curve::smul(a, b));
    encoding::lemma_decode_encode(point);
    assert((s - e) % scalar::group_order() == 0);
    lemma_signer_recovered(a, r, s, k);
    curve::lemma_inverse(point);
    lemma_identity_small_order();
}

/// `(P + D) - P` is `D`, and `P + D` is `P` only for the neutral `D`.
proof fn lemma_shifted(point: Point, shift: Point)
    requires
        curve::on_curve(point),
        curve::on_curve(shift),
    ensures
        curve::on_curve(curve::sum(point, shift)),
        curve::diff(curve::sum(point, shift), point) == shift,
        (curve::sum(point, shift) == point) == (shift == curve::identity()),
{
    curve::lemma_closed(point, shift);
    curve::lemma_inverse(point);
    curve::lemma_commutative(point, shift);
    curve::lemma_associative(shift, point, curve::neg(point));
    curve::lemma_identity(shift);
    curve::lemma_identity(point);
}

/// A signature that a signer made for one message, held against another: with `D` the challenge
/// of the one minus that of the other, times the key, the cofactored policy accepts exactly if
/// `D` has small order, and the strict policy exactly if `D` is the neutral element and neither
/// `A` nor `R` has small order.
pub proof fn lemma_signed_another_message(
    a: int,
    r: int,
    key: Seq<u8>,
    signature: Seq<u8>,
    message: Seq<u8>,
    other: Seq<u8>,
)
    requires
        key == encoding::encode(curve::smul(a, curve::basepoint())),
        r_part(signature) == encoding::encode(curve::smul(r, curve::basepoint())),
        bytes::le_value(s_part(signature)) == (r + sha512::challenge(r_part(signature), key, message) * a)
            % scalar::group_order(),
    ensures
        ({
            let point = curve::smul(a, curve::basepoint());
            let shift = curve::smul(
                sha512::challenge(r_part(signature), key, message) - sha512::challenge(
                    r_part(signature),
                    key,
                    other,
                ),
                point,
            );
            &&& verifies(VerifyPolicy::Zip215, key, signature, other) == small_order(shift)
            &&& verifies(VerifyPolicy::Dalek, key, signature, other) == (shift == curve::identity()
                && !small_order(point) && !small_order(curve::smul(r, curve::basepoint())))
        }),
{
    let b = curve::basepoint();
    let point = curve::smul(a, b);
    let nonce = curve::smul(r, b);
    let s = bytes::le_value(s_part(signature));
    let k = sha512::challenge(r_part(signature), key, message);
    let j = sha512::challenge(r_part(signature), key, other);
    let shift = curve::smul(k - j, point);
    let sb = curve::smul(s, b);
    let q = recovered(s, j, point);
    curve::lemma_basepoint_on_curve();
    curve::lemma_smul_on_curve(a, b);
    curve::lemma_smul_on_curve(r, b);
    curve::lemma_smul_on_curve(s, b);
    curve::lemma_smul_on_curve(k - j, point);
    curve::lemma_smul_on_curve(-k, point);
    encoding::lemma_decode_encode(point);
    encoding::lemma_decode_encode(nonce);
    let e = r + k * a;
    assert((s - e) % scalar::group_order() == 0);
    lemma_signer_recovered(a, r, s, k);
    curve::lemma_smul_neg(k, point);
    curve::lemma_smul_neg(j, point);
    curve::lemma_smul_add(-k, k - j, point);
    curve::lemma_associative(sb, curve::smul(-k, point), shift);
    assert(q == curve::sum(nonce, shift));
    lemma_shifted(nonce, shift);
    encoding::lemma_decode_encode(q);
}

/// With a key and an `R` of small order and `S = 0`, the cofactored policy accepts every message
/// and the strict policy none.
pub proof fn lemma_small_order_signature(key: Seq<u8>, signature: Seq<u8>, message: Seq<u8>)
    requires
        encoding::decodable(key),
        small_order(encoding::decoded(key)),
        encoding::decodable(r_part(signature)),
        small_order(encoding::decoded(r_part(signature))),
        bytes::le_value(s_part(signature)) == 0,
    ensures
        verifies(VerifyPolicy::Zip215, key, signature, message),
        !verifies(VerifyPolicy::Dalek, key, signature, message),
{
    let b = curve::basepoint();
    let e = curve::identity();
    let a = encoding::decoded(key);
    let r = encoding::decoded(r_part(signature));
    let k = sha512::challenge(r_part(signature), key, message);
    let ka = curve::smul(k, a);
    assert(encoding::decodes_to(key, a));
    assert(encoding::decodes_to(r_part(signature), r));
    curve::lemma_basepoint_on_curve();
    curve::lemma_smul_base(b);
    curve::lemma_smul_on_curve(k, a);
    curve::lemma_inverse(ka);
    curve::lemma_inverse(r);
    curve::lemma_identity(curve::neg(ka));
    // Multiples of points of small order have small order.
    curve::lemma_smul_smul(8, k, a);
    curve::lemma_smul_smul(k, 8, a);
    curve::lemma_smul_base(a);
    curve::lemma_smul_smul(k, 0, a);
    assert(8 * k == k * 8 && k * 0 == 0);
    assert(small_order(ka));
    curve::lemma_smul_neg(8, ka);
    curve::lemma_smul_neg(8, r);
    curve::lemma_smul_sum(8, curve::neg(ka), curve::neg(r));
    curve::lemma_identity_on_curve();
    curve::lemma_identity(e);
    curve::lemma_inverse(e);
    curve::lemma_identity(curve::neg(e));
}

/// `P - K - R` is the neutral element exactly if `P` is `R + K`.
proof fn lemma_difference_vanishes(point: Point, k: Point, r: Point)
    requires
        curve::on_curve(point),
        curve::on_curve(k),
        curve::on_curve(r),
    ensures
        (curve::diff(curve::diff(point, k), r) == curve::identity()) == (point == curve::sum(r, k)),
{
    let u = curve::diff(point, k);
    curve::lemma_inverse(k);
    curve::lemma_inverse(r);
    curve::lemma_closed(point, curve::neg(k));
    curve::lemma_inverse(u);
    curve::lemma_identity(point);
    curve::lemma_identity(r);
    if curve::diff(u, r) == curve::identity() {
        curve::lemma_inverse_unique(u, curve::neg(r));
        assert(r == u);
        curve::lemma_associative(point, curve::neg(k), k);
    }
    if point == curve::sum(r, k) {
        curve::lemma_associative(r, k, curve::neg(k));
    }
}

/// What the cofactored policy accepts for a challenge `k`: `S` is below the group order, the key
/// decodes to a point `A`, the encoding `rb` to a point `R`, and `[8 s]B = [8]R + [8 k]A`. Nothing
/// else is accepted.
pub proof fn lemma_zip215_accepts(key: Seq<u8>, rb: Seq<u8>, sb: Seq<u8>, k: int)
    ensures
        accepts(VerifyPolicy::Zip215, key, rb, sb, k) == (bytes::le_value(sb)
            < 0x1000000000000000000000000000000014def9dea2f79cd65812631a5cf5d3edint && exists|
            a: Point,
            r: Point,
        |
            #[trigger] encoding::decodes_to(key, a) && #[trigger] encoding::decodes_to(rb, r) && curve::smul(
                8 * bytes::le_value(sb),
                curve::basepoint(),
            ) == curve::sum(curve::smul(8, r), curve::smul(8 * k, a))),
{
    let s = bytes::le_value(sb);
    let b = curve::basepoint();
    curve::lemma_basepoint_on_curve();
    assert forall|a: Point, r: Point|
        #[trigger] encoding::decodes_to(key, a) && #[trigger] encoding::decodes_to(rb, r) implies (
    curve::smul(8 * s, b) == curve::sum(curve::smul(8, r), curve::smul(8 * k, a))) == small_order(
        curve::diff(recovered(s, k, a), r),
    ) && encoding::decoded(key) == a && encoding::decoded(rb) == r by {
        encoding::lemma_decoding_unique(key, a);
        encoding::lemma_decoding_unique(rb, r);
        lemma_cofactored(s, k, a, r);
    }
    if accepts(VerifyPolicy::Zip215, key, rb, sb, k) {
        assert(encoding::decodes_to(key, encoding::decoded(key)));
        assert(encoding::decodes_to(rb, encoding::decoded(rb)));
    }
}

/// `[8]([s]B - [k]A - R)` is the neutral element exactly if `[8 s]B = [8]R + [8 k]A`.
pub proof fn lemma_cofactored(s: int, k: int, a: Point, r: Point)
    requires
        curve::on_curve(a),
        curve::on_curve(r),
    ensures
        small_order(curve::diff(recovered(s, k, a), r)) == (curve::smul(8 * s, curve::basepoint())
            == curve::sum(curve::smul(8, r), curve::smul(8 * k, a))),
{
    let b = curve::basepoint();
    let sb = curve::smul(s, b);
    let ka = curve::smul(k, a);
    curve::lemma_basepoint_on_curve();
    curve::lemma_smul_on_curve(s, b);
    curve::lemma_smul_on_curve(k, a);
    curve::lemma_inverse(ka);
    curve::lemma_inverse(r);
    curve::lemma_closed(sb, curve::neg(ka));
    curve::lemma_smul_sum(8, recovered(s, k, a), curve::neg(r));
    curve::lemma_smul_sum(8, sb, curve::neg(ka));
    curve::lemma_smul_neg(8, ka);
    curve::lemma_smul_neg(8, r);
    curve::lemma_smul_smul(8, s, b);
    curve::lemma_smul_smul(8, k, a);
    curve::lemma_smul_on_curve(8 * s, b);
    curve::lemma_smul_on_curve(8 * k, a);
    curve::lemma_smul_on_curve(8, r);
    lemma_difference_vanishes(curve::smul(8 * s, b), curve::smul(8 * k, a), curve::smul(8, r));
}

/// `[s]B - [k]A` is `R` exactly if `[s]B = R + [k]A`.
pub proof fn lemma_recovered_is(s: int, k: int, a: Point, r: Point)
    requires
        curve::on_curve(a),
        curve::on_curve(r),
    ensures
        curve::on_curve(recovered(s, k, a)),
        (recovered(s, k, a) == r) == (curve::smul(s, curve::basepoint()) == curve::sum(
            r,
            curve::smul(k, a),
        )),
{
    let b = curve::basepoint();
    let ka = curve::smul(k, a);
    let q = recovered(s, k, a);
    curve::lemma_basepoint_on_curve();
    curve::lemma_smul_on_curve(s, b);
    curve::lemma_smul_on_curve(k, a);
    lemma_difference_vanishes(curve::smul(s, b), ka, r);
    curve::lemma_inverse(ka);
    curve::lemma_closed(curve::smul(s, b), curve::neg(ka));
    curve::lemma_inverse(r);
    if curve::diff(q, r) == curve::identity() {
        curve::lemma_inverse(q);
        curve::lemma_inverse_unique(q, curve::neg(r));
    }
}

/// The 32 bytes `b` are the encoding of a point exactly if their value is the ordinate, plus
/// `2^255` for an odd abscissa.
pub proof fn lemma_is_encoding(r: Point, b: Seq<u8>)
    requires
        curve::on_curve(r),
        b.len() == 32,
    ensures
        (encoding::encode(r) == b) == (bytes::le_value(b) == r.y
            + 0x8000000000000000000000000000000000000000000000000000000000000000int * (r.x % 2)),
{
    encoding::lemma_encode_value(r);
    if bytes::le_value(b) == r.y + encoding::two_255() * (r.x % 2) {
        bytes::lemma_le_bytes_unique(b, r.y + encoding::two_255() * (r.x % 2), 32);
    }
}

/// What the strict policy accepts for a challenge `k`: `S` is below the group order, the key
/// decodes to a point `A`, the encoding `rb` is the reduced ordinate and the sign of a point `R`,
/// `[s]B = R + [k]A`, and neither `[8]A` nor `[8]R` is the neutral element. Nothing else is
/// accepted.
pub proof fn lemma_dalek_accepts(key: Seq<u8>, rb: Seq<u8>, sb: Seq<u8>, k: int)
    requires
        rb.len() == 32,
    ensures
        accepts(VerifyPolicy::Dalek, key, rb, sb, k) == (bytes::le_value(sb)
            < 0x1000000000000000000000000000000014def9dea2f79cd65812631a5cf5d3edint && exists|
            a: Point,
            r: Point,
        |
            #[trigger] encoding::decodes_to(key, a) && #[trigger] curve::on_curve(r) && bytes::le_value(rb)
                == r.y + 0x8000000000000000000000000000000000000000000000000000000000000000int * (r.x % 2)
                && curve::smul(bytes::le_value(sb), curve::basepoint()) == curve::sum(r, curve::smul(k, a))
                && curve::smul(8, a) != (Point { x: 0, y: 1 }) && curve::smul(8, r) != (Point {
                x: 0,
                y: 1,
            })),
{
    let s = bytes::le_value(sb);
    let b = curve::basepoint();
    assert forall|a: Point, r: Point|
        #[trigger] encoding::decodes_to(key, a) && #[trigger] curve::on_curve(r) implies (curve::smul(s, b)
        == curve::sum(r, curve::smul(k, a))) == (recovered(s, k, a) == r) && encoding::decoded(key) == a
        && (encoding::encode(r) == rb) == (bytes::le_value(rb) == r.y + encoding::two_255() * (r.x % 2)) by {
        encoding::lemma_decoding_unique(key, a);
        lemma_recovered_is(s, k, a, r);
        lemma_is_encoding(r, rb);
    }
    if accepts(VerifyPolicy::Dalek, key, rb, sb, k) {
        let a = encoding::decoded(key);
        assert(encoding::decodes_to(key, a));
        lemma_recovered_is(s, k, a, a);
        assert(curve::on_curve(recovered(s, k, a)));
    }
}

} // verus!
