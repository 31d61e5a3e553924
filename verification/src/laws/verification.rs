//! What it takes for a signature to be accepted, by single verification and in batches.
use crate::batch::PreparedBatch;
use crate::batch_verifier;
use crate::batch_verifier::{parse_chunk_inputs, ChunkParts, Verifier, VerifyInput};
use crate::bytes;
use crate::cache::{KeyCache, NullKeyCache};
use crate::cpuid::{check_required_avx512_runtime_support, CpuFeatures};
use crate::curve;
use crate::curve::Point;
use crate::edwards::EdwardsPoint;
use crate::encoding;
use crate::error::{Error, UnsupportedError};
use crate::lanes;
use crate::laws;
use crate::policy::VerifyPolicy;
use crate::scalar::Scalar;
use crate::sha512;
use crate::signature;
use crate::verification_key::VerificationKey;
use crate::wide;
use crate::wide::WideRPoints;
use vstd::arithmetic::div_mod::*;
use vstd::arithmetic::power2::*;
use vstd::prelude::*;

verus! {

/// Single cofactored verification under a decoded key accepts exactly the signatures whose `S` is
/// below the group order, whose first half decodes to a point `R`, and for which
/// `[8 s]B = [8]R + [8 k]A`, where `k` is the digest of `R`, the key and the whole message. This
/// is also the default.
pub proof fn lemma_verify_zebra(
    encoded: [u8; 32],
    key: VerificationKey,
    signature: [u8; 64],
    message: &[u8],
    r: Result<(), Error>,
)
    requires
        call_ensures(VerificationKey::try_from, (encoded,), Ok(key)),
        call_ensures(VerificationKey::verify_zebra, (&key, &signature, message), r) || call_ensures(
            VerificationKey::verify,
            (&key, &signature, message),
            r,
        ),
    ensures
        r is Ok == (bytes::le_value(signature@.subrange(32, 64))
            < 0x1000000000000000000000000000000014def9dea2f79cd65812631a5cf5d3edint && exists|
            a: Point,
            rp: Point,
        |
            #[trigger] encoding::decodes_to(encoded@, a) && #[trigger] encoding::decodes_to(
                signature@.subrange(0, 32),
                rp,
            ) && curve::smul(8 * bytes::le_value(signature@.subrange(32, 64)), curve::basepoint())
                == curve::sum(
                curve::smul(8, rp),
                curve::smul(
                    8 * (bytes::le_value(
                        sha512::sha512_digest(signature@.subrange(0, 32) + encoded@ + message@),
                    ) % 0x1000000000000000000000000000000014def9dea2f79cd65812631a5cf5d3edint),
                    a,
                ),
            )),
        r is Err ==> r == Err::<(), Error>(Error::InvalidSignature),
{
    let rb = signature@.subrange(0, 32);
    let k = sha512::challenge(rb, encoded@, message@);
    signature::lemma_zip215_accepts(encoded@, rb, signature@.subrange(32, 64), k);
}

/// Single strict verification under a decoded key accepts exactly the signatures whose `S` is
/// below the group order, whose first half is the reduced ordinate and the sign of a point `R`,
/// and for which `[s]B = R + [k]A` and neither `[8]A` nor `[8]R` is the neutral element, where `k`
/// is the digest of `R`, the key and the whole message.
pub proof fn lemma_verify_dalek(
    encoded: [u8; 32],
    key: VerificationKey,
    signature: [u8; 64],
    message: &[u8],
    r: Result<(), Error>,
)
    requires
        call_ensures(VerificationKey::try_from, (encoded,), Ok(key)),
        call_ensures(VerificationKey::verify_dalek, (&key, &signature, message), r),
    ensures
        r is Ok == (bytes::le_value(signature@.subrange(32, 64))
            < 0x1000000000000000000000000000000014def9dea2f79cd65812631a5cf5d3edint && exists|
            a: Point,
            rp: Point,
        |
            #[trigger] encoding::decodes_to(encoded@, a) && #[trigger] curve::on_curve(rp)
                && bytes::le_value(signature@.subrange(0, 32)) == rp.y
                + 0x8000000000000000000000000000000000000000000000000000000000000000int * (rp.x % 2)
                && curve::smul(bytes::le_value(signature@.subrange(32, 64)), curve::basepoint())
                == curve::sum(
                rp,
                curve::smul(
                    bytes::le_value(
                        sha512::sha512_digest(signature@.subrange(0, 32) + encoded@ + message@),
                    ) % 0x1000000000000000000000000000000014def9dea2f79cd65812631a5cf5d3edint,
                    a,
                ),
            ) && curve::smul(8, a) != (Point { x: 0, y: 1 }) && curve::smul(8, rp) != (Point { x: 0, y: 1 })),
        r is Err ==> r == Err::<(), Error>(Error::InvalidSignature),
{
    let rb = signature@.subrange(0, 32);
    let k = sha512::challenge(rb, encoded@, message@);
    signature::lemma_dalek_accepts(encoded@, rb, signature@.subrange(32, 64), k);
}

/// A batch under the cofactored policy accepts a request exactly if its `S` is below the group
/// order, its key decodes to a point `A` and the first half of its signature to a point `R`, and
/// `[8 s]B = [8]R + [8 k]A`, where `k` is the digest of `R`, the key and the whole message,
/// however many requests there are and whatever they hold.
pub proof fn lemma_batch_zip215<C: KeyCache>(inputs: &[VerifyInput], i: int)
    requires
        0 <= i < inputs@.len(),
    ensures
        forall|v: &mut Verifier<C>, out: &mut [bool]|
            #[trigger] call_ensures(Verifier::<C>::verify_batch, (v, inputs, out), ()) && call_ensures(
                Verifier::<C>::policy,
                (&*v,),
                VerifyPolicy::Zip215,
            ) ==> final(out)@[i] == (bytes::le_value(inputs@[i].signature@.subrange(32, 64))
                < 0x1000000000000000000000000000000014def9dea2f79cd65812631a5cf5d3edint && exists|
                a: Point,
                rp: Point,
            |
                #[trigger] encoding::decodes_to(inputs@[i].public_key@, a) && #[trigger] encoding::decodes_to(
                    inputs@[i].signature@.subrange(0, 32),
                    rp,
                ) && curve::smul(
                    8 * bytes::le_value(inputs@[i].signature@.subrange(32, 64)),
                    curve::basepoint(),
                ) == curve::sum(
                    curve::smul(8, rp),
                    curve::smul(
                        8 * (bytes::le_value(
                            sha512::sha512_digest(
                                inputs@[i].signature@.subrange(0, 32) + inputs@[i].public_key@
                                    + inputs@[i].message@,
                            ),
                        ) % 0x1000000000000000000000000000000014def9dea2f79cd65812631a5cf5d3edint),
                        a,
                    ),
                )),
{
    let rb = inputs@[i].signature@.subrange(0, 32);
    let key = inputs@[i].public_key@;
    let k = sha512::challenge(rb, key, inputs@[i].message@);
    signature::lemma_zip215_accepts(key, rb, inputs@[i].signature@.subrange(32, 64), k);
    assert forall|v: &mut Verifier<C>, out: &mut [bool]|
        #[trigger] call_ensures(Verifier::<C>::verify_batch, (v, inputs, out), ()) && call_ensures(
            Verifier::<C>::policy,
            (&*v,),
            VerifyPolicy::Zip215,
        ) implies final(out)@[i] == inputs@[i].valid(VerifyPolicy::Zip215) by {
    }
}

/// A batch under the strict policy accepts a request exactly if its `S` is below the group order,
/// its key decodes to a point `A`, the first half of its signature is the reduced ordinate and the
/// sign of a point `R`, `[s]B = R + [k]A` for the digest `k` of `R`, the key and the whole message,
/// and neither `[8]A` nor `[8]R` is the neutral element, however many requests there are and
/// whatever they hold.
pub proof fn lemma_batch_dalek<C: KeyCache>(inputs: &[VerifyInput], i: int)
    requires
        0 <= i < inputs@.len(),
    ensures
        forall|v: &mut Verifier<C>, out: &mut [bool]|
            #[trigger] call_ensures(Verifier::<C>::verify_batch, (v, inputs, out), ()) && call_ensures(
                Verifier::<C>::policy,
                (&*v,),
                VerifyPolicy::Dalek,
            ) ==> final(out)@[i] == (bytes::le_value(inputs@[i].signature@.subrange(32, 64))
                < 0x1000000000000000000000000000000014def9dea2f79cd65812631a5cf5d3edint && exists|
                a: Point,
                rp: Point,
            |
                #[trigger] encoding::decodes_to(inputs@[i].public_key@, a) && #[trigger] curve::on_curve(rp)
                    && bytes::le_value(inputs@[i].signature@.subrange(0, 32)) == rp.y
                    + 0x8000000000000000000000000000000000000000000000000000000000000000int * (rp.x % 2)
                    && curve::smul(
                    bytes::le_value(inputs@[i].signature@.subrange(32, 64)),
                    curve::basepoint(),
                ) == curve::sum(
                    rp,
                    curve::smul(
                        bytes::le_value(
                            sha512::sha512_digest(
                                inputs@[i].signature@.subrange(0, 32) + inputs@[i].public_key@
                                    + inputs@[i].message@,
                            ),
                        ) % 0x1000000000000000000000000000000014def9dea2f79cd65812631a5cf5d3edint,
                        a,
                    ),
                ) && curve::smul(8, a) != (Point { x: 0, y: 1 }) && curve::smul(8, rp) != (Point {
                    x: 0,
                    y: 1,
                })),
{
    let rb = inputs@[i].signature@.subrange(0, 32);
    let key = inputs@[i].public_key@;
    let k = sha512::challenge(rb, key, inputs@[i].message@);
    signature::lemma_dalek_accepts(key, rb, inputs@[i].signature@.subrange(32, 64), k);
    assert forall|v: &mut Verifier<C>, out: &mut [bool]|
        #[trigger] call_ensures(Verifier::<C>::verify_batch, (v, inputs, out), ()) && call_ensures(
            Verifier::<C>::policy,
            (&*v,),
            VerifyPolicy::Dalek,
        ) implies final(out)@[i] == inputs@[i].valid(VerifyPolicy::Dalek) by {
    }
}

/// A batch gives one result per request and keeps the policy.
pub proof fn lemma_batch_shape<C: KeyCache>(inputs: &[VerifyInput], policy: VerifyPolicy)
    ensures
        forall|v: &mut Verifier<C>, out: &mut [bool], after: VerifyPolicy|
            #[trigger] call_ensures(Verifier::<C>::verify_batch, (v, inputs, out), ()) && call_ensures(
                Verifier::<C>::policy,
                (&*v,),
                policy,
            ) && #[trigger] call_ensures(Verifier::<C>::policy, (&*final(v),), after) ==> final(out)@.len()
                == inputs@.len() && after == policy,
{
}

/// A request alone, in a batch and in a chunk: the verdict of a batch is that of single
/// verification, which is that of the decoded key.
pub proof fn lemma_request_alone<C: KeyCache>(
    v: Verifier<C>,
    input: VerifyInput,
    policy: VerifyPolicy,
    single: bool,
    key: Result<VerificationKey, Error>,
    zebra: Result<(), Error>,
    dalek: Result<(), Error>,
)
    requires
        call_ensures(Verifier::<C>::policy, (&v,), policy),
        call_ensures(Verifier::<C>::verify_single_scalar, (&v, &input), single),
        call_ensures(VerificationKey::try_from, (input.public_key,), key),
        key matches Ok(key) ==> call_ensures(
            VerificationKey::verify_zebra,
            (&key, &input.signature, input.message),
            zebra,
        ) && call_ensures(VerificationKey::verify_dalek, (&key, &input.signature, input.message), dalek),
    ensures
        single == (key is Ok && match policy {
            VerifyPolicy::Zip215 => zebra is Ok,
            VerifyPolicy::Dalek => dalek is Ok,
        }),
        forall|w: &mut Verifier<C>, inputs: &[VerifyInput], out: &mut [bool], j: int|
            #[trigger] call_ensures(Verifier::<C>::verify_batch, (w, inputs, out), ()) && call_ensures(
                Verifier::<C>::policy,
                (&*w,),
                policy,
            ) && 0 <= j < inputs@.len() && #[trigger] inputs@[j] == input ==> final(out)@[j] == single,
{
    if key is Err {
        assert(!encoding::decodable(input.public_key@));
    }
}

/// A chunk: where some request has an `S` below the group order and a key that decodes, every
/// result is that of single verification, whatever it was before; where none has, every result
/// stays what it was.
pub proof fn lemma_chunk_results<C: KeyCache>(
    verifier: Verifier<C>,
    inputs: [VerifyInput; 8],
    policy: VerifyPolicy,
    i: int,
    single: bool,
)
    requires
        0 <= i < 8,
        call_ensures(Verifier::<C>::policy, (&verifier,), policy),
        call_ensures(Verifier::<C>::verify_single_scalar, (&verifier, &inputs[i]), single),
    ensures
        forall|v: &mut Verifier<C>, out: &mut [bool; 8]|
            #[trigger] call_ensures(Verifier::<C>::try_verify_chunk, (v, &inputs, out), ()) && call_ensures(
                Verifier::<C>::policy,
                (&*v,),
                policy,
            ) ==> final(out)@[i] == (if exists|j: int, a: Point|
                0 <= j < 8 && bytes::le_value(inputs@[j].signature@.subrange(32, 64))
                    < 0x1000000000000000000000000000000014def9dea2f79cd65812631a5cf5d3edint
                    && #[trigger] encoding::decodes_to(inputs@[j].public_key@, a) {
                single
            } else {
                out@[i]
            }),
{
    assert((exists|j: int| 0 <= j < 8 && #[trigger] inputs@[j].well_encoded()) == (exists|j: int, a: Point|
        0 <= j < 8 && bytes::le_value(inputs@[j].signature@.subrange(32, 64))
            < 0x1000000000000000000000000000000014def9dea2f79cd65812631a5cf5d3edint
            && #[trigger] encoding::decodes_to(inputs@[j].public_key@, a))) by {
        if exists|j: int| 0 <= j < 8 && #[trigger] inputs@[j].well_encoded() {
            let j = choose|j: int| 0 <= j < 8 && #[trigger] inputs@[j].well_encoded();
            assert(encoding::decodes_to(inputs@[j].public_key@, encoding::decoded(inputs@[j].public_key@)));
        }
        if exists|j: int, a: Point|
            0 <= j < 8 && bytes::le_value(inputs@[j].signature@.subrange(32, 64))
                < 0x1000000000000000000000000000000014def9dea2f79cd65812631a5cf5d3edint
                && #[trigger] encoding::decodes_to(inputs@[j].public_key@, a) {
            let (j, a) = choose|j: int, a: Point|
                0 <= j < 8 && bytes::le_value(inputs@[j].signature@.subrange(32, 64))
                    < 0x1000000000000000000000000000000014def9dea2f79cd65812631a5cf5d3edint
                    && #[trigger] encoding::decodes_to(inputs@[j].public_key@, a);
            assert(inputs@[j].well_encoded());
        }
    }
    assert forall|v: &mut Verifier<C>, out: &mut [bool; 8]|
        #[trigger] call_ensures(Verifier::<C>::try_verify_chunk, (v, &inputs, out), ()) && call_ensures(
            Verifier::<C>::policy,
            (&*v,),
            policy,
        ) implies final(out)@[i] == (if exists|j: int| 0 <= j < 8 && #[trigger] inputs@[j].well_encoded() {
        single
    } else {
        out@[i]
    }) by {
        assert(batch_verifier::chunk_verdicts(v.spec_policy(), inputs@, out@, final(out)@));
    }
}

/// Verification with a given challenge: the equations with `k` in place of the digest.
pub proof fn lemma_check(
    encoded: [u8; 32],
    key: VerificationKey,
    rb: [u8; 32],
    sb: [u8; 32],
    k: Scalar,
    source: [u8; 64],
    zebra: Result<(), Error>,
    dalek: Result<(), Error>,
)
    requires
        call_ensures(VerificationKey::try_from, (encoded,), Ok(key)),
        call_ensures(Scalar::from_wide_bytes, (source,), k),
        call_ensures(VerificationKey::check_zebra, (&key, &rb, &sb, &k), zebra),
        call_ensures(VerificationKey::check_dalek, (&key, &rb, &sb, &k), dalek),
    ensures
        ({
            let order = 0x1000000000000000000000000000000014def9dea2f79cd65812631a5cf5d3edint;
            let s = bytes::le_value(sb@);
            let c = bytes::le_value(source@) % order;
            &&& zebra is Ok == (s < order && exists|a: Point, r: Point|
                #[trigger] encoding::decodes_to(encoded@, a) && #[trigger] encoding::decodes_to(rb@, r)
                    && curve::smul(8 * s, curve::basepoint()) == curve::sum(
                    curve::smul(8, r),
                    curve::smul(8 * c, a),
                ))
            &&& dalek is Ok == (s < order && exists|a: Point, r: Point|
                #[trigger] encoding::decodes_to(encoded@, a) && #[trigger] curve::on_curve(r)
                    && bytes::le_value(rb@) == r.y
                    + 0x8000000000000000000000000000000000000000000000000000000000000000int * (r.x % 2)
                    && curve::smul(s, curve::basepoint()) == curve::sum(r, curve::smul(c, a))
                    && curve::smul(8, a) != (Point { x: 0, y: 1 }) && curve::smul(8, r) != (Point {
                    x: 0,
                    y: 1,
                }))
        }),
        zebra is Err ==> zebra == Err::<(), Error>(Error::InvalidSignature),
        dalek is Err ==> dalek == Err::<(), Error>(Error::InvalidSignature),
{
    signature::lemma_zip215_accepts(encoded@, rb@, sb@, k.value());
    signature::lemma_dalek_accepts(encoded@, rb@, sb@, k.value());
}

/// A key decodes exactly if its bytes name a point of the curve.
pub proof fn lemma_key(encoded: [u8; 32], r: Result<VerificationKey, Error>, point: Option<EdwardsPoint>)
    requires
        call_ensures(VerificationKey::try_from, (encoded,), r),
        call_ensures(EdwardsPoint::decompress, (&encoded,), point),
    ensures
        r is Ok == point is Some,
        r is Ok == exists|a: Point| encoding::decodes_to(encoded@, a),
        r matches Err(e) ==> e == Error::MalformedPublicKey,
{
}

/// The lanes of a chunk under the cofactored policy, with points `R` that were decompressed before
/// or not: a lane passes exactly if it is marked valid, its `R` decodes, and
/// `[8 s]B = [8]R + [8 k]A` for the point `A` of its table and the values of its digits.
pub proof fn lemma_zip215_lanes<C: KeyCache>(
    v: Verifier<C>,
    prepared: PreparedBatch,
    decoded_r: Option<(&WideRPoints, &[bool; 8])>,
    r_bytes: [[u8; 32]; 8],
    valid: [bool; 8],
    out: [bool; 8],
    i: int,
)
    requires
        0 <= i < 8,
        prepared.valid(),
        decoded_r matches Some(r) ==> batch_verifier::r_decoded(*r.0, *r.1, r_bytes),
        call_ensures(Verifier::<C>::verify_zip215_lanes, (&v, &prepared, decoded_r, &r_bytes, &valid), out),
    ensures
        ({
            let s = prepared.s_digits@[i]@.fold_right(|digit: i8, above: int| digit + 16 * above, 0int);
            let k = prepared.k_digits@[i]@.fold_right(|digit: i8, above: int| digit + 16 * above, 0int);
            let a = prepared.public_key_tables@[i].point();
            out@[i] == (valid@[i] && exists|r: Point|
                #[trigger] encoding::decodes_to(r_bytes@[i]@, r) && curve::smul(8 * s, curve::basepoint())
                    == curve::sum(curve::smul(8, r), curve::smul(8 * k, a)))
        }),
{
    let (s, k) = (prepared.s(i), prepared.k(i));
    let a = prepared.public_key_tables[i].point();
    let rb = r_bytes[i]@;
    laws::scalars::lemma_digits(prepared.s_digits@[i]@);
    laws::scalars::lemma_digits(prepared.k_digits@[i]@);
    assert(prepared.public_key_tables[i].valid());
    assert(out[i] == (valid[i] && signature::zip215_equation(
        rb,
        wide::recovered(prepared, curve::basepoint(), i),
    )));
    assert forall|r: Point| #[trigger] encoding::decodes_to(rb, r) implies encoding::decoded(rb) == r
        && signature::small_order(curve::diff(signature::recovered(s, k, a), r)) == (curve::smul(
        8 * s,
        curve::basepoint(),
    ) == curve::sum(curve::smul(8, r), curve::smul(8 * k, a))) by {
        encoding::lemma_decoding_unique(rb, r);
        signature::lemma_cofactored(s, k, a, r);
    }
    if encoding::decodable(rb) {
        assert(encoding::decodes_to(rb, encoding::decoded(rb)));
    }
}

/// The lanes of a chunk under the strict policy, with points `R` that were decompressed before or
/// not: a lane passes exactly if it is marked valid, its `R` is the reduced ordinate and the sign
/// of a point with `[s]B = R + [k]A` for the point `A` of its table and the values of its digits,
/// its key is not marked as one of small order, and `[8]R` is not the neutral element.
pub proof fn lemma_dalek_lanes<C: KeyCache>(
    v: Verifier<C>,
    prepared: PreparedBatch,
    decoded_r: Option<(&WideRPoints, &[bool; 8])>,
    r_bytes: [[u8; 32]; 8],
    key_small_order: [bool; 8],
    valid: [bool; 8],
    out: [bool; 8],
    i: int,
)
    requires
        0 <= i < 8,
        prepared.valid(),
        decoded_r matches Some(r) ==> batch_verifier::r_decoded(*r.0, *r.1, r_bytes),
        call_ensures(
            Verifier::<C>::verify_dalek_lanes,
            (&v, &prepared, decoded_r, &r_bytes, &key_small_order, &valid),
            out,
        ),
    ensures
        ({
            let s = prepared.s_digits@[i]@.fold_right(|digit: i8, above: int| digit + 16 * above, 0int);
            let k = prepared.k_digits@[i]@.fold_right(|digit: i8, above: int| digit + 16 * above, 0int);
            let a = prepared.public_key_tables@[i].point();
            out@[i] == (valid@[i] && !key_small_order@[i] && exists|r: Point|
                #[trigger] curve::on_curve(r) && bytes::le_value(r_bytes@[i]@) == r.y
                    + 0x8000000000000000000000000000000000000000000000000000000000000000int * (r.x % 2)
                    && curve::smul(s, curve::basepoint()) == curve::sum(r, curve::smul(k, a)) && curve::smul(
                    8,
                    r,
                ) != (Point { x: 0, y: 1 }))
        }),
{
    let (s, k) = (prepared.s(i), prepared.k(i));
    let a = prepared.public_key_tables[i].point();
    let rb = r_bytes[i]@;
    let q = signature::recovered(s, k, a);
    laws::scalars::lemma_digits(prepared.s_digits@[i]@);
    laws::scalars::lemma_digits(prepared.k_digits@[i]@);
    assert(prepared.public_key_tables[i].valid());
    assert(out[i] == (valid[i] && batch_verifier::strict_lane(prepared, i, rb, key_small_order[i])));
    assert forall|r: Point| #[trigger] curve::on_curve(r) implies (q == r) == (curve::smul(s, curve::basepoint())
        == curve::sum(r, curve::smul(k, a))) && (encoding::encode(r) == rb) == (bytes::le_value(rb) == r.y
        + 0x8000000000000000000000000000000000000000000000000000000000000000int * (r.x % 2)) by {
        signature::lemma_recovered_is(s, k, a, r);
        signature::lemma_is_encoding(r, rb);
    }
    signature::lemma_recovered_is(s, k, a, a);
    assert(curve::on_curve(q));
}

/// The parts of eight requests, lane by lane: the halves of the signature, the key and the
/// message as they are; a lane is valid exactly if its `S` is below the group order, and its digits
/// are those of `S` then, and zero otherwise.
pub proof fn lemma_parts<'a>(inputs: [VerifyInput<'a>; 8], parts: ChunkParts<'a>, i: int)
    requires
        0 <= i < 8,
        call_ensures(parse_chunk_inputs, (&inputs,), parts),
    ensures
        ({
            let s = bytes::le_value(inputs@[i].signature@.subrange(32, 64));
            &&& parts.r_bytes@[i]@ == inputs@[i].signature@.subrange(0, 32)
            &&& parts.public_keys@[i]@ == inputs@[i].public_key@
            &&& parts.messages@[i]@ == inputs@[i].message@
            &&& parts.valid@[i] == (s < 0x1000000000000000000000000000000014def9dea2f79cd65812631a5cf5d3edint)
            &&& forall|j: int| 0 <= j < 64 ==> -8 <= #[trigger] parts.s_digits@[i]@[j] <= 8
            &&& parts.valid@[i] ==> parts.s_digits@[i]@.fold_right(
                |digit: i8, above: int| digit + 16 * above,
                0int,
            ) == s
            &&& !parts.valid@[i] ==> forall|j: int| 0 <= j < 64 ==> #[trigger] parts.s_digits@[i]@[j] == 0
        }),
{
    let args = (&inputs,);
    assert(args.0 == inputs);
    assert(parts.lane(i, inputs[i]));
    laws::scalars::lemma_digits(parts.s_digits@[i]@);
}

/// A verifier is made exactly where all four features are there; else the error says whether
/// instructions or the saved registers are missing. It has the policy and the cache that it was
/// made with.
pub proof fn lemma_construction<C: KeyCache>(
    cpu: CpuFeatures,
    policy: VerifyPolicy,
    cache: C,
    r: Result<Verifier<C>, UnsupportedError>,
)
    requires
        call_ensures(Verifier::<C>::try_with_cache, (&cpu, policy, cache), r),
    ensures
        ({
            let instructions = cpu.avx512f && cpu.avx512dq && cpu.avx512ifma;
            match r {
                Ok(v) => instructions && cpu.os_avx512_state && (forall|q: VerifyPolicy| #[trigger]
                    call_ensures(Verifier::<C>::policy, (&v,), q) ==> q == policy) && (forall|c: &C| #[trigger]
                    call_ensures(Verifier::<C>::cache, (&v,), c) ==> *c == cache),
                Err(UnsupportedError::MissingInstructions) => !instructions,
                Err(UnsupportedError::MissingOsSupport) => instructions && !cpu.os_avx512_state,
            }
        }),
{
}

/// The other constructors give the same verifier: with the policy that was asked for, or the
/// cofactored one where none was, and under the same condition.
pub proof fn lemma_other_constructors<C: KeyCache>(cpu: CpuFeatures, policy: VerifyPolicy, cache: C)
    ensures
        forall|v: Verifier<C>, q: VerifyPolicy, c: &C|
            #[trigger] call_ensures(Verifier::<C>::with_cache, (&cpu, policy, cache), v) && #[trigger] call_ensures(
                Verifier::<C>::policy,
                (&v,),
                q,
            ) && #[trigger] call_ensures(Verifier::<C>::cache, (&v,), c) ==> q == policy && *c == cache,
        forall|v: Verifier<NullKeyCache>, q: VerifyPolicy|
            #[trigger] call_ensures(Verifier::<NullKeyCache>::with_policy, (&cpu, policy), v) && #[trigger]
            call_ensures(Verifier::<NullKeyCache>::policy, (&v,), q) ==> q == policy,
        forall|v: Verifier<NullKeyCache>, q: VerifyPolicy|
            #[trigger] call_ensures(Verifier::<NullKeyCache>::new, (&cpu,), v) && #[trigger] call_ensures(
                Verifier::<NullKeyCache>::policy,
                (&v,),
                q,
            ) ==> q == VerifyPolicy::Zip215,
        forall|r: Result<Verifier<NullKeyCache>, UnsupportedError>| #[trigger]
            call_ensures(Verifier::<NullKeyCache>::try_with_policy, (&cpu, policy), r) ==> (r is Ok == (
            cpu.avx512f && cpu.avx512dq && cpu.avx512ifma && cpu.os_avx512_state)) && (r matches Ok(v) ==> (forall|
                q: VerifyPolicy,
            | #[trigger] call_ensures(Verifier::<NullKeyCache>::policy, (&v,), q) ==> q == policy)),
        forall|r: Result<Verifier<NullKeyCache>, UnsupportedError>| #[trigger]
            call_ensures(Verifier::<NullKeyCache>::try_new, (&cpu,), r) ==> (r is Ok == (cpu.avx512f
                && cpu.avx512dq && cpu.avx512ifma && cpu.os_avx512_state)) && (r matches Ok(v) ==> (forall|
                q: VerifyPolicy,
            | #[trigger]
                call_ensures(Verifier::<NullKeyCache>::policy, (&v,), q) ==> q == VerifyPolicy::Zip215)),
{
}

/// A signature as a signer with the secret scalar `a` and the nonce `r` makes it for the message
/// `signed`, held against a message: single verification accepts it, by the cofactored policy,
/// exactly if `[8 (k - j)]A` is the neutral element for the digests `k` and `j` of the two
/// messages, and by the strict policy exactly if `[k - j]A` is and neither `[8]A` nor `[8]R`. So it
/// is accepted for the message that was signed.
pub proof fn lemma_signed(
    a: int,
    r: int,
    signed: Seq<u8>,
    encoded: [u8; 32],
    key: VerificationKey,
    signature: [u8; 64],
    message: &[u8],
    zebra: Result<(), Error>,
    dalek: Result<(), Error>,
)
    requires
        encoded@ == encoding::encode(curve::smul(a, curve::basepoint())),
        signature@.subrange(0, 32) == encoding::encode(curve::smul(r, curve::basepoint())),
        bytes::le_value(signature@.subrange(32, 64)) == (r + bytes::le_value(
            sha512::sha512_digest(signature@.subrange(0, 32) + encoded@ + signed),
        ) * a) % 0x1000000000000000000000000000000014def9dea2f79cd65812631a5cf5d3edint,
        call_ensures(VerificationKey::try_from, (encoded,), Ok(key)),
        call_ensures(VerificationKey::verify_zebra, (&key, &signature, message), zebra),
        call_ensures(VerificationKey::verify_dalek, (&key, &signature, message), dalek),
    ensures
        ({
            let order = 0x1000000000000000000000000000000014def9dea2f79cd65812631a5cf5d3edint;
            let point = curve::smul(a, curve::basepoint());
            let nonce = curve::smul(r, curve::basepoint());
            let k = bytes::le_value(sha512::sha512_digest(signature@.subrange(0, 32) + encoded@ + signed)) % order;
            let j = bytes::le_value(sha512::sha512_digest(signature@.subrange(0, 32) + encoded@ + message@)) % order;
            &&& zebra is Ok == (curve::smul(8 * (k - j), point) == (Point { x: 0, y: 1 }))
            &&& dalek is Ok == (curve::smul(k - j, point) == (Point { x: 0, y: 1 }) && curve::smul(8, point)
                != (Point { x: 0, y: 1 }) && curve::smul(8, nonce) != (Point { x: 0, y: 1 }))
            &&& message@ == signed ==> zebra is Ok
        }),
{
    lemma_signed_verdicts(a, r, signed, encoded@, signature@, message@);
}

proof fn lemma_signed_verdicts(a: int, r: int, signed: Seq<u8>, key: Seq<u8>, signature: Seq<u8>, message: Seq<u8>)
    requires
        signature.len() == 64,
        key == encoding::encode(curve::smul(a, curve::basepoint())),
        signature.subrange(0, 32) == encoding::encode(curve::smul(r, curve::basepoint())),
        bytes::le_value(signature.subrange(32, 64)) == (r + bytes::le_value(
            sha512::sha512_digest(signature.subrange(0, 32) + key + signed),
        ) * a) % 0x1000000000000000000000000000000014def9dea2f79cd65812631a5cf5d3edint,
    ensures
        ({
            let order = 0x1000000000000000000000000000000014def9dea2f79cd65812631a5cf5d3edint;
            let point = curve::smul(a, curve::basepoint());
            let nonce = curve::smul(r, curve::basepoint());
            let k = bytes::le_value(sha512::sha512_digest(signature.subrange(0, 32) + key + signed)) % order;
            let j = bytes::le_value(sha512::sha512_digest(signature.subrange(0, 32) + key + message)) % order;
            &&& signature::verifies(VerifyPolicy::Zip215, key, signature, message) == (curve::smul(8 * (k - j), point)
                == (Point { x: 0, y: 1 }))
            &&& signature::verifies(VerifyPolicy::Dalek, key, signature, message) == (curve::smul(k - j, point) == (
            Point { x: 0, y: 1 }) && curve::smul(8, point) != (Point { x: 0, y: 1 }) && curve::smul(8, nonce) != (
            Point { x: 0, y: 1 }))
            &&& message == signed ==> curve::smul(8 * (k - j), point) == (Point { x: 0, y: 1 })
        }),
{
    let order = 0x1000000000000000000000000000000014def9dea2f79cd65812631a5cf5d3edint;
    let digest = bytes::le_value(sha512::sha512_digest(signature.subrange(0, 32) + key + signed));
    let k = digest % order;
    let j = bytes::le_value(sha512::sha512_digest(signature.subrange(0, 32) + key + message)) % order;
    let point = curve::smul(a, curve::basepoint());
    lemma_mul_mod_noop_left(digest, a, order);
    lemma_add_mod_noop(r, digest * a, order);
    lemma_add_mod_noop(r, k * a, order);
    signature::lemma_signed_another_message(a, r, key, signature, signed, message);
    curve::lemma_basepoint_on_curve();
    curve::lemma_smul_on_curve(a, curve::basepoint());
    curve::lemma_smul_smul(8, k - j, point);
    curve::lemma_smul_base(point);
}

/// The same in a batch of any size, whatever the other requests are.
pub proof fn lemma_batch_signed<C: KeyCache>(a: int, r: int, signed: Seq<u8>, inputs: &[VerifyInput], i: int)
    requires
        0 <= i < inputs@.len(),
        inputs@[i].public_key@ == encoding::encode(curve::smul(a, curve::basepoint())),
        inputs@[i].signature@.subrange(0, 32) == encoding::encode(curve::smul(r, curve::basepoint())),
        bytes::le_value(inputs@[i].signature@.subrange(32, 64)) == (r + bytes::le_value(
            sha512::sha512_digest(inputs@[i].signature@.subrange(0, 32) + inputs@[i].public_key@ + signed),
        ) * a) % 0x1000000000000000000000000000000014def9dea2f79cd65812631a5cf5d3edint,
    ensures
        ({
            let order = 0x1000000000000000000000000000000014def9dea2f79cd65812631a5cf5d3edint;
            let point = curve::smul(a, curve::basepoint());
            let nonce = curve::smul(r, curve::basepoint());
            let k = bytes::le_value(sha512::sha512_digest(inputs@[i].signature@.subrange(0, 32) + inputs@[i].public_key@ + signed)) % order;
            let j = bytes::le_value(sha512::sha512_digest(inputs@[i].signature@.subrange(0, 32) + inputs@[i].public_key@ + inputs@[i].message@)) % order;
            &&& forall|v: &mut Verifier<C>, out: &mut [bool]|
                #[trigger] call_ensures(Verifier::<C>::verify_batch, (v, inputs, out), ()) && call_ensures(
                    Verifier::<C>::policy,
                    (&*v,),
                    VerifyPolicy::Zip215,
                ) ==> final(out)@[i] == (curve::smul(8 * (k - j), point) == (Point { x: 0, y: 1 }))
            &&& forall|v: &mut Verifier<C>, out: &mut [bool]|
                #[trigger] call_ensures(Verifier::<C>::verify_batch, (v, inputs, out), ()) && call_ensures(
                    Verifier::<C>::policy,
                    (&*v,),
                    VerifyPolicy::Dalek,
                ) ==> final(out)@[i] == (curve::smul(k - j, point) == (Point { x: 0, y: 1 }) && curve::smul(
                    8,
                    point,
                ) != (Point { x: 0, y: 1 }) && curve::smul(8, nonce) != (Point { x: 0, y: 1 }))
        }),
{
    lemma_signed_verdicts(
        a,
        r,
        signed,
        inputs@[i].public_key@,
        inputs@[i].signature@,
        inputs@[i].message@,
    );
    assert forall|v: &mut Verifier<C>, out: &mut [bool], policy: VerifyPolicy|
        #[trigger] call_ensures(Verifier::<C>::verify_batch, (v, inputs, out), ()) && #[trigger] call_ensures(
            Verifier::<C>::policy,
            (&*v,),
            policy,
        ) implies final(out)@[i] == inputs@[i].valid(policy) by {
    }
}

/// Points `R` from decompression, with the bits of its mask as flags, are what lane verification
/// takes.
pub proof fn lemma_decoded_r(r_bytes: [[u8; 32]; 8], points: WideRPoints, mask: u8, flags: [bool; 8])
    requires
        call_ensures(wide::decompress_r_points, (&r_bytes,), (points, mask)),
        forall|i: int| 0 <= i < 8 ==> #[trigger] flags@[i] == ((mask as int / pow2(i as nat) as int) % 2 == 1),
    ensures
        batch_verifier::r_decoded(points, flags, r_bytes),
{
    let args = (&r_bytes,);
    let result = (points, mask);
    assert(args.0 == r_bytes && result.0 == points && result.1 == mask);
    lemma2_to64();
    assert forall|i: int| 0 <= i < 8 implies #[trigger] flags[i] == encoding::decodable(r_bytes[i]@) by {
        assert(wide::decompressed_lane(points.point, mask, i, r_bytes[i]@));
        assert(pow2(i as nat) == lanes::pow2_of(i));
        assert(flags@[i] == lanes::mask_bit(mask, i));
    }
    assert forall|i: int| 0 <= i < 8 && flags[i] implies #[trigger] wide::holds_affine(
        points.point,
        i,
        encoding::decoded(r_bytes[i]@),
    ) by {
        assert(wide::decompressed_lane(points.point, mask, i, r_bytes[i]@));
    }
}

/// The check of the processor features, alone.
pub proof fn lemma_features(cpu: CpuFeatures, r: Result<(), UnsupportedError>)
    requires
        call_ensures(check_required_avx512_runtime_support, (&cpu,), r),
    ensures
        r is Ok == (cpu.avx512f && cpu.avx512dq && cpu.avx512ifma && cpu.os_avx512_state),
        (r == Err::<(), UnsupportedError>(UnsupportedError::MissingInstructions)) == !(cpu.avx512f && cpu.avx512dq
            && cpu.avx512ifma),
{
}

} // verus!
