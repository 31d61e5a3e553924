//! Verification of batches of signatures.
use crate::batch::PreparedBatch;
use crate::bytes;
use crate::cache;
use crate::cache::{CachedPublicKey, KeyCache, NullKeyCache};
use crate::cpuid;
use crate::cpuid::CpuFeatures;
use crate::curve;
use crate::edwards::{BasepointTable4096, EdwardsPoint, PointTable};
use crate::encoding;
use crate::error::UnsupportedError;
use crate::lanes;
use crate::policy;
use crate::policy::VerifyPolicy;
use crate::scalar;
use crate::scalar::{Radix16, Scalar};
use crate::sha512;
use crate::signature;
use crate::verification_key::VerificationKey;
use crate::wide;
use crate::wide::WideRPoints;
use crate::wide_field;
use vstd::prelude::*;

verus! {

/// One verification request: a public key, a signature and the signed message.
#[derive(Clone, Copy, Debug)]
pub struct VerifyInput<'a> {
    /// Encoded public key.
    pub public_key: [u8; 32],
    /// Encoded signature `R || S`.
    pub signature: [u8; 64],
    /// The signed message.
    pub message: &'a [u8],
}

impl<'a> VerifyInput<'a> {
    /// The policy accepts the signature of the message under the key.
    pub open spec fn valid(&self, policy: VerifyPolicy) -> bool {
        signature::verifies(policy, self.public_key@, self.signature@, self.message@)
    }

    /// The key decodes, and `S` is below the group order.
    pub open spec fn well_encoded(&self) -> bool {
        signature::well_encoded(self.public_key@, signature::s_part(self.signature@))
    }

    /// The challenge of the signature.
    pub open spec fn challenge(&self) -> int {
        sha512::challenge(signature::r_part(self.signature@), self.public_key@, self.message@)
    }
}

/// Smallest batch that is verified in lanes. A chunk costs the same however many of its lanes
/// are used, so for fewer signatures one verification each is cheaper.
const SIMD_MIN_BATCH: usize = 3;

/// The parts of eight requests.
pub struct ChunkParts<'a> {
    /// Which lanes have a canonical `S`.
    pub valid: [bool; 8],
    /// Encodings of the points `R`.
    pub r_bytes: [[u8; 32]; 8],
    /// Encoded public keys.
    pub public_keys: [[u8; 32]; 8],
    /// Digits of `S`, zero in the lanes that are not valid.
    pub s_digits: [Radix16; 8],
    /// The signed messages.
    pub messages: [&'a [u8]; 8],
}

impl<'a> ChunkParts<'a> {
    /// Lane `i` holds the parts of `input`.
    pub open spec fn lane(&self, i: int, input: VerifyInput) -> bool {
        let s = signature::s_part(input.signature@);
        &&& self.r_bytes[i]@ == signature::r_part(input.signature@)
        &&& self.public_keys[i]@ == input.public_key@
        &&& self.messages[i]@ == input.message@
        &&& self.valid[i] == (bytes::le_value(s) < scalar::group_order())
        &&& scalar::digits_bounded(self.s_digits[i]@)
        &&& self.valid[i] ==> scalar::digits_value(self.s_digits[i]@) == bytes::le_value(s)
        &&& !self.valid[i] ==> is_zero(self.s_digits[i]@)
    }
}

/// All digits are zero.
pub open spec fn is_zero(d: Seq<i8>) -> bool {
    forall|j: int| 0 <= j < 64 ==> #[trigger] d[j] == 0
}

/// The digits of the scalar zero.
fn zero_digits() -> (r: Radix16)
    ensures
        is_zero(r@),
        scalar::digits_bounded(r@),
{
    [0i8; 64]
}

/// A half of a signature: 32 bytes that begin at `at`.
fn signature_half(signature: &[u8; 64], at: usize) -> (r: [u8; 32])
    requires
        at <= 32,
    ensures
        r@ == signature@.subrange(at as int, at + 32),
{
    let mut r = [0u8; 32];
    let mut i: usize = 0;
    while i < 32
        invariant
            i <= 32,
            at <= 32,
            forall|j: int| 0 <= j < i ==> #[trigger] r[j] == signature[at + j],
        decreases 32 - i,
    {
        r[i] = signature[at + i];
        i += 1;
    }
    assert(r@ =~= signature@.subrange(at as int, at + 32));
    r
}

/// Splits eight requests into their parts. A lane with a non-canonical `S` is not valid, and its
/// digits are zero.
pub fn parse_chunk_inputs<'a>(inputs: &[VerifyInput<'a>; 8]) -> (parts: ChunkParts<'a>)
    ensures
        forall|i: int| 0 <= i < 8 ==> #[trigger] parts.lane(i, inputs[i]),
{
    let mut valid = [true; 8];
    let mut r_bytes = [[0u8; 32]; 8];
    let mut public_keys = [[0u8; 32]; 8];
    let mut s_digits = [zero_digits(); 8];
    let mut messages = [inputs[0].message; 8];
    let mut i: usize = 0;
    while i < 8
        invariant
            i <= 8,
            forall|j: int|
                0 <= j < i ==> #[trigger] (ChunkParts { valid, r_bytes, public_keys, s_digits, messages }).lane(
                    j,
                    inputs[j],
                ),
            forall|j: int| i <= j < 8 ==> #[trigger] valid[j],
            forall|j: int|
                i <= j < 8 ==> scalar::digits_bounded((#[trigger] s_digits[j])@) && is_zero(s_digits[j]@),
        decreases 8 - i,
    {
        let input = &inputs[i];
        let ghost before = ChunkParts { valid, r_bytes, public_keys, s_digits, messages };
        r_bytes[i] = signature_half(&input.signature, 0);
        let s_bytes = signature_half(&input.signature, 32);
        if scalar::is_canonical(&s_bytes) {
            s_digits[i] = Scalar::from_canonical_bytes(s_bytes).to_radix16();
        } else {
            valid[i] = false;
        }
        public_keys[i] = input.public_key;
        messages[i] = input.message;
        proof {
            let after = ChunkParts { valid, r_bytes, public_keys, s_digits, messages };
            assert(scalar::digits_bounded(s_digits[i as int]@));
            assert(!valid[i as int] ==> is_zero(s_digits[i as int]@));
            assert forall|j: int| 0 <= j <= i implies #[trigger] after.lane(j, inputs[j]) by {
                if j < i {
                    assert(before.lane(j, inputs[j]));
                }
            }
        }
        i += 1;
    }
    ChunkParts { valid, r_bytes, public_keys, s_digits, messages }
}

/// The digits of eight challenges.
fn challenge_digits(
    r_bytes: &[[u8; 32]; 8],
    public_keys: &[[u8; 32]; 8],
    messages: &[&[u8]; 8],
) -> (r: [Radix16; 8])
    ensures
        forall|i: int|
            0 <= i < 8 ==> scalar::digits_bounded((#[trigger] r[i])@) && scalar::digits_value(r[i]@)
                == sha512::challenge(r_bytes[i]@, public_keys[i]@, messages[i]@),
{
    let d = sha512::hash_ed25519_challenge_words(r_bytes, public_keys, messages);
    [
        Scalar::from_wide_words(d[0]).to_radix16(),
        Scalar::from_wide_words(d[1]).to_radix16(),
        Scalar::from_wide_words(d[2]).to_radix16(),
        Scalar::from_wide_words(d[3]).to_radix16(),
        Scalar::from_wide_words(d[4]).to_radix16(),
        Scalar::from_wide_words(d[5]).to_radix16(),
        Scalar::from_wide_words(d[6]).to_radix16(),
        Scalar::from_wide_words(d[7]).to_radix16(),
    ]
}

/// One flag per bit of a mask.
fn lane_flags_from_mask(mask: u8) -> (r: [bool; 8])
    ensures
        forall|i: int| 0 <= i < 8 ==> #[trigger] r[i] == lanes::mask_bit(mask, i),
{
    lanes::mask_to_lanes(mask)
}

/// Whether any flag is set.
fn any_lane(flags: &[bool; 8]) -> (r: bool)
    ensures
        r == exists|i: int| 0 <= i < 8 && #[trigger] flags[i],
{
    let mut i: usize = 0;
    while i < 8
        invariant
            i <= 8,
            forall|j: int| 0 <= j < i ==> !#[trigger] flags[j],
        decreases 8 - i,
    {
        if flags[i] {
            return true;
        }
        i += 1;
    }
    false
}

/// Tables that every chunk uses.
#[derive(Debug)]
struct Tables {
    base: BasepointTable4096,
    /// Stands in for the key of a lane that has none. The lane's result is masked out, but the
    /// ladder runs over all lanes.
    identity: PointTable,
}

impl Tables {
    #[verifier::type_invariant]
    spec fn right(&self) -> bool {
        &&& self.base.valid()
        &&& self.base.point() == curve::basepoint()
        &&& self.identity.valid()
    }

    /// The table of the base point and that of the neutral element.
    fn new() -> (r: Self)
        ensures
            r.base.valid(),
            r.base.point() == curve::basepoint(),
            r.identity.is_table_of(curve::identity()),
    {
        let base = BasepointTable4096::from_point(&EdwardsPoint::basepoint());
        let identity = PointTable::new(&EdwardsPoint::identity());
        proof {
            curve::lemma_identity_on_curve();
            identity.lemma_is_table_of(curve::identity());
        }
        Tables { base, identity }
    }
}

/// Points `R` with flags for the lanes that decode.
pub open spec fn r_decoded(points: WideRPoints, flags: [bool; 8], r_bytes: [[u8; 32]; 8]) -> bool {
    &&& points.point.strict()
    &&& forall|i: int| 0 <= i < 8 ==> #[trigger] flags[i] == encoding::decodable(r_bytes[i]@)
    &&& forall|i: int|
        0 <= i < 8 && flags[i] ==> #[trigger] wide::holds_affine(
            points.point,
            i,
            encoding::decoded(r_bytes[i]@),
        )
}

/// Decompresses eight points `R`.
fn decompress_r(r_bytes: &[[u8; 32]; 8]) -> (r: (WideRPoints, [bool; 8]))
    ensures
        r_decoded(r.0, r.1, *r_bytes),
{
    let (points, mask) = wide::decompress_r_points(r_bytes);
    let flags = lane_flags_from_mask(mask);
    proof {
        assert forall|i: int| 0 <= i < 8 implies #[trigger] flags[i] == encoding::decodable(r_bytes[i]@) by {
            assert(wide::decompressed_lane(points.point, mask, i, r_bytes[i]@));
        }
        assert forall|i: int| 0 <= i < 8 && flags[i] implies #[trigger] wide::holds_affine(
            points.point,
            i,
            encoding::decoded(r_bytes[i]@),
        ) by {
            assert(wide::decompressed_lane(points.point, mask, i, r_bytes[i]@));
        }
    }
    (points, flags)
}

/// Decoded keys and points `R` of a chunk.
struct DecodedChunk {
    tables: [PointTable; 8],
    key_valid: [bool; 8],
    key_small_order: [bool; 8],
    r_points: WideRPoints,
    r_valid: [bool; 8],
}

impl DecodedChunk {
    /// Lane `i` holds the decoded key `b`.
    spec fn lane(&self, i: int, b: Seq<u8>) -> bool {
        &&& self.key_valid[i] == encoding::decodable(b)
        &&& self.key_valid[i] ==> self.tables[i].is_table_of(encoding::decoded(b))
        &&& self.key_valid[i] ==> self.key_small_order[i] == signature::small_order(
            encoding::decoded(b),
        )
    }

    /// Every lane holds its decoded key and point `R`.
    spec fn decodes(&self, keys: [[u8; 32]; 8], r_bytes: [[u8; 32]; 8]) -> bool {
        &&& forall|i: int| 0 <= i < 8 ==> #[trigger] self.lane(i, keys[i]@)
        &&& r_decoded(self.r_points, self.r_valid, r_bytes)
    }

    fn new(keys: &[[u8; 32]; 8], r_bytes: &[[u8; 32]; 8]) -> (r: Self)
        ensures
            r.decodes(*keys, *r_bytes),
    {
        let (tables, key_mask, key_small_order, r_points, r_mask) =
            wide::decode_keys_and_decompress_r(keys, r_bytes);
        let key_valid = lane_flags_from_mask(key_mask);
        let r_valid = lane_flags_from_mask(r_mask);
        let r = DecodedChunk { tables, key_valid, key_small_order, r_points, r_valid };
        proof {
            assert forall|i: int| 0 <= i < 8 implies #[trigger] r.lane(i, keys[i]@) by {
                assert(key_valid[i] == lanes::mask_bit(key_mask, i));
                if key_valid[i] {
                    assert(tables[i].is_table_of(encoding::decoded(keys[i]@)));
                    assert(key_small_order[i] == signature::small_order(encoding::decoded(keys[i]@)));
                }
            }
            assert forall|i: int| 0 <= i < 8 implies #[trigger] r_valid[i] == encoding::decodable(r_bytes[i]@) by {
                assert(wide::decompressed_lane(r_points.point, r_mask, i, r_bytes[i]@));
            }
            assert forall|i: int| 0 <= i < 8 && r_valid[i] implies #[trigger] wide::holds_affine(
                r_points.point,
                i,
                encoding::decoded(r_bytes[i]@),
            ) by {
                assert(wide::decompressed_lane(r_points.point, r_mask, i, r_bytes[i]@));
            }
        }
        r
    }
}

impl Tables {
    /// Cofactored verification of the valid lanes, with decompressed points `R`.
    fn zip215_lanes(
        &self,
        prepared: &PreparedBatch,
        r_points: &WideRPoints,
        r_valid: &[bool; 8],
        r_bytes: &[[u8; 32]; 8],
        valid: &[bool; 8],
    ) -> (out: [bool; 8])
        requires
            prepared.valid(),
            r_decoded(*r_points, *r_valid, *r_bytes),
        ensures
            forall|i: int|
                0 <= i < 8 ==> #[trigger] out[i] == (valid[i] && signature::zip215_equation(
                    r_bytes[i]@,
                    wide::recovered(*prepared, curve::basepoint(), i),
                )),
    {
        broadcast use {wide_field::WideFe::lemma_operand, wide_field::WideFe::lemma_loose};

        proof {
            use_type_invariant(self);
        }
        let simd = wide::verify_prepared_zip215(prepared, r_points, &self.base);
        let out = lanes::and_lanes(&lanes::and_lanes(&simd, valid), r_valid);
        proof {
            assert forall|i: int| 0 <= i < 8 implies #[trigger] out[i] == (valid[i]
                && signature::zip215_equation(
                r_bytes[i]@,
                wide::recovered(*prepared, curve::basepoint(), i),
            )) by {
                if r_valid[i] {
                    assert(wide::holds_affine(r_points.point, i, encoding::decoded(r_bytes[i]@)));
                    assert(r_points.holds(i, encoding::decoded(r_bytes[i]@)));
                }
            }
        }
        out
    }
}

/// Which lanes have a canonical encoding of `R`. Decompression accepts ordinates that are not
/// reduced and both signs of a zero abscissa.
fn canonical_lanes(r_points: &WideRPoints, r_valid: &[bool; 8], r_bytes: &[[u8; 32]; 8]) -> (out: [bool; 8])
    requires
        r_decoded(*r_points, *r_valid, *r_bytes),
    ensures
        forall|i: int| 0 <= i < 8 && r_valid[i] ==> #[trigger] out[i] == signature::canonical(r_bytes[i]@),
{
    proof {
        r_points.point.x.lemma_bounds();
    }
    let x_zero = r_points.x_zero_lanes();
    let mut out = [false; 8];
    let mut i: usize = 0;
    while i < 8
        invariant
            i <= 8,
            r_decoded(*r_points, *r_valid, *r_bytes),
            forall|j: int, a: curve::Point|
                0 <= j < 8 && #[trigger] r_points.holds(j, a) ==> x_zero[j] == (a.x == 0),
            forall|j: int| 0 <= j < i && r_valid[j] ==> #[trigger] out[j] == signature::canonical(r_bytes[j]@),
        decreases 8 - i,
    {
        let signed_zero = x_zero[i] && r_bytes[i][31] >= 0x80;
        out[i] = policy::r_encoding_has_canonical_y(&r_bytes[i]) && !signed_zero;
        proof {
            encoding::lemma_sign_bit(r_bytes[i as int]@);
            if r_valid[i as int] {
                assert(wide::holds_affine(r_points.point, i as int, encoding::decoded(r_bytes[i as int]@)));
                assert(r_points.holds(i as int, encoding::decoded(r_bytes[i as int]@)));
            }
        }
        i += 1;
    }
    out
}

/// The strict equation, given which keys have small order.
pub open spec fn strict_lane(prepared: PreparedBatch, i: int, r: Seq<u8>, key_small_order: bool) -> bool {
    let q = wide::recovered(prepared, curve::basepoint(), i);
    encoding::encode(q) == r && !key_small_order && !signature::small_order(q)
}

proof fn lemma_recovered_on_curve(prepared: PreparedBatch, i: int)
    requires
        prepared.valid(),
        0 <= i < 8,
    ensures
        curve::on_curve(wide::recovered(prepared, curve::basepoint(), i)),
{
    let a = prepared.public_key_tables[i].point();
    let b = curve::basepoint();
    assert(prepared.public_key_tables[i].valid());
    curve::lemma_basepoint_on_curve();
    curve::lemma_smul_on_curve(prepared.s(i), b);
    curve::lemma_smul_on_curve(prepared.k(i), a);
    curve::lemma_neg_on_curve(curve::smul(prepared.k(i), a));
    curve::lemma_closed(curve::smul(prepared.s(i), b), curve::neg(curve::smul(prepared.k(i), a)));
}

impl Tables {
    /// Strict verification of the valid lanes by comparing points.
    fn dalek_lanes_projective(
        &self,
        prepared: &PreparedBatch,
        r_points: &WideRPoints,
        r_valid: &[bool; 8],
        r_bytes: &[[u8; 32]; 8],
        key_small_order: &[bool; 8],
        valid: &[bool; 8],
    ) -> (out: [bool; 8])
        requires
            prepared.valid(),
            r_decoded(*r_points, *r_valid, *r_bytes),
        ensures
            forall|i: int|
                0 <= i < 8 ==> #[trigger] out[i] == (valid[i] && strict_lane(
                    *prepared,
                    i,
                    r_bytes[i]@,
                    key_small_order[i],
                )),
    {
        broadcast use {wide_field::WideFe::lemma_operand, wide_field::WideFe::lemma_loose};

        proof {
            use_type_invariant(self);
        }
        let simd = wide::verify_prepared_dalek_projective(prepared, r_points, &self.base);
        let canonical = canonical_lanes(r_points, r_valid, r_bytes);
        let r_small_order = r_points.small_order_lanes();
        let found = lanes::and_lanes(&lanes::and_lanes(&simd, valid), &lanes::and_lanes(r_valid, &canonical));
        let out = lanes::and_not_lanes(&lanes::and_not_lanes(&found, key_small_order), &r_small_order);
        proof {
            assert forall|i: int| 0 <= i < 8 implies #[trigger] out[i] == (valid[i] && strict_lane(
                *prepared,
                i,
                r_bytes[i]@,
                key_small_order[i],
            )) by {
                let q = wide::recovered(*prepared, curve::basepoint(), i);
                lemma_recovered_on_curve(*prepared, i);
                signature::lemma_encoding_equals(q, r_bytes[i]@);
                if r_valid[i] {
                    let a = encoding::decoded(r_bytes[i]@);
                    assert(wide::holds_affine(r_points.point, i, a));
                    assert(r_points.holds(i, a));
                    assert(canonical[i] == signature::canonical(r_bytes[i]@));
                }
            }
        }
        out
    }
}

/// Batch verifier for a fixed policy and key cache. Reuse one across batches.
#[derive(Debug)]
pub struct Verifier<C: KeyCache = NullKeyCache> {
    policy: VerifyPolicy,
    tables: Tables,
    cache: C,
}

/// The encodings of the first `n` keys that decode and are flagged as missing.
pub open spec fn missing_keys(missing: Seq<bool>, keys: Seq<Seq<u8>>, n: nat) -> Seq<Seq<u8>>
    decreases n,
{
    if n == 0 {
        Seq::empty()
    } else {
        let key = keys[n - 1];
        let rest = missing_keys(missing, keys, (n - 1) as nat);
        if missing[n - 1] && encoding::decodable(key) {
            rest.push(key)
        } else {
            rest
        }
    }
}

/// The encodings of cache entries.
pub open spec fn encodings(entries: Seq<CachedPublicKey>) -> Seq<Seq<u8>> {
    Seq::new(entries.len(), |i: int| entries[i].key())
}

/// Entries for the given keys, in order.
pub open spec fn entries_for(entries: Seq<CachedPublicKey>, keys: Seq<Seq<u8>>) -> bool {
    &&& encodings(entries) == keys
    &&& forall|j: int| 0 <= j < entries.len() ==> (#[trigger] entries[j]).sound()
}

/// The encoded keys of requests.
pub open spec fn public_keys(inputs: Seq<VerifyInput>) -> Seq<Seq<u8>> {
    Seq::new(inputs.len(), |i: int| inputs[i].public_key@)
}

/// The flag says whether a lookup of the key in the cache gave nothing.
pub open spec fn is_missing<C: KeyCache>(cache: C, key: Seq<u8>, flag: bool) -> bool {
    exists|r: Option<&CachedPublicKey>| #[trigger]
        cache::looked_up(cache, key, r) && flag == (r is None)
}

/// What the verification of a chunk does to the cache: the keys that a lookup missed and that
/// decode are inserted, if any lane gets as far as the verification equation.
pub open spec fn cache_after_chunk<C: KeyCache>(before: C, inputs: Seq<VerifyInput>, after: C) -> bool {
    if exists|i: int| 0 <= i < 8 && #[trigger] inputs[i].well_encoded() {
        exists|missing: Seq<bool>, entries: Seq<CachedPublicKey>|
            {
                &&& missing.len() == 8
                &&& forall|i: int|
                    0 <= i < 8 ==> is_missing(before, inputs[i].public_key@, #[trigger] missing[i])
                &&& #[trigger] entries_for(entries, missing_keys(missing, public_keys(inputs), 8))
                &&& cache::insertions(before, entries, after)
            }
    } else {
        after == before
    }
}

/// The key `b` of lane `i` comes from a cache entry or has been decoded.
spec fn key_source(cached: Option<&CachedPublicKey>, decoded: Option<DecodedChunk>, i: int, b: Seq<u8>) -> bool {
    &&& cached matches Some(e) ==> e.key() == b
    &&& cached is None ==> decoded is Some
    &&& decoded matches Some(d) ==> d.lane(i, b)
}

/// The table of a lane's key, whether the lane has a key, and whether that has small order.
fn lane_key<'a>(
    cached: Option<&'a CachedPublicKey>,
    decoded: &'a Option<DecodedChunk>,
    lane: usize,
    identity: &'a PointTable,
    Ghost(key): Ghost<Seq<u8>>,
) -> (r: (&'a PointTable, bool, bool))
    requires
        lane < 8,
        identity.valid(),
        key_source(cached, *decoded, lane as int, key),
    ensures
        r.0.valid(),
        r.1 == encoding::decodable(key),
        r.1 ==> r.0.point() == encoding::decoded(key),
        r.1 ==> r.2 == signature::small_order(encoding::decoded(key)),
{
    if let Some(e) = cached {
        let table = e.table();
        proof {
            table.lemma_is_table_of(encoding::decoded(key));
        }
        return (table, true, e.small_order());
    }
    match decoded {
        Some(d) => {
            if d.key_valid[lane] {
                proof {
                    d.tables[lane as int].lemma_is_table_of(encoding::decoded(key));
                }
                (&d.tables[lane], true, d.key_small_order[lane])
            } else {
                (identity, false, d.key_small_order[lane])
            }
        },
        None => (identity, false, false),
    }
}

/// The cache entries for the decoded keys of the missing lanes, in the order of the lanes.
fn new_entries(
    mut decoded: DecodedChunk,
    missing: &[bool; 8],
    keys: &[[u8; 32]; 8],
) -> (r: Vec<CachedPublicKey>)
    requires
        forall|i: int| 0 <= i < 8 ==> #[trigger] decoded.lane(i, keys[i]@),
    ensures
        entries_for(r@, missing_keys(missing@, Seq::new(8, |i: int| keys[i]@), 8)),
{
    let ghost views = Seq::new(8, |i: int| keys[i]@);
    let mut r: Vec<CachedPublicKey> = Vec::new();
    let mut i: usize = 0;
    assert(encodings(r@) =~= Seq::<Seq<u8>>::empty());
    while i < 8
        invariant
            i <= 8,
            forall|j: int| i <= j < 8 ==> #[trigger] decoded.lane(j, keys[j]@),
            views == Seq::new(8, |j: int| keys[j]@),
            entries_for(r@, missing_keys(missing@, views, i as nat)),
        decreases 8 - i,
    {
        assert(decoded.lane(i as int, keys[i as int]@));
        if missing[i] && decoded.key_valid[i] {
            let ghost all = decoded;
            let ghost entries = r@;
            let mut table = PointTable { entries: Vec::new() };
            std::mem::swap(&mut decoded.tables[i], &mut table);
            r.push(CachedPublicKey::new(keys[i], table, decoded.key_small_order[i]));
            proof {
                assert(encodings(r@) =~= encodings(entries).push(keys[i as int]@));
                assert forall|j: int| i < j < 8 implies #[trigger] decoded.lane(j, keys[j]@) by {
                    assert(all.lane(j, keys[j]@));
                }
            }
        }
        i += 1;
    }
    r
}

/// Offers entries to the cache, in order.
fn insert_entries<C: KeyCache>(cache: &mut C, entries: Vec<CachedPublicKey>)
    ensures
        cache::insertions(*old(cache), entries@, *final(cache)),
{
    let ghost before = *cache;
    let ghost mut done = Seq::<CachedPublicKey>::empty();
    let mut rest = entries;
    while rest.len() > 0
        invariant
            cache::insertions(before, done, *cache),
            entries@ == done + rest@,
        decreases rest.len(),
    {
        let ghost middle = *cache;
        let ghost left = rest@;
        let entry = rest.remove(0);
        cache.insert(entry);
        proof {
            cache::lemma_insertions_push(before, done, middle, entry, *cache);
            assert(done + left =~= done.push(entry) + rest@);
            done = done.push(entry);
        }
    }
    assert(done =~= entries@);
}

/// What a cache returned for a key, unless it is an entry under another key.
fn entry_for<'a>(entry: Option<&'a CachedPublicKey>, key: &[u8; 32]) -> (r: Option<&'a CachedPublicKey>)
    ensures
        r == cache::usable(entry, key@),
{
    match entry {
        Some(e) => if wide::bytes_equal(e.encoded(), key) {
            Some(e)
        } else {
            None
        },
        None => None,
    }
}

/// Per lane the table of the key, whether there is a key, and whether it has small order.
struct LaneKeys<'a> {
    tables: [&'a PointTable; 8],
    valid: [bool; 8],
    small_order: [bool; 8],
}

impl<'a> LaneKeys<'a> {
    /// Lane `i` belongs to the encoded key `b`.
    spec fn lane(&self, i: int, b: Seq<u8>) -> bool {
        &&& self.tables[i].valid()
        &&& self.valid[i] == encoding::decodable(b)
        &&& self.valid[i] ==> self.tables[i].point() == encoding::decoded(b)
        &&& self.valid[i] ==> self.small_order[i] == signature::small_order(encoding::decoded(b))
    }
}

/// The keys of all lanes, from cache entries where there are some, else as decoded.
fn lane_keys<'a>(
    cached: &[Option<&'a CachedPublicKey>; 8],
    decoded: &'a Option<DecodedChunk>,
    identity: &'a PointTable,
    keys: &[[u8; 32]; 8],
) -> (r: LaneKeys<'a>)
    requires
        identity.valid(),
        forall|i: int| 0 <= i < 8 ==> #[trigger] key_source(cached[i], *decoded, i, keys[i]@),
    ensures
        forall|i: int| 0 <= i < 8 ==> #[trigger] r.lane(i, keys[i]@),
{
    let mut tables = [identity; 8];
    let mut valid = [false; 8];
    let mut small_order = [false; 8];
    let mut i: usize = 0;
    while i < 8
        invariant
            i <= 8,
            identity.valid(),
            forall|j: int| 0 <= j < 8 ==> #[trigger] key_source(cached[j], *decoded, j, keys[j]@),
            forall|j: int|
                0 <= j < i ==> #[trigger] (LaneKeys { tables, valid, small_order }).lane(j, keys[j]@),
        decreases 8 - i,
    {
        let ghost before = LaneKeys { tables, valid, small_order };
        assert(key_source(cached[i as int], *decoded, i as int, keys[i as int]@));
        let (table, key_valid, key_small_order) = lane_key(
            cached[i],
            decoded,
            i,
            identity,
            Ghost(keys[i as int]@),
        );
        tables[i] = table;
        valid[i] = key_valid;
        small_order[i] = key_small_order;
        proof {
            let after = LaneKeys { tables, valid, small_order };
            assert forall|j: int| 0 <= j <= i implies #[trigger] after.lane(j, keys[j]@) by {
                if j < i {
                    assert(before.lane(j, keys[j]@));
                }
            }
        }
        i += 1;
    }
    LaneKeys { tables, valid, small_order }
}

/// Which lanes have no cache entry.
fn missing_lanes(cached: &[Option<&CachedPublicKey>; 8]) -> (r: [bool; 8])
    ensures
        forall|i: int| 0 <= i < 8 ==> #[trigger] r[i] == (cached[i] is None),
{
    let mut r = [false; 8];
    let mut i: usize = 0;
    while i < 8
        invariant
            i <= 8,
            forall|j: int| 0 <= j < i ==> #[trigger] r[j] == (cached[j] is None),
        decreases 8 - i,
    {
        r[i] = cached[i].is_none();
        i += 1;
    }
    r
}

proof fn lemma_nothing_missing(missing: Seq<bool>, keys: Seq<Seq<u8>>, n: nat)
    requires
        forall|i: int| 0 <= i < n ==> !#[trigger] missing[i],
    ensures
        missing_keys(missing, keys, n) == Seq::<Seq<u8>>::empty(),
    decreases n,
{
    if n > 0 {
        lemma_nothing_missing(missing, keys, (n - 1) as nat);
    }
}

/// The verdict of the policy on a prepared lane.
spec fn verdict(
    policy: VerifyPolicy,
    prepared: PreparedBatch,
    i: int,
    r: Seq<u8>,
    key_small_order: bool,
) -> bool {
    match policy {
        VerifyPolicy::Zip215 => signature::zip215_equation(
            r,
            wide::recovered(prepared, curve::basepoint(), i),
        ),
        VerifyPolicy::Dalek => strict_lane(prepared, i, r, key_small_order),
    }
}

/// A lane's result is the verdict of the policy on its request.
proof fn lemma_lane(
    policy: VerifyPolicy,
    input: VerifyInput,
    prepared: PreparedBatch,
    i: int,
    r: Seq<u8>,
    key_small_order: bool,
)
    requires
        0 <= i < 8,
        input.well_encoded(),
        r == signature::r_part(input.signature@),
        prepared.public_key_tables[i].point() == encoding::decoded(input.public_key@),
        prepared.s(i) == bytes::le_value(signature::s_part(input.signature@)),
        prepared.k(i) == input.challenge(),
        key_small_order == signature::small_order(encoding::decoded(input.public_key@)),
    ensures
        input.valid(policy) == verdict(policy, prepared, i, r, key_small_order),
{
}

impl<C: KeyCache> Verifier<C> {
    /// The policy.
    pub closed spec fn spec_policy(&self) -> VerifyPolicy {
        self.policy
    }

    /// The cache.
    pub closed spec fn spec_cache(&self) -> C {
        self.cache
    }

    /// Cofactored verification of the valid lanes.
    pub fn verify_zip215_lanes(
        &self,
        prepared: &PreparedBatch,
        decoded_r: Option<(&WideRPoints, &[bool; 8])>,
        r_bytes: &[[u8; 32]; 8],
        valid: &[bool; 8],
    ) -> (out: [bool; 8])
        requires
            prepared.valid(),
            decoded_r matches Some(r) ==> r_decoded(*r.0, *r.1, *r_bytes),
        ensures
            forall|i: int|
                0 <= i < 8 ==> #[trigger] out[i] == (valid[i] && signature::zip215_equation(
                    r_bytes[i]@,
                    wide::recovered(*prepared, curve::basepoint(), i),
                )),
    {
        match decoded_r {
            Some((r_points, r_valid)) => self.tables.zip215_lanes(prepared, r_points, r_valid, r_bytes, valid),
            None => {
                let (r_points, r_valid) = decompress_r(r_bytes);
                self.tables.zip215_lanes(prepared, &r_points, &r_valid, r_bytes, valid)
            },
        }
    }

    /// Strict verification of the valid lanes. With decompressed points `R` at hand the points
    /// are compared, else the encodings.
    pub fn verify_dalek_lanes(
        &self,
        prepared: &PreparedBatch,
        decoded_r: Option<(&WideRPoints, &[bool; 8])>,
        r_bytes: &[[u8; 32]; 8],
        key_small_order: &[bool; 8],
        valid: &[bool; 8],
    ) -> (out: [bool; 8])
        requires
            prepared.valid(),
            decoded_r matches Some(r) ==> r_decoded(*r.0, *r.1, *r_bytes),
        ensures
            forall|i: int|
                0 <= i < 8 ==> #[trigger] out[i] == (valid[i] && strict_lane(
                    *prepared,
                    i,
                    r_bytes[i]@,
                    key_small_order[i],
                )),
    {
        match decoded_r {
            Some((r_points, r_valid)) => self.tables.dalek_lanes_projective(
                prepared,
                r_points,
                r_valid,
                r_bytes,
                key_small_order,
                valid,
            ),
            None => {
                proof {
                    use_type_invariant(&self.tables);
                }
                let (simd, r_small_order) = wide::verify_prepared_dalek(prepared, r_bytes, &self.tables.base);
                let found = lanes::and_lanes(&simd, valid);
                lanes::and_not_lanes(&lanes::and_not_lanes(&found, key_small_order), &r_small_order)
            },
        }
    }

    /// Verifies the valid lanes by the policy.
    fn verify_lanes(
        &self,
        prepared: &PreparedBatch,
        decoded_r: Option<(&WideRPoints, &[bool; 8])>,
        r_bytes: &[[u8; 32]; 8],
        key_small_order: &[bool; 8],
        valid: &[bool; 8],
    ) -> (out: [bool; 8])
        requires
            prepared.valid(),
            decoded_r matches Some(r) ==> r_decoded(*r.0, *r.1, *r_bytes),
        ensures
            forall|i: int|
                0 <= i < 8 ==> #[trigger] out[i] == (valid[i] && verdict(
                    self.policy,
                    *prepared,
                    i,
                    r_bytes[i]@,
                    key_small_order[i],
                )),
    {
        match self.policy {
            VerifyPolicy::Zip215 => self.verify_zip215_lanes(prepared, decoded_r, r_bytes, valid),
            VerifyPolicy::Dalek => self.verify_dalek_lanes(
                prepared,
                decoded_r,
                r_bytes,
                key_small_order,
                valid,
            ),
        }
    }

    /// Prepares the valid lanes and verifies them by the policy.
    fn verify_parts(
        &self,
        parts: &ChunkParts,
        keys: &LaneKeys,
        decoded: &Option<DecodedChunk>,
        valid: &[bool; 8],
        Ghost(inputs): Ghost<Seq<VerifyInput>>,
    ) -> (out: [bool; 8])
        requires
            inputs.len() == 8,
            forall|i: int| 0 <= i < 8 ==> #[trigger] parts.lane(i, inputs[i]),
            forall|i: int| 0 <= i < 8 ==> #[trigger] keys.lane(i, parts.public_keys[i]@),
            forall|i: int| 0 <= i < 8 ==> #[trigger] valid[i] == inputs[i].well_encoded(),
            decoded matches Some(d) ==> r_decoded(d.r_points, d.r_valid, parts.r_bytes),
        ensures
            forall|i: int| 0 <= i < 8 ==> #[trigger] out[i] == inputs[i].valid(self.policy),
    {
        let k_digits = challenge_digits(&parts.r_bytes, &parts.public_keys, &parts.messages);
        let prepared = PreparedBatch {
            public_key_tables: keys.tables,
            s_digits: &parts.s_digits,
            k_digits: &k_digits,
        };
        proof {
            assert forall|i: int| 0 <= i < 8 implies (#[trigger] prepared.public_key_tables[i]).valid() by {
                assert(keys.lane(i, parts.public_keys[i]@));
            }
            assert forall|i: int| 0 <= i < 8 implies scalar::digits_bounded((#[trigger] prepared.s_digits[i])@) by {
                assert(parts.lane(i, inputs[i]));
            }
        }
        let decoded_r = match decoded {
            Some(d) => Some((&d.r_points, &d.r_valid)),
            None => None,
        };
        let out = self.verify_lanes(
            &prepared,
            decoded_r,
            &parts.r_bytes,
            &keys.small_order,
            valid,
        );
        proof {
            assert forall|i: int| 0 <= i < 8 implies #[trigger] out[i] == inputs[i].valid(self.policy) by {
                assert(parts.lane(i, inputs[i]));
                assert(keys.lane(i, parts.public_keys[i]@));
                if valid[i] {
                    lemma_lane(
                        self.policy,
                        inputs[i],
                        prepared,
                        i,
                        parts.r_bytes[i]@,
                        keys.small_order[i],
                    );
                }
            }
        }
        out
    }

    /// The cache's entry for a key.
    fn cached(&self, key: &[u8; 32]) -> (r: Option<&CachedPublicKey>)
        ensures
            cache::looked_up(self.cache, key@, r),
    {
        entry_for(self.cache.get(key), key)
    }

    /// The cache's entries for eight keys.
    fn cached_lanes(&self, keys: &[[u8; 32]; 8]) -> (r: [Option<&CachedPublicKey>; 8])
        ensures
            forall|i: int| 0 <= i < 8 ==> cache::looked_up(self.cache, keys[i]@, #[trigger] r[i]),
    {
        [
            self.cached(&keys[0]),
            self.cached(&keys[1]),
            self.cached(&keys[2]),
            self.cached(&keys[3]),
            self.cached(&keys[4]),
            self.cached(&keys[5]),
            self.cached(&keys[6]),
            self.cached(&keys[7]),
        ]
    }

    /// Verifies eight requests. If no request has a key that decodes and a canonical `S`, the
    /// results and the cache stay as they are.
    pub fn try_verify_chunk(&mut self, inputs: &[VerifyInput; 8], out: &mut [bool; 8])
        ensures
            chunk_verdicts(old(self).spec_policy(), inputs@, old(out)@, final(out)@),
            final(self).spec_policy() == old(self).spec_policy(),
            cache_after_chunk(old(self).spec_cache(), inputs@, final(self).spec_cache()),
    {
        let ghost before = self.cache;
        let parts = parse_chunk_inputs(inputs);
        if !any_lane(&parts.valid) {
            proof {
                assert forall|i: int| 0 <= i < 8 implies !inputs[i].well_encoded() by {
                    assert(parts.lane(i, inputs[i]));
                    assert(!parts.valid[i]);
                }
            }
            return;
        }
        let cached = self.cached_lanes(&parts.public_keys);
        let missing = missing_lanes(&cached);
        let decoded = if any_lane(&missing) {
            Some(DecodedChunk::new(&parts.public_keys, &parts.r_bytes))
        } else {
            None
        };
        proof {
            assert forall|i: int| 0 <= i < 8 implies #[trigger] key_source(
                cached[i],
                decoded,
                i,
                parts.public_keys[i]@,
            ) by {
                assert(missing[i] == (cached[i] is None));
            }
            use_type_invariant(&self.tables);
        }
        let keys = lane_keys(&cached, &decoded, &self.tables.identity, &parts.public_keys);
        let valid = lanes::and_lanes(&parts.valid, &keys.valid);
        proof {
            assert forall|i: int| 0 <= i < 8 implies #[trigger] valid[i] == inputs[i].well_encoded() by {
                assert(parts.lane(i, inputs[i]));
                assert(keys.lane(i, parts.public_keys[i]@));
            }
        }
        if !any_lane(&valid) {
            proof {
                assert forall|i: int| 0 <= i < 8 implies !inputs[i].well_encoded() by {
                    assert(!valid[i]);
                }
            }
            return;
        }
        *out = self.verify_parts(&parts, &keys, &decoded, &valid, Ghost(inputs@));
        proof {
            let views = Seq::new(8, |i: int| parts.public_keys[i]@);
            assert(views =~= public_keys(inputs@)) by {
                assert forall|i: int| 0 <= i < 8 implies #[trigger] views[i] == inputs[i].public_key@ by {
                    assert(parts.lane(i, inputs[i]));
                }
            }
            assert forall|i: int| 0 <= i < 8 implies is_missing(
                before,
                inputs[i].public_key@,
                #[trigger] missing@[i],
            ) by {
                assert(views[i] == public_keys(inputs@)[i]);
                assert(cache::looked_up(before, parts.public_keys[i]@, cached[i]));
            }
            assert(exists|i: int| 0 <= i < 8 && #[trigger] inputs[i].well_encoded()) by {
                let i = choose|i: int| 0 <= i < 8 && valid[i];
                assert(inputs[i].well_encoded());
            }
        }
        if let Some(d) = decoded {
            let entries = new_entries(d, &missing, &parts.public_keys);
            let ghost offered = entries@;
            insert_entries(&mut self.cache, entries);
            assert(entries_for(offered, missing_keys(missing@, public_keys(inputs@), 8)));
        } else {
            proof {
                let none = Seq::<CachedPublicKey>::empty();
                assert forall|i: int| 0 <= i < 8 implies !#[trigger] missing@[i] by {
                    assert(missing[i] == (cached[i] is None));
                }
                lemma_nothing_missing(missing@, public_keys(inputs@), 8);
                assert(encodings(none) =~= Seq::<Seq<u8>>::empty());
                assert(entries_for(none, missing_keys(missing@, public_keys(inputs@), 8)));
                assert(cache::insertions(before, none, self.cache));
            }
        }
    }
}

/// What the verification of a chunk does to the results: all of them become verdicts if any
/// request is well encoded, else none changes.
pub open spec fn chunk_verdicts(
    policy: VerifyPolicy,
    inputs: Seq<VerifyInput>,
    before: Seq<bool>,
    after: Seq<bool>,
) -> bool {
    &&& after.len() == before.len()
    &&& forall|i: int|
        0 <= i < 8 ==> #[trigger] after[i] == (if exists|j: int|
            0 <= j < 8 && #[trigger] inputs[j].well_encoded() {
            inputs[i].valid(policy)
        } else {
            before[i]
        })
}

/// The request for lane `lane` of the chunk that begins at `start`. Lanes beyond the end of the
/// batch repeat the first request of the chunk.
fn chunk_lane<'a>(inputs: &[VerifyInput<'a>], start: usize, lane: usize) -> (r: VerifyInput<'a>)
    requires
        start < inputs.len(),
        lane < 8,
    ensures
        start + lane < inputs.len() ==> r == inputs[start + lane],
        start + lane >= inputs.len() ==> r == inputs[start as int],
{
    if lane < inputs.len() - start {
        inputs[start + lane]
    } else {
        inputs[start]
    }
}

/// The chunk that begins at `start`.
fn chunk_at<'a>(inputs: &[VerifyInput<'a>], start: usize) -> (r: [VerifyInput<'a>; 8])
    requires
        start < inputs.len(),
    ensures
        forall|i: int| 0 <= i < 8 && start + i < inputs.len() ==> #[trigger] r[i] == inputs[start + i],
        forall|i: int| 0 <= i < 8 && start + i >= inputs.len() ==> #[trigger] r[i] == inputs[start as int],
{
    [
        chunk_lane(inputs, start, 0),
        chunk_lane(inputs, start, 1),
        chunk_lane(inputs, start, 2),
        chunk_lane(inputs, start, 3),
        chunk_lane(inputs, start, 4),
        chunk_lane(inputs, start, 5),
        chunk_lane(inputs, start, 6),
        chunk_lane(inputs, start, 7),
    ]
}

/// Every entry is one for a key of the requests.
pub open spec fn entries_of(entries: Seq<CachedPublicKey>, inputs: Seq<VerifyInput>) -> bool {
    forall|j: int|
        0 <= j < entries.len() ==> (#[trigger] entries[j]).sound() && encoding::decodable(entries[j].key())
            && public_keys(inputs).contains(entries[j].key())
}

/// Entries for keys of the batch have been inserted into the cache, and nothing else has happened
/// to it.
pub open spec fn cache_after_batch<C: KeyCache>(before: C, inputs: Seq<VerifyInput>, after: C) -> bool {
    exists|entries: Seq<CachedPublicKey>| #[trigger]
        cache::insertions(before, entries, after) && entries_of(entries, inputs)
}

/// Chunk `n` of a batch. Lanes beyond the end repeat the first request of the chunk.
pub open spec fn chunk_of<'a>(inputs: Seq<VerifyInput<'a>>, n: nat) -> Seq<VerifyInput<'a>> {
    Seq::new(
        8,
        |i: int|
            if 8 * n + i < inputs.len() {
                inputs[8 * n + i]
            } else {
                inputs[8 * n as int]
            },
    )
}

/// What the verification of the first `n` chunks of a batch, one after the other, does to the
/// cache.
pub open spec fn cache_after_chunks<C: KeyCache>(before: C, inputs: Seq<VerifyInput>, n: nat, after: C) -> bool
    decreases n,
{
    if n == 0 {
        after == before
    } else {
        exists|middle: C|
            cache_after_chunks(before, inputs, (n - 1) as nat, middle) && #[trigger] cache_after_chunk(
                middle,
                chunk_of(inputs, (n - 1) as nat),
                after,
            )
    }
}

proof fn lemma_cache_unchanged<C: KeyCache>(cache: C, inputs: Seq<VerifyInput>)
    ensures
        cache_after_batch(cache, inputs, cache),
{
    let none = Seq::<CachedPublicKey>::empty();
    assert(cache::insertions(cache, none, cache));
    assert(entries_of(none, inputs));
}

/// Missing keys decode and are among the keys.
proof fn lemma_missing_keys(missing: Seq<bool>, keys: Seq<Seq<u8>>, n: nat)
    requires
        n <= keys.len(),
    ensures
        forall|j: int|
            0 <= j < missing_keys(missing, keys, n).len() ==> encoding::decodable(
                #[trigger] missing_keys(missing, keys, n)[j],
            ) && keys.contains(missing_keys(missing, keys, n)[j]),
    decreases n,
{
    if n > 0 {
        let rest = missing_keys(missing, keys, (n - 1) as nat);
        let all = missing_keys(missing, keys, n);
        lemma_missing_keys(missing, keys, (n - 1) as nat);
        assert(keys.contains(keys[n - 1]));
        assert forall|j: int| 0 <= j < all.len() implies encoding::decodable(#[trigger] all[j])
            && keys.contains(all[j]) by {
            if j < rest.len() {
                assert(all[j] == rest[j]);
            }
        }
    }
}

/// A chunk of the batch inserts entries for keys of the batch.
proof fn lemma_cache_chunk<C: KeyCache>(
    before: C,
    middle: C,
    chunk: Seq<VerifyInput>,
    after: C,
    inputs: Seq<VerifyInput>,
)
    requires
        chunk.len() == 8,
        cache_after_batch(before, inputs, middle),
        cache_after_chunk(middle, chunk, after),
        forall|i: int| 0 <= i < 8 ==> public_keys(inputs).contains((#[trigger] chunk[i]).public_key@),
    ensures
        cache_after_batch(before, inputs, after),
{
    if exists|i: int| 0 <= i < 8 && #[trigger] chunk[i].well_encoded() {
        let keys = public_keys(chunk);
        let first = choose|entries: Seq<CachedPublicKey>| #[trigger]
            cache::insertions(before, entries, middle) && entries_of(entries, inputs);
        let (missing, second) = choose|missing: Seq<bool>, entries: Seq<CachedPublicKey>|
            {
                &&& missing.len() == 8
                &&& forall|i: int|
                    0 <= i < 8 ==> is_missing(middle, chunk[i].public_key@, #[trigger] missing[i])
                &&& #[trigger] entries_for(entries, missing_keys(missing, keys, 8))
                &&& cache::insertions(middle, entries, after)
            };
        cache::lemma_insertions_concat(before, first, middle, second, after);
        lemma_missing_keys(missing, keys, 8);
        let all = first + second;
        assert forall|j: int| 0 <= j < all.len() implies (#[trigger] all[j]).sound()
            && encoding::decodable(all[j].key()) && public_keys(inputs).contains(all[j].key()) by {
            if j < first.len() {
                assert(all[j] == first[j]);
            } else {
                let k = j - first.len();
                assert(all[j] == second[k]);
                assert(encodings(second)[k] == missing_keys(missing, keys, 8)[k]);
                let i = choose|i: int| 0 <= i < keys.len() && keys[i] == second[k].key();
                assert(chunk[i].public_key@ == second[k].key());
            }
        }
        assert(entries_of(all, inputs));
    }
}

/// Whatever is inserted into the cache is an entry for a key of the batch.
pub proof fn lemma_cache_after_chunks<C: KeyCache>(before: C, inputs: Seq<VerifyInput>, n: nat, after: C)
    requires
        8 * n < inputs.len() + 8,
        cache_after_chunks(before, inputs, n, after),
    ensures
        cache_after_batch(before, inputs, after),
    decreases n,
{
    if n == 0 {
        lemma_cache_unchanged(before, inputs);
    } else {
        let m = (n - 1) as nat;
        let chunk = chunk_of(inputs, m);
        let middle = choose|middle: C|
            cache_after_chunks(before, inputs, m, middle) && #[trigger] cache_after_chunk(
                middle,
                chunk,
                after,
            );
        lemma_cache_after_chunks(before, inputs, m, middle);
        assert forall|i: int| 0 <= i < 8 implies public_keys(inputs).contains(
            (#[trigger] chunk[i]).public_key@,
        ) by {
            let k = if 8 * m + i < inputs.len() {
                8 * m + i
            } else {
                8 * m as int
            };
            assert(public_keys(inputs)[k] == chunk[i].public_key@);
        }
        lemma_cache_chunk(before, middle, chunk, after, inputs);
    }
}

impl Verifier<NullKeyCache> {
    /// A verifier with the default policy and no key cache.
    pub fn new(cpu: &CpuFeatures) -> (r: Self)
        requires
            cpu.supported(),
        ensures
            r.spec_policy() == VerifyPolicy::Zip215,
    {
        Self::with_policy(cpu, VerifyPolicy::default())
    }

    /// A verifier with the default policy and no key cache, if the processor supports it.
    pub fn try_new(cpu: &CpuFeatures) -> (r: Result<Self, UnsupportedError>)
        ensures
            r is Ok == cpu.supported(),
            r matches Ok(v) ==> v.spec_policy() == VerifyPolicy::Zip215,
            r matches Err(e) ==> e == cpu.lacking(),
    {
        Self::try_with_policy(cpu, VerifyPolicy::default())
    }

    /// A verifier with no key cache.
    pub fn with_policy(cpu: &CpuFeatures, policy: VerifyPolicy) -> (r: Self)
        requires
            cpu.supported(),
        ensures
            r.spec_policy() == policy,
    {
        Self::with_cache(cpu, policy, NullKeyCache::new())
    }

    /// A verifier with no key cache, if the processor supports it.
    pub fn try_with_policy(cpu: &CpuFeatures, policy: VerifyPolicy) -> (r: Result<Self, UnsupportedError>)
        ensures
            r is Ok == cpu.supported(),
            r matches Ok(v) ==> v.spec_policy() == policy,
            r matches Err(e) ==> e == cpu.lacking(),
    {
        Self::try_with_cache(cpu, policy, NullKeyCache::new())
    }
}

impl<C: KeyCache> Verifier<C> {
    /// A verifier with a key cache.
    pub fn with_cache(cpu: &CpuFeatures, policy: VerifyPolicy, cache: C) -> (r: Self)
        requires
            cpu.supported(),
        ensures
            r.spec_policy() == policy,
            r.spec_cache() == cache,
    {
        Verifier { policy, tables: Tables::new(), cache }
    }

    /// A verifier with a key cache, if the processor supports it.
    pub fn try_with_cache(cpu: &CpuFeatures, policy: VerifyPolicy, cache: C) -> (r: Result<
        Self,
        UnsupportedError,
    >)
        ensures
            r is Ok == cpu.supported(),
            r matches Ok(v) ==> v.spec_policy() == policy && v.spec_cache() == cache,
            r matches Err(e) ==> e == cpu.lacking(),
    {
        match cpuid::check_required_avx512_runtime_support(cpu) {
            Ok(_) => Ok(Self::with_cache(cpu, policy, cache)),
            Err(e) => Err(e),
        }
    }

    /// The key cache.
    pub fn cache(&self) -> (r: &C)
        ensures
            *r == self.spec_cache(),
    {
        &self.cache
    }

    /// The key cache, to be changed.
    pub fn cache_mut(&mut self) -> (r: &mut C)
        ensures
            *r == old(self).spec_cache(),
            final(self).spec_cache() == *final(r),
            final(self).spec_policy() == old(self).spec_policy(),
    {
        &mut self.cache
    }

    /// The policy.
    pub fn policy(&self) -> (r: VerifyPolicy)
        ensures
            r == self.spec_policy(),
    {
        self.policy
    }

    /// Verifies one request without lanes.
    pub fn verify_single_scalar(&self, input: &VerifyInput) -> (r: bool)
        ensures
            r == input.valid(self.spec_policy()),
    {
        match VerificationKey::try_from(input.public_key) {
            Ok(key) => match self.policy {
                VerifyPolicy::Zip215 => key.verify_zebra(&input.signature, input.message).is_ok(),
                VerifyPolicy::Dalek => key.verify_dalek(&input.signature, input.message).is_ok(),
            },
            Err(_) => false,
        }
    }

    /// Verifies a batch: `out[i]` becomes whether the policy accepts `inputs[i]`, whatever else
    /// is in the batch.
    pub fn verify_batch(&mut self, inputs: &[VerifyInput], out: &mut [bool])
        requires
            inputs.len() == old(out).len(),
        ensures
            batch_verdicts(old(self).spec_policy(), inputs@, final(out)@),
            final(self).spec_policy() == old(self).spec_policy(),
            inputs.len() >= 3 ==> cache_after_chunks(
                old(self).spec_cache(),
                inputs@,
                ((inputs.len() + 7) / 8) as nat,
                final(self).spec_cache(),
            ),
            inputs.len() < 3 ==> final(self).spec_cache() == old(self).spec_cache(),
    {
        let ghost this = *self;
        let n = inputs.len();
        if n < SIMD_MIN_BATCH {
            let mut i: usize = 0;
            while i < n
                invariant
                    i <= n,
                    n == inputs.len(),
                    n == out.len(),
                    *self == this,
                    forall|j: int| 0 <= j < i ==> #[trigger] out[j] == inputs[j].valid(this.policy),
                decreases n - i,
            {
                let verdict = self.verify_single_scalar(&inputs[i]);
                out[i] = verdict;
                i += 1;
            }
            return;
        }
        let mut start: usize = 0;
        let ghost mut chunks: nat = 0;
        while start < n
            invariant
                start == 8 * chunks || (start == n && n <= 8 * chunks < n + 8),
                start <= n,
                n == inputs.len(),
                n == out.len(),
                self.policy == this.policy,
                cache_after_chunks(this.cache, inputs@, chunks, self.cache),
                forall|j: int| 0 <= j < start ==> #[trigger] out[j] == inputs[j].valid(this.policy),
            decreases n - start,
        {
            let ghost middle = self.cache;
            let chunk = chunk_at(inputs, start);
            let mut verdicts = [false; 8];
            self.try_verify_chunk(&chunk, &mut verdicts);
            proof {
                assert(chunk@ =~= chunk_of(inputs@, chunks));
                let done = chunks;
                chunks = done + 1;
                assert((chunks - 1) as nat == done);
                assert(cache_after_chunks(this.cache, inputs@, done, middle));
                assert(cache_after_chunk(middle, chunk_of(inputs@, done), self.cache));
                assert(cache_after_chunks(this.cache, inputs@, chunks, self.cache));
                assert forall|j: int| 0 <= j < 8 implies #[trigger] verdicts[j] == chunk[j].valid(
                    this.policy,
                ) by {
                    if !chunk@[j].well_encoded() {
                        assert(!chunk@[j].valid(this.policy));
                    }
                    assert(verdicts@[j] == verdicts[j]);
                }
            }
            let lanes: usize = if n - start < 8 {
                n - start
            } else {
                8
            };
            let mut i: usize = 0;
            while i < lanes
                invariant
                    i <= lanes <= 8,
                    start + lanes <= n,
                    n == inputs.len(),
                    n == out.len(),
                    forall|j: int| 0 <= j < 8 && start + j < n ==> #[trigger] chunk[j] == inputs[start + j],
                    forall|j: int| 0 <= j < 8 ==> #[trigger] verdicts[j] == chunk[j].valid(this.policy),
                    forall|j: int| 0 <= j < start + i ==> #[trigger] out[j] == inputs[j].valid(this.policy),
                decreases lanes - i,
            {
                assert(chunk[i as int] == inputs[start + i]);
                out[start + i] = verdicts[i];
                i += 1;
            }
            start += lanes;
        }
    }
}

/// Verdicts are those of a batch: one for each request, by the policy.
pub open spec fn batch_verdicts(policy: VerifyPolicy, inputs: Seq<VerifyInput>, out: Seq<bool>) -> bool {
    &&& out.len() == inputs.len()
    &&& forall|i: int| 0 <= i < inputs.len() ==> #[trigger] out[i] == inputs[i].valid(policy)
}

/// The verdict on a request does not depend on the batch it is in: not on the size of the batch,
/// which decides whether lanes are used, nor on the other requests, nor on the position.
pub proof fn lemma_batch_independent(
    policy: VerifyPolicy,
    inputs: Seq<VerifyInput>,
    out: Seq<bool>,
    i: int,
    other_inputs: Seq<VerifyInput>,
    other_out: Seq<bool>,
    j: int,
)
    requires
        batch_verdicts(policy, inputs, out),
        batch_verdicts(policy, other_inputs, other_out),
        0 <= i < inputs.len(),
        0 <= j < other_inputs.len(),
        inputs[i].public_key@ == other_inputs[j].public_key@,
        inputs[i].signature@ == other_inputs[j].signature@,
        inputs[i].message@ == other_inputs[j].message@,
    ensures
        out[i] == other_out[j],
{
}

/// Whatever a batch with the strict policy accepts, one with the cofactored policy accepts.
pub proof fn lemma_strict_batch(inputs: Seq<VerifyInput>, strict: Seq<bool>, cofactored: Seq<bool>, i: int)
    requires
        batch_verdicts(VerifyPolicy::Dalek, inputs, strict),
        batch_verdicts(VerifyPolicy::Zip215, inputs, cofactored),
        0 <= i < inputs.len(),
        strict[i],
    ensures
        cofactored[i],
{
    let r = signature::r_part(inputs[i].signature@);
    let s = signature::s_part(inputs[i].signature@);
    signature::lemma_dalek_implies_zip215(inputs[i].public_key@, r, s, inputs[i].challenge());
}

/// Lanes accept exactly what one-by-one verification accepts, lane by lane and whatever the other
/// lanes hold: for results that are `false` before the chunk is verified.
pub proof fn lemma_chunk_matches_single<C: KeyCache>(
    verifier: Verifier<C>,
    inputs: [VerifyInput; 8],
    i: int,
    single: bool,
)
    requires
        0 <= i < 8,
        call_ensures(Verifier::<C>::verify_single_scalar, (&verifier, &inputs[i]), single),
    ensures
        forall|v: &mut Verifier<C>, out: &mut [bool; 8]|
            #[trigger] call_ensures(Verifier::<C>::try_verify_chunk, (v, &inputs, out), ())
                && v.spec_policy() == verifier.spec_policy() && !out@[i] ==> final(out)@[i] == single,
{
    assert forall|v: &mut Verifier<C>, out: &mut [bool; 8]|
        #[trigger] call_ensures(Verifier::<C>::try_verify_chunk, (v, &inputs, out), ())
            && v.spec_policy() == verifier.spec_policy() && !out@[i] implies final(out)@[i] == single by {
        assert(chunk_verdicts(v.spec_policy(), inputs@, out@, final(out)@));
        if !inputs@[i].well_encoded() {
            assert(!inputs@[i].valid(v.spec_policy()));
        }
    }
}

/// Strict verification gives the same results whether or not the points `R` have been decompressed
/// before: comparing points, as after a cache miss, accepts exactly what comparing encodings, as
/// after eight cache hits, accepts.
pub proof fn lemma_dalek_lanes_agree<C: KeyCache>(
    verifier: Verifier<C>,
    prepared: PreparedBatch,
    r_points: WideRPoints,
    r_valid: [bool; 8],
    r_bytes: [[u8; 32]; 8],
    key_small_order: [bool; 8],
    valid: [bool; 8],
    by_point: [bool; 8],
    by_encoding: [bool; 8],
)
    requires
        prepared.valid(),
        r_decoded(r_points, r_valid, r_bytes),
        call_ensures(
            Verifier::<C>::verify_dalek_lanes,
            (&verifier, &prepared, Some((&r_points, &r_valid)), &r_bytes, &key_small_order, &valid),
            by_point,
        ),
        call_ensures(
            Verifier::<C>::verify_dalek_lanes,
            (&verifier, &prepared, None, &r_bytes, &key_small_order, &valid),
            by_encoding,
        ),
    ensures
        by_point@ == by_encoding@,
{
    assert forall|i: int| 0 <= i < 8 implies by_point@[i] == by_encoding@[i] by {
        assert(by_point[i] == (valid[i] && strict_lane(prepared, i, r_bytes[i]@, key_small_order[i])));
        assert(by_encoding[i] == (valid[i] && strict_lane(prepared, i, r_bytes[i]@, key_small_order[i])));
    }
}

/// The two comparisons of strict verification agree. Comparing `[s]B - [k]A` with the decompressed `R`
/// accepts exactly what comparing encodings accepts, once `R` is known to decode and to be encoded
/// canonically; and for what they accept, both find the same points of small order.
pub proof fn lemma_dalek_comparisons_agree(
    prepared: PreparedBatch,
    base_table: BasepointTable4096,
    r_bytes: [[u8; 32]; 8],
    r_points: WideRPoints,
    r_mask: u8,
    by_encoding: ([bool; 8], [bool; 8]),
    by_point: [bool; 8],
    r_small_order: [bool; 8],
    i: int,
)
    requires
        prepared.valid(),
        base_table.valid(),
        base_table.point() == curve::basepoint(),
        call_ensures(wide::decompress_r_points, (&r_bytes,), (r_points, r_mask)),
        call_ensures(wide::verify_prepared_dalek, (&prepared, &r_bytes, &base_table), by_encoding),
        call_ensures(wide::verify_prepared_dalek_projective, (&prepared, &r_points, &base_table), by_point),
        call_ensures(WideRPoints::small_order_lanes, (&r_points,), r_small_order),
        0 <= i < 8,
    ensures
        by_encoding.0[i] == (lanes::mask_bit(r_mask, i) && signature::canonical(r_bytes[i]@) && by_point[i]),
        by_encoding.0[i] ==> by_encoding.1[i] == r_small_order[i],
{
    let q = wide::recovered(prepared, curve::basepoint(), i);
    lemma_recovered_on_curve(prepared, i);
    signature::lemma_encoding_equals(q, r_bytes[i]@);
    let decompress_args = (&r_bytes,);
    let decompressed = (r_points, r_mask);
    let encoding_args = (&prepared, &r_bytes, &base_table);
    let point_args = (&prepared, &r_points, &base_table);
    let small_order_args = (&r_points,);
    assert(decompress_args.0 == r_bytes && decompressed.0 == r_points && decompressed.1 == r_mask);
    assert(encoding_args.0 == prepared && encoding_args.1 == r_bytes && encoding_args.2 == base_table);
    assert(point_args.0 == prepared && point_args.1 == r_points && point_args.2 == base_table);
    assert(small_order_args.0 == r_points);
    assert(wide::decompressed_lane(r_points.point, r_mask, i, r_bytes[i]@));
    if encoding::decodable(r_bytes[i]@) {
        assert(r_points.holds(i, encoding::decoded(r_bytes[i]@)));
    }
    assert(by_encoding.0[i] == (encoding::encode(q) == r_bytes[i]@));
    assert(by_encoding.1[i] == signature::small_order(q));
}

} // verus!
