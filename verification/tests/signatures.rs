//! Single signatures and batches of them, made by a plain signer.
use solana_ed25519::batch::PreparedBatch;
use solana_ed25519::batch_verifier::{parse_chunk_inputs, Verifier, VerifyInput};
use solana_ed25519::cache::{CachedPublicKey, KeyCache, NullKeyCache};
use solana_ed25519::cpuid::{check_required_avx512_runtime_support, CpuFeatures};
use solana_ed25519::edwards::{EdwardsPoint, PointTable};
use solana_ed25519::error::{Error, UnsupportedError};
use solana_ed25519::policy::VerifyPolicy;
use solana_ed25519::scalar::Scalar;
use solana_ed25519::sha512::{challenge_scalar, hash_slices};
use solana_ed25519::verification_key::VerificationKey;
use solana_ed25519::wide::decompress_r_points;

fn scalar_bytes(k: &Scalar) -> [u8; 32] {
    let digits = k.to_radix16();
    let mut bytes = [0u8; 32];
    let mut carry = 0i32;
    for i in 0..32 {
        let v = digits[2 * i] as i32 + 16 * digits[2 * i + 1] as i32 + carry;
        bytes[i] = v.rem_euclid(256) as u8;
        carry = v.div_euclid(256);
    }
    bytes
}

fn words(bytes: &[u8; 32]) -> [u64; 4] {
    core::array::from_fn(|i| u64::from_le_bytes(bytes[8 * i..8 * i + 8].try_into().unwrap()))
}

/// `k a + r` modulo the group order.
fn multiply_add(k: &Scalar, a: &Scalar, r: &Scalar) -> Scalar {
    let k = words(&scalar_bytes(k));
    let a = words(&scalar_bytes(a));
    let r = words(&scalar_bytes(r));
    let mut out = [r[0], r[1], r[2], r[3], 0, 0, 0, 0];
    for i in 0..4 {
        let mut carry = 0u128;
        for j in 0..4 {
            let t = out[i + j] as u128 + k[i] as u128 * a[j] as u128 + carry;
            out[i + j] = t as u64;
            carry = t >> 64;
        }
        let mut j = i + 4;
        while carry != 0 {
            let t = out[j] as u128 + carry;
            out[j] = t as u64;
            carry = t >> 64;
            j += 1;
        }
    }
    Scalar::from_wide_words(out)
}

fn mul_base(k: &Scalar) -> EdwardsPoint {
    let bytes = scalar_bytes(k);
    let base = EdwardsPoint::basepoint();
    let mut acc = EdwardsPoint::identity();
    for i in (0..256).rev() {
        acc = acc.double();
        if bytes[i / 8] >> (i % 8) & 1 == 1 {
            acc = acc.add(&base);
        }
    }
    acc
}

struct SigningKey {
    a: Scalar,
    prefix: [u8; 32],
    public: [u8; 32],
}

impl From<[u8; 32]> for SigningKey {
    fn from(seed: [u8; 32]) -> Self {
        let h = hash_slices(&[&seed]);
        let mut wide = [0u8; 64];
        wide[..32].copy_from_slice(&h[..32]);
        wide[0] &= 248;
        wide[31] &= 127;
        wide[31] |= 64;
        let a = Scalar::from_wide_bytes(wide);
        let public = mul_base(&a).compress();
        let mut prefix = [0u8; 32];
        prefix.copy_from_slice(&h[32..]);
        SigningKey { a, prefix, public }
    }
}

impl SigningKey {
    fn sign(&self, message: &[u8]) -> [u8; 64] {
        let r = Scalar::from_wide_bytes(hash_slices(&[&self.prefix, message]));
        let r_bytes = mul_base(&r).compress();
        let k = Scalar::from_wide_bytes(hash_slices(&[&r_bytes, &self.public, message]));
        let s = scalar_bytes(&multiply_add(&k, &self.a, &r));
        let mut signature = [0u8; 64];
        signature[..32].copy_from_slice(&r_bytes);
        signature[32..].copy_from_slice(&s);
        signature
    }
}

impl From<&SigningKey> for VerificationKey {
    fn from(key: &SigningKey) -> Self {
        VerificationKey::try_from(key.public).unwrap()
    }
}

const CPU: CpuFeatures =
    CpuFeatures { avx512f: true, avx512dq: true, avx512ifma: true, os_avx512_state: true };

const ORD8: [u8; 32] = [
    0x26, 0xe8, 0x95, 0x8f, 0xc2, 0xb2, 0x27, 0xb0, 0x45, 0xc3, 0xf4, 0x89, 0xf2, 0xef, 0x98, 0xf0,
    0xd5, 0xdf, 0xac, 0x05, 0xd3, 0xc6, 0x33, 0x39, 0xb1, 0x38, 0x02, 0x88, 0x6d, 0x53, 0xfc, 0x05,
];

/// Keeps every key, and counts what it was asked.
struct CountingCache {
    keys: Vec<CachedPublicKey>,
    inserted: usize,
}

impl CountingCache {
    fn new() -> Self {
        CountingCache { keys: Vec::new(), inserted: 0 }
    }
}

impl KeyCache for CountingCache {
    fn get(&self, encoded: &[u8; 32]) -> Option<&CachedPublicKey> {
        self.keys.iter().find(|key| key.encoded() == encoded)
    }

    fn insert(&mut self, key: CachedPublicKey) {
        self.inserted += 1;
        if self.get(key.encoded()).is_none() {
            self.keys.push(key);
        }
    }
}

/// Hands out its first key whatever it is asked.
struct ConfusedCache {
    keys: Vec<CachedPublicKey>,
}

impl KeyCache for ConfusedCache {
    fn get(&self, _encoded: &[u8; 32]) -> Option<&CachedPublicKey> {
        self.keys.first()
    }

    fn insert(&mut self, key: CachedPublicKey) {
        self.keys.push(key);
    }
}

struct Request {
    public_key: [u8; 32],
    signature: [u8; 64],
    message: Vec<u8>,
}

fn inputs(requests: &[Request]) -> Vec<VerifyInput<'_>> {
    requests
        .iter()
        .map(|r| VerifyInput {
            public_key: r.public_key,
            signature: r.signature,
            message: &r.message,
        })
        .collect()
}

fn honest(i: u8) -> Request {
    let key = SigningKey::from([i; 32]);
    let message = vec![i; 5 * i as usize];
    Request { public_key: key.public, signature: key.sign(&message), message }
}

/// Requests of every sort: honest ones, and some that one or both policies reject.
fn mixed() -> Vec<Request> {
    let mut requests: Vec<Request> = (0..12).map(honest).collect();
    // Another message.
    requests[1].message.push(1);
    // `S` plus the group order.
    let order: [u8; 32] = [
        0xed, 0xd3, 0xf5, 0x5c, 0x1a, 0x63, 0x12, 0x58, 0xd6, 0x9c, 0xf7, 0xa2, 0xde, 0xf9, 0xde,
        0x14, 0, 0, 0, 0, 0, 0, 0, 0, 0, 0, 0, 0, 0, 0, 0, 0x10,
    ];
    let mut carry = 0u16;
    for i in 0..32 {
        carry += requests[2].signature[32 + i] as u16 + order[i] as u16;
        requests[2].signature[32 + i] = carry as u8;
        carry >>= 8;
    }
    // A key that does not decode.
    requests[3].public_key = [0u8; 32];
    requests[3].public_key[0] = 2;
    // An `R` that does not decode.
    requests[4].signature[..32].copy_from_slice(&[0u8; 32]);
    requests[4].signature[0] = 2;
    // The neutral element as key, a torsion point as `R`, and `S = 0`.
    requests[5].public_key = [0u8; 32];
    requests[5].public_key[0] = 1;
    requests[5].signature = [0u8; 64];
    requests[5].signature[..32].copy_from_slice(&ORD8);
    // The neutral element as key and as `R`.
    requests[6].public_key = [0u8; 32];
    requests[6].public_key[0] = 1;
    requests[6].signature = [0u8; 64];
    requests[6].signature[0] = 1;
    // The same with the sign of zero set in `R`.
    requests[7].public_key = [0u8; 32];
    requests[7].public_key[0] = 1;
    requests[7].signature = [0u8; 64];
    requests[7].signature[0] = 1;
    requests[7].signature[31] = 0x80;
    requests
}

const MIXED_ZIP215: [bool; 12] =
    [true, false, false, false, false, true, true, true, true, true, true, true];
const MIXED_DALEK: [bool; 12] =
    [true, false, false, false, false, false, false, false, true, true, true, true];

#[test]
fn batches_of_every_size_give_the_same_verdicts() {
    let requests = mixed();
    let inputs = inputs(&requests);
    for (policy, expected) in
        [(VerifyPolicy::Zip215, MIXED_ZIP215), (VerifyPolicy::Dalek, MIXED_DALEK)]
    {
        let mut verifier = Verifier::with_policy(&CPU, policy);
        for n in 0..=12 {
            let mut out = vec![true; n];
            verifier.verify_batch(&inputs[12 - n..], &mut out);
            assert_eq!(out, expected[12 - n..], "batch of {n}");
        }
        assert_eq!(verifier.policy(), policy);
    }
}

#[test]
fn single_verification_agrees_with_batches() {
    for (i, request) in mixed().iter().enumerate() {
        match VerificationKey::try_from(request.public_key) {
            Ok(key) => {
                assert_eq!(
                    key.verify_zebra(&request.signature, &request.message).is_ok(),
                    MIXED_ZIP215[i]
                );
                assert_eq!(
                    key.verify_dalek(&request.signature, &request.message).is_ok(),
                    MIXED_DALEK[i]
                );
            }
            Err(_) => assert!(!MIXED_ZIP215[i] && !MIXED_DALEK[i]),
        }
    }
}

#[test]
fn cached_keys_give_the_same_verdicts() {
    let requests = mixed();
    let inputs = inputs(&requests);
    for (policy, expected) in
        [(VerifyPolicy::Zip215, MIXED_ZIP215), (VerifyPolicy::Dalek, MIXED_DALEK)]
    {
        let mut verifier = Verifier::with_cache(&CPU, policy, CountingCache::new());
        let mut out = vec![false; 12];
        // Small batches leave the cache alone.
        verifier.verify_batch(&inputs[..2], &mut out[..2]);
        assert_eq!(verifier.cache().inserted, 0);
        for _ in 0..2 {
            verifier.verify_batch(&inputs, &mut out);
            assert_eq!(out, expected);
        }
        // Seven keys of the first chunk decode, three of them the same; the second chunk holds
        // four keys and repeats its first one. Later batches find them all.
        assert_eq!(verifier.cache().keys.len(), 9);
        assert_eq!(verifier.cache().inserted, 15);
        verifier.cache_mut().keys.clear();
        verifier.verify_batch(&inputs, &mut out);
        assert_eq!(out, expected);
        assert_eq!(verifier.cache().inserted, 30);
        // With every key of the chunk cached the encodings of `R` are compared.
        verifier.verify_batch(&inputs[8..], &mut out[8..]);
        assert_eq!(out, expected);
        assert_eq!(verifier.cache().inserted, 30);
    }
}

#[test]
fn chunks_without_a_usable_lane_insert_nothing() {
    let mut requests: Vec<Request> = (1..4).map(honest).collect();
    for request in &mut requests {
        request.signature[63] = 0xff;
    }
    let mut verifier =
        Verifier::with_cache(&CPU, VerifyPolicy::Zip215, CountingCache::new());
    let mut out = [true; 3];
    verifier.verify_batch(&inputs(&requests), &mut out);
    assert_eq!(out, [false; 3]);
    assert_eq!(verifier.cache().inserted, 0);
}

#[test]
fn a_cache_that_confuses_keys_does_no_harm() {
    let requests: Vec<Request> = (1..9).map(honest).collect();
    let inputs = inputs(&requests);
    for policy in [VerifyPolicy::Zip215, VerifyPolicy::Dalek] {
        let mut verifier = Verifier::with_cache(&CPU, policy, ConfusedCache { keys: Vec::new() });
        for _ in 0..2 {
            let mut out = [false; 8];
            verifier.verify_batch(&inputs, &mut out);
            assert_eq!(out, [true; 8]);
        }
    }
}

#[test]
fn the_default_policy_is_cofactored() {
    assert_eq!(VerifyPolicy::default(), VerifyPolicy::Zip215);
    assert_eq!(Verifier::new(&CPU).policy(), VerifyPolicy::Zip215);
    assert_eq!(Verifier::try_new(&CPU).unwrap().policy(), VerifyPolicy::Zip215);
    let verifier = Verifier::try_with_policy(&CPU, VerifyPolicy::Dalek).unwrap();
    assert_eq!(verifier.policy(), VerifyPolicy::Dalek);
}

#[test]
fn unsupported_processors_are_refused() {
    let no_ifma = CpuFeatures { avx512ifma: false, ..CPU };
    let no_state = CpuFeatures { os_avx512_state: false, ..CPU };
    assert_eq!(check_required_avx512_runtime_support(&CPU), Ok(()));
    assert_eq!(
        check_required_avx512_runtime_support(&no_ifma),
        Err(UnsupportedError::MissingInstructions)
    );
    assert_eq!(
        Verifier::try_new(&no_ifma).err(),
        Some(UnsupportedError::MissingInstructions)
    );
    assert_eq!(
        Verifier::try_with_policy(&no_state, VerifyPolicy::Dalek).err(),
        Some(UnsupportedError::MissingOsSupport)
    );
    assert_eq!(
        Verifier::try_with_cache(&no_state, VerifyPolicy::Zip215, NullKeyCache::new()).err(),
        Some(UnsupportedError::MissingOsSupport)
    );
}

#[test]
fn one_bad_signature_is_singled_out() {
    let bad_index = 10;
    let mut requests = Vec::new();
    for i in 0..32 {
        let mut seed = [0u8; 32];
        seed[0] = i as u8;
        let key = SigningKey::from(seed);
        let message = b"BatchVerifyTest".to_vec();
        let signature = if i != bad_index { key.sign(&message) } else { key.sign(b"badmsg") };
        requests.push(Request { public_key: key.public, signature, message });
    }
    for policy in [VerifyPolicy::Zip215, VerifyPolicy::Dalek] {
        let mut out = [false; 32];
        Verifier::with_policy(&CPU, policy).verify_batch(&inputs(&requests), &mut out);
        for (i, verdict) in out.iter().enumerate() {
            assert_eq!(*verdict, i != bad_index);
        }
    }
}

/// What the strict policy accepts, the cofactored policy accepts.
#[test]
fn strict_verdicts_imply_cofactored_verdicts() {
    let requests = mixed();
    let inputs = inputs(&requests);
    let mut strict = [false; 12];
    let mut cofactored = [false; 12];
    Verifier::with_policy(&CPU, VerifyPolicy::Dalek).verify_batch(&inputs, &mut strict);
    Verifier::with_policy(&CPU, VerifyPolicy::Zip215).verify_batch(&inputs, &mut cofactored);
    for i in 0..12 {
        assert!(!strict[i] || cofactored[i]);
    }
    assert_ne!(strict, cofactored);
}

fn chunk<'a>(inputs: &[VerifyInput<'a>]) -> [VerifyInput<'a>; 8] {
    core::array::from_fn(|i| inputs[i])
}

#[test]
fn chunks_overwrite_every_result() {
    let mut public_key = [0u8; 32];
    public_key[0] = 1;
    let mut signature = [0u8; 64];
    signature[0] = 1;
    let identities = [VerifyInput { public_key, signature, message: b"" }; 8];
    for before in [[true; 8], [false; 8]] {
        let mut out = before;
        Verifier::with_policy(&CPU, VerifyPolicy::Dalek).try_verify_chunk(&identities, &mut out);
        assert_eq!(out, [false; 8]);
        let mut out = before;
        Verifier::with_policy(&CPU, VerifyPolicy::Zip215).try_verify_chunk(&identities, &mut out);
        assert_eq!(out, [true; 8]);
    }
}

#[test]
fn chunks_without_a_usable_lane_change_nothing() {
    let mut requests: Vec<Request> = (1..9).map(honest).collect();
    for request in &mut requests {
        request.signature[63] = 0xff;
    }
    for policy in [VerifyPolicy::Zip215, VerifyPolicy::Dalek] {
        let mut verifier = Verifier::with_cache(&CPU, policy, CountingCache::new());
        for before in [[true; 8], [false; 8], [true, false, true, true, false, false, true, false]] {
            let mut out = before;
            verifier.try_verify_chunk(&chunk(&inputs(&requests)), &mut out);
            assert_eq!(out, before);
        }
        assert_eq!(verifier.cache().inserted, 0);
    }
}

#[test]
fn chunks_agree_with_single_verification() {
    let requests = mixed();
    let inputs = inputs(&requests);
    for policy in [VerifyPolicy::Zip215, VerifyPolicy::Dalek] {
        let mut verifier = Verifier::with_cache(&CPU, policy, CountingCache::new());
        for start in [0, 2, 4, 0] {
            let lanes = chunk(&inputs[start..]);
            let mut out = [false; 8];
            verifier.try_verify_chunk(&lanes, &mut out);
            for i in 0..8 {
                assert_eq!(out[i], verifier.verify_single_scalar(&lanes[i]));
            }
        }
    }
}

#[test]
fn rejected_scalars_have_zero_digits() {
    let mut order_minus_one = [0u8; 64];
    order_minus_one[32..48].copy_from_slice(&[
        0xec, 0xd3, 0xf5, 0x5c, 0x1a, 0x63, 0x12, 0x58, 0xd6, 0x9c, 0xf7, 0xa2, 0xde, 0xf9, 0xde,
        0x14,
    ]);
    order_minus_one[63] = 0x10;
    let mut order = order_minus_one;
    order[32] = 0xed;
    let mut lanes = [VerifyInput { public_key: [0u8; 32], signature: order, message: b"" }; 8];
    lanes[0].signature = order_minus_one;
    lanes[1].signature[..32].copy_from_slice(&ORD8);
    lanes[2].public_key = ORD8;
    lanes[3].message = b"abc";
    let parts = parse_chunk_inputs(&lanes);
    assert_eq!(parts.valid, [true, false, false, false, false, false, false, false]);
    assert_ne!(parts.s_digits[0], [0i8; 64]);
    for i in 1..8 {
        assert_eq!(parts.s_digits[i], [0i8; 64]);
    }
    for i in 0..8 {
        assert_eq!(parts.r_bytes[i], if i == 1 { ORD8 } else { [0u8; 32] });
        assert_eq!(parts.public_keys[i], if i == 2 { ORD8 } else { [0u8; 32] });
        assert_eq!(parts.messages[i], if i == 3 { &b"abc"[..] } else { &b""[..] });
    }
}

#[test]
fn strict_lanes_agree_with_and_without_decompressed_points() {
    let requests = mixed();
    let lanes = chunk(&inputs(&requests));
    let parts = parse_chunk_inputs(&lanes);
    // The neutral element stands in for a key that does not decode.
    let points: Vec<EdwardsPoint> = lanes
        .iter()
        .map(|l| EdwardsPoint::decompress(&l.public_key).unwrap_or(EdwardsPoint::identity()))
        .collect();
    let tables: Vec<PointTable> = points.iter().map(PointTable::new).collect();
    let k_digits = core::array::from_fn(|i| {
        challenge_scalar(&parts.r_bytes[i], &parts.public_keys[i], parts.messages[i]).to_radix16()
    });
    let prepared = PreparedBatch {
        public_key_tables: core::array::from_fn(|i| &tables[i]),
        s_digits: &parts.s_digits,
        k_digits: &k_digits,
    };
    let verifier = Verifier::with_policy(&CPU, VerifyPolicy::Dalek);
    let (r_points, mask) = decompress_r_points(&parts.r_bytes);
    let r_valid: [bool; 8] = core::array::from_fn(|i| mask >> i & 1 == 1);
    for key_small_order in [[false; 8], core::array::from_fn(|i| points[i].is_small_order())] {
        let by_point = verifier.verify_dalek_lanes(
            &prepared,
            Some((&r_points, &r_valid)),
            &parts.r_bytes,
            &key_small_order,
            &parts.valid,
        );
        let by_encoding = verifier.verify_dalek_lanes(
            &prepared,
            None,
            &parts.r_bytes,
            &key_small_order,
            &parts.valid,
        );
        assert_eq!(by_point, by_encoding);
        assert_eq!(by_point, MIXED_DALEK[..8]);
    }
    let cofactored =
        verifier.verify_zip215_lanes(&prepared, Some((&r_points, &r_valid)), &parts.r_bytes, &parts.valid);
    assert_eq!(cofactored, MIXED_ZIP215[..8]);
    assert_eq!(
        cofactored,
        verifier.verify_zip215_lanes(&prepared, None, &parts.r_bytes, &parts.valid)
    );
}

#[test]
fn test_verify_heea_invalid_signature() {
    let signing_key = SigningKey::from([1u8; 32]);
    let verification_key = VerificationKey::from(&signing_key);

    let msg = b"Original message";
    let signature = signing_key.sign(msg);

    // Try to verify with different message
    let wrong_msg = b"Different message";

    let result_default = verification_key.verify(&signature, wrong_msg);
    let result_zebra = verification_key.verify_zebra(&signature, wrong_msg);
    let result_dalek = verification_key.verify_dalek(&signature, wrong_msg);

    assert!(result_default.is_err(), "Default verification should fail for wrong message");
    assert!(result_zebra.is_err(), "Zebra verification should fail for wrong message");
    assert!(result_dalek.is_err(), "Dalek verification should fail for wrong message");
}

#[test]
fn test_verify_heea_multiple_signatures() {
    for i in 0..100 {
        let mut seed = [0u8; 32];
        seed[0] = i;
        let signing_key = SigningKey::from(seed);
        let verification_key = VerificationKey::from(&signing_key);

        let msg = format!("Message number {}", i);
        let signature = signing_key.sign(msg.as_bytes());

        let result_default = verification_key.verify(&signature, msg.as_bytes());
        let result_zebra = verification_key.verify_zebra(&signature, msg.as_bytes());
        let result_dalek = verification_key.verify_dalek(&signature, msg.as_bytes());

        assert!(
            result_default.is_ok(),
            "Default verification should succeed for signature {}",
            i
        );
        assert!(
            result_zebra.is_ok(),
            "Zebra verification should succeed for signature {}",
            i
        );
        assert!(
            result_dalek.is_ok(),
            "Dalek verification should succeed for signature {}",
            i
        );
    }
}

#[test]
fn test_default_verification_matches_zebra() {
    let signing_key = SigningKey::from([2u8; 32]);
    let verification_key = VerificationKey::from(&signing_key);
    let msg = b"default verification mode";
    let signature = signing_key.sign(msg);

    assert_eq!(
        verification_key.verify(&signature, msg),
        verification_key.verify_zebra(&signature, msg)
    );
}

fn unhex(s: &str) -> Vec<u8> {
    (0..s.len() / 2).map(|i| u8::from_str_radix(&s[2 * i..2 * i + 2], 16).unwrap()).collect()
}

/// The first published test vector of the signature scheme.
#[test]
fn published_vector_is_reproduced() {
    let seed = unhex("9d61b19deffd5a60ba844af492ec2cc44449c5697b326919703bac031cae7f60");
    let key = SigningKey::from(<[u8; 32]>::try_from(seed).unwrap());
    let public = unhex("d75a980182b10ab7d54bfed3c964073a0ee172f3daa62325af021a68f707511a");
    assert_eq!(key.public.to_vec(), public);
    let signature = unhex(concat_halves(
        "e5564300c360ac729086e2cc806e828a84877f1eb8e5d974d873e06522490155",
        "5fb8821590a33bacc61e39701cf9b46bd25bf5f0595bbe24655141438e7a100b",
    )
    .as_str());
    assert_eq!(key.sign(b"").to_vec(), signature);
    let verification_key = VerificationKey::from(&key);
    let bytes = <[u8; 64]>::try_from(signature).unwrap();
    assert_eq!(verification_key.verify(&bytes, b""), Ok(()));
    assert_eq!(verification_key.verify_dalek(&bytes, b""), Ok(()));
    assert_eq!(verification_key.verify_dalek(&bytes, b"x"), Err(Error::InvalidSignature));
}

fn concat_halves(a: &str, b: &str) -> String {
    format!("{a}{b}")
}

#[test]
fn malformed_keys_are_rejected() {
    let mut two = [0u8; 32];
    two[0] = 2;
    assert_eq!(VerificationKey::try_from(two).err(), Some(Error::MalformedPublicKey));
}

#[test]
fn challenges_decide_the_equation() {
    let key = SigningKey::from([3u8; 32]);
    let verification_key = VerificationKey::from(&key);
    let signature = key.sign(b"m");
    let mut r_bytes = [0u8; 32];
    let mut s_bytes = [0u8; 32];
    r_bytes.copy_from_slice(&signature[..32]);
    s_bytes.copy_from_slice(&signature[32..]);
    let k = Scalar::from_wide_bytes(hash_slices(&[&r_bytes, &key.public, b"m"]));
    let other = Scalar::from_wide_bytes([7u8; 64]);
    assert_eq!(verification_key.check_zebra(&r_bytes, &s_bytes, &k), Ok(()));
    assert_eq!(verification_key.check_dalek(&r_bytes, &s_bytes, &k), Ok(()));
    assert_eq!(
        verification_key.check_zebra(&r_bytes, &s_bytes, &other),
        Err(Error::InvalidSignature)
    );
    assert_eq!(
        verification_key.check_dalek(&r_bytes, &s_bytes, &other),
        Err(Error::InvalidSignature)
    );
    // An `S` that is not reduced, and an `R` that does not decode.
    assert_eq!(
        verification_key.check_zebra(&r_bytes, &[0xff; 32], &k),
        Err(Error::InvalidSignature)
    );
    assert_eq!(
        verification_key.check_dalek(&r_bytes, &[0xff; 32], &k),
        Err(Error::InvalidSignature)
    );
    let mut two = [0u8; 32];
    two[0] = 2;
    assert_eq!(verification_key.check_zebra(&two, &s_bytes, &k), Err(Error::InvalidSignature));
}

/// With the neutral element as key and zero scalars, the cofactored policy accepts a torsion
/// point as `R` and the strict policy rejects everything of small order.
#[test]
fn small_order_points_split_the_policies() {
    let mut identity = [0u8; 32];
    identity[0] = 1;
    let key = VerificationKey::try_from(identity).unwrap();
    let mut torsion = [0u8; 64];
    torsion[..32].copy_from_slice(&ORD8);
    assert_eq!(key.verify_zebra(&torsion, b"m"), Ok(()));
    assert_eq!(key.verify_dalek(&torsion, b"m"), Err(Error::InvalidSignature));
    let mut neutral = [0u8; 64];
    neutral[0] = 1;
    assert_eq!(key.verify_zebra(&neutral, b"m"), Ok(()));
    assert_eq!(key.verify_dalek(&neutral, b"m"), Err(Error::InvalidSignature));
}

/// A signature of one message passes for another only where the challenges, times the key,
/// agree: always for the neutral key.
#[test]
fn signatures_of_another_message() {
    let key = SigningKey::from([4u8; 32]);
    let signature = key.sign(b"one");
    let verification_key = VerificationKey::from(&key);
    assert_eq!(verification_key.verify_zebra(&signature, b"one"), Ok(()));
    assert_eq!(verification_key.verify_zebra(&signature, b"two"), Err(Error::InvalidSignature));
    assert_eq!(verification_key.verify_dalek(&signature, b"two"), Err(Error::InvalidSignature));
    // With the neutral element as key, `S = r` signs every message.
    let r = Scalar::from_wide_bytes([9u8; 64]);
    let mut signature = [0u8; 64];
    signature[..32].copy_from_slice(&mul_base(&r).compress());
    signature[32..].copy_from_slice(&scalar_bytes(&r));
    let neutral = VerificationKey::try_from(EdwardsPoint::identity().compress()).unwrap();
    for message in [b"one", b"two"] {
        assert_eq!(neutral.verify_zebra(&signature, message), Ok(()));
        assert_eq!(neutral.verify_dalek(&signature, message), Err(Error::InvalidSignature));
    }
}

/// Keys and `R` of every small order, with `S = 0`.
#[test]
fn small_orders_in_every_combination() {
    let mut encodings = vec![EdwardsPoint::identity().compress()];
    let torsion = EdwardsPoint::decompress(&ORD8).unwrap();
    let mut point = torsion;
    for _ in 0..7 {
        encodings.push(point.compress());
        point = point.add(&torsion);
    }
    assert_eq!(point.compress(), encodings[0]);
    for key in &encodings {
        let key = VerificationKey::try_from(*key).unwrap();
        for r in &encodings {
            let mut signature = [0u8; 64];
            signature[..32].copy_from_slice(r);
            assert_eq!(key.verify_zebra(&signature, b"Zcash"), Ok(()));
            assert_eq!(key.verify_dalek(&signature, b"Zcash"), Err(Error::InvalidSignature));
        }
    }
}
