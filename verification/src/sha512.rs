//! SHA-512, and the challenge of a signature.
use crate::bytes;
use crate::scalar;
use crate::scalar::Scalar;
use sha2::Digest;
use vstd::prelude::*;

verus! {

/// The SHA-512 digest of a byte string.
pub uninterp spec fn sha512_digest(data: Seq<u8>) -> Seq<u8>;

/// Calls `sha2::Sha512::digest`, which hashes one byte string in a single call. The digest
/// depends on the bytes alone; nothing else is claimed of it than that it has 64 bytes, which
/// the type says.
#[verifier::external_body]
fn digest(data: &[u8]) -> (r: [u8; 64])
    ensures
        r@ == sha512_digest(data@),
{
    sha2::Sha512::digest(data).into()
}

/// The concatenation of byte strings.
pub open spec fn concatenation(parts: Seq<&[u8]>) -> Seq<u8>
    decreases parts.len(),
{
    if parts.len() == 0 {
        Seq::empty()
    } else {
        concatenation(parts.drop_last()) + parts.last()@
    }
}

fn append(out: &mut Vec<u8>, part: &[u8])
    ensures
        final(out)@ == old(out)@ + part@,
{
    let ghost before = out@;
    let mut i: usize = 0;
    while i < part.len()
        invariant
            i <= part.len(),
            out@ == before + part@.subrange(0, i as int),
        decreases part.len() - i,
    {
        out.push(part[i]);
        i += 1;
        assert(part@.subrange(0, i as int) =~= part@.subrange(0, i - 1).push(part@[i - 1]));
    }
    assert(part@.subrange(0, i as int) =~= part@);
}

/// The digest of the concatenation of byte strings.
pub fn hash_slices(parts: &[&[u8]]) -> (r: [u8; 64])
    ensures
        r@ == sha512_digest(concatenation(parts@)),
{
    let mut data: Vec<u8> = Vec::new();
    let mut i: usize = 0;
    while i < parts.len()
        invariant
            i <= parts.len(),
            data@ == concatenation(parts@.subrange(0, i as int)),
        decreases parts.len() - i,
    {
        append(&mut data, parts[i]);
        i += 1;
        assert(parts@.subrange(0, i as int).drop_last() =~= parts@.subrange(0, i - 1));
    }
    assert(parts@.subrange(0, i as int) =~= parts@);
    digest(&data)
}

/// The challenge `k` of a signature: the digest of `R`, `A` and the message, as a little-endian
/// integer modulo the group order.
pub open spec fn challenge(r: Seq<u8>, a: Seq<u8>, message: Seq<u8>) -> int {
    bytes::le_value(sha512_digest(r + a + message)) % scalar::group_order()
}

/// The digest of `R`, `A` and a message.
fn challenge_digest(r: &[u8; 32], a: &[u8; 32], message: &[u8]) -> (out: [u8; 64])
    ensures
        out@ == sha512_digest(r@ + a@ + message@),
{
    let mut data: Vec<u8> = Vec::new();
    append(&mut data, r);
    append(&mut data, a);
    append(&mut data, message);
    assert(data@ =~= r@ + a@ + message@);
    digest(&data)
}

/// The residue of a digest modulo the group order.
pub fn scalar_from_sha512(data: &[u8]) -> (r: Scalar)
    ensures
        r.value() == bytes::le_value(sha512_digest(data@)) % scalar::group_order(),
{
    Scalar::from_wide_bytes(digest(data))
}

/// The challenge of one signature.
pub fn challenge_scalar(r: &[u8; 32], a: &[u8; 32], message: &[u8]) -> (k: Scalar)
    ensures
        k.value() == challenge(r@, a@, message@),
{
    Scalar::from_wide_bytes(challenge_digest(r, a, message))
}

/// The eight words of a digest, lowest first.
fn digest_words(d: &[u8; 64]) -> (w: [u64; 8])
    ensures
        scalar::wide_value(w@) == bytes::le_value(d@),
{
    let w = [
        bytes::load64(d, 0),
        bytes::load64(d, 8),
        bytes::load64(d, 16),
        bytes::load64(d, 24),
        bytes::load64(d, 32),
        bytes::load64(d, 40),
        bytes::load64(d, 48),
        bytes::load64(d, 56),
    ];
    proof {
        scalar::lemma_wide_words(d@, w@);
    }
    w
}

fn challenge_words(r: &[u8; 32], a: &[u8; 32], message: &[u8]) -> (w: [u64; 8])
    ensures
        scalar::wide_value(w@) == bytes::le_value(sha512_digest(r@ + a@ + message@)),
{
    digest_words(&challenge_digest(r, a, message))
}

/// The challenge digests of eight signatures, as words.
pub fn hash_ed25519_challenge_words(
    r_bytes: &[[u8; 32]; 8],
    public_keys: &[[u8; 32]; 8],
    messages: &[&[u8]; 8],
) -> (w: [[u64; 8]; 8])
    ensures
        forall|i: int|
            0 <= i < 8 ==> scalar::wide_value((#[trigger] w[i])@) == bytes::le_value(
                sha512_digest(r_bytes[i]@ + public_keys[i]@ + messages[i]@),
            ),
        forall|i: int|
            0 <= i < 8 ==> scalar::wide_value((#[trigger] w[i])@) % scalar::group_order() == challenge(
                r_bytes[i]@,
                public_keys[i]@,
                messages[i]@,
            ),
{
    [
        challenge_words(&r_bytes[0], &public_keys[0], messages[0]),
        challenge_words(&r_bytes[1], &public_keys[1], messages[1]),
        challenge_words(&r_bytes[2], &public_keys[2], messages[2]),
        challenge_words(&r_bytes[3], &public_keys[3], messages[3]),
        challenge_words(&r_bytes[4], &public_keys[4], messages[4]),
        challenge_words(&r_bytes[5], &public_keys[5], messages[5]),
        challenge_words(&r_bytes[6], &public_keys[6], messages[6]),
        challenge_words(&r_bytes[7], &public_keys[7], messages[7]),
    ]
}

} // verus!
