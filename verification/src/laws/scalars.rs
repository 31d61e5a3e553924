//! Scalars, their digits, digests and challenges.
use crate::bytes;
use crate::limbs;
use crate::policy;
use crate::scalar;
use crate::scalar::{Radix16, Scalar};
use crate::sha512;
use crate::wide;
use std::cmp::Ordering;
use vstd::prelude::*;

verus! {

/// The value of 64 digits: digits weigh 16 times what the digit before weighs.
pub proof fn lemma_digits(d: Seq<i8>)
    requires
        d.len() == 64,
    ensures
        scalar::digits_value(d) == d.fold_right(|digit: i8, above: int| digit + 16 * above, 0int),
{
    assert(d.subrange(0, 64) =~= d);
    lemma_digits_folded(d, 0);
}

proof fn lemma_digits_folded(d: Seq<i8>, pos: nat)
    requires
        d.len() == 64,
        pos <= 64,
    ensures
        scalar::digits_above(d, pos) == d.subrange(pos as int, 64).fold_right(
            |digit: i8, above: int| digit + 16 * above,
            0int,
        ),
    decreases 64 - pos,
{
    let f = |digit: i8, above: int| digit + 16 * above;
    let tail = d.subrange(pos as int, 64);
    tail.lemma_fold_right_alt(f, 0int);
    if pos < 64 {
        let rest = d.subrange(pos as int + 1, 64);
        lemma_digits_folded(d, pos + 1);
        rest.lemma_fold_right_alt(f, 0int);
        assert(tail.subrange(1, tail.len() as int) =~= rest);
    }
}

/// `S` is canonical exactly if it is below the group order.
pub proof fn lemma_canonical(b: [u8; 32], r: bool)
    requires
        call_ensures(scalar::is_canonical, (&b,), r),
    ensures
        r == (bytes::le_value(b@) < 0x1000000000000000000000000000000014def9dea2f79cd65812631a5cf5d3edint),
{
}

/// The digits of a scalar lie in `-8..=8`. Their value, digit `j` times `16^j`, is that of the
/// bytes it was read from, below the group order, or of the wide bytes or words or of the digest
/// that it was reduced from, modulo the group order.
pub proof fn lemma_scalar_digits(k: Scalar, d: Radix16)
    requires
        call_ensures(Scalar::to_radix16, (&k,), d),
    ensures
        forall|j: int| 0 <= j < 64 ==> -8 <= #[trigger] d@[j] <= 8,
        ({
            let order = 0x1000000000000000000000000000000014def9dea2f79cd65812631a5cf5d3edint;
            let value = d@.fold_right(|digit: i8, above: int| digit + 16 * above, 0int);
            &&& forall|b: [u8; 32]| #[trigger]
                call_ensures(Scalar::from_canonical_bytes, (b,), k) ==> value == bytes::le_value(b@)
            &&& forall|b: [u8; 64]| #[trigger]
                call_ensures(Scalar::from_wide_bytes, (b,), k) ==> value == bytes::le_value(b@) % order
            &&& forall|w: [u64; 8]| #[trigger]
                call_ensures(Scalar::from_wide_words, (w,), k) ==> value == w@.fold_right(
                    |word: u64, above: int| word + 0x10000000000000000 * above,
                    0int,
                ) % order
            &&& forall|data: &[u8]| #[trigger]
                call_ensures(sha512::scalar_from_sha512, (data,), k) ==> value == bytes::le_value(
                    sha512::sha512_digest(data@),
                ) % order
            &&& forall|r: &[u8; 32], a: &[u8; 32], message: &[u8]| #[trigger]
                call_ensures(sha512::challenge_scalar, (r, a, message), k) ==> value == bytes::le_value(
                    sha512::sha512_digest(r@ + a@ + message@),
                ) % order
        }),
{
    lemma_digits(d@);
    assert forall|w: [u64; 8]| #[trigger]
        call_ensures(Scalar::from_wide_words, (w,), k) implies k.value() == w@.fold_right(
        |word: u64, above: int| word + 0x10000000000000000 * above,
        0int,
    ) % scalar::group_order() by {
        lemma_words(w@);
    }
}

/// The value of eight words: words weigh `2^64` times what the word before weighs.
proof fn lemma_words(w: Seq<u64>)
    requires
        w.len() == 8,
    ensures
        scalar::wide_value(w) == w.fold_right(|word: u64, above: int| word + 0x10000000000000000 * above, 0int),
{
    let f = |word: u64, above: int| word + 0x10000000000000000 * above;
    reveal_with_fuel(Seq::fold_right, 9);
    let w7 = w.drop_last();
    let w6 = w7.drop_last();
    let w5 = w6.drop_last();
    let w4 = w5.drop_last();
    let w3 = w4.drop_last();
    let w2 = w3.drop_last();
    let w1 = w2.drop_last();
    assert(w.fold_right(f, 0int) == f(w[0], f(w[1], f(w[2], f(w[3], f(w[4], f(w[5], f(w[6], f(w[7], 0))))))))) by {
        assert(w7.last() == w[6] && w6.last() == w[5] && w5.last() == w[4] && w4.last() == w[3]);
        assert(w3.last() == w[2] && w2.last() == w[1] && w1.last() == w[0]);
    }
}

/// Hashing several byte strings hashes the one string that they make up.
pub proof fn lemma_hash_slices(parts: &[&[u8]], r: [u8; 64])
    requires
        call_ensures(sha512::hash_slices, (parts,), r),
    ensures
        r@ == sha512::sha512_digest(parts@.map_values(|part: &[u8]| part@).flatten()),
{
    lemma_concatenation(parts@);
}

proof fn lemma_concatenation(parts: Seq<&[u8]>)
    ensures
        sha512::concatenation(parts) == parts.map_values(|part: &[u8]| part@).flatten(),
    decreases parts.len(),
{
    let f = |part: &[u8]| part@;
    let all = parts.map_values(f);
    all.lemma_flatten_and_flatten_alt_are_equivalent();
    if parts.len() > 0 {
        lemma_concatenation(parts.drop_last());
        assert(all.drop_last() =~= parts.drop_last().map_values(f));
        all.drop_last().lemma_flatten_and_flatten_alt_are_equivalent();
    }
}

/// The challenge words of lane `i` hold the digest of `R`, the key and the whole message of that
/// lane.
pub proof fn lemma_challenge_words(
    r_bytes: [[u8; 32]; 8],
    public_keys: [[u8; 32]; 8],
    messages: [&[u8]; 8],
    w: [[u64; 8]; 8],
    i: int,
)
    requires
        call_ensures(sha512::hash_ed25519_challenge_words, (&r_bytes, &public_keys, &messages), w),
        0 <= i < 8,
    ensures
        w@[i]@.fold_right(|word: u64, above: int| word + 0x10000000000000000 * above, 0int) == bytes::le_value(
            sha512::sha512_digest(r_bytes@[i]@ + public_keys@[i]@ + messages@[i]@),
        ),
{
    lemma_words(w@[i]@);
    assert(scalar::wide_value(w[i]@) == bytes::le_value(
        sha512::sha512_digest(r_bytes[i]@ + public_keys[i]@ + messages[i]@),
    ));
}

/// An ordinate is canonical exactly if its 255 bits are below `p`.
pub proof fn lemma_canonical_y(b: [u8; 32], r: bool)
    requires
        call_ensures(policy::r_encoding_has_canonical_y, (&b,), r),
    ensures
        r == (bytes::le_value(b@) % 0x8000000000000000000000000000000000000000000000000000000000000000int
            < 0x7fffffffffffffffffffffffffffffffffffffffffffffffffffffffffffffedint),
{
}

/// A folded digit is three radix-16 digits in one, or the lone last digit.
pub proof fn lemma_folded(d: Radix16, t: usize, r: i16)
    requires
        t <= 21,
        forall|j: int| 0 <= j < 64 ==> -8 <= #[trigger] d@[j] <= 8,
        call_ensures(wide::base_triple_digit, (&d, t), r),
    ensures
        t < 21 ==> r == d@[3 * t] + 16 * d@[3 * t + 1] + 256 * d@[3 * t + 2],
        t == 21 ==> r == d@[63],
{
}

/// Words and bytes.
pub proof fn lemma_bytes_of_words(b: &[u8], at: usize, r: u64, w: [u64; 4], out: [u8; 32])
    requires
        at + 8 <= b@.len(),
        call_ensures(bytes::load64, (b, at), r),
        call_ensures(bytes::words_bytes, (w,), out),
    ensures
        r == bytes::le_value(b@.subrange(at as int, at + 8)),
        bytes::le_value(out@) == w[0] + 0x10000000000000000 * (w[1] + 0x10000000000000000 * (w[2]
            + 0x10000000000000000 * w[3])),
{
}

/// Limbs below `2^51` compare as their values do.
pub proof fn lemma_limb_order(a: [u64; 5], b: [u64; 5], r: Ordering)
    requires
        forall|k: int| 0 <= k < 5 ==> #[trigger] a@[k] < 0x8000000000000,
        forall|k: int| 0 <= k < 5 ==> #[trigger] b@[k] < 0x8000000000000,
        call_ensures(limbs::cmp_field_limbs, (&a, &b), r),
    ensures
        ({
            let u = a@.fold_right(|limb: u64, above: int| limb + 0x8000000000000 * above, 0int);
            let v = b@.fold_right(|limb: u64, above: int| limb + 0x8000000000000 * above, 0int);
            match r {
                Ordering::Less => u < v,
                Ordering::Equal => u == v,
                Ordering::Greater => u > v,
            }
        }),
{
    lemma_limbs(a@);
    lemma_limbs(b@);
    limbs::lemma_precedes(a@, b@);
    limbs::lemma_precedes(b@, a@);
}

/// The value of five limbs: limbs weigh `2^51` times what the limb before weighs.
proof fn lemma_limbs(l: Seq<u64>)
    requires
        l.len() == 5,
    ensures
        limbs::value(l) == l.fold_right(|limb: u64, above: int| limb + 0x8000000000000 * above, 0int),
{
    let f = |limb: u64, above: int| limb + 0x8000000000000 * above;
    reveal_with_fuel(Seq::fold_right, 6);
    let l4 = l.drop_last();
    let l3 = l4.drop_last();
    let l2 = l3.drop_last();
    let l1 = l2.drop_last();
    assert(l.fold_right(f, 0int) == f(l[0], f(l[1], f(l[2], f(l[3], f(l[4], 0)))))) by {
        assert(l4.last() == l[3] && l3.last() == l[2] && l2.last() == l[1] && l1.last() == l[0]);
    }
}

/// The canonical limbs are below `2^51` and hold the residue modulo `p` of any limbs below `2^52`.
pub proof fn lemma_canonical_limbs(l: [u64; 5], r: [u64; 5])
    requires
        forall|k: int| 0 <= k < 5 ==> #[trigger] l@[k] < 0x10000000000000,
        call_ensures(limbs::canonicalize_field_limbs, (l,), r),
    ensures
        forall|k: int| 0 <= k < 5 ==> #[trigger] r@[k] < 0x8000000000000,
        r@.fold_right(|limb: u64, above: int| limb + 0x8000000000000 * above, 0int) == l@.fold_right(
            |limb: u64, above: int| limb + 0x8000000000000 * above,
            0int,
        ) % 0x7fffffffffffffffffffffffffffffffffffffffffffffffffffffffffffffedint,
{
    lemma_limbs(l@);
    lemma_limbs(r@);
}

/// Subtraction of limbs below `2^51` is that of their values, modulo `2^255`.
pub proof fn lemma_limb_difference(rhs: [u64; 5])
    requires
        forall|k: int| 0 <= k < 5 ==> #[trigger] rhs@[k] < 0x8000000000000,
    ensures
        forall|lhs: &mut [u64; 5]|
            #[trigger] call_ensures(limbs::sub_field_limbs, (lhs, &rhs), ()) && (forall|k: int|
                0 <= k < 5 ==> #[trigger] lhs@[k] < 0x8000000000000) ==> {
                let u = lhs@.fold_right(|limb: u64, above: int| limb + 0x8000000000000 * above, 0int);
                let v = rhs@.fold_right(|limb: u64, above: int| limb + 0x8000000000000 * above, 0int);
                let w = final(lhs)@.fold_right(|limb: u64, above: int| limb + 0x8000000000000 * above, 0int);
                (forall|k: int| 0 <= k < 5 ==> #[trigger] final(lhs)@[k] < 0x8000000000000) && w == (u - v)
                    % 0x8000000000000000000000000000000000000000000000000000000000000000int
            },
{
    lemma_limbs(rhs@);
    assert forall|lhs: &mut [u64; 5]|
        #[trigger] call_ensures(limbs::sub_field_limbs, (lhs, &rhs), ()) && (forall|k: int|
            0 <= k < 5 ==> #[trigger] lhs@[k] < 0x8000000000000) implies ({
        let u = lhs@.fold_right(|limb: u64, above: int| limb + 0x8000000000000 * above, 0int);
        let v = rhs@.fold_right(|limb: u64, above: int| limb + 0x8000000000000 * above, 0int);
        let w = final(lhs)@.fold_right(|limb: u64, above: int| limb + 0x8000000000000 * above, 0int);
        (forall|k: int| 0 <= k < 5 ==> #[trigger] final(lhs)@[k] < 0x8000000000000) && w == (u - v)
            % 0x8000000000000000000000000000000000000000000000000000000000000000int
    }) by {
        lemma_limbs(lhs@);
        lemma_limbs(final(lhs)@);
        lemma_limbs_bound(lhs@);
        lemma_limbs_bound(rhs@);
        lemma_limbs_bound(final(lhs)@);
    }
}

proof fn lemma_limbs_bound(l: Seq<u64>)
    requires
        l.len() == 5,
        forall|k: int| 0 <= k < 5 ==> #[trigger] l[k] < 0x8000000000000,
    ensures
        0 <= limbs::value(l) < 0x8000000000000000000000000000000000000000000000000000000000000000int,
{
    assert(l[0] < 0x8000000000000 && l[1] < 0x8000000000000 && l[2] < 0x8000000000000 && l[3] < 0x8000000000000
        && l[4] < 0x8000000000000);
}

} // verus!
