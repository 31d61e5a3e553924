//! Verification of one signature at a time.
use crate::curve;
use crate::edwards;
use crate::edwards::EdwardsPoint;
use crate::encoding;
use crate::error::Error;
use crate::policy::VerifyPolicy;
use crate::scalar;
use crate::scalar::{Radix16, Scalar};
use crate::sha512;
use crate::signature;
use crate::wide;
use vstd::prelude::*;

verus! {

/// A public key that decodes to a point.
#[derive(Clone, Copy, Debug)]
pub struct VerificationKey {
    encoded: [u8; 32],
    point: EdwardsPoint,
}

/// The multiple for a signed digit, from the multiples `P, ..., 8P`.
fn select_signed(multiples: &Vec<EdwardsPoint>, digit: i8, Ghost(a): Ghost<curve::Point>) -> (r: EdwardsPoint)
    requires
        -8 <= digit <= 8,
        curve::on_curve(a),
        multiples.len() == 8,
        forall|i: int|
            0 <= i < 8 ==> (#[trigger] multiples[i]).valid() && multiples[i].point() == curve::smul(
                i + 1,
                a,
            ),
    ensures
        r.valid(),
        r.point() == curve::smul(digit as int, a),
{
    proof {
        curve::lemma_smul_base(a);
        curve::lemma_smul_neg(-digit as int, a);
    }
    if digit > 0 {
        assert(multiples[digit - 1].valid());
        multiples[(digit - 1) as usize]
    } else if digit < 0 {
        assert(multiples[-digit - 1].valid());
        multiples[(-digit - 1) as usize].negate()
    } else {
        EdwardsPoint::identity()
    }
}

/// Four doublings multiply by sixteen.
fn double4(p: &EdwardsPoint) -> (r: EdwardsPoint)
    requires
        p.valid(),
    ensures
        r.valid(),
        r.point() == curve::smul(16, p.point()),
{
    proof {
        let a = p.point();
        edwards::lemma_times_eight(a);
        curve::lemma_smul_add(8, 8, a);
    }
    p.double().double().double().double()
}

/// `[s]B - [k]A` by interleaved signed radix-16 ladders.
fn double_base(base: &EdwardsPoint, s_digits: &Radix16, key: &EdwardsPoint, k_digits: &Radix16) -> (r: EdwardsPoint)
    requires
        base.valid(),
        key.valid(),
        scalar::digits_bounded(s_digits@),
        scalar::digits_bounded(k_digits@),
    ensures
        r.valid(),
        r.point() == curve::diff(
            curve::smul(scalar::digits_value(s_digits@), base.point()),
            curve::smul(scalar::digits_value(k_digits@), key.point()),
        ),
{
    let ghost a = key.point();
    let ghost b = base.point();
    let base_multiples = edwards::multiples_of(base);
    let key_multiples = edwards::multiples_of(key);
    let mut acc = EdwardsPoint::identity();
    let mut pos: usize = 64;
    proof {
        curve::lemma_smul_base(a);
        curve::lemma_smul_base(b);
        curve::lemma_identity_on_curve();
        curve::lemma_identity(curve::identity());
    }
    while pos > 0
        invariant
            pos <= 64,
            acc.valid(),
            acc.point() == curve::combination(
                scalar::digits_above(s_digits@, pos as nat),
                b,
                -scalar::digits_above(k_digits@, pos as nat),
                a,
            ),
            curve::on_curve(a),
            curve::on_curve(b),
            scalar::digits_bounded(s_digits@),
            scalar::digits_bounded(k_digits@),
            base_multiples.len() == 8,
            key_multiples.len() == 8,
            forall|i: int|
                0 <= i < 8 ==> (#[trigger] base_multiples[i]).valid() && base_multiples[i].point()
                    == curve::smul(i + 1, b),
            forall|i: int|
                0 <= i < 8 ==> (#[trigger] key_multiples[i]).valid() && key_multiples[i].point()
                    == curve::smul(i + 1, a),
        decreases pos,
    {
        let ghost s0 = scalar::digits_above(s_digits@, pos as nat);
        let ghost k0 = scalar::digits_above(k_digits@, pos as nat);
        pos -= 1;
        let s_digit: i8 = s_digits[pos];
        let k_digit: i8 = k_digits[pos];
        let sb = select_signed(&base_multiples, s_digit, Ghost(b));
        let ka = select_signed(&key_multiples, -k_digit, Ghost(a));
        proof {
            curve::lemma_combination_scale(16, s0, b, -k0, a);
            curve::lemma_combination_add_b(16 * s0, b, 16 * (-k0), a, s_digit as int);
            curve::lemma_combination_add_a(16 * s0 + s_digit, b, 16 * (-k0), a, -k_digit as int);
        }
        acc = double4(&acc).add(&sb).add(&ka);
    }
    proof {
        curve::lemma_smul_neg(scalar::digits_value(k_digits@), a);
    }
    acc
}

impl VerificationKey {
    /// The encoding of the key.
    pub closed spec fn encoding(&self) -> Seq<u8> {
        self.encoded@
    }

    #[verifier::type_invariant]
    closed spec fn decodes(self) -> bool {
        &&& encoding::decodable(self.encoded@)
        &&& self.point.valid()
        &&& self.point.point() == encoding::decoded(self.encoded@)
    }

    /// Decodes a public key.
    pub fn try_from(encoded: [u8; 32]) -> (r: Result<Self, Error>)
        ensures
            r is Ok == encoding::decodable(encoded@),
            r matches Ok(key) ==> key.encoding() == encoded@,
            r matches Err(e) ==> e == Error::MalformedPublicKey,
    {
        match EdwardsPoint::decompress(&encoded) {
            Some(point) => Ok(VerificationKey { encoded, point }),
            None => Err(Error::MalformedPublicKey),
        }
    }

    /// `[s]B - [k]A`.
    fn recover(&self, s: &Scalar, k: &Scalar) -> (r: EdwardsPoint)
        ensures
            r.valid(),
            r.point() == signature::recovered(s.value(), k.value(), encoding::decoded(self.encoding())),
    {
        proof {
            use_type_invariant(self);
        }
        double_base(&EdwardsPoint::basepoint(), &s.to_radix16(), &self.point, &k.to_radix16())
    }

    /// Cofactored verification for a given challenge.
    pub fn check_zebra(&self, r_bytes: &[u8; 32], s_bytes: &[u8; 32], k: &Scalar) -> (r: Result<(), Error>)
        ensures
            r is Ok == signature::accepts(
                VerifyPolicy::Zip215,
                self.encoding(),
                r_bytes@,
                s_bytes@,
                k.value(),
            ),
            r matches Err(e) ==> e == Error::InvalidSignature,
    {
        proof {
            use_type_invariant(self);
        }
        if !scalar::is_canonical(s_bytes) {
            return Err(Error::InvalidSignature);
        }
        let s = Scalar::from_canonical_bytes(*s_bytes);
        match EdwardsPoint::decompress(r_bytes) {
            Some(r_point) => {
                if self.recover(&s, k).subtract(&r_point).is_small_order() {
                    Ok(())
                } else {
                    Err(Error::InvalidSignature)
                }
            },
            None => Err(Error::InvalidSignature),
        }
    }

    /// Strict verification for a given challenge.
    pub fn check_dalek(&self, r_bytes: &[u8; 32], s_bytes: &[u8; 32], k: &Scalar) -> (r: Result<(), Error>)
        ensures
            r is Ok == signature::accepts(
                VerifyPolicy::Dalek,
                self.encoding(),
                r_bytes@,
                s_bytes@,
                k.value(),
            ),
            r matches Err(e) ==> e == Error::InvalidSignature,
    {
        proof {
            use_type_invariant(self);
        }
        if !scalar::is_canonical(s_bytes) {
            return Err(Error::InvalidSignature);
        }
        let s = Scalar::from_canonical_bytes(*s_bytes);
        let recovered = self.recover(&s, k);
        if wide::bytes_equal(&recovered.compress(), r_bytes) && !self.point.is_small_order()
            && !recovered.is_small_order() {
            Ok(())
        } else {
            Err(Error::InvalidSignature)
        }
    }

    /// The challenge of a signature under this key.
    fn challenge(&self, r_bytes: &[u8; 32], message: &[u8]) -> (k: Scalar)
        ensures
            k.value() == sha512::challenge(r_bytes@, self.encoding(), message@),
    {
        sha512::challenge_scalar(r_bytes, &self.encoded, message)
    }

    /// Verifies a signature with the default policy.
    pub fn verify(&self, signature: &[u8; 64], message: &[u8]) -> (r: Result<(), Error>)
        ensures
            r is Ok == signature::verifies(
                VerifyPolicy::Zip215,
                self.encoding(),
                signature@,
                message@,
            ),
            r matches Err(e) ==> e == Error::InvalidSignature,
    {
        self.verify_zebra(signature, message)
    }

    /// Verifies a signature with the cofactored policy.
    pub fn verify_zebra(&self, signature: &[u8; 64], message: &[u8]) -> (r: Result<(), Error>)
        ensures
            r is Ok == signature::verifies(
                VerifyPolicy::Zip215,
                self.encoding(),
                signature@,
                message@,
            ),
            r matches Err(e) ==> e == Error::InvalidSignature,
    {
        let r_bytes = signature::signature_r(signature);
        let s_bytes = signature::signature_s(signature);
        let k = self.challenge(&r_bytes, message);
        self.check_zebra(&r_bytes, &s_bytes, &k)
    }

    /// Verifies a signature with the strict policy.
    pub fn verify_dalek(&self, signature: &[u8; 64], message: &[u8]) -> (r: Result<(), Error>)
        ensures
            r is Ok == signature::verifies(
                VerifyPolicy::Dalek,
                self.encoding(),
                signature@,
                message@,
            ),
            r matches Err(e) ==> e == Error::InvalidSignature,
    {
        let r_bytes = signature::signature_r(signature);
        let s_bytes = signature::signature_s(signature);
        let k = self.challenge(&r_bytes, message);
        self.check_dalek(&r_bytes, &s_bytes, &k)
    }
}

} // verus!
