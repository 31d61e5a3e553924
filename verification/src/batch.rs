//! Sizes of the wire format and of SIMD chunks.
use crate::edwards::PointTable;
use crate::scalar;
use crate::scalar::Radix16;
use vstd::prelude::*;

verus! {

/// Bytes of an encoded public key.
pub const PUBLIC_KEY_LEN: usize = 32;

/// Bytes of an encoded signature `R || S`.
pub const SIGNATURE_LEN: usize = 64;

/// Bytes of the encoded point `R` of a signature.
pub const R_ENCODING_LEN: usize = 32;

/// Signatures verified at a time.
pub const SIMD_LANES: usize = 8;

/// The inputs of the multiscalar ladder: per lane a table of the public key, and the digits of
/// the scalars `s` and `k`.
pub struct PreparedBatch<'a> {
    pub public_key_tables: [&'a PointTable; 8],
    pub s_digits: &'a [Radix16; 8],
    pub k_digits: &'a [Radix16; 8],
}

impl<'a> PreparedBatch<'a> {
    /// Every table is a table of multiples, and every digit is in `-8..=8`.
    pub open spec fn valid(&self) -> bool {
        &&& forall|i: int| 0 <= i < 8 ==> (#[trigger] self.public_key_tables[i]).valid()
        &&& forall|i: int| 0 <= i < 8 ==> scalar::digits_bounded((#[trigger] self.s_digits[i])@)
        &&& forall|i: int| 0 <= i < 8 ==> scalar::digits_bounded((#[trigger] self.k_digits[i])@)
    }

    /// The scalar `s` of lane `i`.
    pub open spec fn s(&self, i: int) -> int {
        scalar::digits_value(self.s_digits[i]@)
    }

    /// The scalar `k` of lane `i`.
    pub open spec fn k(&self, i: int) -> int {
        scalar::digits_value(self.k_digits[i]@)
    }
}

} // verus!
