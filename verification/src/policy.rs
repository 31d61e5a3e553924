//! Verification policies.
use crate::bytes;
use crate::encoding;
use crate::fp;
use vstd::prelude::*;

verus! {

/// Which signatures a verifier accepts.
#[derive(Clone, Copy, Debug, PartialEq, Eq, Structural)]
pub enum VerifyPolicy {
    /// Cofactored verification with liberal point decoding.
    Zip215,
    /// Cofactorless verification by recomputing `R`, without keys or `R` of small order.
    Dalek,
}

impl Default for VerifyPolicy {
    fn default() -> (r: Self)
        ensures
            r == VerifyPolicy::Zip215,
    {
        VerifyPolicy::Zip215
    }
}

/// Whether the 255 low bits of an encoding are below `p`.
pub open spec fn canonical_y(b: Seq<u8>) -> bool {
    bytes::le_value(b) % encoding::two_255() < fp::p()
}

/// Whether the ordinate of an encoding is reduced modulo `p`.
pub fn r_encoding_has_canonical_y(b: &[u8; 32]) -> (r: bool)
    ensures
        r == canonical_y(b@),
{
    let w0: u64 = bytes::load64(b, 0);
    let w1: u64 = bytes::load64(b, 8);
    let w2: u64 = bytes::load64(b, 16);
    let w3: u64 = bytes::load64(b, 24) % 0x8000000000000000;
    proof {
        bytes::lemma_le_words(b@);
        let top = bytes::le_value(b@.subrange(24, 32));
        assert(bytes::le_value(b@) % encoding::two_255() == w0 + 0x10000000000000000 * w1
            + 0x100000000000000000000000000000000int * w2
            + 0x1000000000000000000000000000000000000000000000000int * w3) by {
            let q = top / 0x8000000000000000;
            assert(top == w3 + 0x8000000000000000 * q);
        }
    }
    !(w3 == 0x7fffffffffffffff && w2 == 0xffffffffffffffff && w1 == 0xffffffffffffffff && w0
        >= 0xffffffffffffffed)
}

} // verus!
