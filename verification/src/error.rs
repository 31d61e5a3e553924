//! Errors.
use vstd::prelude::*;

verus! {

/// Why a key or a signature was rejected.
#[derive(Clone, Copy, Debug, PartialEq, Eq, Structural)]
pub enum Error {
    /// The encoding of a public key is not a point of the curve.
    MalformedPublicKey,
    /// The signature is not valid for the key and the message.
    InvalidSignature,
}

/// The processor lacks what the verifier needs.
#[derive(Clone, Copy, Debug, PartialEq, Eq, Structural)]
pub enum UnsupportedError {
    /// An AVX-512 instruction set extension is missing.
    MissingInstructions,
    /// The operating system does not save the AVX-512 registers.
    MissingOsSupport,
}

} // verus!
