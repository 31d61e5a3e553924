//! Batch Ed25519 verification on eight-lane vectors.
pub mod batch;
pub mod batch_verifier;
pub mod bytes;
pub mod cache;
pub mod certificate;
pub mod cpuid;
pub mod curve;
pub mod curve_algebra;
pub mod edwards;
pub mod encoding;
pub mod error;
pub mod field;
pub mod field_laws;
pub mod fp;
pub mod lanes;
pub mod laws;
pub mod limbs;
pub mod order;
pub mod policy;
pub mod prime;
pub mod projective;
pub mod ring;
pub mod scalar;
pub mod sha512;
pub mod signature;
pub mod verification_key;
pub mod wide;
pub mod wide_field;
