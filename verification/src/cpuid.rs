//! The processor features that the verifier needs.
use crate::error::UnsupportedError;
use vstd::prelude::*;

verus! {

/// What is known of the processor and the operating system.
#[derive(Clone, Copy, Debug, PartialEq, Eq, Structural)]
pub struct CpuFeatures {
    /// Foundation instructions.
    pub avx512f: bool,
    /// 64-bit multiplication.
    pub avx512dq: bool,
    /// 52-bit multiply-add.
    pub avx512ifma: bool,
    /// The operating system saves the AVX-512 registers.
    pub os_avx512_state: bool,
}

impl CpuFeatures {
    /// Every needed feature is there.
    pub open spec fn supported(&self) -> bool {
        self.avx512f && self.avx512dq && self.avx512ifma && self.os_avx512_state
    }

    /// What is missing where not everything is there.
    pub open spec fn lacking(&self) -> UnsupportedError {
        if self.avx512f && self.avx512dq && self.avx512ifma {
            UnsupportedError::MissingOsSupport
        } else {
            UnsupportedError::MissingInstructions
        }
    }
}

/// Succeeds exactly when every needed feature is there.
pub fn check_required_avx512_runtime_support(cpu: &CpuFeatures) -> (r: Result<(), UnsupportedError>)
    ensures
        r is Ok == cpu.supported(),
        r matches Err(e) ==> e == cpu.lacking(),
{
    if !(cpu.avx512f && cpu.avx512dq && cpu.avx512ifma) {
        return Err(UnsupportedError::MissingInstructions);
    }
    if !cpu.os_avx512_state {
        return Err(UnsupportedError::MissingOsSupport);
    }
    Ok(())
}

} // verus!
