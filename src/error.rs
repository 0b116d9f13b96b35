use vstd::prelude::*;

verus! {

/// Errors that can occur during shadow table operations.
#[derive(Debug, Clone, Copy, PartialEq, Eq, Structural)]
pub enum ShadowError {
    /// Address or length exceeds table bounds.
    OutOfBounds,
    /// Operation attempted with zero length.
    ZeroLength,
    /// Access denied by policy.
    Denied,
    /// Staging buffer capacity exceeded.
    StageFull,
}

impl ShadowError {
    /// Human-readable description of the error.
    pub fn message(&self) -> (r: &'static str)
        ensures
            *self == ShadowError::OutOfBounds ==> r@ == "address or length exceeds table bounds"@,
            *self == ShadowError::ZeroLength ==> r@ == "operation attempted with zero length"@,
            *self == ShadowError::Denied ==> r@ == "access denied by policy"@,
            *self == ShadowError::StageFull ==> r@ == "staging buffer capacity exceeded"@,
    {
        match self {
            ShadowError::OutOfBounds => "address or length exceeds table bounds",
            ShadowError::ZeroLength => "operation attempted with zero length",
            ShadowError::Denied => "access denied by policy",
            ShadowError::StageFull => "staging buffer capacity exceeded",
        }
    }
}

} // verus!
