//! The engine's narrow error taxonomy: most operations are total, so errors
//! arise only from defective inputs at well-defined points.

use vstd::prelude::*;

verus! {

/// An error of the engine.
#[derive(Debug, Clone)]
pub enum EngineError {
    /// A persistence fault reported by a surrounding store.
    Persistence(String),
    /// An argument outside the accepted domain.
    InvalidArgument(String),
    /// Signing-key seed material that is not valid hexadecimal or does not
    /// decode to the length the signature scheme expects; raised at signer
    /// construction and never recoverable without new material.
    InvalidKeyMaterial(String),
}

} // verus!
