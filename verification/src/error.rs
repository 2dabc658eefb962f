//! The failures that the protocol reports to its callers.

use vstd::prelude::*;

verus! {

/// Every failure is handed back to the immediate caller; none ends the
/// process. A proof that does not verify is not among them: that is the
/// answer `false`.
#[derive(Clone, Copy, Debug, PartialEq, Eq, Structural)]
pub enum ProtocolError {
    /// Proof or key bytes that do not decode.
    SerializationError,
    /// A witness that does not satisfy the relation.
    ConstraintUnsatisfied,
    /// An inclusion proof asked for a leaf that is not in the set.
    IndexOutOfBounds,
    /// The trusted setup could not produce its parameters.
    SetupFailure,
}

} // verus!
