//! Errors raised while editing circuits and lowering them to MNA systems.

use vstd::prelude::*;

verus! {

/// Failure of a circuit edit or of exact linear lowering and solving.
#[derive(Clone, Copy, Debug, PartialEq, Eq, Structural)]
pub enum CircuitError {
    /// A connection names a net absent from the circuit.
    MissingConnectionNet,
    /// A connection names an instance absent from the circuit.
    MissingInstance,
    /// The instance already binds the pin.
    DuplicatePinBinding,
    /// A stamp references a net that is not an unknown of the system.
    MissingNet,
    /// Two unknowns of one system share an identity.
    DuplicateUnknown,
    /// Candidate, matrix or right-hand-side dimensions disagree.
    CandidateLengthMismatch,
    /// A residual sign could not be certified.
    UnknownResidual,
    /// No pivot was certified nonzero, but some candidate was undecided.
    IndeterminateLinearPivot,
    /// Every remaining pivot candidate is certified zero.
    SingularLinearSystem,
    /// Exact division failed during elimination.
    LinearSolveArithmetic,
}

/// Result of circuit editing and lowering operations.
pub type CircuitResult<T> = Result<T, CircuitError>;

} // verus!
