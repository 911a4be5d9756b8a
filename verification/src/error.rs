//! The one way a run can fail: the circuit could not be built.

use vstd::prelude::*;

verus! {

/// Why a circuit-definition routine gave up.
///
/// The recorder never raises one of these itself; it only hands on what the
/// routine returned.
#[derive(Clone, Copy, Debug, PartialEq, Eq, Structural)]
pub enum SynthesisError {
    /// A value was asked for that the routine cannot supply.
    AssignmentMissing,
    /// The routine would have had to divide by zero.
    DivisionByZero,
    /// The routine found its own constraints contradictory.
    Unsatisfiable,
}

} // verus!
