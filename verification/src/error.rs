//! The ways in which the simulation can fail.

use vstd::prelude::*;

verus! {

/// What went wrong.
#[derive(Clone, Copy, Debug, PartialEq, Eq, Structural)]
pub enum SimulationError {
    /// A parameter cannot be worked with: a forecast length is negative, or a
    /// date lies beyond the calendar.
    ParameterError,
    /// A share was asked of no days at all.
    EmptyInputError,
    /// The reference date is not an RFC 3339 timestamp.
    InvalidReferenceDate,
}

} // verus!
