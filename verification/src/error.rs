//! The ways in which an operation of this library can fail.

use vstd::prelude::*;

verus! {

/// Why a dot product or a matrix product could not be computed.
#[derive(Debug, Clone, Copy, PartialEq, Eq, Structural)]
pub enum Error {
    /// The left matrix has a column count other than the right matrix's row count.
    ShapeMismatch,
    /// A dot product was asked of two vectors of different lengths.
    LengthMismatch,
    /// A task could not be handed to the worker it was routed to.
    TaskRoutingFailure,
    /// A reply never came, or named no cell that was still waiting for one.
    ReplyLost,
    /// A counter was asked for under a name that the store does not hold.
    KeyNotFound,
}

} // verus!
