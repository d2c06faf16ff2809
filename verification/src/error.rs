//! The ways in which declaring a circuit or filling its trace can fail.

use vstd::prelude::*;

verus! {

/// A failure that aborts a run. Constraint violations are not errors: the
/// checker reports them as data.
#[derive(Clone, Copy, Debug, PartialEq, Eq, Structural)]
pub enum Error {
    /// A declaration refers to a column or selector that the constraint system
    /// does not have.
    ConfigurationError,
    /// An assignment names an undeclared column or a row outside the trace, or
    /// a cell is still unknown when the trace is finalized.
    AssignmentError,
    /// Two different concrete values were assigned to one cell.
    AssignmentConflict,
    /// An equality constraint names a column for which equality is not enabled.
    EqualityError,
}

} // verus!
