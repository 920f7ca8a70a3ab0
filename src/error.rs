//! The one error type of the library.
use vstd::prelude::*;

verus! {

/// Why loading a column failed.
#[derive(Clone, Copy, Debug, PartialEq, Eq, Structural)]
pub enum ColumnError {
    /// The grid cannot be cut into the requested columns.
    ShapeMismatch,
    /// The lock that guards the grid was poisoned by a panicking holder.
    LockPoisoned,
    /// The runtime refused to build a sequence handle from buffered values.
    HandleConstructionFailure,
}

} // verus!
