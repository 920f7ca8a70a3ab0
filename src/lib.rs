//! A buffered, partition-aware writer of variable-length numeric lists (and
//! nulls) into a shared, pre-allocated grid of list cells.
use vstd::prelude::*;

pub mod block;
pub mod column;
pub mod error;
pub mod grid;
pub mod model;

pub use block::ArrayBlock;
pub use column::{ArrayColumn, ColumnDest};
pub use error::ColumnError;
pub use grid::{Cell, CellModel, Grid};

verus! {

} // verus!
