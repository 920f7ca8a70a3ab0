//! Cutting a grid into per-column writers.
use vstd::prelude::*;

use crate::column::{ArrayColumn, ColumnDest};
use crate::error::ColumnError;
use crate::model::Entry;

verus! {

/// Scalars buffered per megabyte of budget (eight-byte scalars).
pub const ELEMS_PER_MB: usize = 131072;

/// The buffer budget of a fresh block, in megabytes.
pub const DEFAULT_BUF_SIZE_MB: usize = 16;

/// The largest buffer budget a block accepts, in megabytes.
pub const MAX_BUF_SIZE_MB: usize = 4096;

/// A grid of `cells` cells, to be cut into `ncols` equal columns, and the
/// buffer budget of the writers cut from it.
pub struct ArrayBlock {
    cells: usize,
    ncols: usize,
    buf_size_mb: usize,
}

/// The grid of `cells` cells can be cut into `ncols` equal columns.
pub open spec fn splits(cells: nat, ncols: nat) -> bool {
    if ncols == 0 {
        cells == 0
    } else {
        cells % ncols == 0
    }
}

/// The number of rows of each column.
pub open spec fn rows_per_column(cells: nat, ncols: nat) -> nat {
    if ncols == 0 {
        0
    } else {
        cells / ncols
    }
}

impl ArrayBlock {
    /// The number of cells of the grid.
    pub closed spec fn cell_count(&self) -> nat {
        self.cells as nat
    }

    /// The number of columns requested.
    pub closed spec fn column_count(&self) -> nat {
        self.ncols as nat
    }

    /// The buffer budget of each writer, in megabytes.
    pub closed spec fn budget_mb(&self) -> nat {
        self.buf_size_mb as nat
    }

    /// A block over a grid of `cells` cells, to be cut into `ncols` columns,
    /// with the default budget.
    pub fn new(cells: usize, ncols: usize) -> (b: ArrayBlock)
        ensures
            b.cell_count() == cells,
            b.column_count() == ncols,
            b.budget_mb() == DEFAULT_BUF_SIZE_MB,
    {
        ArrayBlock { cells, ncols, buf_size_mb: DEFAULT_BUF_SIZE_MB }
    }

    /// The same block with a budget of `mb` megabytes.
    pub fn with_buf_size_mb(self, mb: usize) -> (b: ArrayBlock)
        requires
            mb <= MAX_BUF_SIZE_MB,
        ensures
            b.cell_count() == self.cell_count(),
            b.column_count() == self.column_count(),
            b.budget_mb() == mb,
    {
        ArrayBlock { buf_size_mb: mb, ..self }
    }

    /// One empty writer per column: column `c` covers the cells
    /// `c * n .. c * n + n`, where `n` is the number of rows, and flushes at
    /// `budget_mb() * ELEMS_PER_MB` scalars. Fails with `ShapeMismatch` when
    /// the cells do not divide into the columns.
    pub fn split<V: Copy>(self) -> (r: Result<Vec<ArrayColumn<V>>, ColumnError>)
        requires
            self.budget_mb() <= MAX_BUF_SIZE_MB,
        ensures
            splits(self.cell_count(), self.column_count()) <==> r is Ok,
            r is Err ==> r == Err::<Vec<ArrayColumn<V>>, ColumnError>(ColumnError::ShapeMismatch),
            r matches Ok(cols) ==> {
                let n = rows_per_column(self.cell_count(), self.column_count());
                &&& cols@.len() == self.column_count()
                &&& forall|c: int|
                    0 <= c < cols@.len() ==> {
                        &&& (#[trigger] cols@[c]).wf()
                        &&& cols@[c].pending() == Seq::<Entry<V>>::empty()
                        &&& cols@[c].target() == (ColumnDest {
                            offset: (c * n) as usize,
                            nrows: n as usize,
                        })
                        &&& cols@[c].target().fits(self.cell_count())
                        &&& cols@[c].threshold() == self.budget_mb() * ELEMS_PER_MB
                    }
            },
    {
        if self.ncols == 0 {
            if self.cells == 0 {
                return Ok(Vec::new());
            }
            return Err(ColumnError::ShapeMismatch);
        }
        if self.cells % self.ncols != 0 {
            return Err(ColumnError::ShapeMismatch);
        }
        let nrows = self.cells / self.ncols;
        let buf_size = self.buf_size_mb * ELEMS_PER_MB;
        let capacity = buf_size + buf_size / 10;
        let mut ret: Vec<ArrayColumn<V>> = Vec::new();
        let mut offset: usize = 0;
        let mut c: usize = 0;
        proof {
            assert(nrows * self.ncols == self.cells) by (nonlinear_arith)
                requires
                    self.cells % self.ncols == 0,
                    nrows == self.cells / self.ncols,
                    self.ncols > 0,
            ;
        }
        while c < self.ncols
            invariant
                c <= self.ncols,
                nrows * self.ncols == self.cells,
                nrows == rows_per_column(self.cells as nat, self.ncols as nat),
                offset == c * nrows,
                buf_size == self.buf_size_mb * ELEMS_PER_MB,
                ret@.len() == c,
                forall|i: int|
                    0 <= i < c ==> {
                        &&& (#[trigger] ret@[i]).wf()
                        &&& ret@[i].pending() == Seq::<Entry<V>>::empty()
                        &&& ret@[i].target() == (ColumnDest {
                            offset: (i * nrows) as usize,
                            nrows: nrows,
                        })
                        &&& ret@[i].target().fits(self.cells as nat)
                        &&& ret@[i].threshold() == buf_size
                    },
            decreases self.ncols - c,
        {
            proof {
                assert(offset + nrows <= self.cells) by (nonlinear_arith)
                    requires
                        offset == c * nrows,
                        c < self.ncols,
                        nrows * self.ncols == self.cells,
                ;
            }
            let dest = ColumnDest { offset, nrows };
            ret.push(ArrayColumn::with_capacity(dest, buf_size, capacity));
            offset = offset + nrows;
            c = c + 1;
            assert(offset == c * nrows) by (nonlinear_arith)
                requires
                    offset == (c - 1) * nrows + nrows,
            ;
        }
        Ok(ret)
    }
}

} // verus!
