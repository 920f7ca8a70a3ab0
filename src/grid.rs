//! The destination grid: a flat run of cells, each written at most once by
//! the column writers that own its rows.
use vstd::prelude::*;

verus! {

/// What a cell holds, as seen by contracts.
pub enum CellModel<V> {
    /// Never written.
    Empty,
    /// Written as null.
    Null,
    /// Written as a list of scalars.
    List(Seq<V>),
}

/// A cell of the grid: a sequence handle, a null handle, or nothing yet.
#[derive(Debug, PartialEq)]
pub enum Cell<V> {
    Empty,
    Null,
    List(Vec<V>),
}

impl<V> View for Cell<V> {
    type V = CellModel<V>;

    open spec fn view(&self) -> CellModel<V> {
        match self {
            Cell::Empty => CellModel::Empty,
            Cell::Null => CellModel::Null,
            Cell::List(v) => CellModel::List(v@),
        }
    }
}

/// The shared destination of every column writer. Column `c` of a grid
/// split into columns of `n` rows occupies the cells `c * n .. c * n + n`.
pub struct Grid<V> {
    cells: Vec<Cell<V>>,
}

impl<V> Grid<V> {
    /// The cells, in order.
    pub closed spec fn model(&self) -> Seq<CellModel<V>> {
        Seq::new(self.cells@.len(), |i: int| self.cells@[i]@)
    }

    /// A grid of `len` cells, none of them written.
    pub fn new(len: usize) -> (g: Grid<V>)
        ensures
            g.model().len() == len,
            forall|i: int| 0 <= i < len ==> #[trigger] g.model()[i] == CellModel::<V>::Empty,
    {
        let mut cells: Vec<Cell<V>> = Vec::with_capacity(len);
        let mut i: usize = 0;
        while i < len
            invariant
                i <= len,
                cells@.len() == i,
                forall|j: int| 0 <= j < i ==> #[trigger] cells@[j]@ == CellModel::<V>::Empty,
            decreases len - i,
        {
            cells.push(Cell::Empty);
            i = i + 1;
        }
        let g = Grid { cells };
        assert(forall|j: int| 0 <= j < len ==> #[trigger] g.model()[j] == g.cells@[j]@);
        g
    }

    /// The number of cells.
    pub fn len(&self) -> (n: usize)
        ensures
            n == self.model().len(),
    {
        self.cells.len()
    }

    /// The cell at `idx`.
    pub fn cell(&self, idx: usize) -> (c: &Cell<V>)
        requires
            idx < self.model().len(),
        ensures
            c@ == self.model()[idx as int],
    {
        &self.cells[idx]
    }

    /// Stores `c` in the cell at `idx`.
    pub fn put(&mut self, idx: usize, c: Cell<V>)
        requires
            idx < old(self).model().len(),
        ensures
            final(self).model() == old(self).model().update(idx as int, c@),
    {
        let ghost cv = c@;
        self.cells.set(idx, c);
        assert(self.model() =~= old(self).model().update(idx as int, cv));
    }
}

} // verus!
