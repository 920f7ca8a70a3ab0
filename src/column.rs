//! The per-column buffered writer.
use vstd::prelude::*;

use crate::grid::{Cell, Grid};
use crate::model::{
    apply,
    lemma_apply_step,
    lemma_scalars_prefix,
    lemma_scalars_step,
    scalars,
    scalars_of,
    Entry,
};

verus! {

/// The length recorded for a null row.
pub const NULL_LENGTH: usize = usize::MAX;

/// Where a writer's column lies in the grid: the cells
/// `offset .. offset + nrows`, one per row.
#[derive(Clone, Copy, Debug, PartialEq, Eq, Structural)]
pub struct ColumnDest {
    pub offset: usize,
    pub nrows: usize,
}

impl ColumnDest {
    /// The column lies inside a grid of `len` cells.
    pub open spec fn fits(self, len: nat) -> bool {
        self.offset + self.nrows <= len
    }
}

/// The value carried by a write, as seen by contracts.
pub open spec fn value_of<V>(val: Option<Vec<V>>) -> Option<Seq<V>> {
    match val {
        Some(v) => Some(v@),
        None => None,
    }
}

/// The length recorded for a buffered value.
pub open spec fn length_code<V>(v: Option<Seq<V>>) -> usize {
    match v {
        Some(s) => s.len() as usize,
        None => NULL_LENGTH,
    }
}

/// A buffered writer of list values into one column of a grid.
///
/// Values wait in `buffer`, one length (or `NULL_LENGTH` for a null) and one
/// destination row per logical row, until the buffer holds at least
/// `buf_size` scalars or the writer is flushed.
pub struct ArrayColumn<V> {
    dest: ColumnDest,
    buffer: Vec<V>,
    lengths: Vec<usize>,
    row_idx: Vec<usize>,
    buf_size: usize,
    pending: Ghost<Seq<Entry<V>>>,
}

impl<V: Copy> ArrayColumn<V> {
    /// The buffered logical rows, oldest first.
    pub closed spec fn pending(&self) -> Seq<Entry<V>> {
        self.pending@
    }

    /// The column this writer fills.
    pub closed spec fn target(&self) -> ColumnDest {
        self.dest
    }

    /// The number of buffered scalars at which a write flushes.
    pub closed spec fn threshold(&self) -> nat {
        self.buf_size as nat
    }

    /// The buffered state describes `pending()` exactly.
    pub closed spec fn wf(&self) -> bool {
        let p = self.pending@;
        &&& self.lengths@.len() == p.len()
        &&& self.row_idx@.len() == p.len()
        &&& forall|i: int|
            0 <= i < p.len() ==> {
                &&& self.row_idx@[i] == (#[trigger] p[i]).0
                &&& p[i].0 < self.dest.nrows
                &&& self.lengths@[i] == length_code(p[i].1)
                &&& p[i].1 is Some ==> p[i].1.unwrap().len() < NULL_LENGTH
            }
        &&& self.buffer@ == scalars(p)
    }

    /// An empty writer for the column `dest` that flushes once `buf_size`
    /// scalars are buffered.
    pub fn new(dest: ColumnDest, buf_size: usize) -> (w: ArrayColumn<V>)
        ensures
            w.wf(),
            w.pending() == Seq::<Entry<V>>::empty(),
            w.target() == dest,
            w.threshold() == buf_size,
    {
        Self::with_capacity(dest, buf_size, buf_size)
    }

    /// As `new`, with room for `capacity` scalars reserved up front.
    pub(crate) fn with_capacity(dest: ColumnDest, buf_size: usize, capacity: usize) -> (w:
        ArrayColumn<V>)
        ensures
            w.wf(),
            w.pending() == Seq::<Entry<V>>::empty(),
            w.target() == dest,
            w.threshold() == buf_size,
    {
        ArrayColumn {
            dest,
            buffer: Vec::with_capacity(capacity),
            lengths: Vec::new(),
            row_idx: Vec::new(),
            buf_size,
            pending: Ghost(Seq::empty()),
        }
    }

    /// The column this writer fills.
    pub fn dest(&self) -> (d: ColumnDest)
        ensures
            d == self.target(),
    {
        self.dest
    }

    /// The number of buffered scalars at which a write flushes.
    pub fn buf_size(&self) -> (n: usize)
        ensures
            n == self.threshold(),
    {
        self.buf_size
    }

    /// The number of buffered logical rows.
    pub fn pending_rows(&self) -> (n: usize)
        requires
            self.wf(),
        ensures
            n == self.pending().len(),
    {
        self.lengths.len()
    }

    /// The number of buffered scalars.
    pub fn buffered_len(&self) -> (n: usize)
        requires
            self.wf(),
        ensures
            n == scalars(self.pending()).len(),
    {
        self.buffer.len()
    }

    /// Whether a flush has anything to write.
    pub fn needs_flush(&self) -> (r: bool)
        requires
            self.wf(),
        ensures
            r == (self.pending().len() > 0),
    {
        self.lengths.len() > 0
    }

    /// Writes every buffered logical row into its cell of the grid, in the
    /// order buffered, then empties the buffers (keeping their allocations).
    pub fn flush(&mut self, grid: &mut Grid<V>)
        requires
            old(self).wf(),
            old(self).target().fits(old(grid).model().len()),
        ensures
            final(self).wf(),
            final(self).pending() == Seq::<Entry<V>>::empty(),
            final(self).target() == old(self).target(),
            final(self).threshold() == old(self).threshold(),
            final(grid).model() == apply(
                old(grid).model(),
                old(self).target().offset as nat,
                old(self).pending(),
            ),
            old(self).pending().len() == 0 ==> final(grid).model() == old(grid).model(),
    {
        let nvecs = self.lengths.len();
        if nvecs > 0 {
            let ghost p = self.pending@;
            let ghost g0 = grid.model();
            let ghost off = self.dest.offset as nat;
            let total = self.buffer.len();
            let glen = grid.len();
            let mut start: usize = 0;
            let mut i: usize = 0;
            while i < nvecs
                invariant
                    self.wf(),
                    self.pending@ == p,
                    self.dest.fits(g0.len()),
                    off == self.dest.offset,
                    nvecs == p.len(),
                    total == scalars(p).len(),
                    i <= nvecs,
                    start == scalars(p.take(i as int)).len(),
                    grid.model() == apply(g0, off, p.take(i as int)),
                    grid.model().len() == g0.len(),
                    glen == g0.len(),
                decreases nvecs - i,
            {
                proof {
                    lemma_scalars_step(p, i as int);
                    lemma_scalars_prefix(p, i + 1);
                    lemma_apply_step(g0, off, p, i as int);
                    assert(self.row_idx@[i as int] == p[i as int].0);
                }
                let len = self.lengths[i];
                let idx = self.dest.offset + self.row_idx[i];
                if len == NULL_LENGTH {
                    grid.put(idx, Cell::Null);
                } else {
                    let end = start + len;
                    proof {
                        let whole = scalars(p);
                        let upto = scalars(p.take(i + 1));
                        assert(whole.subrange(start as int, end as int) =~= upto.subrange(
                            start as int,
                            end as int,
                        ));
                        assert(upto.subrange(start as int, end as int) =~= scalars_of(p[i as int].1));
                    }
                    let items = copy_range(&self.buffer, start, end);
                    grid.put(idx, Cell::List(items));
                    start = end;
                }
                i = i + 1;
            }
            proof {
                assert(p.take(nvecs as int) =~= p);
            }
            self.buffer.clear();
            self.lengths.clear();
            self.row_idx.clear();
            self.pending = Ghost(Seq::empty());
        }
    }

    /// Flushes when the buffer holds at least `buf_size` scalars.
    pub fn try_flush(&mut self, grid: &mut Grid<V>)
        requires
            old(self).wf(),
            old(self).target().fits(old(grid).model().len()),
        ensures
            final(self).wf(),
            final(self).target() == old(self).target(),
            final(self).threshold() == old(self).threshold(),
            if scalars(old(self).pending()).len() >= old(self).threshold() {
                &&& final(self).pending() == Seq::<Entry<V>>::empty()
                &&& final(grid).model() == apply(
                    old(grid).model(),
                    old(self).target().offset as nat,
                    old(self).pending(),
                )
            } else {
                &&& final(self).pending() == old(self).pending()
                &&& final(grid).model() == old(grid).model()
            },
    {
        if self.buffer.len() >= self.buf_size {
            self.flush(grid);
        }
    }


    /// Buffers `val` (`None` for null) for the row `row` of the column,
    /// without writing to the grid. Answers whether the threshold test now
    /// asks for a flush: only after a list value, once the buffer holds
    /// `buf_size` scalars or more.
    pub fn push(&mut self, val: Option<Vec<V>>, row: usize) -> (due: bool)
        requires
            old(self).wf(),
            row < old(self).target().nrows,
            val is Some ==> val.unwrap()@.len() < NULL_LENGTH,
        ensures
            final(self).wf(),
            final(self).target() == old(self).target(),
            final(self).threshold() == old(self).threshold(),
            final(self).pending() == old(self).pending().push((row, value_of(val))),
            due == (val is Some && scalars(final(self).pending()).len() >= old(self).threshold()),
            val is None ==> scalars(final(self).pending()) == scalars(old(self).pending()),
    {
        let ghost p = self.pending@;
        let ghost e: Entry<V> = (row, value_of(val));
        let present = val.is_some();
        match val {
            Some(v) => {
                self.lengths.push(v.len());
                let mut k: usize = 0;
                while k < v.len()
                    invariant
                        k <= v@.len(),
                        self.buffer@ == scalars(p) + v@.subrange(0, k as int),
                        self.dest == old(self).dest,
                        self.buf_size == old(self).buf_size,
                        self.lengths@ == old(self).lengths@.push(v@.len() as usize),
                        self.row_idx@ == old(self).row_idx@,
                        self.pending@ == p,
                    decreases v@.len() - k,
                {
                    self.buffer.push(v[k]);
                    k = k + 1;
                    assert(self.buffer@ =~= scalars(p) + v@.subrange(0, k as int));
                }
                proof {
                    assert(v@.subrange(0, v@.len() as int) =~= v@);
                }
            },
            None => {
                self.lengths.push(NULL_LENGTH);
            },
        }
        self.row_idx.push(row);
        self.pending = Ghost(p.push(e));
        proof {
            assert(p.push(e).drop_last() =~= p);
            assert(self.buffer@ =~= scalars(p.push(e)));
            assert forall|i: int| 0 <= i < p.len() implies #[trigger] p.push(e)[i] == p[i] by {}
        }
        present && self.buffer.len() >= self.buf_size
    }

    /// Buffers `val` (`None` for null) for the row `row` of the column.
    ///
    /// A list value is followed by the threshold test, and so flushes every
    /// buffered row, itself included, once the buffer holds `buf_size` scalars
    /// or more. A null adds no scalar and never flushes.
    pub fn write(&mut self, val: Option<Vec<V>>, row: usize, grid: &mut Grid<V>)
        requires
            old(self).wf(),
            old(self).target().fits(old(grid).model().len()),
            row < old(self).target().nrows,
            val is Some ==> val.unwrap()@.len() < NULL_LENGTH,
        ensures
            final(self).wf(),
            final(self).target() == old(self).target(),
            final(self).threshold() == old(self).threshold(),
            ({
                let all = old(self).pending().push((row, value_of(val)));
                if val is Some && scalars(all).len() >= old(self).threshold() {
                    &&& final(self).pending() == Seq::<Entry<V>>::empty()
                    &&& final(grid).model() == apply(
                        old(grid).model(),
                        old(self).target().offset as nat,
                        all,
                    )
                } else {
                    &&& final(self).pending() == all
                    &&& final(grid).model() == old(grid).model()
                }
            }),
            apply(final(grid).model(), old(self).target().offset as nat, final(self).pending())
                == apply(
                old(grid).model(),
                old(self).target().offset as nat,
                old(self).pending().push((row, value_of(val))),
            ),
            val is None ==> scalars(final(self).pending()) == scalars(old(self).pending()),
    {
        if self.push(val, row) {
            self.flush(grid);
        }
    }

    /// Buffers the list `val` for the row `row` of the column, then flushes
    /// if the buffer holds `buf_size` scalars or more.
    pub fn write_list(&mut self, val: Vec<V>, row: usize, grid: &mut Grid<V>)
        requires
            old(self).wf(),
            old(self).target().fits(old(grid).model().len()),
            row < old(self).target().nrows,
            val@.len() < NULL_LENGTH,
        ensures
            final(self).wf(),
            final(self).target() == old(self).target(),
            final(self).threshold() == old(self).threshold(),
            ({
                let all = old(self).pending().push((row, Some(val@)));
                if scalars(all).len() >= old(self).threshold() {
                    &&& final(self).pending() == Seq::<Entry<V>>::empty()
                    &&& final(grid).model() == apply(
                        old(grid).model(),
                        old(self).target().offset as nat,
                        all,
                    )
                } else {
                    &&& final(self).pending() == all
                    &&& final(grid).model() == old(grid).model()
                }
            }),
            apply(final(grid).model(), old(self).target().offset as nat, final(self).pending())
                == apply(
                old(grid).model(),
                old(self).target().offset as nat,
                old(self).pending().push((row, Some(val@))),
            ),
    {
        self.write(Some(val), row, grid);
    }


    /// Flushes whatever is still buffered; called once, when the column has
    /// received its last value.
    pub fn finalize(&mut self, grid: &mut Grid<V>)
        requires
            old(self).wf(),
            old(self).target().fits(old(grid).model().len()),
        ensures
            final(self).wf(),
            final(self).pending() == Seq::<Entry<V>>::empty(),
            final(self).target() == old(self).target(),
            final(self).threshold() == old(self).threshold(),
            final(grid).model() == apply(
                old(grid).model(),
                old(self).target().offset as nat,
                old(self).pending(),
            ),
    {
        self.flush(grid);
    }

    /// `counts` new writers, one per worker, each filling the same column
    /// with the same threshold and buffers of its own, all empty. Whatever
    /// `self` still buffered is dropped.
    pub fn partition(self, counts: usize) -> (r: Vec<ArrayColumn<V>>)
        ensures
            r@.len() == counts,
            forall|i: int|
                0 <= i < counts ==> {
                    &&& (#[trigger] r@[i]).wf()
                    &&& r@[i].pending() == Seq::<Entry<V>>::empty()
                    &&& r@[i].target() == self.target()
                    &&& r@[i].threshold() == self.threshold()
                },
    {
        let mut partitions: Vec<ArrayColumn<V>> = Vec::new();
        let mut n: usize = 0;
        while n < counts
            invariant
                n <= counts,
                partitions@.len() == n,
                forall|i: int|
                    0 <= i < n ==> {
                        &&& (#[trigger] partitions@[i]).wf()
                        &&& partitions@[i].pending() == Seq::<Entry<V>>::empty()
                        &&& partitions@[i].target() == self.target()
                        &&& partitions@[i].threshold() == self.threshold()
                    },
            decreases counts - n,
        {
            partitions.push(ArrayColumn::new(self.dest, self.buf_size));
            n = n + 1;
        }
        partitions
    }
}

/// A fresh vector holding `buf[start..end]`.
fn copy_range<V: Copy>(buf: &Vec<V>, start: usize, end: usize) -> (r: Vec<V>)
    requires
        start <= end <= buf@.len(),
    ensures
        r@ == buf@.subrange(start as int, end as int),
{
    let mut r: Vec<V> = Vec::with_capacity(end - start);
    let mut k: usize = start;
    while k < end
        invariant
            start <= k <= end,
            end <= buf@.len(),
            r@ == buf@.subrange(start as int, k as int),
        decreases end - k,
    {
        r.push(buf[k]);
        k = k + 1;
        assert(r@ =~= buf@.subrange(start as int, k as int));
    }
    r
}

} // verus!
