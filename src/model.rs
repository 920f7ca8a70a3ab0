//! The mathematical model of buffered rows and of what flushing them does to
//! the grid.
use vstd::prelude::*;

use crate::grid::CellModel;

verus! {

/// A buffered logical row: its destination row and its value (`None` for null).
pub type Entry<V> = (usize, Option<Seq<V>>);

/// The cell that a value becomes once flushed.
pub open spec fn cell_of<V>(v: Option<Seq<V>>) -> CellModel<V> {
    match v {
        Some(s) => CellModel::List(s),
        None => CellModel::Null,
    }
}

/// The scalars that a value contributes to the buffer: none for a null.
pub open spec fn scalars_of<V>(v: Option<Seq<V>>) -> Seq<V> {
    match v {
        Some(s) => s,
        None => Seq::empty(),
    }
}

/// The buffer that holds the entries `p`: their scalars, concatenated in order.
pub open spec fn scalars<V>(p: Seq<Entry<V>>) -> Seq<V>
    decreases p.len(),
{
    if p.len() == 0 {
        Seq::empty()
    } else {
        scalars(p.drop_last()) + scalars_of(p.last().1)
    }
}

/// The grid `g` after the entries `p` are written, in order, into the column
/// that starts at cell `offset` (an entry whose cell lies past the grid's end
/// writes nothing).
pub open spec fn apply<V>(g: Seq<CellModel<V>>, offset: nat, p: Seq<Entry<V>>) -> Seq<CellModel<V>>
    decreases p.len(),
{
    if p.len() == 0 {
        g
    } else {
        let before = apply(g, offset, p.drop_last());
        let k = offset + p.last().0;
        if k < before.len() {
            before.update(k, cell_of(p.last().1))
        } else {
            before
        }
    }
}

/// No two entries of `p` target the same row.
pub open spec fn distinct_rows<V>(p: Seq<Entry<V>>) -> bool {
    forall|i: int, j: int| 0 <= i < p.len() && 0 <= j < p.len() && i != j ==> p[i].0 != p[j].0
}

/// The scalars of the first `i` entries are the start of the scalars of all.
pub proof fn lemma_scalars_prefix<V>(p: Seq<Entry<V>>, i: int)
    requires
        0 <= i <= p.len(),
    ensures
        scalars(p.take(i)).len() <= scalars(p).len(),
        scalars(p).subrange(0, scalars(p.take(i)).len() as int) == scalars(p.take(i)),
    decreases p.len(),
{
    if i == p.len() {
        assert(p.take(i) =~= p);
        assert(scalars(p).subrange(0, scalars(p).len() as int) =~= scalars(p));
    } else {
        let q = p.drop_last();
        assert(q.take(i) =~= p.take(i));
        lemma_scalars_prefix(q, i);
        let n = scalars(p.take(i)).len() as int;
        assert(scalars(p).subrange(0, n) =~= scalars(q).subrange(0, n));
    }
}

/// Taking one more entry appends its scalars.
pub proof fn lemma_scalars_step<V>(p: Seq<Entry<V>>, i: int)
    requires
        0 <= i < p.len(),
    ensures
        scalars(p.take(i + 1)) == scalars(p.take(i)) + scalars_of(p[i].1),
{
    assert(p.take(i + 1).drop_last() =~= p.take(i));
}

/// Applying one more entry writes its cell.
pub proof fn lemma_apply_step<V>(g: Seq<CellModel<V>>, offset: nat, p: Seq<Entry<V>>, i: int)
    requires
        0 <= i < p.len(),
    ensures
        offset + p[i].0 < g.len() ==> apply(g, offset, p.take(i + 1)) == apply(
            g,
            offset,
            p.take(i),
        ).update(offset + p[i].0, cell_of(p[i].1)),
{
    lemma_apply_len(g, offset, p.take(i));
    assert(p.take(i + 1).drop_last() =~= p.take(i));
}

/// Applying entries never changes the number of cells.
pub proof fn lemma_apply_len<V>(g: Seq<CellModel<V>>, offset: nat, p: Seq<Entry<V>>)
    ensures
        apply(g, offset, p).len() == g.len(),
    decreases p.len(),
{
    if p.len() > 0 {
        lemma_apply_len(g, offset, p.drop_last());
    }
}

/// Flushing entries in two batches, as a threshold flush followed by a final
/// one does, leaves the grid as flushing them all at once.
pub proof fn law_batches_compose<V>(
    g: Seq<CellModel<V>>,
    offset: nat,
    a: Seq<Entry<V>>,
    b: Seq<Entry<V>>,
)
    ensures
        apply(apply(g, offset, a), offset, b) == apply(g, offset, a + b),
    decreases b.len(),
{
    if b.len() == 0 {
        assert(a + b =~= a);
    } else {
        assert((a + b).drop_last() =~= a + b.drop_last());
        law_batches_compose(g, offset, a, b.drop_last());
    }
}

/// With distinct rows, each cell of the column after the writes is decided by
/// the one entry that targets it, or is left as it was.
pub proof fn lemma_apply_at<V>(g: Seq<CellModel<V>>, offset: nat, p: Seq<Entry<V>>, k: int)
    requires
        distinct_rows(p),
        0 <= k < g.len(),
    ensures
        (exists|i: int| 0 <= i < p.len() && offset + p[i].0 == k) ==> (forall|i: int|
            0 <= i < p.len() && offset + p[i].0 == k ==> apply(g, offset, p)[k] == cell_of(
                #[trigger] p[i].1,
            )),
        !(exists|i: int| 0 <= i < p.len() && offset + p[i].0 == k) ==> apply(g, offset, p)[k]
            == g[k],
    decreases p.len(),
{
    lemma_apply_len(g, offset, p);
    if p.len() > 0 {
        let q = p.drop_last();
        assert(distinct_rows(q));
        lemma_apply_at(g, offset, q, k);
        lemma_apply_len(g, offset, q);
        let last = p.len() - 1;
        if offset + p[last].0 != k {
            assert((exists|i: int| 0 <= i < p.len() && offset + p[i].0 == k) <==> (exists|i: int|
                0 <= i < q.len() && offset + q[i].0 == k)) by {
                if exists|i: int| 0 <= i < p.len() && offset + p[i].0 == k {
                    let i = choose|i: int| 0 <= i < p.len() && offset + p[i].0 == k;
                    assert(i != last);
                    assert(q[i] == p[i]);
                }
                if exists|i: int| 0 <= i < q.len() && offset + q[i].0 == k {
                    let i = choose|i: int| 0 <= i < q.len() && offset + q[i].0 == k;
                    assert(q[i] == p[i]);
                }
            }
            assert forall|i: int| 0 <= i < p.len() && offset + p[i].0 == k implies apply(
                g,
                offset,
                p,
            )[k] == cell_of(#[trigger] p[i].1) by {
                assert(i != last);
                assert(q[i] == p[i]);
                assert(apply(g, offset, q)[k] == cell_of(q[i].1));
            }
        }
    }
}

/// A null entry leaves a null cell at its row, when no other entry of the
/// batch targets that row.
pub proof fn law_null_encoding<V>(g: Seq<CellModel<V>>, offset: nat, p: Seq<Entry<V>>, i: int)
    requires
        distinct_rows(p),
        0 <= i < p.len(),
        p[i].1 is None,
        offset + p[i].0 < g.len(),
    ensures
        apply(g, offset, p)[offset + p[i].0] == CellModel::<V>::Null,
        scalars(p) == scalars(p.remove(i)),
{
    lemma_apply_at(g, offset, p, offset + p[i].0);
    lemma_scalars_remove_null(p, i);
}

/// Dropping a null entry leaves the scalars as they were.
pub proof fn lemma_scalars_remove_null<V>(p: Seq<Entry<V>>, i: int)
    requires
        0 <= i < p.len(),
        p[i].1 is None,
    ensures
        scalars(p) == scalars(p.remove(i)),
    decreases p.len(),
{
    if i == p.len() - 1 {
        assert(p.remove(i) =~= p.drop_last());
        assert(scalars(p) =~= scalars(p.drop_last()));
    } else {
        let q = p.drop_last();
        lemma_scalars_remove_null(q, i);
        assert(p.remove(i).drop_last() =~= q.remove(i));
        assert(p.remove(i).last() == p.last());
    }
}

/// Order independence: writing the same entries in any order, no two of them
/// on the same row, leaves the grid in the same state.
pub proof fn law_order_independence<V>(
    g: Seq<CellModel<V>>,
    offset: nat,
    p: Seq<Entry<V>>,
    q: Seq<Entry<V>>,
)
    requires
        distinct_rows(p),
        distinct_rows(q),
        p.to_multiset() == q.to_multiset(),
    ensures
        apply(g, offset, p) == apply(g, offset, q),
{
    lemma_apply_len(g, offset, p);
    lemma_apply_len(g, offset, q);
    assert forall|k: int| 0 <= k < g.len() implies apply(g, offset, p)[k] == apply(
        g,
        offset,
        q,
    )[k] by {
        lemma_apply_at(g, offset, p, k);
        lemma_apply_at(g, offset, q, k);
        p.to_multiset_ensures();
        q.to_multiset_ensures();
        if exists|i: int| 0 <= i < p.len() && offset + p[i].0 == k {
            let i = choose|i: int| 0 <= i < p.len() && offset + p[i].0 == k;
            assert(p.to_multiset().count(p[i]) > 0);
            assert(q.contains(p[i]));
            let j = choose|j: int| 0 <= j < q.len() && q[j] == p[i];
            assert(offset + q[j].0 == k);
            assert(apply(g, offset, p)[k] == cell_of(p[i].1));
            assert(apply(g, offset, q)[k] == cell_of(q[j].1));
        } else if exists|j: int| 0 <= j < q.len() && offset + q[j].0 == k {
            let j = choose|j: int| 0 <= j < q.len() && offset + q[j].0 == k;
            assert(q.to_multiset().count(q[j]) > 0);
            assert(p.contains(q[j]));
            let i = choose|i: int| 0 <= i < p.len() && p[i] == q[j];
            assert(offset + p[i].0 == k);
            assert(false);
        }
    }
    assert(apply(g, offset, p) =~= apply(g, offset, q));
}

} // verus!
