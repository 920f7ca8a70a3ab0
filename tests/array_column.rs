use array_column::block::{DEFAULT_BUF_SIZE_MB, ELEMS_PER_MB};
use array_column::{ArrayBlock, ArrayColumn, Cell, ColumnDest, ColumnError, Grid};

fn dest(offset: usize, nrows: usize) -> ColumnDest {
    ColumnDest { offset, nrows }
}

#[test]
fn manual_flush_writes_list_and_null() {
    let mut grid: Grid<f64> = Grid::new(2);
    let mut w: ArrayColumn<f64> = ArrayColumn::new(dest(0, 2), 1_000_000);
    w.write(Some(vec![1.0, 2.0]), 0, &mut grid);
    w.write(None, 1, &mut grid);
    assert_eq!(grid.cell(0), &Cell::Empty);
    assert_eq!(grid.cell(1), &Cell::Empty);
    assert_eq!(w.pending_rows(), 2);
    assert_eq!(w.buffered_len(), 2);
    w.flush(&mut grid);
    assert_eq!(grid.cell(0), &Cell::List(vec![1.0, 2.0]));
    assert_eq!(grid.cell(1), &Cell::Null);
    assert_eq!(w.pending_rows(), 0);
    assert_eq!(w.buffered_len(), 0);
    assert!(!w.needs_flush());
}

#[test]
fn threshold_of_one_flushes_inside_write() {
    let mut grid: Grid<f64> = Grid::new(8);
    let mut w: ArrayColumn<f64> = ArrayColumn::new(dest(0, 8), 1);
    w.write(Some(vec![3.0]), 5, &mut grid);
    assert_eq!(grid.cell(5), &Cell::List(vec![3.0]));
    assert_eq!(w.pending_rows(), 0);
    assert_eq!(w.buffered_len(), 0);
}

#[test]
fn threshold_reached_on_third_write() {
    let mut grid: Grid<i64> = Grid::new(3);
    let mut w: ArrayColumn<i64> = ArrayColumn::new(dest(0, 3), 10);
    w.write(Some(vec![1, 2, 3]), 0, &mut grid);
    w.write(Some(vec![4, 5]), 1, &mut grid);
    assert_eq!(w.buffered_len(), 5);
    assert_eq!(grid.cell(0), &Cell::Empty);
    w.write(Some(vec![6, 7, 8, 9, 10]), 2, &mut grid);
    assert_eq!(w.pending_rows(), 0);
    assert_eq!(w.buffered_len(), 0);
    assert_eq!(grid.cell(0), &Cell::List(vec![1, 2, 3]));
    assert_eq!(grid.cell(1), &Cell::List(vec![4, 5]));
    assert_eq!(grid.cell(2), &Cell::List(vec![6, 7, 8, 9, 10]));
}

#[test]
fn threshold_exceeded_flushes_once() {
    let mut grid: Grid<i64> = Grid::new(4);
    let mut w: ArrayColumn<i64> = ArrayColumn::new(dest(0, 4), 4);
    w.write_list(vec![1, 2, 3], 3, &mut grid);
    assert_eq!(grid.cell(3), &Cell::Empty);
    w.write_list(vec![4, 5], 0, &mut grid);
    assert_eq!(w.pending_rows(), 0);
    assert_eq!(grid.cell(3), &Cell::List(vec![1, 2, 3]));
    assert_eq!(grid.cell(0), &Cell::List(vec![4, 5]));
    w.write_list(vec![6], 1, &mut grid);
    assert_eq!(w.pending_rows(), 1);
    assert_eq!(grid.cell(1), &Cell::Empty);
}

#[test]
fn null_write_never_flushes() {
    let mut grid: Grid<f64> = Grid::new(3);
    let mut w: ArrayColumn<f64> = ArrayColumn::new(dest(0, 3), 0);
    w.write(None, 2, &mut grid);
    w.write(None, 0, &mut grid);
    assert_eq!(w.pending_rows(), 2);
    assert_eq!(w.buffered_len(), 0);
    assert_eq!(grid.cell(2), &Cell::Empty);
    w.finalize(&mut grid);
    assert_eq!(grid.cell(0), &Cell::Null);
    assert_eq!(grid.cell(1), &Cell::Empty);
    assert_eq!(grid.cell(2), &Cell::Null);
}

#[test]
fn empty_list_is_not_null() {
    let mut grid: Grid<i64> = Grid::new(2);
    let mut w: ArrayColumn<i64> = ArrayColumn::new(dest(0, 2), 100);
    w.write(Some(vec![]), 1, &mut grid);
    w.write(None, 0, &mut grid);
    w.finalize(&mut grid);
    assert_eq!(grid.cell(1), &Cell::List(vec![]));
    assert_eq!(grid.cell(0), &Cell::Null);
}

#[test]
fn flush_of_empty_writer_changes_nothing() {
    let mut grid: Grid<f64> = Grid::new(2);
    let mut w: ArrayColumn<f64> = ArrayColumn::new(dest(0, 2), 5);
    assert!(!w.needs_flush());
    w.flush(&mut grid);
    w.flush(&mut grid);
    assert_eq!(grid.cell(0), &Cell::Empty);
    assert_eq!(grid.cell(1), &Cell::Empty);
    w.write(Some(vec![1.5]), 1, &mut grid);
    w.flush(&mut grid);
    w.flush(&mut grid);
    assert_eq!(grid.cell(1), &Cell::List(vec![1.5]));
    assert_eq!(grid.cell(0), &Cell::Empty);
}

#[test]
fn writes_land_at_the_column_offset() {
    let mut grid: Grid<i64> = Grid::new(6);
    let mut w: ArrayColumn<i64> = ArrayColumn::new(dest(3, 3), 1000);
    w.write(Some(vec![7]), 0, &mut grid);
    w.write(Some(vec![8, 9]), 2, &mut grid);
    w.finalize(&mut grid);
    assert_eq!(grid.cell(3), &Cell::List(vec![7]));
    assert_eq!(grid.cell(5), &Cell::List(vec![8, 9]));
    assert_eq!(grid.cell(0), &Cell::Empty);
    assert_eq!(grid.cell(4), &Cell::Empty);
}

#[test]
fn order_of_writes_does_not_matter() {
    let rows: Vec<(usize, Option<Vec<i64>>)> = vec![
        (0, Some(vec![1])),
        (1, None),
        (2, Some(vec![2, 3])),
        (3, Some(vec![4, 5, 6])),
    ];
    let orders: Vec<Vec<usize>> = vec![vec![0, 1, 2, 3], vec![3, 2, 1, 0], vec![2, 0, 3, 1]];
    let mut grids: Vec<Grid<i64>> = Vec::new();
    for order in orders {
        let mut grid: Grid<i64> = Grid::new(4);
        let mut w: ArrayColumn<i64> = ArrayColumn::new(dest(0, 4), 3);
        for k in order {
            let (row, val) = rows[k].clone();
            w.write(val, row, &mut grid);
        }
        w.finalize(&mut grid);
        grids.push(grid);
    }
    for g in &grids {
        assert_eq!(g.cell(0), &Cell::List(vec![1]));
        assert_eq!(g.cell(1), &Cell::Null);
        assert_eq!(g.cell(2), &Cell::List(vec![2, 3]));
        assert_eq!(g.cell(3), &Cell::List(vec![4, 5, 6]));
    }
}

#[test]
fn partitions_fill_disjoint_ranges() {
    let mut grid: Grid<f64> = Grid::new(30);
    let w: ArrayColumn<f64> = ArrayColumn::new(dest(0, 30), 4);
    let mut parts = w.partition(3);
    assert_eq!(parts.len(), 3);
    for (p, part) in parts.iter_mut().enumerate() {
        for row in p * 10..p * 10 + 10 {
            if row % 7 == 0 {
                part.write(None, row, &mut grid);
            } else {
                part.write(Some(vec![row as f64, 0.5]), row, &mut grid);
            }
        }
    }
    for part in parts.iter_mut() {
        part.finalize(&mut grid);
        assert_eq!(part.pending_rows(), 0);
    }
    for row in 0..30 {
        if row % 7 == 0 {
            assert_eq!(grid.cell(row), &Cell::Null);
        } else {
            assert_eq!(grid.cell(row), &Cell::List(vec![row as f64, 0.5]));
        }
    }
}

#[test]
fn partitions_are_independent() {
    let mut grid: Grid<i64> = Grid::new(10);
    let mut w: ArrayColumn<i64> = ArrayColumn::new(dest(0, 10), 50);
    w.write(Some(vec![9]), 9, &mut grid);
    let mut parts = w.partition(2);
    for part in &parts {
        assert_eq!(part.dest(), dest(0, 10));
        assert_eq!(part.buf_size(), 50);
        assert_eq!(part.pending_rows(), 0);
    }
    parts[0].write(Some(vec![1, 2]), 0, &mut grid);
    assert_eq!(parts[0].pending_rows(), 1);
    assert_eq!(parts[1].pending_rows(), 0);
    assert_eq!(parts[1].buffered_len(), 0);
    parts[1].finalize(&mut grid);
    assert_eq!(grid.cell(0), &Cell::Empty);
    assert_eq!(grid.cell(9), &Cell::Empty);
    parts[0].finalize(&mut grid);
    assert_eq!(grid.cell(0), &Cell::List(vec![1, 2]));
}

#[test]
fn partition_into_none() {
    let w: ArrayColumn<i64> = ArrayColumn::new(dest(0, 4), 8);
    assert_eq!(w.partition(0).len(), 0);
}

#[test]
fn split_gives_one_writer_per_column() {
    let cols = match ArrayBlock::new(12, 3).split::<f64>() {
        Ok(c) => c,
        Err(e) => panic!("split failed: {:?}", e),
    };
    assert_eq!(cols.len(), 3);
    for (c, col) in cols.iter().enumerate() {
        assert_eq!(col.dest(), dest(4 * c, 4));
        assert_eq!(col.buf_size(), DEFAULT_BUF_SIZE_MB * ELEMS_PER_MB);
        assert_eq!(col.buf_size(), 2_097_152);
        assert_eq!(col.pending_rows(), 0);
    }
}

#[test]
fn split_columns_write_into_their_own_cells() {
    let mut grid: Grid<i64> = Grid::new(6);
    let mut cols = match ArrayBlock::new(grid.len(), 2).with_buf_size_mb(0).split::<i64>() {
        Ok(c) => c,
        Err(e) => panic!("split failed: {:?}", e),
    };
    assert_eq!(cols[1].buf_size(), 0);
    cols[1].write(Some(vec![5]), 2, &mut grid);
    assert_eq!(grid.cell(5), &Cell::List(vec![5]));
    cols[0].write(None, 2, &mut grid);
    cols[0].finalize(&mut grid);
    assert_eq!(grid.cell(2), &Cell::Null);
}

#[test]
fn split_budget_sets_threshold() {
    let cols = match ArrayBlock::new(4, 1).with_buf_size_mb(2).split::<i64>() {
        Ok(c) => c,
        Err(e) => panic!("split failed: {:?}", e),
    };
    assert_eq!(cols.len(), 1);
    assert_eq!(cols[0].buf_size(), 262_144);
    assert_eq!(cols[0].dest(), dest(0, 4));
}

#[test]
fn split_rejects_uneven_shape() {
    let r = ArrayBlock::new(10, 3).split::<f64>();
    assert!(matches!(r, Err(ColumnError::ShapeMismatch)));
    let r = ArrayBlock::new(5, 0).split::<f64>();
    assert!(matches!(r, Err(ColumnError::ShapeMismatch)));
}

#[test]
fn split_of_empty_grid() {
    let r = ArrayBlock::new(0, 0).split::<f64>();
    assert!(matches!(r, Ok(ref v) if v.is_empty()));
    let cols = match ArrayBlock::new(0, 2).split::<f64>() {
        Ok(c) => c,
        Err(e) => panic!("split failed: {:?}", e),
    };
    assert_eq!(cols.len(), 2);
    assert_eq!(cols[1].dest(), dest(0, 0));
}

#[test]
fn push_reports_when_flush_is_due() {
    let mut w: ArrayColumn<i64> = ArrayColumn::new(dest(0, 4), 3);
    assert!(!w.push(Some(vec![1, 2]), 0));
    assert!(!w.push(None, 1));
    assert_eq!(w.buffered_len(), 2);
    assert!(w.push(Some(vec![3]), 2));
    assert_eq!(w.pending_rows(), 3);
    let mut grid: Grid<i64> = Grid::new(4);
    w.try_flush(&mut grid);
    assert_eq!(w.pending_rows(), 0);
    assert_eq!(grid.cell(0), &Cell::List(vec![1, 2]));
    assert_eq!(grid.cell(1), &Cell::Null);
    assert_eq!(grid.cell(2), &Cell::List(vec![3]));
    assert_eq!(grid.cell(3), &Cell::Empty);
}

#[test]
fn try_flush_below_threshold_keeps_rows() {
    let mut grid: Grid<i64> = Grid::new(2);
    let mut w: ArrayColumn<i64> = ArrayColumn::new(dest(0, 2), 3);
    assert!(!w.push(Some(vec![1, 2]), 1));
    w.try_flush(&mut grid);
    assert_eq!(w.pending_rows(), 1);
    assert_eq!(grid.cell(1), &Cell::Empty);
}
