use vstd::prelude::*;

verus! {

/// Number of occupied cells in one row of cells.
pub open spec fn row_count(row: Seq<bool>) -> nat
    decreases row.len(),
{
    if row.len() == 0 {
        0
    } else {
        row_count(row.drop_last()) + (if row.last() {
            1nat
        } else {
            0nat
        })
    }
}

/// Number of occupied cells in a whole grid of cells.
pub open spec fn grid_count(cells: Seq<Seq<bool>>) -> nat
    decreases cells.len(),
{
    if cells.len() == 0 {
        0
    } else {
        grid_count(cells.drop_last()) + row_count(cells.last())
    }
}

/// Writing one cell of a row changes the row's count by that write alone.
pub proof fn lemma_row_count_update(row: Seq<bool>, j: int, v: bool)
    requires
        0 <= j < row.len(),
    ensures
        row_count(row.update(j, v)) + (if row[j] {
            1nat
        } else {
            0nat
        }) == row_count(row) + (if v {
            1nat
        } else {
            0nat
        }),
    decreases row.len(),
{
    let upd = row.update(j, v);
    if j == row.len() - 1 {
        assert(upd.drop_last() =~= row.drop_last());
        assert(upd.last() == v);
    } else {
        assert(upd.drop_last() =~= row.drop_last().update(j, v));
        assert(upd.last() == row.last());
        lemma_row_count_update(row.drop_last(), j, v);
    }
}

/// Writing one cell changes the grid's count by that write alone.
pub proof fn lemma_grid_count_update(cells: Seq<Seq<bool>>, i: int, j: int, v: bool)
    requires
        0 <= i < cells.len(),
        0 <= j < cells[i].len(),
    ensures
        grid_count(cells.update(i, cells[i].update(j, v))) + (if cells[i][j] {
            1nat
        } else {
            0nat
        }) == grid_count(cells) + (if v {
            1nat
        } else {
            0nat
        }),
    decreases cells.len(),
{
    let upd = cells.update(i, cells[i].update(j, v));
    if i == cells.len() - 1 {
        assert(upd.drop_last() =~= cells.drop_last());
        assert(upd.last() == cells[i].update(j, v));
        lemma_row_count_update(cells[i], j, v);
    } else {
        assert(upd.drop_last() =~= cells.drop_last().update(i, cells[i].update(j, v)));
        assert(upd.last() == cells.last());
        assert(cells.drop_last()[i] == cells[i]);
        lemma_grid_count_update(cells.drop_last(), i, j, v);
    }
}

} // verus!
