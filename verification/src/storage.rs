use vstd::prelude::*;

verus! {

/// One slot of a grid: a cell is either occupied by exactly one entity or
/// free. A cell has no identity beyond its storage position.
#[derive(Clone, Copy, PartialEq, Eq, Structural, Debug)]
pub struct GridBlock {
    pub occupied: bool,
}

impl Default for GridBlock {
    /// Cells start out free.
    fn default() -> (r: Self)
        ensures
            r.occupied == false,
    {
        GridBlock { occupied: false }
    }
}

/// The grid crate's 2D container, which backs a layer's cell storage.
#[verifier::external_type_specification]
#[verifier::external_body]
#[verifier::reject_recursive_types(T)]
pub struct ExGrid<T>(grid::Grid<T>);

/// What a stored grid holds: `grid_cells(g)[r][c]` is the occupancy of the
/// cell at row `r`, column `c`, in the grid crate's own index order
/// (`g.get(r, c)`).
pub uninterp spec fn grid_cells(g: grid::Grid<GridBlock>) -> Seq<Seq<bool>>;

/// Relies on grid::Grid::new: a `rows x cols` grid filled with the cell
/// type's default value, so every cell starts free; if either dimension is
/// zero the grid is empty. It panics only when `rows * cols` overflows
/// `usize`, which the precondition rules out.
#[verifier::external_body]
pub(crate) fn grid_new(rows: usize, cols: usize) -> (g: grid::Grid<GridBlock>)
    requires
        rows * cols <= usize::MAX,
    ensures
        grid_cells(g).len() == (if rows == 0 || cols == 0 {
            0int
        } else {
            rows as int
        }),
        forall|r: int|
            0 <= r < grid_cells(g).len() ==> (#[trigger] grid_cells(g)[r]).len() == cols,
        forall|r: int, c: int|
            0 <= r < grid_cells(g).len() && 0 <= c < cols ==> !(#[trigger] grid_cells(g)[r][c]),
{
    grid::Grid::new(rows, cols)
}

/// Relies on grid::Grid::get: `Some` of the cell at `(row, col)` exactly when
/// both indices are in bounds, `None` otherwise.
#[verifier::external_body]
pub(crate) fn grid_get(g: &grid::Grid<GridBlock>, row: usize, col: usize) -> (r: Option<bool>)
    ensures
        r == (if 0 <= row < grid_cells(*g).len() && col < grid_cells(*g)[row as int].len() {
            Some(grid_cells(*g)[row as int][col as int])
        } else {
            Option::<bool>::None
        }),
{
    g.get(row, col).map(|b| b.occupied)
}

/// Relies on grid::Grid::get_mut: a mutable reference to the cell at
/// `(row, col)`, which exists because the indices are in bounds. Writes the
/// cell's occupancy flag and changes nothing else.
#[verifier::external_body]
pub(crate) fn grid_set(g: &mut grid::Grid<GridBlock>, row: usize, col: usize, v: bool)
    requires
        row < grid_cells(*old(g)).len(),
        col < grid_cells(*old(g))[row as int].len(),
    ensures
        grid_cells(*final(g)) == grid_cells(*old(g)).update(
            row as int,
            grid_cells(*old(g))[row as int].update(col as int, v),
        ),
{
    if let Some(cell) = g.get_mut(row, col) {
        cell.occupied = v;
    }
}

} // verus!
