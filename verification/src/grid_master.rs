use vstd::prelude::*;

use crate::clock::{spec_tick, Clock};
use crate::occupancy::{grid_count, lemma_grid_count_update};
use crate::rng::pick_index;
use crate::storage::{grid_cells, grid_get, grid_new, grid_set, GridBlock};

verus! {

/// A grid coordinate: `(column, row, layer)`. The layer only routes a
/// position to the grid of that layer; within one grid the column and row
/// index the cells.
#[derive(Clone, Copy, PartialEq, Eq, Structural, Debug)]
pub struct Position(pub usize, pub usize, pub usize);

/// The four orthogonal directions a move may take. Diagonal moves are
/// deliberately not part of the design.
#[derive(Clone, Copy, PartialEq, Eq, Structural, Debug)]
pub enum Directions {
    Left,
    Top,
    Right,
    Bottom,
}

/// A caller contract violation reported instead of aborting: the coordinate
/// does not exist, or the cell is not in the state the call assumes.
#[derive(Clone, Copy, PartialEq, Eq, Structural, Debug)]
pub enum GridError {
    /// The position lies outside the grid (or names a missing layer).
    OutOfBounds,
    /// The cell was already free when a release was requested.
    AlreadyFree,
    /// The cell was already occupied when an occupation was requested.
    AlreadyOccupied,
}

/// `q` is one of the four orthogonal neighbors of `p`, on the same layer.
pub open spec fn is_ortho_neighbor(p: Position, q: Position) -> bool {
    &&& q.2 == p.2
    &&& {
        ||| (q.0 == p.0 - 1 && q.1 == p.1)
        ||| (q.0 == p.0 + 1 && q.1 == p.1)
        ||| (q.0 == p.0 && q.1 == p.1 + 1)
        ||| (q.0 == p.0 && q.1 == p.1 - 1)
    }
}

/// Owns one layer's grid of cells and the clock that paces it, along with
/// the layer index and the parameters that map grid coordinates to world
/// coordinates for a host renderer.
pub struct GridMaster {
    /// The stored cells, owned exclusively by this layer.
    pub grid: grid::Grid<GridBlock>,
    /// Number of columns (the range of a position's first coordinate).
    pub cols: usize,
    /// Number of rows (the range of a position's second coordinate).
    pub rows: usize,
    /// Moves are only granted while `clock.dispatch` holds.
    pub clock: Clock,
    /// Which z-slice of the grid space this layer is.
    pub layer: usize,
    /// World units per cell, for coordinate mapping.
    pub scale: i64,
    /// World offset per axis, for coordinate mapping.
    pub offset: (i64, i64, i64),
}

impl GridMaster {
    /// The occupancy of the cells, indexed `cells()[column][row]`.
    pub open spec fn cells(&self) -> Seq<Seq<bool>> {
        grid_cells(self.grid)
    }

    /// The stored cells agree with the stated dimensions.
    pub open spec fn wf(&self) -> bool {
        &&& self.cells().len() == self.cols
        &&& forall|c: int|
            0 <= c < self.cells().len() ==> (#[trigger] self.cells()[c]).len() == self.rows
    }

    /// The position names a cell of this grid.
    pub open spec fn in_bounds(&self, p: Position) -> bool {
        p.0 < self.cols && p.1 < self.rows
    }

    /// The cell at `(c, r)` holds an occupant (only meaningful in bounds).
    pub open spec fn occupied_at(&self, c: int, r: int) -> bool {
        self.cells()[c][r]
    }

    /// The coordinate `(c, r)` names a cell and that cell is free.
    pub open spec fn free_at(&self, c: int, r: int) -> bool {
        &&& 0 <= c < self.cols
        &&& 0 <= r < self.rows
        &&& !self.cells()[c][r]
    }

    /// Some orthogonal neighbor of `p` is a free cell of this grid.
    pub open spec fn has_free_neighbor(&self, p: Position) -> bool {
        ||| self.free_at(p.0 - 1, p.1 as int)
        ||| self.free_at(p.0 + 1, p.1 as int)
        ||| self.free_at(p.0 as int, p.1 + 1)
        ||| self.free_at(p.0 as int, p.1 - 1)
    }
}

/// Everything but the cell contents is unchanged between `pre` and `post`.
pub open spec fn same_config(pre: GridMaster, post: GridMaster) -> bool {
    &&& post.rows == pre.rows
    &&& post.cols == pre.cols
    &&& post.clock == pre.clock
    &&& post.layer == pre.layer
    &&& post.scale == pre.scale
    &&& post.offset == pre.offset
}

/// A successful reservation: `q` is a free orthogonal neighbor of `p` on this
/// layer, and the only change to the grid is that `q`'s cell is now occupied.
pub open spec fn granted(pre: GridMaster, post: GridMaster, p: Position, q: Position) -> bool {
    &&& is_ortho_neighbor(p, q)
    &&& pre.free_at(q.0 as int, q.1 as int)
    &&& q.2 == pre.layer
    &&& post.cells() == pre.cells().update(
        q.0 as int,
        pre.cells()[q.0 as int].update(q.1 as int, true),
    )
}

/// A successful release: `p` names an occupied cell of `pre`, and the only
/// change to the grid is that this cell is now free.
pub open spec fn released(pre: GridMaster, post: GridMaster, p: Position) -> bool {
    &&& pre.in_bounds(p)
    &&& pre.occupied_at(p.0 as int, p.1 as int)
    &&& post.cells() == pre.cells().update(
        p.0 as int,
        pre.cells()[p.0 as int].update(p.1 as int, false),
    )
}

/// The grid is untouched by a tick: only the clock advances.
pub open spec fn ticked(pre: GridMaster, post: GridMaster, dt: u64) -> bool {
    &&& post.cells() == pre.cells()
    &&& post.rows == pre.rows
    &&& post.cols == pre.cols
    &&& post.layer == pre.layer
    &&& post.scale == pre.scale
    &&& post.offset == pre.offset
    &&& post.clock == spec_tick(pre.clock, dt)
}

impl GridMaster {
    /// A fresh layer: a `rows x cols` grid of free cells (empty if either
    /// dimension is zero), a fresh clock, layer zero, and the identity
    /// coordinate mapping.
    pub fn new(rows: usize, cols: usize) -> (gm: GridMaster)
        requires
            rows * cols <= usize::MAX,
        ensures
            gm.wf(),
            gm.rows == (if rows == 0 || cols == 0 {
                0int
            } else {
                rows as int
            }),
            gm.cols == (if rows == 0 || cols == 0 {
                0int
            } else {
                cols as int
            }),
            forall|c: int, r: int|
                0 <= c < gm.cols && 0 <= r < gm.rows ==> !#[trigger] gm.occupied_at(
                    c,
                    r,
                ),
            gm.clock == (Clock { time: 0, interval: 1, dispatch: false }),
            gm.layer == 0,
            gm.scale == 1,
            gm.offset == (0i64, 0i64, 0i64),
    {
        let (r_dim, c_dim): (usize, usize) = if rows == 0 || cols == 0 {
            (0, 0)
        } else {
            (rows, cols)
        };
        proof {
            assert(c_dim * r_dim <= usize::MAX) by (nonlinear_arith)
                requires
                    rows * cols <= usize::MAX,
                    (c_dim == cols && r_dim == rows) || (c_dim == 0 && r_dim == 0),
            ;
        }
        let grid = grid_new(c_dim, r_dim);
        GridMaster {
            grid,
            cols: c_dim,
            rows: r_dim,
            clock: Clock::new(),
            layer: 0,
            scale: 1,
            offset: (0, 0, 0),
        }
    }

    /// Read a cell's occupancy: `Some` exactly for in-bounds coordinates.
    /// This is the host's read access for seeding and debug views.
    pub fn get(&self, col: usize, row: usize) -> (r: Option<bool>)
        requires
            self.wf(),
        ensures
            r == (if col < self.cols && row < self.rows {
                Some(self.occupied_at(col as int, row as int))
            } else {
                Option::<bool>::None
            }),
    {
        grid_get(&self.grid, col, row)
    }

    /// Advance this layer's clock by `dt`; the grid itself is untouched.
    pub fn tick(&mut self, dt: u64)
        requires
            old(self).wf(),
        ensures
            final(self).wf(),
            ticked(*old(self), *final(self), dt),
    {
        self.clock.tick(dt);
    }

    /// Write one cell, keeping everything else as it was.
    fn set_cell(&mut self, col: usize, row: usize, v: bool)
        requires
            old(self).wf(),
            col < old(self).cols,
            row < old(self).rows,
        ensures
            final(self).wf(),
            same_config(*old(self), *final(self)),
            final(self).cells() == old(self).cells().update(
                col as int,
                old(self).cells()[col as int].update(row as int, v),
            ),
    {
        grid_set(&mut self.grid, col, row, v);
    }

    /// The cell at `(x, y)` exists and is free (treating any out-of-range
    /// coordinate as "no such cell").
    fn check_available(&self, x: usize, y: usize) -> (r: bool)
        requires
            self.wf(),
        ensures
            r == self.free_at(x as int, y as int),
    {
        match grid_get(&self.grid, x, y) {
            Some(occupied) => !occupied,
            None => false,
        }
    }

    /// Whether the neighbor of `(x, y)` in the given direction is a free
    /// cell. Coordinate underflow or overflow means "no such cell", never a
    /// wraparound hit.
    fn check_neighbour(&self, x: usize, y: usize, direction: Directions) -> (r: bool)
        requires
            self.wf(),
        ensures
            r == (match direction {
                Directions::Left => self.free_at(x - 1, y as int),
                Directions::Top => self.free_at(x as int, y + 1),
                Directions::Right => self.free_at(x + 1, y as int),
                Directions::Bottom => self.free_at(x as int, y - 1),
            }),
    {
        match direction {
            Directions::Left => x >= 1 && self.check_available(x - 1, y),
            Directions::Top => y < usize::MAX && self.check_available(x, y + 1),
            Directions::Right => x < usize::MAX && self.check_available(x + 1, y),
            Directions::Bottom => y >= 1 && self.check_available(x, y - 1),
        }
    }

    /// Every free orthogonal neighbor of `(x, y)`, as positions on this
    /// layer. The list is empty exactly when no such neighbor exists.
    fn available_positions(&self, x: usize, y: usize) -> (avail: Vec<Position>)
        requires
            self.wf(),
        ensures
            forall|i: int|
                0 <= i < avail@.len() ==> {
                    let q = #[trigger] avail@[i];
                    &&& is_ortho_neighbor(Position(x, y, self.layer), q)
                    &&& self.free_at(q.0 as int, q.1 as int)
                    &&& q.2 == self.layer
                },
            avail@.len() == 0 <==> !self.has_free_neighbor(Position(x, y, self.layer)),
    {
        let mut avail: Vec<Position> = Vec::new();
        if self.check_neighbour(x, y, Directions::Left) {
            avail.push(Position(x - 1, y, self.layer));
        }
        if self.check_neighbour(x, y, Directions::Top) {
            avail.push(Position(x, y + 1, self.layer));
        }
        if self.check_neighbour(x, y, Directions::Right) {
            avail.push(Position(x + 1, y, self.layer));
        }
        if self.check_neighbour(x, y, Directions::Bottom) {
            avail.push(Position(x, y - 1, self.layer));
        }
        avail
    }

    /// Request a move away from `position`: during a dispatch window, reserve
    /// a random free orthogonal neighbor of `position` and return it; the
    /// reservation marks the cell occupied before returning, so no later call
    /// can be granted the same cell. Outside a dispatch window, or with no
    /// free neighbor, nothing changes and the answer is `None`: try again on
    /// a later step.
    pub fn gib_ticket_plis(&mut self, position: &Position) -> (r: Option<Position>)
        requires
            old(self).wf(),
            position.2 == old(self).layer,
        ensures
            final(self).wf(),
            same_config(*old(self), *final(self)),
            !old(self).clock.dispatch ==> r is None && final(self).cells() == old(self).cells(),
            (old(self).clock.dispatch && r is None) ==> final(self).cells() == old(self).cells()
                && !old(self).has_free_neighbor(*position),
            (old(self).clock.dispatch && !old(self).has_free_neighbor(*position)) ==> r is None,
            r matches Some(q) ==> old(self).clock.dispatch && granted(
                *old(self),
                *final(self),
                *position,
                q,
            ),
            r is Some ==> grid_count(final(self).cells()) == grid_count(old(self).cells()) + 1,
            r is None ==> grid_count(final(self).cells()) == grid_count(old(self).cells()),
    {
        if !self.clock.dispatch {
            return None;
        }
        let avail = self.available_positions(position.0, position.1);
        if avail.len() == 0 {
            None
        } else {
            let idx = pick_index(avail.len());
            let q = avail[idx];
            self.set_cell(q.0, q.1, true);
            proof {
                lemma_grid_count_update(old(self).cells(), q.0 as int, q.1 as int, true);
            }
            Some(q)
        }
    }

    /// Free the cell at `position` after its occupant has moved on. Releasing
    /// a cell that does not exist, or one that is already free, is a caller
    /// contract violation and is reported as an error instead of aborting;
    /// the grid is then unchanged.
    pub fn release(&mut self, position: &Position) -> (r: Result<(), GridError>)
        requires
            old(self).wf(),
        ensures
            final(self).wf(),
            same_config(*old(self), *final(self)),
            !old(self).in_bounds(*position) ==> r == Err::<(), GridError>(GridError::OutOfBounds)
                && final(self).cells() == old(self).cells(),
            (old(self).in_bounds(*position) && !old(self).occupied_at(
                position.0 as int,
                position.1 as int,
            )) ==> r == Err::<(), GridError>(GridError::AlreadyFree) && final(self).cells() == old(
                self,
            ).cells(),
            (old(self).in_bounds(*position) && old(self).occupied_at(
                position.0 as int,
                position.1 as int,
            )) ==> r == Ok::<(), GridError>(()) && released(*old(self), *final(self), *position)
                && grid_count(final(self).cells()) + 1 == grid_count(old(self).cells()),
    {
        if position.0 >= self.cols || position.1 >= self.rows {
            return Err(GridError::OutOfBounds);
        }
        match grid_get(&self.grid, position.0, position.1) {
            Some(true) => {
                self.set_cell(position.0, position.1, false);
                proof {
                    lemma_grid_count_update(
                        old(self).cells(),
                        position.0 as int,
                        position.1 as int,
                        false,
                    );
                }
                Ok(())
            },
            _ => Err(GridError::AlreadyFree),
        }
    }

    /// Mark the cell at `position` occupied directly, as the initial seeding
    /// step does. Occupying a missing or already occupied cell is reported as
    /// an error; the grid is then unchanged.
    pub fn occupy(&mut self, position: &Position) -> (r: Result<(), GridError>)
        requires
            old(self).wf(),
        ensures
            final(self).wf(),
            same_config(*old(self), *final(self)),
            !old(self).in_bounds(*position) ==> r == Err::<(), GridError>(GridError::OutOfBounds)
                && final(self).cells() == old(self).cells(),
            (old(self).in_bounds(*position) && old(self).occupied_at(
                position.0 as int,
                position.1 as int,
            )) ==> r == Err::<(), GridError>(GridError::AlreadyOccupied) && final(self).cells()
                == old(self).cells(),
            (old(self).in_bounds(*position) && !old(self).occupied_at(
                position.0 as int,
                position.1 as int,
            )) ==> r == Ok::<(), GridError>(()) && final(self).cells() == old(self).cells().update(
                position.0 as int,
                old(self).cells()[position.0 as int].update(position.1 as int, true),
            ) && grid_count(final(self).cells()) == grid_count(old(self).cells()) + 1,
    {
        if position.0 >= self.cols || position.1 >= self.rows {
            return Err(GridError::OutOfBounds);
        }
        match grid_get(&self.grid, position.0, position.1) {
            Some(false) => {
                self.set_cell(position.0, position.1, true);
                proof {
                    lemma_grid_count_update(
                        old(self).cells(),
                        position.0 as int,
                        position.1 as int,
                        true,
                    );
                }
                Ok(())
            },
            _ => Err(GridError::AlreadyOccupied),
        }
    }

    /// Seed the grid with random occupancy: every cell is independently
    /// marked occupied with probability `num / den`. A cell that is already
    /// occupied stays occupied, whatever is drawn. With `num == 0` the grid
    /// is unchanged; with `num >= den` every cell ends up occupied.
    pub fn seed_random(&mut self, num: usize, den: usize)
        requires
            old(self).wf(),
            1 <= den,
        ensures
            final(self).wf(),
            same_config(*old(self), *final(self)),
            forall|c: int, r: int|
                0 <= c < old(self).cols && 0 <= r < old(self).rows && old(self).occupied_at(c, r)
                    ==> #[trigger] final(self).occupied_at(c, r),
            num == 0 ==> final(self).cells() == old(self).cells(),
            num >= den ==> forall|c: int, r: int|
                0 <= c < old(self).cols && 0 <= r < old(self).rows
                    ==> #[trigger] final(self).occupied_at(c, r),
    {
        let cols = self.cols;
        let rows = self.rows;
        let mut c: usize = 0;
        while c < cols
            invariant
                self.wf(),
                same_config(*old(self), *self),
                self.cols == cols,
                self.rows == rows,
                c <= cols,
                1 <= den,
                forall|ci: int, ri: int|
                    0 <= ci < cols && 0 <= ri < rows && old(self).occupied_at(ci, ri)
                        ==> #[trigger] self.occupied_at(ci, ri),
                num == 0 ==> self.cells() == old(self).cells(),
                num >= den ==> forall|ci: int, ri: int|
                    0 <= ci < c && 0 <= ri < rows ==> #[trigger] self.occupied_at(ci, ri),
            decreases cols - c,
        {
            let mut r: usize = 0;
            while r < rows
                invariant
                    self.wf(),
                    same_config(*old(self), *self),
                    self.cols == cols,
                    self.rows == rows,
                    c < cols,
                    r <= rows,
                    1 <= den,
                    forall|ci: int, ri: int|
                        0 <= ci < cols && 0 <= ri < rows && old(self).occupied_at(ci, ri)
                            ==> #[trigger] self.occupied_at(ci, ri),
                    num == 0 ==> self.cells() == old(self).cells(),
                    num >= den ==> forall|ci: int, ri: int|
                        0 <= ci < c && 0 <= ri < rows ==> #[trigger] self.occupied_at(ci, ri),
                    num >= den ==> forall|ri: int|
                        0 <= ri < r ==> #[trigger] self.occupied_at(c as int, ri),
                decreases rows - r,
            {
                let ghost prev = *self;
                if pick_index(den) < num {
                    self.set_cell(c, r, true);
                }
                proof {
                    assert forall|ci: int, ri: int|
                        0 <= ci < cols && 0 <= ri < rows && prev.occupied_at(ci, ri)
                            implies #[trigger] self.occupied_at(ci, ri) by {
                        if ci == c as int && ri == r as int {
                        } else {
                        }
                    }
                    if num >= den {
                        assert(self.occupied_at(c as int, r as int));
                    }
                }
                r = r + 1;
            }
            c = c + 1;
        }
    }

    /// Map a grid position to world coordinates: each axis is
    /// `scale * coordinate + offset`. Returns `None` exactly when some axis
    /// does not fit in an `i64`.
    pub fn world_of(&self, p: &Position) -> (w: Option<(i64, i64, i64)>)
        ensures
            w is Some <==> {
                &&& i64::MIN <= self.scale * p.0 + self.offset.0 <= i64::MAX
                &&& i64::MIN <= self.scale * p.1 + self.offset.1 <= i64::MAX
                &&& i64::MIN <= self.scale * p.2 + self.offset.2 <= i64::MAX
            },
            w matches Some(v) ==> v.0 == self.scale * p.0 + self.offset.0 && v.1 == self.scale
                * p.1 + self.offset.1 && v.2 == self.scale * p.2 + self.offset.2,
    {
        let x = match axis_world(self.scale, self.offset.0, p.0) {
            Some(v) => v,
            None => {
                return None;
            },
        };
        let y = match axis_world(self.scale, self.offset.1, p.1) {
            Some(v) => v,
            None => {
                return None;
            },
        };
        let z = match axis_world(self.scale, self.offset.2, p.2) {
            Some(v) => v,
            None => {
                return None;
            },
        };
        Some((x, y, z))
    }

    /// Number of rows of the grid.
    pub fn rows(&self) -> (r: usize)
        ensures
            r == self.rows,
    {
        self.rows
    }

    /// Number of columns of the grid.
    pub fn cols(&self) -> (r: usize)
        ensures
            r == self.cols,
    {
        self.cols
    }
}

/// One axis of the coordinate mapping: `scale * coord + offset`, computed
/// exactly in 128-bit arithmetic and handed back only when it fits an `i64`.
fn axis_world(scale: i64, offset: i64, coord: usize) -> (w: Option<i64>)
    ensures
        w is Some <==> i64::MIN <= scale * coord + offset <= i64::MAX,
        w matches Some(v) ==> v == scale * coord + offset,
{
    proof {
        assert(-0x7fff_ffff_ffff_ffff_8000_0000_0000_0000 <= scale * coord
            <= 0x7fff_ffff_ffff_ffff_8000_0000_0000_0000) by (nonlinear_arith)
            requires
                -0x8000_0000_0000_0000 <= scale <= 0x7fff_ffff_ffff_ffff,
                0 <= coord <= 0xffff_ffff_ffff_ffff,
        ;
    }
    let prod: i128 = (scale as i128) * (coord as i128);
    let sum: i128 = prod + (offset as i128);
    if sum < i64::MIN as i128 || sum > i64::MAX as i128 {
        None
    } else {
        Some(sum as i64)
    }
}

/// A run of successful reservations out of one grid: `states[k]` is the grid
/// before the `k`-th call, which asked to move away from `reqs[k]` and was
/// granted `grants[k]`.
pub open spec fn grant_chain(
    states: Seq<GridMaster>,
    reqs: Seq<Position>,
    grants: Seq<Position>,
) -> bool {
    &&& states.len() == reqs.len() + 1
    &&& grants.len() == reqs.len()
    &&& forall|k: int|
        0 <= k < reqs.len() ==> granted(#[trigger] states[k], states[k + 1], reqs[k], grants[k])
            && same_config(states[k], states[k + 1])
}

/// Along a chain of grants the grid keeps its shape.
proof fn lemma_chain_wf(
    states: Seq<GridMaster>,
    reqs: Seq<Position>,
    grants: Seq<Position>,
    k: int,
)
    requires
        states.len() > 0,
        states[0].wf(),
        grant_chain(states, reqs, grants),
        0 <= k < states.len(),
    ensures
        states[k].wf(),
        states[k].cols == states[0].cols,
        states[k].rows == states[0].rows,
    decreases k,
{
    if k > 0 {
        lemma_chain_wf(states, reqs, grants, k - 1);
        let pre = states[k - 1];
        let post = states[k];
        let q = grants[k - 1];
        assert(granted(pre, post, reqs[k - 1], q));
        assert forall|c: int|
            0 <= c < post.cells().len() implies (#[trigger] post.cells()[c]).len()
            == post.rows by {
            if c == q.0 as int {
            } else {
            }
        }
    }
}

/// A cell that a grant occupied stays occupied for the rest of the chain:
/// later grants only ever occupy further cells.
proof fn lemma_chain_keeps_occupied(
    states: Seq<GridMaster>,
    reqs: Seq<Position>,
    grants: Seq<Position>,
    i: int,
    k: int,
)
    requires
        states.len() > 0,
        states[0].wf(),
        grant_chain(states, reqs, grants),
        0 <= i < grants.len(),
        i + 1 <= k < states.len(),
    ensures
        states[k].occupied_at(grants[i].0 as int, grants[i].1 as int),
    decreases k,
{
    lemma_chain_wf(states, reqs, grants, i);
    assert(granted(states[i], states[i + 1], reqs[i], grants[i]));
    if k == i + 1 {
    } else {
        lemma_chain_keeps_occupied(states, reqs, grants, i, k - 1);
        lemma_chain_wf(states, reqs, grants, k - 1);
        assert(granted(states[k - 1], states[k], reqs[k - 1], grants[k - 1]));
    }
}

/// Mutual exclusion: along any sequence of reservations granted out of one
/// grid — such as all the grants of one dispatch window — no cell is ever
/// handed out twice. Each grant occupies its cell before its call returns,
/// and a grant only ever names a cell that was free when its call began.
pub proof fn lemma_no_double_booking(
    states: Seq<GridMaster>,
    reqs: Seq<Position>,
    grants: Seq<Position>,
    i: int,
    j: int,
)
    requires
        states.len() > 0,
        states[0].wf(),
        grant_chain(states, reqs, grants),
        0 <= i < j < grants.len(),
    ensures
        !(grants[i].0 == grants[j].0 && grants[i].1 == grants[j].1),
        grants[i] != grants[j],
{
    lemma_chain_keeps_occupied(states, reqs, grants, i, j);
    assert(granted(states[j], states[j + 1], reqs[j], grants[j]));
    assert(!states[j].occupied_at(grants[j].0 as int, grants[j].1 as int));
}

/// Conservation over a full move: a grant takes one free cell and the
/// matching release frees the old one, so the number of occupied cells after
/// an occupant has moved is exactly what it was before.
pub proof fn lemma_move_conserves(
    g0: GridMaster,
    g1: GridMaster,
    g2: GridMaster,
    p: Position,
    q: Position,
)
    requires
        g0.wf(),
        g1.wf(),
        granted(g0, g1, p, q),
        released(g1, g2, p),
    ensures
        grid_count(g2.cells()) == grid_count(g0.cells()),
{
    lemma_grid_count_update(g0.cells(), q.0 as int, q.1 as int, true);
    lemma_grid_count_update(g1.cells(), p.0 as int, p.1 as int, false);
}

} // verus!
