use vstd::prelude::*;

use crate::clock::Clock;
use crate::grid_master::{
    granted, released, same_config, ticked, GridError, GridMaster, Position,
};
use crate::occupancy::grid_count;

verus! {

/// Owns one `GridMaster` per layer and fans each simulation step out over
/// all of them. The layers share no state; layer `i` of the space is
/// `grids[i]`.
pub struct GridDaddy {
    /// The layers, in order: `grids[i].layer == i`.
    pub grids: Vec<GridMaster>,
}

impl GridDaddy {
    /// Every layer is well formed and sits at its own index.
    pub open spec fn wf(&self) -> bool {
        forall|i: int|
            0 <= i < self.grids@.len() ==> (#[trigger] self.grids@[i]).wf()
                && self.grids@[i].layer == i
    }

    /// Build `layers` independent layers, each a `rows x cols` grid of free
    /// cells whose clock starts empty with the given dispatch interval.
    pub fn new(rows: usize, cols: usize, layers: usize, interval: u64) -> (gd: GridDaddy)
        requires
            rows * cols <= usize::MAX,
        ensures
            gd.wf(),
            gd.grids@.len() == layers,
            forall|i: int|
                0 <= i < layers ==> ({
                    let gm = #[trigger] gd.grids@[i];
                    &&& gm.rows == (if rows == 0 || cols == 0 {
                        0int
                    } else {
                        rows as int
                    })
                    &&& gm.cols == (if rows == 0 || cols == 0 {
                        0int
                    } else {
                        cols as int
                    })
                    &&& forall|c: int, r: int|
                        0 <= c < gm.cols && 0 <= r < gm.rows ==> !#[trigger] gm.occupied_at(c, r)
                    &&& gm.clock == (Clock { time: 0, interval, dispatch: false })
                }),
    {
        let mut grids: Vec<GridMaster> = Vec::new();
        let mut i: usize = 0;
        while i < layers
            invariant
                rows * cols <= usize::MAX,
                i <= layers,
                grids@.len() == i,
                forall|j: int|
                    0 <= j < i ==> ({
                        let gm = #[trigger] grids@[j];
                        &&& gm.wf()
                        &&& gm.layer == j
                        &&& gm.rows == (if rows == 0 || cols == 0 {
                            0int
                        } else {
                            rows as int
                        })
                        &&& gm.cols == (if rows == 0 || cols == 0 {
                            0int
                        } else {
                            cols as int
                        })
                        &&& forall|c: int, r: int|
                            0 <= c < gm.cols && 0 <= r < gm.rows ==> !#[trigger] gm.occupied_at(
                                c,
                                r,
                            )
                        &&& gm.clock == (Clock { time: 0, interval, dispatch: false })
                    }),
            decreases layers - i,
        {
            let mut gm = GridMaster::new(rows, cols);
            let ghost gm_init = gm;
            gm.layer = i;
            gm.clock = Clock { time: 0, interval, dispatch: false };
            proof {
                assert(gm.wf());
                assert forall|c: int, r: int|
                    0 <= c < gm.cols && 0 <= r < gm.rows implies !#[trigger] gm.occupied_at(
                    c,
                    r,
                ) by {
                    assert(!gm_init.occupied_at(c, r));
                }
            }
            grids.push(gm);
            i = i + 1;
        }
        GridDaddy { grids }
    }

    /// Advance every layer's clock by `dt`; no grid cell changes. The layers
    /// are independent, so the order in which they tick does not matter.
    pub fn tick_all(&mut self, dt: u64)
        requires
            old(self).wf(),
        ensures
            final(self).wf(),
            final(self).grids@.len() == old(self).grids@.len(),
            forall|i: int|
                0 <= i < old(self).grids@.len() ==> ticked(
                    #[trigger] old(self).grids@[i],
                    final(self).grids@[i],
                    dt,
                ),
    {
        let n = self.grids.len();
        let mut i: usize = 0;
        while i < n
            invariant
                self.grids@.len() == n,
                n == old(self).grids@.len(),
                i <= n,
                old(self).wf(),
                forall|j: int|
                    0 <= j < i ==> ticked(#[trigger] old(self).grids@[j], self.grids@[j], dt)
                        && self.grids@[j].wf(),
                forall|j: int| i <= j < n ==> #[trigger] self.grids@[j] == old(self).grids@[j],
            decreases n - i,
        {
            let ghost snap = self.grids@;
            let mut gm = self.grids.remove(i);
            gm.tick(dt);
            self.grids.insert(i, gm);
            proof {
                assert(self.grids@ =~= snap.update(i as int, self.grids@[i as int]));
            }
            i = i + 1;
        }
        proof {
            assert forall|j: int|
                0 <= j < self.grids@.len() implies (#[trigger] self.grids@[j]).wf()
                && self.grids@[j].layer == j by {
                assert(ticked(old(self).grids@[j], self.grids@[j], dt));
            }
        }
    }

    /// Route a move request to the layer of `position` (spec 4.4): the
    /// outcome and the change to that layer are exactly those of that
    /// layer's `gib_ticket_plis`; every other layer is untouched.
    pub fn request_move(&mut self, position: &Position) -> (r: Option<Position>)
        requires
            old(self).wf(),
            position.2 < old(self).grids@.len(),
        ensures
            final(self).wf(),
            final(self).grids@.len() == old(self).grids@.len(),
            forall|i: int|
                0 <= i < old(self).grids@.len() && i != position.2
                    ==> #[trigger] final(self).grids@[i] == old(self).grids@[i],
            ({
                let pre = old(self).grids@[position.2 as int];
                let post = final(self).grids@[position.2 as int];
                &&& same_config(pre, post)
                &&& (!pre.clock.dispatch ==> r is None && post.cells() == pre.cells())
                &&& ((pre.clock.dispatch && r is None) ==> post.cells() == pre.cells()
                    && !pre.has_free_neighbor(*position))
                &&& ((pre.clock.dispatch && !pre.has_free_neighbor(*position)) ==> r is None)
                &&& (r matches Some(q) ==> pre.clock.dispatch && granted(pre, post, *position, q))
                &&& (r is Some ==> grid_count(post.cells()) == grid_count(pre.cells()) + 1)
                &&& (r is None ==> grid_count(post.cells()) == grid_count(pre.cells()))
            }),
    {
        let idx = position.2;
        let ghost snap = self.grids@;
        let mut gm = self.grids.remove(idx);
        let r = gm.gib_ticket_plis(position);
        self.grids.insert(idx, gm);
        proof {
            assert(self.grids@ =~= snap.update(idx as int, self.grids@[idx as int]));
        }
        r
    }

    /// Route a release to the layer of `position`. A position on a missing
    /// layer is out of bounds; otherwise the outcome and the change to that
    /// layer are exactly those of that layer's `release`, and every other
    /// layer is untouched.
    pub fn release(&mut self, position: &Position) -> (r: Result<(), GridError>)
        requires
            old(self).wf(),
        ensures
            final(self).wf(),
            final(self).grids@.len() == old(self).grids@.len(),
            position.2 >= old(self).grids@.len() ==> r == Err::<(), GridError>(
                GridError::OutOfBounds,
            ) && final(self).grids@ == old(self).grids@,
            position.2 < old(self).grids@.len() ==> (forall|i: int|
                0 <= i < old(self).grids@.len() && i != position.2
                    ==> #[trigger] final(self).grids@[i] == old(self).grids@[i]) && ({
                let pre = old(self).grids@[position.2 as int];
                let post = final(self).grids@[position.2 as int];
                &&& same_config(pre, post)
                &&& (!pre.in_bounds(*position) ==> r == Err::<(), GridError>(
                    GridError::OutOfBounds,
                ) && post.cells() == pre.cells())
                &&& ((pre.in_bounds(*position) && !pre.occupied_at(
                    position.0 as int,
                    position.1 as int,
                )) ==> r == Err::<(), GridError>(GridError::AlreadyFree) && post.cells()
                    == pre.cells())
                &&& ((pre.in_bounds(*position) && pre.occupied_at(
                    position.0 as int,
                    position.1 as int,
                )) ==> r == Ok::<(), GridError>(()) && released(pre, post, *position)
                    && grid_count(post.cells()) + 1 == grid_count(pre.cells()))
            }),
    {
        if position.2 >= self.grids.len() {
            return Err(GridError::OutOfBounds);
        }
        let idx = position.2;
        let ghost snap = self.grids@;
        let mut gm = self.grids.remove(idx);
        let r = gm.release(position);
        self.grids.insert(idx, gm);
        proof {
            assert(self.grids@ =~= snap.update(idx as int, self.grids@[idx as int]));
        }
        r
    }
}

} // verus!
