use vstd::prelude::*;

use crate::grid_master::{granted, released, same_config, GridError, GridMaster, Position};
use crate::occupancy::grid_count;

verus! {

/// Where an occupant is in its move cycle. There is no terminal state:
/// occupants cycle between the two for the life of the process.
#[derive(Clone, Copy, PartialEq, Eq, Structural, Debug)]
pub enum BlockState {
    /// Sitting on its cell, asking for a move each step.
    Idle,
    /// A reservation is held and the host's animation is in flight.
    Animating,
}

/// The state an occupant carries between steps: where it sits, where it is
/// headed (while a move is in flight), and which of the two it is doing.
/// The host owns the entity and its animation; this is the contract the
/// grid core holds it to.
#[derive(Clone, Copy, PartialEq, Eq, Structural, Debug)]
pub struct Block {
    /// The cell this occupant currently holds.
    pub cur_location: Position,
    /// The reserved cell a move is headed for, while one is in flight.
    pub next_location: Option<Position>,
    /// Where the occupant is in its cycle.
    pub state: BlockState,
}

impl Block {
    /// A pending target is held exactly while a move is in flight.
    pub open spec fn wf(&self) -> bool {
        match self.state {
            BlockState::Idle => self.next_location is None,
            BlockState::Animating => self.next_location is Some,
        }
    }

    /// An occupant starts idle on its cell, with no move in flight.
    pub fn new(location: Position) -> (b: Block)
        ensures
            b.wf(),
            b.cur_location == location,
            b.next_location is None,
            b.state == BlockState::Idle,
    {
        Block { cur_location: location, next_location: None, state: BlockState::Idle }
    }

    /// One idle step: ask the grid for a move away from the current cell.
    /// When one is granted the block turns `Animating` toward the reserved
    /// cell; otherwise nothing changes and the block asks again on a later
    /// step.
    pub fn try_start_move(&mut self, gm: &mut GridMaster) -> (started: bool)
        requires
            old(self).wf(),
            old(self).state == BlockState::Idle,
            old(gm).wf(),
            old(self).cur_location.2 == old(gm).layer,
        ensures
            final(self).wf(),
            final(gm).wf(),
            same_config(*old(gm), *final(gm)),
            final(self).cur_location == old(self).cur_location,
            !started ==> *final(self) == *old(self) && final(gm).cells() == old(gm).cells(),
            !started && old(gm).clock.dispatch ==> !old(gm).has_free_neighbor(
                old(self).cur_location,
            ),
            !old(gm).clock.dispatch ==> !started,
            (old(gm).clock.dispatch && !old(gm).has_free_neighbor(old(self).cur_location))
                ==> !started,
            started ==> final(self).state == BlockState::Animating && (final(self).next_location matches Some(q) && granted(
                *old(gm),
                *final(gm),
                old(self).cur_location,
                q,
            )),
            started ==> grid_count(final(gm).cells()) == grid_count(old(gm).cells()) + 1,
            !started ==> grid_count(final(gm).cells()) == grid_count(old(gm).cells()),
    {
        let next = gm.gib_ticket_plis(&self.cur_location);
        match next {
            Some(q) => {
                self.next_location = Some(q);
                self.state = BlockState::Animating;
                true
            },
            None => false,
        }
    }

    /// The end of a move, once the host reports the animation has reached
    /// its target: free the old cell, step onto the reserved one, and turn
    /// idle again. If the old cell is missing or already free — a caller
    /// contract violation — the error is reported and nothing changes.
    pub fn finish_move(&mut self, gm: &mut GridMaster) -> (r: Result<(), GridError>)
        requires
            old(self).wf(),
            old(self).state == BlockState::Animating,
            old(gm).wf(),
        ensures
            final(self).wf(),
            final(gm).wf(),
            same_config(*old(gm), *final(gm)),
            ({
                let p = old(self).cur_location;
                &&& (old(gm).in_bounds(p) && old(gm).occupied_at(p.0 as int, p.1 as int)) ==> r
                    == Ok::<(), GridError>(()) && released(*old(gm), *final(gm), p) && final(self).state == BlockState::Idle && final(self).cur_location == old(self).next_location->Some_0 && final(self).next_location is None && grid_count(
                    final(gm).cells(),
                ) + 1 == grid_count(old(gm).cells())
                &&& !(old(gm).in_bounds(p) && old(gm).occupied_at(p.0 as int, p.1 as int)) ==> r
                    is Err && *final(self) == *old(self) && final(gm).cells() == old(gm).cells()
                &&& !old(gm).in_bounds(p) ==> r == Err::<(), GridError>(GridError::OutOfBounds)
                &&& (old(gm).in_bounds(p) && !old(gm).occupied_at(p.0 as int, p.1 as int)) ==> r
                    == Err::<(), GridError>(GridError::AlreadyFree)
            }),
    {
        match gm.release(&self.cur_location) {
            Ok(()) => {
                if let Some(q) = self.next_location {
                    self.cur_location = q;
                }
                self.next_location = None;
                self.state = BlockState::Idle;
                Ok(())
            },
            Err(e) => Err(e),
        }
    }
}

} // verus!
