//! A clocked admission-control and grid-reservation core.
//!
//! Entities occupy cells of a fixed-size 2D grid, one grid per layer. A
//! [`Clock`] throttles how often moves may be granted; a [`GridMaster`] owns one
//! layer's grid and its clock and reserves free neighboring cells for
//! occupants that ask to move; a [`GridDaddy`] fans a simulation step out
//! over all layers; a [`Block`] is the state machine an occupant cycles
//! through while it moves. The host that renders and animates the occupants
//! sits outside this crate and talks to it only through these types.

pub mod block;
pub mod clock;
pub mod config;
pub mod grid_daddy;
pub mod grid_master;
pub mod occupancy;
mod rng;
pub mod storage;

pub use block::{Block, BlockState};
pub use clock::Clock;
pub use config::{Ass_ets, Shape};
pub use grid_daddy::GridDaddy;
pub use grid_master::{Directions, GridError, GridMaster, Position};
pub use storage::GridBlock;
