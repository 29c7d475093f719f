//! An incrementally revealed, fixed-size Gomoku-style board.
//!
//! The crate keeps a logical 13x13 board of cells next to a sparse visual
//! cache of spawned tiles. A periodic spawner sweeps the camera-relative
//! window of candidate coordinates, translates each one onto the board, and
//! spawns a visual tile for every in-bounds coordinate that is not yet
//! cached, so that tiles materialize lazily and are never duplicated.

use vstd::prelude::*;

pub mod board;
pub mod spawner;
pub mod tiles;

verus! {

/// Number of intersections along each side of the logical board.
pub const BOARD_SIZE: usize = 13;

/// How many tile widths must fit across the shorter viewport axis.
pub const VISIBLE_TILES: i32 = 17;

} // verus!
