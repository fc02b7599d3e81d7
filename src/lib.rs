//! Engine for a falling-block puzzle game with several independent boards.
//!
//! The settled cells of a board live in a padded bitmap (`grid`), the
//! seven shapes and their orientations in `piece`, the per-board state
//! machine in `board`, the generation-guarded tick scheduling in `timer`,
//! and the coordinator of several boards in `controller`.

pub mod board;
pub mod command;
pub mod controller;
pub mod grid;
pub mod piece;
pub mod timer;
