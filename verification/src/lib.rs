//! A falling-block puzzle game engine: a 10-wide pile, seven piece kinds with
//! rotation kicks, delayed auto shift, hold, a seven-bag randomizer and garbage lines.
use vstd::prelude::*;

pub mod types;
pub mod tables;
pub mod piece;
pub mod pile;
pub mod timer;
pub mod random;
pub mod queue;
pub mod engine;

pub use engine::Engine;
pub use piece::Piece;
pub use types::{Action, Cell, Config, Coords, Direction, FrameOutcome, HoldPiece, Input, Orientation, PieceKind};

verus! {

/// Number of rows stored in the pile (the visible grid plus the spawn area above it).
pub const PILE_HEIGHT: usize = 40;

/// Number of columns of the pile.
pub const PILE_WIDTH: usize = 10;

/// Number of visible rows; a piece that locks entirely at or above this row ends the game.
pub const GRID_HEIGHT: i32 = 20;

} // verus!
