//! Move legality and move application for a simplified two-player chess
//! variant on an 8x8 board.
//!
//! The rules cover the six standard piece kinds. Castling, en passant,
//! promotion and pin detection are deliberately not part of the rule set:
//! a piece may move even where that leaves its own king under threat.
//!
//! - [`piece`] and [`board`] hold the data: squares, pieces, and boards as
//!   unordered collections of pieces.
//! - [`rules`] states the movement rules as spec functions, [`evaluate`]
//!   computes them, and [`laws`] proves what follows from them.
//! - [`game`] applies moves and keeps the state of a game.
//! - [`notation`] reads square labels, [`render`] draws a board as text.

pub mod piece;
pub mod board;
pub mod rules;
pub mod evaluate;
pub mod game;
pub mod laws;
pub mod notation;
pub mod render;

pub use crate::board::default_pieces;
pub use crate::game::{apply_move, select_piece, Game, MoveError, MoveOutcome, PlayError, SelectError};
pub use crate::notation::{parse_location, position_of_label, read_position, InputError};
pub use crate::piece::{Piece, PieceType, Square};
pub use crate::render::render_board;
