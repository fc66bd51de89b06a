//! Squares, piece kinds and pieces.

use vstd::prelude::*;

verus! {

/// A square of the board as `(file, rank)`, both counted from zero.
pub type Square = (u8, u8);

/// Number of files and of ranks on the board.
pub const BOARD_SIZE: u8 = 8;

/// A square lies on the board when both coordinates are below [`BOARD_SIZE`].
pub open spec fn in_bounds(sq: Square) -> bool {
    sq.0 < BOARD_SIZE && sq.1 < BOARD_SIZE
}

/// Rank direction in which a team advances: white moves toward rank 0,
/// black toward rank 7.
pub open spec fn forward(team_white: bool) -> int {
    if team_white {
        -1
    } else {
        1
    }
}

/// Rank on which a team sets up its pawns.
pub open spec fn pawn_rank(team_white: bool) -> u8 {
    if team_white {
        6
    } else {
        1
    }
}

/// Rank on which a team sets up its other pieces.
pub open spec fn back_rank(team_white: bool) -> u8 {
    if team_white {
        7
    } else {
        0
    }
}

/// The six kinds of pieces.
#[derive(Clone, Copy, PartialEq, Eq, Structural, Debug)]
pub enum PieceType {
    Pawn,
    Rook,
    Knight,
    Bishop,
    King,
    Queen,
}

/// A piece: its team, its kind and the square it stands on.
///
/// A piece is a plain value. Moving it yields a new value, see
/// [`Piece::moved_to`].
#[derive(Clone, Copy, Eq, Debug)]
pub struct Piece {
    pub team_white: bool,
    pub piece_type: PieceType,
    pub position: Square,
}

impl PartialEq for Piece {
    fn eq(&self, other: &Self) -> (equal: bool) {
        self.team_white == other.team_white && self.piece_type == other.piece_type
            && self.position.0 == other.position.0 && self.position.1 == other.position.1
    }
}

impl vstd::std_specs::cmp::PartialEqSpecImpl for Piece {
    open spec fn obeys_eq_spec() -> bool {
        true
    }

    open spec fn eq_spec(&self, other: &Self) -> bool {
        self.team_white == other.team_white && self.piece_type == other.piece_type
            && self.position.0 == other.position.0 && self.position.1 == other.position.1
    }
}

impl Piece {
    /// The same piece standing on `target`.
    pub open spec fn moved_to(self, target: Square) -> Piece {
        Piece { team_white: self.team_white, piece_type: self.piece_type, position: target }
    }

    /// The square directly in front of this piece.
    pub open spec fn square_ahead(self) -> Square {
        (self.position.0, (self.position.1 + forward(self.team_white)) as u8)
    }

    /// Builds the piece standing on `target` in place of its current square.
    pub fn relocate(&self, target: Square) -> (moved: Piece)
        ensures
            moved == self.moved_to(target),
    {
        Piece { team_white: self.team_white, piece_type: self.piece_type, position: target }
    }
}

/// Executable test of [`in_bounds`].
pub fn square_in_bounds(sq: Square) -> (inside: bool)
    ensures
        inside == in_bounds(sq),
{
    sq.0 < BOARD_SIZE && sq.1 < BOARD_SIZE
}

} // verus!
