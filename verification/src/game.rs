//! Applying moves to a board, and the state of a game between two players.

use vstd::prelude::*;
use crate::piece::{in_bounds, Piece, Square};
use crate::board::{default_pieces, initial_layout, occupied, valid_board};
use crate::rules::can_move;
use crate::evaluate::is_legal;
use crate::laws::lemma_board_after_valid;

verus! {

/// `i` is the position in the list of the first piece standing on `sq`.
pub open spec fn is_first_on(pieces: Seq<Piece>, sq: Square, i: int) -> bool {
    &&& 0 <= i < pieces.len()
    &&& pieces[i].position == sq
    &&& forall|j: int| 0 <= j < i ==> (#[trigger] pieces[j]).position != sq
}

/// Position in the list of the first piece standing on `sq`, if there is
/// one.
pub open spec fn first_on(pieces: Seq<Piece>, sq: Square) -> Option<int> {
    if exists|i: int| is_first_on(pieces, sq, i) {
        Some(choose|i: int| is_first_on(pieces, sq, i))
    } else {
        None
    }
}

/// `i` is the position in the list of the first piece equal to `piece`.
pub open spec fn is_first_equal(pieces: Seq<Piece>, piece: Piece, i: int) -> bool {
    &&& 0 <= i < pieces.len()
    &&& pieces[i] == piece
    &&& forall|j: int| 0 <= j < i ==> #[trigger] pieces[j] != piece
}

/// The pieces without the first one equal to `piece`.
pub open spec fn without(pieces: Seq<Piece>, piece: Piece) -> Seq<Piece> {
    if exists|i: int| is_first_equal(pieces, piece, i) {
        pieces.remove(choose|i: int| is_first_equal(pieces, piece, i))
    } else {
        pieces
    }
}

/// The piece that a move of `piece` to `target` takes off the board: the
/// first of the other pieces that stands on `target`.
pub open spec fn captured_piece(pieces: Seq<Piece>, piece: Piece, target: Square) -> Option<
    Piece,
> {
    let others = without(pieces, piece);
    match first_on(others, target) {
        Some(i) => Some(others[i]),
        None => None,
    }
}

/// The board after `piece` has moved to `target`: the piece is taken from
/// the list, then the piece it captures, and the piece on its new square is
/// added at the end.
pub open spec fn board_after(pieces: Seq<Piece>, piece: Piece, target: Square) -> Seq<Piece> {
    let others = without(pieces, piece);
    let kept = match first_on(others, target) {
        Some(i) => others.remove(i),
        None => others,
    };
    kept.push(piece.moved_to(target))
}

/// Why a move was not applied.
#[derive(Clone, Copy, PartialEq, Eq, Structural, Debug)]
pub enum MoveError {
    /// No rule of the piece's kind allows the move.
    IllegalMove,
}

/// Why a square does not name a piece that the player to move may pick.
#[derive(Clone, Copy, PartialEq, Eq, Structural, Debug)]
pub enum SelectError {
    /// No piece stands on the square.
    NoPiece,
    /// The piece on the square belongs to the other player.
    NotYourTurn,
}

/// What a legal move leaves behind: the new board and the captured piece.
#[derive(Clone, Debug, PartialEq, Eq)]
pub struct MoveOutcome {
    pub pieces: Vec<Piece>,
    pub captured: Option<Piece>,
}

/// Finds the first piece standing on `sq`.
pub fn find_on(pieces: &Vec<Piece>, sq: Square) -> (found: Option<usize>)
    ensures
        match found {
            Some(i) => first_on(pieces@, sq) == Some(i as int) && is_first_on(pieces@, sq, i as int),
            None => first_on(pieces@, sq).is_none() && !occupied(pieces@, sq),
        },
{
    let mut i: usize = 0;
    while i < pieces.len()
        invariant
            i <= pieces.len(),
            forall|j: int| 0 <= j < i ==> (#[trigger] pieces@[j]).position != sq,
        decreases pieces.len() - i,
    {
        if pieces[i].position.0 == sq.0 && pieces[i].position.1 == sq.1 {
            proof {
                lemma_first_on_unique(pieces@, sq, i as int);
            }
            return Some(i);
        }
        i += 1;
    }
    None
}

/// Picks the piece on `position` for the player to move. The result is the
/// place in the list of the first piece on that square.
pub fn select_piece(pieces: &Vec<Piece>, position: Square, white_to_move: bool) -> (result:
    Result<usize, SelectError>)
    ensures
        match result {
            Ok(i) => {
                &&& first_on(pieces@, position) == Some(i as int)
                &&& is_first_on(pieces@, position, i as int)
                &&& pieces@[i as int].team_white == white_to_move
            },
            Err(SelectError::NoPiece) => {
                &&& first_on(pieces@, position).is_none()
                &&& !occupied(pieces@, position)
            },
            Err(SelectError::NotYourTurn) => {
                &&& first_on(pieces@, position) matches Some(i)
                &&& is_first_on(pieces@, position, i)
                &&& pieces@[i].team_white != white_to_move
            },
        },
{
    match find_on(pieces, position) {
        None => Err(SelectError::NoPiece),
        Some(i) => if pieces[i].team_white == white_to_move {
            Ok(i)
        } else {
            Err(SelectError::NotYourTurn)
        },
    }
}

/// Finds the first piece equal to `piece`.
fn find_equal(pieces: &Vec<Piece>, piece: &Piece) -> (found: Option<usize>)
    ensures
        match found {
            Some(i) => is_first_equal(pieces@, *piece, i as int),
            None => !pieces@.contains(*piece),
        },
{
    let mut i: usize = 0;
    while i < pieces.len()
        invariant
            i <= pieces.len(),
            forall|j: int| 0 <= j < i ==> #[trigger] pieces@[j] != *piece,
        decreases pieces.len() - i,
    {
        if pieces[i] == *piece {
            return Some(i);
        }
        i += 1;
    }
    None
}

/// Copies the pieces without the first one equal to `piece`.
fn copy_without(pieces: &Vec<Piece>, piece: &Piece) -> (others: Vec<Piece>)
    ensures
        others@ == without(pieces@, *piece),
{
    let skip: usize = match find_equal(pieces, piece) {
        Some(i) => i,
        None => pieces.len(),
    };
    let mut others: Vec<Piece> = Vec::new();
    let mut i: usize = 0;
    while i < pieces.len()
        invariant
            i <= pieces.len(),
            skip <= pieces.len(),
            others@ == if i <= skip {
                pieces@.take(i as int)
            } else {
                pieces@.take(skip as int) + pieces@.subrange(skip + 1, i as int)
            },
        decreases pieces.len() - i,
    {
        if i != skip {
            others.push(pieces[i]);
        }
        i += 1;
    }
    proof {
        if skip < pieces.len() {
            assert(is_first_equal(pieces@, *piece, skip as int));
            lemma_first_equal_unique(pieces@, *piece, skip as int);
            assert(others@ =~= pieces@.remove(skip as int));
        } else {
            assert(others@ =~= pieces@);
            assert forall|k: int| !is_first_equal(pieces@, *piece, k) by {
                if is_first_equal(pieces@, *piece, k) {
                    assert(pieces@.contains(*piece));
                }
            }
        }
    }
    others
}

/// At most one place in the list is that of the first piece equal to
/// `piece`, so `without` removes the piece at that place.
pub proof fn lemma_first_equal_unique(pieces: Seq<Piece>, piece: Piece, i: int)
    requires
        is_first_equal(pieces, piece, i),
    ensures
        without(pieces, piece) == pieces.remove(i),
        forall|k: int| is_first_equal(pieces, piece, k) ==> k == i,
{
    assert forall|k: int| is_first_equal(pieces, piece, k) implies k == i by {
        if k < i {
            assert(pieces[k] == piece);
        } else if i < k {
            assert(pieces[i] == piece);
        }
    }
}

/// At most one place in the list is that of the first piece on `sq`.
pub proof fn lemma_first_on_unique(pieces: Seq<Piece>, sq: Square, i: int)
    requires
        is_first_on(pieces, sq, i),
    ensures
        first_on(pieces, sq) == Some(i),
{
    assert forall|k: int| is_first_on(pieces, sq, k) implies k == i by {
        if k < i {
            assert(pieces[k].position == sq);
        } else if i < k {
            assert(pieces[i].position == sq);
        }
    }
}

/// Applies the move of `piece` to `target` on the given board.
///
/// A legal move yields the new board and the captured piece, if any, and
/// a valid board stays valid. An illegal move yields
/// [`MoveError::IllegalMove`]. The board handed in is never changed.
pub fn apply_move(piece: &Piece, target: Square, pieces: &Vec<Piece>) -> (result: Result<
    MoveOutcome,
    MoveError,
>)
    requires
        in_bounds(piece.position),
        in_bounds(target),
        pieces@.contains(*piece),
    ensures
        match result {
            Ok(outcome) => {
                &&& can_move(*piece, target, pieces@)
                &&& outcome.pieces@ == board_after(pieces@, *piece, target)
                &&& outcome.captured == captured_piece(pieces@, *piece, target)
                &&& valid_board(pieces@) ==> valid_board(outcome.pieces@)
            },
            Err(e) => e == MoveError::IllegalMove && !can_move(*piece, target, pieces@),
        },
{
    if !is_legal(piece, target, pieces) {
        return Err(MoveError::IllegalMove);
    }
    proof {
        if valid_board(pieces@) {
            lemma_board_after_valid(pieces@, *piece, target);
        }
    }
    let mut others = copy_without(pieces, piece);
    let captured = match find_on(&others, target) {
        Some(i) => Some(others.remove(i)),
        None => None,
    };
    others.push(piece.relocate(target));
    Ok(MoveOutcome { pieces: others, captured })
}

/// Why a player's move was not played.
#[derive(Clone, Copy, PartialEq, Eq, Structural, Debug)]
pub enum PlayError {
    /// The square named as origin holds no piece of the player to move.
    Select(SelectError),
    /// The piece may not move to the square named as target.
    Move(MoveError),
}

/// A game in progress: the board, the pieces captured so far in the order
/// of their capture, and the player to move.
#[derive(Clone, Debug, PartialEq, Eq)]
pub struct Game {
    pub pieces: Vec<Piece>,
    pub fallen: Vec<Piece>,
    pub white_to_move: bool,
}

/// What `Game::play` makes of a game, stated on the game's parts: the
/// board, the captured pieces and the player to move.
pub open spec fn play_result(
    pieces: Seq<Piece>,
    white_to_move: bool,
    from: Square,
    to: Square,
) -> Result<Option<Piece>, PlayError> {
    match first_on(pieces, from) {
        None => Err(PlayError::Select(SelectError::NoPiece)),
        Some(i) => if pieces[i].team_white != white_to_move {
            Err(PlayError::Select(SelectError::NotYourTurn))
        } else if !can_move(pieces[i], to, pieces) {
            Err(PlayError::Move(MoveError::IllegalMove))
        } else {
            Ok(captured_piece(pieces, pieces[i], to))
        },
    }
}

impl Game {
    /// The board is valid.
    pub open spec fn well_formed(&self) -> bool {
        valid_board(self.pieces@)
    }

    /// A game at its start: the initial layout, nothing captured, white to
    /// move.
    pub fn new() -> (game: Game)
        ensures
            game.pieces@ == initial_layout(),
            game.fallen@ == Seq::<Piece>::empty(),
            game.white_to_move,
            game.well_formed(),
    {
        Game { pieces: default_pieces(), fallen: Vec::new(), white_to_move: true }
    }

    /// Plays the move of the piece on `from` to `to` for the player to
    /// move.
    ///
    /// When the move is played, the board changes as [`board_after`] says,
    /// the captured piece, if any, is returned and added to the fallen
    /// pieces, and the turn passes to the other player. Otherwise the game
    /// stays as it is.
    pub fn play(&mut self, from: Square, to: Square) -> (result: Result<Option<Piece>, PlayError>)
        requires
            old(self).well_formed(),
            in_bounds(to),
        ensures
            final(self).well_formed(),
            result == play_result(old(self).pieces@, old(self).white_to_move, from, to),
            match result {
                Ok(captured) => {
                    let piece = old(self).pieces@[first_on(old(self).pieces@, from).unwrap()];
                    &&& final(self).pieces@ == board_after(old(self).pieces@, piece, to)
                    &&& final(self).fallen@ == match captured {
                        Some(taken) => old(self).fallen@.push(taken),
                        None => old(self).fallen@,
                    }
                    &&& final(self).white_to_move == !old(self).white_to_move
                },
                Err(_) => {
                    &&& final(self).pieces@ == old(self).pieces@
                    &&& final(self).fallen@ == old(self).fallen@
                    &&& final(self).white_to_move == old(self).white_to_move
                },
            },
    {
        let index = match select_piece(&self.pieces, from, self.white_to_move) {
            Ok(index) => index,
            Err(e) => {
                return Err(PlayError::Select(e));
            },
        };
        let piece: Piece = self.pieces[index];
        assert(self.pieces@.contains(piece));
        match apply_move(&piece, to, &self.pieces) {
            Err(e) => Err(PlayError::Move(e)),
            Ok(outcome) => {
                self.pieces = outcome.pieces;
                match outcome.captured {
                    Some(taken) => {
                        self.fallen.push(taken);
                    },
                    None => {},
                }
                self.white_to_move = !self.white_to_move;
                Ok(outcome.captured)
            },
        }
    }
}

} // verus!
