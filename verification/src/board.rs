//! Boards as unordered collections of pieces, and occupancy queries on them.

use vstd::prelude::*;
use crate::piece::{
    back_rank, in_bounds, pawn_rank, square_in_bounds, Piece, PieceType, Square,
};

verus! {

/// Some piece stands on `sq`.
pub open spec fn occupied(pieces: Seq<Piece>, sq: Square) -> bool {
    exists|i: int| 0 <= i < pieces.len() && (#[trigger] pieces[i]).position == sq
}

/// Some piece of the given team stands on `sq`.
pub open spec fn occupied_by(pieces: Seq<Piece>, sq: Square, team_white: bool) -> bool {
    exists|i: int|
        0 <= i < pieces.len() && (#[trigger] pieces[i]).position == sq && pieces[i].team_white
            == team_white
}

/// Scans the pieces for one standing on `sq`.
pub fn is_occupied(pieces: &Vec<Piece>, sq: Square) -> (found: bool)
    ensures
        found == occupied(pieces@, sq),
{
    let mut i: usize = 0;
    while i < pieces.len()
        invariant
            i <= pieces.len(),
            forall|j: int| 0 <= j < i ==> (#[trigger] pieces@[j]).position != sq,
        decreases pieces.len() - i,
    {
        if pieces[i].position.0 == sq.0 && pieces[i].position.1 == sq.1 {
            return true;
        }
        i += 1;
    }
    false
}

/// Scans the pieces for one of the given team standing on `sq`.
pub fn is_occupied_by(pieces: &Vec<Piece>, sq: Square, team_white: bool) -> (found: bool)
    ensures
        found == occupied_by(pieces@, sq, team_white),
{
    let mut i: usize = 0;
    while i < pieces.len()
        invariant
            i <= pieces.len(),
            forall|j: int|
                0 <= j < i ==> !((#[trigger] pieces@[j]).position == sq && pieces@[j].team_white
                    == team_white),
        decreases pieces.len() - i,
    {
        if pieces[i].position.0 == sq.0 && pieces[i].position.1 == sq.1 && pieces[i].team_white
            == team_white {
            return true;
        }
        i += 1;
    }
    false
}

/// No two pieces stand on the same square.
pub open spec fn distinct_squares(pieces: Seq<Piece>) -> bool {
    forall|i: int, j: int|
        0 <= i < pieces.len() && 0 <= j < pieces.len() && i != j ==> (#[trigger] pieces[i]).position
            != (#[trigger] pieces[j]).position
}

/// Every piece stands on the board.
pub open spec fn all_in_bounds(pieces: Seq<Piece>) -> bool {
    forall|i: int| 0 <= i < pieces.len() ==> in_bounds((#[trigger] pieces[i]).position)
}

/// A board of a game in progress: every piece on the board, no square
/// shared.
pub open spec fn valid_board(pieces: Seq<Piece>) -> bool {
    all_in_bounds(pieces) && distinct_squares(pieces)
}

/// Tells whether `sq` holds none of the first `count` pieces.
fn is_free_among(pieces: &Vec<Piece>, count: usize, sq: Square) -> (free: bool)
    requires
        count <= pieces.len(),
    ensures
        free == !occupied(pieces@.take(count as int), sq),
{
    let mut j: usize = 0;
    while j < count
        invariant
            j <= count <= pieces.len(),
            forall|k: int| 0 <= k < j ==> (#[trigger] pieces@[k]).position != sq,
        decreases count - j,
    {
        if pieces[j].position.0 == sq.0 && pieces[j].position.1 == sq.1 {
            assert(pieces@.take(count as int)[j as int].position == sq);
            return false;
        }
        j += 1;
    }
    assert forall|k: int| 0 <= k < count implies (#[trigger] pieces@.take(count as int)[k]).position
        != sq by {
        assert(pieces@[k].position != sq);
    }
    true
}

/// Tells whether the pieces make a valid board.
pub fn is_valid_board(pieces: &Vec<Piece>) -> (valid: bool)
    ensures
        valid == valid_board(pieces@),
{
    let mut i: usize = 0;
    while i < pieces.len()
        invariant
            i <= pieces.len(),
            valid_board(pieces@.take(i as int)),
        decreases pieces.len() - i,
    {
        let sq: Square = pieces[i].position;
        if !square_in_bounds(sq) {
            assert(!in_bounds(pieces@[i as int].position));
            return false;
        }
        if !is_free_among(pieces, i, sq) {
            proof {
                let k = choose|k: int|
                    0 <= k < i && (#[trigger] pieces@.take(i as int)[k]).position == sq;
                assert(pieces@[k].position == pieces@[i as int].position);
            }
            return false;
        }
        proof {
            let before = pieces@.take(i as int);
            let now = pieces@.take(i + 1);
            assert(now =~= before.push(pieces@[i as int]));
            assert forall|a: int, b: int|
                0 <= a < now.len() && 0 <= b < now.len() && a != b implies (#[trigger] now[a]).position
                != (#[trigger] now[b]).position by {
                if a < i && b < i {
                    assert(before[a].position != before[b].position);
                } else if a < i {
                    assert(before[a].position != sq);
                } else {
                    assert(before[b].position != sq);
                }
            }
            assert forall|a: int| 0 <= a < now.len() implies in_bounds(
                (#[trigger] now[a]).position,
            ) by {
                if a < i {
                    assert(in_bounds(before[a].position));
                }
            }
        }
        i += 1;
    }
    assert(pieces@.take(pieces.len() as int) =~= pieces@);
    true
}

/// The eight pawns of a team, by file.
pub open spec fn pawn_row(team_white: bool) -> Seq<Piece> {
    Seq::new(
        8,
        |file: int|
            Piece {
                team_white,
                piece_type: PieceType::Pawn,
                position: (file as u8, pawn_rank(team_white)),
            },
    )
}

/// A piece of the given kind on a team's back rank.
pub open spec fn officer(team_white: bool, piece_type: PieceType, file: u8) -> Piece {
    Piece { team_white, piece_type, position: (file, back_rank(team_white)) }
}

/// The two white and the two black pieces of a kind that starts on two
/// files.
pub open spec fn officer_pairs(piece_type: PieceType, left: u8, right: u8) -> Seq<Piece> {
    seq![
        officer(true, piece_type, left),
        officer(true, piece_type, right),
        officer(false, piece_type, left),
        officer(false, piece_type, right),
    ]
}

/// The white and the black piece of a kind that starts on one file.
pub open spec fn officer_pair(piece_type: PieceType, file: u8) -> Seq<Piece> {
    seq![officer(true, piece_type, file), officer(false, piece_type, file)]
}

/// The thirty-two pieces at the start of a game: the pawns, then rooks,
/// knights, bishops, queens and kings, white before black within each kind.
pub open spec fn initial_layout() -> Seq<Piece> {
    pawn_row(true) + pawn_row(false) + officer_pairs(PieceType::Rook, 0, 7) + officer_pairs(
        PieceType::Knight,
        1,
        6,
    ) + officer_pairs(PieceType::Bishop, 2, 5) + officer_pair(PieceType::Queen, 3) + officer_pair(
        PieceType::King,
        4,
    )
}

fn push_pawn_row(pieces: &mut Vec<Piece>, team_white: bool)
    ensures
        final(pieces)@ == old(pieces)@ + pawn_row(team_white),
{
    let rank: u8 = if team_white {
        6
    } else {
        1
    };
    let mut file: u8 = 0;
    while file < 8
        invariant
            file <= 8,
            rank == pawn_rank(team_white),
            pieces@ == old(pieces)@ + pawn_row(team_white).take(file as int),
        decreases 8 - file,
    {
        pieces.push(Piece { team_white, piece_type: PieceType::Pawn, position: (file, rank) });
        assert(pawn_row(team_white).take(file + 1) =~= pawn_row(team_white).take(file as int).push(
            pawn_row(team_white)[file as int],
        ));
        file += 1;
    }
    assert(pawn_row(team_white).take(8) =~= pawn_row(team_white));
}

fn make_officer(team_white: bool, piece_type: PieceType, file: u8) -> (piece: Piece)
    ensures
        piece == officer(team_white, piece_type, file),
{
    let rank: u8 = if team_white {
        7
    } else {
        0
    };
    Piece { team_white, piece_type, position: (file, rank) }
}

fn push_officer_pairs(pieces: &mut Vec<Piece>, piece_type: PieceType, left: u8, right: u8)
    ensures
        final(pieces)@ == old(pieces)@ + officer_pairs(piece_type, left, right),
{
    pieces.push(make_officer(true, piece_type, left));
    pieces.push(make_officer(true, piece_type, right));
    pieces.push(make_officer(false, piece_type, left));
    pieces.push(make_officer(false, piece_type, right));
    assert(pieces@ =~= old(pieces)@ + officer_pairs(piece_type, left, right));
}

fn push_officer_pair(pieces: &mut Vec<Piece>, piece_type: PieceType, file: u8)
    ensures
        final(pieces)@ == old(pieces)@ + officer_pair(piece_type, file),
{
    pieces.push(make_officer(true, piece_type, file));
    pieces.push(make_officer(false, piece_type, file));
    assert(pieces@ =~= old(pieces)@ + officer_pair(piece_type, file));
}

/// The initial layout is a valid board of thirty-two pieces.
pub proof fn lemma_initial_layout_valid()
    ensures
        initial_layout().len() == 32,
        valid_board(initial_layout()),
{
    let layout = initial_layout();
    assert(layout.len() == 32);
    assert forall|i: int| 0 <= i < 32 implies in_bounds((#[trigger] layout[i]).position) by {}
    assert forall|i: int, j: int| 0 <= i < 32 && 0 <= j < 32 && i != j implies (
    #[trigger] layout[i]).position != (#[trigger] layout[j]).position by {}
}

/// Sets up the pieces for the start of a game.
pub fn default_pieces() -> (pieces: Vec<Piece>)
    ensures
        pieces@ == initial_layout(),
        pieces@.len() == 32,
        valid_board(pieces@),
{
    let mut pieces: Vec<Piece> = Vec::new();
    push_pawn_row(&mut pieces, true);
    push_pawn_row(&mut pieces, false);
    push_officer_pairs(&mut pieces, PieceType::Rook, 0, 7);
    push_officer_pairs(&mut pieces, PieceType::Knight, 1, 6);
    push_officer_pairs(&mut pieces, PieceType::Bishop, 2, 5);
    push_officer_pair(&mut pieces, PieceType::Queen, 3);
    push_officer_pair(&mut pieces, PieceType::King, 4);
    proof {
        assert(pieces@ =~= initial_layout());
        lemma_initial_layout_valid();
    }
    pieces
}

} // verus!
