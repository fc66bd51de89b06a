//! Movement rules of the six piece kinds.
//!
//! Every kind has one or more rules, each a condition on a piece, a target
//! square and the pieces on the board. A move is legal when at least one of
//! the rules of the piece's kind holds. The rules are stated as spec
//! functions; [`Piece::move_conditions`] evaluates them.

use vstd::prelude::*;
use crate::piece::{forward, pawn_rank, Piece, PieceType, Square};
use crate::board::{occupied, occupied_by};

verus! {

/// Number of files between two squares.
pub open spec fn file_distance(a: Square, b: Square) -> int {
    if a.0 >= b.0 {
        a.0 - b.0
    } else {
        b.0 - a.0
    }
}

/// Number of ranks between two squares.
pub open spec fn rank_distance(a: Square, b: Square) -> int {
    if a.1 >= b.1 {
        a.1 - b.1
    } else {
        b.1 - a.1
    }
}

/// `mid` lies strictly between the coordinates `a` and `b`, whichever of the
/// two is the larger.
pub open spec fn strictly_inside(a: u8, b: u8, mid: u8) -> bool {
    a < mid < b || b < mid < a
}

/// `sq` is passed over by a slide from `from` to `to` along a file, a rank or
/// a diagonal. Neither end of the slide is passed over.
pub open spec fn strictly_between(from: Square, to: Square, sq: Square) -> bool {
    ||| from.0 == to.0 && sq.0 == from.0 && strictly_inside(from.1, to.1, sq.1)
    ||| from.1 == to.1 && sq.1 == from.1 && strictly_inside(from.0, to.0, sq.0)
    ||| {
        &&& file_distance(from, to) == rank_distance(from, to)
        &&& file_distance(from, sq) == rank_distance(from, sq)
        &&& strictly_inside(from.0, to.0, sq.0)
        &&& strictly_inside(from.1, to.1, sq.1)
    }
}

/// No piece stands on a square strictly between `from` and `to`.
pub open spec fn path_clear(pieces: Seq<Piece>, from: Square, to: Square) -> bool {
    forall|i: int|
        0 <= i < pieces.len() ==> !strictly_between(from, to, (#[trigger] pieces[i]).position)
}

/// The target holds no piece of the mover's own team.
pub open spec fn landing_allowed(p: Piece, target: Square, pieces: Seq<Piece>) -> bool {
    !occupied_by(pieces, target, p.team_white)
}

/// Pawn rule: one square forward onto an empty square.
pub open spec fn pawn_advance(p: Piece, target: Square, pieces: Seq<Piece>) -> bool {
    &&& target.0 == p.position.0
    &&& target.1 == p.position.1 + forward(p.team_white)
    &&& !occupied(pieces, target)
}

/// Pawn rule: one square diagonally forward onto a square held by the other
/// team.
pub open spec fn pawn_capture(p: Piece, target: Square, pieces: Seq<Piece>) -> bool {
    &&& file_distance(p.position, target) == 1
    &&& target.1 == p.position.1 + forward(p.team_white)
    &&& occupied_by(pieces, target, !p.team_white)
}

/// Pawn rule: two squares forward from the team's pawn rank, over an empty
/// square onto an empty square.
pub open spec fn pawn_double_advance(p: Piece, target: Square, pieces: Seq<Piece>) -> bool {
    &&& p.position.1 == pawn_rank(p.team_white)
    &&& target.0 == p.position.0
    &&& target.1 == p.position.1 + 2 * forward(p.team_white)
    &&& !occupied(pieces, p.square_ahead())
    &&& !occupied(pieces, target)
}

/// Sliding rule: along the piece's file, over empty squares.
pub open spec fn file_slide(p: Piece, target: Square, pieces: Seq<Piece>) -> bool {
    &&& target.0 == p.position.0
    &&& target.1 != p.position.1
    &&& path_clear(pieces, p.position, target)
    &&& landing_allowed(p, target, pieces)
}

/// Sliding rule: along the piece's rank, over empty squares.
pub open spec fn rank_slide(p: Piece, target: Square, pieces: Seq<Piece>) -> bool {
    &&& target.1 == p.position.1
    &&& target.0 != p.position.0
    &&& path_clear(pieces, p.position, target)
    &&& landing_allowed(p, target, pieces)
}

/// Sliding rule: along a diagonal, over empty squares.
pub open spec fn diagonal_slide(p: Piece, target: Square, pieces: Seq<Piece>) -> bool {
    &&& target.1 != p.position.1
    &&& file_distance(p.position, target) == rank_distance(p.position, target)
    &&& path_clear(pieces, p.position, target)
    &&& landing_allowed(p, target, pieces)
}

/// Knight rule: two files and one rank away.
pub open spec fn knight_wide(p: Piece, target: Square, pieces: Seq<Piece>) -> bool {
    &&& file_distance(p.position, target) == 2
    &&& rank_distance(p.position, target) == 1
    &&& landing_allowed(p, target, pieces)
}

/// Knight rule: one file and two ranks away.
pub open spec fn knight_tall(p: Piece, target: Square, pieces: Seq<Piece>) -> bool {
    &&& rank_distance(p.position, target) == 2
    &&& file_distance(p.position, target) == 1
    &&& landing_allowed(p, target, pieces)
}

/// The piece `q` bears on `target`: a pawn by its capture rule alone, a
/// rook, knight, bishop or queen by any of its rules. A king bears on no
/// square.
pub open spec fn threatens(q: Piece, target: Square, pieces: Seq<Piece>) -> bool {
    match q.piece_type {
        PieceType::Pawn => pawn_capture(q, target, pieces),
        PieceType::Rook => file_slide(q, target, pieces) || rank_slide(q, target, pieces),
        PieceType::Knight => knight_wide(q, target, pieces) || knight_tall(q, target, pieces),
        PieceType::Bishop => diagonal_slide(q, target, pieces),
        PieceType::Queen => {
            ||| file_slide(q, target, pieces)
            ||| rank_slide(q, target, pieces)
            ||| diagonal_slide(q, target, pieces)
        },
        PieceType::King => false,
    }
}

/// Some piece of the given team among `attackers` bears on `target`, each
/// judged as the pieces stand on `board`.
pub open spec fn attacked_from(
    attackers: Seq<Piece>,
    board: Seq<Piece>,
    target: Square,
    by_white: bool,
) -> bool {
    exists|i: int|
        0 <= i < attackers.len() && (#[trigger] attackers[i]).team_white == by_white
            && threatens(attackers[i], target, board)
}

/// Some piece of the given team on the board bears on `target`.
pub open spec fn attacked(pieces: Seq<Piece>, target: Square, by_white: bool) -> bool {
    attacked_from(pieces, pieces, target, by_white)
}

/// The board on which a king's step is judged: the king stands on `target`
/// already, and its former square is vacated.
pub open spec fn relocated(pieces: Seq<Piece>, king: Piece, target: Square) -> Seq<Piece> {
    seq![king.moved_to(target)] + pieces.filter(|q: Piece| q.position != king.position)
}

/// King rule: a step to a neighbouring square that holds no piece of the
/// king's team and that no piece of the other team bears on once the king
/// stands there. Every piece of the other team on the board is asked, also
/// one that stands on the king's former square; each is judged on the board
/// of [`relocated`].
pub open spec fn king_step(p: Piece, target: Square, pieces: Seq<Piece>) -> bool {
    &&& target != p.position
    &&& file_distance(p.position, target) <= 1
    &&& rank_distance(p.position, target) <= 1
    &&& landing_allowed(p, target, pieces)
    &&& !attacked_from(pieces, relocated(pieces, p, target), target, !p.team_white)
}

/// The movement rules by name.
#[derive(Clone, Copy, PartialEq, Eq, Structural, Debug)]
pub enum Rule {
    /// A pawn steps one square forward, see [`pawn_advance`].
    PawnAdvance,
    /// A pawn captures diagonally forward, see [`pawn_capture`].
    PawnCapture,
    /// A pawn steps two squares forward, see [`pawn_double_advance`].
    PawnDoubleAdvance,
    /// A slide along the file, see [`file_slide`].
    FileSlide,
    /// A slide along the rank, see [`rank_slide`].
    RankSlide,
    /// A slide along a diagonal, see [`diagonal_slide`].
    DiagonalSlide,
    /// A knight's jump of two files and one rank, see [`knight_wide`].
    KnightWide,
    /// A knight's jump of one file and two ranks, see [`knight_tall`].
    KnightTall,
    /// A king's step, see [`king_step`].
    KingStep,
}

/// The rules of a kind, in the order in which a rule list holds them. A
/// queen moves by the rules of the rook and of the bishop.
pub open spec fn rules_of(piece_type: PieceType) -> Seq<Rule> {
    match piece_type {
        PieceType::Pawn => seq![Rule::PawnAdvance, Rule::PawnCapture, Rule::PawnDoubleAdvance],
        PieceType::Rook => seq![Rule::FileSlide, Rule::RankSlide],
        PieceType::Knight => seq![Rule::KnightWide, Rule::KnightTall],
        PieceType::Bishop => seq![Rule::DiagonalSlide],
        PieceType::Queen => seq![Rule::FileSlide, Rule::RankSlide, Rule::DiagonalSlide],
        PieceType::King => seq![Rule::KingStep],
    }
}

/// The rule holds for the move of `p` to `target`.
pub open spec fn holds(rule: Rule, p: Piece, target: Square, pieces: Seq<Piece>) -> bool {
    match rule {
        Rule::PawnAdvance => pawn_advance(p, target, pieces),
        Rule::PawnCapture => pawn_capture(p, target, pieces),
        Rule::PawnDoubleAdvance => pawn_double_advance(p, target, pieces),
        Rule::FileSlide => file_slide(p, target, pieces),
        Rule::RankSlide => rank_slide(p, target, pieces),
        Rule::DiagonalSlide => diagonal_slide(p, target, pieces),
        Rule::KnightWide => knight_wide(p, target, pieces),
        Rule::KnightTall => knight_tall(p, target, pieces),
        Rule::KingStep => king_step(p, target, pieces),
    }
}

/// The rule list of a move: one entry for each rule of the piece's kind,
/// telling whether the rule holds for the move to `target`.
pub open spec fn conditions(p: Piece, target: Square, pieces: Seq<Piece>) -> Seq<bool> {
    rules_of(p.piece_type).map_values(|rule: Rule| holds(rule, p, target, pieces))
}

/// The move is legal: at least one rule of the piece's kind holds.
pub open spec fn can_move(p: Piece, target: Square, pieces: Seq<Piece>) -> bool {
    conditions(p, target, pieces).contains(true)
}

} // verus!
