//! Evaluation of the movement rules on a board held in a `Vec`.

use vstd::prelude::*;
use crate::piece::{forward, in_bounds, Piece, PieceType, Square};
use crate::board::{is_occupied, is_occupied_by};
use crate::rules::{
    attacked, attacked_from, can_move, conditions, diagonal_slide, file_distance, file_slide, holds, king_step,
    knight_tall, knight_wide, landing_allowed, path_clear, pawn_advance, pawn_capture,
    pawn_double_advance, rank_distance, rank_slide, relocated, rules_of, strictly_between,
    strictly_inside, threatens, Rule,
};

verus! {

fn file_gap(a: Square, b: Square) -> (gap: u8)
    ensures
        gap == file_distance(a, b),
{
    if a.0 >= b.0 {
        a.0 - b.0
    } else {
        b.0 - a.0
    }
}

fn rank_gap(a: Square, b: Square) -> (gap: u8)
    ensures
        gap == rank_distance(a, b),
{
    if a.1 >= b.1 {
        a.1 - b.1
    } else {
        b.1 - a.1
    }
}

fn lies_inside(a: u8, b: u8, mid: u8) -> (inside: bool)
    ensures
        inside == strictly_inside(a, b, mid),
{
    (a < mid && mid < b) || (b < mid && mid < a)
}

fn lies_between(from: Square, to: Square, sq: Square) -> (between: bool)
    ensures
        between == strictly_between(from, to, sq),
{
    if from.0 == to.0 && sq.0 == from.0 && lies_inside(from.1, to.1, sq.1) {
        true
    } else if from.1 == to.1 && sq.1 == from.1 && lies_inside(from.0, to.0, sq.0) {
        true
    } else {
        file_gap(from, to) == rank_gap(from, to) && file_gap(from, sq) == rank_gap(from, sq)
            && lies_inside(from.0, to.0, sq.0) && lies_inside(from.1, to.1, sq.1)
    }
}

/// Tells whether a slide from `from` to `to` passes over empty squares only.
pub fn path_is_clear(pieces: &Vec<Piece>, from: Square, to: Square) -> (clear: bool)
    ensures
        clear == path_clear(pieces@, from, to),
{
    let mut i: usize = 0;
    while i < pieces.len()
        invariant
            i <= pieces.len(),
            forall|j: int|
                0 <= j < i ==> !strictly_between(from, to, (#[trigger] pieces@[j]).position),
        decreases pieces.len() - i,
    {
        if lies_between(from, to, pieces[i].position) {
            return false;
        }
        i += 1;
    }
    true
}

fn may_land(p: &Piece, target: Square, pieces: &Vec<Piece>) -> (allowed: bool)
    ensures
        allowed == landing_allowed(*p, target, pieces@),
{
    !is_occupied_by(pieces, target, p.team_white)
}

/// Rank that lies `steps` ahead of the piece; it may lie off the board.
fn rank_ahead(p: &Piece, steps: i16) -> (rank: i16)
    requires
        0 <= steps <= 2,
    ensures
        rank == p.position.1 + steps * forward(p.team_white),
{
    if p.team_white {
        p.position.1 as i16 - steps
    } else {
        p.position.1 as i16 + steps
    }
}

fn is_pawn_advance(p: &Piece, target: Square, pieces: &Vec<Piece>) -> (holds: bool)
    ensures
        holds == pawn_advance(*p, target, pieces@),
{
    target.0 == p.position.0 && target.1 as i16 == rank_ahead(p, 1) && !is_occupied(
        pieces,
        target,
    )
}

fn is_pawn_capture(p: &Piece, target: Square, pieces: &Vec<Piece>) -> (holds: bool)
    ensures
        holds == pawn_capture(*p, target, pieces@),
{
    file_gap(p.position, target) == 1 && target.1 as i16 == rank_ahead(p, 1) && is_occupied_by(
        pieces,
        target,
        !p.team_white,
    )
}

fn is_pawn_double_advance(p: &Piece, target: Square, pieces: &Vec<Piece>) -> (holds: bool)
    ensures
        holds == pawn_double_advance(*p, target, pieces@),
{
    let home: u8 = if p.team_white {
        6
    } else {
        1
    };
    if p.position.1 != home {
        return false;
    }
    let ahead: Square = if p.team_white {
        (p.position.0, 5)
    } else {
        (p.position.0, 2)
    };
    target.0 == p.position.0 && target.1 as i16 == rank_ahead(p, 2) && !is_occupied(pieces, ahead)
        && !is_occupied(pieces, target)
}

fn is_file_slide(p: &Piece, target: Square, pieces: &Vec<Piece>) -> (holds: bool)
    ensures
        holds == file_slide(*p, target, pieces@),
{
    target.0 == p.position.0 && target.1 != p.position.1 && path_is_clear(
        pieces,
        p.position,
        target,
    ) && may_land(p, target, pieces)
}

fn is_rank_slide(p: &Piece, target: Square, pieces: &Vec<Piece>) -> (holds: bool)
    ensures
        holds == rank_slide(*p, target, pieces@),
{
    target.1 == p.position.1 && target.0 != p.position.0 && path_is_clear(
        pieces,
        p.position,
        target,
    ) && may_land(p, target, pieces)
}

fn is_diagonal_slide(p: &Piece, target: Square, pieces: &Vec<Piece>) -> (holds: bool)
    ensures
        holds == diagonal_slide(*p, target, pieces@),
{
    target.1 != p.position.1 && file_gap(p.position, target) == rank_gap(p.position, target)
        && path_is_clear(pieces, p.position, target) && may_land(p, target, pieces)
}

fn is_knight_wide(p: &Piece, target: Square, pieces: &Vec<Piece>) -> (holds: bool)
    ensures
        holds == knight_wide(*p, target, pieces@),
{
    file_gap(p.position, target) == 2 && rank_gap(p.position, target) == 1 && may_land(
        p,
        target,
        pieces,
    )
}

fn is_knight_tall(p: &Piece, target: Square, pieces: &Vec<Piece>) -> (holds: bool)
    ensures
        holds == knight_tall(*p, target, pieces@),
{
    rank_gap(p.position, target) == 2 && file_gap(p.position, target) == 1 && may_land(
        p,
        target,
        pieces,
    )
}

fn does_threaten(q: &Piece, target: Square, pieces: &Vec<Piece>) -> (holds: bool)
    ensures
        holds == threatens(*q, target, pieces@),
{
    match q.piece_type {
        PieceType::Pawn => is_pawn_capture(q, target, pieces),
        PieceType::Rook => is_file_slide(q, target, pieces) || is_rank_slide(q, target, pieces),
        PieceType::Knight => is_knight_wide(q, target, pieces) || is_knight_tall(
            q,
            target,
            pieces,
        ),
        PieceType::Bishop => is_diagonal_slide(q, target, pieces),
        PieceType::Queen => is_file_slide(q, target, pieces) || is_rank_slide(q, target, pieces)
            || is_diagonal_slide(q, target, pieces),
        PieceType::King => false,
    }
}

/// Tells whether some piece of the given team among `attackers` bears on
/// `target`, each judged as the pieces stand on `board`.
pub fn is_attacked_from(
    attackers: &Vec<Piece>,
    board: &Vec<Piece>,
    target: Square,
    by_white: bool,
) -> (found: bool)
    ensures
        found == attacked_from(attackers@, board@, target, by_white),
{
    let mut i: usize = 0;
    while i < attackers.len()
        invariant
            i <= attackers.len(),
            forall|j: int|
                0 <= j < i ==> !((#[trigger] attackers@[j]).team_white == by_white && threatens(
                    attackers@[j],
                    target,
                    board@,
                )),
        decreases attackers.len() - i,
    {
        if attackers[i].team_white == by_white && does_threaten(&attackers[i], target, board) {
            return true;
        }
        i += 1;
    }
    false
}

/// Tells whether some piece of the given team on the board bears on
/// `target`.
pub fn is_attacked(pieces: &Vec<Piece>, target: Square, by_white: bool) -> (found: bool)
    ensures
        found == attacked(pieces@, target, by_white),
{
    is_attacked_from(pieces, pieces, target, by_white)
}

/// Builds the board on which a king's step to `target` is judged.
pub fn relocate_king(pieces: &Vec<Piece>, king: &Piece, target: Square) -> (board: Vec<Piece>)
    ensures
        board@ == relocated(pieces@, *king, target),
{
    let ghost stays = |q: Piece| q.position != king.position;
    let mut board: Vec<Piece> = Vec::new();
    board.push(king.relocate(target));
    let mut i: usize = 0;
    proof {
        assert(pieces@.take(0) =~= Seq::<Piece>::empty());
        assert(pieces@.take(0).filter(stays) =~= Seq::<Piece>::empty()) by {
            reveal(Seq::filter);
        }
        assert(board@ =~= seq![king.moved_to(target)] + pieces@.take(0).filter(stays));
    }
    while i < pieces.len()
        invariant
            i <= pieces.len(),
            stays == |q: Piece| q.position != king.position,
            board@ == seq![king.moved_to(target)] + pieces@.take(i as int).filter(stays),
        decreases pieces.len() - i,
    {
        let q: Piece = pieces[i];
        proof {
            assert(pieces@.take(i + 1) =~= pieces@.take(i as int).push(q));
            pieces@.take(i as int).lemma_filter_push(q, stays);
        }
        if !(q.position.0 == king.position.0 && q.position.1 == king.position.1) {
            board.push(q);
            assert(stays(q));
            assert(board@ =~= seq![king.moved_to(target)] + pieces@.take(i + 1).filter(stays));
        } else {
            assert(!stays(q));
        }
        i += 1;
    }
    proof {
        assert(pieces@.take(pieces.len() as int) =~= pieces@);
    }
    board
}

fn is_king_step(p: &Piece, target: Square, pieces: &Vec<Piece>) -> (holds: bool)
    ensures
        holds == king_step(*p, target, pieces@),
{
    if target.0 == p.position.0 && target.1 == p.position.1 {
        return false;
    }
    if file_gap(p.position, target) > 1 || rank_gap(p.position, target) > 1 {
        return false;
    }
    if !may_land(p, target, pieces) {
        return false;
    }
    let board = relocate_king(pieces, p, target);
    !is_attacked_from(pieces, &board, target, !p.team_white)
}

/// Lists the rules of a kind.
pub fn rules_for(piece_type: PieceType) -> (rules: Vec<Rule>)
    ensures
        rules@ == rules_of(piece_type),
{
    let rules = match piece_type {
        PieceType::Pawn => vec![Rule::PawnAdvance, Rule::PawnCapture, Rule::PawnDoubleAdvance],
        PieceType::Rook => vec![Rule::FileSlide, Rule::RankSlide],
        PieceType::Knight => vec![Rule::KnightWide, Rule::KnightTall],
        PieceType::Bishop => vec![Rule::DiagonalSlide],
        PieceType::Queen => vec![Rule::FileSlide, Rule::RankSlide, Rule::DiagonalSlide],
        PieceType::King => vec![Rule::KingStep],
    };
    assert(rules@ =~= rules_of(piece_type));
    rules
}

/// Tells whether a rule holds for the move of `p` to `target`.
pub fn rule_holds(rule: Rule, p: &Piece, target: Square, pieces: &Vec<Piece>) -> (result: bool)
    requires
        in_bounds(p.position),
        in_bounds(target),
    ensures
        result == holds(rule, *p, target, pieces@),
{
    match rule {
        Rule::PawnAdvance => is_pawn_advance(p, target, pieces),
        Rule::PawnCapture => is_pawn_capture(p, target, pieces),
        Rule::PawnDoubleAdvance => is_pawn_double_advance(p, target, pieces),
        Rule::FileSlide => is_file_slide(p, target, pieces),
        Rule::RankSlide => is_rank_slide(p, target, pieces),
        Rule::DiagonalSlide => is_diagonal_slide(p, target, pieces),
        Rule::KnightWide => is_knight_wide(p, target, pieces),
        Rule::KnightTall => is_knight_tall(p, target, pieces),
        Rule::KingStep => is_king_step(p, target, pieces),
    }
}

/// Evaluates every rule of the piece's kind for the move to `target`, on a
/// borrowed board. The list has one entry per rule, in the order of
/// [`rules_of`], and is never empty.
pub fn evaluate(p: &Piece, target: Square, pieces: &Vec<Piece>) -> (conds: Vec<bool>)
    requires
        in_bounds(p.position),
        in_bounds(target),
    ensures
        conds@ == conditions(*p, target, pieces@),
        conds@.len() > 0,
{
    let rules = rules_for(p.piece_type);
    let mut conds: Vec<bool> = Vec::new();
    let mut i: usize = 0;
    while i < rules.len()
        invariant
            i <= rules.len(),
            in_bounds(p.position),
            in_bounds(target),
            rules@ == rules_of(p.piece_type),
            conds@.len() == i,
            forall|k: int| 0 <= k < i ==> conds@[k] == holds(rules@[k], *p, target, pieces@),
        decreases rules.len() - i,
    {
        conds.push(rule_holds(rules[i], p, target, pieces));
        i += 1;
    }
    assert(conds@ =~= conditions(*p, target, pieces@));
    conds
}

/// Tells whether any entry of a rule list holds.
fn any_holds(conds: &Vec<bool>) -> (found: bool)
    ensures
        found == conds@.contains(true),
{
    let mut i: usize = 0;
    while i < conds.len()
        invariant
            i <= conds.len(),
            forall|j: int| 0 <= j < i ==> !conds@[j],
        decreases conds.len() - i,
    {
        if conds[i] {
            return true;
        }
        i += 1;
    }
    false
}

/// Tells whether the move is legal on a borrowed board.
pub fn is_legal(p: &Piece, target: Square, pieces: &Vec<Piece>) -> (legal: bool)
    requires
        in_bounds(p.position),
        in_bounds(target),
    ensures
        legal == can_move(*p, target, pieces@),
{
    let conds = evaluate(p, target, pieces);
    any_holds(&conds)
}

impl Piece {
    /// Evaluates every rule of this piece's kind for the move to
    /// `where_to_move`. The list holds one entry per rule, in the order of
    /// [`conditions`], and is never empty. The move is legal when at least
    /// one entry is `true`. The board need not hold the piece itself.
    pub fn move_conditions(&self, where_to_move: Square, pieces: Vec<Piece>) -> (conds: Vec<bool>)
        requires
            in_bounds(self.position),
            in_bounds(where_to_move),
        ensures
            conds@ == conditions(*self, where_to_move, pieces@),
            conds@.len() > 0,
    {
        evaluate(self, where_to_move, &pieces)
    }

    /// Moves this piece to `where_to_move` if the move is legal: the result
    /// is the piece on its new square, or `None` when no rule holds.
    pub fn move_piece(&self, where_to_move: Square, pieces: Vec<Piece>) -> (moved: Option<Piece>)
        requires
            in_bounds(self.position),
            in_bounds(where_to_move),
        ensures
            moved == if can_move(*self, where_to_move, pieces@) {
                Some(self.moved_to(where_to_move))
            } else {
                None
            },
    {
        if is_legal(self, where_to_move, &pieces) {
            Some(self.relocate(where_to_move))
        } else {
            None
        }
    }
}

} // verus!
