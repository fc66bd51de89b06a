//! General properties of the movement rules and of the application of
//! moves, each a proof function.

use vstd::prelude::*;
use vstd::seq_lib::{to_multiset_build, to_multiset_remove};
use crate::piece::{forward, in_bounds, pawn_rank, Piece, PieceType, Square};
use crate::board::{distinct_squares, occupied, occupied_by, valid_board};
use crate::game::{
    board_after, captured_piece, first_on, is_first_equal, is_first_on, lemma_first_equal_unique,
    lemma_first_on_unique, without,
};
use crate::rules::{
    attacked_from, can_move, conditions, diagonal_slide, file_distance, file_slide, holds, king_step,
    knight_tall, knight_wide, landing_allowed, path_clear, pawn_advance, pawn_capture,
    pawn_double_advance, rank_distance, rank_slide, relocated, rules_of, strictly_between,
    threatens,
};

verus! {

/// Every kind has at least one rule, so no rule list is empty: a pawn has
/// three rules, a rook two, a knight two, a bishop one, a queen three and a
/// king one. Each entry of a rule list tells whether the rule at its place
/// holds.
pub proof fn lemma_conditions_by_rule(p: Piece, target: Square, pieces: Seq<Piece>)
    ensures
        conditions(p, target, pieces).len() == rules_of(p.piece_type).len(),
        conditions(p, target, pieces).len() == match p.piece_type {
            PieceType::Pawn => 3nat,
            PieceType::Rook => 2nat,
            PieceType::Knight => 2nat,
            PieceType::Bishop => 1nat,
            PieceType::Queen => 3nat,
            PieceType::King => 1nat,
        },
        conditions(p, target, pieces).len() > 0,
        forall|i: int|
            0 <= i < rules_of(p.piece_type).len() ==> #[trigger] conditions(p, target, pieces)[i]
                == holds(rules_of(p.piece_type)[i], p, target, pieces),
{
}

/// A move is legal exactly when some rule of the piece's kind holds.
pub proof fn lemma_can_move_by_rule(p: Piece, target: Square, pieces: Seq<Piece>)
    ensures
        can_move(p, target, pieces) <==> exists|i: int|
            0 <= i < rules_of(p.piece_type).len() && holds(
                #[trigger] rules_of(p.piece_type)[i],
                p,
                target,
                pieces,
            ),
{
    let conds = conditions(p, target, pieces);
    let rules = rules_of(p.piece_type);
    if can_move(p, target, pieces) {
        let i = choose|i: int| 0 <= i < conds.len() && conds[i] == true;
        assert(holds(rules[i], p, target, pieces));
    }
    if exists|i: int| 0 <= i < rules.len() && holds(#[trigger] rules[i], p, target, pieces) {
        let i = choose|i: int| 0 <= i < rules.len() && holds(#[trigger] rules[i], p, target, pieces);
        assert(conds[i] == true);
    }
}

/// A move is legal exactly when one of the rules of the piece's kind holds,
/// kind by kind.
pub proof fn lemma_can_move_by_kind(p: Piece, target: Square, pieces: Seq<Piece>)
    ensures
        can_move(p, target, pieces) <==> match p.piece_type {
            PieceType::Pawn => {
                ||| pawn_advance(p, target, pieces)
                ||| pawn_capture(p, target, pieces)
                ||| pawn_double_advance(p, target, pieces)
            },
            PieceType::Rook => file_slide(p, target, pieces) || rank_slide(p, target, pieces),
            PieceType::Knight => knight_wide(p, target, pieces) || knight_tall(p, target, pieces),
            PieceType::Bishop => diagonal_slide(p, target, pieces),
            PieceType::Queen => {
                ||| file_slide(p, target, pieces)
                ||| rank_slide(p, target, pieces)
                ||| diagonal_slide(p, target, pieces)
            },
            PieceType::King => king_step(p, target, pieces),
        },
{
    let rules = rules_of(p.piece_type);
    lemma_can_move_by_rule(p, target, pieces);
    assert(holds(rules[0], p, target, pieces) ==> can_move(p, target, pieces));
    if rules.len() >= 2 {
        assert(holds(rules[1], p, target, pieces) ==> can_move(p, target, pieces));
    }
    if rules.len() >= 3 {
        assert(holds(rules[2], p, target, pieces) ==> can_move(p, target, pieces));
    }
}

/// The coordinate reached from `a` after `k` steps toward `b`.
pub open spec fn stepped(a: u8, b: u8, k: int) -> int {
    if b > a {
        a + k
    } else if b < a {
        a - k
    } else {
        a as int
    }
}

/// `sq` is reached from `from` after `k` steps toward `to`, each step
/// taking one file, one rank or both.
pub open spec fn reached_after(from: Square, to: Square, sq: Square, k: int) -> bool {
    sq.0 == stepped(from.0, to.0, k) && sq.1 == stepped(from.1, to.1, k)
}

/// Number of steps from one square to another of the same file, rank or
/// diagonal.
pub open spec fn slide_length(from: Square, to: Square) -> int {
    if file_distance(from, to) >= rank_distance(from, to) {
        file_distance(from, to)
    } else {
        rank_distance(from, to)
    }
}

/// The squares strictly between two squares of one file, one rank or one
/// diagonal are those reached from the first by stepping toward the second,
/// after at least one step and before the last.
pub proof fn lemma_between_is_on_the_way(from: Square, to: Square, sq: Square)
    requires
        from.0 == to.0 || from.1 == to.1 || file_distance(from, to) == rank_distance(from, to),
    ensures
        strictly_between(from, to, sq) <==> exists|k: int|
            0 < k < slide_length(from, to) && #[trigger] reached_after(from, to, sq, k),
{
    if strictly_between(from, to, sq) {
        let k = if from.0 == sq.0 {
            rank_distance(from, sq)
        } else {
            file_distance(from, sq)
        };
        assert(0 < k < slide_length(from, to) && reached_after(from, to, sq, k));
    }
}

/// A slide passes over the same squares in either direction, so a path is
/// clear one way exactly when it is clear the other way.
pub proof fn lemma_path_symmetric(pieces: Seq<Piece>, from: Square, to: Square)
    ensures
        forall|sq: Square| strictly_between(from, to, sq) == strictly_between(to, from, sq),
        path_clear(pieces, from, to) == path_clear(pieces, to, from),
{
    assert forall|sq: Square| strictly_between(from, to, sq) == strictly_between(to, from, sq) by {}
    if path_clear(pieces, from, to) {
        assert forall|i: int| 0 <= i < pieces.len() implies !strictly_between(
            to,
            from,
            (#[trigger] pieces[i]).position,
        ) by {
            assert(!strictly_between(from, to, pieces[i].position));
        }
    }
    if path_clear(pieces, to, from) {
        assert forall|i: int| 0 <= i < pieces.len() implies !strictly_between(
            from,
            to,
            (#[trigger] pieces[i]).position,
        ) by {
            assert(!strictly_between(to, from, pieces[i].position));
        }
    }
}

/// A rook, bishop or queen never moves over a piece: when any piece, of
/// either team, stands strictly between the origin and the target, the move
/// is illegal.
pub proof fn lemma_slide_blocked(p: Piece, target: Square, pieces: Seq<Piece>, i: int)
    requires
        p.piece_type == PieceType::Rook || p.piece_type == PieceType::Bishop || p.piece_type
            == PieceType::Queen,
        0 <= i < pieces.len(),
        strictly_between(p.position, target, pieces[i].position),
    ensures
        !can_move(p, target, pieces),
{
    lemma_can_move_by_kind(p, target, pieces);
    assert(!path_clear(pieces, p.position, target));
}

/// A pawn that legally moves two ranks stands on its team's pawn rank, stays
/// on its file, and finds both the square it passes over and the target
/// empty.
pub proof fn lemma_pawn_two_ranks(p: Piece, target: Square, pieces: Seq<Piece>)
    requires
        p.piece_type == PieceType::Pawn,
        rank_distance(p.position, target) == 2,
        can_move(p, target, pieces),
    ensures
        p.position.1 == pawn_rank(p.team_white),
        target.0 == p.position.0,
        target.1 == p.position.1 + 2 * forward(p.team_white),
        !occupied(pieces, p.square_ahead()),
        !occupied(pieces, target),
{
    lemma_can_move_by_kind(p, target, pieces);
}

/// A pawn moves at most two ranks, and only forward.
pub proof fn lemma_pawn_reach(p: Piece, target: Square, pieces: Seq<Piece>)
    requires
        p.piece_type == PieceType::Pawn,
        can_move(p, target, pieces),
    ensures
        target.1 == p.position.1 + forward(p.team_white) || target.1 == p.position.1 + 2 * forward(
            p.team_white,
        ),
        file_distance(p.position, target) <= 1,
{
    lemma_can_move_by_kind(p, target, pieces);
}

/// At most one rule of a pawn holds for a move: the three rules ask for
/// different targets.
pub proof fn lemma_pawn_rules_exclusive(p: Piece, target: Square, pieces: Seq<Piece>)
    ensures
        !(pawn_advance(p, target, pieces) && pawn_capture(p, target, pieces)),
        !(pawn_advance(p, target, pieces) && pawn_double_advance(p, target, pieces)),
        !(pawn_capture(p, target, pieces) && pawn_double_advance(p, target, pieces)),
{
}

/// A queen moves exactly where a rook or a bishop of her team would move
/// from her square.
pub proof fn lemma_queen_is_rook_or_bishop(queen: Piece, target: Square, pieces: Seq<Piece>)
    requires
        queen.piece_type == PieceType::Queen,
    ensures
        can_move(queen, target, pieces) <==> can_move(
            Piece { piece_type: PieceType::Rook, ..queen },
            target,
            pieces,
        ) || can_move(Piece { piece_type: PieceType::Bishop, ..queen }, target, pieces),
        conditions(queen, target, pieces) == conditions(
            Piece { piece_type: PieceType::Rook, ..queen },
            target,
            pieces,
        ) + conditions(Piece { piece_type: PieceType::Bishop, ..queen }, target, pieces),
{
    let rook = Piece { piece_type: PieceType::Rook, ..queen };
    let bishop = Piece { piece_type: PieceType::Bishop, ..queen };
    lemma_can_move_by_kind(queen, target, pieces);
    lemma_can_move_by_kind(rook, target, pieces);
    lemma_can_move_by_kind(bishop, target, pieces);
    assert(conditions(queen, target, pieces) =~= conditions(rook, target, pieces) + conditions(
        bishop,
        target,
        pieces,
    ));
}

/// A rook may move exactly when the target shares its file or its rank,
/// but not both, every square strictly between is empty, and the target
/// holds no piece of its team.
pub proof fn lemma_rook_moves(rook: Piece, target: Square, pieces: Seq<Piece>)
    requires
        rook.piece_type == PieceType::Rook,
    ensures
        can_move(rook, target, pieces) <==> {
            &&& (target.0 == rook.position.0) != (target.1 == rook.position.1)
            &&& path_clear(pieces, rook.position, target)
            &&& !occupied_by(pieces, target, rook.team_white)
        },
{
    lemma_can_move_by_kind(rook, target, pieces);
}

/// A bishop may move exactly when the target lies as many files as ranks
/// away, and not on the bishop's own square, every square strictly between
/// is empty, and the target holds no piece of its team.
pub proof fn lemma_bishop_moves(bishop: Piece, target: Square, pieces: Seq<Piece>)
    requires
        bishop.piece_type == PieceType::Bishop,
    ensures
        can_move(bishop, target, pieces) <==> {
            &&& target != bishop.position
            &&& file_distance(bishop.position, target) == rank_distance(bishop.position, target)
            &&& path_clear(pieces, bishop.position, target)
            &&& !occupied_by(pieces, target, bishop.team_white)
        },
{
    lemma_can_move_by_kind(bishop, target, pieces);
}

/// The two squares are a knight's jump apart: two files and one rank, or
/// one file and two ranks.
pub open spec fn is_knight_jump(from: Square, to: Square) -> bool {
    ||| file_distance(from, to) == 2 && rank_distance(from, to) == 1
    ||| file_distance(from, to) == 1 && rank_distance(from, to) == 2
}

/// A knight does not look at the squares it jumps over: it may move
/// exactly when the target is a knight's jump away and holds no piece of
/// its team.
pub proof fn lemma_knight_jumps(knight: Piece, target: Square, pieces: Seq<Piece>)
    requires
        knight.piece_type == PieceType::Knight,
    ensures
        can_move(knight, target, pieces) <==> is_knight_jump(knight.position, target)
            && !occupied_by(pieces, target, knight.team_white),
{
    lemma_can_move_by_kind(knight, target, pieces);
}

/// What the board holds on which a king's step is judged: the king on
/// its new square, and every piece of the board that does not stand on the
/// king's former square.
pub proof fn lemma_relocated_contents(pieces: Seq<Piece>, king: Piece, target: Square)
    ensures
        relocated(pieces, king, target).len() >= 1,
        relocated(pieces, king, target)[0] == king.moved_to(target),
        forall|q: Piece|
            #![trigger relocated(pieces, king, target).contains(q)]
            relocated(pieces, king, target).contains(q) <==> q == king.moved_to(target) || (
            pieces.contains(q) && q.position != king.position),
{
    let stays = |q: Piece| q.position != king.position;
    let rest = pieces.filter(stays);
    let board = relocated(pieces, king, target);
    assert(board =~= seq![king.moved_to(target)] + rest);
    assert forall|q: Piece| #![trigger board.contains(q)] board.contains(q) <==> q
        == king.moved_to(target) || (pieces.contains(q) && q.position != king.position) by {
        if board.contains(q) {
            let k = choose|k: int| 0 <= k < board.len() && board[k] == q;
            if k > 0 {
                assert(rest[k - 1] == q);
                pieces.lemma_filter_pred(stays, k - 1);
                assert(rest.contains(q));
                pieces.lemma_filter_contains_rev(stays, q);
            }
        }
        if q == king.moved_to(target) {
            assert(board[0] == q);
        }
        if pieces.contains(q) && q.position != king.position {
            let i = choose|i: int| 0 <= i < pieces.len() && pieces[i] == q;
            pieces.lemma_filter_contains(stays, i);
            let k = choose|k: int| 0 <= k < rest.len() && rest[k] == q;
            assert(board[k + 1] == q);
        }
    }
}

/// A king never steps onto a square that a piece of the other team bears
/// on: if any such piece on the board, wherever it stands, bears on the
/// target once the king has gone there, the step is illegal.
pub proof fn lemma_king_avoids_threat(king: Piece, target: Square, pieces: Seq<Piece>, i: int)
    requires
        king.piece_type == PieceType::King,
        0 <= i < pieces.len(),
        pieces[i].team_white != king.team_white,
        threatens(pieces[i], target, relocated(pieces, king, target)),
    ensures
        !can_move(king, target, pieces),
{
    lemma_can_move_by_kind(king, target, pieces);
    let board = relocated(pieces, king, target);
    assert(pieces[i].team_white == !king.team_white && threatens(pieces[i], target, board));
    assert(attacked_from(pieces, board, target, !king.team_white));
}

/// Once a king has gone to its target, a piece of the other team may land
/// there as far as its own team goes, if none of its team held the target
/// before.
proof fn lemma_landing_on_relocated(q: Piece, king: Piece, target: Square, pieces: Seq<Piece>)
    requires
        q.team_white != king.team_white,
        !occupied_by(pieces, target, q.team_white),
    ensures
        landing_allowed(q, target, relocated(pieces, king, target)),
{
    let board = relocated(pieces, king, target);
    lemma_relocated_contents(pieces, king, target);
    if occupied_by(board, target, q.team_white) {
        let k = choose|k: int|
            0 <= k < board.len() && (#[trigger] board[k]).position == target
                && board[k].team_white == q.team_white;
        assert(board.contains(board[k]));
        let j = choose|j: int| 0 <= j < pieces.len() && pieces[j] == board[k];
        assert(pieces[j].position == target && pieces[j].team_white == q.team_white);
    }
}

/// A king never steps onto a square diagonally in front of a pawn of the
/// other team, whether that square holds a piece or not, and wherever the
/// pawn stands.
pub proof fn lemma_king_avoids_pawn(king: Piece, target: Square, pieces: Seq<Piece>, i: int)
    requires
        king.piece_type == PieceType::King,
        0 <= i < pieces.len(),
        pieces[i].piece_type == PieceType::Pawn,
        pieces[i].team_white != king.team_white,
        file_distance(pieces[i].position, target) == 1,
        target.1 == pieces[i].position.1 + forward(pieces[i].team_white),
    ensures
        !can_move(king, target, pieces),
{
    let board = relocated(pieces, king, target);
    lemma_relocated_contents(pieces, king, target);
    assert(board[0].position == target && board[0].team_white == king.team_white);
    assert(occupied_by(board, target, !pieces[i].team_white));
    lemma_king_avoids_threat(king, target, pieces, i);
}

/// A king never steps onto a square that a rook, bishop or queen of the
/// other team looks at: the piece stands on a line with the target that
/// its kind slides along, no piece of its team holds the target, and
/// nothing stands strictly between, the king's own square left aside.
pub proof fn lemma_king_avoids_slider(king: Piece, target: Square, pieces: Seq<Piece>, i: int)
    requires
        king.piece_type == PieceType::King,
        0 <= i < pieces.len(),
        pieces[i].team_white != king.team_white,
        pieces[i].position != target,
        match pieces[i].piece_type {
            PieceType::Rook => pieces[i].position.0 == target.0 || pieces[i].position.1
                == target.1,
            PieceType::Bishop => file_distance(pieces[i].position, target) == rank_distance(
                pieces[i].position,
                target,
            ),
            PieceType::Queen => {
                ||| pieces[i].position.0 == target.0
                ||| pieces[i].position.1 == target.1
                ||| file_distance(pieces[i].position, target) == rank_distance(
                    pieces[i].position,
                    target,
                )
            },
            _ => false,
        },
        !occupied_by(pieces, target, pieces[i].team_white),
        forall|j: int|
            0 <= j < pieces.len() && (#[trigger] pieces[j]).position != king.position
                ==> !strictly_between(pieces[i].position, target, pieces[j].position),
    ensures
        !can_move(king, target, pieces),
{
    let q = pieces[i];
    let board = relocated(pieces, king, target);
    lemma_relocated_contents(pieces, king, target);
    assert forall|k: int| 0 <= k < board.len() implies !strictly_between(
        q.position,
        target,
        (#[trigger] board[k]).position,
    ) by {
        assert(board.contains(board[k]));
        if board[k] != king.moved_to(target) {
            let j = choose|j: int| 0 <= j < pieces.len() && pieces[j] == board[k];
            assert(!strictly_between(q.position, target, pieces[j].position));
        }
    }
    lemma_landing_on_relocated(q, king, target, pieces);
    lemma_king_avoids_threat(king, target, pieces, i);
}

/// A king never steps onto a square a knight's jump away from a knight of
/// the other team, unless a piece of the knight's team holds the square.
pub proof fn lemma_king_avoids_knight(king: Piece, target: Square, pieces: Seq<Piece>, i: int)
    requires
        king.piece_type == PieceType::King,
        0 <= i < pieces.len(),
        pieces[i].piece_type == PieceType::Knight,
        pieces[i].team_white != king.team_white,
        is_knight_jump(pieces[i].position, target),
        !occupied_by(pieces, target, pieces[i].team_white),
    ensures
        !can_move(king, target, pieces),
{
    lemma_landing_on_relocated(pieces[i], king, target, pieces);
    lemma_king_avoids_threat(king, target, pieces, i);
}

/// Pawns that stand anywhere but diagonally behind the target do not keep
/// a king from it: where every piece of the other team is such a pawn, a
/// step to a neighbouring square that holds no piece of the king's team is
/// legal.
pub proof fn lemma_king_ignores_pawns_elsewhere(king: Piece, target: Square, pieces: Seq<Piece>)
    requires
        king.piece_type == PieceType::King,
        target != king.position,
        file_distance(king.position, target) <= 1,
        rank_distance(king.position, target) <= 1,
        !occupied_by(pieces, target, king.team_white),
        forall|i: int|
            0 <= i < pieces.len() && (#[trigger] pieces[i]).team_white != king.team_white ==> {
                &&& pieces[i].piece_type == PieceType::Pawn
                &&& !(file_distance(pieces[i].position, target) == 1 && target.1
                    == pieces[i].position.1 + forward(pieces[i].team_white))
            },
    ensures
        can_move(king, target, pieces),
{
    lemma_can_move_by_kind(king, target, pieces);
    let board = relocated(pieces, king, target);
    if attacked_from(pieces, board, target, !king.team_white) {
        let i = choose|i: int|
            0 <= i < pieces.len() && (#[trigger] pieces[i]).team_white == !king.team_white
                && threatens(pieces[i], target, board);
        assert(pieces[i].team_white != king.team_white);
    }
}

/// A pawn bears on no square of its own file: the square in front of a
/// pawn is not under its threat.
pub proof fn lemma_pawn_threat_is_diagonal(q: Piece, target: Square, pieces: Seq<Piece>)
    requires
        q.piece_type == PieceType::Pawn,
        threatens(q, target, pieces),
    ensures
        file_distance(q.position, target) == 1,
        target.1 == q.position.1 + forward(q.team_white),
        !pawn_advance(q, target, pieces),
        !pawn_double_advance(q, target, pieces),
{
}

/// A rook, knight, bishop or queen bears on exactly the squares it may
/// move to.
pub proof fn lemma_threat_is_legal_move(q: Piece, target: Square, pieces: Seq<Piece>)
    requires
        q.piece_type != PieceType::Pawn,
        q.piece_type != PieceType::King,
    ensures
        threatens(q, target, pieces) == can_move(q, target, pieces),
{
    lemma_can_move_by_kind(q, target, pieces);
}

/// A king moves at most one file and one rank, never onto a piece of its
/// own team, and never stays where it is.
pub proof fn lemma_king_reach(king: Piece, target: Square, pieces: Seq<Piece>)
    requires
        king.piece_type == PieceType::King,
        can_move(king, target, pieces),
    ensures
        target != king.position,
        file_distance(king.position, target) <= 1,
        rank_distance(king.position, target) <= 1,
        !occupied_by(pieces, target, king.team_white),
{
    lemma_can_move_by_kind(king, target, pieces);
}

/// Two boards hold the same pieces, in whatever order and however often.
pub open spec fn same_pieces(a: Seq<Piece>, b: Seq<Piece>) -> bool {
    forall|q: Piece| a.contains(q) <==> b.contains(q)
}

/// A square that holds a piece on one board holds it on every board that
/// has the pieces of that square.
proof fn lemma_occupancy_kept(a: Seq<Piece>, b: Seq<Piece>, sq: Square, team_white: bool)
    requires
        forall|q: Piece| a.contains(q) && q.position == sq ==> b.contains(q),
    ensures
        occupied(a, sq) ==> occupied(b, sq),
        occupied_by(a, sq, team_white) ==> occupied_by(b, sq, team_white),
{
    if occupied(a, sq) {
        let i = choose|i: int| 0 <= i < a.len() && (#[trigger] a[i]).position == sq;
        assert(a.contains(a[i]));
        let k = choose|k: int| 0 <= k < b.len() && b[k] == a[i];
        assert(b[k].position == sq);
    }
    if occupied_by(a, sq, team_white) {
        let i = choose|i: int|
            0 <= i < a.len() && (#[trigger] a[i]).position == sq && a[i].team_white == team_white;
        assert(a.contains(a[i]));
        let k = choose|k: int| 0 <= k < b.len() && b[k] == a[i];
        assert(b[k].position == sq && b[k].team_white == team_white);
    }
}

/// A path that is clear on one board is clear on every board that has no
/// other pieces off the origin.
proof fn lemma_path_kept(a: Seq<Piece>, b: Seq<Piece>, from: Square, to: Square)
    requires
        forall|q: Piece| a.contains(q) && q.position != from ==> b.contains(q),
    ensures
        path_clear(b, from, to) ==> path_clear(a, from, to),
{
    if path_clear(b, from, to) {
        assert forall|i: int| 0 <= i < a.len() implies !strictly_between(
            from,
            to,
            (#[trigger] a[i]).position,
        ) by {
            if a[i].position != from {
                assert(a.contains(a[i]));
                let k = choose|k: int| 0 <= k < b.len() && b[k] == a[i];
                assert(!strictly_between(from, to, b[k].position));
            }
        }
    }
}

/// The rules other than the king's give the same answers on two boards
/// that hold the same pieces apart from what stands on the mover's own
/// square.
proof fn lemma_plain_rules_kept(p: Piece, target: Square, a: Seq<Piece>, b: Seq<Piece>)
    requires
        forall|q: Piece| q.position != p.position ==> (a.contains(q) <==> b.contains(q)),
    ensures
        pawn_advance(p, target, a) == pawn_advance(p, target, b),
        pawn_capture(p, target, a) == pawn_capture(p, target, b),
        pawn_double_advance(p, target, a) == pawn_double_advance(p, target, b),
        file_slide(p, target, a) == file_slide(p, target, b),
        rank_slide(p, target, a) == rank_slide(p, target, b),
        diagonal_slide(p, target, a) == diagonal_slide(p, target, b),
        knight_wide(p, target, a) == knight_wide(p, target, b),
        knight_tall(p, target, a) == knight_tall(p, target, b),
        target != p.position ==> landing_allowed(p, target, a) == landing_allowed(p, target, b),
        threatens(p, target, a) == threatens(p, target, b),
{
    lemma_path_kept(a, b, p.position, target);
    lemma_path_kept(b, a, p.position, target);
    if target != p.position {
        lemma_occupancy_kept(a, b, target, p.team_white);
        lemma_occupancy_kept(b, a, target, p.team_white);
        lemma_occupancy_kept(a, b, target, !p.team_white);
        lemma_occupancy_kept(b, a, target, !p.team_white);
    }
    if p.position.1 == pawn_rank(p.team_white) {
        lemma_occupancy_kept(a, b, p.square_ahead(), true);
        lemma_occupancy_kept(b, a, p.square_ahead(), true);
    }
}

/// A threat stays a threat when the attackers of the team are among the
/// new attackers and the new board holds the same pieces.
proof fn lemma_attacked_kept(
    a: Seq<Piece>,
    board_a: Seq<Piece>,
    b: Seq<Piece>,
    board_b: Seq<Piece>,
    target: Square,
    by_white: bool,
)
    requires
        forall|q: Piece| a.contains(q) && q.team_white == by_white ==> b.contains(q),
        same_pieces(board_a, board_b),
    ensures
        attacked_from(a, board_a, target, by_white) ==> attacked_from(
            b,
            board_b,
            target,
            by_white,
        ),
{
    if attacked_from(a, board_a, target, by_white) {
        let i = choose|i: int|
            0 <= i < a.len() && (#[trigger] a[i]).team_white == by_white && threatens(
                a[i],
                target,
                board_a,
            );
        assert(a.contains(a[i]));
        let k = choose|k: int| 0 <= k < b.len() && b[k] == a[i];
        lemma_plain_rules_kept(a[i], target, board_a, board_b);
        assert(b[k].team_white == by_white && threatens(b[k], target, board_b));
    }
}

/// The king's rule gives the same answer on two boards that hold the same
/// pieces apart from pieces of the king's own team on the king's own
/// square.
proof fn lemma_king_step_kept(king: Piece, target: Square, a: Seq<Piece>, b: Seq<Piece>)
    requires
        forall|q: Piece|
            q.position != king.position || q.team_white != king.team_white ==> (a.contains(q)
                <==> b.contains(q)),
    ensures
        king_step(king, target, a) == king_step(king, target, b),
{
    lemma_plain_rules_kept(king, target, a, b);
    lemma_relocated_contents(a, king, target);
    lemma_relocated_contents(b, king, target);
    let ha = relocated(a, king, target);
    let hb = relocated(b, king, target);
    assert(same_pieces(ha, hb));
    assert(same_pieces(hb, ha));
    lemma_attacked_kept(a, ha, b, hb, target, !king.team_white);
    lemma_attacked_kept(b, hb, a, ha, target, !king.team_white);
}

/// The rules look at which pieces the board holds, not at their order in
/// the list: two boards with the same pieces give the same rule list.
pub proof fn lemma_conditions_ignore_order(
    p: Piece,
    target: Square,
    a: Seq<Piece>,
    b: Seq<Piece>,
)
    requires
        same_pieces(a, b),
    ensures
        conditions(p, target, a) == conditions(p, target, b),
        can_move(p, target, a) == can_move(p, target, b),
{
    lemma_plain_rules_kept(p, target, a, b);
    lemma_king_step_kept(p, target, a, b);
    assert(conditions(p, target, a) =~= conditions(p, target, b));
}

/// The board may hold the mover or not: taking a piece off the mover's own
/// square changes no rule, unless the mover is a king and the piece is of
/// the other team, which may bear on the king's target.
pub proof fn lemma_own_square_ignored(p: Piece, target: Square, pieces: Seq<Piece>, i: int)
    requires
        0 <= i < pieces.len(),
        pieces[i].position == p.position,
        p.piece_type == PieceType::King ==> pieces[i].team_white == p.team_white,
    ensures
        conditions(p, target, pieces.remove(i)) == conditions(p, target, pieces),
        can_move(p, target, pieces.remove(i)) == can_move(p, target, pieces),
{
    let rest = pieces.remove(i);
    assert forall|q: Piece| q != pieces[i] implies (rest.contains(q) <==> pieces.contains(q)) by {
        if rest.contains(q) {
            let k = choose|k: int| 0 <= k < rest.len() && rest[k] == q;
            if k < i {
                assert(pieces[k] == q);
            } else {
                assert(pieces[k + 1] == q);
            }
        }
        if pieces.contains(q) {
            let k = choose|k: int| 0 <= k < pieces.len() && pieces[k] == q;
            if k < i {
                assert(rest[k] == q);
            } else {
                assert(rest[k - 1] == q);
            }
        }
    }
    lemma_plain_rules_kept(p, target, rest, pieces);
    if p.piece_type == PieceType::King {
        lemma_king_step_kept(p, target, rest, pieces);
    }
    assert(conditions(p, target, rest) =~= conditions(p, target, pieces));
}

/// A square that holds a piece has a first piece in the list, at or
/// before any piece that stands on it.
pub proof fn lemma_first_on_found(pieces: Seq<Piece>, sq: Square, i: int)
    requires
        0 <= i < pieces.len(),
        pieces[i].position == sq,
    ensures
        first_on(pieces, sq) matches Some(k) && k <= i && is_first_on(pieces, sq, k),
    decreases i,
{
    if exists|j: int| 0 <= j < i && (#[trigger] pieces[j]).position == sq {
        let j = choose|j: int| 0 <= j < i && (#[trigger] pieces[j]).position == sq;
        lemma_first_on_found(pieces, sq, j);
    } else {
        assert(is_first_on(pieces, sq, i));
        lemma_first_on_unique(pieces, sq, i);
    }
}

/// A square that holds no piece has no first piece.
pub proof fn lemma_first_on_none(pieces: Seq<Piece>, sq: Square)
    requires
        !occupied(pieces, sq),
    ensures
        first_on(pieces, sq).is_none(),
{
    assert forall|i: int| !is_first_on(pieces, sq, i) by {
        if is_first_on(pieces, sq, i) {
            assert(pieces[i].position == sq);
        }
    }
}

/// Applying a move keeps a board valid: no two pieces share a square
/// afterwards, and every piece stands on the board.
pub proof fn lemma_board_after_valid(pieces: Seq<Piece>, piece: Piece, target: Square)
    requires
        valid_board(pieces),
        in_bounds(target),
    ensures
        valid_board(board_after(pieces, piece, target)),
{
    let others = without(pieces, piece);
    assert(valid_board(others) && forall|k: int|
        0 <= k < others.len() ==> pieces.contains(#[trigger] others[k])) by {
        if exists|i: int| is_first_equal(pieces, piece, i) {
            let i = choose|i: int| is_first_equal(pieces, piece, i);
            assert forall|k: int| 0 <= k < others.len() implies others[k] == pieces[if k < i {
                k
            } else {
                k + 1
            }] by {}
        }
    }
    let kept = match first_on(others, target) {
        Some(j) => others.remove(j),
        None => others,
    };
    assert(valid_board(kept) && !occupied(kept, target)) by {
        match first_on(others, target) {
            Some(j) => {
                assert(is_first_on(others, target, j));
                assert forall|k: int| 0 <= k < kept.len() implies kept[k] == others[if k < j {
                    k
                } else {
                    k + 1
                }] by {}
                assert forall|k: int| 0 <= k < kept.len() implies (#[trigger] kept[k]).position
                    != target by {
                    let m = if k < j {
                        k
                    } else {
                        k + 1
                    };
                    assert(others[m].position != others[j].position);
                }
            },
            None => {
                if occupied(others, target) {
                    let k = choose|k: int|
                        0 <= k < others.len() && (#[trigger] others[k]).position == target;
                    lemma_first_on_found(others, target, k);
                }
            },
        }
    }
    let after = board_after(pieces, piece, target);
    assert(after =~= kept.push(piece.moved_to(target)));
    assert forall|a: int, b: int|
        0 <= a < after.len() && 0 <= b < after.len() && a != b implies (#[trigger] after[a]).position
        != (#[trigger] after[b]).position by {
        if a < kept.len() && b < kept.len() {
            assert(kept[a].position != kept[b].position);
        } else if a < kept.len() {
            assert(kept[a].position != target);
        } else {
            assert(kept[b].position != target);
        }
    }
    assert forall|a: int| 0 <= a < after.len() implies in_bounds((#[trigger] after[a]).position) by {
        if a < kept.len() {
            assert(in_bounds(kept[a].position));
        }
    }
}

/// A legal move onto a square that holds a piece takes exactly that piece,
/// a piece of the other team, off the board: the board afterwards holds the
/// former pieces without the mover and the captured piece, and the mover on
/// its new square.
pub proof fn lemma_capture_takes_one_enemy(pieces: Seq<Piece>, piece: Piece, target: Square)
    requires
        distinct_squares(pieces),
        pieces.contains(piece),
        can_move(piece, target, pieces),
        occupied(pieces, target),
    ensures
        captured_piece(pieces, piece, target) matches Some(taken) && {
            &&& pieces.contains(taken)
            &&& taken.position == target
            &&& taken.team_white != piece.team_white
            &&& board_after(pieces, piece, target).len() == pieces.len() - 1
            &&& board_after(pieces, piece, target).to_multiset() == pieces.to_multiset().remove(
                piece,
            ).remove(taken).insert(piece.moved_to(target))
        },
{
    broadcast use {to_multiset_build, to_multiset_remove};

    lemma_can_move_by_kind(piece, target, pieces);
    assert(target != piece.position);
    let i = choose|i: int| 0 <= i < pieces.len() && pieces[i] == piece;
    assert(is_first_equal(pieces, piece, i)) by {
        assert forall|j: int| 0 <= j < i implies #[trigger] pieces[j] != piece by {
            assert(pieces[j].position != pieces[i].position);
        }
    }
    lemma_first_equal_unique(pieces, piece, i);
    let others = pieces.remove(i);
    let k = choose|k: int| 0 <= k < pieces.len() && (#[trigger] pieces[k]).position == target;
    let m = if k < i {
        k
    } else {
        k - 1
    };
    assert(others[m] == pieces[k]);
    lemma_first_on_found(others, target, m);
    let j = first_on(others, target).unwrap();
    let taken = others[j];
    let n = if j < i {
        j
    } else {
        j + 1
    };
    assert(taken == pieces[n]);
    assert(n == k) by {
        if n != k {
            assert(pieces[n].position != pieces[k].position);
        }
    }
    assert(taken.team_white != piece.team_white) by {
        if taken.team_white == piece.team_white {
            assert(pieces[k].position == target && pieces[k].team_white == piece.team_white);
            assert(occupied_by(pieces, target, piece.team_white));
            assert(occupied(pieces, target));
            assert(!landing_allowed(piece, target, pieces));
            if piece.piece_type == PieceType::Pawn {
                let e = choose|e: int|
                    0 <= e < pieces.len() && (#[trigger] pieces[e]).position == target
                        && pieces[e].team_white == !piece.team_white;
                assert(pieces[e].position == pieces[k].position);
            }
        }
    }
    let after = board_after(pieces, piece, target);
    assert(after =~= others.remove(j).push(piece.moved_to(target)));
}

/// A legal move onto an empty square takes no piece off the board: the
/// board afterwards holds the former pieces, with the mover on its new
/// square.
pub proof fn lemma_quiet_move_keeps_pieces(pieces: Seq<Piece>, piece: Piece, target: Square)
    requires
        pieces.contains(piece),
        !occupied(pieces, target),
    ensures
        captured_piece(pieces, piece, target).is_none(),
        board_after(pieces, piece, target).len() == pieces.len(),
        board_after(pieces, piece, target).to_multiset() == pieces.to_multiset().remove(
            piece,
        ).insert(piece.moved_to(target)),
{
    broadcast use {to_multiset_build, to_multiset_remove};

    let i = choose|i: int| 0 <= i < pieces.len() && pieces[i] == piece;
    lemma_first_equal_found(pieces, piece, i);
    let f = choose|f: int| is_first_equal(pieces, piece, f);
    lemma_first_equal_unique(pieces, piece, f);
    let others = pieces.remove(f);
    assert(!occupied(others, target)) by {
        if occupied(others, target) {
            let k = choose|k: int|
                0 <= k < others.len() && (#[trigger] others[k]).position == target;
            let m = if k < f {
                k
            } else {
                k + 1
            };
            assert(pieces[m].position == target);
        }
    }
    lemma_first_on_none(others, target);
    let after = board_after(pieces, piece, target);
    assert(after =~= others.push(piece.moved_to(target)));
}

/// A piece that the list holds has a first occurrence in it.
pub proof fn lemma_first_equal_found(pieces: Seq<Piece>, piece: Piece, i: int)
    requires
        0 <= i < pieces.len(),
        pieces[i] == piece,
    ensures
        exists|k: int| is_first_equal(pieces, piece, k),
    decreases i,
{
    if exists|j: int| 0 <= j < i && #[trigger] pieces[j] == piece {
        let j = choose|j: int| 0 <= j < i && #[trigger] pieces[j] == piece;
        lemma_first_equal_found(pieces, piece, j);
    } else {
        assert(is_first_equal(pieces, piece, i));
    }
}

} // verus!
