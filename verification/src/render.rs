//! Text picture of a board.
//!
//! The picture has a heading with the file letters and one line per rank.
//! A line holds the rank's digit and its eight squares, each character
//! with a blank before it, and a blank at the end. A square shows the piece
//! that stands on it, or else the chequered pattern of the empty board.

use vstd::prelude::*;
use vstd::string::*;
use crate::board::all_in_bounds;
use crate::piece::{Piece, PieceType, Square};

verus! {

/// The heading above the ranks.
pub const HEADING: &'static str = "   A B C D E F G H\n";

/// The character that marks a dark square of the empty board.
pub const DARK_SQUARE: char = '\u{f0764}';

/// The character that shows a piece.
pub open spec fn glyph(p: Piece) -> char {
    match p.piece_type {
        PieceType::Pawn => if p.team_white {
            '\u{e261}'
        } else {
            '\u{ed64}'
        },
        PieceType::Rook => if p.team_white {
            '\u{f085b}'
        } else {
            '\u{ed66}'
        },
        PieceType::Knight => if p.team_white {
            '\u{e25f}'
        } else {
            '\u{ed63}'
        },
        PieceType::Bishop => if p.team_white {
            '\u{f085c}'
        } else {
            '\u{ed60}'
        },
        PieceType::Queen => if p.team_white {
            '\u{f085a}'
        } else {
            '\u{ed65}'
        },
        PieceType::King => if p.team_white {
            '\u{f0857}'
        } else {
            '\u{ed62}'
        },
    }
}

/// The character of a square of the empty board: squares whose file and
/// rank add up to an even number are marked, the others are blank.
pub open spec fn empty_square(sq: Square) -> char {
    if (sq.0 + sq.1) % 2 == 0 {
        DARK_SQUARE
    } else {
        ' '
    }
}

/// The character shown on a square: the glyph of the last piece in the
/// list that stands on it, or the empty square.
pub open spec fn square_char(pieces: Seq<Piece>, sq: Square) -> char
    decreases pieces.len(),
{
    if pieces.len() == 0 {
        empty_square(sq)
    } else if pieces.last().position == sq {
        glyph(pieces.last())
    } else {
        square_char(pieces.drop_last(), sq)
    }
}

/// The digit that names a rank: `1` for rank 0 up to `8` for rank 7.
pub open spec fn rank_digit(rank: u8) -> char {
    ('1' as int + rank) as char
}

/// The line of a rank.
pub open spec fn rank_line(pieces: Seq<Piece>, rank: u8) -> Seq<char> {
    seq![' ', rank_digit(rank), ' '] + Seq::new(
        16,
        |k: int|
            if k % 2 == 0 {
                square_char(pieces, ((k / 2) as u8, rank))
            } else {
                ' '
            },
    ) + seq!['\n']
}

/// The lines of the first `count` ranks.
pub open spec fn rank_lines(pieces: Seq<Piece>, count: nat) -> Seq<char>
    decreases count,
{
    if count == 0 {
        Seq::empty()
    } else {
        rank_lines(pieces, (count - 1) as nat) + rank_line(pieces, (count - 1) as u8)
    }
}

/// The picture of a board.
pub open spec fn picture(pieces: Seq<Piece>) -> Seq<char> {
    HEADING@ + rank_lines(pieces, 8)
}

/// Every line of a rank has twenty characters, and the picture has one
/// line for the heading and one for each of the eight ranks: 179 characters
/// in all.
pub proof fn lemma_picture_size(pieces: Seq<Piece>)
    ensures
        forall|rank: u8| #[trigger] rank_line(pieces, rank).len() == 20,
        picture(pieces).len() == 179,
{
    reveal_strlit("   A B C D E F G H\n");
    reveal_with_fuel(rank_lines, 9);
    assert forall|rank: u8| #[trigger] rank_line(pieces, rank).len() == 20 by {}
}

/// Calls `String::push` of the standard library, which appends one
/// character to a string.
#[verifier::external_body]
fn push_char(text: &mut String, c: char)
    ensures
        final(text)@ == old(text)@.push(c),
{
    text.push(c)
}

fn glyph_of(p: &Piece) -> (c: char)
    ensures
        c == glyph(*p),
{
    match p.piece_type {
        PieceType::Pawn => if p.team_white {
            '\u{e261}'
        } else {
            '\u{ed64}'
        },
        PieceType::Rook => if p.team_white {
            '\u{f085b}'
        } else {
            '\u{ed66}'
        },
        PieceType::Knight => if p.team_white {
            '\u{e25f}'
        } else {
            '\u{ed63}'
        },
        PieceType::Bishop => if p.team_white {
            '\u{f085c}'
        } else {
            '\u{ed60}'
        },
        PieceType::Queen => if p.team_white {
            '\u{f085a}'
        } else {
            '\u{ed65}'
        },
        PieceType::King => if p.team_white {
            '\u{f0857}'
        } else {
            '\u{ed62}'
        },
    }
}

fn char_on(pieces: &Vec<Piece>, sq: Square) -> (c: char)
    ensures
        c == square_char(pieces@, sq),
{
    let mut i: usize = pieces.len();
    assert(pieces@.take(i as int) =~= pieces@);
    while i > 0
        invariant
            i <= pieces.len(),
            square_char(pieces@, sq) == square_char(pieces@.take(i as int), sq),
        decreases i,
    {
        let p: Piece = pieces[i - 1];
        assert(pieces@.take(i as int).last() == p);
        assert(pieces@.take(i as int).drop_last() =~= pieces@.take(i - 1));
        if p.position.0 == sq.0 && p.position.1 == sq.1 {
            return glyph_of(&p);
        }
        i -= 1;
    }
    if (sq.0 as u16 + sq.1 as u16) % 2 == 0 {
        DARK_SQUARE
    } else {
        ' '
    }
}

fn digit_of(rank: u8) -> (c: char)
    requires
        rank < 8,
    ensures
        c == rank_digit(rank),
{
    match rank {
        0 => '1',
        1 => '2',
        2 => '3',
        3 => '4',
        4 => '5',
        5 => '6',
        6 => '7',
        _ => '8',
    }
}

fn push_rank_line(text: &mut String, pieces: &Vec<Piece>, rank: u8)
    requires
        rank < 8,
    ensures
        final(text)@ == old(text)@ + rank_line(pieces@, rank),
{
    let ghost squares = Seq::new(
        16,
        |k: int|
            if k % 2 == 0 {
                square_char(pieces@, ((k / 2) as u8, rank))
            } else {
                ' '
            },
    );
    push_char(text, ' ');
    push_char(text, digit_of(rank));
    push_char(text, ' ');
    let ghost head = old(text)@ + seq![' ', rank_digit(rank), ' '];
    assert(text@ =~= head + squares.take(0));
    let mut file: u8 = 0;
    while file < 8
        invariant
            file <= 8,
            rank < 8,
            squares == Seq::new(
                16,
                |k: int|
                    if k % 2 == 0 {
                        square_char(pieces@, ((k / 2) as u8, rank))
                    } else {
                        ' '
                    },
            ),
            text@ == head + squares.take(2 * file),
        decreases 8 - file,
    {
        push_char(text, char_on(pieces, (file, rank)));
        push_char(text, ' ');
        assert(squares.take(2 * file + 2) =~= squares.take(2 * file).push(
            squares[2 * file],
        ).push(squares[2 * file + 1]));
        file += 1;
    }
    push_char(text, '\n');
    assert(squares.take(16) =~= squares);
    assert(text@ =~= old(text)@ + rank_line(pieces@, rank));
}

/// Draws the picture of a board whose pieces all stand on the board.
pub fn render_board(pieces: Vec<Piece>) -> (text: String)
    requires
        all_in_bounds(pieces@),
    ensures
        text@ == picture(pieces@),
{
    let mut text = String::from_str(HEADING);
    let mut rank: u8 = 0;
    assert(text@ =~= HEADING@ + rank_lines(pieces@, 0));
    while rank < 8
        invariant
            rank <= 8,
            text@ == HEADING@ + rank_lines(pieces@, rank as nat),
        decreases 8 - rank,
    {
        push_rank_line(&mut text, &pieces, rank);
        assert(rank_lines(pieces@, (rank + 1) as nat) == rank_lines(pieces@, rank as nat)
            + rank_line(pieces@, rank));
        rank += 1;
    }
    text
}

} // verus!
