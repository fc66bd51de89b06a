//! Square labels such as `D2`: a file letter from `A` to `H` followed by a
//! rank digit from `1` to `8`.

use vstd::prelude::*;
use vstd::string::*;
use crate::piece::{in_bounds, Piece, Square};
use crate::board::{is_occupied, occupied};

verus! {

/// The pattern of a square label, in the syntax of the `regex` crate.
pub const LABEL_PATTERN: &'static str = "^[A-H][1-8]$";

/// The text is a square label.
pub open spec fn is_label(text: Seq<char>) -> bool {
    &&& text.len() == 2
    &&& 'A' <= text[0] <= 'H'
    &&& '1' <= text[1] <= '8'
}

/// The text begins with a square label.
pub open spec fn starts_with_label(text: Seq<char>) -> bool {
    &&& text.len() >= 2
    &&& 'A' <= text[0] <= 'H'
    &&& '1' <= text[1] <= '8'
}

/// The square that a label names: `A` is file 0, `1` is rank 0.
pub open spec fn label_square(text: Seq<char>) -> Square {
    ((text[0] as int - 'A' as int) as u8, (text[1] as int - '1' as int) as u8)
}

/// Why a line of input names no square to work with.
#[derive(Clone, Copy, PartialEq, Eq, Structural, Debug)]
pub enum InputError {
    /// The text is not a square label.
    BadFormat,
    /// A piece was asked for, and the square holds none.
    NoPiece,
}

/// The square that a text names, or why it names none: the text has to be
/// a label, and where a piece is asked for, the square has to hold one.
pub open spec fn position_choice(
    text: Seq<char>,
    pieces: Seq<Piece>,
    should_contain_piece: bool,
) -> Result<Square, InputError> {
    if !is_label(text) {
        Err(InputError::BadFormat)
    } else if should_contain_piece && !occupied(pieces, label_square(text)) {
        Err(InputError::NoPiece)
    } else {
        Ok(label_square(text))
    }
}

/// Reads the square off the first two characters of a text that begins
/// with a label.
pub fn parse_location(location: &str) -> (sq: Square)
    requires
        starts_with_label(location@),
    ensures
        sq == label_square(location@),
        in_bounds(sq),
{
    let column: char = location.get_char(0);
    let row: char = location.get_char(1);
    (column as u8 - 'A' as u8, row as u8 - '1' as u8)
}

/// The text that `str::to_uppercase` makes of a text.
pub uninterp spec fn uppercased(text: Seq<char>) -> Seq<char>;

/// The text that `str::trim` leaves of a text.
pub uninterp spec fn trimmed(text: Seq<char>) -> Seq<char>;

/// Calls `str::to_uppercase` of the standard library, which maps every
/// character to its upper case as Unicode defines it. The contract names
/// the result and claims nothing more of it.
#[verifier::external_body]
fn to_upper(text: &str) -> (upper: String)
    ensures
        upper@ == uppercased(text@),
{
    text.to_uppercase()
}

/// Calls `str::trim` of the standard library, which drops the white space
/// at both ends of a text. The contract names the result and claims nothing
/// more of it.
#[verifier::external_body]
fn trim(text: &str) -> (inner: &str)
    ensures
        inner@ == trimmed(text@),
{
    text.trim()
}

/// Compiles `pattern` with `regex::Regex::new` and searches `haystack` for
/// a match with `Regex::is_match`; `None` stands for a pattern that does not
/// compile.
///
/// The contract speaks of [`LABEL_PATTERN`] only. As the syntax of the
/// `regex` crate reads that pattern, `^` and `$` hold a match to the whole
/// haystack, and the two classes between them take one character each, so
/// the search succeeds on square labels and on nothing else.
#[verifier::external_body]
fn regex_is_match(pattern: &str, haystack: &str) -> (found: Option<bool>)
    ensures
        pattern@ == LABEL_PATTERN@ ==> found == Some(is_label(haystack@)),
{
    match regex::Regex::new(pattern) {
        Ok(re) => Some(re.is_match(haystack)),
        Err(_) => None,
    }
}

/// Reads a square off a text that has been brought to upper case and
/// trimmed already.
pub fn position_of_label(text: &str, pieces: &Vec<Piece>, should_contain_piece: bool) -> (result:
    Result<Square, InputError>)
    ensures
        result == position_choice(text@, pieces@, should_contain_piece),
{
    match regex_is_match(LABEL_PATTERN, text) {
        Some(true) => {
            let sq = parse_location(text);
            if !should_contain_piece || is_occupied(pieces, sq) {
                Ok(sq)
            } else {
                Err(InputError::NoPiece)
            }
        },
        _ => Err(InputError::BadFormat),
    }
}

/// Reads a square off a line of input. Lower-case letters count as their
/// upper case, and white space around the label is dropped.
pub fn read_position(line: &str, pieces: &Vec<Piece>, should_contain_piece: bool) -> (result:
    Result<Square, InputError>)
    ensures
        result == position_choice(trimmed(uppercased(line@)), pieces@, should_contain_piece),
{
    let upper = to_upper(line);
    let text = trim(upper.as_str());
    position_of_label(text, pieces, should_contain_piece)
}

} // verus!
