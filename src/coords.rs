use vstd::prelude::*;
use vstd::string::{StrSliceExecFns, StringExecFns};
use crate::board::Square;
use crate::types::Piece;

verus! {

/// The square named by a file letter `a`..`h` and a rank digit `1`..`8`, if
/// `s` is such a name.
pub open spec fn parse_square(s: Seq<char>) -> Option<Square> {
    if s.len() == 2 && 'a' <= s[0] <= 'h' && '1' <= s[1] <= '8' {
        Some(((s[0] as int - 'a' as int) as usize, (s[1] as int - '1' as int) as usize))
    } else {
        None
    }
}

pub open spec fn file_letters() -> Seq<char> {
    seq!['a', 'b', 'c', 'd', 'e', 'f', 'g', 'h']
}

pub open spec fn rank_digits() -> Seq<char> {
    seq!['1', '2', '3', '4', '5', '6', '7', '8']
}

/// The name of an on-board square: its file letter, then its rank digit.
pub open spec fn square_name(s: Square) -> Seq<char> {
    seq![file_letters()[s.0 as int], rank_digits()[s.1 as int]]
}

/// The promotion choice that `s` names, if any.
pub open spec fn promotion_named(s: Seq<char>) -> Option<Piece> {
    if s == "Queen"@ {
        Some(Piece::Queen)
    } else if s == "Bishop"@ {
        Some(Piece::Bishop)
    } else if s == "Knight"@ {
        Some(Piece::Knight)
    } else if s == "Rook"@ {
        Some(Piece::Rook)
    } else {
        None
    }
}

/// Reads a square name such as `e4`.
pub fn parse_position(position: &String) -> (r: Option<Square>)
    ensures
        r == parse_square(position@),
{
    let text = position.as_str();
    if text.unicode_len() != 2 {
        return None;
    }
    let file = text.get_char(0);
    let rank = text.get_char(1);
    if file < 'a' || file > 'h' || rank < '1' || rank > '8' {
        return None;
    }
    Some(((file as u32 - 'a' as u32) as usize, (rank as u32 - '1' as u32) as usize))
}

/// Writes the name of an on-board square, such as `e4`.
pub fn format_position(square: Square) -> (r: String)
    requires
        square.0 < 8,
        square.1 < 8,
    ensures
        r@ == square_name(square),
{
    let files = "abcdefgh";
    let ranks = "12345678";
    proof {
        reveal_strlit("abcdefgh");
        reveal_strlit("12345678");
    }
    assert(files@ =~= file_letters());
    assert(ranks@ =~= rank_digits());
    let name = String::from_str(files.substring_char(square.0, square.0 + 1));
    let r = name.concat(ranks.substring_char(square.1, square.1 + 1));
    assert(r@ =~= square_name(square));
    r
}

/// Reads a promotion choice: `Queen`, `Bishop`, `Knight` or `Rook`.
pub fn parse_piece(input: &String) -> (r: Option<Piece>)
    ensures
        r == promotion_named(input@),
{
    if *input == String::from_str("Queen") {
        Some(Piece::Queen)
    } else if *input == String::from_str("Bishop") {
        Some(Piece::Bishop)
    } else if *input == String::from_str("Knight") {
        Some(Piece::Knight)
    } else if *input == String::from_str("Rook") {
        Some(Piece::Rook)
    } else {
        None
    }
}

} // verus!
