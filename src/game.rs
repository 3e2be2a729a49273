//! Chess game: coordinates, pieces, history and the board.

pub mod board;
pub mod color;
pub mod history;
pub mod laws;
pub mod level;
pub mod movegen;
pub mod piece;
pub mod rules;
pub mod turn;
pub mod table;
pub mod vectors;

pub use board::Board;
pub use color::Color;
pub use history::History;
pub use level::Level;
pub use piece::Piece;

use crate::error::Error;
use vstd::prelude::*;

verus! {

/// The file letter of column `col` (0 is `a`).
pub open spec fn file_char(col: int) -> char {
    if col == 0 { 'a' }
    else if col == 1 { 'b' }
    else if col == 2 { 'c' }
    else if col == 3 { 'd' }
    else if col == 4 { 'e' }
    else if col == 5 { 'f' }
    else if col == 6 { 'g' }
    else { 'h' }
}

/// The rank digit of row `row` (0 is `1`).
pub open spec fn rank_char(row: int) -> char {
    if row == 0 { '1' }
    else if row == 1 { '2' }
    else if row == 2 { '3' }
    else if row == 3 { '4' }
    else if row == 4 { '5' }
    else if row == 5 { '6' }
    else if row == 6 { '7' }
    else { '8' }
}

/// The column of a file letter, or -1 when it is none of `a`..`h`.
pub open spec fn file_of(ch: char) -> int {
    if ch == 'a' { 0 }
    else if ch == 'b' { 1 }
    else if ch == 'c' { 2 }
    else if ch == 'd' { 3 }
    else if ch == 'e' { 4 }
    else if ch == 'f' { 5 }
    else if ch == 'g' { 6 }
    else if ch == 'h' { 7 }
    else { -1 }
}

/// The row of a rank digit, or -1 when it is none of `1`..`8`.
pub open spec fn rank_of(ch: char) -> int {
    if ch == '1' { 0 }
    else if ch == '2' { 1 }
    else if ch == '3' { 2 }
    else if ch == '4' { 3 }
    else if ch == '5' { 4 }
    else if ch == '6' { 5 }
    else if ch == '7' { 6 }
    else if ch == '8' { 7 }
    else { -1 }
}

/// Whether (row, col) lies on the board.
pub open spec fn on_board(row: int, col: int) -> bool {
    0 <= row < 8 && 0 <= col < 8
}

/// The algebraic name of a square, e.g. `e4`.
pub open spec fn cell_name(row: int, col: int) -> Seq<char> {
    seq![file_char(col), rank_char(row)]
}

/// The square that an algebraic name denotes, if it is well formed.
pub open spec fn parse_cell(s: Seq<char>) -> Option<(int, int)> {
    if s.len() == 2 && file_of(s[0]) >= 0 && rank_of(s[1]) >= 0 {
        Some((rank_of(s[1]), file_of(s[0])))
    } else {
        None
    }
}

fn invalid_notation() -> (e: Error)
    ensures
        e is InvalidNotation,
{
    Error::InvalidNotation(String::from_str("use proper notation, examples: 'a1' 'b2' 'h8'"))
}

/// Convert chess notation into (row, col).
pub fn convert(cell: &str) -> (r: Result<(i8, i8), Error>)
    ensures
        match r {
            Ok((row, col)) => parse_cell(cell@) == Some((row as int, col as int)),
            Err(e) => parse_cell(cell@) is None && e is InvalidNotation,
        },
{
    if cell.unicode_len() != 2 {
        return Err(invalid_notation());
    }
    let col: i8 = match cell.get_char(0) {
        'a' => 0,
        'b' => 1,
        'c' => 2,
        'd' => 3,
        'e' => 4,
        'f' => 5,
        'g' => 6,
        'h' => 7,
        _ => return Err(invalid_notation()),
    };
    let row: i8 = match cell.get_char(1) {
        '1' => 0,
        '2' => 1,
        '3' => 2,
        '4' => 3,
        '5' => 4,
        '6' => 5,
        '7' => 6,
        '8' => 7,
        _ => return Err(invalid_notation()),
    };
    Ok((row, col))
}

fn file_str(col: i8) -> (s: &'static str)
    requires
        0 <= col < 8,
    ensures
        s@ == seq![file_char(col as int)],
{
    proof {
        reveal_strlit("a");
        reveal_strlit("b");
        reveal_strlit("c");
        reveal_strlit("d");
        reveal_strlit("e");
        reveal_strlit("f");
        reveal_strlit("g");
        reveal_strlit("h");
    }
    match col {
        0 => "a",
        1 => "b",
        2 => "c",
        3 => "d",
        4 => "e",
        5 => "f",
        6 => "g",
        _ => "h",
    }
}

fn rank_str(row: i8) -> (s: &'static str)
    requires
        0 <= row < 8,
    ensures
        s@ == seq![rank_char(row as int)],
{
    proof {
        reveal_strlit("1");
        reveal_strlit("2");
        reveal_strlit("3");
        reveal_strlit("4");
        reveal_strlit("5");
        reveal_strlit("6");
        reveal_strlit("7");
        reveal_strlit("8");
    }
    match row {
        0 => "1",
        1 => "2",
        2 => "3",
        3 => "4",
        4 => "5",
        5 => "6",
        6 => "7",
        _ => "8",
    }
}

/// The name of an on-board square; the infallible core of `invert`.
pub fn square_name(row: i8, col: i8) -> (r: String)
    requires
        on_board(row as int, col as int),
    ensures
        r@ == cell_name(row as int, col as int),
{
    let r = String::from_str(file_str(col)).concat(rank_str(row));
    assert(r@ =~= cell_name(row as int, col as int));
    r
}

/// Convert (row, col) into chess notation.
pub fn invert(row: i8, col: i8) -> (r: Result<String, Error>)
    ensures
        match r {
            Ok(s) => on_board(row as int, col as int) && s@ == cell_name(row as int, col as int),
            Err(e) => !on_board(row as int, col as int) && e is InvalidNotation,
        },
{
    if col < 0 || col > 7 {
        return Err(Error::InvalidNotation(String::from_str("col must be one of (01234567)")));
    }
    if row < 0 || row > 7 {
        return Err(Error::InvalidNotation(String::from_str("row must be one of (01234567)")));
    }
    Ok(square_name(row, col))
}

/// The opposing colour.
pub fn get_enemy_color(color: Color) -> (r: Color)
    ensures
        r == color.spec_opposite(),
{
    match color {
        Color::Black => Color::White,
        Color::White => Color::Black,
    }
}

/// Naming a well-formed cell and parsing it back gives the same text.
pub proof fn lemma_convert_then_invert(s: Seq<char>, row: int, col: int)
    requires
        parse_cell(s) == Some((row, col)),
    ensures
        on_board(row, col),
        cell_name(row, col) == s,
{
    assert(cell_name(row, col) =~= s);
}

/// Parsing the name of any on-board square gives that square back.
pub proof fn lemma_invert_then_convert(row: int, col: int)
    requires
        on_board(row, col),
    ensures
        parse_cell(cell_name(row, col)) == Some((row, col)),
{
}

} // verus!
