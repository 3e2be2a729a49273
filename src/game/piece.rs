//! A chess piece.

use crate::game::color::Color;
use crate::game::level::Level;
use vstd::prelude::*;

verus! {

/// A chess piece: its kind, colour and glyph, the forward direction of a
/// pawn and the first-move flag of a pawn, rook or king.
#[derive(Clone, Debug, PartialEq, Eq)]
pub struct Piece {
    pub level: Level,
    pub color: Color,
    pub icon: String,
    pub mv_unit: Option<i8>,
    pub moved: Option<bool>,
}

/// The glyph of a piece of the given kind and colour.
pub open spec fn icon_of(level: Level, color: Color) -> Seq<char> {
    match color {
        Color::Black => match level {
            Level::Pawn => "♟"@,
            Level::Rook => "♜"@,
            Level::Bishop => "♝"@,
            Level::Knight => "♞"@,
            Level::Queen => "♛"@,
            Level::King => "♚"@,
        },
        Color::White => match level {
            Level::Pawn => "♙"@,
            Level::Rook => "♖"@,
            Level::Bishop => "♗"@,
            Level::Knight => "♘"@,
            Level::Queen => "♕"@,
            Level::King => "♔"@,
        },
    }
}

/// The row step towards promotion: +1 for White, -1 for Black.
pub open spec fn forward(color: Color) -> int {
    match color {
        Color::White => 1,
        Color::Black => -1,
    }
}

impl Piece {
    /// A piece as the engine keeps it: the glyph matches kind and colour,
    /// only a pawn has a direction, and only a pawn, rook or king has a
    /// first-move flag.
    pub open spec fn wf(&self) -> bool {
        &&& self.icon@ == icon_of(self.level, self.color)
        &&& self.mv_unit == (if self.level == Level::Pawn {
            Some(forward(self.color) as i8)
        } else {
            None
        })
        &&& (self.moved is Some <==> self.level.tracks_moved())
    }

    /// Whether the piece has made its first move (only ever true for a
    /// pawn, rook or king).
    pub open spec fn has_moved(&self) -> bool {
        self.moved == Some(true)
    }

    /// Create a new piece of the given kind and colour that has not moved.
    pub fn new(level: Level, color: Color) -> (r: Piece)
        ensures
            r.wf(),
            r.level == level,
            r.color == color,
            r.moved == (if level.tracks_moved() { Some(false) } else { None::<bool> }),
    {
        let icon = match color {
            Color::Black => match level {
                Level::Pawn => "♟",
                Level::Rook => "♜",
                Level::Bishop => "♝",
                Level::Knight => "♞",
                Level::Queen => "♛",
                Level::King => "♚",
            },
            Color::White => match level {
                Level::Pawn => "♙",
                Level::Rook => "♖",
                Level::Bishop => "♗",
                Level::Knight => "♘",
                Level::Queen => "♕",
                Level::King => "♔",
            },
        };
        let icon = String::from_str(icon);
        let (moved, mv_unit) = match level {
            Level::Pawn => match color {
                Color::Black => (Some(false), Some(-1i8)),
                Color::White => (Some(false), Some(1i8)),
            },
            Level::Rook | Level::King => (Some(false), None),
            _ => (None, None),
        };
        Piece { level, color, icon, mv_unit, moved }
    }

    /// A copy of this piece.
    pub fn duplicate(&self) -> (r: Piece)
        ensures
            r == *self,
    {
        Piece {
            level: self.level,
            color: self.color,
            icon: self.icon.clone(),
            mv_unit: self.mv_unit,
            moved: self.moved,
        }
    }

    /// The glyph of this piece.
    pub fn to_string(&self) -> (r: String)
        ensures
            r@ == self.icon@,
    {
        self.icon.clone()
    }
}

impl Default for Piece {
    /// A white pawn with no glyph, no direction and no first-move flag.
    fn default() -> (r: Piece)
        ensures
            r.level == Level::Pawn,
            r.color == Color::White,
            r.icon@ == Seq::<char>::empty(),
            r.mv_unit is None,
            r.moved is None,
    {
        Piece {
            level: Level::Pawn,
            color: Color::White,
            icon: String::new(),
            mv_unit: None,
            moved: None,
        }
    }
}

/// A copy of an optional piece.
pub fn duplicate_cell(cell: &Option<Piece>) -> (r: Option<Piece>)
    ensures
        r == *cell,
{
    match cell {
        Some(p) => Some(p.duplicate()),
        None => None,
    }
}

} // verus!
