//! Kind (level) of a chess piece.

use vstd::prelude::*;

verus! {

/// The six kinds of chess pieces.
#[derive(Debug, Clone, Copy, PartialEq, Eq, Structural)]
pub enum Level {
    Pawn,
    King,
    Queen,
    Rook,
    Bishop,
    Knight,
}

impl Level {
    /// The kind's name.
    pub open spec fn name(self) -> Seq<char> {
        match self {
            Level::Pawn => "Pawn"@,
            Level::King => "King"@,
            Level::Queen => "Queen"@,
            Level::Rook => "Rook"@,
            Level::Bishop => "Bishop"@,
            Level::Knight => "Knight"@,
        }
    }

    /// Whether pieces of this kind carry a first-move flag.
    pub open spec fn tracks_moved(self) -> bool {
        self == Level::Pawn || self == Level::Rook || self == Level::King
    }

    /// The kind's name as a `String`.
    pub fn to_string(&self) -> (r: String)
        ensures
            r@ == self.name(),
    {
        match self {
            Level::Pawn => String::from_str("Pawn"),
            Level::King => String::from_str("King"),
            Level::Queen => String::from_str("Queen"),
            Level::Rook => String::from_str("Rook"),
            Level::Bishop => String::from_str("Bishop"),
            Level::Knight => String::from_str("Knight"),
        }
    }
}

impl Default for Level {
    fn default() -> (r: Level)
        ensures
            r == Level::Pawn,
    {
        Level::Pawn
    }
}

} // verus!
