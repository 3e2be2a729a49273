//! Errors of the chess engine.

use vstd::prelude::*;

verus! {

/// Every failure the engine reports, each with a human-readable detail.
#[derive(Debug)]
pub enum Error {
    InvalidNotation(String),
    PromotionError(String),
    CastlingError(String),
    IllegalMoves(String),
    GameError(String),
}

impl Error {
    /// The heading that `message` puts before the detail of this error.
    pub open spec fn heading(&self) -> Seq<char> {
        match self {
            Error::InvalidNotation(_) => "Invalid Chess Notation: "@,
            Error::PromotionError(_) => "Promotion Error: "@,
            Error::CastlingError(_) => "Castling Error: "@,
            Error::IllegalMoves(_) => "Invalid Moves: "@,
            Error::GameError(_) => "Game Error: "@,
        }
    }

    /// The detail carried by this error.
    pub open spec fn detail(&self) -> Seq<char> {
        match self {
            Error::InvalidNotation(m) => m@,
            Error::PromotionError(m) => m@,
            Error::CastlingError(m) => m@,
            Error::IllegalMoves(m) => m@,
            Error::GameError(m) => m@,
        }
    }

    /// Human-readable description: the heading of the kind followed by the detail.
    pub fn message(&self) -> (r: String)
        ensures
            r@ == self.heading() + self.detail(),
    {
        match self {
            Error::InvalidNotation(m) => String::from_str("Invalid Chess Notation: ").concat(m.as_str()),
            Error::PromotionError(m) => String::from_str("Promotion Error: ").concat(m.as_str()),
            Error::CastlingError(m) => String::from_str("Castling Error: ").concat(m.as_str()),
            Error::IllegalMoves(m) => String::from_str("Invalid Moves: ").concat(m.as_str()),
            Error::GameError(m) => String::from_str("Game Error: ").concat(m.as_str()),
        }
    }
}

} // verus!
