//! Rules engine for two-player chess: board state, move generation,
//! move execution with undo, castling, promotion and end-of-game queries.

pub mod error;
pub mod game;
pub mod model;
