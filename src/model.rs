//! Records of a game as the lobby keeps it: status, winner and the
//! colour a player holds.

use crate::game::color;
use crate::game::turn::Verdict;
use vstd::prelude::*;

verus! {

/// Status of a game: waiting for a second player, being played, or over.
#[derive(Clone, Copy, Debug, PartialEq, Eq, Structural)]
pub enum Status {
    Waiting,
    Playing,
    GameOver,
}

impl Status {
    /// The status as lower-case text.
    pub open spec fn text(self) -> Seq<char> {
        match self {
            Status::Waiting => "waiting"@,
            Status::Playing => "playing"@,
            Status::GameOver => "game over"@,
        }
    }

    /// The status as lower-case text.
    pub fn as_str(&self) -> (r: &'static str)
        ensures
            r@ == self.text(),
    {
        match *self {
            Status::Waiting => "waiting",
            Status::Playing => "playing",
            Status::GameOver => "game over",
        }
    }
}

impl Default for Status {
    fn default() -> (r: Status)
        ensures
            r == Status::Waiting,
    {
        Status::Waiting
    }
}

/// Outcome of a game: not decided yet, a draw, or a win for one side.
#[derive(Clone, Copy, Debug, PartialEq, Eq, Structural)]
pub enum Winner {
    NotDecided,
    Draw,
    White,
    Black,
}

impl Winner {
    /// The win for the side of `color`.
    pub fn from_color(color: Color) -> (r: Winner)
        ensures
            r == match color {
                Color::Black => Winner::Black,
                Color::White => Winner::White,
            },
    {
        match color {
            Color::Black => Winner::Black,
            Color::White => Winner::White,
        }
    }
}

impl Default for Winner {
    fn default() -> (r: Winner)
        ensures
            r == Winner::NotDecided,
    {
        Winner::NotDecided
    }
}

/// The side a player holds.
#[derive(Clone, Copy, Debug, PartialEq, Eq, Hash, Structural)]
pub enum Color {
    White,
    Black,
}

impl Color {
    /// The side's colour on the board.
    pub open spec fn spec_as_color(self) -> color::Color {
        match self {
            Color::White => color::Color::White,
            Color::Black => color::Color::Black,
        }
    }

    /// The other side.
    pub open spec fn spec_opposite(self) -> Color {
        match self {
            Color::White => Color::Black,
            Color::Black => Color::White,
        }
    }

    /// The other side.
    pub fn opposite(&self) -> (r: Color)
        ensures
            r == self.spec_opposite(),
    {
        match *self {
            Color::Black => Color::White,
            Color::White => Color::Black,
        }
    }

    /// The side as lower-case text.
    pub fn as_str(&self) -> (r: &'static str)
        ensures
            r@ == match *self {
                Color::White => "white"@,
                Color::Black => "black"@,
            },
    {
        match *self {
            Color::White => "white",
            Color::Black => "black",
        }
    }

    /// The side's colour on the board.
    pub fn as_color(&self) -> (r: color::Color)
        ensures
            r == self.spec_as_color(),
    {
        match *self {
            Color::Black => color::Color::Black,
            Color::White => color::Color::White,
        }
    }
}

/// The seat given to a player who joins a room, and the room's status
/// afterwards: the first player takes White and the status stays; a second
/// player takes the colour opposite to the one already seated, which starts
/// a waiting game; a room whose game is being played admits nobody.
pub fn join_room(status: Status, seated: Option<Color>) -> (r: Option<(Color, Status)>)
    ensures
        r == match seated {
            None => Some((Color::White, status)),
            Some(c) => match status {
                Status::GameOver => Some((c.spec_opposite(), Status::GameOver)),
                Status::Waiting => Some((c.spec_opposite(), Status::Playing)),
                Status::Playing => None,
            },
        },
{
    match seated {
        None => Some((Color::White, status)),
        Some(c) => match status {
            Status::GameOver => Some((c.opposite(), Status::GameOver)),
            Status::Waiting => Some((c.opposite(), Status::Playing)),
            Status::Playing => None,
        },
    }
}

/// The room's status after a player leaves: a finished game stays
/// finished, any other goes back to waiting.
pub fn status_after_leave(status: Status) -> (r: Status)
    ensures
        r == if status == Status::GameOver { Status::GameOver } else { Status::Waiting },
{
    match status {
        Status::GameOver => Status::GameOver,
        _ => Status::Waiting,
    }
}

/// Status and winner after a turn of `mover` ended with `verdict`: a mate
/// ends the game won by the mover, a stalemate ends it drawn, anything else
/// leaves both as they were.
pub fn after_verdict(verdict: Verdict, mover: Color, status: Status, winner: Winner) -> (r: (Status, Winner))
    ensures
        r == match verdict {
            Verdict::Checkmate => (Status::GameOver, match mover {
                Color::White => Winner::White,
                Color::Black => Winner::Black,
            }),
            Verdict::Draw => (Status::GameOver, Winner::Draw),
            _ => (status, winner),
        },
{
    match verdict {
        Verdict::Checkmate => (Status::GameOver, Winner::from_color(mover)),
        Verdict::Draw => (Status::GameOver, Winner::Draw),
        _ => (status, winner),
    }
}

} // verus!
