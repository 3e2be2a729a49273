//! One entry of the move history.

use crate::game::piece::Piece;
use vstd::prelude::*;

verus! {

/// A record of one executed move: where it went from and to, what it
/// displaced, and whether it was the mover's first move.
#[derive(Clone, Debug, PartialEq, Eq)]
pub struct History {
    pub from: String,
    pub to: String,
    pub captured: Option<Piece>,
    pub has_moved: Option<bool>,
}

impl History {
    /// The record as text: `moves <from> to <to>`, followed by the glyph of
    /// the displaced piece when there was one.
    pub open spec fn describe(&self) -> Seq<char> {
        "moves "@ + self.from@ + " to "@ + self.to@ + match self.captured {
            Some(p) => ", "@ + p.icon@ + "  captured"@,
            None => Seq::<char>::empty(),
        }
    }

    /// The record as text.
    pub fn to_string(&self) -> (r: String)
        ensures
            r@ == self.describe(),
    {
        let mut r = String::from_str("moves ");
        r.append(self.from.as_str());
        r.append(" to ");
        r.append(self.to.as_str());
        match &self.captured {
            Some(p) => {
                r.append(", ");
                r.append(p.icon.as_str());
                r.append("  captured");
            },
            None => {},
        }
        assert(r@ =~= self.describe());
        r
    }
}

} // verus!
