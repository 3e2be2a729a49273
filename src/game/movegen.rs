//! Move generation: destinations and attacked squares of a piece.

use crate::game::board::{cells_wf, index, Board};
use crate::game::color::Color;
use crate::game::level::Level;
use crate::game::piece::{forward, Piece};
use crate::game::rules::{attacks, pawn_attacks, pawn_moves, ray, rays, sq, targets};
use crate::game::vectors::{direction_count, get_direction, get_direction_count, get_reach};
use crate::game::on_board;
use vstd::prelude::*;

verus! {

/// 64 unset marks.
pub fn no_marks() -> (r: Vec<bool>)
    ensures
        r@.len() == 64,
        forall|i: int| 0 <= i < 64 ==> !#[trigger] r@[i],
{
    let mut r: Vec<bool> = Vec::new();
    let mut i: usize = 0;
    while i < 64
        invariant
            i <= 64,
            r@.len() == i,
            forall|j: int| 0 <= j < i ==> !#[trigger] r@[j],
        decreases 64 - i,
    {
        r.push(false);
        i += 1;
    }
    r
}

/// Marks that stand for exactly the squares of `s`.
pub open spec fn marks_of(marks: Seq<bool>, s: Set<(int, int)>) -> bool {
    &&& marks.len() == 64
    &&& forall|row: int, col: int|
        on_board(row, col) ==> #[trigger] marks[sq(row, col)] == s.contains((row, col))
}

/// Mark square (row, col).
fn mark(marks: &mut Vec<bool>, row: i8, col: i8)
    requires
        old(marks)@.len() == 64,
        on_board(row as int, col as int),
    ensures
        final(marks)@ == old(marks)@.update(sq(row as int, col as int), true),
{
    let i = index(row, col);
    marks.set(i, true);
}

impl Board {
    /// Walk a ray from (row, col) and mark the squares it reaches.
    fn walk_ray(&self, color: Color, row: i8, col: i8, dr: i8, dc: i8, steps: u8, marks: &mut Vec<bool>)
        requires
            cells_wf(self.cells@),
            old(marks)@.len() == 64,
            on_board(row as int, col as int),
            -2 <= dr <= 2,
            -2 <= dc <= 2,
        ensures
            final(marks)@.len() == 64,
            forall|r: int, c: int|
                on_board(r, c) ==> #[trigger] final(marks)@[sq(r, c)] == (old(marks)@[sq(r, c)]
                    || ray(self.cells@, color, row as int, col as int, dr as int, dc as int, steps as nat).contains((r, c))),
        decreases steps,
    {
        if steps == 0 {
            return;
        }
        let nr = row + dr;
        let nc = col + dc;
        if nr < 0 || nr > 7 || nc < 0 || nc > 7 {
            return;
        }
        match &self.cells[index(nr, nc)] {
            Some(p) => {
                if p.color != color {
                    mark(marks, nr, nc);
                }
            },
            None => {
                mark(marks, nr, nc);
                self.walk_ray(color, nr, nc, dr, dc, steps - 1, marks);
            },
        }
    }

    /// Marks of the squares that the rays of a non-pawn piece reach.
    fn ray_marks(&self, color: Color, row: i8, col: i8, level: Level) -> (marks: Vec<bool>)
        requires
            cells_wf(self.cells@),
            on_board(row as int, col as int),
        ensures
            marks_of(marks@, rays(self.cells@, color, row as int, col as int, level, direction_count(level))),
    {
        let mut marks = no_marks();
        let n = get_direction_count(level);
        let steps = get_reach(level);
        let mut i: u8 = 0;
        while i < n
            invariant
                cells_wf(self.cells@),
                on_board(row as int, col as int),
                n as int == direction_count(level),
                steps as nat == crate::game::vectors::reach(level),
                i <= n,
                marks_of(marks@, rays(self.cells@, color, row as int, col as int, level, i as int)),
            decreases n - i,
        {
            let (dr, dc) = get_direction(level, i);
            self.walk_ray(color, row, col, dr, dc, steps, &mut marks);
            i += 1;
        }
        marks
    }

    /// Marks of the squares a pawn may move to.
    fn pawn_marks(&self, p: &Piece, row: i8, col: i8) -> (marks: Vec<bool>)
        requires
            cells_wf(self.cells@),
            p.wf(),
            p.level == Level::Pawn,
            on_board(row as int, col as int),
        ensures
            marks_of(marks@, pawn_moves(self.cells@, *p, row as int, col as int)),
    {
        let mut marks = no_marks();
        let d: i8 = match p.color {
            Color::White => 1,
            Color::Black => -1,
        };
        assert(d as int == forward(p.color));
        let nr = row + d;
        if nr < 0 || nr > 7 {
            return marks;
        }
        if self.cells[index(nr, col)].is_none() {
            mark(&mut marks, nr, col);
            let far = row + 2 * d;
            if p.moved != Some(true) && 0 <= far && far <= 7 {
                mark(&mut marks, far, col);
            }
        }
        if col + 1 <= 7 {
            match &self.cells[index(nr, col + 1)] {
                Some(q) => {
                    if q.color != p.color {
                        mark(&mut marks, nr, col + 1);
                    }
                },
                None => {},
            }
        }
        if col - 1 >= 0 {
            match &self.cells[index(nr, col - 1)] {
                Some(q) => {
                    if q.color != p.color {
                        mark(&mut marks, nr, col - 1);
                    }
                },
                None => {},
            }
        }
        marks
    }

    /// Marks of the squares a pawn attacks.
    fn pawn_attack_marks(&self, p: &Piece, row: i8, col: i8) -> (marks: Vec<bool>)
        requires
            cells_wf(self.cells@),
            p.wf(),
            p.level == Level::Pawn,
            on_board(row as int, col as int),
        ensures
            marks_of(marks@, pawn_attacks(self.cells@, *p, row as int, col as int)),
    {
        let mut marks = no_marks();
        let d: i8 = match p.color {
            Color::White => 1,
            Color::Black => -1,
        };
        assert(d as int == forward(p.color));
        let nr = row + d;
        if nr < 0 || nr > 7 {
            return marks;
        }
        if col + 1 <= 7 {
            match &self.cells[index(nr, col + 1)] {
                Some(q) => {
                    if q.color != p.color {
                        mark(&mut marks, nr, col + 1);
                    }
                },
                None => mark(&mut marks, nr, col + 1),
            }
        }
        if col - 1 >= 0 {
            match &self.cells[index(nr, col - 1)] {
                Some(q) => {
                    if q.color != p.color {
                        mark(&mut marks, nr, col - 1);
                    }
                },
                None => mark(&mut marks, nr, col - 1),
            }
        }
        marks
    }

    /// Marks of the pseudo-legal destinations of the piece on (row, col).
    pub fn target_marks(&self, row: i8, col: i8) -> (marks: Vec<bool>)
        requires
            cells_wf(self.cells@),
            on_board(row as int, col as int),
        ensures
            marks_of(marks@, targets(self.cells@, row as int, col as int)),
    {
        match &self.cells[index(row, col)] {
            None => no_marks(),
            Some(p) => {
                if p.level == Level::Pawn {
                    self.pawn_marks(p, row, col)
                } else {
                    self.ray_marks(p.color, row, col, p.level)
                }
            },
        }
    }

    /// Marks of the squares the piece on (row, col) attacks.
    pub fn attack_marks(&self, row: i8, col: i8) -> (marks: Vec<bool>)
        requires
            cells_wf(self.cells@),
            on_board(row as int, col as int),
        ensures
            marks_of(marks@, attacks(self.cells@, row as int, col as int)),
    {
        match &self.cells[index(row, col)] {
            None => no_marks(),
            Some(p) => {
                if p.level == Level::Pawn {
                    self.pawn_attack_marks(p, row, col)
                } else {
                    self.ray_marks(p.color, row, col, p.level)
                }
            },
        }
    }
}

} // verus!
