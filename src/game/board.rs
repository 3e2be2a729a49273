//! The chess board.

use crate::error::Error;
use crate::game::color::Color;
use crate::game::history::History;
use crate::game::level::Level;
use crate::game::movegen::marks_of;
use crate::game::piece::{duplicate_cell, Piece};
use crate::game::rules::{
    after_move_piece, apply_move, at, attacked, attacks, board_text, can_castle, castled,
    escape, find_king, first_move_flag, has_escape, holds, in_check, is_mate, is_stalemate, joined,
    lemma_listing_empty, lemma_targets_elsewhere, lemma_undo_after_move, listing, move_message,
    move_table, name_order, positions, promotable, reached_names, revert, row_text, sorted_names, sq,
    square_of, targets,
};
use crate::game::table::{entry_view, names_of, CellMap};
use crate::game::{cell_name, convert, lemma_invert_then_convert, on_board, parse_cell, square_name};
use vstd::prelude::*;

verus! {

/// An 8x8 board, stored row by row (row 0 is White's back rank, column 0
/// is file a), and the history of executed moves, oldest first.
#[derive(Clone, Debug, PartialEq, Eq)]
pub struct Board {
    pub cells: Vec<Option<Piece>>,
    pub history: Vec<History>,
}

/// 64 cells, each empty or holding a well-formed piece.
pub open spec fn cells_wf(cells: Seq<Option<Piece>>) -> bool {
    &&& cells.len() == 64
    &&& forall|i: int| 0 <= i < 64 && #[trigger] cells[i] is Some ==> cells[i]->Some_0.wf()
}

/// The kind on the back rank at column `col`.
pub open spec fn back_rank(col: int) -> Level {
    if col == 0 || col == 7 { Level::Rook }
    else if col == 1 || col == 6 { Level::Knight }
    else if col == 2 || col == 5 { Level::Bishop }
    else if col == 3 { Level::Queen }
    else { Level::King }
}

/// Kind and colour on square (row, col) in the starting position.
pub open spec fn initial_kind(row: int, col: int) -> Option<(Level, Color)> {
    if row == 0 { Some((back_rank(col), Color::White)) }
    else if row == 1 { Some((Level::Pawn, Color::White)) }
    else if row == 6 { Some((Level::Pawn, Color::Black)) }
    else if row == 7 { Some((back_rank(col), Color::Black)) }
    else { None }
}

/// The piece `Piece::new` makes: its kind, colour and a clear first-move flag.
pub open spec fn is_fresh(p: Piece, level: Level, color: Color) -> bool {
    &&& p.wf()
    &&& p.level == level
    &&& p.color == color
    &&& p.moved == (if level.tracks_moved() { Some(false) } else { None::<bool> })
}

/// Index of an on-board square in the cell vector.
pub fn index(row: i8, col: i8) -> (r: usize)
    requires
        on_board(row as int, col as int),
    ensures
        r as int == sq(row as int, col as int),
        r < 64,
{
    (row as usize) * 8 + (col as usize)
}

fn back_rank_kind(col: i8) -> (r: Level)
    ensures
        r == back_rank(col as int),
{
    if col == 0 || col == 7 { Level::Rook }
    else if col == 1 || col == 6 { Level::Knight }
    else if col == 2 || col == 5 { Level::Bishop }
    else if col == 3 { Level::Queen }
    else { Level::King }
}

fn initial_cell(row: i8, col: i8) -> (r: Option<Piece>)
    ensures
        match initial_kind(row as int, col as int) {
            None => r is None,
            Some((l, c)) => r is Some && is_fresh(r->Some_0, l, c),
        },
{
    if row == 0 {
        Some(Piece::new(back_rank_kind(col), Color::White))
    } else if row == 1 {
        Some(Piece::new(Level::Pawn, Color::White))
    } else if row == 6 {
        Some(Piece::new(Level::Pawn, Color::Black))
    } else if row == 7 {
        Some(Piece::new(back_rank_kind(col), Color::Black))
    } else {
        None
    }
}

/// The names of the marked squares, sorted.
fn marked_names(marks: &Vec<bool>, Ghost(s): Ghost<Set<(int, int)>>) -> (r: Vec<String>)
    requires
        marks_of(marks@, s),
    ensures
        names_of(r@) == sorted_names(s),
{
    let mut r: Vec<String> = Vec::new();
    let mut k: usize = 0;
    while k < 64
        invariant
            k <= 64,
            marks_of(marks@, s),
            names_of(r@) == listing(s, k as int),
        decreases 64 - k,
    {
        let row = (k % 8) as i8;
        let col = (k / 8) as i8;
        assert(name_order(k as int) == (row as int, col as int));
        let i = index(row, col);
        if marks[i] {
            let name = square_name(row, col);
            proof {
                assert(names_of(r@.push(name)) =~= names_of(r@).push(name@));
            }
            r.push(name);
        }
        k += 1;
    }
    r
}

/// Text summarising a move of `p` from `src` to `des` that displaced `captured`.
fn describe_move(p: &Piece, src: &str, des: &str, captured: &Option<Piece>) -> (r: String)
    ensures
        r@ == move_message(*p, src@, des@, *captured),
{
    let mut r = String::from_str("Moving ");
    r.append(p.color.to_string().as_str());
    r.append(" ");
    r.append(p.level.to_string().as_str());
    r.append(" from ");
    r.append(src);
    r.append(" to ");
    r.append(des);
    match captured {
        Some(c) => {
            r.append(", captured ");
            r.append(c.color.to_string().as_str());
            r.append(" ");
            r.append(c.level.to_string().as_str());
        },
        None => {},
    }
    proof {
        assert(r@ =~= move_message(*p, src@, des@, *captured));
    }
    r
}

/// The pieces of `color` that the records of `h` displaced, oldest first.
pub open spec fn captured_of(h: Seq<History>, color: Color) -> Seq<Piece>
    decreases h.len(),
{
    if h.len() == 0 {
        Seq::empty()
    } else {
        let rest = captured_of(h.drop_last(), color);
        match h.last().captured {
            Some(p) => if p.color == color { rest.push(p) } else { rest },
            None => rest,
        }
    }
}

/// Whether the last record of `h` can be undone on `cells`: it names two
/// cells and a piece stands on the second.
pub open spec fn undo_ok(cells: Seq<Option<Piece>>, h: Seq<History>) -> bool {
    &&& h.len() > 0
    &&& parse_cell(h.last().from@) is Some
    &&& (parse_cell(h.last().to@) matches Some((tr, tc)) && at(cells, tr, tc) is Some)
}

/// Whether moving from `src` to `des` is a pseudo-legal move on `cells`.
pub open spec fn move_ok(cells: Seq<Option<Piece>>, src: Seq<char>, des: Seq<char>) -> bool {
    match (parse_cell(src), parse_cell(des)) {
        (Some((sr, sc)), Some((dr, dc))) => at(cells, sr, sc) is Some && targets(cells, sr, sc).contains(
            (dr, dc),
        ),
        _ => false,
    }
}

impl Board {
    /// The board holds 64 well-formed cells, and each piece in its history
    /// is well formed.
    pub open spec fn wf(&self) -> bool {
        &&& cells_wf(self.cells@)
        &&& forall|i: int|
            0 <= i < self.history@.len() && (#[trigger] self.history@[i]).captured is Some
                ==> self.history@[i].captured->Some_0.wf()
    }

    /// Create a board in the standard starting position, with no history.
    pub fn new() -> (r: Board)
        ensures
            r.wf(),
            r.history@.len() == 0,
            forall|row: int, col: int|
                on_board(row, col) ==> match initial_kind(row, col) {
                    None => #[trigger] at(r.cells@, row, col) is None,
                    Some((l, c)) => at(r.cells@, row, col) is Some
                        && is_fresh(at(r.cells@, row, col)->Some_0, l, c),
                },
    {
        let mut cells: Vec<Option<Piece>> = Vec::new();
        let mut row: i8 = 0;
        while row < 8
            invariant
                0 <= row <= 8,
                cells@.len() == 8 * row,
                forall|i: int| 0 <= i < cells@.len() && #[trigger] cells@[i] is Some ==> cells@[i]->Some_0.wf(),
                forall|r: int, c: int|
                    0 <= r < row && 0 <= c < 8 ==> match initial_kind(r, c) {
                        None => #[trigger] at(cells@, r, c) is None,
                        Some((l, k)) => at(cells@, r, c) is Some
                            && is_fresh(at(cells@, r, c)->Some_0, l, k),
                    },
            decreases 8 - row,
        {
            let mut col: i8 = 0;
            while col < 8
                invariant
                    0 <= row < 8,
                    0 <= col <= 8,
                    cells@.len() == 8 * row + col,
                    forall|i: int| 0 <= i < cells@.len() && #[trigger] cells@[i] is Some ==> cells@[i]->Some_0.wf(),
                    forall|r: int, c: int|
                        ((0 <= r < row && 0 <= c < 8) || (r == row && 0 <= c < col)) ==> match initial_kind(r, c) {
                            None => #[trigger] at(cells@, r, c) is None,
                            Some((l, k)) => at(cells@, r, c) is Some
                                && is_fresh(at(cells@, r, c)->Some_0, l, k),
                        },
                decreases 8 - col,
            {
                let cell = initial_cell(row, col);
                let ghost before = cells@;
                cells.push(cell);
                proof {
                    assert forall|r: int, c: int|
                        ((0 <= r < row && 0 <= c < 8) || (r == row && 0 <= c <= col))
                        implies #[trigger] at(cells@, r, c) == if r == row && c == col {
                            cell
                        } else {
                            at(before, r, c)
                        } by {
                        assert(sq(r, c) <= sq(row as int, col as int));
                    }
                }
                col += 1;
            }
            row += 1;
        }
        Board { cells, history: Vec::new() }
    }

    /// The piece on a cell, if any.
    pub fn get(&self, cell: &str) -> (r: Result<Option<Piece>, Error>)
        requires
            self.wf(),
        ensures
            match r {
                Ok(p) => parse_cell(cell@) matches Some((row, col)) && p == at(self.cells@, row, col),
                Err(e) => parse_cell(cell@) is None && e is InvalidNotation,
            },
    {
        let (row, col) = convert(cell)?;
        Ok(duplicate_cell(&self.cells[index(row, col)]))
    }

    /// Place a piece on (or clear) a cell, without writing history.
    pub fn set(&mut self, cell: &str, piece: Option<Piece>) -> (r: Result<(), Error>)
        requires
            old(self).wf(),
            piece matches Some(p) ==> p.wf(),
        ensures
            final(self).wf(),
            final(self).history@ == old(self).history@,
            match r {
                Ok(_) => parse_cell(cell@) matches Some((row, col))
                    && final(self).cells@ == old(self).cells@.update(sq(row, col), piece),
                Err(e) => parse_cell(cell@) is None && e is InvalidNotation
                    && final(self).cells@ == old(self).cells@,
            },
    {
        let (row, col) = convert(cell)?;
        self.put(index(row, col), piece);
        Ok(())
    }

    /// Store `piece` in cell number `i`.
    fn put(&mut self, i: usize, piece: Option<Piece>)
        requires
            old(self).wf(),
            i < 64,
            piece matches Some(p) ==> p.wf(),
        ensures
            final(self).wf(),
            final(self).history@ == old(self).history@,
            final(self).cells@ == old(self).cells@.update(i as int, piece),
    {
        self.cells.set(i, piece);
    }

    /// The moves recorded so far, oldest first.
    pub fn get_history(&self) -> (r: &Vec<History>)
        ensures
            r == &self.history,
    {
        &self.history
    }

    /// Whether cell number `k` holds a piece of `color`.
    fn holds_at(&self, k: usize, color: Color) -> (r: bool)
        requires
            cells_wf(self.cells@),
            k < 64,
        ensures
            r == holds(self.cells@, square_of(k as int).0, square_of(k as int).1, color),
    {
        match &self.cells[k] {
            Some(p) => p.color == color,
            None => false,
        }
    }

    /// Cells holding a piece of `color`, row by row.
    pub fn get_pieces_positions_by_color(&self, color: Color) -> (r: Result<Vec<String>, Error>)
        requires
            self.wf(),
        ensures
            r matches Ok(v) && names_of(v@) == positions(self.cells@, color, 64),
    {
        let mut all_pos: Vec<String> = Vec::new();
        let mut k: usize = 0;
        while k < 64
            invariant
                self.wf(),
                k <= 64,
                names_of(all_pos@) == positions(self.cells@, color, k as int),
            decreases 64 - k,
        {
            if self.holds_at(k, color) {
                let pos = square_name((k / 8) as i8, (k % 8) as i8);
                proof {
                    assert(names_of(all_pos@.push(pos)) =~= names_of(all_pos@).push(pos@));
                }
                all_pos.push(pos);
            }
            k += 1;
        }
        Ok(all_pos)
    }

    /// Sorted names of the squares the piece on (row, col) may move to or,
    /// if `attack`, attacks.
    fn reached(&self, row: i8, col: i8, attack: bool) -> (r: Vec<String>)
        requires
            cells_wf(self.cells@),
            on_board(row as int, col as int),
        ensures
            names_of(r@) == reached_names(self.cells@, (row as int, col as int), attack),
    {
        if attack {
            let marks = self.attack_marks(row, col);
            marked_names(&marks, Ghost(attacks(self.cells@, row as int, col as int)))
        } else {
            let marks = self.target_marks(row, col);
            marked_names(&marks, Ghost(targets(self.cells@, row as int, col as int)))
        }
    }

    /// For each piece of `color` that reaches some square, its cell and the
    /// sorted cells it reaches, row by row.
    fn table(&self, color: Color, attack: bool) -> (r: CellMap)
        requires
            self.wf(),
        ensures
            r@ == move_table(self.cells@, color, 64, attack),
    {
        let mut entries: Vec<(String, Vec<String>)> = Vec::new();
        let mut k: usize = 0;
        while k < 64
            invariant
                self.wf(),
                k <= 64,
                entries@.map_values(|e: (String, Vec<String>)| entry_view(e))
                    == move_table(self.cells@, color, k as int, attack),
            decreases 64 - k,
        {
            if self.holds_at(k, color) {
                let row = (k / 8) as i8;
                let col = (k % 8) as i8;
                let list = self.reached(row, col, attack);
                if list.len() > 0 {
                    let entry = (square_name(row, col), list);
                    proof {
                        assert(entries@.push(entry).map_values(|e: (String, Vec<String>)| entry_view(e))
                            =~= entries@.map_values(|e: (String, Vec<String>)| entry_view(e)).push(entry_view(entry)));
                    }
                    entries.push(entry);
                }
            }
            k += 1;
        }
        CellMap { entries }
    }

    /// Sorted pseudo-legal destinations of the piece on `cell`.
    pub fn get_possible_moves(&self, cell: &str) -> (r: Result<Vec<String>, Error>)
        requires
            self.wf(),
        ensures
            match r {
                Ok(v) => parse_cell(cell@) matches Some((row, col))
                    && at(self.cells@, row, col) is Some
                    && names_of(v@) == sorted_names(targets(self.cells@, row, col)),
                Err(e) => match parse_cell(cell@) {
                    None => e is InvalidNotation,
                    Some((row, col)) => at(self.cells@, row, col) is None && e is IllegalMoves,
                },
            },
    {
        let (row, col) = convert(cell)?;
        if self.cells[index(row, col)].is_none() {
            return Err(Error::IllegalMoves(String::from_str("there is no piece on this cell")));
        }
        Ok(self.reached(row, col, false))
    }

    /// For each piece of `color` that can move, its cell and its sorted
    /// destinations, row by row.
    pub fn get_possible_moves_by_color(&self, color: Color) -> (r: Result<CellMap, Error>)
        requires
            self.wf(),
        ensures
            r matches Ok(m) && m@ == move_table(self.cells@, color, 64, false),
    {
        Ok(self.table(color, false))
    }

    /// For each piece of `color` that attacks some square, its cell and the
    /// sorted squares it attacks, row by row.
    pub fn get_possible_attack_by_color(&self, color: Color) -> (r: Result<CellMap, Error>)
        requires
            self.wf(),
        ensures
            r matches Ok(m) && m@ == move_table(self.cells@, color, 64, true),
    {
        Ok(self.table(color, true))
    }

    /// Append a record to the history.
    fn write_history(&mut self, from: String, to: String, piece: Option<Piece>, has_moved: Option<bool>)
        requires
            old(self).wf(),
            piece matches Some(p) ==> p.wf(),
        ensures
            final(self).wf(),
            final(self).cells@ == old(self).cells@,
            final(self).history@ == old(self).history@.push(
                History { from, to, captured: piece, has_moved },
            ),
    {
        self.history.push(History { from, to, captured: piece, has_moved });
    }

    /// Every piece of `color` that appears in the history as captured, in
    /// capture order.
    pub fn get_captured(&self, color: Color) -> (r: Result<Vec<Piece>, Error>)
        requires
            self.wf(),
        ensures
            r matches Ok(v) && v@ == captured_of(self.history@, color),
    {
        let mut captured_piece: Vec<Piece> = Vec::new();
        let mut i: usize = 0;
        while i < self.history.len()
            invariant
                i <= self.history@.len(),
                captured_piece@ == captured_of(self.history@.take(i as int), color),
            decreases self.history@.len() - i,
        {
            proof {
                assert(self.history@.take(i + 1).drop_last() =~= self.history@.take(i as int));
            }
            match &self.history[i].captured {
                Some(p) => {
                    if p.color == color {
                        captured_piece.push(p.duplicate());
                    }
                },
                None => {},
            }
            i += 1;
        }
        proof {
            assert(self.history@.take(i as int) =~= self.history@);
        }
        Ok(captured_piece)
    }

    /// Move the piece on `src_cell` to `des_cell`, which must be one of its
    /// pseudo-legal destinations, and record the move.
    pub fn moves_piece(&mut self, src_cell: &str, des_cell: &str) -> (r: Result<String, Error>)
        requires
            old(self).wf(),
        ensures
            final(self).wf(),
            match r {
                Ok(msg) => move_ok(old(self).cells@, src_cell@, des_cell@) && {
                    let (sr, sc) = parse_cell(src_cell@)->Some_0;
                    let (dr, dc) = parse_cell(des_cell@)->Some_0;
                    let p = at(old(self).cells@, sr, sc)->Some_0;
                    let h = final(self).history@.last();
                    &&& sq(sr, sc) != sq(dr, dc)
                    &&& final(self).cells@ == apply_move(old(self).cells@, sq(sr, sc), sq(dr, dc))
                    &&& final(self).history@.len() == old(self).history@.len() + 1
                    &&& final(self).history@.drop_last() == old(self).history@
                    &&& h.from@ == src_cell@
                    &&& h.to@ == des_cell@
                    &&& h.captured == at(old(self).cells@, dr, dc)
                    &&& h.has_moved == first_move_flag(p)
                    &&& msg@ == move_message(after_move_piece(p), src_cell@, des_cell@, h.captured)
                },
                Err(e) => {
                    &&& !move_ok(old(self).cells@, src_cell@, des_cell@)
                    &&& final(self).cells@ == old(self).cells@
                    &&& final(self).history@ == old(self).history@
                    &&& match (parse_cell(src_cell@), parse_cell(des_cell@)) {
                        (None, _) => e is InvalidNotation,
                        (Some((sr, sc)), None) => if at(old(self).cells@, sr, sc) is None {
                            e is IllegalMoves
                        } else {
                            e is InvalidNotation
                        },
                        (Some(_), Some(_)) => e is IllegalMoves,
                    }
                },
            },
    {
        let (sr, sc) = convert(src_cell)?;
        let si = index(sr, sc);
        let mut piece = match &self.cells[si] {
            Some(p) => p.duplicate(),
            None => {
                return Err(Error::IllegalMoves(String::from_str("there is no piece to move")));
            },
        };
        let (dr, dc) = convert(des_cell)?;
        let di = index(dr, dc);
        let marks = self.target_marks(sr, sc);
        if !marks[di] {
            let mut msg = String::from_str("can't move ");
            msg.append(src_cell);
            msg.append(" to ");
            msg.append(des_cell);
            return Err(Error::IllegalMoves(msg));
        }
        proof {
            lemma_targets_elsewhere(self.cells@, sr as int, sc as int, (dr as int, dc as int));
        }
        let mut has_moved: Option<bool> = None;
        if piece.moved == Some(false) {
            piece.moved = Some(true);
            has_moved = Some(true);
        }
        let captured = duplicate_cell(&self.cells[di]);
        let msg = describe_move(&piece, src_cell, des_cell, &captured);
        self.put(di, Some(piece));
        self.put(si, None);
        self.write_history(String::from_str(src_cell), String::from_str(des_cell), captured, has_moved);
        Ok(msg)
    }

    /// Undo the last recorded move.
    pub fn undo_moves(&mut self) -> (r: Result<String, Error>)
        requires
            old(self).wf(),
        ensures
            final(self).wf(),
            match r {
                Ok(msg) => undo_ok(old(self).cells@, old(self).history@) && {
                    let h = old(self).history@.last();
                    let (fr, fc) = parse_cell(h.from@)->Some_0;
                    let (tr, tc) = parse_cell(h.to@)->Some_0;
                    &&& final(self).cells@ == revert(old(self).cells@, sq(fr, fc), sq(tr, tc), h.captured, h.has_moved)
                    &&& final(self).history@ == old(self).history@.drop_last()
                    &&& msg@ == "Undo the moves from "@ + h.from@ + " to "@ + h.to@
                },
                Err(e) => {
                    &&& !undo_ok(old(self).cells@, old(self).history@)
                    &&& final(self).cells@ == old(self).cells@
                    &&& final(self).history@ == old(self).history@
                    &&& if old(self).history@.len() == 0 {
                        e is GameError
                    } else {
                        let h = old(self).history@.last();
                        if parse_cell(h.from@) is None || parse_cell(h.to@) is None {
                            e is InvalidNotation
                        } else {
                            e is GameError
                        }
                    }
                },
            },
    {
        let n = self.history.len();
        if n == 0 {
            return Err(Error::GameError(String::from_str("Already the oldest state.")));
        }
        let (fr, fc) = convert(self.history[n - 1].from.as_str())?;
        let (tr, tc) = convert(self.history[n - 1].to.as_str())?;
        let fi = index(fr, fc);
        let ti = index(tr, tc);
        let mut piece = match &self.cells[ti] {
            Some(p) => p.duplicate(),
            None => {
                return Err(Error::GameError(String::from_str("The last move cannot be undone.")));
            },
        };
        let ghost old_history = self.history@;
        let his = self.history.pop().unwrap();
        proof {
            assert(his == old_history[n - 1]);
            assert(self.history@ =~= old_history.drop_last());
            assert forall|i: int|
                0 <= i < self.history@.len() && (#[trigger] self.history@[i]).captured is Some
                    implies self.history@[i].captured->Some_0.wf() by {
                assert(self.history@[i] == old_history[i]);
            }
        }
        if his.has_moved.is_some() && piece.moved.is_some() {
            piece.moved = Some(false);
        }
        let mut msg = String::from_str("Undo the moves from ");
        msg.append(his.from.as_str());
        msg.append(" to ");
        msg.append(his.to.as_str());
        self.put(fi, Some(piece));
        self.put(ti, his.captured);
        proof {
            assert(msg@ =~= "Undo the moves from "@ + his.from@ + " to "@ + his.to@);
        }
        Ok(msg)
    }

    /// Index of the first cell, row by row, holding a king of `color`.
    fn king_index(&self, color: Color) -> (r: Option<usize>)
        requires
            cells_wf(self.cells@),
        ensures
            match r {
                Some(k) => find_king(self.cells@, color, 0) == Some(k as int) && k < 64,
                None => find_king(self.cells@, color, 0) is None,
            },
    {
        let mut k: usize = 0;
        while k < 64
            invariant
                cells_wf(self.cells@),
                k <= 64,
                find_king(self.cells@, color, 0) == find_king(self.cells@, color, k as int),
            decreases 64 - k,
        {
            if self.holds_at(k, color) {
                match &self.cells[k] {
                    Some(p) => {
                        if p.level == Level::King {
                            return Some(k);
                        }
                    },
                    None => {},
                }
            }
            k += 1;
        }
        None
    }

    /// The cell of the king of `color` (the first one, row by row).
    pub fn get_king_position(&self, color: Color) -> (r: Result<String, Error>)
        requires
            self.wf(),
        ensures
            match find_king(self.cells@, color, 0) {
                Some(k) => r matches Ok(s) && s@ == cell_name(square_of(k).0, square_of(k).1),
                None => r matches Err(e) && e is GameError,
            },
    {
        match self.king_index(color) {
            Some(k) => Ok(square_name((k / 8) as i8, (k % 8) as i8)),
            None => Err(Error::GameError(String::from_str("King is not found."))),
        }
    }

    /// Whether a piece of colour `by` attacks square (row, col).
    fn is_attacked(&self, by: Color, row: i8, col: i8) -> (r: bool)
        requires
            cells_wf(self.cells@),
            on_board(row as int, col as int),
        ensures
            r == attacked(self.cells@, by, row as int, col as int),
    {
        let target = index(row, col);
        let mut k: usize = 0;
        while k < 64
            invariant
                cells_wf(self.cells@),
                on_board(row as int, col as int),
                target as int == sq(row as int, col as int),
                k <= 64,
                forall|r: int, c: int|
                    0 <= r < 8 && 0 <= c < 8 && sq(r, c) < k && holds(self.cells@, r, c, by)
                        ==> !#[trigger] attacks(self.cells@, r, c).contains((row as int, col as int)),
            decreases 64 - k,
        {
            if self.holds_at(k, by) {
                let marks = self.attack_marks((k / 8) as i8, (k % 8) as i8);
                if marks[target] {
                    return true;
                }
            }
            k += 1;
        }
        false
    }

    /// Whether the king of `color` stands on a square the other side attacks.
    pub fn is_king_checked(&self, king_color: Color) -> (r: Result<bool, Error>)
        requires
            self.wf(),
        ensures
            match find_king(self.cells@, king_color, 0) {
                Some(k) => r == Ok::<bool, Error>(in_check(self.cells@, king_color)),
                None => r matches Err(e) && e is GameError,
            },
    {
        match self.king_index(king_color) {
            Some(k) => {
                let enemy = crate::game::get_enemy_color(king_color);
                Ok(self.is_attacked(enemy, (k / 8) as i8, (k % 8) as i8))
            },
            None => Err(Error::GameError(String::from_str("King is not found."))),
        }
    }

    /// Whether some pseudo-legal move of `color` leaves its king standing
    /// and out of check; each move is tried and undone.
    fn find_escape(&mut self, color: Color) -> (r: bool)
        requires
            old(self).wf(),
        ensures
            final(self).wf(),
            final(self).cells@ == old(self).cells@,
            final(self).history@ == old(self).history@,
            r == has_escape(old(self).cells@, color),
    {
        let ghost cells0 = self.cells@;
        let ghost hist0 = self.history@;
        let mut k: usize = 0;
        while k < 64
            invariant
                self.wf(),
                self.cells@ == cells0,
                self.history@ == hist0,
                cells0 == old(self).cells@,
                hist0 == old(self).history@,
                k <= 64,
                forall|s: int, t: int| 0 <= s < k && 0 <= t < 64 ==> !#[trigger] escape(cells0, color, s, t),
            decreases 64 - k,
        {
            if self.holds_at(k, color) {
                let row = (k / 8) as i8;
                let col = (k % 8) as i8;
                let marks = self.target_marks(row, col);
                let src = square_name(row, col);
                let mut t: usize = 0;
                while t < 64
                    invariant
                        self.wf(),
                        self.cells@ == cells0,
                        self.history@ == hist0,
                        cells0 == old(self).cells@,
                        hist0 == old(self).history@,
                        k < 64,
                        t <= 64,
                        row as int == square_of(k as int).0,
                        col as int == square_of(k as int).1,
                        holds(cells0, row as int, col as int, color),
                        src@ == cell_name(row as int, col as int),
                        marks_of(marks@, targets(cells0, row as int, col as int)),
                        forall|s: int, t2: int| 0 <= s < k && 0 <= t2 < 64 ==> !#[trigger] escape(cells0, color, s, t2),
                        forall|t2: int| 0 <= t2 < t ==> !#[trigger] escape(cells0, color, k as int, t2),
                    decreases 64 - t,
                {
                    let tr = (t / 8) as i8;
                    let tc = (t % 8) as i8;
                    if marks[index(tr, tc)] {
                        let dst = square_name(tr, tc);
                        proof {
                            lemma_invert_then_convert(row as int, col as int);
                            lemma_invert_then_convert(tr as int, tc as int);
                            lemma_targets_elsewhere(cells0, row as int, col as int, (tr as int, tc as int));
                            lemma_undo_after_move(cells0, k as int, t as int);
                        }
                        assert(sq(tr as int, tc as int) == t);
                        let _ = self.moves_piece(src.as_str(), dst.as_str());
                        let safe = match self.is_king_checked(color) {
                            Ok(b) => !b,
                            Err(_) => false,
                        };
                        let _ = self.undo_moves();
                        assert(self.history@ =~= hist0);
                        if safe {
                            assert(escape(cells0, color, k as int, t as int));
                            return true;
                        }
                    }
                    t += 1;
                }
            }
            k += 1;
        }
        false
    }

    /// Whether the king of `color` is checkmated: it is in check and no
    /// pseudo-legal move gets it out. The board is left as it was.
    pub fn is_checkmate(&mut self, king_color: Color) -> (r: Result<bool, Error>)
        requires
            old(self).wf(),
        ensures
            final(self).wf(),
            final(self).cells@ == old(self).cells@,
            final(self).history@ == old(self).history@,
            match find_king(old(self).cells@, king_color, 0) {
                Some(_) => r == Ok::<bool, Error>(is_mate(old(self).cells@, king_color)),
                None => r matches Err(e) && e is GameError,
            },
    {
        if !self.is_king_checked(king_color)? {
            return Ok(false);
        }
        Ok(!self.find_escape(king_color))
    }

    /// Whether `color` has a pseudo-legal move that leaves its king out of
    /// check. The board is left as it was.
    pub fn has_safe_moves(&mut self, color: Color) -> (r: Result<bool, Error>)
        requires
            old(self).wf(),
        ensures
            final(self).wf(),
            final(self).cells@ == old(self).cells@,
            final(self).history@ == old(self).history@,
            match find_king(old(self).cells@, color, 0) {
                Some(_) => r == Ok::<bool, Error>(has_escape(old(self).cells@, color)),
                None => r matches Err(e) && e is GameError,
            },
    {
        if self.king_index(color).is_none() {
            return Err(Error::GameError(String::from_str("King is not found.")));
        }
        Ok(self.find_escape(color))
    }

    /// Whether `color` is stalemated: not in check, and every pseudo-legal
    /// move leaves its king in check. The board is left as it was.
    pub fn is_draw(&mut self, color: Color) -> (r: Result<bool, Error>)
        requires
            old(self).wf(),
        ensures
            final(self).wf(),
            final(self).cells@ == old(self).cells@,
            final(self).history@ == old(self).history@,
            match find_king(old(self).cells@, color, 0) {
                Some(_) => r == Ok::<bool, Error>(is_stalemate(old(self).cells@, color)),
                None => r matches Err(e) && e is GameError,
            },
    {
        if self.is_king_checked(color)? {
            return Ok(false);
        }
        if self.has_safe_moves(color)? {
            return Ok(false);
        }
        Ok(true)
    }

    /// Replace the pawn on `cell`, which stands on its last row, with a new
    /// piece of `promotion_level` (neither pawn nor king) and the same colour.
    pub fn promote(&mut self, cell: &str, promotion_level: Level) -> (r: Result<String, Error>)
        requires
            old(self).wf(),
        ensures
            final(self).wf(),
            final(self).history@ == old(self).history@,
            match r {
                Ok(msg) => parse_cell(cell@) matches Some((row, col)) && {
                    &&& promotable(old(self).cells@, row, col, promotion_level)
                    &&& final(self).cells@.len() == 64
                    &&& forall|i: int| 0 <= i < 64 && i != sq(row, col)
                        ==> #[trigger] final(self).cells@[i] == old(self).cells@[i]
                    &&& at(final(self).cells@, row, col) is Some
                    &&& is_fresh(
                        at(final(self).cells@, row, col)->Some_0,
                        promotion_level,
                        at(old(self).cells@, row, col)->Some_0.color,
                    )
                    &&& msg@ == "Promoted to "@ + promotion_level.name()
                },
                Err(e) => final(self).cells@ == old(self).cells@ && match parse_cell(cell@) {
                    None => e is InvalidNotation,
                    Some((row, col)) => !promotable(old(self).cells@, row, col, promotion_level)
                        && e is PromotionError,
                },
            },
    {
        let (row, col) = convert(cell)?;
        let i = index(row, col);
        let color = match &self.cells[i] {
            Some(p) => {
                if p.level != Level::Pawn {
                    return Err(Error::PromotionError(String::from_str("Only a pawn can be promoted.")));
                }
                p.color
            },
            None => {
                return Err(Error::PromotionError(String::from_str("Only a pawn can be promoted.")));
            },
        };
        let last_row: i8 = match color {
            Color::White => 7,
            Color::Black => 0,
        };
        if row != last_row {
            return Err(Error::PromotionError(String::from_str("Can't promote this pawn yet")));
        }
        match promotion_level {
            Level::Pawn => {
                return Err(Error::PromotionError(String::from_str("Can't promote a pawn to a pawn.")));
            },
            Level::King => {
                return Err(Error::PromotionError(String::from_str("Can't promote a pawn to a king.")));
            },
            _ => {},
        }
        self.put(i, Some(Piece::new(promotion_level, color)));
        let msg = String::from_str("Promoted to ").concat(promotion_level.to_string().as_str());
        Ok(msg)
    }

    /// Castle the king on `king_cell` with the rook on `rook_cell`.
    pub fn castling(&mut self, king_cell: &str, rook_cell: &str) -> (r: Result<String, Error>)
        requires
            old(self).wf(),
        ensures
            final(self).wf(),
            match r {
                Ok(msg) => match (parse_cell(king_cell@), parse_cell(rook_cell@)) {
                    (Some(k), Some(q)) => {
                        &&& can_castle(old(self).cells@, k, q)
                        &&& final(self).cells@ == castled(old(self).cells@, k, q)
                        &&& final(self).history@.len() == old(self).history@.len() + 1
                        &&& final(self).history@.drop_last() == old(self).history@
                        &&& final(self).history@.last().from@ == king_cell@
                        &&& final(self).history@.last().to@ == rook_cell@
                        &&& final(self).history@.last().captured is None
                        &&& final(self).history@.last().has_moved == Some(true)
                        &&& msg@ == "Castling "@ + king_cell@ + " and "@ + rook_cell@
                    },
                    _ => false,
                },
                Err(e) => {
                    &&& final(self).cells@ == old(self).cells@
                    &&& final(self).history@ == old(self).history@
                    &&& match (parse_cell(king_cell@), parse_cell(rook_cell@)) {
                        (Some(k), Some(q)) => {
                            let cells = old(self).cells@;
                            &&& !can_castle(cells, k, q)
                            &&& if at(cells, k.0, k.1) is Some && at(cells, q.0, q.1) is Some
                                && at(cells, k.0, k.1)->Some_0.color == at(cells, q.0, q.1)->Some_0.color
                                && find_king(cells, at(cells, k.0, k.1)->Some_0.color, 0) is None {
                                e is GameError
                            } else {
                                e is CastlingError
                            }
                        },
                        _ => e is InvalidNotation,
                    }
                },
            },
    {
        let (kr, kc) = convert(king_cell)?;
        let (rr, rc) = convert(rook_cell)?;
        let ki = index(kr, kc);
        let ri = index(rr, rc);
        let mut king = match &self.cells[ki] {
            Some(p) => p.duplicate(),
            None => {
                return Err(Error::CastlingError(String::from_str("There is no king to castle")));
            },
        };
        let mut rook = match &self.cells[ri] {
            Some(p) => p.duplicate(),
            None => {
                return Err(Error::CastlingError(String::from_str("There is no rook to castle")));
            },
        };
        if king.color != rook.color {
            return Err(Error::CastlingError(String::from_str("King and Rook have different color")));
        }
        match self.is_king_checked(king.color) {
            Ok(true) => {
                return Err(Error::CastlingError(String::from_str("King is in check.")));
            },
            Ok(false) => {},
            Err(e) => {
                return Err(e);
            },
        }
        if king.moved != Some(false) || rook.moved != Some(false) {
            return Err(Error::CastlingError(String::from_str("King or Rook has already moved")));
        }
        let (start, end) = if kc < rc { (kc, rc) } else { (rc, kc) };
        let enemy = crate::game::get_enemy_color(king.color);
        let mut y = start + 1;
        while y < end
            invariant
                self.wf(),
                self.cells@ == old(self).cells@,
                self.history@ == old(self).history@,
                0 <= kr < 8,
                0 <= start <= end < 8,
                start < y,
                y <= end || y == start + 1,
                (start == kc && end == rc) || (start == rc && end == kc),
                enemy == king.color.spec_opposite(),
                parse_cell(king_cell@) == Some((kr as int, kc as int)),
                parse_cell(rook_cell@) == Some((rr as int, rc as int)),
                at(self.cells@, kr as int, kc as int) == Some(king),
                at(self.cells@, rr as int, rc as int) == Some(rook),
                king.color == rook.color,
                find_king(self.cells@, king.color, 0) is Some,
                !in_check(self.cells@, king.color),
                king.moved == Some(false),
                rook.moved == Some(false),
                forall|x: int|
                    #![trigger at(self.cells@, kr as int, x)]
                    #![trigger attacked(self.cells@, enemy, kr as int, x)]
                    start < x < y ==> at(self.cells@, kr as int, x) is None && !attacked(
                        self.cells@,
                        enemy,
                        kr as int,
                        x,
                    ),
            decreases end - y,
        {
            if self.cells[index(kr, y)].is_some() {
                assert(at(self.cells@, kr as int, y as int) is Some);
                return Err(Error::CastlingError(String::from_str("Can't do castling, the path is blocked")));
            }
            if self.is_attacked(enemy, kr, y) {
                return Err(Error::CastlingError(String::from_str("Can't do castling, the path is under attack")));
            }
            assert(at(self.cells@, kr as int, y as int) is None);
            assert(!attacked(self.cells@, enemy, kr as int, y as int));
            y += 1;
        }
        king.moved = Some(true);
        rook.moved = Some(true);
        let row: i8 = match king.color {
            Color::White => 0,
            Color::Black => 7,
        };
        let (rook_col, king_col): (i8, i8) = if kc < rc { (5, 6) } else { (3, 2) };
        self.put(index(row, rook_col), Some(rook));
        self.put(ri, None);
        self.put(index(row, king_col), Some(king));
        self.put(ki, None);
        self.write_history(String::from_str(king_cell), String::from_str(rook_cell), None, Some(true));
        let mut msg = String::from_str("Castling ");
        msg.append(king_cell);
        msg.append(" and ");
        msg.append(rook_cell);
        proof {
            assert(msg@ =~= "Castling "@ + king_cell@ + " and "@ + rook_cell@);
        }
        Ok(msg)
    }

    /// The sorted destinations of the piece on `cell`, separated by spaces;
    /// empty when there are none or the cell is empty or ill-formed.
    pub fn get_possible_moves_as_string(&self, cell: &str) -> (r: String)
        requires
            self.wf(),
        ensures
            r@ == match parse_cell(cell@) {
                Some((row, col)) => joined(sorted_names(targets(self.cells@, row, col))),
                None => Seq::<char>::empty(),
            },
    {
        match self.get_possible_moves(cell) {
            Ok(moves) => {
                let mut r = String::new();
                let mut i: usize = 0;
                while i < moves.len()
                    invariant
                        i <= moves@.len(),
                        r@ == joined(names_of(moves@).take(i as int)),
                    decreases moves@.len() - i,
                {
                    proof {
                        assert(names_of(moves@).take(i + 1).drop_last() =~= names_of(moves@).take(i as int));
                    }
                    if i > 0 {
                        r.append(" ");
                    }
                    r.append(moves[i].as_str());
                    proof {
                        if i == 0 {
                            assert(r@ =~= joined(names_of(moves@).take(1)));
                        }
                    }
                    i += 1;
                }
                proof {
                    assert(names_of(moves@).take(i as int) =~= names_of(moves@));
                }
                r
            },
            Err(_) => {
                proof {
                    if let Some((row, col)) = parse_cell(cell@) {
                        assert(sorted_names(targets(self.cells@, row, col)) =~= Seq::<Seq<char>>::empty()) by {
                            lemma_listing_empty(targets(self.cells@, row, col), 64);
                        }
                    }
                }
                String::new()
            },
        }
    }

    /// The board as text: rows from the eighth rank down, each cell a glyph
    /// or a black square followed by a space, each row ending in a newline.
    pub fn render(&self) -> (r: String)
        requires
            cells_wf(self.cells@),
        ensures
            r@ == board_text(self.cells@, 8),
    {
        let mut r = String::new();
        let mut n: i8 = 0;
        while n < 8
            invariant
                cells_wf(self.cells@),
                0 <= n <= 8,
                r@ == board_text(self.cells@, n as int),
            decreases 8 - n,
        {
            let row = 7 - n;
            let mut col: i8 = 0;
            let ghost before = r@;
            while col < 8
                invariant
                    cells_wf(self.cells@),
                    0 <= n < 8,
                    row == 7 - n,
                    0 <= col <= 8,
                    r@ == before + row_text(self.cells@, row as int, col as int),
                decreases 8 - col,
            {
                match &self.cells[index(row, col)] {
                    Some(p) => {
                        r.append(p.icon.as_str());
                        r.append(" ");
                    },
                    None => {
                        r.append("⬛ ");
                    },
                }
                assert(r@ =~= before + row_text(self.cells@, row as int, col + 1));
                col += 1;
            }
            r.append("\n");
            assert(r@ =~= board_text(self.cells@, n + 1));
            n += 1;
        }
        r
    }
}

} // verus!
