//! The rules of movement, stated over the board's cells as a sequence of
//! 64 optional pieces, row by row.

use crate::game::color::Color;
use crate::game::level::Level;
use crate::game::piece::{forward, Piece};
use crate::game::vectors::{direction, direction_count, reach};
use crate::game::{cell_name, on_board};
use vstd::prelude::*;

verus! {

/// Index of square (row, col) in the row-by-row cell sequence.
pub open spec fn sq(row: int, col: int) -> int {
    8 * row + col
}

/// What stands on square (row, col).
pub open spec fn at(cells: Seq<Option<Piece>>, row: int, col: int) -> Option<Piece> {
    cells[sq(row, col)]
}

/// Whether square (row, col) holds a piece of the given colour.
pub open spec fn holds(cells: Seq<Option<Piece>>, row: int, col: int, color: Color) -> bool {
    at(cells, row, col) is Some && at(cells, row, col)->Some_0.color == color
}

/// The squares reached by walking from (row, col) in steps of (dr, dc), at
/// most `steps` times: empty squares are passed, the walk stops before a
/// piece of `color` and on a piece of the other colour.
pub open spec fn ray(
    cells: Seq<Option<Piece>>,
    color: Color,
    row: int,
    col: int,
    dr: int,
    dc: int,
    steps: nat,
) -> Set<(int, int)>
    decreases steps,
{
    let nr = row + dr;
    let nc = col + dc;
    if steps == 0 || !on_board(nr, nc) {
        Set::empty()
    } else if at(cells, nr, nc) is Some {
        if at(cells, nr, nc)->Some_0.color == color {
            Set::empty()
        } else {
            set![(nr, nc)]
        }
    } else {
        ray(cells, color, nr, nc, dr, dc, (steps - 1) as nat).insert((nr, nc))
    }
}

/// The union of the rays of the first `n` directions of `level`.
pub open spec fn rays(
    cells: Seq<Option<Piece>>,
    color: Color,
    row: int,
    col: int,
    level: Level,
    n: int,
) -> Set<(int, int)>
    decreases n,
{
    if n <= 0 {
        Set::empty()
    } else {
        let d = direction(level, n - 1);
        rays(cells, color, row, col, level, n - 1).union(
            ray(cells, color, row, col, d.0, d.1, reach(level)),
        )
    }
}

/// The diagonal square in front of pawn `p` at (row, col), on side `dc`,
/// if it is on the board.
pub open spec fn pawn_side(row: int, col: int, p: Piece, dc: int) -> bool {
    on_board(row + forward(p.color), col + dc)
}

/// The squares a pawn at (row, col) may move to: one step forward onto an
/// empty square, and then also two steps while it has not moved (the second
/// square is not looked at); one step diagonally forward onto an enemy.
pub open spec fn pawn_moves(cells: Seq<Option<Piece>>, p: Piece, row: int, col: int) -> Set<(int, int)> {
    let nr = row + forward(p.color);
    let one = if on_board(nr, col) && at(cells, nr, col) is None {
        if !p.has_moved() && on_board(row + 2 * forward(p.color), col) {
            set![(nr, col), (row + 2 * forward(p.color), col)]
        } else {
            set![(nr, col)]
        }
    } else {
        Set::empty()
    };
    let right = if pawn_side(row, col, p, 1) && at(cells, nr, col + 1) is Some
        && at(cells, nr, col + 1)->Some_0.color != p.color {
        set![(nr, col + 1)]
    } else {
        Set::empty()
    };
    let left = if pawn_side(row, col, p, -1) && at(cells, nr, col - 1) is Some
        && at(cells, nr, col - 1)->Some_0.color != p.color {
        set![(nr, col - 1)]
    } else {
        Set::empty()
    };
    one.union(right).union(left)
}

/// The squares a pawn at (row, col) attacks: the two diagonal squares in
/// front of it that are on the board and empty or held by an enemy.
pub open spec fn pawn_attacks(cells: Seq<Option<Piece>>, p: Piece, row: int, col: int) -> Set<(int, int)> {
    let nr = row + forward(p.color);
    let right = if pawn_side(row, col, p, 1) && !holds(cells, nr, col + 1, p.color) {
        set![(nr, col + 1)]
    } else {
        Set::empty()
    };
    let left = if pawn_side(row, col, p, -1) && !holds(cells, nr, col - 1, p.color) {
        set![(nr, col - 1)]
    } else {
        Set::empty()
    };
    right.union(left)
}

/// The pseudo-legal destinations of the piece on (row, col).
pub open spec fn targets(cells: Seq<Option<Piece>>, row: int, col: int) -> Set<(int, int)> {
    match at(cells, row, col) {
        None => Set::empty(),
        Some(p) => if p.level == Level::Pawn {
            pawn_moves(cells, p, row, col)
        } else {
            rays(cells, p.color, row, col, p.level, direction_count(p.level))
        },
    }
}

/// The squares the piece on (row, col) attacks: its destinations, except
/// for a pawn, which attacks its two forward diagonals.
pub open spec fn attacks(cells: Seq<Option<Piece>>, row: int, col: int) -> Set<(int, int)> {
    match at(cells, row, col) {
        None => Set::empty(),
        Some(p) => if p.level == Level::Pawn {
            pawn_attacks(cells, p, row, col)
        } else {
            targets(cells, row, col)
        },
    }
}

/// The k-th square in the order of names (by file, then by rank).
pub open spec fn name_order(k: int) -> (int, int) {
    (k % 8, k / 8)
}

/// The names of the squares of `s` among the first `k` in name order.
pub open spec fn listing(s: Set<(int, int)>, k: int) -> Seq<Seq<char>>
    decreases k,
{
    if k <= 0 {
        Seq::empty()
    } else {
        let q = name_order(k - 1);
        if s.contains(q) {
            listing(s, k - 1).push(cell_name(q.0, q.1))
        } else {
            listing(s, k - 1)
        }
    }
}

/// The sorted names of the squares of `s`.
pub open spec fn sorted_names(s: Set<(int, int)>) -> Seq<Seq<char>> {
    listing(s, 64)
}

/// The square of row-major index `k`.
pub open spec fn square_of(k: int) -> (int, int) {
    (k / 8, k % 8)
}

/// Names of the squares among the first `k` (row by row) that hold a piece
/// of `color`.
pub open spec fn positions(cells: Seq<Option<Piece>>, color: Color, k: int) -> Seq<Seq<char>>
    decreases k,
{
    if k <= 0 {
        Seq::empty()
    } else {
        let q = square_of(k - 1);
        if holds(cells, q.0, q.1, color) {
            positions(cells, color, k - 1).push(cell_name(q.0, q.1))
        } else {
            positions(cells, color, k - 1)
        }
    }
}

/// The sorted names of the squares the piece on `q` may move to, or, if
/// `attack`, attacks.
pub open spec fn reached_names(cells: Seq<Option<Piece>>, q: (int, int), attack: bool) -> Seq<Seq<char>> {
    if attack {
        sorted_names(attacks(cells, q.0, q.1))
    } else {
        sorted_names(targets(cells, q.0, q.1))
    }
}

/// For each of the first `k` squares (row by row) holding a piece of
/// `color` that reaches some square: its name and the sorted names of what
/// it reaches (its moves, or, if `attack`, its attacks).
pub open spec fn move_table(cells: Seq<Option<Piece>>, color: Color, k: int, attack: bool) -> Seq<
    (Seq<char>, Seq<Seq<char>>),
>
    decreases k,
{
    if k <= 0 {
        Seq::empty()
    } else {
        let q = square_of(k - 1);
        let l = reached_names(cells, q, attack);
        if holds(cells, q.0, q.1, color) && l.len() > 0 {
            move_table(cells, color, k - 1, attack).push((cell_name(q.0, q.1), l))
        } else {
            move_table(cells, color, k - 1, attack)
        }
    }
}

/// The piece as it stands after moving: a pawn, rook or king making its
/// first move gets its flag set.
pub open spec fn after_move_piece(p: Piece) -> Piece {
    if p.moved == Some(false) {
        Piece { moved: Some(true), ..p }
    } else {
        p
    }
}

/// The history flag of a move of `p`: set only when this is the move that
/// first sets `p`'s first-move flag.
pub open spec fn first_move_flag(p: Piece) -> Option<bool> {
    if p.moved == Some(false) {
        Some(true)
    } else {
        None
    }
}

/// The cells after the piece on cell `s` moves to cell `d`.
pub open spec fn apply_move(cells: Seq<Option<Piece>>, s: int, d: int) -> Seq<Option<Piece>> {
    cells.update(d, Some(after_move_piece(cells[s]->Some_0))).update(s, None)
}

/// The piece as it stands after an undo: its first-move flag is cleared
/// when the undone move was its first.
pub open spec fn restore_piece(p: Piece, has_moved: Option<bool>) -> Piece {
    if has_moved is Some && p.moved is Some {
        Piece { moved: Some(false), ..p }
    } else {
        p
    }
}

/// The cells after undoing a move from cell `from` to cell `to` that
/// displaced `captured`.
pub open spec fn revert(
    cells: Seq<Option<Piece>>,
    from: int,
    to: int,
    captured: Option<Piece>,
    has_moved: Option<bool>,
) -> Seq<Option<Piece>> {
    cells.update(from, Some(restore_piece(cells[to]->Some_0, has_moved))).update(to, captured)
}

/// The summary of a move of `p` from `src` to `des` that displaced `captured`.
pub open spec fn move_message(p: Piece, src: Seq<char>, des: Seq<char>, captured: Option<Piece>) -> Seq<char> {
    "Moving "@ + p.color.name() + " "@ + p.level.name() + " from "@ + src + " to "@ + des + match captured {
        Some(c) => ", captured "@ + c.color.name() + " "@ + c.level.name(),
        None => Seq::<char>::empty(),
    }
}

/// No square reached along a ray holds a piece of the walker's colour.
pub proof fn lemma_ray_not_own(
    cells: Seq<Option<Piece>>,
    color: Color,
    row: int,
    col: int,
    dr: int,
    dc: int,
    steps: nat,
    q: (int, int),
)
    requires
        ray(cells, color, row, col, dr, dc, steps).contains(q),
    ensures
        on_board(q.0, q.1),
        !holds(cells, q.0, q.1, color),
    decreases steps,
{
    let nr = row + dr;
    let nc = col + dc;
    if steps > 0 && on_board(nr, nc) && at(cells, nr, nc) is None && q != (nr, nc) {
        lemma_ray_not_own(cells, color, nr, nc, dr, dc, (steps - 1) as nat, q);
    }
}

/// No square reached along the rays of a kind holds a piece of the
/// walker's colour.
pub proof fn lemma_rays_not_own(
    cells: Seq<Option<Piece>>,
    color: Color,
    row: int,
    col: int,
    level: Level,
    n: int,
    q: (int, int),
)
    requires
        rays(cells, color, row, col, level, n).contains(q),
    ensures
        on_board(q.0, q.1),
        !holds(cells, q.0, q.1, color),
    decreases n,
{
    if n > 0 {
        let d = direction(level, n - 1);
        if rays(cells, color, row, col, level, n - 1).contains(q) {
            lemma_rays_not_own(cells, color, row, col, level, n - 1, q);
        } else {
            lemma_ray_not_own(cells, color, row, col, d.0, d.1, reach(level), q);
        }
    }
}

/// Every destination is on the board and differs from the mover's square.
pub proof fn lemma_targets_elsewhere(cells: Seq<Option<Piece>>, row: int, col: int, q: (int, int))
    requires
        targets(cells, row, col).contains(q),
    ensures
        on_board(q.0, q.1),
        q != (row, col),
{
    let p = at(cells, row, col)->Some_0;
    if p.level != Level::Pawn {
        lemma_rays_not_own(cells, p.color, row, col, p.level, direction_count(p.level), q);
    }
}

/// Whether cell `k` holds a king of `color`.
pub open spec fn king_at(cells: Seq<Option<Piece>>, color: Color, k: int) -> bool {
    holds(cells, square_of(k).0, square_of(k).1, color) && cells[k]->Some_0.level == Level::King
}

/// The first cell from `k` on, row by row, that holds a king of `color`.
pub open spec fn find_king(cells: Seq<Option<Piece>>, color: Color, k: int) -> Option<int>
    decreases 64 - k,
{
    if k < 0 || k >= 64 {
        None
    } else if king_at(cells, color, k) {
        Some(k)
    } else {
        find_king(cells, color, k + 1)
    }
}

/// Whether a piece of colour `by` attacks square (row, col).
pub open spec fn attacked(cells: Seq<Option<Piece>>, by: Color, row: int, col: int) -> bool {
    exists|r: int, c: int|
        on_board(r, c) && holds(cells, r, c, by) && #[trigger] attacks(cells, r, c).contains((row, col))
}

/// Whether the king of `color` (the first one, row by row) stands on a
/// square that the other side attacks.
pub open spec fn in_check(cells: Seq<Option<Piece>>, color: Color) -> bool {
    match find_king(cells, color, 0) {
        Some(k) => attacked(cells, color.spec_opposite(), square_of(k).0, square_of(k).1),
        None => false,
    }
}

/// Whether the king of `color` is on the board and not in check.
pub open spec fn king_safe(cells: Seq<Option<Piece>>, color: Color) -> bool {
    find_king(cells, color, 0) is Some && !in_check(cells, color)
}

/// Whether moving the piece of `color` on cell `s` to cell `t` is a
/// pseudo-legal move after which its king stands and is not in check.
pub open spec fn escape(cells: Seq<Option<Piece>>, color: Color, s: int, t: int) -> bool {
    &&& holds(cells, square_of(s).0, square_of(s).1, color)
    &&& targets(cells, square_of(s).0, square_of(s).1).contains(square_of(t))
    &&& king_safe(apply_move(cells, s, t), color)
}

/// Whether `color` has a pseudo-legal move that leaves its king out of check.
pub open spec fn has_escape(cells: Seq<Option<Piece>>, color: Color) -> bool {
    exists|s: int, t: int| 0 <= s < 64 && 0 <= t < 64 && #[trigger] escape(cells, color, s, t)
}

/// Checkmate: the king of `color` is in check and no move gets it out.
pub open spec fn is_mate(cells: Seq<Option<Piece>>, color: Color) -> bool {
    in_check(cells, color) && !has_escape(cells, color)
}

/// Stalemate: the king of `color` is not in check, yet every move puts it
/// in check.
pub open spec fn is_stalemate(cells: Seq<Option<Piece>>, color: Color) -> bool {
    !in_check(cells, color) && !has_escape(cells, color)
}

/// Undoing a move puts every cell back as it was, first-move flags
/// included: the record of a move from cell `s` to cell `t` holds what
/// stood on `t` and the mover's first-move flag.
pub proof fn lemma_undo_after_move(cells: Seq<Option<Piece>>, s: int, t: int)
    requires
        cells.len() == 64,
        0 <= s < 64,
        0 <= t < 64,
        s != t,
        cells[s] is Some,
    ensures
        apply_move(cells, s, t)[t] is Some,
        revert(apply_move(cells, s, t), s, t, cells[t], first_move_flag(cells[s]->Some_0)) == cells,
{
    let p = cells[s]->Some_0;
    assert(restore_piece(after_move_piece(p), first_move_flag(p)) == p);
    assert(revert(apply_move(cells, s, t), s, t, cells[t], first_move_flag(p)) =~= cells);
}

/// The row on which a pawn of `color` is promoted.
pub open spec fn promotion_row(color: Color) -> int {
    match color {
        Color::White => 7,
        Color::Black => 0,
    }
}

/// Whether the piece on (row, col) is a pawn that may be promoted to `level`.
pub open spec fn promotable(cells: Seq<Option<Piece>>, row: int, col: int, level: Level) -> bool {
    &&& at(cells, row, col) is Some
    &&& at(cells, row, col)->Some_0.level == Level::Pawn
    &&& row == promotion_row(at(cells, row, col)->Some_0.color)
    &&& level != Level::Pawn
    &&& level != Level::King
}

/// Whether the squares strictly between columns `a` and `b` on `row` are
/// empty and not attacked by the side opposing `color`.
pub open spec fn path_safe(cells: Seq<Option<Piece>>, color: Color, row: int, a: int, b: int) -> bool {
    forall|y: int|
        #![trigger at(cells, row, y)]
        #![trigger attacked(cells, color.spec_opposite(), row, y)]
        (a < y < b || b < y < a) ==> at(cells, row, y) is None && !attacked(
            cells,
            color.spec_opposite(),
            row,
            y,
        )
}

/// Whether the king on `k` and the rook on `r` may castle: same colour,
/// the king of that colour on the board and not in check, neither has moved, and the squares between them are
/// empty and not attacked.
pub open spec fn can_castle(cells: Seq<Option<Piece>>, k: (int, int), r: (int, int)) -> bool {
    let king = at(cells, k.0, k.1)->Some_0;
    let rook = at(cells, r.0, r.1)->Some_0;
    &&& at(cells, k.0, k.1) is Some
    &&& at(cells, r.0, r.1) is Some
    &&& king.color == rook.color
    &&& king_safe(cells, king.color)
    &&& king.moved == Some(false)
    &&& rook.moved == Some(false)
    &&& path_safe(cells, king.color, k.0, k.1, r.1)
}

/// The back-rank row of `color`.
pub open spec fn home_row(color: Color) -> int {
    match color {
        Color::White => 0,
        Color::Black => 7,
    }
}

/// The cells after the king on `k` castles with the rook on `r`: towards
/// the h-file the rook lands on f and the king on g, otherwise the rook on
/// d and the king on c, on the back rank of their colour; both are marked
/// as moved.
pub open spec fn castled(cells: Seq<Option<Piece>>, k: (int, int), r: (int, int)) -> Seq<Option<Piece>> {
    let king = at(cells, k.0, k.1)->Some_0;
    let rook = at(cells, r.0, r.1)->Some_0;
    let row = home_row(king.color);
    let (rook_col, king_col) = if k.1 < r.1 { (5int, 6int) } else { (3int, 2int) };
    cells.update(sq(row, rook_col), Some(Piece { moved: Some(true), ..rook })).update(
        sq(r.0, r.1),
        None,
    ).update(sq(row, king_col), Some(Piece { moved: Some(true), ..king })).update(sq(k.0, k.1), None)
}

/// The names joined with single spaces.
pub open spec fn joined(names: Seq<Seq<char>>) -> Seq<char>
    decreases names.len(),
{
    if names.len() == 0 {
        Seq::empty()
    } else if names.len() == 1 {
        names[0]
    } else {
        joined(names.drop_last()) + " "@ + names.last()
    }
}

/// The text of one cell: the piece's glyph or a black square, then a space.
pub open spec fn cell_text(cell: Option<Piece>) -> Seq<char> {
    match cell {
        Some(p) => p.icon@ + " "@,
        None => "⬛ "@,
    }
}

/// The text of the first `k` cells of `row`.
pub open spec fn row_text(cells: Seq<Option<Piece>>, row: int, k: int) -> Seq<char>
    decreases k,
{
    if k <= 0 {
        Seq::empty()
    } else {
        row_text(cells, row, k - 1) + cell_text(at(cells, row, k - 1))
    }
}

/// The text of the top `n` rows, from row 7 down, each ending in a newline.
pub open spec fn board_text(cells: Seq<Option<Piece>>, n: int) -> Seq<char>
    decreases n,
{
    if n <= 0 {
        Seq::empty()
    } else {
        board_text(cells, n - 1) + row_text(cells, 8 - n, 8) + "\n"@
    }
}

/// An empty set has no names.
pub proof fn lemma_listing_empty(s: Set<(int, int)>, k: int)
    requires
        s == Set::<(int, int)>::empty(),
    ensures
        listing(s, k) == Seq::<Seq<char>>::empty(),
    decreases k,
{
    if k > 0 {
        lemma_listing_empty(s, k - 1);
    }
}

} // verus!
