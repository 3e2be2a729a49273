//! Properties of the rules that relate several operations.

use crate::game::color::Color;
use crate::game::level::Level;
use crate::game::on_board;
use crate::game::piece::{forward, Piece};
use crate::game::rules::{
    apply_move, at, attacks, can_castle, castled, escape, holds, in_check, is_mate, is_stalemate,
    king_safe, lemma_targets_elsewhere, lemma_undo_after_move, first_move_flag, revert, sq,
    square_of, targets,
};
use vstd::prelude::*;

verus! {

/// For every pseudo-legal move from `src` to `dst`, undoing it restores
/// the board exactly: the cells and every first-move flag are as before.
pub proof fn lemma_move_then_undo(cells: Seq<Option<Piece>>, src: (int, int), dst: (int, int))
    requires
        cells.len() == 64,
        on_board(src.0, src.1),
        at(cells, src.0, src.1) is Some,
        targets(cells, src.0, src.1).contains(dst),
    ensures
        revert(
            apply_move(cells, sq(src.0, src.1), sq(dst.0, dst.1)),
            sq(src.0, src.1),
            sq(dst.0, dst.1),
            at(cells, dst.0, dst.1),
            first_move_flag(at(cells, src.0, src.1)->Some_0),
        ) == cells,
{
    lemma_targets_elsewhere(cells, src.0, src.1, dst);
    lemma_undo_after_move(cells, sq(src.0, src.1), sq(dst.0, dst.1));
}

/// A first-move flag, once set, is cleared only by an undo: after a move,
/// the moved piece's flag is not clear, and any piece whose flag is clear
/// stands where it stood before, unchanged.
pub proof fn lemma_move_keeps_flags(cells: Seq<Option<Piece>>, src: (int, int), dst: (int, int))
    requires
        cells.len() == 64,
        on_board(src.0, src.1),
        at(cells, src.0, src.1) is Some,
        targets(cells, src.0, src.1).contains(dst),
    ensures
        ({
            let after = apply_move(cells, sq(src.0, src.1), sq(dst.0, dst.1));
            &&& at(after, dst.0, dst.1) is Some
            &&& at(after, dst.0, dst.1)->Some_0.moved != Some(false)
            &&& forall|i: int|
                0 <= i < 64 && #[trigger] after[i] is Some && after[i]->Some_0.moved == Some(false)
                    ==> after[i] == cells[i]
        }),
{
    lemma_targets_elsewhere(cells, src.0, src.1, dst);
}

/// Castling sets both flags and clears none: any piece whose flag is clear
/// afterwards stands where it stood before, unchanged.
pub proof fn lemma_castling_keeps_flags(cells: Seq<Option<Piece>>, k: (int, int), r: (int, int))
    requires
        cells.len() == 64,
        on_board(k.0, k.1),
        on_board(r.0, r.1),
        can_castle(cells, k, r),
    ensures
        forall|i: int|
            0 <= i < 64 && #[trigger] castled(cells, k, r)[i] is Some && castled(cells, k, r)[i]->Some_0.moved
                == Some(false) ==> castled(cells, k, r)[i] == cells[i],
{
}

/// The attack entry of a pawn holds exactly the on-board squares diagonally
/// in front of it that are empty or hold an enemy piece.
pub proof fn lemma_pawn_attack_squares(cells: Seq<Option<Piece>>, row: int, col: int, q: (int, int))
    requires
        on_board(row, col),
        at(cells, row, col) is Some,
        at(cells, row, col)->Some_0.level == Level::Pawn,
    ensures
        attacks(cells, row, col).contains(q) <==> ({
            let p = at(cells, row, col)->Some_0;
            &&& q.0 == row + forward(p.color)
            &&& (q.1 == col - 1 || q.1 == col + 1)
            &&& on_board(q.0, q.1)
            &&& !holds(cells, q.0, q.1, p.color)
        }),
{
}

/// In checkmate the king is in check and every pseudo-legal move of its
/// side leaves it in check (or off the board).
pub proof fn lemma_checkmate_is_inescapable(
    cells: Seq<Option<Piece>>,
    color: Color,
    src: (int, int),
    dst: (int, int),
)
    requires
        is_mate(cells, color),
        on_board(src.0, src.1),
        holds(cells, src.0, src.1, color),
        targets(cells, src.0, src.1).contains(dst),
    ensures
        in_check(cells, color),
        !king_safe(apply_move(cells, sq(src.0, src.1), sq(dst.0, dst.1)), color),
{
    lemma_targets_elsewhere(cells, src.0, src.1, dst);
    assert(square_of(sq(src.0, src.1)) == src);
    assert(square_of(sq(dst.0, dst.1)) == dst);
    assert(!escape(cells, color, sq(src.0, src.1), sq(dst.0, dst.1)));
}

/// In stalemate the king is not in check, yet every pseudo-legal move of
/// its side leaves it in check (or off the board).
pub proof fn lemma_stalemate_is_inescapable(
    cells: Seq<Option<Piece>>,
    color: Color,
    src: (int, int),
    dst: (int, int),
)
    requires
        is_stalemate(cells, color),
        on_board(src.0, src.1),
        holds(cells, src.0, src.1, color),
        targets(cells, src.0, src.1).contains(dst),
    ensures
        !in_check(cells, color),
        !king_safe(apply_move(cells, sq(src.0, src.1), sq(dst.0, dst.1)), color),
{
    lemma_targets_elsewhere(cells, src.0, src.1, dst);
    assert(square_of(sq(src.0, src.1)) == src);
    assert(square_of(sq(dst.0, dst.1)) == dst);
    assert(!escape(cells, color, sq(src.0, src.1), sq(dst.0, dst.1)));
}

} // verus!
