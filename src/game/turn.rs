//! One turn of a game: a move by one side, refused if it leaves that side's
//! king in check, and the verdict on the other side's position.

use crate::error::Error;
use crate::game::board::{move_ok, Board};
use crate::game::color::Color;
use crate::game::parse_cell;
use crate::game::rules::{
    apply_move, find_king, in_check, is_mate, is_stalemate, lemma_undo_after_move, sq,
};
use vstd::prelude::*;

verus! {

/// What a played move led to.
#[derive(Clone, Copy, Debug, PartialEq, Eq, Structural)]
pub enum Verdict {
    /// The move would leave the mover's king in check; it was taken back.
    Illegal,
    /// The move stands and the game goes on.
    Moved,
    /// The move stands and gives check.
    Check,
    /// The move stands and mates the other side.
    Checkmate,
    /// The move stands and leaves the other side without a safe move.
    Draw,
}

/// The cells after the pseudo-legal move from `src` to `des`.
pub open spec fn cells_after(cells: Seq<Option<crate::game::piece::Piece>>, src: Seq<char>, des: Seq<char>) -> Seq<
    Option<crate::game::piece::Piece>,
> {
    match (parse_cell(src), parse_cell(des)) {
        (Some((sr, sc)), Some((dr, dc))) => apply_move(cells, sq(sr, sc), sq(dr, dc)),
        _ => cells,
    }
}

/// The verdict on a position reached by a move of `mover`.
pub open spec fn verdict_of(cells: Seq<Option<crate::game::piece::Piece>>, mover: Color) -> Verdict {
    let other = mover.spec_opposite();
    if in_check(cells, mover) {
        Verdict::Illegal
    } else if is_mate(cells, other) {
        Verdict::Checkmate
    } else if in_check(cells, other) {
        Verdict::Check
    } else if is_stalemate(cells, other) {
        Verdict::Draw
    } else {
        Verdict::Moved
    }
}

/// Play the move of `mover` from `src` to `des`. A move that is not
/// pseudo-legal fails as `moves_piece` does; one that leaves the mover's
/// king in check is taken back. Where either king is missing after the
/// move, it is taken back and the game error returned.
pub fn play_turn(board: &mut Board, mover: Color, src: &str, des: &str) -> (r: Result<(String, Verdict), Error>)
    requires
        old(board).wf(),
    ensures
        final(board).wf(),
        match r {
            Ok((_, v)) => {
                let after = cells_after(old(board).cells@, src@, des@);
                &&& move_ok(old(board).cells@, src@, des@)
                &&& find_king(after, mover, 0) is Some
                &&& find_king(after, mover.spec_opposite(), 0) is Some
                &&& v == verdict_of(after, mover)
                &&& if v == Verdict::Illegal {
                    final(board).cells@ == old(board).cells@ && final(board).history@ == old(board).history@
                } else {
                    final(board).cells@ == after && final(board).history@.len() == old(board).history@.len() + 1
                        && final(board).history@.drop_last() == old(board).history@
                }
            },
            Err(e) => {
                &&& final(board).cells@ == old(board).cells@
                &&& final(board).history@ == old(board).history@
                &&& if move_ok(old(board).cells@, src@, des@) {
                    e is GameError && (find_king(cells_after(old(board).cells@, src@, des@), mover, 0) is None
                        || find_king(cells_after(old(board).cells@, src@, des@), mover.spec_opposite(), 0) is None)
                } else {
                    e is InvalidNotation || e is IllegalMoves
                }
            },
        },
{
    let ghost cells0 = board.cells@;
    let ghost hist0 = board.history@;
    let msg = board.moves_piece(src, des)?;
    let ghost s = parse_cell(src@)->Some_0;
    let ghost d = parse_cell(des@)->Some_0;
    proof {
        lemma_undo_after_move(cells0, sq(s.0, s.1), sq(d.0, d.1));
        assert(board.history@.last().from@ == src@);
        assert(board.history@.last().to@ == des@);
    }
    let other = crate::game::get_enemy_color(mover);
    let own_check = board.is_king_checked(mover);
    let other_king = board.get_king_position(other);
    let own = match (own_check, other_king) {
        (Ok(own), Ok(_)) => own,
        (Err(e), _) | (Ok(_), Err(e)) => {
            let _ = board.undo_moves();
            assert(board.history@ =~= hist0);
            return Err(Error::GameError(String::from_str("King is not found.")));
        },
    };
    if own {
        let _ = board.undo_moves();
        assert(board.history@ =~= hist0);
        return Ok((msg, Verdict::Illegal));
    }
    let verdict = match board.is_checkmate(other) {
        Ok(true) => Verdict::Checkmate,
        _ => match board.is_king_checked(other) {
            Ok(true) => Verdict::Check,
            _ => match board.is_draw(other) {
                Ok(true) => Verdict::Draw,
                _ => Verdict::Moved,
            },
        },
    };
    Ok((msg, verdict))
}

} // verus!
