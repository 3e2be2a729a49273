//! Movement vectors: the ray directions of each kind and how far it slides.

use crate::game::level::Level;
use vstd::prelude::*;

verus! {

/// How many ray directions a piece of this kind has (pawns use none: they
/// move by their own rule).
pub open spec fn direction_count(level: Level) -> int {
    match level {
        Level::Pawn => 0,
        Level::Rook | Level::Bishop => 4,
        _ => 8,
    }
}

/// The i-th orthogonal direction, as (row step, column step).
pub open spec fn orthogonal(i: int) -> (int, int) {
    if i == 0 { (1, 0) }
    else if i == 1 { (-1, 0) }
    else if i == 2 { (0, 1) }
    else { (0, -1) }
}

/// The i-th diagonal direction, as (row step, column step).
pub open spec fn diagonal(i: int) -> (int, int) {
    if i == 0 { (1, 1) }
    else if i == 1 { (1, -1) }
    else if i == 2 { (-1, 1) }
    else { (-1, -1) }
}

/// The i-th knight jump, as (row step, column step).
pub open spec fn knight_jump(i: int) -> (int, int) {
    if i == 0 { (1, 2) }
    else if i == 1 { (2, 1) }
    else if i == 2 { (2, -1) }
    else if i == 3 { (1, -2) }
    else if i == 4 { (-1, -2) }
    else if i == 5 { (-2, -1) }
    else if i == 6 { (-2, 1) }
    else { (-1, 2) }
}

/// The i-th ray direction of a kind, as (row step, column step).
pub open spec fn direction(level: Level, i: int) -> (int, int) {
    match level {
        Level::Rook => orthogonal(i),
        Level::Bishop => diagonal(i),
        Level::Knight => knight_jump(i),
        _ => if i < 4 { orthogonal(i) } else { diagonal(i - 4) },
    }
}

/// How many steps a kind may walk along one ray: rooks, bishops and queens
/// slide up to 7 squares, kings and knights take a single step.
pub open spec fn reach(level: Level) -> nat {
    match level {
        Level::Rook | Level::Bishop | Level::Queen => 7,
        _ => 1,
    }
}

/// Number of ray directions of a kind.
pub fn get_direction_count(level: Level) -> (r: u8)
    ensures
        r as int == direction_count(level),
{
    match level {
        Level::Pawn => 0,
        Level::Rook | Level::Bishop => 4,
        _ => 8,
    }
}

/// Steps allowed along one ray for a kind.
pub fn get_reach(level: Level) -> (r: u8)
    ensures
        r as nat == reach(level),
{
    match level {
        Level::Rook | Level::Bishop | Level::Queen => 7,
        _ => 1,
    }
}

fn get_orthogonal(i: u8) -> (r: (i8, i8))
    requires
        i < 4,
    ensures
        (r.0 as int, r.1 as int) == orthogonal(i as int),
{
    if i == 0 { (1, 0) }
    else if i == 1 { (-1, 0) }
    else if i == 2 { (0, 1) }
    else { (0, -1) }
}

fn get_diagonal(i: u8) -> (r: (i8, i8))
    requires
        i < 4,
    ensures
        (r.0 as int, r.1 as int) == diagonal(i as int),
{
    if i == 0 { (1, 1) }
    else if i == 1 { (1, -1) }
    else if i == 2 { (-1, 1) }
    else { (-1, -1) }
}

fn get_knight_jump(i: u8) -> (r: (i8, i8))
    requires
        i < 8,
    ensures
        (r.0 as int, r.1 as int) == knight_jump(i as int),
{
    if i == 0 { (1, 2) }
    else if i == 1 { (2, 1) }
    else if i == 2 { (2, -1) }
    else if i == 3 { (1, -2) }
    else if i == 4 { (-1, -2) }
    else if i == 5 { (-2, -1) }
    else if i == 6 { (-2, 1) }
    else { (-1, 2) }
}

/// The i-th ray direction of a kind.
pub fn get_direction(level: Level, i: u8) -> (r: (i8, i8))
    requires
        (i as int) < direction_count(level),
    ensures
        (r.0 as int, r.1 as int) == direction(level, i as int),
        -2 <= r.0 <= 2,
        -2 <= r.1 <= 2,
{
    match level {
        Level::Rook => get_orthogonal(i),
        Level::Bishop => get_diagonal(i),
        Level::Knight => get_knight_jump(i),
        _ => if i < 4 { get_orthogonal(i) } else { get_diagonal(i - 4) },
    }
}

} // verus!
