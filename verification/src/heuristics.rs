//! The leaf evaluator: a saturating terminal value dominating any
//! material comparison, else a concave per-side sum over remaining
//! pawns, differenced between the sides. Red maximises, Blue minimises.

use vstd::prelude::*;

use crate::models::GameState;
use crate::models::Player;
use crate::models::Point;

verus! {

/// The marginal value of each remaining pawn: 8, 6, 4, 2 for the first
/// to fourth, modelling the accelerating cost of attrition.
pub open spec fn spec_pawn_value(count: int) -> int {
    if count <= 0 {
        0
    } else if count == 1 {
        8
    } else if count == 2 {
        14
    } else if count == 3 {
        18
    } else {
        20
    }
}

/// How many of a side's four pawn slots are occupied.
pub open spec fn spec_pawn_count(ps: [Option<Point>; 4]) -> int {
    (if ps[0] is Some {
        1int
    } else {
        0
    }) + (if ps[1] is Some {
        1int
    } else {
        0
    }) + (if ps[2] is Some {
        1int
    } else {
        0
    }) + (if ps[3] is Some {
        1int
    } else {
        0
    })
}

/// The static value of a state: the saturating extremes for finished
/// games, else the pawn-value difference.
pub open spec fn spec_basic_value(s: GameState) -> int {
    match s {
        GameState::Finished { winner: Player::Blue, .. } => i64::MIN as int,
        GameState::Finished { winner: Player::Red, .. } => i64::MAX as int,
        GameState::Playing { board } => spec_pawn_value(spec_pawn_count(board.red_pawns))
            - spec_pawn_value(spec_pawn_count(board.blue_pawns)),
    }
}

/// The concave value of holding `count` pawns.
pub fn value_from_pawn_count(count: usize) -> (r: i64)
    requires
        count <= 4,
    ensures
        r as int == spec_pawn_value(count as int),
{
    match count {
        0 => 0,
        1 => 8,
        2 => 8 + 6,
        3 => 8 + 6 + 4,
        _ => 8 + 6 + 4 + 2,
    }
}

fn count_pawns(ps: &[Option<Point>; 4]) -> (r: usize)
    ensures
        r as int == spec_pawn_count(*ps),
        r <= 4,
{
    let mut c: usize = 0;
    if ps[0].is_some() {
        c += 1;
    }
    if ps[1].is_some() {
        c += 1;
    }
    if ps[2].is_some() {
        c += 1;
    }
    if ps[3].is_some() {
        c += 1;
    }
    c
}

impl GameState {
    /// The static value of this state.
    pub fn basic_value(&self) -> (r: i64)
        ensures
            r as int == spec_basic_value(*self),
    {
        let board = match self {
            GameState::Playing { board } => board,
            GameState::Finished { winner: Player::Blue, .. } => {
                return i64::MIN;
            },
            GameState::Finished { winner: Player::Red, .. } => {
                return i64::MAX;
            },
        };
        let red_count = count_pawns(&board.red_pawns);
        let blue_count = count_pawns(&board.blue_pawns);
        value_from_pawn_count(red_count) - value_from_pawn_count(blue_count)
    }
}

}
