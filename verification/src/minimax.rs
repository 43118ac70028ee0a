//! Depth-limited minimax over the rules engine, with iterative
//! deepening under a wall-clock deadline. `spec_minimax` is the
//! mathematical game value at a fixed depth; the executable search is
//! proved to compute exactly that value.

use core::time::Duration;
use instant::Instant;
use vstd::prelude::*;

use crate::clock::deadline_after;
use crate::clock::past_deadline;
use crate::heuristics::spec_basic_value;
use crate::models::Board;
use crate::models::GameState;
use crate::models::Move;
use crate::models::Player;
use crate::move_gen::spec_legal_moves;
use crate::rules::move_ok;
use crate::rules::spec_apply;

verus! {

/// The depth iterative deepening never exceeds.
pub const MAX_DEPTH: u16 = 50;

/// The value a move contributes at a node: the minimax value of the
/// state it produces. A move the validator would refuse (none is ever
/// generated on a well-formed board) scores as the node's own static
/// value.
pub open spec fn spec_child_value(b: Board, m: Move, depth: nat) -> int
    decreases depth, 0nat,
{
    if depth == 0 {
        spec_basic_value(GameState::Playing { board: b })
    } else if move_ok(b, m) {
        spec_minimax(spec_apply(b, m), (depth - 1) as nat)
    } else {
        spec_basic_value(GameState::Playing { board: b })
    }
}

/// The best value among the first `n` offered moves: the maximum for
/// Red, the minimum for Blue, ties resolved towards the earlier move.
pub open spec fn spec_best(b: Board, n: int, depth: nat) -> int
    decreases depth, (if n <= 1 {
        1int
    } else {
        n
    }),
{
    let ms = spec_legal_moves(b);
    if n <= 1 {
        spec_child_value(b, ms[0], depth)
    } else {
        let v = spec_best(b, n - 1, depth);
        let w = spec_child_value(b, ms[n - 1], depth);
        match b.turn {
            Player::Red => if w > v {
                w
            } else {
                v
            },
            Player::Blue => if w < v {
                w
            } else {
                v
            },
        }
    }
}

/// The game value of a state at a fixed depth: the static value at the
/// horizon or at a finished game, else the best value over every
/// offered move. A state offering no move at all scores as its static
/// value.
pub open spec fn spec_minimax(s: GameState, depth: nat) -> int
    decreases depth, spec_legal_moves(crate::rules::state_board(s)).len() + 1,
{
    if depth == 0 || s is Finished {
        spec_basic_value(s)
    } else {
        let b = s->Playing_board;
        let ms = spec_legal_moves(b);
        if ms.len() == 0 {
            spec_basic_value(s)
        } else {
            spec_best(b, ms.len() as int, depth)
        }
    }
}

/// The best value over a prefix bounds every value in the prefix, and
/// is attained by one of them.
pub proof fn lemma_spec_best_bounds(b: Board, n: int, depth: nat)
    requires
        1 <= n <= spec_legal_moves(b).len(),
    ensures
        b.turn == Player::Red ==> forall|j: int|
            0 <= j < n ==> #[trigger] spec_child_value(b, spec_legal_moves(b)[j], depth)
                <= spec_best(b, n, depth),
        b.turn == Player::Blue ==> forall|j: int|
            0 <= j < n ==> #[trigger] spec_child_value(b, spec_legal_moves(b)[j], depth)
                >= spec_best(b, n, depth),
        exists|j: int|
            0 <= j < n && #[trigger] spec_child_value(b, spec_legal_moves(b)[j], depth)
                == spec_best(b, n, depth),
    decreases n,
{
    if n > 1 {
        lemma_spec_best_bounds(b, n - 1, depth);
        let v = spec_best(b, n - 1, depth);
        let w = spec_child_value(b, spec_legal_moves(b)[n - 1], depth);
        if spec_best(b, n, depth) == w {
        } else {
            assert(spec_best(b, n, depth) == v);
            let j = choose|j: int|
                0 <= j < n - 1 && #[trigger] spec_child_value(b, spec_legal_moves(b)[j], depth)
                    == v;
            assert(spec_child_value(b, spec_legal_moves(b)[j], depth) == spec_best(b, n, depth));
        }
    } else {
        assert(spec_child_value(b, spec_legal_moves(b)[0], depth) == spec_best(b, n, depth));
    }
}

/// The minimax value of the state one move produces, or the node's
/// static value where the validator refuses the move.
pub(crate) fn child_value(state: &GameState, board: &Board, m: Move, depth: u16) -> (r: i64)
    requires
        depth >= 1,
        *state == (GameState::Playing { board: *board }),
    ensures
        r as int == spec_child_value(*board, m, depth as nat),
    decreases depth, 0nat,
{
    proof {
        reveal(crate::rules::move_ok);
        reveal(crate::rules::spec_apply);
    }
    match board.try_move(m) {
        Ok(next) => minimax(&next, depth - 1),
        Err(_) => state.basic_value(),
    }
}

/// Depth-limited full-expansion minimax: exactly the specification's
/// game value at this depth.
pub fn minimax(state: &GameState, depth: u16) -> (r: i64)
    ensures
        r as int == spec_minimax(*state, depth as nat),
    decreases depth, 1nat,
{
    if depth == 0 {
        return state.basic_value();
    }
    let board = match state {
        GameState::Playing { board } => board,
        GameState::Finished { .. } => {
            return state.basic_value();
        },
    };
    let ms = board.legal_moves();
    if ms.len() == 0 {
        return state.basic_value();
    }
    let mut best = child_value(state, board, ms[0], depth);
    let mut i: usize = 1;
    while i < ms.len()
        invariant
            1 <= i <= ms@.len(),
            depth >= 1,
            ms@ == spec_legal_moves(*board),
            ms@.len() > 0,
            *state == (GameState::Playing { board: *board }),
            best as int == spec_best(*board, i as int, depth as nat),
        decreases ms@.len() - i,
    {
        let v = child_value(state, board, ms[i], depth);
        match board.turn {
            Player::Red => {
                if v > best {
                    best = v;
                }
            },
            Player::Blue => {
                if v < best {
                    best = v;
                }
            },
        }
        i += 1;
    }
    best
}

/// The minimax-optimal move at a fixed depth: the offered move whose
/// child value is the node's game value, the earliest such move on
/// ties. `None` exactly when the game is finished or the depth is
/// zero. A game in progress always offers at least a discard, so a
/// caller may not present a position offering nothing: that would be a
/// desync between move generation and validation, a fatal invariant
/// violation rather than a recoverable case.
pub fn optimal_move(state: &GameState, depth: u16) -> (r: Option<(Move, i64)>)
    requires
        *state matches GameState::Playing { board } ==> spec_legal_moves(board).len() > 0,
    ensures
        r is Some <==> (*state is Playing && depth >= 1),
        r matches Some((m, v)) ==> {
            &&& spec_legal_moves(state_board_of(*state)).contains(m)
            &&& v as int == spec_minimax(*state, depth as nat)
            &&& v as int == spec_child_value(state_board_of(*state), m, depth as nat)
            &&& earliest_best(*state, depth as nat, m, v)
        },
{
    let board = match state {
        GameState::Playing { board } => board,
        GameState::Finished { .. } => {
            return None;
        },
    };
    if depth == 0 {
        return None;
    }
    let ms = board.legal_moves();
    let mut best_move = ms[0];
    let mut best = child_value(state, board, ms[0], depth);
    let ghost mut bi: int = 0;
    let mut i: usize = 1;
    while i < ms.len()
        invariant
            1 <= i <= ms@.len(),
            depth >= 1,
            ms@ == spec_legal_moves(*board),
            ms@.len() > 0,
            *state == (GameState::Playing { board: *board }),
            best as int == spec_best(*board, i as int, depth as nat),
            0 <= bi < i,
            ms@[bi] == best_move,
            best as int == spec_child_value(*board, ms@[bi], depth as nat),
            forall|j: int|
                0 <= j < bi ==> (match board.turn {
                    Player::Red => spec_child_value(*board, #[trigger] ms@[j], depth as nat) < (
                    best as int),
                    Player::Blue => spec_child_value(*board, ms@[j], depth as nat) > (best as int),
                }),
        decreases ms@.len() - i,
    {
        proof {
            assert(ms@[i as int] == ms@.index(i as int));
        }
        let v = child_value(state, board, ms[i], depth);
        match board.turn {
            Player::Red => {
                if v > best {
                    proof {
                        lemma_spec_best_bounds(*board, i as int, depth as nat);
                        bi = i as int;
                    }
                    best = v;
                    best_move = ms[i];
                }
            },
            Player::Blue => {
                if v < best {
                    proof {
                        lemma_spec_best_bounds(*board, i as int, depth as nat);
                        bi = i as int;
                    }
                    best = v;
                    best_move = ms[i];
                }
            },
        }
        i += 1;
    }
    proof {
        assert(ms@[bi] == best_move);
        assert(earliest_best(*state, depth as nat, best_move, best));
    }
    Some((best_move, best))
}

/// The board inside a state.
pub open spec fn state_board_of(s: GameState) -> Board {
    crate::rules::state_board(s)
}

/// The proposal is the earliest offered move attaining its score:
/// every earlier offer scores strictly worse for the side to move.
pub open spec fn earliest_best(s: GameState, depth: nat, m: Move, v: i64) -> bool {
    let b = state_board_of(s);
    let ms = spec_legal_moves(b);
    exists|i: int|
        {
            &&& 0 <= i < ms.len()
            &&& #[trigger] ms[i] == m
            &&& v as int == spec_child_value(b, ms[i], depth)
            &&& forall|j: int|
                0 <= j < i ==> (match b.turn {
                    Player::Red => spec_child_value(b, #[trigger] ms[j], depth) < v as int,
                    Player::Blue => spec_child_value(b, ms[j], depth) > v as int,
                })
        }
}

/// An offered move scored with the state's exact game value at some
/// completed depth.
pub open spec fn scored_at_some_depth(s: GameState, m: Move, v: i64) -> bool {
    exists|d: nat|
        1 <= d < MAX_DEPTH && spec_legal_moves(state_board_of(s)).contains(m) && v as int
            == #[trigger] spec_minimax(s, d)
}

/// `optimal_move` under a deadline: gives up (returning `None`) once
/// the deadline passes, otherwise behaves like `optimal_move`.
fn optimal_move_deadline(state: &GameState, depth: u16, deadline: &Instant) -> (r: Option<
    (Move, i64),
>)
    ensures
        *state is Finished ==> r is None,
        spec_legal_moves(state_board_of(*state)).len() == 0 ==> r is None,
        r matches Some((m, v)) ==> {
            &&& *state is Playing
            &&& depth >= 1
            &&& spec_legal_moves(state_board_of(*state)).contains(m)
            &&& v as int == spec_minimax(*state, depth as nat)
        },
{
    let board = match state {
        GameState::Playing { board } => board,
        GameState::Finished { .. } => {
            return None;
        },
    };
    if depth == 0 {
        return None;
    }
    if past_deadline(deadline) {
        return None;
    }
    let ms = board.legal_moves();
    if ms.len() == 0 {
        return None;
    }
    let mut best_move = ms[0];
    let mut best = child_value(state, board, ms[0], depth);
    let mut i: usize = 1;
    while i < ms.len()
        invariant
            1 <= i <= ms@.len(),
            depth >= 1,
            ms@ == spec_legal_moves(*board),
            ms@.len() > 0,
            *state == (GameState::Playing { board: *board }),
            best as int == spec_best(*board, i as int, depth as nat),
            ms@.contains(best_move),
        decreases ms@.len() - i,
    {
        if past_deadline(deadline) {
            return None;
        }
        let v = child_value(state, board, ms[i], depth);
        match board.turn {
            Player::Red => {
                if v > best {
                    best = v;
                    best_move = ms[i];
                }
            },
            Player::Blue => {
                if v < best {
                    best = v;
                    best_move = ms[i];
                }
            },
        }
        i += 1;
    }
    Some((best_move, best))
}

/// Iterative deepening: repeat the depth-limited search at increasing
/// depth until the budget runs out, keeping the last fully completed
/// depth. `None` only for a finished game or when not even depth one
/// completes in time.
pub fn iterative_deepening(state: &GameState, duration: Duration) -> (r: Option<(Move, i64)>)
    ensures
        *state is Finished ==> r is None,
        spec_legal_moves(state_board_of(*state)).len() == 0 ==> r is None,
        r matches Some((m, v)) ==> scored_at_some_depth(*state, m, v),
{
    let deadline = deadline_after(duration);
    let mut result: Option<(Move, i64)> = None;
    let mut depth: u16 = 1;
    while depth < MAX_DEPTH
        invariant
            1 <= depth,
            (*state is Finished || spec_legal_moves(state_board_of(*state)).len() == 0)
                ==> result is None,
            result matches Some((m, v)) ==> scored_at_some_depth(*state, m, v),
        decreases MAX_DEPTH - depth,
    {
        match optimal_move_deadline(state, depth, &deadline) {
            None => {
                break ;
            },
            Some(val) => {
                proof {
                    let d: nat = depth as nat;
                    assert(1 <= d && d < MAX_DEPTH);
                    assert(val.1 as int == spec_minimax(*state, d));
                    assert(scored_at_some_depth(*state, val.0, val.1));
                }
                result = Some(val);
            },
        }
        depth += 1;
    }
    result
}

}
