//! Alpha-beta pruned minimax with iterative deepening, proved to agree
//! with plain minimax: on any state with no concealed ninja the pruned
//! search returns exactly `spec_minimax`. In the Way of Shadow variant
//! each node first determinizes the concealed ninjas, so every explored
//! line samples an independent plausible world and no exact score can
//! be promised.

use core::time::Duration;
use instant::Instant;
use rand::rngs::StdRng;
use vstd::prelude::*;

use crate::clock::deadline_after;
use crate::clock::past_deadline;
use crate::minimax::lemma_spec_best_bounds;
use crate::minimax::spec_best;
use crate::minimax::spec_child_value;
use crate::minimax::spec_minimax;
use crate::minimax::MAX_DEPTH;
use crate::models::Board;
use crate::models::GameState;
use crate::models::Move;
use crate::models::Player;
use crate::move_gen::spec_legal_moves;
use crate::ninja_logic::board_no_hidden;
use crate::ninja_logic::possible_ninja_positions;
use crate::ninja_logic::randomize_hidden_ninjas;
use crate::ninja_logic::randomize_ninjas_with_positions;
use crate::ninja_logic::state_no_hidden;
use crate::models::Point;
use crate::rules::move_ok;
use crate::rules::spec_apply;
use crate::rules::state_board;

verus! {

/// The fail-soft guarantee of an alpha-beta probe in the window
/// `(alpha, beta)`: a value inside the window is exact, a value at or
/// past a bound is a proof that the true value lies at or past it too.
pub open spec fn ab_bounds(s: GameState, depth: nat, alpha: int, beta: int, r: int) -> bool {
    let v = spec_minimax(s, depth);
    match state_board(s).turn {
        Player::Red => {
            &&& (r < beta ==> v <= r && (r <= alpha || r <= v))
            &&& (r >= beta ==> v >= r)
        },
        Player::Blue => {
            &&& (r > alpha ==> v >= r && (r >= beta || r >= v))
            &&& (r <= alpha ==> v <= r)
        },
    }
}

/// Every game value is an `i64`: the leaves are, and the best of a
/// prefix is attained by one of its entries.
pub proof fn lemma_minimax_in_range(s: GameState, depth: nat)
    ensures
        i64::MIN as int <= spec_minimax(s, depth) <= i64::MAX as int,
    decreases depth,
{
    if depth == 0 || s is Finished {
    } else {
        let b = s->Playing_board;
        let ms = spec_legal_moves(b);
        if ms.len() == 0 {
        } else {
            lemma_spec_best_bounds(b, ms.len() as int, depth);
            let j = choose|j: int|
                0 <= j < ms.len() && #[trigger] spec_child_value(b, ms[j], depth) == spec_best(
                    b,
                    ms.len() as int,
                    depth,
                );
            lemma_child_in_range(b, ms[j], depth);
        }
    }
}

/// Every child value is an `i64`.
pub proof fn lemma_child_in_range(b: Board, m: Move, depth: nat)
    ensures
        i64::MIN as int <= spec_child_value(b, m, depth) <= i64::MAX as int,
    decreases depth, 0nat,
{
    if depth == 0 {
    } else if move_ok(b, m) {
        lemma_minimax_in_range(spec_apply(b, m), (depth - 1) as nat)
    } else {
    }
}

/// What a child's fail-soft answer, read at the parent, says of the
/// child's true value.
proof fn lemma_child_step(next: GameState, d: nat, lo: int, hi: int, c: int)
    requires
        lo < hi,
        ab_bounds(next, d, lo, hi, c),
    ensures
        c < hi ==> spec_minimax(next, d) <= c,
        c >= hi ==> spec_minimax(next, d) >= c,
        c > lo ==> spec_minimax(next, d) >= c,
        c <= lo ==> spec_minimax(next, d) <= c,
{
}

/// A full-window probe is exact.
pub proof fn lemma_ab_exact(s: GameState, depth: nat, r: i64)
    requires
        ab_bounds(s, depth, i64::MIN as int, i64::MAX as int, r as int),
    ensures
        r as int == spec_minimax(s, depth),
{
    lemma_minimax_in_range(s, depth);
}

/// Search equivalence: two searches whose answers both carry the exact
/// game value of the same state at the same depth agree, however one
/// of them pruned.
pub proof fn lemma_search_equivalence(s: GameState, depth: nat, v1: i64, v2: i64)
    requires
        v1 as int == spec_minimax(s, depth),
        v2 as int == spec_minimax(s, depth),
    ensures
        v1 == v2,
{
}

/// An accepted move on a board with nothing concealed produces a state
/// with nothing concealed: reveal is permanent and concealment is never
/// granted.
pub proof fn lemma_apply_no_hidden(b: Board, m: Move)
    requires
        board_no_hidden(b),
        move_ok(b, m),
    ensures
        state_no_hidden(spec_apply(b, m)),
{
    reveal(crate::rules::move_ok);
    reveal(crate::rules::spec_apply);
}

/// One alpha-beta node: determinize any concealed ninjas, then expand
/// with cutoffs. On a state with nothing concealed the answer carries
/// the fail-soft guarantee against the true game value.
#[verifier::rlimit(60)]
fn ab_value(state: &GameState, depth: u16, alpha: i64, beta: i64, rng: &mut StdRng) -> (r: i64)
    requires
        alpha < beta,
    ensures
        state_no_hidden(*state) ==> ab_bounds(
            *state,
            depth as nat,
            alpha as int,
            beta as int,
            r as int,
        ),
    decreases depth,
{
    if depth == 0 {
        return state.basic_value();
    }
    let board0 = match state {
        GameState::Playing { board } => *board,
        GameState::Finished { .. } => {
            return state.basic_value();
        },
    };
    let mut randomized = randomize_hidden_ninjas(state, rng);
    let mut hidden: Vec<Point> = Vec::new();
    let ons = board0.opponent_ninjas();
    if let Some(n) = ons[0] {
        if !n.revealed {
            hidden.push(n.pos);
        }
    }
    if let Some(n) = ons[1] {
        if !n.revealed {
            hidden.push(n.pos);
        }
    }
    let potential = possible_ninja_positions(&board0, hidden);
    randomize_ninjas_with_positions(&mut randomized, &potential);
    let updated_board = match randomized {
        GameState::Playing { board } => board,
        GameState::Finished { .. } => {
            return state.basic_value();
        },
    };
    proof {
        if state_no_hidden(*state) {
            assert(updated_board == board0);
        }
    }
    let ms = updated_board.legal_moves();
    if ms.len() == 0 {
        return state.basic_value();
    }
    let ghost d: nat = depth as nat;
    let ghost hb = updated_board;
    match updated_board.turn {
        Player::Red => {
            let mut value = i64::MIN;
            let mut a = alpha;
            let mut i: usize = 0;
            while i < ms.len()
                invariant
                    i <= ms@.len(),
                    ms@.len() > 0,
                    depth >= 1,
                    d == depth as nat,
                    alpha < beta,
                    hb == updated_board,
                    hb.turn == Player::Red,
                    value < beta,
                    a as int == (if (value as int) > (alpha as int) {
                        value as int
                    } else {
                        alpha as int
                    }),
                    state_no_hidden(*state) ==> {
                        &&& *state == (GameState::Playing { board: hb })
                        &&& board_no_hidden(hb)
                        &&& ms@ == spec_legal_moves(hb)
                        &&& forall|j: int|
                            0 <= j < i ==> #[trigger] spec_child_value(hb, ms@[j], d)
                                <= value as int
                        &&& (value == i64::MIN || value <= alpha || exists|j: int|
                            0 <= j < i && #[trigger] spec_child_value(hb, ms@[j], d)
                                >= value as int)
                    },
                decreases ms@.len() - i,
            {
                let c = match updated_board.try_move(ms[i]) {
                    Ok(next) => {
                        proof {
                            if state_no_hidden(*state) {
                                reveal(crate::rules::move_ok);
                                lemma_apply_no_hidden(hb, ms@[i as int]);
                            }
                        }
                        ab_value(&next, depth - 1, a, beta, rng)
                    },
                    Err(_) => state.basic_value(),
                };
                proof {
                    if state_no_hidden(*state) {
                        reveal(crate::rules::move_ok);
                        if move_ok(hb, ms@[i as int]) {
                            lemma_child_step(
                                spec_apply(hb, ms@[i as int]),
                                (d - 1) as nat,
                                a as int,
                                beta as int,
                                c as int,
                            );
                        }
                        assert(c < beta ==> spec_child_value(hb, ms@[i as int], d) <= c as int);
                        assert(c >= beta ==> spec_child_value(hb, ms@[i as int], d) >= c as int);
                        assert(c > a ==> spec_child_value(hb, ms@[i as int], d) >= c as int);
                    }
                }
                if c > value {
                    value = c;
                }
                if value >= beta {
                    proof {
                        if state_no_hidden(*state) {
                            assert(value == c);
                            lemma_spec_best_bounds(hb, ms@.len() as int, d);
                            assert(spec_minimax(*state, d) == spec_best(hb, ms@.len() as int, d));
                            assert(spec_child_value(hb, ms@[i as int], d) >= value as int);
                        }
                    }
                    return value;
                }
                if value > a {
                    a = value;
                }
                i += 1;
            }
            proof {
                if state_no_hidden(*state) {
                    lemma_spec_best_bounds(hb, ms@.len() as int, d);
                    assert(spec_minimax(*state, d) == spec_best(hb, ms@.len() as int, d));
                    let js = choose|j: int|
                        0 <= j < ms@.len() && #[trigger] spec_child_value(hb, ms@[j], d)
                            == spec_best(hb, ms@.len() as int, d);
                    assert(spec_child_value(hb, ms@[js], d) <= value as int);
                    if value == i64::MIN {
                        lemma_child_in_range(hb, ms@[js], d);
                    }
                }
            }
            value
        },
        Player::Blue => {
            let mut value = i64::MAX;
            let mut bb = beta;
            let mut i: usize = 0;
            while i < ms.len()
                invariant
                    i <= ms@.len(),
                    ms@.len() > 0,
                    depth >= 1,
                    d == depth as nat,
                    alpha < beta,
                    hb == updated_board,
                    hb.turn == Player::Blue,
                    value > alpha,
                    bb as int == (if (value as int) < (beta as int) {
                        value as int
                    } else {
                        beta as int
                    }),
                    state_no_hidden(*state) ==> {
                        &&& *state == (GameState::Playing { board: hb })
                        &&& board_no_hidden(hb)
                        &&& ms@ == spec_legal_moves(hb)
                        &&& forall|j: int|
                            0 <= j < i ==> #[trigger] spec_child_value(hb, ms@[j], d)
                                >= value as int
                        &&& (value == i64::MAX || value >= beta || exists|j: int|
                            0 <= j < i && #[trigger] spec_child_value(hb, ms@[j], d)
                                <= value as int)
                    },
                decreases ms@.len() - i,
            {
                let c = match updated_board.try_move(ms[i]) {
                    Ok(next) => {
                        proof {
                            if state_no_hidden(*state) {
                                reveal(crate::rules::move_ok);
                                lemma_apply_no_hidden(hb, ms@[i as int]);
                            }
                        }
                        ab_value(&next, depth - 1, alpha, bb, rng)
                    },
                    Err(_) => state.basic_value(),
                };
                proof {
                    if state_no_hidden(*state) {
                        reveal(crate::rules::move_ok);
                        if move_ok(hb, ms@[i as int]) {
                            lemma_child_step(
                                spec_apply(hb, ms@[i as int]),
                                (d - 1) as nat,
                                alpha as int,
                                bb as int,
                                c as int,
                            );
                        }
                        assert(c > alpha ==> spec_child_value(hb, ms@[i as int], d) >= c as int);
                        assert(c <= alpha ==> spec_child_value(hb, ms@[i as int], d) <= c as int);
                        assert(c < bb ==> spec_child_value(hb, ms@[i as int], d) <= c as int);
                    }
                }
                if c < value {
                    value = c;
                }
                if value <= alpha {
                    proof {
                        if state_no_hidden(*state) {
                            assert(value == c);
                            lemma_spec_best_bounds(hb, ms@.len() as int, d);
                            assert(spec_minimax(*state, d) == spec_best(hb, ms@.len() as int, d));
                            assert(spec_child_value(hb, ms@[i as int], d) <= value as int);
                        }
                    }
                    return value;
                }
                if value < bb {
                    bb = value;
                }
                i += 1;
            }
            proof {
                if state_no_hidden(*state) {
                    lemma_spec_best_bounds(hb, ms@.len() as int, d);
                    assert(spec_minimax(*state, d) == spec_best(hb, ms@.len() as int, d));
                    let js = choose|j: int|
                        0 <= j < ms@.len() && #[trigger] spec_child_value(hb, ms@[j], d)
                            == spec_best(hb, ms@.len() as int, d);
                    assert(spec_child_value(hb, ms@[js], d) >= value as int);
                    if value == i64::MAX {
                        lemma_child_in_range(hb, ms@[js], d);
                    }
                }
            }
            value
        },
    }
}

/// The exact child score of one offered move, computed with a
/// full-window pruned probe (and a fresh determinization below it).
fn ab_child_exact(state: &GameState, board: &Board, m: Move, depth: u16, rng: &mut StdRng) -> (r:
    i64)
    requires
        depth >= 1,
        *state == (GameState::Playing { board: *board }),
    ensures
        state_no_hidden(*state) ==> r as int == spec_child_value(*board, m, depth as nat),
{
    match board.try_move(m) {
        Ok(next) => {
            proof {
                if state_no_hidden(*state) {
                    reveal(crate::rules::move_ok);
                    lemma_apply_no_hidden(*board, m);
                }
            }
            let c = ab_value(&next, depth - 1, i64::MIN, i64::MAX, rng);
            proof {
                if state_no_hidden(*state) {
                    reveal(crate::rules::move_ok);
                    reveal(crate::rules::spec_apply);
                    lemma_ab_exact(next, (depth - 1) as nat, c);
                }
            }
            c
        },
        Err(_) => {
            proof {
                if state_no_hidden(*state) {
                    reveal(crate::rules::move_ok);
                }
            }
            state.basic_value()
        },
    }
}

/// The alpha-beta-optimal move at a fixed depth: on a fully observable
/// state its score is exactly the game value plain minimax computes —
/// the search-equivalence law. `None` exactly when the game is
/// finished or the depth is zero. A game in progress always offers at
/// least a discard, so a caller may not present a position offering
/// nothing: that would be a desync between move generation and
/// validation, a fatal invariant violation rather than a recoverable
/// case.
pub fn optimal_move(state: &GameState, depth: u16) -> (r: Option<(Move, i64)>)
    requires
        *state matches GameState::Playing { board } ==> spec_legal_moves(board).len() > 0,
    ensures
        r is Some <==> (*state is Playing && depth >= 1),
        r matches Some((m, v)) ==> {
            &&& spec_legal_moves(state_board(*state)).contains(m)
            &&& state_no_hidden(*state) ==> v as int == spec_minimax(*state, depth as nat)
            &&& state_no_hidden(*state) ==> crate::minimax::earliest_best(
                *state,
                depth as nat,
                m,
                v,
            )
        },
{
    let mut rng = crate::rng::rng_from_entropy();
    let board = match state {
        GameState::Playing { board } => board,
        GameState::Finished { .. } => {
            return None;
        },
    };
    if depth == 0 {
        return None;
    }
    let ms = board.legal_moves();
    let mut best_move = ms[0];
    let mut best = ab_child_exact(state, board, ms[0], depth, &mut rng);
    let ghost mut bi: int = 0;
    let mut i: usize = 1;
    while i < ms.len()
        invariant
            1 <= i <= ms@.len(),
            depth >= 1,
            ms@ == spec_legal_moves(*board),
            ms@.len() > 0,
            *state == (GameState::Playing { board: *board }),
            ms@.contains(best_move),
            0 <= bi < i,
            ms@[bi] == best_move,
            state_no_hidden(*state) ==> best as int == spec_best(*board, i as int, depth as nat),
            state_no_hidden(*state) ==> best as int == spec_child_value(
                *board,
                ms@[bi],
                depth as nat,
            ),
            state_no_hidden(*state) ==> forall|j: int|
                0 <= j < bi ==> (match board.turn {
                    Player::Red => spec_child_value(*board, #[trigger] ms@[j], depth as nat) < (
                    best as int),
                    Player::Blue => spec_child_value(*board, ms@[j], depth as nat) > (best as int),
                }),
        decreases ms@.len() - i,
    {
        let v = ab_child_exact(state, board, ms[i], depth, &mut rng);
        match board.turn {
            Player::Red => {
                if v > best {
                    proof {
                        if state_no_hidden(*state) {
                            lemma_spec_best_bounds(*board, i as int, depth as nat);
                        }
                        bi = i as int;
                    }
                    best = v;
                    best_move = ms[i];
                }
            },
            Player::Blue => {
                if v < best {
                    proof {
                        if state_no_hidden(*state) {
                            lemma_spec_best_bounds(*board, i as int, depth as nat);
                        }
                        bi = i as int;
                    }
                    best = v;
                    best_move = ms[i];
                }
            },
        }
        i += 1;
    }
    proof {
        if state_no_hidden(*state) {
            assert(ms@[bi] == best_move);
            assert(crate::minimax::earliest_best(*state, depth as nat, best_move, best));
        }
    }
    Some((best_move, best))
}

/// An offered move carrying, on a fully observable state, the exact
/// game value at some completed depth.
pub open spec fn ab_scored(s: GameState, m: Move, v: i64) -> bool {
    exists|d: nat|
        1 <= d < MAX_DEPTH && spec_legal_moves(state_board(s)).contains(m) && (state_no_hidden(s)
            ==> v as int == #[trigger] spec_minimax(s, d))
}

/// `optimal_move` under a deadline: gives up once the deadline passes.
fn optimal_move_deadline(state: &GameState, depth: u16, deadline: &Instant, rng: &mut StdRng) -> (r:
    Option<(Move, i64)>)
    ensures
        *state is Finished ==> r is None,
        spec_legal_moves(state_board(*state)).len() == 0 ==> r is None,
        r matches Some((m, v)) ==> {
            &&& *state is Playing
            &&& depth >= 1
            &&& spec_legal_moves(state_board(*state)).contains(m)
            &&& state_no_hidden(*state) ==> v as int == spec_minimax(*state, depth as nat)
        },
{
    let board = match state {
        GameState::Playing { board } => board,
        GameState::Finished { .. } => {
            return None;
        },
    };
    if depth == 0 {
        return None;
    }
    if past_deadline(deadline) {
        return None;
    }
    let ms = board.legal_moves();
    if ms.len() == 0 {
        return None;
    }
    let mut best_move = ms[0];
    let mut best = ab_child_exact(state, board, ms[0], depth, rng);
    let mut i: usize = 1;
    while i < ms.len()
        invariant
            1 <= i <= ms@.len(),
            depth >= 1,
            ms@ == spec_legal_moves(*board),
            ms@.len() > 0,
            *state == (GameState::Playing { board: *board }),
            ms@.contains(best_move),
            state_no_hidden(*state) ==> best as int == spec_best(*board, i as int, depth as nat),
        decreases ms@.len() - i,
    {
        if past_deadline(deadline) {
            return None;
        }
        let v = ab_child_exact(state, board, ms[i], depth, rng);
        match board.turn {
            Player::Red => {
                if v > best {
                    best = v;
                    best_move = ms[i];
                }
            },
            Player::Blue => {
                if v < best {
                    best = v;
                    best_move = ms[i];
                }
            },
        }
        i += 1;
    }
    Some((best_move, best))
}

/// Iterative deepening with pruning: deepen until the budget runs out,
/// keeping the last fully completed depth, and stop early once a proven
/// forced win or loss appears.
pub fn iterative_deepening(state: &GameState, duration: Duration) -> (r: Option<(Move, i64)>)
    ensures
        *state is Finished ==> r is None,
        spec_legal_moves(state_board(*state)).len() == 0 ==> r is None,
        r matches Some((m, v)) ==> ab_scored(*state, m, v),
{
    let mut rng = crate::rng::rng_from_entropy();
    let deadline = deadline_after(duration);
    let mut result: Option<(Move, i64)> = None;
    let mut depth: u16 = 1;
    while depth < MAX_DEPTH
        invariant
            1 <= depth,
            (*state is Finished || spec_legal_moves(state_board(*state)).len() == 0)
                ==> result is None,
            result matches Some((m, v)) ==> ab_scored(*state, m, v),
        decreases MAX_DEPTH - depth,
    {
        if let Some((_, val)) = result {
            if val == i64::MAX || val == i64::MIN {
                break ;
            }
        }
        match optimal_move_deadline(state, depth, &deadline, &mut rng) {
            None => {
                break ;
            },
            Some(val) => {
                proof {
                    let d: nat = depth as nat;
                    let ghost_value = spec_minimax(*state, d);
                    assert(1 <= d && d < MAX_DEPTH);
                    assert(state_no_hidden(*state) ==> val.1 as int == ghost_value);
                    assert(spec_legal_moves(state_board(*state)).contains(val.0));
                    assert(ab_scored(*state, val.0, val.1));
                }
                result = Some(val);
            },
        }
        depth += 1;
    }
    result
}

/// The first depth at which the deadline interrupted the search, if it
/// ever did: a benchmarking probe for the reachable search depth.
pub fn iterative_deepening_just_depth(state: &GameState, duration: Duration) -> (r: Option<u16>)
    ensures
        r matches Some(d) ==> 1 <= d < MAX_DEPTH,
{
    let mut rng = crate::rng::rng_from_entropy();
    let deadline = deadline_after(duration);
    let mut result: Option<(Move, i64)> = None;
    let mut depth: u16 = 1;
    while depth < MAX_DEPTH
        invariant
            1 <= depth < MAX_DEPTH + 1,
        decreases MAX_DEPTH - depth,
    {
        if let Some((_, val)) = result {
            if val == i64::MAX || val == i64::MIN {
                break ;
            }
        }
        match optimal_move_deadline(state, depth, &deadline, &mut rng) {
            None => {
                if depth < MAX_DEPTH {
                    return Some(depth);
                }
                break ;
            },
            Some(val) => {
                result = Some(val);
            },
        }
        depth += 1;
    }
    None
}

/// A score list that pairs each offered move, in order, with its exact
/// child value at depth `d` (on a fully observable state).
pub open spec fn scored_list(s: GameState, d: nat, v: Seq<(Move, i64)>) -> bool {
    let b = state_board(s);
    &&& s is Playing
    &&& v.len() == spec_legal_moves(b).len()
    &&& forall|i: int| 0 <= i < v.len() ==> (#[trigger] v[i]).0 == spec_legal_moves(b)[i]
    &&& state_no_hidden(s) ==> forall|i: int|
        0 <= i < v.len() ==> (#[trigger] v[i]).1 as int == spec_child_value(
            b,
            spec_legal_moves(b)[i],
            d,
        )
}

/// Score every offered move at a fixed depth, under a deadline.
fn moves_scored_deadline(state: &GameState, depth: u16, deadline: &Instant, rng: &mut StdRng) -> (r:
    Option<Vec<(Move, i64)>>)
    ensures
        *state is Finished ==> r is None,
        r matches Some(v) ==> (depth >= 1 && scored_list(*state, depth as nat, v@)),
{
    let board = match state {
        GameState::Playing { board } => board,
        GameState::Finished { .. } => {
            return None;
        },
    };
    if depth == 0 {
        return None;
    }
    if past_deadline(deadline) {
        return None;
    }
    let ms = board.legal_moves();
    let mut scored: Vec<(Move, i64)> = Vec::new();
    let mut i: usize = 0;
    while i < ms.len()
        invariant
            i <= ms@.len(),
            depth >= 1,
            ms@ == spec_legal_moves(*board),
            *state == (GameState::Playing { board: *board }),
            scored@.len() == i,
            forall|j: int| 0 <= j < i ==> (#[trigger] scored@[j]).0 == ms@[j],
            state_no_hidden(*state) ==> forall|j: int|
                0 <= j < i ==> (#[trigger] scored@[j]).1 as int == spec_child_value(
                    *board,
                    ms@[j],
                    depth as nat,
                ),
        decreases ms@.len() - i,
    {
        if past_deadline(deadline) {
            return None;
        }
        let v = ab_child_exact(state, board, ms[i], depth, rng);
        scored.push((ms[i], v));
        i += 1;
    }
    Some(scored)
}

/// An offered-move score list whose scores are exact at some completed
/// depth (on a fully observable state).
pub open spec fn scored_at_some_depth(s: GameState, v: Seq<(Move, i64)>) -> bool {
    exists|d: nat| 1 <= d < MAX_DEPTH && #[trigger] scored_list(s, d, v)
}

/// Score every offered move by iterative deepening, keeping the last
/// depth that completed in time.
pub fn moves_scored_deepening(state: &GameState, duration: Duration) -> (r: Option<
    Vec<(Move, i64)>,
>)
    ensures
        *state is Finished ==> r is None,
        r matches Some(v) ==> scored_at_some_depth(*state, v@),
{
    let mut rng = crate::rng::rng_from_entropy();
    let deadline = deadline_after(duration);
    let mut result: Option<Vec<(Move, i64)>> = None;
    let mut depth: u16 = 1;
    while depth < MAX_DEPTH
        invariant
            1 <= depth,
            *state is Finished ==> result is None,
            result matches Some(v) ==> scored_at_some_depth(*state, v@),
        decreases MAX_DEPTH - depth,
    {
        match moves_scored_deadline(state, depth, &deadline, &mut rng) {
            None => {
                break ;
            },
            Some(val) => {
                proof {
                    let d: nat = depth as nat;
                    assert(1 <= d && d < MAX_DEPTH);
                    assert(scored_list(*state, d, val@));
                }
                result = Some(val);
            },
        }
        depth += 1;
    }
    result
}

}
