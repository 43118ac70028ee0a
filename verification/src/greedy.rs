//! The greedy agent: score every offered move with a fixed shallow
//! minimax and play a uniformly random one among the best.

use vstd::prelude::*;

use crate::minimax::spec_child_value;
use crate::models::GameState;
use crate::models::Move;
use crate::models::Player;
use crate::move_gen::spec_legal_moves;
use crate::rng::rand_below;
use crate::rng::rng_from_entropy;
use crate::rules::state_board;

verus! {

/// The fixed look-ahead horizon: each candidate move's resulting
/// position is searched one ply less deep than this, a depth-three
/// minimax.
pub const GREEDY_DEPTH: u16 = 4;

/// Greedy play: each offered move is scored by a depth-three minimax of
/// the position it produces, and a uniformly random best-scoring move
/// is played. `None` exactly for a finished game or when nothing is
/// offered.
pub fn greedy_agent(state: &GameState) -> (r: Option<(Move, i64)>)
    ensures
        r is Some <==> (*state is Playing && spec_legal_moves(state_board(*state)).len() > 0),
        r matches Some((m, v)) ==> {
            &&& spec_legal_moves(state_board(*state)).contains(m)
            &&& exists|i: int|
                0 <= i < spec_legal_moves(state_board(*state)).len() && spec_legal_moves(
                    state_board(*state),
                )[i] == m && v as int == #[trigger] spec_child_value(
                    state_board(*state),
                    spec_legal_moves(state_board(*state))[i],
                    GREEDY_DEPTH as nat,
                )
            &&& forall|i: int|
                0 <= i < spec_legal_moves(state_board(*state)).len() ==> (match state_board(
                    *state,
                ).turn {
                    Player::Red => #[trigger] spec_child_value(
                        state_board(*state),
                        spec_legal_moves(state_board(*state))[i],
                        GREEDY_DEPTH as nat,
                    ) <= v as int,
                    Player::Blue => spec_child_value(
                        state_board(*state),
                        spec_legal_moves(state_board(*state))[i],
                        GREEDY_DEPTH as nat,
                    ) >= v as int,
                })
        },
{
    let mut rng = rng_from_entropy();
    let board = match state {
        GameState::Playing { board } => board,
        GameState::Finished { .. } => {
            return None;
        },
    };
    let ms = board.legal_moves();
    if ms.len() == 0 {
        return None;
    }
    let mut scores: Vec<i64> = Vec::new();
    let mut i: usize = 0;
    while i < ms.len()
        invariant
            i <= ms@.len(),
            ms@ == spec_legal_moves(*board),
            *state == (GameState::Playing { board: *board }),
            scores@.len() == i,
            forall|j: int|
                0 <= j < i ==> scores@[j] as int == #[trigger] spec_child_value(
                    *board,
                    ms@[j],
                    GREEDY_DEPTH as nat,
                ),
        decreases ms@.len() - i,
    {
        let v = crate::minimax::child_value(state, board, ms[i], GREEDY_DEPTH);
        scores.push(v);
        i += 1;
    }
    let mut best = scores[0];
    let mut k: usize = 1;
    while k < scores.len()
        invariant
            1 <= k <= scores@.len(),
            scores@.len() == ms@.len(),
            ms@ == spec_legal_moves(*board),
            ms@.len() > 0,
            forall|j: int|
                0 <= j < scores@.len() ==> scores@[j] as int == #[trigger] spec_child_value(
                    *board,
                    ms@[j],
                    GREEDY_DEPTH as nat,
                ),
            exists|j: int| 0 <= j < k && scores@[j] == best,
            forall|j: int|
                0 <= j < k ==> (match board.turn {
                    Player::Red => #[trigger] scores@[j] <= best,
                    Player::Blue => scores@[j] >= best,
                }),
        decreases scores@.len() - k,
    {
        let c = scores[k];
        let better = match board.turn {
            Player::Red => c > best,
            Player::Blue => c < best,
        };
        if better {
            best = c;
            proof {
                assert(scores@[k as int] == best);
            }
        }
        k += 1;
    }
    let mut ties: Vec<usize> = Vec::new();
    let mut t: usize = 0;
    while t < scores.len()
        invariant
            t <= scores@.len(),
            scores@.len() == ms@.len(),
            forall|j: int|
                0 <= j < ties@.len() ==> (#[trigger] ties@[j]) < scores@.len() && scores@[
                    ties@[j] as int
                ] == best,
            (exists|j: int| 0 <= j < t && scores@[j] == best) ==> ties@.len() > 0,
        decreases scores@.len() - t,
    {
        if scores[t] == best {
            ties.push(t);
            proof {
                assert(ties@[ties@.len() - 1] == t);
            }
        }
        t += 1;
    }
    if ties.len() == 0 {
        return None;
    }
    let pick = ties[rand_below(&mut rng, ties.len())];
    let m = ms[pick];
    proof {
        assert(scores@[pick as int] == best);
        assert(best as int == spec_child_value(*board, ms@[pick as int], GREEDY_DEPTH as nat));
        assert(spec_legal_moves(*board)[pick as int] == m);
        assert(spec_legal_moves(*board).contains(m));
    }
    Some((m, best))
}

}
