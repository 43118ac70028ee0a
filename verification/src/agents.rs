//! The search agents behind one shared door: each proposes an offered
//! move (with its agent-specific score) for the side to move, under a
//! wall-clock budget.

use core::time::Duration;
use vstd::prelude::*;

use crate::alphabeta;
use crate::greedy;
use crate::minimax;
use crate::models::GameState;
use crate::models::Move;
use crate::montecarlo;
use crate::move_gen::spec_legal_moves;
use crate::rules::state_board;

verus! {

/// The available decision policies.
#[derive(Copy, Clone, Debug, Eq, PartialEq, Hash, Structural)]
pub enum AiAgent {
    Greedy,
    PureMonteCarlo,
    HybridMonteCarlo,
    Minimax,
    Alphabeta,
}

/// Every agent, in a fixed order.
pub fn all_agents() -> (r: Vec<AiAgent>)
    ensures
        r@ == seq![
            AiAgent::Greedy,
            AiAgent::PureMonteCarlo,
            AiAgent::HybridMonteCarlo,
            AiAgent::Minimax,
            AiAgent::Alphabeta,
        ],
{
    let mut v: Vec<AiAgent> = Vec::new();
    v.push(AiAgent::Greedy);
    v.push(AiAgent::PureMonteCarlo);
    v.push(AiAgent::HybridMonteCarlo);
    v.push(AiAgent::Minimax);
    v.push(AiAgent::Alphabeta);
    proof {
        assert(v@ =~= seq![
            AiAgent::Greedy,
            AiAgent::PureMonteCarlo,
            AiAgent::HybridMonteCarlo,
            AiAgent::Minimax,
            AiAgent::Alphabeta,
        ]);
    }
    v
}

impl AiAgent {
    /// Propose a move for the side to move within the budget: whatever
    /// the policy, the proposal is one of the offered moves, a finished
    /// game draws no proposal, and each policy's own guarantee — exact
    /// scores at a completed depth for the searches, the hybrid's
    /// shortlist discipline, the offer-iff of the greedy and rollout
    /// players — carries through.
    pub fn play_move(&self, state: &GameState, duration: Duration) -> (r: Option<(Move, i64)>)
        ensures
            r matches Some((m, v)) ==> spec_legal_moves(state_board(*state)).contains(m),
            *state is Finished ==> r is None,
            *self == AiAgent::Greedy ==> (r is Some <==> (*state is Playing && spec_legal_moves(
                state_board(*state),
            ).len() > 0)),
            *self == AiAgent::PureMonteCarlo ==> (r is Some <==> (*state is Playing
                && spec_legal_moves(state_board(*state)).len() > 0)),
            *self == AiAgent::HybridMonteCarlo ==> (r matches Some(p)
                ==> montecarlo::hybrid_hard_result_ok(*state, p)),
            *self == AiAgent::Minimax ==> (r matches Some((m, v))
                ==> minimax::scored_at_some_depth(*state, m, v)),
            *self == AiAgent::Alphabeta ==> (r matches Some((m, v)) ==> alphabeta::ab_scored(
                *state,
                m,
                v,
            )),
    {
        match self {
            AiAgent::Greedy => greedy::greedy_agent(state),
            AiAgent::PureMonteCarlo => montecarlo::pure_montecarlo_agent(state, duration),
            AiAgent::HybridMonteCarlo => {
                let r = montecarlo::hybrid_hard_montecarlo_agent(state, duration);
                r
            },
            AiAgent::Minimax => {
                let r = minimax::iterative_deepening(state, duration);
                proof {
                    if r is Some {
                        let p = r->0;
                        let d = choose|d: nat|
                            1 <= d < minimax::MAX_DEPTH && spec_legal_moves(
                                state_board(*state),
                            ).contains(p.0) && p.1 as int == #[trigger] minimax::spec_minimax(
                                *state,
                                d,
                            );
                    }
                }
                r
            },
            AiAgent::Alphabeta => {
                let r = alphabeta::iterative_deepening(state, duration);
                proof {
                    if r is Some {
                        let p = r->0;
                        let d = choose|d: nat|
                            1 <= d < minimax::MAX_DEPTH && spec_legal_moves(
                                state_board(*state),
                            ).contains(p.0) && (crate::ninja_logic::state_no_hidden(*state)
                                ==> p.1 as int == #[trigger] minimax::spec_minimax(*state, d));
                    }
                }
                r
            },
        }
    }
}

}
