//! A whole match between two agents, played to the end (or a turn cap)
//! with a fixed per-move budget: the engine behind agent benchmarking.

use vstd::prelude::*;

use crate::agents::AiAgent;
use crate::clock::millis;
use crate::models::GameState;
use crate::models::Player;

verus! {

/// The per-move budget of a benchmark match, in milliseconds.
pub const TURN_DURATION_MS: u64 = 100;

/// The turn cap after which a match counts as a deadlock.
pub const MAX_TURNS: u64 = 250;

/// One benchmark pairing: which agent plays each side.
pub struct Match {
    pub red: AiAgent,
    pub blue: AiAgent,
}

impl Match {
    /// The agent playing the given side.
    fn agent_from_player(&self, player: Player) -> (r: AiAgent)
        ensures
            r == self.red || r == self.blue,
    {
        match player {
            Player::Red => self.red,
            Player::Blue => self.blue,
        }
    }

    /// Play a fresh game to its end: the winning side's agent, or
    /// `None` on a deadlock, a turn-cap overrun, or an agent that could
    /// finish no depth in time.
    pub fn winner(&self) -> (r: Option<AiAgent>)
        ensures
            r matches Some(a) ==> (a == self.red || a == self.blue),
    {
        let mut state = GameState::new();
        let mut iteration: u64 = 0;
        while iteration < MAX_TURNS
            decreases MAX_TURNS - iteration,
        {
            let board = match state {
                GameState::Playing { board } => board,
                GameState::Finished { winner, .. } => {
                    return Some(self.agent_from_player(winner));
                },
            };
            let agent = self.agent_from_player(board.turn);
            let game_move = match agent.play_move(&state, millis(TURN_DURATION_MS)) {
                Some((m, _)) => m,
                None => {
                    return None;
                },
            };
            state = match board.try_move(game_move) {
                Ok(next) => next,
                Err(_) => {
                    return None;
                },
            };
            iteration += 1;
        }
        None
    }
}

}
