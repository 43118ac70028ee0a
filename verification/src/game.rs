//! A held game: the current state, the last move played, and the
//! settings to reset with.

use vstd::prelude::*;

use crate::models::GameSettings;
use crate::models::GameState;
use crate::models::Move;
use crate::models::Player;
use crate::rules::move_ok;
use crate::rules::spec_apply;

verus! {

/// A game in progress together with its settings and the move that
/// produced the current position.
pub struct Game {
    state: GameState,
    last_move: Option<Move>,
    settings: GameSettings,
}

impl Game {
    /// The current state.
    pub closed spec fn spec_state(self) -> GameState {
        self.state
    }

    /// The last move played, if any.
    pub closed spec fn spec_last_move(self) -> Option<Move> {
        self.last_move
    }

    /// A new game under the default settings.
    pub fn new() -> (r: Game)
        ensures
            r.spec_state() is Playing,
            r.spec_last_move() is None,
    {
        Game::new_with_settings(GameSettings::default())
    }

    /// A new game under the given settings. Settings that do not leave
    /// at least the five cards a deal needs fall back to the defaults.
    pub fn new_with_settings(settings: GameSettings) -> (r: Game)
        ensures
            r.spec_state() is Playing,
            r.spec_last_move() is None,
    {
        let enough = count_enabled_cards(&settings) >= 5;
        let state = if enough {
            GameState::new_with_settings(settings.clone())
        } else {
            GameState::new_with_settings(GameSettings::default())
        };
        Game { state, last_move: None, settings }
    }

    /// Start over under the held settings.
    pub fn reset(&mut self)
        ensures
            final(self).spec_state() is Playing,
            final(self).spec_last_move() is None,
    {
        let enough = count_enabled_cards(&self.settings) >= 5;
        self.state = if enough {
            GameState::new_with_settings(self.settings.clone())
        } else {
            GameState::new_with_settings(GameSettings::default())
        };
        self.last_move = None;
    }

    /// Play a move: on success the state advances and the move is
    /// remembered; on a rule violation nothing changes. A finished game
    /// refuses every move.
    pub fn try_move(&mut self, game_move: Move) -> (r: Result<(), String>)
        ensures
            old(self).spec_state() matches GameState::Playing { board } ==> {
                &&& (r is Ok <==> move_ok(board, game_move))
                &&& (r is Ok ==> final(self).spec_state() == spec_apply(board, game_move)
                    && final(self).spec_last_move() == Some(game_move))
                &&& (r is Err ==> *final(self) == *old(self))
            },
            old(self).spec_state() is Finished ==> (r is Err && *final(self) == *old(self)),
    {
        proof {
            reveal(crate::rules::move_ok);
        }
        let board = match &self.state {
            GameState::Playing { board } => *board,
            GameState::Finished { .. } => {
                return Err(game_finished_message());
            },
        };
        match board.try_move(game_move) {
            Ok(next) => {
                self.state = next;
                self.last_move = Some(game_move);
                Ok(())
            },
            Err(e) => Err(e),
        }
    }

    /// The move that produced the current position, if any.
    pub fn get_last_move(&self) -> (r: Option<Move>)
        ensures
            r == self.spec_last_move(),
    {
        self.last_move
    }

    /// Adopt an externally produced state, forgetting the last move.
    pub fn set_state(&mut self, state: GameState)
        ensures
            final(self).spec_state() == state,
            final(self).spec_last_move() is None,
    {
        self.last_move = None;
        self.state = state;
    }

    /// The current state.
    pub fn get_state(&self) -> (r: GameState)
        ensures
            r == self.spec_state(),
    {
        self.state
    }

    /// The side to move, while the game runs.
    pub fn get_turn(&self) -> (r: Option<Player>)
        ensures
            r == (match self.spec_state() {
                GameState::Playing { board } => Some(board.turn),
                GameState::Finished { .. } => None::<Player>,
            }),
    {
        match &self.state {
            GameState::Playing { board } => Some(board.turn),
            GameState::Finished { .. } => None,
        }
    }

    /// Whether the game has ended.
    pub fn is_finished(&self) -> (r: bool)
        ensures
            r == (self.spec_state() is Finished),
    {
        match &self.state {
            GameState::Finished { .. } => true,
            GameState::Playing { .. } => false,
        }
    }

    /// The winner of a finished game.
    pub fn get_winner(&self) -> (r: Option<Player>)
        ensures
            r == (match self.spec_state() {
                GameState::Finished { winner, .. } => Some(winner),
                GameState::Playing { .. } => None::<Player>,
            }),
    {
        match &self.state {
            GameState::Finished { winner, .. } => Some(*winner),
            GameState::Playing { .. } => None,
        }
    }
}

/// The message a finished game answers every move with.
fn game_finished_message() -> (r: String)
    ensures
        r@ == "Game Already Finished"@,
{
    "Game Already Finished".to_string()
}

/// How many cards the enabled sets hold.
fn count_enabled_cards(settings: &GameSettings) -> (r: usize) {
    let mut total: usize = 0;
    let sets = [CardSetWalk::B, CardSetWalk::S, CardSetWalk::P, CardSetWalk::W];
    let mut i: usize = 0;
    while i < 4
        invariant
            total <= 64,
        decreases 4 - i,
    {
        let cs = match sets[i] {
            CardSetWalk::B => crate::models::CardSet::Base,
            CardSetWalk::S => crate::models::CardSet::SenseiPath,
            CardSetWalk::P => crate::models::CardSet::PromotionalPack,
            CardSetWalk::W => crate::models::CardSet::WayOfTheWind,
        };
        if !crate::setup::set_disabled(settings, cs) {
            let cards = cs.cards();
            if total <= 48 {
                total += cards.len();
            }
        }
        i += 1;
    }
    total
}

/// A walking tag over the four card sets.
enum CardSetWalk {
    B,
    S,
    P,
    W,
}

}
