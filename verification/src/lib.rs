//! A verified rules engine and search library for an Onitama-style
//! two-player, card-driven board game on a 5x5 grid, including the
//! Way of the Wind (neutral Wind Spirit piece) and Way of Shadow
//! (concealable Ninja pieces) variants, together with minimax,
//! alpha-beta, Monte-Carlo and hybrid search agents.

pub mod alphabeta;
pub mod agents;
pub mod benchmark;
pub mod board;
pub mod cards;
pub mod clock;
pub mod game;
pub mod greedy;
pub mod heuristics;
pub mod laws;
pub mod minimax;
pub mod models;
pub mod montecarlo;
pub mod ninja_logic;
pub mod move_gen;
pub mod rng;
pub mod setup;
pub mod rules;

pub use agents::AiAgent;
pub use game::Game;
pub use models::Board;
pub use models::Card;
pub use models::CardDirection;
pub use models::CardSet;
pub use models::GameError;
pub use models::GameEvent;
pub use models::GameMeta;
pub use models::GameSettings;
pub use models::GameSquare;
pub use models::GameState;
pub use models::Move;
pub use models::Ninja;
pub use models::Player;
pub use models::Point;
