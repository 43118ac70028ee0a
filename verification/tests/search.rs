// The search agents, exercised end to end: alpha-beta agreeing with
// plain minimax, and the deadline-driven benchmarks.

use core::time::Duration;

use onitamalib::alphabeta;
use onitamalib::minimax;
use onitamalib::montecarlo;
use onitamalib::setup::generate_test_states;
use onitamalib::Board;
use onitamalib::Card;
use onitamalib::GameState;
use onitamalib::Move;
use onitamalib::Player;
use onitamalib::Point;

const SHARED_DEPTH: u16 = 3;

#[test]
fn alphabeta_equivalent_to_minimax() {
    let test_states = generate_test_states();
    for state in test_states.into_iter() {
        let ab_value = match alphabeta::optimal_move(&state, SHARED_DEPTH) {
            None => panic!("Alphabeta returned None"),
            Some((_, expected)) => expected,
        };
        let minimax_value = match minimax::optimal_move(&state, SHARED_DEPTH) {
            None => panic!("Minimax returned None"),
            Some((_, expected)) => expected,
        };
        assert_eq!(ab_value, minimax_value);
    }
}

#[test]
fn alphabeta_benchmark() {
    let duration = Duration::from_millis(100);
    let test_states = generate_test_states();
    let mut total_depth = 0u64;
    let mut counted = 0u64;
    for state in test_states.into_iter() {
        match alphabeta::iterative_deepening_just_depth(&state, duration) {
            None => {}
            Some(depth) => {
                total_depth += depth as u64;
                counted += 1;
            }
        };
    }
    let average_depth: f64 = total_depth as f64 / counted as f64;
    println!(
        "Average Depth: {} out of {} timeouts",
        average_depth, counted
    );
}

#[test]
fn montecarlo_benchmark() {
    let duration = Duration::from_millis(100);
    let test_states = generate_test_states();
    let mut total_simulations = 0u64;
    for state in test_states.into_iter() {
        let board = match state {
            GameState::Playing { board } => board,
            GameState::Finished { .. } => panic!("Unexpected finished state"),
        };
        let moves = board.legal_moves();
        total_simulations += montecarlo::montecarlo_count_simulations(&board, moves, duration);
    }
    println!("Total Simulations: {}", total_simulations);
}

#[test]
fn every_agent_proposes_an_offered_move() {
    let duration = Duration::from_millis(50);
    let state = GameState::new();
    let board = match state {
        GameState::Playing { board } => board,
        GameState::Finished { .. } => panic!("a fresh game is in progress"),
    };
    let legal = board.legal_moves();
    for agent in onitamalib::agents::all_agents().into_iter() {
        let (game_move, _) = agent
            .play_move(&state, duration)
            .expect("an agent always finds a move in a fresh game");
        assert!(legal.contains(&game_move));
        assert!(board.try_move(game_move).is_ok());
    }
}

#[test]
fn greedy_picks_an_immediate_win() {
    // One ply from a king capture, the shallow look-ahead cannot miss it.
    let board = Board {
        wind_spirit: None,
        blue_king: Some(Point { x: 2, y: 2 }),
        blue_pawns: [None, None, None, None],
        blue_ninjas: [None, None],
        blue_hand: [Card::Crane, Card::Boar],
        red_king: Some(Point { x: 2, y: 4 }),
        red_pawns: [None, None, None, None],
        red_ninjas: [None, None],
        red_hand: [Card::Tiger, Card::Ox],
        spare_card: Card::Monkey,
        wind_move_pending: false,
        wind_move_card: None,
        shadow_mode: false,
        ninja_move_pending: false,
        ninja_move_card: None,
        turn: Player::Red,
    };
    let state = GameState::Playing { board };
    let (m, score) = onitamalib::greedy::greedy_agent(&state).expect("moves exist");
    assert_eq!(score, i64::MAX);
    assert_eq!(
        m,
        Move::Move {
            card: Card::Tiger,
            src: Point { x: 2, y: 4 },
            dst: Point { x: 2, y: 2 },
            reveal_ninja: false
        }
    );
    match board.try_move(m) {
        Ok(GameState::Finished { winner, .. }) => assert_eq!(winner, Player::Red),
        other => panic!("expected the capture to finish the game: {:?}", other),
    }
}
