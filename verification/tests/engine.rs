// The rules engine on concrete positions: the scenarios the design
// fixes, one input for every error, and the exact values of the
// evaluator and the card catalog.

use onitamalib::Board;
use onitamalib::Card;
use onitamalib::CardSet;
use onitamalib::GameSettings;
use onitamalib::GameSquare;
use onitamalib::GameState;
use onitamalib::Move;
use onitamalib::Ninja;
use onitamalib::Player;
use onitamalib::Point;

fn pt(x: i8, y: i8) -> Point {
    Point { x, y }
}

/// A bare board: only the two kings on their home squares, fixed hands.
fn bare_board() -> Board {
    Board {
        wind_spirit: None,
        blue_king: Some(pt(2, 0)),
        blue_pawns: [None, None, None, None],
        blue_ninjas: [None, None],
        blue_hand: [Card::Crane, Card::Boar],
        red_king: Some(pt(2, 4)),
        red_pawns: [None, None, None, None],
        red_ninjas: [None, None],
        red_hand: [Card::Tiger, Card::Ox],
        spare_card: Card::Monkey,
        wind_move_pending: false,
        wind_move_card: None,
        shadow_mode: false,
        ninja_move_pending: false,
        ninja_move_card: None,
        turn: Player::Red,
    }
}

fn mv(card: Card, src: Point, dst: Point) -> Move {
    Move::Move { card, src, dst, reveal_ninja: false }
}

#[test]
fn king_reaches_forward_with_tiger() {
    // Red King at (2,4) holding the card with offsets (0,-2)/(0,1):
    // the unobstructed leap lands on (2,2) and the game goes on.
    let board = bare_board();
    let result = board.try_move(mv(Card::Tiger, pt(2, 4), pt(2, 2)));
    match result {
        Ok(GameState::Playing { board: after }) => {
            assert_eq!(after.red_king, Some(pt(2, 2)));
            assert_eq!(after.spare_card, Card::Tiger);
            assert_eq!(after.turn, Player::Blue);
        }
        other => panic!("expected the game to continue: {:?}", other),
    }
    // The backward offset (0,1) would leave the board from the home row.
    assert!(board.try_move(mv(Card::Tiger, pt(2, 4), pt(2, 5))).is_err());
}

#[test]
fn king_on_goal_square_wins() {
    // A King with a legal move onto its goal square finishes the game:
    // Blue's goal is the opposing home square (2,4).
    let mut board = bare_board();
    board.turn = Player::Blue;
    board.blue_king = Some(pt(2, 3));
    board.red_king = Some(pt(0, 4));
    // Boar's forward step, mirrored for Blue, is (0,1).
    let result = board.try_move(mv(Card::Boar, pt(2, 3), pt(2, 4)));
    match result {
        Ok(GameState::Finished { winner, .. }) => assert_eq!(winner, Player::Blue),
        other => panic!("expected a finished game: {:?}", other),
    }
}

#[test]
fn king_capture_wins() {
    let mut board = bare_board();
    board.blue_king = Some(pt(2, 2));
    // Tiger leaps from (2,4) onto the Blue King at (2,2).
    let result = board.try_move(mv(Card::Tiger, pt(2, 4), pt(2, 2)));
    match result {
        Ok(GameState::Finished { winner, .. }) => assert_eq!(winner, Player::Red),
        other => panic!("expected a finished game: {:?}", other),
    }
}

#[test]
fn wind_spirit_swaps_instead_of_capturing() {
    // Wind Spirit at (2,2) takes a wind-only offset onto a Red Pawn:
    // the pawn moves to (2,2), the spirit to the target, nothing is
    // captured.
    let mut board = bare_board();
    board.wind_spirit = Some(pt(2, 2));
    board.red_pawns = [Some(pt(3, 1)), None, None, None];
    board.wind_move_pending = true;
    board.wind_move_card = Some(Card::Bat);
    board.red_hand = [Card::Bat, Card::Ox];
    // Bat's wind offsets include (1,-1): from (2,2) onto (3,1).
    let result = board.try_move(mv(Card::Bat, pt(2, 2), pt(3, 1)));
    match result {
        Ok(GameState::Playing { board: after }) => {
            assert_eq!(after.wind_spirit, Some(pt(3, 1)));
            assert_eq!(after.red_pawns[0], Some(pt(2, 2)));
            assert_eq!(after.spare_card, Card::Bat);
            assert_eq!(after.turn, Player::Blue);
        }
        other => panic!("expected the game to continue: {:?}", other),
    }
}

#[test]
fn concealed_ninjas_pass_through_each_other() {
    // An unrevealed Ninja moving onto a square held by an unrevealed
    // enemy Ninja captures nothing and reveals nothing.
    let mut board = bare_board();
    board.red_ninjas = [Some(Ninja { pos: pt(2, 3), revealed: false }), None];
    board.blue_ninjas = [Some(Ninja { pos: pt(2, 1), revealed: false }), None];
    let result = board.try_move(mv(Card::Tiger, pt(2, 3), pt(2, 1)));
    match result {
        Ok(GameState::Playing { board: after }) => {
            let red = after.red_ninjas[0].expect("the mover stays on the board");
            let blue = after.blue_ninjas[0].expect("the enemy ninja stays on the board");
            assert_eq!(red.pos, pt(2, 1));
            assert!(!red.revealed);
            assert_eq!(blue.pos, pt(2, 1));
            assert!(!blue.revealed);
        }
        other => panic!("expected the game to continue: {:?}", other),
    }
}

#[test]
fn ninja_capturing_a_pawn_is_revealed() {
    let mut board = bare_board();
    board.red_ninjas = [Some(Ninja { pos: pt(2, 3), revealed: false }), None];
    board.blue_pawns = [Some(pt(2, 1)), None, None, None];
    let result = board.try_move(mv(Card::Tiger, pt(2, 3), pt(2, 1)));
    match result {
        Ok(GameState::Playing { board: after }) => {
            let red = after.red_ninjas[0].expect("the mover stays on the board");
            assert_eq!(red.pos, pt(2, 1));
            assert!(red.revealed);
            assert_eq!(after.blue_pawns[0], None);
        }
        other => panic!("expected the game to continue: {:?}", other),
    }
}

#[test]
fn every_offered_move_is_accepted() {
    // Legality closure on a dealt board: the generator's moves all pass
    // the validator.
    let mut rng = onitamalib::rng::rng_from_seed(7);
    let board = Board::new_rng(&mut rng);
    let legal = board.legal_moves();
    assert!(legal.len() > 0);
    for m in legal.into_iter() {
        assert!(board.try_move(m).is_ok());
    }
}

#[test]
fn stuck_player_is_offered_exactly_the_discards() {
    // A cornered King whose two cards both leave the board: the offer
    // is one discard per held card, nothing else.
    let mut board = bare_board();
    board.red_king = Some(pt(0, 0));
    board.blue_king = Some(pt(4, 4));
    // Dog only steps left; Eagle (as a hand card) only steps forward.
    board.red_hand = [Card::Dog, Card::Eagle];
    assert!(!board.can_move());
    let legal = board.legal_moves();
    assert_eq!(
        legal,
        vec![
            Move::Discard { card: Card::Dog },
            Move::Discard { card: Card::Eagle }
        ]
    );
    // The discard is accepted and rotates the hand through the spare.
    match board.try_move(Move::Discard { card: Card::Dog }) {
        Ok(GameState::Playing { board: after }) => {
            assert_eq!(after.spare_card, Card::Dog);
            assert_eq!(after.red_hand, [Card::Monkey, Card::Eagle]);
            assert_eq!(after.turn, Player::Blue);
        }
        other => panic!("expected the discard to pass: {:?}", other),
    }
}

#[test]
fn applying_a_move_twice_gives_equal_results() {
    let board = bare_board();
    let m = mv(Card::Tiger, pt(2, 4), pt(2, 2));
    let first = board.try_move(m);
    let second = board.try_move(m);
    assert_eq!(first.is_ok(), second.is_ok());
    assert_eq!(first.unwrap(), second.unwrap());
}

#[test]
fn hand_rotates_through_the_spare() {
    let board = bare_board();
    match board.try_move(mv(Card::Ox, pt(2, 4), pt(3, 4))) {
        Ok(GameState::Playing { board: after }) => {
            assert_eq!(after.red_hand, [Card::Tiger, Card::Monkey]);
            assert_eq!(after.spare_card, Card::Ox);
            assert_ne!(after.red_hand[0], after.red_hand[1]);
            assert_ne!(after.spare_card, after.red_hand[0]);
            assert_ne!(after.spare_card, after.red_hand[1]);
        }
        other => panic!("expected the move to pass: {:?}", other),
    }
}

#[test]
fn one_ply_from_capture_saturates_the_search() {
    let mut board = bare_board();
    board.blue_king = Some(pt(2, 2));
    let state = GameState::Playing { board };
    assert_eq!(onitamalib::minimax::minimax(&state, 1), i64::MAX);
    assert_eq!(onitamalib::minimax::minimax(&state, 3), i64::MAX);
}

#[test]
fn every_error_has_an_input() {
    let board = bare_board();
    // Card not held.
    let e = board.try_move(mv(Card::Crab, pt(2, 4), pt(2, 3))).unwrap_err();
    assert_eq!(e, "Card not in hand");
    // Empty source.
    let e = board.try_move(mv(Card::Tiger, pt(1, 1), pt(1, 0))).unwrap_err();
    assert_eq!(e, "No piece at source");
    // Destination off the board.
    let e = board.try_move(mv(Card::Tiger, pt(2, 4), pt(2, 6))).unwrap_err();
    assert_eq!(e, "Destination is out of bounds");
    // Offset the card does not grant.
    let e = board.try_move(mv(Card::Tiger, pt(2, 4), pt(2, 3))).unwrap_err();
    assert_eq!(e, "Move not valid for card");
    // Discarding while moves exist.
    let e = board.try_move(Move::Discard { card: Card::Tiger }).unwrap_err();
    assert_eq!(e, "Valid moves exist");
    // Own square occupied.
    let mut blocked = bare_board();
    blocked.red_pawns = [Some(pt(2, 2)), None, None, None];
    let e = blocked.try_move(mv(Card::Tiger, pt(2, 4), pt(2, 2))).unwrap_err();
    assert_eq!(e, "Destination occupied by your piece");
    // A finished game refuses everything.
    let finished = GameState::Finished { board, winner: Player::Red };
    let e = finished.try_move(mv(Card::Tiger, pt(2, 4), pt(2, 2))).unwrap_err();
    assert_eq!(e, "Game already finished");
}

#[test]
fn pawn_values_are_concave() {
    assert_eq!(onitamalib::heuristics::value_from_pawn_count(0), 0);
    assert_eq!(onitamalib::heuristics::value_from_pawn_count(1), 8);
    assert_eq!(onitamalib::heuristics::value_from_pawn_count(2), 14);
    assert_eq!(onitamalib::heuristics::value_from_pawn_count(3), 18);
    assert_eq!(onitamalib::heuristics::value_from_pawn_count(4), 20);
    let mut board = bare_board();
    board.red_pawns = [Some(pt(0, 4)), Some(pt(1, 4)), None, None];
    board.blue_pawns = [Some(pt(0, 0)), None, None, None];
    let state = GameState::Playing { board };
    assert_eq!(state.basic_value(), 14 - 8);
    let red_won = GameState::Finished { board, winner: Player::Red };
    assert_eq!(red_won.basic_value(), i64::MAX);
    let blue_won = GameState::Finished { board, winner: Player::Blue };
    assert_eq!(blue_won.basic_value(), i64::MIN);
}

#[test]
fn card_catalog_is_consistent() {
    assert_eq!(
        Card::Tiger.moves(false, false),
        vec![pt(0, -2), pt(0, 1)]
    );
    assert_eq!(
        Card::Okija.moves(true, false),
        vec![pt(-2, -2), pt(2, -2)]
    );
    assert_eq!(
        Card::Bat.moves(false, true),
        vec![pt(-2, -1), pt(-1, -1), pt(1, -1), pt(2, -1)]
    );
    assert_eq!(CardSet::Base.cards().len(), 16);
    assert_eq!(CardSet::WayOfTheWind.cards().len(), 8);
    assert_eq!(Card::Tiger.index(), 0);
    assert_eq!(Card::from_index(54), Card::Sasori);
    assert_eq!(Card::Tiger.find_card_set(), Some(CardSet::Base));
    assert_eq!(Card::Spider.find_card_set(), Some(CardSet::WayOfTheWind));
    assert_eq!(onitamalib::cards::all_cards().len(), 55);
}

#[test]
fn dealt_boards_are_coherent() {
    // The random deal leaves two distinct cards per hand and a spare
    // held by neither side, whatever the generator produced.
    let mut rng = onitamalib::rng::rng_from_seed(42);
    for _ in 0..20 {
        let board = Board::new_rng(&mut rng);
        let mut five = vec![
            board.red_hand[0],
            board.red_hand[1],
            board.blue_hand[0],
            board.blue_hand[1],
            board.spare_card,
        ];
        five.sort_by_key(|c| c.index());
        five.dedup();
        assert_eq!(five.len(), 5);
    }
    let board = Board::new_with_settings(GameSettings::default());
    assert_eq!(board.turn, Player::Red);
    assert!(!board.wind_move_pending);
    assert!(!board.ninja_move_pending);
}

#[test]
fn grid_projection_places_the_pieces() {
    let mut rng = onitamalib::rng::rng_from_seed(3);
    let board = Board::new_rng(&mut rng);
    let grid = board.to_grid();
    assert!(matches!(grid[0][2], GameSquare::BlueKing));
    assert!(matches!(grid[4][2], GameSquare::RedKing));
    assert!(matches!(grid[0][0], GameSquare::BluePawn));
    assert!(matches!(grid[4][4], GameSquare::RedPawn));
    assert!(matches!(grid[2][2], GameSquare::Empty));
}

#[test]
fn game_wrapper_tracks_state_and_winner() {
    let mut game = onitamalib::Game::new();
    assert!(!game.is_finished());
    assert_eq!(game.get_winner(), None);
    assert_eq!(game.get_last_move(), None);
    assert_eq!(game.get_turn(), Some(Player::Red));
    let state = game.get_state();
    let board = match state {
        GameState::Playing { board } => board,
        GameState::Finished { .. } => panic!("a fresh game is in progress"),
    };
    let m = board.legal_moves()[0];
    game.try_move(m).expect("an offered move is accepted");
    assert_eq!(game.get_last_move(), Some(m));
    game.reset();
    assert_eq!(game.get_last_move(), None);
    assert!(!game.is_finished());
}

#[test]
fn default_settings_disable_the_wind_set() {
    let settings = GameSettings::default();
    assert_eq!(settings.disabled_card_sets, vec!["WayOfTheWind".to_string()]);
    assert_eq!(settings.number_of_wind_cards, Some(2));
    assert!(!settings.force_wind_spirit_inclusion);
    let meta = onitamalib::GameMeta::blank();
    assert_eq!(meta.build, "");
    assert_eq!(meta.uid, "");
}

#[test]
fn wind_card_play_chains_a_spirit_move() {
    // Playing a Way of the Wind card opens the mandatory spirit
    // sub-move: the hand waits, the turn stays, the phase is pending.
    let mut board = bare_board();
    board.wind_spirit = Some(pt(0, 2));
    board.red_hand = [Card::Bat, Card::Ox];
    // The King plays Bat as an ordinary card: one step forward.
    match board.try_move(mv(Card::Bat, pt(2, 4), pt(2, 3))) {
        Ok(GameState::Playing { board: after }) => {
            assert!(after.wind_move_pending);
            assert_eq!(after.wind_move_card, Some(Card::Bat));
            assert_eq!(after.turn, Player::Red);
            assert_eq!(after.red_hand, [Card::Bat, Card::Ox]);
            // The chained move must move the spirit with the same card.
            let e = after
                .try_move(mv(Card::Ox, pt(2, 3), pt(2, 2)))
                .unwrap_err();
            assert_eq!(e, "You must move the Wind Spirit");
            // And the generator only offers spirit moves.
            for m in after.legal_moves().into_iter() {
                match m {
                    Move::Move { src, card, .. } => {
                        assert_eq!(src, pt(0, 2));
                        assert_eq!(card, Card::Bat);
                    }
                    Move::Discard { .. } => panic!("no discard in a pending phase"),
                }
            }
        }
        other => panic!("expected the move to pass: {:?}", other),
    }
}

#[test]
fn shadow_mode_forces_the_other_piece_first() {
    // In a Way of Shadow game a Ninja cannot open the turn while other
    // moves exist; moving another piece can chain the forced Ninja move.
    let mut board = bare_board();
    board.shadow_mode = true;
    board.red_ninjas = [Some(Ninja { pos: pt(1, 4), revealed: false }), None];
    let e = board.try_move(mv(Card::Tiger, pt(1, 4), pt(1, 2))).unwrap_err();
    assert_eq!(e, "You must move another piece before moving your Ninja!");
    // The King moves instead: the same card then forces the Ninja.
    match board.try_move(mv(Card::Ox, pt(2, 4), pt(3, 4))) {
        Ok(GameState::Playing { board: after }) => {
            assert!(after.ninja_move_pending);
            assert_eq!(after.ninja_move_card, Some(Card::Ox));
            assert_eq!(after.turn, Player::Red);
            // Only the Ninja may move now, with the pending card.
            let e = after
                .try_move(mv(Card::Tiger, pt(3, 4), pt(3, 3)))
                .unwrap_err();
            assert_eq!(e, "Only the Ninja can move now.");
            let e = after
                .try_move(mv(Card::Tiger, pt(1, 4), pt(1, 2)))
                .unwrap_err();
            assert_eq!(e, "Must use the pending card for the Ninja move.");
            // The forced move itself passes and ends the turn.
            match after.try_move(mv(Card::Ox, pt(1, 4), pt(1, 3))) {
                Ok(GameState::Playing { board: done }) => {
                    assert!(!done.ninja_move_pending);
                    assert_eq!(done.turn, Player::Blue);
                    assert_eq!(done.spare_card, Card::Ox);
                }
                other => panic!("expected the forced move to pass: {:?}", other),
            }
        }
        other => panic!("expected the move to pass: {:?}", other),
    }
}

#[test]
fn random_legal_moves_are_valid() {
    let mut rng = onitamalib::rng::rng_from_seed(11);
    let board = Board::new_rng(&mut rng);
    for _ in 0..20 {
        let m = board
            .random_legal_move(&mut rng)
            .expect("a fresh board offers moves");
        assert!(board.legal_moves().contains(&m));
        assert!(board.try_move(m).is_ok());
    }
}

#[test]
fn forced_settings_pin_the_deal() {
    // With the Wind Spirit forced and two wind cards requested, every
    // deal places the spirit at the centre and deals exactly two Way of
    // the Wind cards; with the set disabled, neither appears.
    let forced = GameSettings {
        disabled_card_sets: vec![],
        number_of_wind_cards: Some(2),
        force_wind_spirit_inclusion: true,
        enable_light_and_shadow: false,
        force_light_and_shadow: false,
        light_and_shadow_mode: None,
    };
    for _ in 0..10 {
        let board = Board::new_with_settings(forced.clone());
        assert_eq!(board.wind_spirit, Some(pt(2, 2)));
        let wind_count = [
            board.red_hand[0],
            board.red_hand[1],
            board.blue_hand[0],
            board.blue_hand[1],
            board.spare_card,
        ]
        .iter()
        .filter(|c| c.find_card_set() == Some(CardSet::WayOfTheWind))
        .count();
        assert_eq!(wind_count, 2);
    }
    let board = Board::new_with_settings(GameSettings::default());
    assert_eq!(board.wind_spirit, None);
    let wind_count = [
        board.red_hand[0],
        board.red_hand[1],
        board.blue_hand[0],
        board.blue_hand[1],
        board.spare_card,
    ]
    .iter()
    .filter(|c| c.find_card_set() == Some(CardSet::WayOfTheWind))
    .count();
    assert_eq!(wind_count, 0);
}

#[test]
fn forced_shadow_settings_lay_the_shadow_rows() {
    let settings = GameSettings {
        disabled_card_sets: vec!["WayOfTheWind".to_string()],
        number_of_wind_cards: None,
        force_wind_spirit_inclusion: false,
        enable_light_and_shadow: true,
        force_light_and_shadow: true,
        light_and_shadow_mode: Some("Shadow".to_string()),
    };
    let board = Board::new_with_settings(settings);
    assert!(board.shadow_mode);
    assert_eq!(board.red_pawns[0], None);
    assert_eq!(board.red_pawns[2], Some(pt(0, 4)));
    let n = board.red_ninjas[0].expect("the shadow layout deals a Red ninja");
    assert!(!n.revealed);
    assert_eq!(n.pos.y, 4);
    assert!(n.pos.x == 1 || n.pos.x == 3);
    assert_eq!(board.red_ninjas[1], None);
}

#[test]
fn hidden_ninjas_are_assigned_in_board_order() {
    // The in-order assignment walks the Blue slots then the Red slots,
    // consuming one given square per concealed ninja.
    let mut board = bare_board();
    board.blue_ninjas = [
        Some(Ninja { pos: pt(0, 0), revealed: false }),
        Some(Ninja { pos: pt(1, 0), revealed: true }),
    ];
    board.red_ninjas = [Some(Ninja { pos: pt(0, 4), revealed: false }), None];
    let mut state = GameState::Playing { board };
    let squares = vec![pt(3, 2), pt(1, 2)];
    onitamalib::ninja_logic::randomize_ninjas_with_positions(&mut state, &squares);
    match state {
        GameState::Playing { board: after } => {
            let b0 = after.blue_ninjas[0].expect("kept");
            assert_eq!(b0.pos, pt(3, 2));
            assert!(!b0.revealed);
            // A revealed ninja is untouched and consumes no square.
            assert_eq!(after.blue_ninjas[1], Some(Ninja { pos: pt(1, 0), revealed: true }));
            let r0 = after.red_ninjas[0].expect("kept");
            assert_eq!(r0.pos, pt(1, 2));
            assert!(!r0.revealed);
        }
        other => panic!("the walk keeps the game in progress: {:?}", other),
    }
}
