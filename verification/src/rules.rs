//! The rules of the game as specification-level functions: which squares
//! each side occupies, which moves a board admits, and the exact board
//! that playing a move produces.
//!
//! `spec_try_move` is the mathematical model of the whole state
//! transition; the executable engine in `board.rs` is proved to return
//! exactly what it says, error messages included.

use vstd::prelude::*;

use crate::cards::card_moves;
use crate::cards::is_wind_card;
use crate::models::Board;
use crate::models::Card;
use crate::models::GameState;
use crate::models::Move;
use crate::models::Ninja;
use crate::models::Player;
use crate::models::Point;

verus! {

// ---------------------------------------------------------------------
// Sides, hands and occupancy
// ---------------------------------------------------------------------

/// The hand of the side to move.
pub open spec fn player_hand_of(b: Board) -> [Card; 2] {
    match b.turn {
        Player::Red => b.red_hand,
        Player::Blue => b.blue_hand,
    }
}

/// The hand of the side not to move.
pub open spec fn opponent_hand_of(b: Board) -> [Card; 2] {
    match b.turn {
        Player::Red => b.blue_hand,
        Player::Blue => b.red_hand,
    }
}

/// The pawns of the side to move.
pub open spec fn player_pawns_of(b: Board) -> [Option<Point>; 4] {
    match b.turn {
        Player::Red => b.red_pawns,
        Player::Blue => b.blue_pawns,
    }
}

/// The pawns of the side not to move.
pub open spec fn opponent_pawns_of(b: Board) -> [Option<Point>; 4] {
    match b.turn {
        Player::Red => b.blue_pawns,
        Player::Blue => b.red_pawns,
    }
}

/// The ninjas of the side to move.
pub open spec fn player_ninjas_of(b: Board) -> [Option<Ninja>; 2] {
    match b.turn {
        Player::Red => b.red_ninjas,
        Player::Blue => b.blue_ninjas,
    }
}

/// The ninjas of the side not to move.
pub open spec fn opponent_ninjas_of(b: Board) -> [Option<Ninja>; 2] {
    match b.turn {
        Player::Red => b.blue_ninjas,
        Player::Blue => b.red_ninjas,
    }
}

/// The king of the side to move.
pub open spec fn player_king_of(b: Board) -> Option<Point> {
    match b.turn {
        Player::Red => b.red_king,
        Player::Blue => b.blue_king,
    }
}

/// The king of the side not to move.
pub open spec fn opponent_king_of(b: Board) -> Option<Point> {
    match b.turn {
        Player::Red => b.blue_king,
        Player::Blue => b.red_king,
    }
}

/// Whether a two-card hand holds the given card.
pub open spec fn hand_has(hand: [Card; 2], c: Card) -> bool {
    hand[0] == c || hand[1] == c
}

/// Whether any of the four pawn slots sits on `p`.
pub open spec fn pawn_at(ps: [Option<Point>; 4], p: Point) -> bool {
    ||| ps[0] == Some(p)
    ||| ps[1] == Some(p)
    ||| ps[2] == Some(p)
    ||| ps[3] == Some(p)
}

/// Whether either ninja slot sits on `p`.
pub open spec fn ninja_at(ns: [Option<Ninja>; 2], p: Point) -> bool {
    ||| (ns[0] matches Some(n) && n.pos == p)
    ||| (ns[1] matches Some(n) && n.pos == p)
}

/// Whether either ninja slot is occupied.
pub open spec fn any_ninja(ns: [Option<Ninja>; 2]) -> bool {
    ns[0] is Some || ns[1] is Some
}

/// The squares the side to move counts as its own: its king, pawns and
/// ninjas, and the neutral Wind Spirit (which neither side may capture).
pub open spec fn is_player_piece(b: Board, p: Point) -> bool {
    ||| player_king_of(b) == Some(p)
    ||| pawn_at(player_pawns_of(b), p)
    ||| ninja_at(player_ninjas_of(b), p)
    ||| b.wind_spirit == Some(p)
}

/// The squares held by the side not to move (its king, pawns and ninjas;
/// the Wind Spirit is not among them).
pub open spec fn is_opponent_piece(b: Board, p: Point) -> bool {
    ||| opponent_king_of(b) == Some(p)
    ||| pawn_at(opponent_pawns_of(b), p)
    ||| ninja_at(opponent_ninjas_of(b), p)
}

/// Whether `p` holds a ninja of the side to move.
pub open spec fn is_player_ninja(b: Board, p: Point) -> bool {
    ninja_at(player_ninjas_of(b), p)
}

/// Whether the side to move has any ninja on the board.
pub open spec fn has_player_ninja(b: Board) -> bool {
    any_ninja(player_ninjas_of(b))
}

/// Whether `p` holds either king.
pub open spec fn is_king_square(b: Board, p: Point) -> bool {
    b.red_king == Some(p) || b.blue_king == Some(p)
}

/// Whether the side to move is moving its king from `src`.
pub open spec fn moving_king(b: Board, src: Point) -> bool {
    player_king_of(b) == Some(src)
}

/// Whether the side to move is moving the Wind Spirit from `src`.
pub open spec fn moving_wind_spirit(b: Board, src: Point) -> bool {
    b.wind_spirit == Some(src)
}

/// The opposing home-row square a king must reach to win.
pub open spec fn goal_square(t: Player) -> Point {
    match t {
        Player::Red => Point { x: 2, y: 0 },
        Player::Blue => Point { x: 2, y: 4 },
    }
}

/// Whether the given colour still has any piece (king, pawn or ninja).
pub open spec fn has_remaining_pieces(b: Board, color: Player) -> bool {
    match color {
        Player::Red => {
            ||| b.red_king is Some
            ||| b.red_pawns[0] is Some
            ||| b.red_pawns[1] is Some
            ||| b.red_pawns[2] is Some
            ||| b.red_pawns[3] is Some
            ||| b.red_ninjas[0] is Some
            ||| b.red_ninjas[1] is Some
        },
        Player::Blue => {
            ||| b.blue_king is Some
            ||| b.blue_pawns[0] is Some
            ||| b.blue_pawns[1] is Some
            ||| b.blue_pawns[2] is Some
            ||| b.blue_pawns[3] is Some
            ||| b.blue_ninjas[0] is Some
            ||| b.blue_ninjas[1] is Some
        },
    }
}

// ---------------------------------------------------------------------
// Card offsets applied to the grid
// ---------------------------------------------------------------------

/// The x component of an offset as the moving side sees it: Blue plays
/// the mirrored directions.
pub open spec fn oriented_x(t: Player, o: Point) -> int {
    match t {
        Player::Red => o.x as int,
        Player::Blue => -(o.x as int),
    }
}

/// The y component of an offset as the moving side sees it.
pub open spec fn oriented_y(t: Player, o: Point) -> int {
    match t {
        Player::Red => o.y as int,
        Player::Blue => -(o.y as int),
    }
}

/// Whether offset `o`, played by side `t`, carries a piece from `src`
/// exactly to `dst`.
pub open spec fn offset_matches(t: Player, src: Point, dst: Point, o: Point) -> bool {
    &&& dst.x as int == src.x as int + oriented_x(t, o)
    &&& dst.y as int == src.y as int + oriented_y(t, o)
}

/// Whether the card grants an offset that carries a piece of the given
/// role from `src` to `dst` for side `t`.
pub open spec fn card_reaches(
    c: Card,
    is_king: bool,
    is_spirit: bool,
    t: Player,
    src: Point,
    dst: Point,
) -> bool {
    exists|i: int|
        0 <= i < card_moves(c, is_king, is_spirit).len() && offset_matches(
            t,
            src,
            dst,
            #[trigger] card_moves(c, is_king, is_spirit)[i],
        )
}

// ---------------------------------------------------------------------
// Which moves a board admits
// ---------------------------------------------------------------------

/// An ordinary-phase piece move the rules allow: the card is held, the
/// source holds one of the mover's pieces (in shadow games not a ninja),
/// the Wind Spirit never moves by a Way of the Wind card, the card grants
/// the step, and the destination is an on-board square that is not the
/// Wind Spirit's, not held by the mover's side (unless the Wind Spirit
/// itself moves, which swaps), and never a king's square for the Wind
/// Spirit.
pub open spec fn normal_move_legal(b: Board, card: Card, src: Point, dst: Point) -> bool {
    &&& hand_has(player_hand_of(b), card)
    &&& is_player_piece(b, src)
    &&& !(b.shadow_mode && is_player_ninja(b, src))
    &&& !(moving_wind_spirit(b, src) && is_wind_card(card))
    &&& dst.spec_in_bounds()
    &&& card_reaches(card, moving_king(b, src), false, b.turn, src, dst)
    &&& normal_dst_ok(b, src, dst)
}

/// The destination conditions of an ordinary move, separated from the
/// choice of card and offset: not the Wind Spirit's square, not a square
/// of the mover's own side (unless the Wind Spirit moves and swaps), and
/// never a king's square for the Wind Spirit.
pub open spec fn normal_dst_ok(b: Board, src: Point, dst: Point) -> bool {
    &&& b.wind_spirit != Some(dst)
    &&& (!is_player_piece(b, dst) || moving_wind_spirit(b, src))
    &&& !(moving_wind_spirit(b, src) && is_king_square(b, dst))
}

/// A forced ninja sub-move the rules allow: the pending card moves one of
/// the mover's ninjas to a free on-board square.
pub open spec fn ninja_move_legal(b: Board, card: Card, src: Point, dst: Point) -> bool {
    &&& b.ninja_move_card == Some(card)
    &&& is_player_ninja(b, src)
    &&& dst.spec_in_bounds()
    &&& card_reaches(card, false, false, b.turn, src, dst)
    &&& !is_player_piece(b, dst)
}

/// A chained Wind Spirit sub-move that move generation offers: the
/// pending card's wind offsets, to an on-board square that is neither a
/// king's nor held by the mover's side.
pub open spec fn wind_move_legal(b: Board, card: Card, src: Point, dst: Point) -> bool {
    &&& b.wind_move_card == Some(card)
    &&& b.wind_spirit == Some(src)
    &&& dst.spec_in_bounds()
    &&& card_reaches(card, false, true, b.turn, src, dst)
    &&& !is_king_square(b, dst)
    &&& !is_player_piece(b, dst)
}

/// Whether any forced ninja sub-move exists.
pub open spec fn ninja_phase_can_move(b: Board) -> bool {
    exists|src: Point, dst: Point|
        #[trigger] ninja_move_legal(b, b.ninja_move_card->0, src, dst)
}

/// Whether the pending Wind Spirit sub-move has any destination. The
/// query is looser than generation: it only asks for an on-board,
/// non-king destination, so a spirit boxed in by the mover's own pieces
/// still counts as able to move (it would swap).
pub open spec fn wind_phase_can_move(b: Board) -> bool {
    &&& b.wind_spirit is Some
    &&& b.wind_move_card is Some
    &&& exists|dst: Point|
        {
            &&& dst.spec_in_bounds()
            &&& #[trigger] card_reaches(
                b.wind_move_card->0,
                false,
                true,
                b.turn,
                b.wind_spirit->0,
                dst,
            )
            &&& !is_king_square(b, dst)
        }
}

/// Whether any move at all exists for the side to move, respecting a
/// pending sub-move phase.
pub open spec fn spec_can_move(b: Board) -> bool {
    if b.ninja_move_pending {
        ninja_phase_can_move(b)
    } else if b.wind_move_pending {
        wind_phase_can_move(b)
    } else {
        exists|card: Card, src: Point, dst: Point| #[trigger] normal_move_legal(b, card, src, dst)
    }
}

// ---------------------------------------------------------------------
// The board a move produces
// ---------------------------------------------------------------------

/// The destination holds a pawn of the mover's side (a Wind Spirit swap
/// target).
pub open spec fn hit_own_pawn(b: Board, dst: Point) -> bool {
    pawn_at(player_pawns_of(b), dst)
}

/// The destination holds an opposing pawn, and no own pawn.
pub open spec fn hit_enemy_pawn(b: Board, dst: Point) -> bool {
    !hit_own_pawn(b, dst) && pawn_at(opponent_pawns_of(b), dst)
}

/// The destination holds a ninja of the mover's side, and no pawn.
pub open spec fn hit_own_ninja(b: Board, dst: Point) -> bool {
    &&& !hit_own_pawn(b, dst)
    &&& !hit_enemy_pawn(b, dst)
    &&& ninja_at(player_ninjas_of(b), dst)
}

/// The destination holds an opposing ninja, and nothing of higher
/// priority.
pub open spec fn hit_enemy_ninja(b: Board, dst: Point) -> bool {
    &&& !hit_own_pawn(b, dst)
    &&& !hit_enemy_pawn(b, dst)
    &&& !hit_own_ninja(b, dst)
    &&& ninja_at(opponent_ninjas_of(b), dst)
}

/// Whether this ninja slot holds a ninja standing on `p`.
pub open spec fn slot_is_at(n: Option<Ninja>, p: Point) -> bool {
    n matches Some(nn) && nn.pos == p
}

/// Whether this ninja slot holds a ninja that counts as concealed, a
/// voluntary reveal included.
pub open spec fn slot_hidden(n: Option<Ninja>, reveal: bool) -> bool {
    n matches Some(nn) && !(nn.revealed || reveal)
}

/// Whether the piece leaving `src` is a still-concealed ninja of the
/// mover's (counting a voluntary reveal as revealing it).
pub open spec fn mover_is_hidden_ninja(b: Board, src: Point, reveal: bool) -> bool {
    let ns = player_ninjas_of(b);
    if slot_is_at(ns[0], src) {
        slot_hidden(ns[0], reveal)
    } else if slot_is_at(ns[1], src) {
        slot_hidden(ns[1], reveal)
    } else {
        false
    }
}

/// Whether the opposing ninja standing on `dst` is still concealed.
pub open spec fn enemy_ninja_hidden_at(b: Board, dst: Point) -> bool {
    let ns = opponent_ninjas_of(b);
    if slot_is_at(ns[0], dst) {
        slot_hidden(ns[0], false)
    } else if slot_is_at(ns[1], dst) {
        slot_hidden(ns[1], false)
    } else {
        false
    }
}

/// Whether the move captures an opposing piece. A Wind Spirit move swaps
/// and never captures; a concealed ninja moving onto a concealed enemy
/// ninja passes through without capture or reveal.
pub open spec fn spec_captured(b: Board, src: Point, dst: Point, reveal: bool, wind: bool) -> bool {
    &&& !wind
    &&& {
        ||| hit_enemy_pawn(b, dst)
        ||| (hit_enemy_ninja(b, dst) && !(mover_is_hidden_ninja(b, src, reveal)
            && enemy_ninja_hidden_at(b, dst)))
    }
}

/// One pawn slot of the mover's side after the move: the mover's pawn
/// steps from `src` to `dst`; under a Wind Spirit move, a pawn standing
/// on `dst` is swapped back to the spirit's square.
pub open spec fn own_pawn_slot(src: Point, dst: Point, wind: bool, p: Option<Point>) -> Option<
    Point,
> {
    if wind {
        if p == Some(dst) {
            Some(src)
        } else {
            p
        }
    } else {
        if p == Some(src) {
            Some(dst)
        } else {
            p
        }
    }
}

/// One pawn slot of the opposing side after the move: captured outright,
/// or swapped to the spirit's square under a Wind Spirit move.
pub open spec fn enemy_pawn_slot(b: Board, src: Point, dst: Point, wind: bool, p: Option<Point>)
    -> Option<Point> {
    if hit_enemy_pawn(b, dst) && p == Some(dst) {
        if wind {
            Some(src)
        } else {
            None
        }
    } else {
        p
    }
}

/// One ninja slot of the mover's side after the move. A swapped ninja is
/// revealed; a moving ninja stays concealed unless it captures or its
/// player chose to reveal it, and once revealed it stays revealed.
pub open spec fn own_ninja_slot(
    b: Board,
    src: Point,
    dst: Point,
    wind: bool,
    reveal: bool,
    captured: bool,
    n: Option<Ninja>,
) -> Option<Ninja> {
    match n {
        None => None,
        Some(n) => if wind {
            if hit_own_ninja(b, dst) && n.pos == dst {
                Some(Ninja { pos: src, revealed: true })
            } else {
                Some(n)
            }
        } else {
            if n.pos == src {
                Some(Ninja { pos: dst, revealed: n.revealed || reveal || captured })
            } else {
                Some(n)
            }
        },
    }
}

/// One ninja slot of the opposing side after the move: swapped and
/// revealed under a Wind Spirit move; otherwise captured, except that a
/// concealed mover ninja passes a concealed enemy ninja by.
pub open spec fn enemy_ninja_slot(
    b: Board,
    src: Point,
    dst: Point,
    wind: bool,
    reveal: bool,
    n: Option<Ninja>,
) -> Option<Ninja> {
    match n {
        None => None,
        Some(n) => if hit_enemy_ninja(b, dst) && n.pos == dst {
            if wind {
                Some(Ninja { pos: src, revealed: true })
            } else if mover_is_hidden_ninja(b, src, reveal) && !n.revealed {
                Some(n)
            } else {
                None
            }
        } else {
            Some(n)
        },
    }
}

/// The mover's pawns after the move.
pub open spec fn own_pawns_after(b: Board, src: Point, dst: Point, wind: bool) -> [Option<
    Point,
>; 4] {
    let ps = player_pawns_of(b);
    [
        own_pawn_slot(src, dst, wind, ps[0]),
        own_pawn_slot(src, dst, wind, ps[1]),
        own_pawn_slot(src, dst, wind, ps[2]),
        own_pawn_slot(src, dst, wind, ps[3]),
    ]
}

/// The opponent's pawns after the move.
pub open spec fn enemy_pawns_after(b: Board, src: Point, dst: Point, wind: bool) -> [Option<
    Point,
>; 4] {
    let ps = opponent_pawns_of(b);
    [
        enemy_pawn_slot(b, src, dst, wind, ps[0]),
        enemy_pawn_slot(b, src, dst, wind, ps[1]),
        enemy_pawn_slot(b, src, dst, wind, ps[2]),
        enemy_pawn_slot(b, src, dst, wind, ps[3]),
    ]
}

/// The mover's ninjas after the move.
pub open spec fn own_ninjas_after(
    b: Board,
    src: Point,
    dst: Point,
    wind: bool,
    reveal: bool,
    captured: bool,
) -> [Option<Ninja>; 2] {
    let ns = player_ninjas_of(b);
    [
        own_ninja_slot(b, src, dst, wind, reveal, captured, ns[0]),
        own_ninja_slot(b, src, dst, wind, reveal, captured, ns[1]),
    ]
}

/// The opponent's ninjas after the move.
pub open spec fn enemy_ninjas_after(b: Board, src: Point, dst: Point, wind: bool, reveal: bool)
    -> [Option<Ninja>; 2] {
    let ns = opponent_ninjas_of(b);
    [
        enemy_ninja_slot(b, src, dst, wind, reveal, ns[0]),
        enemy_ninja_slot(b, src, dst, wind, reveal, ns[1]),
    ]
}

/// A two-card hand with the played card replaced by the spare.
pub open spec fn replace_card_spec(hand: [Card; 2], used: Card, spare: Card) -> [Card; 2] {
    [
        if hand[0] == used {
            spare
        } else {
            hand[0]
        },
        if hand[1] == used {
            spare
        } else {
            hand[1]
        },
    ]
}

// ---------------------------------------------------------------------
// Chained sub-moves
// ---------------------------------------------------------------------

/// The board with only the mover's king advanced to `dst`: the
/// tentative position on which a chained sub-move is probed. This is a
/// deliberate fixed point of the engine: pawns and ninjas are read at
/// their pre-move squares. The wind probe is unaffected (its outcome
/// depends only on the spirit's square and the kings), while the
/// forced-ninja probe sees the played piece at its source square
/// rather than on the fully simulated position.
pub open spec fn with_king_moved(b: Board, src: Point, dst: Point) -> Board {
    if moving_king(b, src) {
        match b.turn {
            Player::Red => Board { red_king: Some(dst), ..b },
            Player::Blue => Board { blue_king: Some(dst), ..b },
        }
    } else {
        b
    }
}

/// Whether playing `card` to move `src` to `dst` opens a mandatory Wind
/// Spirit sub-move: the card is a Way of the Wind card and the spirit
/// has somewhere to go on the tentative position.
pub open spec fn spec_enable_wind(b: Board, card: Card, src: Point, dst: Point) -> bool {
    &&& is_wind_card(card)
    &&& spec_can_move(
        Board {
            wind_move_pending: true,
            wind_move_card: Some(card),
            ..with_king_moved(b, src, dst)
        },
    )
}

/// Whether moving a non-ninja piece opens a forced ninja sub-move in a
/// Way of Shadow game: the mover still has a ninja, and that ninja can
/// move by the same card on the tentative position.
pub open spec fn spec_enable_ninja(b: Board, card: Card, src: Point, dst: Point) -> bool {
    &&& b.shadow_mode
    &&& has_player_ninja(b)
    &&& spec_can_move(
        Board {
            ninja_move_pending: true,
            ninja_move_card: Some(card),
            ..with_king_moved(b, src, dst)
        },
    )
}

/// The pending-ninja flag after an ordinary move: a ninja's own move
/// closes the phase; any other move in a shadow game with a ninja left
/// opens it when the probe succeeds.
pub open spec fn ninja_pending_after(b: Board, card: Card, src: Point, dst: Point) -> bool {
    if b.shadow_mode && has_player_ninja(b) {
        if is_player_ninja(b, src) {
            false
        } else {
            spec_enable_ninja(b, card, src, dst)
        }
    } else {
        b.ninja_move_pending
    }
}

/// The card a pending ninja sub-move must use, after an ordinary move.
pub open spec fn ninja_card_after(b: Board, card: Card, src: Point, dst: Point) -> Option<Card> {
    if b.shadow_mode && has_player_ninja(b) {
        if is_player_ninja(b, src) {
            None
        } else if spec_enable_ninja(b, card, src, dst) {
            Some(card)
        } else {
            None
        }
    } else {
        b.ninja_move_card
    }
}

/// The pending-wind flag after an ordinary move.
pub open spec fn wind_pending_after(b: Board, card: Card, src: Point, dst: Point) -> bool {
    spec_enable_wind(b, card, src, dst)
}

/// The card a pending Wind Spirit sub-move must use, after an ordinary
/// move.
pub open spec fn wind_card_after(b: Board, card: Card, src: Point, dst: Point) -> Option<Card> {
    if spec_enable_wind(b, card, src, dst) {
        Some(card)
    } else {
        None
    }
}

// ---------------------------------------------------------------------
// Whole-board outcomes
// ---------------------------------------------------------------------

/// The board after an accepted ordinary move: pieces resolved, the hand
/// and spare rotated and the turn flipped unless a sub-move chains, and
/// the pending-phase flags recomputed.
pub open spec fn spec_move_board(b: Board, card: Card, src: Point, dst: Point, reveal: bool)
    -> Board {
    let wind = moving_wind_spirit(b, src);
    let captured = spec_captured(b, src, dst, reveal, wind);
    let np = ninja_pending_after(b, card, src, dst);
    let wp = wind_pending_after(b, card, src, dst);
    let chained = wp || np;
    let new_hand = if chained {
        player_hand_of(b)
    } else {
        replace_card_spec(player_hand_of(b), card, b.spare_card)
    };
    let new_king = if moving_king(b, src) {
        Some(dst)
    } else {
        player_king_of(b)
    };
    let own_p = own_pawns_after(b, src, dst, wind);
    let en_p = enemy_pawns_after(b, src, dst, wind);
    let own_n = own_ninjas_after(b, src, dst, wind, reveal, captured);
    let en_n = enemy_ninjas_after(b, src, dst, wind, reveal);
    match b.turn {
        Player::Red => Board {
            wind_spirit: if wind {
                Some(dst)
            } else {
                b.wind_spirit
            },
            blue_king: b.blue_king,
            blue_pawns: en_p,
            blue_ninjas: en_n,
            blue_hand: b.blue_hand,
            red_king: new_king,
            red_pawns: own_p,
            red_ninjas: own_n,
            red_hand: new_hand,
            spare_card: if chained {
                b.spare_card
            } else {
                card
            },
            wind_move_pending: wp,
            wind_move_card: wind_card_after(b, card, src, dst),
            shadow_mode: b.shadow_mode,
            ninja_move_pending: np,
            ninja_move_card: ninja_card_after(b, card, src, dst),
            turn: if chained {
                Player::Red
            } else {
                Player::Blue
            },
        },
        Player::Blue => Board {
            wind_spirit: if wind {
                Some(dst)
            } else {
                b.wind_spirit
            },
            blue_king: new_king,
            blue_pawns: own_p,
            blue_ninjas: own_n,
            blue_hand: new_hand,
            red_king: b.red_king,
            red_pawns: en_p,
            red_ninjas: en_n,
            red_hand: b.red_hand,
            spare_card: if chained {
                b.spare_card
            } else {
                card
            },
            wind_move_pending: wp,
            wind_move_card: wind_card_after(b, card, src, dst),
            shadow_mode: b.shadow_mode,
            ninja_move_pending: np,
            ninja_move_card: ninja_card_after(b, card, src, dst),
            turn: if chained {
                Player::Blue
            } else {
                Player::Red
            },
        },
    }
}

/// The game state an accepted ordinary move produces: the game finishes
/// when the move lands on the opposing king, carries the mover's king to
/// the goal square, or leaves the opponent with no piece at all.
pub open spec fn spec_move_outcome(b: Board, card: Card, src: Point, dst: Point, reveal: bool)
    -> GameState {
    let nb = spec_move_board(b, card, src, dst, reveal);
    if opponent_king_of(b) == Some(dst) || (moving_king(b, src) && dst == goal_square(b.turn))
        || !has_remaining_pieces(nb, b.turn.spec_invert()) {
        GameState::Finished { board: nb, winner: b.turn }
    } else {
        GameState::Playing { board: nb }
    }
}

/// The board after a discard: the hand rotates through the spare, every
/// pending phase closes, and the turn passes.
pub open spec fn spec_discard_board(b: Board, card: Card) -> Board {
    let new_hand = replace_card_spec(player_hand_of(b), card, b.spare_card);
    match b.turn {
        Player::Red => Board {
            red_hand: new_hand,
            spare_card: card,
            wind_move_pending: false,
            wind_move_card: None,
            ninja_move_pending: false,
            ninja_move_card: None,
            turn: Player::Blue,
            ..b
        },
        Player::Blue => Board {
            blue_hand: new_hand,
            spare_card: card,
            wind_move_pending: false,
            wind_move_card: None,
            ninja_move_pending: false,
            ninja_move_card: None,
            turn: Player::Red,
            ..b
        },
    }
}

/// The board after an accepted Wind Spirit sub-move: the spirit lands on
/// `dst`, swapping any occupant back to its old square (ninjas swapped
/// this way are revealed), the hand rotates, and the turn passes. A wind
/// sub-move never ends the game.
pub open spec fn spec_wind_move_board(b: Board, card: Card, src: Point, dst: Point) -> Board {
    let new_hand = replace_card_spec(player_hand_of(b), card, b.spare_card);
    let own_p = own_pawns_after(b, src, dst, true);
    let en_p = enemy_pawns_after(b, src, dst, true);
    let own_n = own_ninjas_after(b, src, dst, true, false, false);
    let en_n = enemy_ninjas_after(b, src, dst, true, false);
    match b.turn {
        Player::Red => Board {
            wind_spirit: Some(dst),
            blue_king: b.blue_king,
            blue_pawns: en_p,
            blue_ninjas: en_n,
            blue_hand: b.blue_hand,
            red_king: b.red_king,
            red_pawns: own_p,
            red_ninjas: own_n,
            red_hand: new_hand,
            spare_card: card,
            wind_move_pending: false,
            wind_move_card: None,
            shadow_mode: b.shadow_mode,
            ninja_move_pending: false,
            ninja_move_card: None,
            turn: Player::Blue,
        },
        Player::Blue => Board {
            wind_spirit: Some(dst),
            blue_king: b.blue_king,
            blue_pawns: own_p,
            blue_ninjas: own_n,
            blue_hand: new_hand,
            red_king: b.red_king,
            red_pawns: en_p,
            red_ninjas: en_n,
            red_hand: b.red_hand,
            spare_card: card,
            wind_move_pending: false,
            wind_move_card: None,
            shadow_mode: b.shadow_mode,
            ninja_move_pending: false,
            ninja_move_card: None,
            turn: Player::Red,
        },
    }
}

// ---------------------------------------------------------------------
// The full transition
// ---------------------------------------------------------------------

/// The pending Wind Spirit sub-move phase, resolved. With no destination
/// available the phase auto-resolves as a discard of the pending card,
/// whatever move was submitted. A discard clears the phase and is then
/// judged as an ordinary-phase discard.
pub open spec fn spec_try_wind_move(b: Board, m: Move) -> Result<GameState, Seq<char>>
    decreases 0int,
{
    match b.wind_move_card {
        None => Err("Wind move card is not set during wind_move_pending."@),
        Some(wc) => if !spec_can_move(b) {
            Ok(GameState::Playing { board: spec_discard_board(b, wc) })
        } else {
            match m {
                Move::Discard { card } => spec_try_move_main(
                    Board { wind_move_pending: false, ..b },
                    Move::Discard { card },
                ),
                Move::Move { card, src, dst, .. } => {
                    if b.wind_spirit is None {
                        Err("Wind Spirit is missing!"@)
                    } else if b.wind_spirit != Some(src) {
                        Err("You must move the Wind Spirit"@)
                    } else if card != wc {
                        Err("Must use the pending wind card to move"@)
                    } else if dst.spec_out_of_bounds() {
                        Err("Destination is out of bounds"@)
                    } else if !card_reaches(card, false, true, b.turn, src, dst) {
                        Err("Move not valid for card"@)
                    } else if is_king_square(b, dst) {
                        Err("Wind Spirit cannot move onto a Master!"@)
                    } else {
                        Ok(GameState::Playing { board: spec_wind_move_board(b, card, src, dst) })
                    }
                },
            }
        },
    }
}

/// The ordinary phase (and the forced-ninja phase, which shares it),
/// resolved: every validation in order, each with its error, and the
/// outcome when all pass.
pub open spec fn spec_try_move_main(b: Board, m: Move) -> Result<GameState, Seq<char>>
    decreases 0int,
{
    match m {
        Move::Discard { card } => {
            if b.ninja_move_pending && spec_can_move(b) {
                if Some(card) != b.ninja_move_card {
                    Err("Invalid card to discard during Ninja move phase."@)
                } else {
                    let nb = Board { ninja_move_pending: false, ..b };
                    if !nb.wind_move_pending {
                        Ok(GameState::Playing { board: spec_discard_board(nb, card) })
                    } else {
                        Ok(
                            GameState::Playing {
                                board: Board { ninja_move_card: None, ..nb },
                            },
                        )
                    }
                }
            } else if spec_can_move(b) {
                Err("Valid moves exist"@)
            } else {
                Ok(GameState::Playing { board: spec_discard_board(b, card) })
            }
        },
        Move::Move { card, src, dst, reveal_ninja } => {
            if !hand_has(player_hand_of(b), card) {
                Err("Card not in hand"@)
            } else if !is_player_piece(b, src) {
                Err("No piece at source"@)
            } else if b.shadow_mode && is_player_ninja(b, src) && spec_can_move(b)
                && !b.ninja_move_pending {
                Err("You must move another piece before moving your Ninja!"@)
            } else if b.ninja_move_pending && !is_player_ninja(b, src) {
                Err("Only the Ninja can move now."@)
            } else if b.ninja_move_pending && b.ninja_move_card is None {
                Err("Ninja move card is not set during ninja_move_pending."@)
            } else if b.ninja_move_pending && Some(card) != b.ninja_move_card {
                Err("Must use the pending card for the Ninja move."@)
            } else if moving_wind_spirit(b, src) && is_wind_card(card) {
                Err("Wind Spirit cannot use a Way of the Wind card to move"@)
            } else if dst.spec_out_of_bounds() {
                Err("Destination is out of bounds"@)
            } else if !card_reaches(card, moving_king(b, src), false, b.turn, src, dst) {
                Err("Move not valid for card"@)
            } else if moving_wind_spirit(b, src) && is_king_square(b, dst) {
                Err("Wind Spirit cannot move onto a Master!"@)
            } else if is_player_piece(b, dst) && !(moving_wind_spirit(b, src) && (pawn_at(
                player_pawns_of(b),
                dst,
            ) || ninja_at(player_ninjas_of(b), dst))) {
                Err("Destination occupied by your piece"@)
            } else {
                Ok(spec_move_outcome(b, card, src, dst, reveal_ninja))
            }
        },
    }
}

/// The whole transition: what `Board::try_move` returns, error messages
/// included. A pending Wind Spirit sub-move routes to its own phase
/// unless a forced ninja move is also pending.
pub open spec fn spec_try_move(b: Board, m: Move) -> Result<GameState, Seq<char>> {
    if b.wind_move_pending && !b.ninja_move_pending {
        spec_try_wind_move(b, m)
    } else {
        spec_try_move_main(b, m)
    }
}

/// Whether the rules accept the move on this board.
#[verifier::opaque]
pub open spec fn move_ok(b: Board, m: Move) -> bool {
    spec_try_move(b, m) is Ok
}

/// The state an accepted move produces.
#[verifier::opaque]
pub open spec fn spec_apply(b: Board, m: Move) -> GameState {
    spec_try_move(b, m)->Ok_0
}

/// The board inside a game state, finished or not.
pub open spec fn state_board(s: GameState) -> Board {
    match s {
        GameState::Playing { board } => board,
        GameState::Finished { board, .. } => board,
    }
}

/// The hand a given colour holds on a board.
pub open spec fn hand_of_color(b: Board, color: Player) -> [Card; 2] {
    match color {
        Player::Red => b.red_hand,
        Player::Blue => b.blue_hand,
    }
}

/// The card a move plays or discards.
pub open spec fn played_card(m: Move) -> Card {
    match m {
        Move::Move { card, .. } => card,
        Move::Discard { card } => card,
    }
}

// ---------------------------------------------------------------------
// Well-formed boards
// ---------------------------------------------------------------------

/// The eleven king, pawn and Wind Spirit slots, square by square.
pub open spec fn solid_slots(b: Board) -> Seq<Option<Point>> {
    seq![
        b.red_king,
        b.blue_king,
        b.wind_spirit,
        b.red_pawns[0],
        b.red_pawns[1],
        b.red_pawns[2],
        b.red_pawns[3],
        b.blue_pawns[0],
        b.blue_pawns[1],
        b.blue_pawns[2],
        b.blue_pawns[3],
    ]
}

/// Whether some king, pawn or Wind Spirit stands on `p`.
pub open spec fn on_solid(b: Board, p: Point) -> bool {
    exists|i: int| 0 <= i < 11 && #[trigger] solid_slots(b)[i] == Some(p)
}

/// An optional square that, when present, lies on the grid.
pub open spec fn opt_in_bounds(o: Option<Point>) -> bool {
    o matches Some(p) ==> p.spec_in_bounds()
}

/// An optional ninja that, when present, stands on the grid.
pub open spec fn ninja_in_bounds(o: Option<Ninja>) -> bool {
    o matches Some(n) ==> n.pos.spec_in_bounds()
}

impl Board {
    /// Every piece stands on the 5x5 grid.
    pub open spec fn bounds_wf(self) -> bool {
        &&& opt_in_bounds(self.red_king)
        &&& opt_in_bounds(self.blue_king)
        &&& opt_in_bounds(self.wind_spirit)
        &&& opt_in_bounds(self.red_pawns[0])
        &&& opt_in_bounds(self.red_pawns[1])
        &&& opt_in_bounds(self.red_pawns[2])
        &&& opt_in_bounds(self.red_pawns[3])
        &&& opt_in_bounds(self.blue_pawns[0])
        &&& opt_in_bounds(self.blue_pawns[1])
        &&& opt_in_bounds(self.blue_pawns[2])
        &&& opt_in_bounds(self.blue_pawns[3])
        &&& ninja_in_bounds(self.red_ninjas[0])
        &&& ninja_in_bounds(self.red_ninjas[1])
        &&& ninja_in_bounds(self.blue_ninjas[0])
        &&& ninja_in_bounds(self.blue_ninjas[1])
    }

    /// Each hand holds two distinct cards, the spare is in neither hand,
    /// and the two hands share no card.
    pub open spec fn hands_wf(self) -> bool {
        &&& self.red_hand[0] != self.red_hand[1]
        &&& self.blue_hand[0] != self.blue_hand[1]
        &&& self.spare_card != self.red_hand[0]
        &&& self.spare_card != self.red_hand[1]
        &&& self.spare_card != self.blue_hand[0]
        &&& self.spare_card != self.blue_hand[1]
        &&& self.red_hand[0] != self.blue_hand[0]
        &&& self.red_hand[0] != self.blue_hand[1]
        &&& self.red_hand[1] != self.blue_hand[0]
        &&& self.red_hand[1] != self.blue_hand[1]
    }

    /// A pending sub-move always carries its card, and that card is in
    /// the hand of the side that must play it.
    pub open spec fn pending_wf(self) -> bool {
        &&& self.wind_move_pending ==> (self.wind_move_card matches Some(c) && hand_has(
            player_hand_of(self),
            c,
        ))
        &&& self.ninja_move_pending ==> (self.ninja_move_card matches Some(c) && hand_has(
            player_hand_of(self),
            c,
        ))
    }

    /// At most one piece per square: the kings, pawns and the Wind
    /// Spirit all stand apart, every ninja stands off them, a side's
    /// two ninjas stand apart — and two opposing ninjas share a square
    /// only while both are concealed, the one stacking the pass-through
    /// rule can produce.
    pub open spec fn pieces_distinct(self) -> bool {
        &&& (forall|i: int, j: int|
            0 <= i < j < 11 ==> ((#[trigger] solid_slots(self)[i]) is Some
                ==> #[trigger] solid_slots(self)[j] != solid_slots(self)[i]))
        &&& (self.red_ninjas[0] matches Some(n) ==> !on_solid(self, n.pos))
        &&& (self.red_ninjas[1] matches Some(n) ==> !on_solid(self, n.pos))
        &&& (self.blue_ninjas[0] matches Some(n) ==> !on_solid(self, n.pos))
        &&& (self.blue_ninjas[1] matches Some(n) ==> !on_solid(self, n.pos))
        &&& (self.red_ninjas[0] matches Some(n) ==> (self.red_ninjas[1] matches Some(m) ==> n.pos
            != m.pos))
        &&& (self.blue_ninjas[0] matches Some(n) ==> (self.blue_ninjas[1] matches Some(m) ==> n.pos
            != m.pos))
        &&& (self.red_ninjas[0] matches Some(n) ==> (self.blue_ninjas[0] matches Some(m) ==> (n.pos
            == m.pos ==> !n.revealed && !m.revealed)))
        &&& (self.red_ninjas[0] matches Some(n) ==> (self.blue_ninjas[1] matches Some(m) ==> (n.pos
            == m.pos ==> !n.revealed && !m.revealed)))
        &&& (self.red_ninjas[1] matches Some(n) ==> (self.blue_ninjas[0] matches Some(m) ==> (n.pos
            == m.pos ==> !n.revealed && !m.revealed)))
        &&& (self.red_ninjas[1] matches Some(n) ==> (self.blue_ninjas[1] matches Some(m) ==> (n.pos
            == m.pos ==> !n.revealed && !m.revealed)))
    }

    /// A well-formed board: all pieces on the grid, hands and spare
    /// coherent, pending phases carrying their card, and at most one
    /// piece per square as above.
    pub open spec fn wf(self) -> bool {
        &&& self.bounds_wf()
        &&& self.hands_wf()
        &&& self.pending_wf()
        &&& self.pieces_distinct()
    }
}

}

