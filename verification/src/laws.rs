//! The laws the engine obeys, proved once and for all: generated moves
//! are always accepted, a stuck player is offered exactly one discard
//! per held card, move application is a pure function of its inputs,
//! and the hand always rotates through the spare.

use vstd::prelude::*;

use crate::models::Board;
use crate::models::Card;
use crate::models::GameState;
use crate::models::Move;
use crate::models::Player;
use crate::models::Point;
use crate::heuristics::spec_basic_value;
use crate::minimax::lemma_spec_best_bounds;
use crate::minimax::spec_best;
use crate::minimax::spec_child_value;
use crate::minimax::spec_minimax;
use crate::move_gen::gen_normal;
use crate::move_gen::lemma_gen_normal_nonempty_iff;
use crate::move_gen::lemma_legal_moves_mem;
use crate::move_gen::spec_legal_moves;
use crate::rules::hand_has;
use crate::rules::hand_of_color;
use crate::rules::is_king_square;
use crate::rules::is_player_ninja;
use crate::rules::is_player_piece;
use crate::rules::move_ok;
use crate::rules::moving_king;
use crate::rules::moving_wind_spirit;
use crate::rules::ninja_at;
use crate::rules::ninja_move_legal;
use crate::rules::normal_move_legal;
use crate::rules::pawn_at;
use crate::rules::played_card;
use crate::rules::player_hand_of;
use crate::rules::player_ninjas_of;
use crate::rules::player_pawns_of;
use crate::rules::spec_apply;
use crate::rules::spec_can_move;
use crate::rules::spec_try_move;
use crate::rules::state_board;
use crate::rules::wind_move_legal;

verus! {

/// An ordinary-phase move the generator would offer is accepted by the
/// validator, whatever the reveal flag says.
proof fn lemma_normal_entry_accepted(b: Board, card: Card, src: Point, dst: Point, reveal: bool)
    requires
        !b.ninja_move_pending,
        !b.wind_move_pending,
        normal_move_legal(b, card, src, dst),
    ensures
        move_ok(b, Move::Move { card, src, dst, reveal_ninja: reveal }),
{
    reveal(crate::rules::move_ok);
    if is_player_piece(b, dst) {
        assert(moving_wind_spirit(b, src));
        assert(!is_king_square(b, dst));
        assert(b.wind_spirit != Some(dst));
        assert(pawn_at(player_pawns_of(b), dst) || ninja_at(player_ninjas_of(b), dst));
    }
}

/// A forced ninja sub-move the generator would offer is accepted, on a
/// well-formed board.
proof fn lemma_ninja_entry_accepted(b: Board, card: Card, src: Point, dst: Point)
    requires
        b.wf(),
        b.ninja_move_pending,
        ninja_move_legal(b, card, src, dst),
    ensures
        move_ok(b, Move::Move { card, src, dst, reveal_ninja: false }),
{
    reveal(crate::rules::move_ok);
    assert(hand_has(player_hand_of(b), card));
    assert(is_player_ninja(b, src));
    proof_ninja_src_off_solids(b, src);
    assert(!is_player_piece(b, dst));
}

/// A square held by a ninja of the side to move holds neither the Wind
/// Spirit nor the mover's king, on a board with at most one piece per
/// square.
proof fn proof_ninja_src_off_solids(b: Board, src: Point)
    requires
        b.wf(),
        is_player_ninja(b, src),
    ensures
        !moving_wind_spirit(b, src),
        !moving_king(b, src),
{
    if moving_wind_spirit(b, src) {
        assert(crate::rules::solid_slots(b)[2] == Some(src));
        assert(crate::rules::on_solid(b, src));
        assert(false);
    }
    if moving_king(b, src) {
        match b.turn {
            Player::Red => {
                assert(crate::rules::solid_slots(b)[0] == Some(src));
            },
            Player::Blue => {
                assert(crate::rules::solid_slots(b)[1] == Some(src));
            },
        }
        assert(crate::rules::on_solid(b, src));
        assert(false);
    }
}

/// A pending Wind Spirit sub-move the generator would offer is
/// accepted.
proof fn lemma_wind_entry_accepted(b: Board, card: Card, src: Point, dst: Point)
    requires
        b.wind_move_pending,
        !b.ninja_move_pending,
        wind_move_legal(b, card, src, dst),
    ensures
        move_ok(b, Move::Move { card, src, dst, reveal_ninja: false }),
{
    reveal(crate::rules::move_ok);
    if spec_can_move(b) {
        assert(b.wind_spirit == Some(src));
    } else {
        assert(spec_try_move(b, Move::Move { card, src, dst, reveal_ninja: false }) is Ok);
    }
}

/// A discard is accepted whenever no move exists in the ordinary phase.
proof fn lemma_discard_accepted(b: Board, card: Card)
    requires
        !b.ninja_move_pending,
        !b.wind_move_pending,
        !spec_can_move(b),
    ensures
        move_ok(b, Move::Discard { card }),
{
    reveal(crate::rules::move_ok);
}

/// Legality closure: on a well-formed board, every move the generator
/// offers is accepted by move application.
pub proof fn lemma_legal_moves_accepted(b: Board, m: Move)
    requires
        b.wf(),
        spec_legal_moves(b).contains(m),
    ensures
        move_ok(b, m),
{
    lemma_legal_moves_mem(b, m);
    if b.ninja_move_pending {
        lemma_ninja_entry_accepted(b, m->Move_card, m->Move_src, m->Move_dst);
    } else if b.wind_move_pending {
        lemma_wind_entry_accepted(b, m->Move_card, m->Move_src, m->Move_dst);
    } else {
        lemma_gen_normal_nonempty_iff(b);
        if gen_normal(b).len() > 0 {
            lemma_normal_entry_accepted(b, m->Move_card, m->Move_src, m->Move_dst, false);
        } else {
            lemma_discard_accepted(b, m->Discard_card);
        }
    }
}

/// Completeness of the discard fallback: when no move at all exists in
/// the ordinary phase, the offered list is exactly one discard per held
/// card, and the two entries differ.
pub proof fn lemma_stuck_offers_discards(b: Board)
    requires
        b.wf(),
        !b.ninja_move_pending,
        !b.wind_move_pending,
        !spec_can_move(b),
    ensures
        spec_legal_moves(b) == seq![
            Move::Discard { card: player_hand_of(b)[0] },
            Move::Discard { card: player_hand_of(b)[1] },
        ],
        spec_legal_moves(b)[0] != spec_legal_moves(b)[1],
        forall|m: Move| spec_legal_moves(b).contains(m) ==> m is Discard,
{
    reveal(crate::move_gen::spec_legal_moves);
    lemma_gen_normal_nonempty_iff(b);
    assert forall|m: Move| spec_legal_moves(b).contains(m) implies m is Discard by {
        lemma_legal_moves_mem(b, m);
    }
}

/// Purity: move application is a function of the board and the move
/// alone, so two applications to equal inputs produce equal states.
pub proof fn lemma_apply_deterministic(b: Board, m: Move, s1: GameState, s2: GameState)
    requires
        spec_try_move(b, m) == Ok::<GameState, Seq<char>>(s1),
        spec_try_move(b, m) == Ok::<GameState, Seq<char>>(s2),
    ensures
        s1 == s2,
{
}

/// Hand rotation: after an accepted ordinary-phase move or discard whose
/// result chains no sub-move, the mover still holds two distinct cards,
/// neither equal to the new spare, and the card just played is the new
/// spare.
pub proof fn lemma_hand_rotation(b: Board, m: Move)
    requires
        b.wf(),
        !b.ninja_move_pending,
        !b.wind_move_pending,
        move_ok(b, m),
        !state_board(spec_apply(b, m)).wind_move_pending,
        !state_board(spec_apply(b, m)).ninja_move_pending,
    ensures
        hand_of_color(state_board(spec_apply(b, m)), b.turn)[0] != hand_of_color(
            state_board(spec_apply(b, m)),
            b.turn,
        )[1],
        state_board(spec_apply(b, m)).spare_card == played_card(m),
        state_board(spec_apply(b, m)).spare_card != hand_of_color(
            state_board(spec_apply(b, m)),
            b.turn,
        )[0],
        state_board(spec_apply(b, m)).spare_card != hand_of_color(
            state_board(spec_apply(b, m)),
            b.turn,
        )[1],
{
    reveal(crate::rules::move_ok);
    reveal(crate::rules::spec_apply);
    match m {
        Move::Discard { card } => {},
        Move::Move { card, src, dst, reveal_ninja } => {
            assert(hand_has(player_hand_of(b), card));
        },
    }
}


/// Saturation: a position one legal move away from capturing the
/// opposing king or reaching the goal square scores as the saturating
/// extreme at every depth of at least one.
pub proof fn lemma_saturation(b: Board, m: Move, depth: nat)
    requires
        b.wf(),
        depth >= 1,
        spec_legal_moves(b).contains(m),
        spec_apply(b, m) matches GameState::Finished { winner, .. } && winner == b.turn,
    ensures
        b.turn == Player::Red ==> spec_minimax(GameState::Playing { board: b }, depth)
            == i64::MAX as int,
        b.turn == Player::Blue ==> spec_minimax(GameState::Playing { board: b }, depth)
            == i64::MIN as int,
{
    lemma_legal_moves_accepted(b, m);
    let ms = spec_legal_moves(b);
    let j = choose|j: int| 0 <= j < ms.len() && ms[j] == m;
    assert(spec_child_value(b, ms[j], depth) == spec_minimax(
        spec_apply(b, m),
        (depth - 1) as nat,
    )) by {
        reveal(crate::rules::move_ok);
    }
    assert(spec_minimax(spec_apply(b, m), (depth - 1) as nat) == spec_basic_value(
        spec_apply(b, m),
    ));
    lemma_spec_best_bounds(b, ms.len() as int, depth);
    crate::alphabeta::lemma_minimax_in_range(GameState::Playing { board: b }, depth);
    assert(spec_minimax(GameState::Playing { board: b }, depth) == spec_best(
        b,
        ms.len() as int,
        depth,
    ));
}

}
