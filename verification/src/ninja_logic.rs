//! The hidden-information sampler: determinizes concealed Ninja
//! positions into a concrete board for search. Each resampling is an
//! independent plausible world; a state with nothing concealed passes
//! through unchanged, which is what makes alpha-beta agree with plain
//! minimax on fully observable games.

use rand::rngs::StdRng;
use vstd::prelude::*;

use crate::models::Board;
use crate::models::Card;
use crate::models::GameState;
use crate::models::Ninja;
use crate::models::Point;
use crate::rng::rand_below;
use crate::rules::is_opponent_piece;
use crate::rules::is_player_piece;
use crate::rules::state_board;

verus! {

/// A square a concealed ninja could plausibly stand on: on the board
/// and free of every piece.
pub open spec fn spec_valid_ninja_pos(b: Board, p: Point) -> bool {
    p.spec_in_bounds() && !is_player_piece(b, p) && !is_opponent_piece(b, p)
}

/// Whether a square could hold a concealed ninja.
pub fn is_valid_ninja_position(board: &Board, pos: Point) -> (r: bool)
    ensures
        r == spec_valid_ninja_pos(*board, pos),
{
    pos.in_bounds() && !board.piece_at(pos) && !board.opponent_piece_at(pos)
}

/// Every square a concealed ninja could stand on.
fn valid_positions(board: &Board) -> (r: Vec<Point>)
    ensures
        forall|i: int| 0 <= i < r@.len() ==> spec_valid_ninja_pos(*board, #[trigger] r@[i]),
        (exists|p: Point| spec_valid_ninja_pos(*board, p)) ==> r@.len() > 0,
{
    let mut v: Vec<Point> = Vec::new();
    let mut x: i8 = 0;
    while x < 5
        invariant
            0 <= x <= 5,
            forall|i: int| 0 <= i < v@.len() ==> spec_valid_ninja_pos(*board, #[trigger] v@[i]),
            forall|p: Point|
                spec_valid_ninja_pos(*board, p) && p.x < x ==> v@.contains(p),
        decreases 5 - x,
    {
        let mut y: i8 = 0;
        while y < 5
            invariant
                0 <= x < 5,
                0 <= y <= 5,
                forall|i: int|
                    0 <= i < v@.len() ==> spec_valid_ninja_pos(*board, #[trigger] v@[i]),
                forall|p: Point|
                    spec_valid_ninja_pos(*board, p) && p.x < x ==> v@.contains(p),
                forall|p: Point|
                    spec_valid_ninja_pos(*board, p) && p.x == x && p.y < y ==> v@.contains(p),
            decreases 5 - y,
        {
            let pos = Point { x, y };
            let ghost before = v@;
            if is_valid_ninja_position(board, pos) {
                v.push(pos);
            }
            proof {
                assert forall|p: Point|
                    spec_valid_ninja_pos(*board, p) && p.x == x && p.y < y + 1 implies v@.contains(
                    p,
                ) by {
                    if p.y < y {
                        assert(before.contains(p));
                        let i = choose|i: int| 0 <= i < before.len() && before[i] == p;
                        assert(v@[i] == p);
                    } else {
                        assert(p == pos);
                        assert(v@[v@.len() - 1] == p);
                    }
                }
                assert forall|p: Point|
                    spec_valid_ninja_pos(*board, p) && p.x < x implies v@.contains(p) by {
                    assert(before.contains(p));
                    let i = choose|i: int| 0 <= i < before.len() && before[i] == p;
                    assert(v@[i] == p);
                }
            }
            y += 1;
        }
        x += 1;
    }
    proof {
        if exists|p: Point| spec_valid_ninja_pos(*board, p) {
            let p = choose|p: Point| spec_valid_ninja_pos(*board, p);
            assert(v@.contains(p));
        }
    }
    v
}

/// A uniformly random square a concealed ninja could stand on; at
/// least one such square must exist.
pub fn generate_random_valid_position(board: &Board, rng: &mut StdRng) -> (r: Point)
    requires
        exists|p: Point| spec_valid_ninja_pos(*board, p),
    ensures
        spec_valid_ninja_pos(*board, r),
{
    let cands = valid_positions(board);
    let j = rand_below(rng, cands.len());
    cands[j]
}

/// How one ninja slot may change under resampling on board `b`: an
/// absent or revealed ninja is untouched; a concealed one either stays
/// put or stands, still concealed, on a square free of every piece of
/// the input board.
pub open spec fn ninja_slot_resampled(b: Board, a: Option<Ninja>, c: Option<Ninja>) -> bool {
    match a {
        None => c is None,
        Some(n) => if n.revealed {
            c == Some(n)
        } else {
            c == Some(n) || (c matches Some(m) && !m.revealed && spec_valid_ninja_pos(b, m.pos))
        },
    }
}

/// How a whole board may change under resampling: only concealed ninja
/// positions move, each onto a free square of the input board (or not
/// at all).
pub open spec fn resampled_board(a: Board, c: Board) -> bool {
    &&& c == Board { red_ninjas: c.red_ninjas, blue_ninjas: c.blue_ninjas, ..a }
    &&& ninja_slot_resampled(a, a.red_ninjas[0], c.red_ninjas[0])
    &&& ninja_slot_resampled(a, a.red_ninjas[1], c.red_ninjas[1])
    &&& ninja_slot_resampled(a, a.blue_ninjas[0], c.blue_ninjas[0])
    &&& ninja_slot_resampled(a, a.blue_ninjas[1], c.blue_ninjas[1])
}

/// How a state may change under resampling: a finished game passes
/// through unchanged.
pub open spec fn resampled_state(s: GameState, r: GameState) -> bool {
    match s {
        GameState::Playing { board } => r matches GameState::Playing { board: c }
            && resampled_board(board, c),
        GameState::Finished { .. } => r == s,
    }
}

/// No ninja on the board is still concealed.
pub open spec fn board_no_hidden(b: Board) -> bool {
    &&& (b.red_ninjas[0] matches Some(n) ==> n.revealed)
    &&& (b.red_ninjas[1] matches Some(n) ==> n.revealed)
    &&& (b.blue_ninjas[0] matches Some(n) ==> n.revealed)
    &&& (b.blue_ninjas[1] matches Some(n) ==> n.revealed)
}

/// No ninja in the state is still concealed.
pub open spec fn state_no_hidden(s: GameState) -> bool {
    board_no_hidden(state_board(s))
}

/// One ninja slot after resampling onto a drawn square: with any
/// candidate available, a concealed ninja always moves onto one.
fn resample_slot(b: &Board, n: Option<Ninja>, cands: &Vec<Point>, rng: &mut StdRng) -> (r: Option<
    Ninja,
>)
    requires
        forall|i: int| 0 <= i < cands@.len() ==> spec_valid_ninja_pos(*b, #[trigger] cands@[i]),
    ensures
        ninja_slot_resampled(*b, n, r),
        board_slot_kept(n, r),
        cands@.len() > 0 ==> slot_resampled_valid(*b, n, r),
{
    match n {
        None => None,
        Some(nn) => {
            if nn.revealed {
                Some(nn)
            } else if cands.len() > 0 {
                let j = rand_below(rng, cands.len());
                Some(Ninja { pos: cands[j], revealed: false })
            } else {
                Some(nn)
            }
        },
    }
}

/// A revealed or absent slot is returned exactly as it was.
pub open spec fn board_slot_kept(n: Option<Ninja>, r: Option<Ninja>) -> bool {
    match n {
        None => r is None,
        Some(nn) => nn.revealed ==> r == Some(nn),
    }
}

/// A concealed slot was actually placed on a free square of board `b`.
pub open spec fn slot_resampled_valid(b: Board, n: Option<Ninja>, r: Option<Ninja>) -> bool {
    (n matches Some(nn) && !nn.revealed) ==> (r matches Some(m) && !m.revealed
        && spec_valid_ninja_pos(b, m.pos))
}

/// Replace every concealed ninja with one standing on a uniformly
/// random free square of the current position. A state with nothing
/// concealed comes back unchanged; whenever any free square exists,
/// every concealed ninja really is placed on one.
pub fn randomize_hidden_ninjas(state: &GameState, rng: &mut StdRng) -> (r: GameState)
    ensures
        resampled_state(*state, r),
        state_no_hidden(*state) ==> r == *state,
        *state matches GameState::Playing { board } ==> ((exists|p: Point|
            spec_valid_ninja_pos(board, p)) ==> (r matches GameState::Playing { board: c } && {
            &&& slot_resampled_valid(board, board.red_ninjas[0], c.red_ninjas[0])
            &&& slot_resampled_valid(board, board.red_ninjas[1], c.red_ninjas[1])
            &&& slot_resampled_valid(board, board.blue_ninjas[0], c.blue_ninjas[0])
            &&& slot_resampled_valid(board, board.blue_ninjas[1], c.blue_ninjas[1])
        })),
{
    let board = match state {
        GameState::Playing { board } => *board,
        GameState::Finished { .. } => {
            return *state;
        },
    };
    let cands = valid_positions(&board);
    let r0 = resample_slot(&board, board.red_ninjas[0], &cands, rng);
    let r1 = resample_slot(&board, board.red_ninjas[1], &cands, rng);
    let b0 = resample_slot(&board, board.blue_ninjas[0], &cands, rng);
    let b1 = resample_slot(&board, board.blue_ninjas[1], &cands, rng);
    let mut nb = board;
    nb.red_ninjas = [r0, r1];
    nb.blue_ninjas = [b0, b1];
    proof {
        if state_no_hidden(*state) {
            assert(nb.red_ninjas =~= board.red_ninjas);
            assert(nb.blue_ninjas =~= board.blue_ninjas);
        }
    }
    GameState::Playing { board: nb }
}

/// The candidate square one opposing-card offset contributes from one
/// last-known position: kept when it lands on a free on-board square.
/// (Last-known positions are tried under both orientations by listing
/// each card's raw offsets, as the query itself does.)
pub open spec fn poss_emit(b: Board, src: Point, o: Point) -> Seq<Point> {
    let nx = src.x as int + o.x as int;
    let ny = src.y as int + o.y as int;
    let d = Point { x: nx as i8, y: ny as i8 };
    if 0 <= nx <= 4 && 0 <= ny <= 4 && spec_valid_ninja_pos(b, d) {
        seq![d]
    } else {
        seq![]
    }
}

/// The candidates of the first `n` offsets of a card, from one source.
pub open spec fn poss_offsets(b: Board, card: Card, src: Point, n: int) -> Seq<Point>
    decreases n,
{
    if n <= 0 {
        seq![]
    } else {
        poss_offsets(b, card, src, n - 1) + poss_emit(
            b,
            src,
            crate::cards::card_moves(card, false, false)[n - 1],
        )
    }
}

/// The candidates of one card over the first `n` last-known positions.
pub open spec fn poss_srcs(b: Board, card: Card, srcs: Seq<Point>, n: int) -> Seq<Point>
    decreases n,
{
    if n <= 0 {
        seq![]
    } else {
        poss_srcs(b, card, srcs, n - 1) + poss_offsets(
            b,
            card,
            srcs[n - 1],
            crate::cards::card_moves(card, false, false).len() as int,
        )
    }
}

/// Every square a concealed opposing ninja could have reached this
/// turn: both opposing cards' offsets applied to every last-known
/// position, kept when they land on a free on-board square.
pub open spec fn spec_possible_positions(b: Board, srcs: Seq<Point>) -> Seq<Point> {
    poss_srcs(b, crate::rules::opponent_hand_of(b)[0], srcs, srcs.len() as int) + poss_srcs(
        b,
        crate::rules::opponent_hand_of(b)[1],
        srcs,
        srcs.len() as int,
    )
}

/// Every candidate of a card's walk is a free on-board square.
proof fn lemma_poss_offsets_valid(b: Board, card: Card, src: Point, n: int)
    ensures
        forall|i: int|
            0 <= i < poss_offsets(b, card, src, n).len() ==> spec_valid_ninja_pos(
                b,
                #[trigger] poss_offsets(b, card, src, n)[i],
            ),
    decreases n,
{
    if n > 0 {
        lemma_poss_offsets_valid(b, card, src, n - 1);
        let prefix = poss_offsets(b, card, src, n - 1);
        let emitted = poss_emit(b, src, crate::cards::card_moves(card, false, false)[n - 1]);
        assert forall|i: int|
            0 <= i < poss_offsets(b, card, src, n).len() implies spec_valid_ninja_pos(
            b,
            #[trigger] poss_offsets(b, card, src, n)[i],
        ) by {
            if i < prefix.len() {
                assert(poss_offsets(b, card, src, n)[i] == prefix[i]);
            } else {
                assert(poss_offsets(b, card, src, n)[i] == emitted[i - prefix.len()]);
            }
        }
    }
}

/// Every candidate of a card over the sources is a free on-board
/// square.
proof fn lemma_poss_srcs_valid(b: Board, card: Card, srcs: Seq<Point>, n: int)
    ensures
        forall|i: int|
            0 <= i < poss_srcs(b, card, srcs, n).len() ==> spec_valid_ninja_pos(
                b,
                #[trigger] poss_srcs(b, card, srcs, n)[i],
            ),
    decreases n,
{
    if n > 0 {
        lemma_poss_srcs_valid(b, card, srcs, n - 1);
        lemma_poss_offsets_valid(
            b,
            card,
            srcs[n - 1],
            crate::cards::card_moves(card, false, false).len() as int,
        );
        let prefix = poss_srcs(b, card, srcs, n - 1);
        let step = poss_offsets(
            b,
            card,
            srcs[n - 1],
            crate::cards::card_moves(card, false, false).len() as int,
        );
        assert forall|i: int|
            0 <= i < poss_srcs(b, card, srcs, n).len() implies spec_valid_ninja_pos(
            b,
            #[trigger] poss_srcs(b, card, srcs, n)[i],
        ) by {
            if i < prefix.len() {
                assert(poss_srcs(b, card, srcs, n)[i] == prefix[i]);
            } else {
                assert(poss_srcs(b, card, srcs, n)[i] == step[i - prefix.len()]);
            }
        }
    }
}

/// Push one card's candidates over every last-known position.
fn push_poss_for_card(board: &Board, card: Card, srcs: &Vec<Point>, out: &mut Vec<Point>)
    ensures
        final(out)@ == old(out)@ + poss_srcs(*board, card, srcs@, srcs@.len() as int),
{
    let tbl = card.moves(false, false);
    let ghost base = out@;
    let mut s: usize = 0;
    while s < srcs.len()
        invariant
            s <= srcs@.len(),
            tbl@ == crate::cards::card_moves(card, false, false),
            out@ == base + poss_srcs(*board, card, srcs@, s as int),
        decreases srcs@.len() - s,
    {
        let src = srcs[s];
        let ghost base2 = out@;
        let mut i: usize = 0;
        while i < tbl.len()
            invariant
                i <= tbl@.len(),
                tbl@ == crate::cards::card_moves(card, false, false),
                src == srcs@[s as int],
                s < srcs@.len(),
                out@ == base2 + poss_offsets(*board, card, src, i as int),
            decreases tbl@.len() - i,
        {
            let o = tbl[i];
            let nx = src.x as i16 + o.x as i16;
            let ny = src.y as i16 + o.y as i16;
            let mut pushed = false;
            if 0 <= nx && nx <= 4 && 0 <= ny && ny <= 4 {
                let dst = Point { x: nx as i8, y: ny as i8 };
                if is_valid_ninja_position(board, dst) {
                    out.push(dst);
                    pushed = true;
                }
            }
            proof {
                if pushed {
                    assert(poss_emit(*board, src, tbl@[i as int]).len() == 1);
                } else {
                    assert(poss_emit(*board, src, tbl@[i as int]).len() == 0);
                }
                assert(out@ =~= base2 + poss_offsets(*board, card, src, i as int + 1));
            }
            i += 1;
        }
        proof {
            vstd::seq_lib::lemma_concat_associative(
                base,
                poss_srcs(*board, card, srcs@, s as int),
                poss_offsets(*board, card, src, tbl@.len() as int),
            );
            assert(out@ == base + poss_srcs(*board, card, srcs@, s as int + 1));
        }
        s += 1;
    }
}

/// The squares a concealed opposing ninja could have reached this turn:
/// exactly the walk of both opposing cards over the last-known
/// positions, every entry a free on-board square.
pub fn possible_ninja_positions(board: &Board, current_positions: Vec<Point>) -> (r: Vec<Point>)
    ensures
        r@ == spec_possible_positions(*board, current_positions@),
        forall|i: int| 0 <= i < r@.len() ==> spec_valid_ninja_pos(*board, #[trigger] r@[i]),
{
    let mut out: Vec<Point> = Vec::new();
    let hand = *board.opponent_hand();
    push_poss_for_card(board, hand[0], &current_positions, &mut out);
    push_poss_for_card(board, hand[1], &current_positions, &mut out);
    proof {
        assert(out@ =~= spec_possible_positions(*board, current_positions@));
        lemma_poss_srcs_valid(
            *board,
            crate::rules::opponent_hand_of(*board)[0],
            current_positions@,
            current_positions@.len() as int,
        );
        lemma_poss_srcs_valid(
            *board,
            crate::rules::opponent_hand_of(*board)[1],
            current_positions@,
            current_positions@.len() as int,
        );
        assert forall|i: int|
            0 <= i < out@.len() implies spec_valid_ninja_pos(*board, #[trigger] out@[i]) by {
            let a = poss_srcs(
                *board,
                crate::rules::opponent_hand_of(*board)[0],
                current_positions@,
                current_positions@.len() as int,
            );
            let b2 = poss_srcs(
                *board,
                crate::rules::opponent_hand_of(*board)[1],
                current_positions@,
                current_positions@.len() as int,
            );
            if i < a.len() {
                assert(out@[i] == a[i]);
            } else {
                assert(out@[i] == b2[i - a.len()]);
            }
        }
    }
    out
}

/// Whether a ninja slot holds a concealed ninja.
pub open spec fn hidden_slot(n: Option<Ninja>) -> bool {
    n matches Some(m) && !m.revealed
}

/// One step of the in-order replacement walk: a concealed slot takes
/// the next given square while squares remain; everything else stays.
pub open spec fn walk_slot(n: Option<Ninja>, ps: Seq<Point>, idx: int) -> Option<Ninja> {
    if hidden_slot(n) && idx < ps.len() {
        Some(Ninja { pos: ps[idx], revealed: false })
    } else {
        n
    }
}

/// The walk index after one slot.
pub open spec fn walk_next(n: Option<Ninja>, ps: Seq<Point>, idx: int) -> int {
    if hidden_slot(n) && idx < ps.len() {
        idx + 1
    } else {
        idx
    }
}

/// The exact board the in-order replacement produces: the walk visits
/// the Blue slots then the Red slots, consuming one given square per
/// concealed ninja.
pub open spec fn replaced_board(b: Board, ps: Seq<Point>) -> Board {
    let i0 = 0int;
    let i1 = walk_next(b.blue_ninjas[0], ps, i0);
    let i2 = walk_next(b.blue_ninjas[1], ps, i1);
    let i3 = walk_next(b.red_ninjas[0], ps, i2);
    Board {
        blue_ninjas: [walk_slot(b.blue_ninjas[0], ps, i0), walk_slot(b.blue_ninjas[1], ps, i1)],
        red_ninjas: [walk_slot(b.red_ninjas[0], ps, i2), walk_slot(b.red_ninjas[1], ps, i3)],
        ..b
    }
}

/// Move each concealed ninja onto the next of the given squares, in
/// board order, leaving everything else alone: exactly the in-order
/// replacement walk. A finished game, and a state with nothing
/// concealed, come back unchanged.
pub fn randomize_ninjas_with_positions(state: &mut GameState, new_positions: &Vec<Point>)
    ensures
        *old(state) matches GameState::Playing { board } ==> *final(state) == (
        GameState::Playing { board: replaced_board(board, new_positions@) }),
        *old(state) is Finished ==> *final(state) == *old(state),
        state_no_hidden(*old(state)) ==> *final(state) == *old(state),
{
    let board = match &*state {
        GameState::Playing { board } => *board,
        GameState::Finished { .. } => {
            return ;
        },
    };
    let mut idx: usize = 0;
    let b0 = replace_slot(board.blue_ninjas[0], new_positions, &mut idx);
    let b1 = replace_slot(board.blue_ninjas[1], new_positions, &mut idx);
    let r0 = replace_slot(board.red_ninjas[0], new_positions, &mut idx);
    let r1 = replace_slot(board.red_ninjas[1], new_positions, &mut idx);
    let mut nb = board;
    nb.red_ninjas = [r0, r1];
    nb.blue_ninjas = [b0, b1];
    proof {
        assert(nb.red_ninjas =~= replaced_board(board, new_positions@).red_ninjas);
        assert(nb.blue_ninjas =~= replaced_board(board, new_positions@).blue_ninjas);
        assert(nb == replaced_board(board, new_positions@));
        if state_no_hidden(*old(state)) {
            assert(nb.red_ninjas =~= board.red_ninjas);
            assert(nb.blue_ninjas =~= board.blue_ninjas);
        }
    }
    *state = GameState::Playing { board: nb };
}

/// One slot of the in-order replacement walk.
fn replace_slot(n: Option<Ninja>, ps: &Vec<Point>, idx: &mut usize) -> (r: Option<Ninja>)
    requires
        *old(idx) <= ps@.len(),
    ensures
        r == walk_slot(n, ps@, *old(idx) as int),
        *final(idx) as int == walk_next(n, ps@, *old(idx) as int),
        *final(idx) <= ps@.len(),
{
    match n {
        None => None,
        Some(nn) => {
            if nn.revealed {
                Some(nn)
            } else if *idx < ps.len() {
                let p = ps[*idx];
                *idx += 1;
                Some(Ninja { pos: p, revealed: false })
            } else {
                Some(nn)
            }
        },
    }
}

}
