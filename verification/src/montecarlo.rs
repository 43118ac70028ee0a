//! Monte-Carlo evaluation: bounded uniform-random rollouts accumulate
//! win/loss counts per candidate move until the deadline, and the
//! hybrid agents first shortlist candidates with pruned search. Rollout
//! counts are random, so the contracts pin which moves are played, not
//! their scores.

use core::time::Duration;
use rand::rngs::StdRng;
use vstd::prelude::*;

use crate::alphabeta;
use crate::clock::deadline_after;
use crate::minimax::MAX_DEPTH;
use crate::clock::duration_div;
use crate::clock::past_deadline;
use crate::models::Board;
use crate::models::GameState;
use crate::models::Move;
use crate::models::Player;
use crate::move_gen::spec_legal_moves;
use crate::rng::rng_from_entropy;
use crate::rules::state_board;

verus! {

/// How many rollouts run between two looks at the clock.
pub const ITERATIONS_PER_TIME_CHECK: u8 = 50;

/// A uniform-random playout of at most 1000 plies: the winner if one
/// emerges, `None` for an abandoned rollout. Nothing is assumed of the
/// outcome.
fn simulate(state: GameState, rng: &mut StdRng) -> (r: Option<Player>) {
    let mut st = state;
    let mut ply: u16 = 0;
    while ply < 1000
        decreases 1000 - ply,
    {
        let board = match st {
            GameState::Playing { board } => board,
            GameState::Finished { winner, .. } => {
                return Some(winner);
            },
        };
        match board.random_legal_move(rng) {
            None => {
                return None;
            },
            Some(m) => {
                match board.try_move(m) {
                    Ok(next) => {
                        st = next;
                    },
                    Err(_) => {
                        return None;
                    },
                }
            },
        }
        ply += 1;
    }
    None
}

/// A score nudged by a rollout outcome, saturating at the extremes.
fn bump(score: i64, delta: i64) -> (r: i64)
    requires
        -1 <= delta <= 1,
{
    if score < i64::MAX - 1 && score > i64::MIN + 1 {
        score + delta
    } else {
        score
    }
}

/// Accumulate rollout scores for each candidate move until the deadline
/// passes, checking the clock once per batch. The result pairs each
/// candidate, in the order given, with its accumulated score.
fn montecarlo(board: &Board, moves: Vec<Move>, duration: Duration, rng: &mut StdRng) -> (r: Vec<
    (Move, i64),
>)
    ensures
        r@.len() == moves@.len(),
        forall|i: int| 0 <= i < r@.len() ==> (#[trigger] r@[i]).0 == moves@[i],
{
    let deadline = deadline_after(duration);
    let mut results: Vec<(Move, i64)> = Vec::new();
    let mut i: usize = 0;
    while i < moves.len()
        invariant
            i <= moves@.len(),
            results@.len() == i,
            forall|j: int| 0 <= j < i ==> (#[trigger] results@[j]).0 == moves@[j],
        decreases moves@.len() - i,
    {
        results.push((moves[i], 0i64));
        i += 1;
    }
    // The counter only gives the loop a termination measure; in
    // practice the deadline is what ends it.
    let mut guard: u64 = 0;
    while guard < 1_000_000_000 && !past_deadline(&deadline)
        invariant
            results@.len() == moves@.len(),
            forall|j: int| 0 <= j < results@.len() ==> (#[trigger] results@[j]).0 == moves@[j],
        decreases 1_000_000_000 - guard,
    {
        let mut batch: u8 = 0;
        while batch < ITERATIONS_PER_TIME_CHECK
            invariant
                results@.len() == moves@.len(),
                forall|j: int|
                    0 <= j < results@.len() ==> (#[trigger] results@[j]).0 == moves@[j],
            decreases ITERATIONS_PER_TIME_CHECK - batch,
        {
            let mut k: usize = 0;
            while k < results.len()
                invariant
                    results@.len() == moves@.len(),
                    forall|j: int|
                        0 <= j < results@.len() ==> (#[trigger] results@[j]).0 == moves@[j],
                decreases results@.len() - k,
            {
                let (m, score) = results[k];
                match board.try_move(m) {
                    Ok(next) => {
                        let delta = match simulate(next, rng) {
                            Some(Player::Red) => 1i64,
                            Some(Player::Blue) => -1i64,
                            None => 0i64,
                        };
                        results.set(k, (m, bump(score, delta)));
                    },
                    Err(_) => {},
                }
                k += 1;
            }
            batch += 1;
        }
        guard += 1;
    }
    results
}

/// Count the rollouts a budget affords from a fixed candidate list: a
/// benchmarking probe.
pub fn montecarlo_count_simulations(board: &Board, moves: Vec<Move>, duration: Duration) -> (r:
    u64) {
    let mut rng = rng_from_entropy();
    let deadline = deadline_after(duration);
    let mut simulations: u64 = 0;
    // The counter only gives the loop a termination measure; in
    // practice the deadline is what ends it.
    let mut guard: u64 = 0;
    while guard < 1_000_000_000 && !past_deadline(&deadline)
        decreases 1_000_000_000 - guard,
    {
        let mut batch: u8 = 0;
        while batch < ITERATIONS_PER_TIME_CHECK
            decreases ITERATIONS_PER_TIME_CHECK - batch,
        {
            let mut k: usize = 0;
            while k < moves.len()
                decreases moves@.len() - k,
            {
                if simulations < u64::MAX {
                    simulations += 1;
                }
                match board.try_move(moves[k]) {
                    Ok(next) => {
                        let _ = simulate(next, &mut rng);
                    },
                    Err(_) => {},
                }
                k += 1;
            }
            batch += 1;
        }
        guard += 1;
    }
    simulations
}

/// The moves of a score list, in order.
pub open spec fn scored_moves(v: Seq<(Move, i64)>) -> Seq<Move> {
    v.map_values(|p: (Move, i64)| p.0)
}

/// The saturating score that proves a forced win for the side to move.
pub open spec fn spec_winning_score(turn: Player) -> i64 {
    match turn {
        Player::Red => i64::MAX,
        Player::Blue => i64::MIN,
    }
}

/// The saturating score that proves a forced loss for the side to move.
pub open spec fn spec_losing_score(turn: Player) -> i64 {
    match turn {
        Player::Red => i64::MIN,
        Player::Blue => i64::MAX,
    }
}

/// Whether `q` scores strictly better than `p` for the side to move.
pub open spec fn spec_better(turn: Player, q: (Move, i64), p: (Move, i64)) -> bool {
    match turn {
        Player::Red => q.1 > p.1,
        Player::Blue => q.1 < p.1,
    }
}

/// The earliest best-scored entry of a score list: a later entry only
/// displaces an earlier one by scoring strictly better.
pub open spec fn spec_best_entry(turn: Player, v: Seq<(Move, i64)>) -> (Move, i64)
    decreases v.len(),
{
    if v.len() <= 1 {
        v[0]
    } else {
        let p = spec_best_entry(turn, v.drop_last());
        if spec_better(turn, v.last(), p) {
            v.last()
        } else {
            p
        }
    }
}

/// The best entry of a nonempty score list is one of its entries, no
/// entry beats it, and every earlier entry scores strictly worse.
pub proof fn lemma_best_entry_props(turn: Player, v: Seq<(Move, i64)>)
    requires
        v.len() > 0,
    ensures
        exists|i: int|
            {
                &&& 0 <= i < v.len()
                &&& #[trigger] v[i] == spec_best_entry(turn, v)
                &&& forall|k: int| 0 <= k < i ==> spec_better(turn, v[i], #[trigger] v[k])
            },
        forall|j: int| 0 <= j < v.len() ==> !spec_better(turn, #[trigger] v[j], spec_best_entry(turn, v)),
    decreases v.len(),
{
    if v.len() == 1 {
        assert(v[0] == spec_best_entry(turn, v));
    } else {
        let w = v.drop_last();
        lemma_best_entry_props(turn, w);
        let p = spec_best_entry(turn, w);
        let q = v.last();
        let i = choose|i: int|
            {
                &&& 0 <= i < w.len()
                &&& #[trigger] w[i] == p
                &&& forall|k: int| 0 <= k < i ==> spec_better(turn, w[i], #[trigger] w[k])
            };
        if spec_better(turn, q, p) {
            assert(v[v.len() - 1] == spec_best_entry(turn, v));
            assert forall|k: int| 0 <= k < v.len() - 1 implies spec_better(
                turn,
                v[v.len() - 1],
                #[trigger] v[k],
            ) by {
                assert(w[k] == v[k]);
                assert(!spec_better(turn, w[k], p));
            }
        } else {
            assert(v[i] == w[i]);
            assert(v[i] == spec_best_entry(turn, v));
            assert forall|k: int| 0 <= k < i implies spec_better(turn, v[i], #[trigger] v[k]) by {
                assert(w[k] == v[k]);
            }
        }
        assert forall|j: int|
            0 <= j < v.len() implies !spec_better(turn, #[trigger] v[j], spec_best_entry(turn, v)) by {
            if j < v.len() - 1 {
                assert(v[j] == w[j]);
            }
        }
    }
}

/// The earliest best-scored entry of the score list, if it has one.
fn pick_best(turn: Player, scored: &Vec<(Move, i64)>) -> (r: Option<(Move, i64)>)
    ensures
        r is Some <==> scored@.len() > 0,
        r matches Some(p) ==> p == spec_best_entry(turn, scored@),
{
    if scored.len() == 0 {
        return None;
    }
    let mut best = scored[0];
    proof {
        assert(scored@.take(1).len() == 1);
        assert(scored@.take(1)[0] == scored@[0]);
        assert(best == spec_best_entry(turn, scored@.take(1)));
    }
    let mut i: usize = 1;
    while i < scored.len()
        invariant
            1 <= i <= scored@.len(),
            best == spec_best_entry(turn, scored@.take(i as int)),
        decreases scored@.len() - i,
    {
        let cand = scored[i];
        let better = match turn {
            Player::Red => cand.1 > best.1,
            Player::Blue => cand.1 < best.1,
        };
        proof {
            let t = scored@.take(i as int + 1);
            assert(t.drop_last() =~= scored@.take(i as int));
            assert(t.last() == scored@[i as int]);
            assert(t.len() > 1);
        }
        if better {
            best = cand;
        }
        proof {
            assert(best == spec_best_entry(turn, scored@.take(i as int + 1)));
        }
        i += 1;
    }
    proof {
        assert(scored@.take(scored@.len() as int) =~= scored@);
    }
    Some(best)
}

/// The earliest entry carrying the proven-win score, if the list holds
/// one.
fn find_winning(turn: Player, scored: &Vec<(Move, i64)>) -> (r: Option<(Move, i64)>)
    ensures
        r is Some <==> exists|j: int|
            0 <= j < scored@.len() && (#[trigger] scored@[j]).1 == spec_winning_score(turn),
        r matches Some(p) ==> exists|j: int|
            {
                &&& 0 <= j < scored@.len()
                &&& #[trigger] scored@[j] == p
                &&& p.1 == spec_winning_score(turn)
                &&& forall|k: int| 0 <= k < j ==> (#[trigger] scored@[k]).1 != spec_winning_score(
                    turn,
                )
            },
{
    let winning = match turn {
        Player::Red => i64::MAX,
        Player::Blue => i64::MIN,
    };
    let mut i: usize = 0;
    while i < scored.len()
        invariant
            i <= scored@.len(),
            winning == spec_winning_score(turn),
            forall|k: int| 0 <= k < i ==> (#[trigger] scored@[k]).1 != spec_winning_score(turn),
        decreases scored@.len() - i,
    {
        let p = scored[i];
        if p.1 == winning {
            proof {
                assert(scored@[i as int] == p);
            }
            return Some(p);
        }
        i += 1;
    }
    None
}

/// The moves of the entries whose score is not `s`, in order, over the
/// first `n` entries.
pub open spec fn keep_not_score(v: Seq<(Move, i64)>, s: i64, n: int) -> Seq<Move>
    decreases n,
{
    if n <= 0 {
        seq![]
    } else {
        keep_not_score(v, s, n - 1) + (if v[n - 1].1 != s {
            seq![v[n - 1].0]
        } else {
            seq![]
        })
    }
}

/// The moves of the entries whose score is exactly `s`, in order, over
/// the first `n` entries.
pub open spec fn keep_eq_score(v: Seq<(Move, i64)>, s: i64, n: int) -> Seq<Move>
    decreases n,
{
    if n <= 0 {
        seq![]
    } else {
        keep_eq_score(v, s, n - 1) + (if v[n - 1].1 == s {
            seq![v[n - 1].0]
        } else {
            seq![]
        })
    }
}

/// The hybrid shortlist: the moves not proven losing, or every move
/// when all are.
pub open spec fn spec_shortlist(turn: Player, v: Seq<(Move, i64)>) -> Seq<Move> {
    let kept = keep_not_score(v, spec_losing_score(turn), v.len() as int);
    if kept.len() > 0 {
        kept
    } else {
        scored_moves(v)
    }
}

/// The hard hybrid shortlist: the moves sharing the best score, or
/// every move when none does.
pub open spec fn spec_shortlist_hard(turn: Player, v: Seq<(Move, i64)>) -> Seq<Move> {
    if v.len() == 0 {
        seq![]
    } else {
        let kept = keep_eq_score(v, spec_best_entry(turn, v).1, v.len() as int);
        if kept.len() > 0 {
            kept
        } else {
            scored_moves(v)
        }
    }
}

/// Every kept move names an entry of the score list.
proof fn lemma_keep_not_mem(v: Seq<(Move, i64)>, s: i64, n: int, x: Move)
    requires
        0 <= n <= v.len(),
        keep_not_score(v, s, n).contains(x),
    ensures
        exists|j: int| 0 <= j < n && (#[trigger] v[j]).0 == x,
    decreases n,
{
    if n > 0 {
        let prefix = keep_not_score(v, s, n - 1);
        let i = choose|i: int|
            0 <= i < keep_not_score(v, s, n).len() && keep_not_score(v, s, n)[i] == x;
        if i < prefix.len() {
            assert(prefix[i] == x);
            lemma_keep_not_mem(v, s, n - 1, x);
        } else {
            assert(v[n - 1].0 == x);
        }
    }
}

/// Every kept move names an entry of the score list.
proof fn lemma_keep_eq_mem(v: Seq<(Move, i64)>, s: i64, n: int, x: Move)
    requires
        0 <= n <= v.len(),
        keep_eq_score(v, s, n).contains(x),
    ensures
        exists|j: int| 0 <= j < n && (#[trigger] v[j]).0 == x,
    decreases n,
{
    if n > 0 {
        let prefix = keep_eq_score(v, s, n - 1);
        let i = choose|i: int|
            0 <= i < keep_eq_score(v, s, n).len() && keep_eq_score(v, s, n)[i] == x;
        if i < prefix.len() {
            assert(prefix[i] == x);
            lemma_keep_eq_mem(v, s, n - 1, x);
        } else {
            assert(v[n - 1].0 == x);
        }
    }
}

/// Every move of a shortlist names an entry of the score list it was
/// drawn from.
pub proof fn lemma_shortlist_mem(turn: Player, v: Seq<(Move, i64)>, x: Move)
    requires
        spec_shortlist(turn, v).contains(x) || spec_shortlist_hard(turn, v).contains(x),
    ensures
        exists|j: int| 0 <= j < v.len() && (#[trigger] v[j]).0 == x,
{
    if spec_shortlist(turn, v).contains(x) {
        let kept = keep_not_score(v, spec_losing_score(turn), v.len() as int);
        if kept.len() > 0 {
            lemma_keep_not_mem(v, spec_losing_score(turn), v.len() as int, x);
        } else {
            let i = choose|i: int|
                0 <= i < scored_moves(v).len() && scored_moves(v)[i] == x;
            assert(v[i].0 == x);
        }
    }
    if spec_shortlist_hard(turn, v).contains(x) {
        let kept = keep_eq_score(v, spec_best_entry(turn, v).1, v.len() as int);
        if kept.len() > 0 {
            lemma_keep_eq_mem(v, spec_best_entry(turn, v).1, v.len() as int, x);
        } else {
            let i = choose|i: int|
                0 <= i < scored_moves(v).len() && scored_moves(v)[i] == x;
            assert(v[i].0 == x);
        }
    }
}

/// The moves not proven losing for the side to move — or every move,
/// when all are proven losing: exactly the hybrid shortlist.
fn filter_not_losing(turn: Player, scored: &Vec<(Move, i64)>) -> (r: Vec<Move>)
    ensures
        r@ == spec_shortlist(turn, scored@),
{
    let losing = match turn {
        Player::Red => i64::MIN,
        Player::Blue => i64::MAX,
    };
    let mut keep: Vec<Move> = Vec::new();
    let mut i: usize = 0;
    while i < scored.len()
        invariant
            i <= scored@.len(),
            losing == spec_losing_score(turn),
            keep@ == keep_not_score(scored@, spec_losing_score(turn), i as int),
        decreases scored@.len() - i,
    {
        let (m, s) = scored[i];
        if s != losing {
            keep.push(m);
        }
        proof {
            assert(keep@ =~= keep_not_score(scored@, spec_losing_score(turn), i as int + 1));
        }
        i += 1;
    }
    if keep.len() > 0 {
        return keep;
    }
    let mut all: Vec<Move> = Vec::new();
    let mut i2: usize = 0;
    while i2 < scored.len()
        invariant
            i2 <= scored@.len(),
            all@.len() == i2,
            forall|k: int| 0 <= k < i2 ==> all@[k] == (#[trigger] scored@[k]).0,
        decreases scored@.len() - i2,
    {
        all.push(scored[i2].0);
        i2 += 1;
    }
    proof {
        assert(all@ =~= scored_moves(scored@));
    }
    all
}

/// The moves sharing the best score for the side to move — or every
/// move, when none does: exactly the hard hybrid shortlist.
fn filter_best(turn: Player, scored: &Vec<(Move, i64)>) -> (r: Vec<Move>)
    ensures
        r@ == spec_shortlist_hard(turn, scored@),
{
    let best = match pick_best(turn, scored) {
        None => {
            return Vec::new();
        },
        Some(p) => p.1,
    };
    let mut keep: Vec<Move> = Vec::new();
    let mut i: usize = 0;
    while i < scored.len()
        invariant
            i <= scored@.len(),
            scored@.len() > 0,
            best == spec_best_entry(turn, scored@).1,
            keep@ == keep_eq_score(scored@, spec_best_entry(turn, scored@).1, i as int),
        decreases scored@.len() - i,
    {
        let (m, s) = scored[i];
        if s == best {
            keep.push(m);
        }
        proof {
            assert(keep@ =~= keep_eq_score(
                scored@,
                spec_best_entry(turn, scored@).1,
                i as int + 1,
            ));
        }
        i += 1;
    }
    if keep.len() > 0 {
        return keep;
    }
    let mut all: Vec<Move> = Vec::new();
    let mut i2: usize = 0;
    while i2 < scored.len()
        invariant
            i2 <= scored@.len(),
            all@.len() == i2,
            forall|k: int| 0 <= k < i2 ==> all@[k] == (#[trigger] scored@[k]).0,
        decreases scored@.len() - i2,
    {
        all.push(scored[i2].0);
        i2 += 1;
    }
    proof {
        assert(all@ =~= scored_moves(scored@));
    }
    all
}

/// Pure Monte-Carlo play: roll every offered move out until the budget
/// runs dry and play the earliest best accumulated score. `None`
/// exactly for a finished game or a position offering nothing.
pub fn pure_montecarlo_agent(state: &GameState, duration: Duration) -> (r: Option<(Move, i64)>)
    ensures
        r is Some <==> (*state is Playing && spec_legal_moves(state_board(*state)).len() > 0),
        r matches Some(p) ==> spec_legal_moves(state_board(*state)).contains(p.0),
        r matches Some(p) ==> exists|t: Seq<(Move, i64)>|
            {
                &&& t.len() == spec_legal_moves(state_board(*state)).len()
                &&& forall|i: int|
                    0 <= i < t.len() ==> (#[trigger] t[i]).0 == spec_legal_moves(
                        state_board(*state),
                    )[i]
                &&& p == spec_best_entry(state_board(*state).turn, t)
            },
{
    let mut rng = rng_from_entropy();
    let board = match state {
        GameState::Playing { board } => *board,
        GameState::Finished { .. } => {
            return None;
        },
    };
    let moves = board.legal_moves();
    let scored = montecarlo(&board, moves, duration, &mut rng);
    let r = pick_best(board.turn, &scored);
    proof {
        if r is Some {
            let p = r->0;
            lemma_best_entry_props(board.turn, scored@);
            let i = choose|i: int|
                {
                    &&& 0 <= i < scored@.len()
                    &&& #[trigger] scored@[i] == spec_best_entry(board.turn, scored@)
                    &&& forall|k: int|
                        0 <= k < i ==> spec_better(board.turn, scored@[i], #[trigger] scored@[k])
                };
            assert(spec_legal_moves(board)[i] == p.0);
        }
    }
    r
}

/// An acceptable answer of the hybrid agent given the pruned-search
/// score list it worked from: the earliest proven win when one exists,
/// else a move of the hybrid shortlist.
pub open spec fn hybrid_pick_ok(turn: Player, v: Seq<(Move, i64)>, p: (Move, i64)) -> bool {
    if exists|j: int| 0 <= j < v.len() && (#[trigger] v[j]).1 == spec_winning_score(turn) {
        exists|j: int|
            {
                &&& 0 <= j < v.len()
                &&& #[trigger] v[j] == p
                &&& p.1 == spec_winning_score(turn)
                &&& forall|k: int| 0 <= k < j ==> (#[trigger] v[k]).1 != spec_winning_score(turn)
            }
    } else {
        spec_shortlist(turn, v).contains(p.0)
    }
}

/// As `hybrid_pick_ok`, with the hard shortlist.
pub open spec fn hybrid_hard_pick_ok(turn: Player, v: Seq<(Move, i64)>, p: (Move, i64)) -> bool {
    if exists|j: int| 0 <= j < v.len() && (#[trigger] v[j]).1 == spec_winning_score(turn) {
        exists|j: int|
            {
                &&& 0 <= j < v.len()
                &&& #[trigger] v[j] == p
                &&& p.1 == spec_winning_score(turn)
                &&& forall|k: int| 0 <= k < j ==> (#[trigger] v[k]).1 != spec_winning_score(turn)
            }
    } else {
        spec_shortlist_hard(turn, v).contains(p.0)
    }
}

/// What the hybrid agent promises of a proposal: it decided from a
/// pruned-search score list of the offered moves at some completed
/// depth, playing the earliest proven win at once or a shortlisted
/// move.
pub open spec fn hybrid_result_ok(s: GameState, p: (Move, i64)) -> bool {
    exists|d: nat, v: Seq<(Move, i64)>|
        1 <= d < MAX_DEPTH && #[trigger] alphabeta::scored_list(s, d, v) && hybrid_pick_ok(
            state_board(s).turn,
            v,
            p,
        )
}

/// As `hybrid_result_ok`, for the hard variant.
pub open spec fn hybrid_hard_result_ok(s: GameState, p: (Move, i64)) -> bool {
    exists|d: nat, v: Seq<(Move, i64)>|
        1 <= d < MAX_DEPTH && #[trigger] alphabeta::scored_list(s, d, v) && hybrid_hard_pick_ok(
            state_board(s).turn,
            v,
            p,
        )
}

/// The hybrid agent: pruned search for half the budget; the earliest
/// proven win is played at once; otherwise the moves not proven losing
/// are rolled out for the other half and the earliest best is played.
pub fn hybrid_montecarlo_agent(state: &GameState, duration: Duration) -> (r: Option<(Move, i64)>)
    ensures
        *state is Finished ==> r is None,
        spec_legal_moves(state_board(*state)).len() == 0 ==> r is None,
        r matches Some(p) ==> spec_legal_moves(state_board(*state)).contains(p.0),
        r matches Some(p) ==> hybrid_result_ok(*state, p),
{
    let mut rng = rng_from_entropy();
    let half = duration_div(duration, 2);
    let moves_scored = match alphabeta::moves_scored_deepening(state, half) {
        None => {
            return None;
        },
        Some(v) => v,
    };
    let board = match state {
        GameState::Playing { board } => *board,
        GameState::Finished { .. } => {
            return None;
        },
    };
    let ghost d = choose|d: nat|
        1 <= d < MAX_DEPTH && #[trigger] alphabeta::scored_list(*state, d, moves_scored@);
    if let Some(p) = find_winning(board.turn, &moves_scored) {
        proof {
            assert(hybrid_pick_ok(board.turn, moves_scored@, p));
            assert(hybrid_result_ok(*state, p));
            let j = choose|j: int|
                0 <= j < moves_scored@.len() && #[trigger] moves_scored@[j] == p;
            assert(spec_legal_moves(board)[j] == p.0);
        }
        return Some(p);
    }
    let shortlist = filter_not_losing(board.turn, &moves_scored);
    proof {
        assert forall|i: int|
            0 <= i < shortlist@.len() implies spec_legal_moves(board).contains(
            #[trigger] shortlist@[i],
        ) by {
            lemma_shortlist_mem(board.turn, moves_scored@, shortlist@[i]);
            let j = choose|j: int|
                0 <= j < moves_scored@.len() && (#[trigger] moves_scored@[j]).0 == shortlist@[i];
            assert(spec_legal_moves(board)[j] == shortlist@[i]);
        }
    }
    if shortlist.len() == 1 {
        let m = shortlist[0];
        proof {
            assert(spec_shortlist(board.turn, moves_scored@).contains(m));
            assert(hybrid_pick_ok(board.turn, moves_scored@, (m, 0i64)));
            assert(hybrid_result_ok(*state, (m, 0i64)));
        }
        return Some((m, 0));
    }
    let scored = montecarlo(&board, shortlist, half, &mut rng);
    let r = pick_best(board.turn, &scored);
    proof {
        if r is Some {
            let p = r->0;
            lemma_best_entry_props(board.turn, scored@);
            let i = choose|i: int|
                {
                    &&& 0 <= i < scored@.len()
                    &&& #[trigger] scored@[i] == spec_best_entry(board.turn, scored@)
                    &&& forall|k: int|
                        0 <= k < i ==> spec_better(board.turn, scored@[i], #[trigger] scored@[k])
                };
            assert(spec_shortlist(board.turn, moves_scored@)[i] == p.0);
            assert(spec_shortlist(board.turn, moves_scored@).contains(p.0));
            assert(hybrid_pick_ok(board.turn, moves_scored@, p));
            assert(hybrid_result_ok(*state, p));
        }
    }
    r
}

/// The hard hybrid: like the hybrid, but only the best-scoring moves
/// are rolled out.
pub fn hybrid_hard_montecarlo_agent(state: &GameState, duration: Duration) -> (r: Option<
    (Move, i64),
>)
    ensures
        *state is Finished ==> r is None,
        spec_legal_moves(state_board(*state)).len() == 0 ==> r is None,
        r matches Some(p) ==> spec_legal_moves(state_board(*state)).contains(p.0),
        r matches Some(p) ==> hybrid_hard_result_ok(*state, p),
{
    let mut rng = rng_from_entropy();
    let half = duration_div(duration, 2);
    let moves_scored = match alphabeta::moves_scored_deepening(state, half) {
        None => {
            return None;
        },
        Some(v) => v,
    };
    let board = match state {
        GameState::Playing { board } => *board,
        GameState::Finished { .. } => {
            return None;
        },
    };
    let ghost d = choose|d: nat|
        1 <= d < MAX_DEPTH && #[trigger] alphabeta::scored_list(*state, d, moves_scored@);
    if let Some(p) = find_winning(board.turn, &moves_scored) {
        proof {
            assert(hybrid_hard_pick_ok(board.turn, moves_scored@, p));
            assert(hybrid_hard_result_ok(*state, p));
            let j = choose|j: int|
                0 <= j < moves_scored@.len() && #[trigger] moves_scored@[j] == p;
            assert(spec_legal_moves(board)[j] == p.0);
        }
        return Some(p);
    }
    let shortlist = filter_best(board.turn, &moves_scored);
    proof {
        assert forall|i: int|
            0 <= i < shortlist@.len() implies spec_legal_moves(board).contains(
            #[trigger] shortlist@[i],
        ) by {
            lemma_shortlist_mem(board.turn, moves_scored@, shortlist@[i]);
            let j = choose|j: int|
                0 <= j < moves_scored@.len() && (#[trigger] moves_scored@[j]).0 == shortlist@[i];
            assert(spec_legal_moves(board)[j] == shortlist@[i]);
        }
    }
    if shortlist.len() == 1 {
        let m = shortlist[0];
        proof {
            assert(spec_shortlist_hard(board.turn, moves_scored@).contains(m));
            assert(hybrid_hard_pick_ok(board.turn, moves_scored@, (m, 0i64)));
            assert(hybrid_hard_result_ok(*state, (m, 0i64)));
        }
        return Some((m, 0));
    }
    let scored = montecarlo(&board, shortlist, half, &mut rng);
    let r = pick_best(board.turn, &scored);
    proof {
        if r is Some {
            let p = r->0;
            lemma_best_entry_props(board.turn, scored@);
            let i = choose|i: int|
                {
                    &&& 0 <= i < scored@.len()
                    &&& #[trigger] scored@[i] == spec_best_entry(board.turn, scored@)
                    &&& forall|k: int|
                        0 <= k < i ==> spec_better(board.turn, scored@[i], #[trigger] scored@[k])
                };
            assert(spec_shortlist_hard(board.turn, moves_scored@)[i] == p.0);
            assert(spec_shortlist_hard(board.turn, moves_scored@).contains(p.0));
            assert(hybrid_hard_pick_ok(board.turn, moves_scored@, p));
            assert(hybrid_hard_result_ok(*state, p));
        }
    }
    r
}

/// A rank list at depth `d`: one entry per offered move in order, and —
/// on a fully observable state — saturating pruned-search child values
/// pass through unblended.
pub open spec fn blended_scored_list(s: GameState, d: nat, v: Seq<(Move, i64)>) -> bool {
    let b = state_board(s);
    &&& s is Playing
    &&& v.len() == spec_legal_moves(b).len()
    &&& forall|i: int| 0 <= i < v.len() ==> (#[trigger] v[i]).0 == spec_legal_moves(b)[i]
    &&& crate::ninja_logic::state_no_hidden(s) ==> forall|i: int|
        0 <= i < v.len() ==> ((crate::minimax::spec_child_value(b, spec_legal_moves(b)[i], d)
            == i64::MAX as int || crate::minimax::spec_child_value(b, spec_legal_moves(b)[i], d)
            == i64::MIN as int) ==> (#[trigger] v[i]).1 as int == crate::minimax::spec_child_value(
            b,
            spec_legal_moves(b)[i],
            d,
        ))
}

/// A rank list that is blended at some completed depth.
pub open spec fn ranked_at_some_depth(s: GameState, v: Seq<(Move, i64)>) -> bool {
    exists|d: nat| 1 <= d < MAX_DEPTH && #[trigger] blended_scored_list(s, d, v)
}

/// Rank every offered move with a blended pruned-search/rollout score
/// for coaching: proven wins and losses pass through unblended. The
/// ranked moves are exactly the offered list, in order.
#[verifier::rlimit(60)]
pub fn hybrid_hard_montecarlo_rank_moves(state: &GameState, duration: Duration) -> (r: Option<
    Vec<(Move, i64)>,
>)
    ensures
        *state is Finished ==> r is None,
        r matches Some(v) ==> ranked_at_some_depth(*state, v@),
{
    let mut rng = rng_from_entropy();
    let half = duration_div(duration, 2);
    let alphabeta_scored = match alphabeta::moves_scored_deepening(state, half) {
        None => {
            return None;
        },
        Some(v) => v,
    };
    let board = match state {
        GameState::Playing { board } => *board,
        GameState::Finished { .. } => {
            return None;
        },
    };
    let ghost d = choose|d: nat|
        1 <= d < MAX_DEPTH && #[trigger] alphabeta::scored_list(*state, d, alphabeta_scored@);
    if alphabeta_scored.len() == 1 {
        proof {
            assert(blended_scored_list(*state, d, alphabeta_scored@));
            assert(ranked_at_some_depth(*state, alphabeta_scored@));
        }
        return Some(alphabeta_scored);
    }
    let mut moves: Vec<Move> = Vec::new();
    let mut i: usize = 0;
    while i < alphabeta_scored.len()
        invariant
            i <= alphabeta_scored@.len(),
            moves@.len() == i,
            forall|j: int| 0 <= j < i ==> moves@[j] == (#[trigger] alphabeta_scored@[j]).0,
        decreases alphabeta_scored@.len() - i,
    {
        moves.push(alphabeta_scored[i].0);
        i += 1;
    }
    let monte_scored = montecarlo(&board, moves, half, &mut rng);
    let mut out: Vec<(Move, i64)> = Vec::new();
    let mut k: usize = 0;
    while k < alphabeta_scored.len()
        invariant
            k <= alphabeta_scored@.len(),
            monte_scored@.len() == alphabeta_scored@.len(),
            out@.len() == k,
            1 <= d < MAX_DEPTH,
            alphabeta::scored_list(*state, d, alphabeta_scored@),
            *state == (GameState::Playing { board }),
            forall|j: int|
                0 <= j < monte_scored@.len() ==> (#[trigger] monte_scored@[j]).0 == (
                alphabeta_scored@[j]).0,
            forall|j: int| 0 <= j < k ==> (#[trigger] out@[j]).0 == (alphabeta_scored@[j]).0,
            forall|j: int|
                0 <= j < k ==> (((#[trigger] alphabeta_scored@[j]).1 == i64::MAX
                    || alphabeta_scored@[j].1 == i64::MIN) ==> out@[j].1 == alphabeta_scored@[j].1),
        decreases alphabeta_scored@.len() - k,
    {
        let (alpha_move, alpha_score) = alphabeta_scored[k];
        let (_, monte_score) = monte_scored[k];
        if alpha_score == i64::MIN || alpha_score == i64::MAX {
            out.push((alpha_move, alpha_score));
        } else {
            out.push((alpha_move, alpha_score / 2 + monte_score / 2));
        }
        k += 1;
    }
    proof {
        if crate::ninja_logic::state_no_hidden(*state) {
            assert forall|j: int|
                0 <= j < out@.len() && (crate::minimax::spec_child_value(
                    board,
                    spec_legal_moves(board)[j],
                    d,
                ) == i64::MAX as int || crate::minimax::spec_child_value(
                    board,
                    spec_legal_moves(board)[j],
                    d,
                ) == i64::MIN as int) implies (#[trigger] out@[j]).1 as int
                == crate::minimax::spec_child_value(board, spec_legal_moves(board)[j], d) by {
                assert((alphabeta_scored@[j]).1 as int == crate::minimax::spec_child_value(
                    board,
                    spec_legal_moves(board)[j],
                    d,
                ));
            }
        }
        assert(blended_scored_list(*state, d, out@));
        assert(ranked_at_some_depth(*state, out@));
    }
    Some(out)
}

}
