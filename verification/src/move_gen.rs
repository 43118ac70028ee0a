//! Legal-move generation: the exact list of moves offered to the side to
//! move, in a fixed order (capturing moves first in the ordinary phase),
//! with a discard per held card when nothing can move.

use vstd::prelude::*;

use crate::cards::card_moves;
use crate::cards::is_wind_card;
use crate::cards::wind_card;
use crate::models::Board;
use crate::models::Card;
use crate::models::Move;
use crate::models::Ninja;
use crate::models::Player;
use crate::models::Point;
use crate::rules::is_king_square;
use crate::rules::is_opponent_piece;
use crate::rules::is_player_ninja;
use crate::rules::is_player_piece;
use crate::rules::moving_king;
use crate::rules::moving_wind_spirit;
use crate::rules::normal_dst_ok;
use crate::rules::offset_matches;
use crate::rules::oriented_x;
use crate::rules::oriented_y;
use crate::rules::player_hand_of;
use crate::rules::player_king_of;
use crate::rules::player_ninjas_of;
use crate::rules::player_pawns_of;

verus! {

// ---------------------------------------------------------------------
// Generation, offset by offset
// ---------------------------------------------------------------------

/// The square offset `o` leads to from `src`, as integers (so that no
/// wrap-around is ever involved).
pub open spec fn dest_x(b: Board, src: Point, o: Point) -> int {
    src.x as int + oriented_x(b.turn, o)
}

/// The y coordinate `o` leads to from `src`.
pub open spec fn dest_y(b: Board, src: Point, o: Point) -> int {
    src.y as int + oriented_y(b.turn, o)
}

/// The ordinary-phase moves one offset contributes: one move when the
/// destination is on the board and admissible, none otherwise.
pub open spec fn emit_normal(b: Board, card: Card, src: Point, o: Point) -> Seq<Move> {
    let nx = dest_x(b, src, o);
    let ny = dest_y(b, src, o);
    let d = Point { x: nx as i8, y: ny as i8 };
    if 0 <= nx <= 4 && 0 <= ny <= 4 && normal_dst_ok(b, src, d) {
        seq![Move::Move { card, src, dst: d, reveal_ninja: false }]
    } else {
        seq![]
    }
}

/// The ordinary-phase moves of the first `n` offsets of the card, in
/// offset order.
pub open spec fn gen_normal_offsets(b: Board, card: Card, src: Point, n: int) -> Seq<Move>
    decreases n,
{
    if n <= 0 {
        seq![]
    } else {
        gen_normal_offsets(b, card, src, n - 1) + emit_normal(
            b,
            card,
            src,
            card_moves(card, moving_king(b, src), false)[n - 1],
        )
    }
}

/// The ordinary-phase moves of one piece with one card: none at all for
/// a ninja in a shadow game or for the Wind Spirit with a Way of the
/// Wind card.
pub open spec fn gen_normal_src(b: Board, card: Card, src: Point) -> Seq<Move> {
    if (b.shadow_mode && is_player_ninja(b, src)) || (moving_wind_spirit(b, src) && is_wind_card(
        card,
    )) {
        seq![]
    } else {
        gen_normal_offsets(b, card, src, card_moves(card, moving_king(b, src), false).len() as int)
    }
}

/// The contribution of one optional piece slot.
pub open spec fn gen_normal_opt(b: Board, card: Card, o: Option<Point>) -> Seq<Move> {
    match o {
        None => seq![],
        Some(src) => gen_normal_src(b, card, src),
    }
}

/// The square an optional ninja slot occupies.
pub open spec fn ninja_square(o: Option<Ninja>) -> Option<Point> {
    match o {
        None => None,
        Some(n) => Some(n.pos),
    }
}

/// The ordinary-phase moves of one held card over every piece, in the
/// fixed slot order: king, pawns, ninjas, Wind Spirit.
pub open spec fn gen_normal_card(b: Board, card: Card) -> Seq<Move> {
    gen_normal_opt(b, card, player_king_of(b)) + gen_normal_opt(b, card, player_pawns_of(b)[0])
        + gen_normal_opt(b, card, player_pawns_of(b)[1]) + gen_normal_opt(
        b,
        card,
        player_pawns_of(b)[2],
    ) + gen_normal_opt(b, card, player_pawns_of(b)[3]) + gen_normal_opt(
        b,
        card,
        ninja_square(player_ninjas_of(b)[0]),
    ) + gen_normal_opt(b, card, ninja_square(player_ninjas_of(b)[1])) + gen_normal_opt(
        b,
        card,
        b.wind_spirit,
    )
}

/// Every ordinary-phase move, first card first.
pub open spec fn gen_normal(b: Board) -> Seq<Move> {
    gen_normal_card(b, player_hand_of(b)[0]) + gen_normal_card(b, player_hand_of(b)[1])
}

// ---------------------------------------------------------------------
// The two pending phases
// ---------------------------------------------------------------------

/// The forced-ninja moves one offset contributes.
pub open spec fn emit_ninja(b: Board, card: Card, src: Point, o: Point) -> Seq<Move> {
    let nx = dest_x(b, src, o);
    let ny = dest_y(b, src, o);
    let d = Point { x: nx as i8, y: ny as i8 };
    if 0 <= nx <= 4 && 0 <= ny <= 4 && !is_player_piece(b, d) {
        seq![Move::Move { card, src, dst: d, reveal_ninja: false }]
    } else {
        seq![]
    }
}

/// The forced-ninja moves of the first `n` offsets of the pending card.
pub open spec fn gen_ninja_offsets(b: Board, card: Card, src: Point, n: int) -> Seq<Move>
    decreases n,
{
    if n <= 0 {
        seq![]
    } else {
        gen_ninja_offsets(b, card, src, n - 1) + emit_ninja(
            b,
            card,
            src,
            card_moves(card, false, false)[n - 1],
        )
    }
}

/// The forced-ninja moves of one piece slot: only ninjas contribute.
pub open spec fn gen_ninja_src(b: Board, card: Card, src: Point) -> Seq<Move> {
    if !is_player_ninja(b, src) {
        seq![]
    } else {
        gen_ninja_offsets(b, card, src, card_moves(card, false, false).len() as int)
    }
}

/// The contribution of one optional piece slot to the forced-ninja
/// phase.
pub open spec fn gen_ninja_opt(b: Board, card: Card, o: Option<Point>) -> Seq<Move> {
    match o {
        None => seq![],
        Some(src) => gen_ninja_src(b, card, src),
    }
}

/// Every forced-ninja move, over the piece slots in the fixed order.
pub open spec fn gen_ninja(b: Board) -> Seq<Move> {
    match b.ninja_move_card {
        None => seq![],
        Some(card) => gen_ninja_opt(b, card, player_king_of(b)) + gen_ninja_opt(
            b,
            card,
            player_pawns_of(b)[0],
        ) + gen_ninja_opt(b, card, player_pawns_of(b)[1]) + gen_ninja_opt(
            b,
            card,
            player_pawns_of(b)[2],
        ) + gen_ninja_opt(b, card, player_pawns_of(b)[3]) + gen_ninja_opt(
            b,
            card,
            ninja_square(player_ninjas_of(b)[0]),
        ) + gen_ninja_opt(b, card, ninja_square(player_ninjas_of(b)[1])) + gen_ninja_opt(
            b,
            card,
            b.wind_spirit,
        ),
    }
}

/// The Wind Spirit sub-moves one offset contributes: generation only
/// offers free squares, so a boxed-in spirit yields nothing here even
/// when the can-move query would still report a (swap) destination.
pub open spec fn emit_wind(b: Board, card: Card, src: Point, o: Point) -> Seq<Move> {
    let nx = dest_x(b, src, o);
    let ny = dest_y(b, src, o);
    let d = Point { x: nx as i8, y: ny as i8 };
    if 0 <= nx <= 4 && 0 <= ny <= 4 && !is_player_piece(b, d) && !is_king_square(b, d) {
        seq![Move::Move { card, src, dst: d, reveal_ninja: false }]
    } else {
        seq![]
    }
}

/// The Wind Spirit sub-moves of the first `n` wind offsets.
pub open spec fn gen_wind_offsets(b: Board, card: Card, src: Point, n: int) -> Seq<Move>
    decreases n,
{
    if n <= 0 {
        seq![]
    } else {
        gen_wind_offsets(b, card, src, n - 1) + emit_wind(
            b,
            card,
            src,
            card_moves(card, false, true)[n - 1],
        )
    }
}

/// Every pending Wind Spirit sub-move.
pub open spec fn gen_wind(b: Board) -> Seq<Move> {
    match (b.wind_spirit, b.wind_move_card) {
        (Some(ws), Some(card)) => gen_wind_offsets(
            b,
            card,
            ws,
            card_moves(card, false, true).len() as int,
        ),
        _ => seq![],
    }
}

// ---------------------------------------------------------------------
// The offered list
// ---------------------------------------------------------------------

/// Every piece move the current phase offers, before ordering.
pub open spec fn gen_all(b: Board) -> Seq<Move> {
    if b.ninja_move_pending {
        gen_ninja(b)
    } else if b.wind_move_pending {
        gen_wind(b)
    } else {
        gen_normal(b)
    }
}

/// Whether a move is listed first: capturing moves (and discards) come
/// before quiet moves.
pub open spec fn is_priority_move(b: Board, m: Move) -> bool {
    match m {
        Move::Move { dst, .. } => is_opponent_piece(b, dst),
        Move::Discard { .. } => true,
    }
}

/// The exact list `Board::legal_moves` returns: the phase's generated
/// moves, capturing moves first in the ordinary phase, and one discard
/// per held card when the ordinary phase offers no move at all.
#[verifier::opaque]
pub open spec fn spec_legal_moves(b: Board) -> Seq<Move> {
    if b.ninja_move_pending || b.wind_move_pending {
        gen_all(b)
    } else {
        let g = gen_all(b);
        if g.len() > 0 {
            g.filter(|m: Move| is_priority_move(b, m)) + g.filter(
                |m: Move| !is_priority_move(b, m),
            )
        } else {
            seq![
                Move::Discard { card: player_hand_of(b)[0] },
                Move::Discard { card: player_hand_of(b)[1] },
            ]
        }
    }
}

// ---------------------------------------------------------------------
// Executable generation
// ---------------------------------------------------------------------

broadcast use vstd::seq_lib::group_seq_lib_default;

/// Filtering a one-element sequence keeps or drops its element.
proof fn lemma_filter_one(m: Move, p: spec_fn(Move) -> bool)
    ensures
        seq![m].filter(p) == if p(m) {
            seq![m]
        } else {
            Seq::<Move>::empty()
        },
{
    reveal_with_fuel(Seq::filter, 2);
    assert(seq![m].drop_last() =~= Seq::<Move>::empty());
    if p(m) {
        assert(seq![m].filter(p) =~= seq![m]);
    } else {
        assert(seq![m].filter(p) =~= Seq::<Move>::empty());
    }
}

impl Board {
    /// Push the ordinary-phase moves of one piece with one card.
    fn push_normal_src(&self, mv: &mut Vec<Move>, card: Card, src: Point)
        ensures
            final(mv)@ == old(mv)@ + gen_normal_src(*self, card, src),
    {
        if self.shadow_mode && self.is_ninja(src) {
            return ;
        }
        if crate::board::opt_eq(self.wind_spirit, src) && wind_card(card) {
            return ;
        }
        let is_king = crate::board::opt_eq(self.player_king(), src);
        let tbl = card.moves(is_king, false);
        let ghost base = mv@;
        let mut i: usize = 0;
        while i < tbl.len()
            invariant
                tbl@ == card_moves(card, moving_king(*self, src), false),
                i <= tbl@.len(),
                mv@ == base + gen_normal_offsets(*self, card, src, i as int),
            decreases tbl@.len() - i,
        {
            let o = tbl[i];
            let tx: i16;
            let ty: i16;
            match self.turn {
                Player::Red => {
                    tx = o.x as i16;
                    ty = o.y as i16;
                },
                Player::Blue => {
                    tx = -(o.x as i16);
                    ty = -(o.y as i16);
                },
            }
            let nx = src.x as i16 + tx;
            let ny = src.y as i16 + ty;
            let mut pushed = false;
            if 0 <= nx && nx <= 4 && 0 <= ny && ny <= 4 {
                let d = Point { x: nx as i8, y: ny as i8 };
                if !crate::board::opt_eq(self.wind_spirit, d) && (!self.piece_at(d)
                    || crate::board::opt_eq(self.wind_spirit, src)) && !(crate::board::opt_eq(
                    self.wind_spirit,
                    src,
                ) && self.king_square(d)) {
                    mv.push(Move::Move { card, src, dst: d, reveal_ninja: false });
                    pushed = true;
                }
            }
            proof {
                assert(nx as int == dest_x(*self, src, tbl@[i as int]));
                assert(ny as int == dest_y(*self, src, tbl@[i as int]));
                if pushed {
                    assert(emit_normal(*self, card, src, tbl@[i as int]).len() == 1);
                } else {
                    assert(emit_normal(*self, card, src, tbl@[i as int]).len() == 0);
                }
                assert(mv@ =~= base + gen_normal_offsets(*self, card, src, i as int + 1));
            }
            i += 1;
        }
    }

    /// Push the ordinary-phase moves of one held card over every piece.
    #[verifier::rlimit(40)]
    fn push_normal_card(&self, mv: &mut Vec<Move>, card: Card)
        ensures
            final(mv)@ == old(mv)@ + gen_normal_card(*self, card),
    {
        let ghost base = mv@;
        let ghost mut acc: Seq<Move> = Seq::<Move>::empty();
        let ps = self.player_pawns();
        let ns = self.player_ninjas();
        if let Some(src) = self.player_king() {
            self.push_normal_src(mv, card, src);
        }
        proof {
            let piece = gen_normal_opt(*self, card, player_king_of(*self));
            vstd::seq_lib::lemma_concat_associative(base, acc, piece);
            acc = acc + piece;
            assert(mv@ == base + acc);
        }
        if let Some(src) = ps[0] {
            self.push_normal_src(mv, card, src);
        }
        proof {
            let piece = gen_normal_opt(*self, card, player_pawns_of(*self)[0]);
            vstd::seq_lib::lemma_concat_associative(base, acc, piece);
            acc = acc + piece;
            assert(mv@ == base + acc);
        }
        if let Some(src) = ps[1] {
            self.push_normal_src(mv, card, src);
        }
        proof {
            let piece = gen_normal_opt(*self, card, player_pawns_of(*self)[1]);
            vstd::seq_lib::lemma_concat_associative(base, acc, piece);
            acc = acc + piece;
            assert(mv@ == base + acc);
        }
        if let Some(src) = ps[2] {
            self.push_normal_src(mv, card, src);
        }
        proof {
            let piece = gen_normal_opt(*self, card, player_pawns_of(*self)[2]);
            vstd::seq_lib::lemma_concat_associative(base, acc, piece);
            acc = acc + piece;
            assert(mv@ == base + acc);
        }
        if let Some(src) = ps[3] {
            self.push_normal_src(mv, card, src);
        }
        proof {
            let piece = gen_normal_opt(*self, card, player_pawns_of(*self)[3]);
            vstd::seq_lib::lemma_concat_associative(base, acc, piece);
            acc = acc + piece;
            assert(mv@ == base + acc);
        }
        if let Some(n) = ns[0] {
            self.push_normal_src(mv, card, n.pos);
        }
        proof {
            let piece = gen_normal_opt(*self, card, ninja_square(player_ninjas_of(*self)[0]));
            vstd::seq_lib::lemma_concat_associative(base, acc, piece);
            acc = acc + piece;
            assert(mv@ == base + acc);
        }
        if let Some(n) = ns[1] {
            self.push_normal_src(mv, card, n.pos);
        }
        proof {
            let piece = gen_normal_opt(*self, card, ninja_square(player_ninjas_of(*self)[1]));
            vstd::seq_lib::lemma_concat_associative(base, acc, piece);
            acc = acc + piece;
            assert(mv@ == base + acc);
        }
        if let Some(src) = self.wind_spirit {
            self.push_normal_src(mv, card, src);
        }
        proof {
            let piece = gen_normal_opt(*self, card, self.wind_spirit);
            vstd::seq_lib::lemma_concat_associative(base, acc, piece);
            acc = acc + piece;
            assert(mv@ == base + acc);
        }
        proof {
            assert(acc == gen_normal_card(*self, card));
        }
    }

    /// Push the forced-ninja moves of one piece slot.
    fn push_ninja_src(&self, mv: &mut Vec<Move>, card: Card, src: Point)
        requires
            self.ninja_move_card == Some(card),
        ensures
            final(mv)@ == old(mv)@ + gen_ninja_src(*self, card, src),
    {
        if !self.is_ninja(src) {
            return ;
        }
        let tbl = card.moves(false, false);
        let ghost base = mv@;
        let mut i: usize = 0;
        while i < tbl.len()
            invariant
                tbl@ == card_moves(card, false, false),
                i <= tbl@.len(),
                mv@ == base + gen_ninja_offsets(*self, card, src, i as int),
            decreases tbl@.len() - i,
        {
            let o = tbl[i];
            let tx: i16;
            let ty: i16;
            match self.turn {
                Player::Red => {
                    tx = o.x as i16;
                    ty = o.y as i16;
                },
                Player::Blue => {
                    tx = -(o.x as i16);
                    ty = -(o.y as i16);
                },
            }
            let nx = src.x as i16 + tx;
            let ny = src.y as i16 + ty;
            let mut pushed = false;
            if 0 <= nx && nx <= 4 && 0 <= ny && ny <= 4 {
                let d = Point { x: nx as i8, y: ny as i8 };
                if !self.piece_at(d) {
                    mv.push(Move::Move { card, src, dst: d, reveal_ninja: false });
                    pushed = true;
                }
            }
            proof {
                assert(nx as int == dest_x(*self, src, tbl@[i as int]));
                assert(ny as int == dest_y(*self, src, tbl@[i as int]));
                if pushed {
                    assert(emit_ninja(*self, card, src, tbl@[i as int]).len() == 1);
                } else {
                    assert(emit_ninja(*self, card, src, tbl@[i as int]).len() == 0);
                }
                assert(mv@ =~= base + gen_ninja_offsets(*self, card, src, i as int + 1));
            }
            i += 1;
        }
    }

    /// The full forced-ninja move list.
    #[verifier::rlimit(40)]
    fn gen_ninja_exec(&self) -> (r: Vec<Move>)
        ensures
            r@ == gen_ninja(*self),
    {
        let mut mv: Vec<Move> = Vec::new();
        let card = match self.ninja_move_card {
            None => {
                return mv;
            },
            Some(card) => card,
        };
        let ghost base = mv@;
        let ghost mut acc: Seq<Move> = Seq::<Move>::empty();
        let ps = self.player_pawns();
        let ns = self.player_ninjas();
        if let Some(src) = self.player_king() {
            self.push_ninja_src(&mut mv, card, src);
        }
        proof {
            let piece = gen_ninja_opt(*self, card, player_king_of(*self));
            vstd::seq_lib::lemma_concat_associative(base, acc, piece);
            acc = acc + piece;
            assert(mv@ == base + acc);
        }
        if let Some(src) = ps[0] {
            self.push_ninja_src(&mut mv, card, src);
        }
        proof {
            let piece = gen_ninja_opt(*self, card, player_pawns_of(*self)[0]);
            vstd::seq_lib::lemma_concat_associative(base, acc, piece);
            acc = acc + piece;
            assert(mv@ == base + acc);
        }
        if let Some(src) = ps[1] {
            self.push_ninja_src(&mut mv, card, src);
        }
        proof {
            let piece = gen_ninja_opt(*self, card, player_pawns_of(*self)[1]);
            vstd::seq_lib::lemma_concat_associative(base, acc, piece);
            acc = acc + piece;
            assert(mv@ == base + acc);
        }
        if let Some(src) = ps[2] {
            self.push_ninja_src(&mut mv, card, src);
        }
        proof {
            let piece = gen_ninja_opt(*self, card, player_pawns_of(*self)[2]);
            vstd::seq_lib::lemma_concat_associative(base, acc, piece);
            acc = acc + piece;
            assert(mv@ == base + acc);
        }
        if let Some(src) = ps[3] {
            self.push_ninja_src(&mut mv, card, src);
        }
        proof {
            let piece = gen_ninja_opt(*self, card, player_pawns_of(*self)[3]);
            vstd::seq_lib::lemma_concat_associative(base, acc, piece);
            acc = acc + piece;
            assert(mv@ == base + acc);
        }
        if let Some(n) = ns[0] {
            self.push_ninja_src(&mut mv, card, n.pos);
        }
        proof {
            let piece = gen_ninja_opt(*self, card, ninja_square(player_ninjas_of(*self)[0]));
            vstd::seq_lib::lemma_concat_associative(base, acc, piece);
            acc = acc + piece;
            assert(mv@ == base + acc);
        }
        if let Some(n) = ns[1] {
            self.push_ninja_src(&mut mv, card, n.pos);
        }
        proof {
            let piece = gen_ninja_opt(*self, card, ninja_square(player_ninjas_of(*self)[1]));
            vstd::seq_lib::lemma_concat_associative(base, acc, piece);
            acc = acc + piece;
            assert(mv@ == base + acc);
        }
        if let Some(src) = self.wind_spirit {
            self.push_ninja_src(&mut mv, card, src);
        }
        proof {
            let piece = gen_ninja_opt(*self, card, self.wind_spirit);
            vstd::seq_lib::lemma_concat_associative(base, acc, piece);
            acc = acc + piece;
            assert(mv@ == base + acc);
        }
        proof {
            assert(acc == gen_ninja(*self));
        }
        mv
    }

    /// The full pending Wind Spirit sub-move list.
    fn gen_wind_exec(&self) -> (r: Vec<Move>)
        ensures
            r@ == gen_wind(*self),
    {
        let mut mv: Vec<Move> = Vec::new();
        let (ws, card) = match (self.wind_spirit, self.wind_move_card) {
            (Some(ws), Some(card)) => (ws, card),
            _ => {
                return mv;
            },
        };
        let tbl = card.moves(false, true);
        let mut i: usize = 0;
        while i < tbl.len()
            invariant
                tbl@ == card_moves(card, false, true),
                i <= tbl@.len(),
                self.wind_spirit == Some(ws),
                self.wind_move_card == Some(card),
                mv@ == gen_wind_offsets(*self, card, ws, i as int),
            decreases tbl@.len() - i,
        {
            let o = tbl[i];
            let tx: i16;
            let ty: i16;
            match self.turn {
                Player::Red => {
                    tx = o.x as i16;
                    ty = o.y as i16;
                },
                Player::Blue => {
                    tx = -(o.x as i16);
                    ty = -(o.y as i16);
                },
            }
            let nx = ws.x as i16 + tx;
            let ny = ws.y as i16 + ty;
            let mut pushed = false;
            if 0 <= nx && nx <= 4 && 0 <= ny && ny <= 4 {
                let d = Point { x: nx as i8, y: ny as i8 };
                if !self.piece_at(d) && !self.king_square(d) {
                    mv.push(Move::Move { card, src: ws, dst: d, reveal_ninja: false });
                    pushed = true;
                }
            }
            proof {
                assert(nx as int == dest_x(*self, ws, tbl@[i as int]));
                assert(ny as int == dest_y(*self, ws, tbl@[i as int]));
                if pushed {
                    assert(emit_wind(*self, card, ws, tbl@[i as int]).len() == 1);
                } else {
                    assert(emit_wind(*self, card, ws, tbl@[i as int]).len() == 0);
                }
                assert(mv@ =~= gen_wind_offsets(*self, card, ws, i as int + 1));
            }
            i += 1;
        }
        mv
    }

    /// Every legal action for the side to move, in the order the
    /// specification fixes: the current phase's piece moves (capturing
    /// moves first in the ordinary phase), or one discard per held card
    /// when no ordinary move exists.
    #[verifier::rlimit(30)]
    pub fn legal_moves(&self) -> (r: Vec<Move>)
        ensures
            r@ == spec_legal_moves(*self),
    {
        proof {
            reveal(spec_legal_moves);
        }
        if self.ninja_move_pending {
            return self.gen_ninja_exec();
        }
        if self.wind_move_pending {
            return self.gen_wind_exec();
        }
        let mut mv: Vec<Move> = Vec::new();
        let hand = *self.player_hand();
        self.push_normal_card(&mut mv, hand[0]);
        self.push_normal_card(&mut mv, hand[1]);
        proof {
            assert(mv@ =~= gen_normal(*self));
        }
        if mv.len() == 0 {
            let mut discards: Vec<Move> = Vec::new();
            discards.push(Move::Discard { card: hand[0] });
            discards.push(Move::Discard { card: hand[1] });
            proof {
                assert(discards@ =~= spec_legal_moves(*self));
            }
            return discards;
        }
        let ghost g = mv@;
        let ghost prio = |m: Move| is_priority_move(*self, m);
        let mut caps: Vec<Move> = Vec::new();
        let mut rest: Vec<Move> = Vec::new();
        let mut i: usize = 0;
        while i < mv.len()
            invariant
                mv@ == g,
                i <= g.len(),
                caps@ == g.take(i as int).filter(|m: Move| is_priority_move(*self, m)),
                rest@ == g.take(i as int).filter(|m: Move| !is_priority_move(*self, m)),
            decreases g.len() - i,
        {
            let m = mv[i];
            let is_cap = match m {
                Move::Move { dst, .. } => self.opponent_piece_at(dst),
                Move::Discard { .. } => true,
            };
            proof {
                assert(is_cap == is_priority_move(*self, m));
                assert(g.take(i as int + 1) =~= g.take(i as int).push(g[i as int]));
                assert(g.take(i as int).push(g[i as int]) =~= g.take(i as int) + seq![
                    g.index(i as int),
                ]);
                lemma_filter_one(g[i as int], |m: Move| is_priority_move(*self, m));
                lemma_filter_one(g[i as int], |m: Move| !is_priority_move(*self, m));
            }
            if is_cap {
                caps.push(m);
            } else {
                rest.push(m);
            }
            proof {
                assert(caps@ =~= g.take(i as int + 1).filter(
                    |m: Move| is_priority_move(*self, m),
                ));
                assert(rest@ =~= g.take(i as int + 1).filter(
                    |m: Move| !is_priority_move(*self, m),
                ));
            }
            i += 1;
        }
        proof {
            assert(g.take(g.len() as int) =~= g);
        }
        let mut out = caps;
        out.append(&mut rest);
        proof {
            assert(out@ =~= spec_legal_moves(*self));
        }
        out
    }
}

// ---------------------------------------------------------------------
// What the generated lists contain
// ---------------------------------------------------------------------

/// Membership in a concatenation is membership in either part.
proof fn lemma_add_mem(a: Seq<Move>, b: Seq<Move>, m: Move)
    ensures
        (a + b).contains(m) <==> a.contains(m) || b.contains(m),
{
    if (a + b).contains(m) {
        let i = choose|i: int| 0 <= i < (a + b).len() && (a + b)[i] == m;
        if i < a.len() {
            assert(a[i] == m);
        } else {
            assert(b[i - a.len()] == m);
        }
    }
    if a.contains(m) {
        let i = choose|i: int| 0 <= i < a.len() && a[i] == m;
        assert((a + b)[i] == m);
    }
    if b.contains(m) {
        let i = choose|i: int| 0 <= i < b.len() && b[i] == m;
        assert((a + b)[a.len() + i] == m);
    }
}

/// An ordinary-phase entry: a piece move, offered concealed, that the
/// rules allow.
pub open spec fn is_normal_entry(b: Board, m: Move) -> bool {
    m matches Move::Move { card, src, dst, reveal_ninja } && !reveal_ninja
        && crate::rules::normal_move_legal(b, card, src, dst)
}

/// A forced-ninja entry.
pub open spec fn is_ninja_entry(b: Board, m: Move) -> bool {
    m matches Move::Move { card, src, dst, reveal_ninja } && !reveal_ninja
        && crate::rules::ninja_move_legal(b, card, src, dst)
}

/// A Wind Spirit sub-move entry.
pub open spec fn is_wind_entry(b: Board, m: Move) -> bool {
    m matches Move::Move { card, src, dst, reveal_ninja } && !reveal_ninja
        && crate::rules::wind_move_legal(b, card, src, dst)
}

/// What one card and one source contribute to the ordinary phase:
/// exactly the allowed destinations (the source's and hand's own
/// conditions aside, which the slot structure supplies).
proof fn lemma_gen_normal_offsets_mem(b: Board, card: Card, src: Point, n: int, m: Move)
    requires
        0 <= n <= card_moves(card, moving_king(b, src), false).len(),
    ensures
        gen_normal_offsets(b, card, src, n).contains(m) <==> exists|i: int|
            0 <= i < n && #[trigger] emit_normal(
                b,
                card,
                src,
                card_moves(card, moving_king(b, src), false)[i],
            ).contains(m),
    decreases n,
{
    if n > 0 {
        lemma_gen_normal_offsets_mem(b, card, src, n - 1, m);
        lemma_add_mem(
            gen_normal_offsets(b, card, src, n - 1),
            emit_normal(b, card, src, card_moves(card, moving_king(b, src), false)[n - 1]),
            m,
        );
    }
}

/// The moves one source square contributes with one card are exactly the
/// legal ordinary moves from it, given that the card is held and the
/// square holds a piece of the mover's.
proof fn lemma_gen_normal_src_mem(b: Board, card: Card, src: Point, m: Move)
    requires
        crate::rules::hand_has(player_hand_of(b), card),
        is_player_piece(b, src),
    ensures
        gen_normal_src(b, card, src).contains(m) <==> (m matches Move::Move {
            card: c2,
            src: s2,
            dst,
            reveal_ninja,
        } && c2 == card && s2 == src && !reveal_ninja && crate::rules::normal_move_legal(
            b,
            card,
            src,
            dst,
        )),
{
    let tbl = card_moves(card, moving_king(b, src), false);
    if (b.shadow_mode && is_player_ninja(b, src)) || (moving_wind_spirit(b, src) && is_wind_card(
        card,
    )) {
        assert(!gen_normal_src(b, card, src).contains(m));
    } else {
        lemma_gen_normal_offsets_mem(b, card, src, tbl.len() as int, m);
        if gen_normal_src(b, card, src).contains(m) {
            let i = choose|i: int|
                0 <= i < tbl.len() && #[trigger] emit_normal(b, card, src, tbl[i]).contains(m);
            let nx = dest_x(b, src, tbl[i]);
            let ny = dest_y(b, src, tbl[i]);
            let d = Point { x: nx as i8, y: ny as i8 };
            assert(0 <= nx <= 4 && 0 <= ny <= 4 && normal_dst_ok(b, src, d));
            assert(m == Move::Move { card, src, dst: d, reveal_ninja: false });
            assert(d.spec_in_bounds());
            assert(offset_matches(b.turn, src, d, tbl[i]));
            assert(crate::rules::card_reaches(card, moving_king(b, src), false, b.turn, src, d));
            assert(crate::rules::normal_move_legal(b, card, src, d));
        }
        if m matches Move::Move { card: c2, src: s2, dst, reveal_ninja } && c2 == card && s2 == src
            && !reveal_ninja && crate::rules::normal_move_legal(b, card, src, dst) {
            let dst = m->Move_dst;
            let i = choose|i: int|
                0 <= i < tbl.len() && offset_matches(b.turn, src, dst, #[trigger] tbl[i]);
            let nx = dest_x(b, src, tbl[i]);
            let ny = dest_y(b, src, tbl[i]);
            assert(nx == dst.x as int);
            assert(ny == dst.y as int);
            assert((Point { x: nx as i8, y: ny as i8 }) == dst);
            assert(emit_normal(b, card, src, tbl[i]) == seq![m]);
            assert(emit_normal(b, card, src, tbl[i])[0] == m);
            assert(emit_normal(b, card, src, card_moves(card, moving_king(b, src), false)[i])
                .contains(m));
        }
    }
}

/// One optional slot contributes exactly the legal moves from its
/// square.
proof fn lemma_gen_normal_opt_mem(b: Board, card: Card, o: Option<Point>, m: Move)
    requires
        crate::rules::hand_has(player_hand_of(b), card),
        o matches Some(p) ==> is_player_piece(b, p),
    ensures
        gen_normal_opt(b, card, o).contains(m) <==> (o matches Some(src) && (m matches Move::Move {
            card: c2,
            src: s2,
            dst,
            reveal_ninja,
        } && c2 == card && s2 == src && !reveal_ninja && crate::rules::normal_move_legal(
            b,
            card,
            src,
            dst,
        ))),
{
    match o {
        None => {},
        Some(src) => {
            lemma_gen_normal_src_mem(b, card, src, m);
        },
    }
}

/// One held card contributes exactly the legal ordinary moves that play
/// it.
proof fn lemma_gen_normal_card_mem(b: Board, card: Card, m: Move)
    requires
        crate::rules::hand_has(player_hand_of(b), card),
    ensures
        gen_normal_card(b, card).contains(m) <==> (m matches Move::Move {
            card: c2,
            src,
            dst,
            reveal_ninja,
        } && c2 == card && !reveal_ninja && crate::rules::normal_move_legal(b, card, src, dst)),
{
    let s0 = gen_normal_opt(b, card, player_king_of(b));
    let s1 = gen_normal_opt(b, card, player_pawns_of(b)[0]);
    let s2 = gen_normal_opt(b, card, player_pawns_of(b)[1]);
    let s3 = gen_normal_opt(b, card, player_pawns_of(b)[2]);
    let s4 = gen_normal_opt(b, card, player_pawns_of(b)[3]);
    let s5 = gen_normal_opt(b, card, ninja_square(player_ninjas_of(b)[0]));
    let s6 = gen_normal_opt(b, card, ninja_square(player_ninjas_of(b)[1]));
    let s7 = gen_normal_opt(b, card, b.wind_spirit);
    lemma_add_mem(s0, s1, m);
    lemma_add_mem(s0 + s1, s2, m);
    lemma_add_mem(s0 + s1 + s2, s3, m);
    lemma_add_mem(s0 + s1 + s2 + s3, s4, m);
    lemma_add_mem(s0 + s1 + s2 + s3 + s4, s5, m);
    lemma_add_mem(s0 + s1 + s2 + s3 + s4 + s5, s6, m);
    lemma_add_mem(s0 + s1 + s2 + s3 + s4 + s5 + s6, s7, m);
    lemma_gen_normal_opt_mem(b, card, player_king_of(b), m);
    lemma_gen_normal_opt_mem(b, card, player_pawns_of(b)[0], m);
    lemma_gen_normal_opt_mem(b, card, player_pawns_of(b)[1], m);
    lemma_gen_normal_opt_mem(b, card, player_pawns_of(b)[2], m);
    lemma_gen_normal_opt_mem(b, card, player_pawns_of(b)[3], m);
    lemma_gen_normal_opt_mem(b, card, ninja_square(player_ninjas_of(b)[0]), m);
    lemma_gen_normal_opt_mem(b, card, ninja_square(player_ninjas_of(b)[1]), m);
    lemma_gen_normal_opt_mem(b, card, b.wind_spirit, m);
    if m matches Move::Move { card: c2, src, dst, reveal_ninja } && c2 == card && !reveal_ninja
        && crate::rules::normal_move_legal(b, card, src, dst) {
        let src = m->Move_src;
        assert(is_player_piece(b, src));
        if player_king_of(b) == Some(src) {
            assert(s0.contains(m));
        } else if player_pawns_of(b)[0] == Some(src) {
            assert(s1.contains(m));
        } else if player_pawns_of(b)[1] == Some(src) {
            assert(s2.contains(m));
        } else if player_pawns_of(b)[2] == Some(src) {
            assert(s3.contains(m));
        } else if player_pawns_of(b)[3] == Some(src) {
            assert(s4.contains(m));
        } else if crate::rules::slot_is_at(player_ninjas_of(b)[0], src) {
            assert(s5.contains(m));
        } else if crate::rules::slot_is_at(player_ninjas_of(b)[1], src) {
            assert(s6.contains(m));
        } else {
            assert(b.wind_spirit == Some(src));
            assert(s7.contains(m));
        }
    }
}

/// The ordinary phase generates exactly the legal ordinary moves,
/// offered concealed.
pub proof fn lemma_gen_normal_mem(b: Board, m: Move)
    ensures
        gen_normal(b).contains(m) <==> is_normal_entry(b, m),
{
    let h0 = player_hand_of(b)[0];
    let h1 = player_hand_of(b)[1];
    lemma_add_mem(gen_normal_card(b, h0), gen_normal_card(b, h1), m);
    lemma_gen_normal_card_mem(b, h0, m);
    lemma_gen_normal_card_mem(b, h1, m);
    if is_normal_entry(b, m) {
        assert(crate::rules::hand_has(player_hand_of(b), m->Move_card));
    }
}


/// What one slot contributes to the forced-ninja phase.
proof fn lemma_gen_ninja_offsets_mem(b: Board, card: Card, src: Point, n: int, m: Move)
    requires
        0 <= n <= card_moves(card, false, false).len(),
    ensures
        gen_ninja_offsets(b, card, src, n).contains(m) <==> exists|i: int|
            0 <= i < n && #[trigger] emit_ninja(
                b,
                card,
                src,
                card_moves(card, false, false)[i],
            ).contains(m),
    decreases n,
{
    if n > 0 {
        lemma_gen_ninja_offsets_mem(b, card, src, n - 1, m);
        lemma_add_mem(
            gen_ninja_offsets(b, card, src, n - 1),
            emit_ninja(b, card, src, card_moves(card, false, false)[n - 1]),
            m,
        );
    }
}

/// The moves one source contributes to the forced-ninja phase are
/// exactly the legal ninja sub-moves from it.
proof fn lemma_gen_ninja_src_mem(b: Board, card: Card, src: Point, m: Move)
    requires
        b.ninja_move_card == Some(card),
    ensures
        gen_ninja_src(b, card, src).contains(m) <==> (m matches Move::Move {
            card: c2,
            src: s2,
            dst,
            reveal_ninja,
        } && c2 == card && s2 == src && !reveal_ninja && crate::rules::ninja_move_legal(
            b,
            card,
            src,
            dst,
        )),
{
    let tbl = card_moves(card, false, false);
    if !is_player_ninja(b, src) {
        assert(!gen_ninja_src(b, card, src).contains(m));
    } else {
        lemma_gen_ninja_offsets_mem(b, card, src, tbl.len() as int, m);
        if gen_ninja_src(b, card, src).contains(m) {
            let i = choose|i: int|
                0 <= i < tbl.len() && #[trigger] emit_ninja(b, card, src, tbl[i]).contains(m);
            let nx = dest_x(b, src, tbl[i]);
            let ny = dest_y(b, src, tbl[i]);
            let d = Point { x: nx as i8, y: ny as i8 };
            assert(0 <= nx <= 4 && 0 <= ny <= 4 && !is_player_piece(b, d));
            assert(m == Move::Move { card, src, dst: d, reveal_ninja: false });
            assert(d.spec_in_bounds());
            assert(offset_matches(b.turn, src, d, tbl[i]));
            assert(crate::rules::card_reaches(card, false, false, b.turn, src, d));
            assert(crate::rules::ninja_move_legal(b, card, src, d));
        }
        if m matches Move::Move { card: c2, src: s2, dst, reveal_ninja } && c2 == card && s2 == src
            && !reveal_ninja && crate::rules::ninja_move_legal(b, card, src, dst) {
            let dst = m->Move_dst;
            let i = choose|i: int|
                0 <= i < tbl.len() && offset_matches(b.turn, src, dst, #[trigger] tbl[i]);
            let nx = dest_x(b, src, tbl[i]);
            let ny = dest_y(b, src, tbl[i]);
            assert(nx == dst.x as int);
            assert(ny == dst.y as int);
            assert((Point { x: nx as i8, y: ny as i8 }) == dst);
            assert(emit_ninja(b, card, src, tbl[i]) == seq![m]);
            assert(emit_ninja(b, card, src, tbl[i])[0] == m);
            assert(emit_ninja(b, card, src, card_moves(card, false, false)[i]).contains(m));
        }
    }
}

/// One optional slot's contribution to the forced-ninja phase.
proof fn lemma_gen_ninja_opt_mem(b: Board, card: Card, o: Option<Point>, m: Move)
    requires
        b.ninja_move_card == Some(card),
    ensures
        gen_ninja_opt(b, card, o).contains(m) <==> (o matches Some(src) && (m matches Move::Move {
            card: c2,
            src: s2,
            dst,
            reveal_ninja,
        } && c2 == card && s2 == src && !reveal_ninja && crate::rules::ninja_move_legal(
            b,
            card,
            src,
            dst,
        ))),
{
    match o {
        None => {},
        Some(src) => {
            lemma_gen_ninja_src_mem(b, card, src, m);
        },
    }
}

/// The forced-ninja phase generates exactly the legal ninja sub-moves,
/// offered concealed.
pub proof fn lemma_gen_ninja_mem(b: Board, m: Move)
    ensures
        gen_ninja(b).contains(m) <==> is_ninja_entry(b, m),
{
    match b.ninja_move_card {
        None => {
            if is_ninja_entry(b, m) {
                assert(false);
            }
        },
        Some(card) => {
            let s0 = gen_ninja_opt(b, card, player_king_of(b));
            let s1 = gen_ninja_opt(b, card, player_pawns_of(b)[0]);
            let s2 = gen_ninja_opt(b, card, player_pawns_of(b)[1]);
            let s3 = gen_ninja_opt(b, card, player_pawns_of(b)[2]);
            let s4 = gen_ninja_opt(b, card, player_pawns_of(b)[3]);
            let s5 = gen_ninja_opt(b, card, ninja_square(player_ninjas_of(b)[0]));
            let s6 = gen_ninja_opt(b, card, ninja_square(player_ninjas_of(b)[1]));
            let s7 = gen_ninja_opt(b, card, b.wind_spirit);
            lemma_add_mem(s0, s1, m);
            lemma_add_mem(s0 + s1, s2, m);
            lemma_add_mem(s0 + s1 + s2, s3, m);
            lemma_add_mem(s0 + s1 + s2 + s3, s4, m);
            lemma_add_mem(s0 + s1 + s2 + s3 + s4, s5, m);
            lemma_add_mem(s0 + s1 + s2 + s3 + s4 + s5, s6, m);
            lemma_add_mem(s0 + s1 + s2 + s3 + s4 + s5 + s6, s7, m);
            lemma_gen_ninja_opt_mem(b, card, player_king_of(b), m);
            lemma_gen_ninja_opt_mem(b, card, player_pawns_of(b)[0], m);
            lemma_gen_ninja_opt_mem(b, card, player_pawns_of(b)[1], m);
            lemma_gen_ninja_opt_mem(b, card, player_pawns_of(b)[2], m);
            lemma_gen_ninja_opt_mem(b, card, player_pawns_of(b)[3], m);
            lemma_gen_ninja_opt_mem(b, card, ninja_square(player_ninjas_of(b)[0]), m);
            lemma_gen_ninja_opt_mem(b, card, ninja_square(player_ninjas_of(b)[1]), m);
            lemma_gen_ninja_opt_mem(b, card, b.wind_spirit, m);
            if is_ninja_entry(b, m) {
                let src = m->Move_src;
                assert(crate::rules::is_player_ninja(b, src));
                if crate::rules::slot_is_at(player_ninjas_of(b)[0], src) {
                    assert(s5.contains(m));
                } else {
                    assert(crate::rules::slot_is_at(player_ninjas_of(b)[1], src));
                    assert(s6.contains(m));
                }
            }
        },
    }
}

/// The pending Wind Spirit phase generates exactly the legal wind
/// sub-moves.
pub proof fn lemma_gen_wind_mem(b: Board, m: Move)
    ensures
        gen_wind(b).contains(m) <==> is_wind_entry(b, m),
{
    match (b.wind_spirit, b.wind_move_card) {
        (Some(ws), Some(card)) => {
            let tbl = card_moves(card, false, true);
            lemma_gen_wind_offsets_mem(b, card, ws, tbl.len() as int, m);
            if gen_wind(b).contains(m) {
                let i = choose|i: int|
                    0 <= i < tbl.len() && #[trigger] emit_wind(b, card, ws, tbl[i]).contains(m);
                let nx = dest_x(b, ws, tbl[i]);
                let ny = dest_y(b, ws, tbl[i]);
                let d = Point { x: nx as i8, y: ny as i8 };
                assert(m == Move::Move { card, src: ws, dst: d, reveal_ninja: false });
                assert(d.spec_in_bounds());
                assert(offset_matches(b.turn, ws, d, tbl[i]));
                assert(crate::rules::card_reaches(card, false, true, b.turn, ws, d));
                assert(crate::rules::wind_move_legal(b, card, ws, d));
            }
            if is_wind_entry(b, m) {
                let card2 = m->Move_card;
                let src = m->Move_src;
                let dst = m->Move_dst;
                assert(card2 == card && src == ws);
                let i = choose|i: int|
                    0 <= i < tbl.len() && offset_matches(b.turn, ws, dst, #[trigger] tbl[i]);
                let nx = dest_x(b, ws, tbl[i]);
                let ny = dest_y(b, ws, tbl[i]);
                assert(nx == dst.x as int);
                assert(ny == dst.y as int);
                assert((Point { x: nx as i8, y: ny as i8 }) == dst);
                assert(emit_wind(b, card, ws, tbl[i]) == seq![m]);
                assert(emit_wind(b, card, ws, tbl[i])[0] == m);
                assert(emit_wind(b, card, ws, card_moves(card, false, true)[i]).contains(m));
            }
        },
        _ => {
            if is_wind_entry(b, m) {
                assert(false);
            }
        },
    }
}

/// What the first `n` wind offsets contribute.
proof fn lemma_gen_wind_offsets_mem(b: Board, card: Card, src: Point, n: int, m: Move)
    requires
        0 <= n <= card_moves(card, false, true).len(),
    ensures
        gen_wind_offsets(b, card, src, n).contains(m) <==> exists|i: int|
            0 <= i < n && #[trigger] emit_wind(
                b,
                card,
                src,
                card_moves(card, false, true)[i],
            ).contains(m),
    decreases n,
{
    if n > 0 {
        lemma_gen_wind_offsets_mem(b, card, src, n - 1, m);
        lemma_add_mem(
            gen_wind_offsets(b, card, src, n - 1),
            emit_wind(b, card, src, card_moves(card, false, true)[n - 1]),
            m,
        );
    }
}

/// Membership in the offered list, phase by phase: the legal entries of
/// the current phase, or the two discards when the ordinary phase is
/// empty.
pub proof fn lemma_legal_moves_mem(b: Board, m: Move)
    ensures
        b.ninja_move_pending ==> (spec_legal_moves(b).contains(m) <==> is_ninja_entry(b, m)),
        (!b.ninja_move_pending && b.wind_move_pending) ==> (spec_legal_moves(b).contains(m)
            <==> is_wind_entry(b, m)),
        (!b.ninja_move_pending && !b.wind_move_pending && gen_normal(b).len() > 0) ==> (
        spec_legal_moves(b).contains(m) <==> is_normal_entry(b, m)),
        (!b.ninja_move_pending && !b.wind_move_pending && gen_normal(b).len() == 0) ==> (
        spec_legal_moves(b).contains(m) <==> (m == Move::Discard {
            card: player_hand_of(b)[0],
        } || m == Move::Discard { card: player_hand_of(b)[1] })),
{
    reveal(spec_legal_moves);
    if b.ninja_move_pending {
        lemma_gen_ninja_mem(b, m);
    } else if b.wind_move_pending {
        lemma_gen_wind_mem(b, m);
    } else {
        let g = gen_all(b);
        lemma_gen_normal_mem(b, m);
        if g.len() > 0 {
            let p = |mm: Move| is_priority_move(b, mm);
            let q = |mm: Move| !is_priority_move(b, mm);
            lemma_add_mem(g.filter(p), g.filter(q), m);
            g.filter_lemma(p);
            g.filter_lemma(q);
            if g.filter(p).contains(m) {
                g.lemma_filter_contains_rev(p, m);
            }
            if g.filter(q).contains(m) {
                g.lemma_filter_contains_rev(q, m);
            }
            if g.contains(m) {
                let i = choose|i: int| 0 <= i < g.len() && g[i] == m;
                if is_priority_move(b, m) {
                    assert(g.filter(p).contains(m));
                } else {
                    assert(g.filter(q).contains(m));
                }
            }
        } else {
            if spec_legal_moves(b).contains(m) {
                let i = choose|i: int|
                    0 <= i < spec_legal_moves(b).len() && spec_legal_moves(b)[i] == m;
            }
            if m == (Move::Discard { card: player_hand_of(b)[0] }) {
                assert(spec_legal_moves(b)[0] == m);
            }
            if m == (Move::Discard { card: player_hand_of(b)[1] }) {
                assert(spec_legal_moves(b)[1] == m);
            }
        }
    }
}

/// The ordinary phase offers a move exactly when one is legal, which is
/// exactly when the can-move query answers yes.
pub proof fn lemma_gen_normal_nonempty_iff(b: Board)
    requires
        !b.ninja_move_pending,
        !b.wind_move_pending,
    ensures
        gen_normal(b).len() > 0 <==> crate::rules::spec_can_move(b),
{
    if gen_normal(b).len() > 0 {
        let m = gen_normal(b)[0];
        assert(gen_normal(b).contains(m));
        lemma_gen_normal_mem(b, m);
        assert(crate::rules::normal_move_legal(b, m->Move_card, m->Move_src, m->Move_dst));
    }
    if crate::rules::spec_can_move(b) {
        let (card, src, dst) = choose|card: Card, src: Point, dst: Point|
            #[trigger] crate::rules::normal_move_legal(b, card, src, dst);
        let m = Move::Move { card, src, dst, reveal_ninja: false };
        lemma_gen_normal_mem(b, m);
        assert(gen_normal(b).contains(m));
    }
}


impl Board {
    /// A uniformly drawn legal move that the validator confirms, if any
    /// move at all is offered. On a well-formed board the first draw
    /// already passes validation.
    pub fn random_legal_move(&self, rng: &mut rand::rngs::StdRng) -> (r: Option<Move>)
        ensures
            r matches Some(m) ==> spec_legal_moves(*self).contains(m) && crate::rules::move_ok(
                *self,
                m,
            ),
            self.wf() ==> (r is Some <==> spec_legal_moves(*self).len() > 0),
    {
        let mut moves = self.legal_moves();
        while moves.len() > 0
            invariant
                forall|i: int|
                    0 <= i < moves@.len() ==> spec_legal_moves(*self).contains(
                        #[trigger] moves@[i],
                    ),
                self.wf() ==> moves@.len() == spec_legal_moves(*self).len(),
            decreases moves@.len(),
        {
            let j = crate::rng::rand_below(rng, moves.len());
            let m = moves.remove(j);
            proof {
                reveal(crate::rules::move_ok);
                assert(spec_legal_moves(*self).contains(m));
                if self.wf() {
                    crate::laws::lemma_legal_moves_accepted(*self, m);
                }
            }
            if self.try_move(m).is_ok() {
                return Some(m);
            }
            proof {
                if self.wf() {
                    assert(false);
                }
            }
        }
        None
    }
}

}
