//! The executable rules engine: occupancy queries, the can-move query,
//! and move validation and application, each proved to return exactly
//! what the specification functions in `rules` say.

use vstd::prelude::*;

use crate::cards::card_moves;
use crate::cards::wind_card;
use crate::models::Board;
use crate::models::Card;
use crate::models::GameSquare;
use crate::models::GameState;
use crate::models::Move;
use crate::models::Ninja;
use crate::models::Player;
use crate::models::Point;
use crate::rules::card_reaches;
use crate::rules::enemy_ninja_hidden_at;
use crate::rules::enemy_ninjas_after;
use crate::rules::enemy_pawns_after;
use crate::rules::hand_has;
use crate::rules::has_player_ninja;
use crate::rules::has_remaining_pieces;
use crate::rules::hit_enemy_ninja;
use crate::rules::hit_enemy_pawn;
use crate::rules::hit_own_ninja;
use crate::rules::hit_own_pawn;
use crate::rules::is_king_square;
use crate::rules::is_opponent_piece;
use crate::rules::is_player_ninja;
use crate::rules::is_player_piece;
use crate::rules::mover_is_hidden_ninja;
use crate::rules::moving_king;
use crate::rules::moving_wind_spirit;
use crate::rules::ninja_at;
use crate::rules::ninja_card_after;
use crate::rules::ninja_move_legal;
use crate::rules::ninja_pending_after;
use crate::rules::ninja_phase_can_move;
use crate::rules::normal_move_legal;
use crate::rules::offset_matches;
use crate::rules::opponent_hand_of;
use crate::rules::opponent_king_of;
use crate::rules::opponent_ninjas_of;
use crate::rules::opponent_pawns_of;
use crate::rules::own_ninjas_after;
use crate::rules::own_pawns_after;
use crate::rules::pawn_at;
use crate::rules::player_hand_of;
use crate::rules::player_king_of;
use crate::rules::player_ninjas_of;
use crate::rules::player_pawns_of;
use crate::rules::replace_card_spec;
use crate::rules::spec_apply;
use crate::rules::spec_can_move;
use crate::rules::spec_captured;
use crate::rules::spec_discard_board;
use crate::rules::spec_enable_ninja;
use crate::rules::spec_enable_wind;
use crate::rules::spec_move_board;
use crate::rules::spec_try_move;
use crate::rules::spec_try_move_main;
use crate::rules::spec_try_wind_move;
use crate::rules::spec_wind_move_board;
use crate::rules::wind_phase_can_move;

verus! {

/// Whether an optional square is exactly `p`.
pub(crate) fn opt_eq(o: Option<Point>, p: Point) -> (r: bool)
    ensures
        r == (o == Some(p)),
{
    match o {
        Some(q) => q == p,
        None => false,
    }
}

/// Whether either card of a hand is `c`.
pub(crate) fn hand_contains(hand: &[Card; 2], c: Card) -> (r: bool)
    ensures
        r == hand_has(*hand, c),
{
    hand[0] == c || hand[1] == c
}

/// Whether any of four pawn slots sits on `p`.
pub(crate) fn pawn_at_exec(ps: &[Option<Point>; 4], p: Point) -> (r: bool)
    ensures
        r == pawn_at(*ps, p),
{
    opt_eq(ps[0], p) || opt_eq(ps[1], p) || opt_eq(ps[2], p) || opt_eq(ps[3], p)
}

/// Whether either ninja slot sits on `p`.
pub(crate) fn ninja_at_exec(ns: &[Option<Ninja>; 2], p: Point) -> (r: bool)
    ensures
        r == ninja_at(*ns, p),
{
    let a = match ns[0] {
        Some(n) => n.pos == p,
        None => false,
    };
    let b = match ns[1] {
        Some(n) => n.pos == p,
        None => false,
    };
    a || b
}

/// An owned copy of a literal error message.
fn msg(s: &str) -> (r: String)
    ensures
        r@ == s@,
{
    s.to_string()
}

/// A two-card hand with the played card replaced by the spare.
pub(crate) fn replace_card(hand: &[Card; 2], used: Card, spare: Card) -> (r: [Card; 2])
    ensures
        r == replace_card_spec(*hand, used, spare),
{
    [
        if hand[0] == used {
            spare
        } else {
            hand[0]
        },
        if hand[1] == used {
            spare
        } else {
            hand[1]
        },
    ]
}

impl Board {
    /// The hand of the side to move.
    pub fn player_hand(&self) -> (r: &[Card; 2])
        ensures
            *r == player_hand_of(*self),
    {
        match self.turn {
            Player::Red => &self.red_hand,
            Player::Blue => &self.blue_hand,
        }
    }

    /// The hand of the side not to move.
    pub fn opponent_hand(&self) -> (r: &[Card; 2])
        ensures
            *r == opponent_hand_of(*self),
    {
        match self.turn {
            Player::Red => &self.blue_hand,
            Player::Blue => &self.red_hand,
        }
    }

    /// The pawns of the side to move.
    pub fn player_pawns(&self) -> (r: [Option<Point>; 4])
        ensures
            r == player_pawns_of(*self),
    {
        match self.turn {
            Player::Red => self.red_pawns,
            Player::Blue => self.blue_pawns,
        }
    }

    /// The pawns of the side not to move.
    pub fn opponent_pawns(&self) -> (r: [Option<Point>; 4])
        ensures
            r == opponent_pawns_of(*self),
    {
        match self.turn {
            Player::Red => self.blue_pawns,
            Player::Blue => self.red_pawns,
        }
    }

    /// The ninjas of the side to move.
    pub fn player_ninjas(&self) -> (r: [Option<Ninja>; 2])
        ensures
            r == player_ninjas_of(*self),
    {
        match self.turn {
            Player::Red => self.red_ninjas,
            Player::Blue => self.blue_ninjas,
        }
    }

    /// The ninjas of the side not to move.
    pub fn opponent_ninjas(&self) -> (r: [Option<Ninja>; 2])
        ensures
            r == opponent_ninjas_of(*self),
    {
        match self.turn {
            Player::Red => self.blue_ninjas,
            Player::Blue => self.red_ninjas,
        }
    }

    /// The king of the side to move.
    pub fn player_king(&self) -> (r: Option<Point>)
        ensures
            r == player_king_of(*self),
    {
        match self.turn {
            Player::Red => self.red_king,
            Player::Blue => self.blue_king,
        }
    }

    /// The king of the side not to move.
    pub fn opponent_king(&self) -> (r: Option<Point>)
        ensures
            r == opponent_king_of(*self),
    {
        match self.turn {
            Player::Red => self.blue_king,
            Player::Blue => self.red_king,
        }
    }

    /// The Wind Spirit's square, if the spirit is on the board.
    pub fn wind_spirit(&self) -> (r: Option<Point>)
        ensures
            r == self.wind_spirit,
    {
        self.wind_spirit
    }

    /// Whether `src` holds a ninja of the side to move.
    pub fn is_ninja(&self, src: Point) -> (r: bool)
        ensures
            r == is_player_ninja(*self, src),
    {
        let ns = self.player_ninjas();
        ninja_at_exec(&ns, src)
    }

    /// Whether the side to move still has a ninja on the board.
    pub fn has_ninja(&self) -> (r: bool)
        ensures
            r == has_player_ninja(*self),
    {
        let ns = self.player_ninjas();
        match ns[0] {
            Some(_) => true,
            None => match ns[1] {
                Some(_) => true,
                None => false,
            },
        }
    }

    /// Whether `p` holds a piece of the side to move (the neutral Wind
    /// Spirit counts for both sides).
    pub(crate) fn piece_at(&self, p: Point) -> (r: bool)
        ensures
            r == is_player_piece(*self, p),
    {
        let ps = self.player_pawns();
        let ns = self.player_ninjas();
        opt_eq(self.player_king(), p) || pawn_at_exec(&ps, p) || ninja_at_exec(&ns, p) || opt_eq(
            self.wind_spirit,
            p,
        )
    }

    /// Whether `p` holds a piece of the side not to move.
    pub(crate) fn opponent_piece_at(&self, p: Point) -> (r: bool)
        ensures
            r == is_opponent_piece(*self, p),
    {
        let ps = self.opponent_pawns();
        let ns = self.opponent_ninjas();
        opt_eq(self.opponent_king(), p) || pawn_at_exec(&ps, p) || ninja_at_exec(&ns, p)
    }

    /// Whether `p` holds either king.
    pub(crate) fn king_square(&self, p: Point) -> (r: bool)
        ensures
            r == is_king_square(*self, p),
    {
        opt_eq(self.red_king, p) || opt_eq(self.blue_king, p)
    }

    /// All squares the side to move counts as its own, slot by slot:
    /// king, pawns, ninjas, and the Wind Spirit when on the board.
    pub fn player_pieces(&self) -> (r: Vec<Option<Point>>)
        ensures
            forall|p: Point| r@.contains(Some(p)) <==> is_player_piece(*self, p),
    {
        let ps = self.player_pawns();
        let ns = self.player_ninjas();
        let mut pieces: Vec<Option<Point>> = Vec::new();
        pieces.push(self.player_king());
        pieces.push(ps[0]);
        pieces.push(ps[1]);
        pieces.push(ps[2]);
        pieces.push(ps[3]);
        pieces.push(
            match ns[0] {
                Some(n) => Some(n.pos),
                None => None,
            },
        );
        pieces.push(
            match ns[1] {
                Some(n) => Some(n.pos),
                None => None,
            },
        );
        if let Some(ws) = self.wind_spirit {
            pieces.push(Some(ws));
        }
        proof {
            assert forall|p: Point| pieces@.contains(Some(p)) implies is_player_piece(*self, p) by {
                let i = choose|i: int| 0 <= i < pieces@.len() && pieces@[i] == Some(p);
                assert(is_player_piece(*self, p));
            }
            assert forall|p: Point| is_player_piece(*self, p) implies pieces@.contains(
                Some(p),
            ) by {
                if player_king_of(*self) == Some(p) {
                    assert(pieces@[0] == Some(p));
                } else if player_pawns_of(*self)[0] == Some(p) {
                    assert(pieces@[1] == Some(p));
                } else if player_pawns_of(*self)[1] == Some(p) {
                    assert(pieces@[2] == Some(p));
                } else if player_pawns_of(*self)[2] == Some(p) {
                    assert(pieces@[3] == Some(p));
                } else if player_pawns_of(*self)[3] == Some(p) {
                    assert(pieces@[4] == Some(p));
                } else if crate::rules::slot_is_at(player_ninjas_of(*self)[0], p) {
                    assert(pieces@[5] == Some(p));
                } else if crate::rules::slot_is_at(player_ninjas_of(*self)[1], p) {
                    assert(pieces@[6] == Some(p));
                } else {
                    assert(self.wind_spirit == Some(p));
                    assert(pieces@[7] == Some(p));
                }
            }
        }
        pieces
    }

    /// All squares held by the side not to move, slot by slot: king,
    /// pawns and ninjas.
    pub fn opponent_pieces(&self) -> (r: Vec<Option<Point>>)
        ensures
            forall|p: Point| r@.contains(Some(p)) <==> is_opponent_piece(*self, p),
    {
        let ps = self.opponent_pawns();
        let ns = self.opponent_ninjas();
        let mut pieces: Vec<Option<Point>> = Vec::new();
        pieces.push(self.opponent_king());
        pieces.push(ps[0]);
        pieces.push(ps[1]);
        pieces.push(ps[2]);
        pieces.push(ps[3]);
        pieces.push(
            match ns[0] {
                Some(n) => Some(n.pos),
                None => None,
            },
        );
        pieces.push(
            match ns[1] {
                Some(n) => Some(n.pos),
                None => None,
            },
        );
        proof {
            assert forall|p: Point| pieces@.contains(Some(p)) implies is_opponent_piece(
                *self,
                p,
            ) by {
                let i = choose|i: int| 0 <= i < pieces@.len() && pieces@[i] == Some(p);
                assert(is_opponent_piece(*self, p));
            }
            assert forall|p: Point| is_opponent_piece(*self, p) implies pieces@.contains(
                Some(p),
            ) by {
                if opponent_king_of(*self) == Some(p) {
                    assert(pieces@[0] == Some(p));
                } else if opponent_pawns_of(*self)[0] == Some(p) {
                    assert(pieces@[1] == Some(p));
                } else if opponent_pawns_of(*self)[1] == Some(p) {
                    assert(pieces@[2] == Some(p));
                } else if opponent_pawns_of(*self)[2] == Some(p) {
                    assert(pieces@[3] == Some(p));
                } else if opponent_pawns_of(*self)[3] == Some(p) {
                    assert(pieces@[4] == Some(p));
                } else if crate::rules::slot_is_at(opponent_ninjas_of(*self)[0], p) {
                    assert(pieces@[5] == Some(p));
                } else {
                    assert(pieces@[6] == Some(p));
                }
            }
        }
        pieces
    }

    /// Whether the card grants an offset carrying a piece of the given
    /// role from `src` exactly to `dst` for the side to move.
    pub(crate) fn reaches(&self, card: Card, is_king: bool, is_spirit: bool, src: Point, dst: Point)
        -> (r: bool)
        ensures
            r == card_reaches(card, is_king, is_spirit, self.turn, src, dst),
    {
        let tbl = card.moves(is_king, is_spirit);
        let dx: i16 = dst.x as i16 - src.x as i16;
        let dy: i16 = dst.y as i16 - src.y as i16;
        let mut i: usize = 0;
        while i < tbl.len()
            invariant
                tbl@ == card_moves(card, is_king, is_spirit),
                i <= tbl@.len(),
                dx as int == dst.x - src.x,
                dy as int == dst.y - src.y,
                forall|ii: int|
                    0 <= ii < i ==> !offset_matches(self.turn, src, dst, #[trigger] tbl@[ii]),
            decreases tbl@.len() - i,
        {
            let o = tbl[i];
            let tx: i16;
            let ty: i16;
            match self.turn {
                Player::Red => {
                    tx = o.x as i16;
                    ty = o.y as i16;
                },
                Player::Blue => {
                    tx = -(o.x as i16);
                    ty = -(o.y as i16);
                },
            }
            if tx == dx && ty == dy {
                proof {
                    assert(offset_matches(self.turn, src, dst, tbl@[i as int]));
                }
                return true;
            }
            i += 1;
        }
        proof {
            assert forall|ii: int|
                0 <= ii < card_moves(card, is_king, is_spirit).len() implies !offset_matches(
                self.turn,
                src,
                dst,
                #[trigger] card_moves(card, is_king, is_spirit)[ii],
            ) by {}
        }
        false
    }

    /// Whether the card can move the piece on `src` anywhere at all in
    /// the ordinary phase.
    fn normal_src_any(&self, card: Card, src: Point) -> (r: bool)
        requires
            hand_has(player_hand_of(*self), card),
            is_player_piece(*self, src),
        ensures
            r == exists|d: Point| normal_move_legal(*self, card, src, d),
    {
        let is_ws = opt_eq(self.wind_spirit, src);
        if self.shadow_mode && self.is_ninja(src) {
            return false;
        }
        if is_ws && wind_card(card) {
            return false;
        }
        let is_king = opt_eq(self.player_king(), src);
        let tbl = card.moves(is_king, false);
        let mut i: usize = 0;
        while i < tbl.len()
            invariant
                tbl@ == card_moves(card, moving_king(*self, src), false),
                i <= tbl@.len(),
                is_ws == moving_wind_spirit(*self, src),
                !(self.shadow_mode && is_player_ninja(*self, src)),
                !(moving_wind_spirit(*self, src) && crate::cards::is_wind_card(card)),
                hand_has(player_hand_of(*self), card),
                is_player_piece(*self, src),
                forall|d: Point, ii: int|
                    0 <= ii < i ==> !(#[trigger] offset_matches(self.turn, src, d, tbl@[ii])
                        && d.spec_in_bounds() && crate::rules::normal_dst_ok(*self, src, d)),
            decreases tbl@.len() - i,
        {
            let o = tbl[i];
            let tx: i16;
            let ty: i16;
            match self.turn {
                Player::Red => {
                    tx = o.x as i16;
                    ty = o.y as i16;
                },
                Player::Blue => {
                    tx = -(o.x as i16);
                    ty = -(o.y as i16);
                },
            }
            let nx = src.x as i16 + tx;
            let ny = src.y as i16 + ty;
            if 0 <= nx && nx <= 4 && 0 <= ny && ny <= 4 {
                let d = Point { x: nx as i8, y: ny as i8 };
                proof {
                    assert(offset_matches(self.turn, src, d, tbl@[i as int]));
                    assert(d.spec_in_bounds());
                }
                if !opt_eq(self.wind_spirit, d) && (!self.piece_at(d) || is_ws) && !(is_ws
                    && self.king_square(d)) {
                    proof {
                        assert(crate::rules::normal_dst_ok(*self, src, d));
                        assert(normal_move_legal(*self, card, src, d));
                    }
                    return true;
                }
                proof {
                    assert forall|dd: Point, ii: int|
                        0 <= ii < i + 1 implies !(#[trigger] offset_matches(
                        self.turn,
                        src,
                        dd,
                        tbl@[ii],
                    ) && dd.spec_in_bounds() && crate::rules::normal_dst_ok(*self, src, dd)) by {
                        if ii == i {
                            if offset_matches(self.turn, src, dd, tbl@[ii]) {
                                assert(dd.x as int == d.x as int && dd.y as int == d.y as int);
                                assert(dd == d);
                            }
                        }
                    }
                }
            } else {
                proof {
                    assert forall|dd: Point, ii: int|
                        0 <= ii < i + 1 implies !(#[trigger] offset_matches(
                        self.turn,
                        src,
                        dd,
                        tbl@[ii],
                    ) && dd.spec_in_bounds() && crate::rules::normal_dst_ok(*self, src, dd)) by {
                        if ii == i {
                            if offset_matches(self.turn, src, dd, tbl@[ii]) && dd.spec_in_bounds() {
                                assert(dd.x as int == nx as int && dd.y as int == ny as int);
                                assert(false);
                            }
                        }
                    }
                }
            }
            i += 1;
        }
        proof {
            assert forall|d: Point| !normal_move_legal(*self, card, src, d) by {
                if normal_move_legal(*self, card, src, d) {
                    let ii = choose|ii: int|
                        0 <= ii < card_moves(card, moving_king(*self, src), false).len()
                            && offset_matches(
                            self.turn,
                            src,
                            d,
                            card_moves(card, moving_king(*self, src), false)[ii],
                        );
                    assert(!(offset_matches(self.turn, src, d, tbl@[ii]) && d.spec_in_bounds()
                        && crate::rules::normal_dst_ok(*self, src, d)));
                }
            }
        }
        false
    }

    /// Whether the pending card can move the ninja on `src` anywhere.
    fn ninja_src_any(&self, c: Card, src: Point) -> (r: bool)
        requires
            is_player_ninja(*self, src),
            self.ninja_move_card == Some(c),
        ensures
            r == exists|d: Point| ninja_move_legal(*self, c, src, d),
    {
        let tbl = c.moves(false, false);
        let mut i: usize = 0;
        while i < tbl.len()
            invariant
                tbl@ == card_moves(c, false, false),
                i <= tbl@.len(),
                is_player_ninja(*self, src),
                self.ninja_move_card == Some(c),
                forall|d: Point, ii: int|
                    0 <= ii < i ==> !(#[trigger] offset_matches(self.turn, src, d, tbl@[ii])
                        && d.spec_in_bounds() && !is_player_piece(*self, d)),
            decreases tbl@.len() - i,
        {
            let o = tbl[i];
            let tx: i16;
            let ty: i16;
            match self.turn {
                Player::Red => {
                    tx = o.x as i16;
                    ty = o.y as i16;
                },
                Player::Blue => {
                    tx = -(o.x as i16);
                    ty = -(o.y as i16);
                },
            }
            let nx = src.x as i16 + tx;
            let ny = src.y as i16 + ty;
            if 0 <= nx && nx <= 4 && 0 <= ny && ny <= 4 {
                let d = Point { x: nx as i8, y: ny as i8 };
                proof {
                    assert(offset_matches(self.turn, src, d, tbl@[i as int]));
                }
                if !self.piece_at(d) {
                    proof {
                        assert(ninja_move_legal(*self, c, src, d));
                    }
                    return true;
                }
                proof {
                    assert forall|dd: Point, ii: int|
                        0 <= ii < i + 1 implies !(#[trigger] offset_matches(
                        self.turn,
                        src,
                        dd,
                        tbl@[ii],
                    ) && dd.spec_in_bounds() && !is_player_piece(*self, dd)) by {
                        if ii == i && offset_matches(self.turn, src, dd, tbl@[ii]) {
                            assert(dd == d);
                        }
                    }
                }
            } else {
                proof {
                    assert forall|dd: Point, ii: int|
                        0 <= ii < i + 1 implies !(#[trigger] offset_matches(
                        self.turn,
                        src,
                        dd,
                        tbl@[ii],
                    ) && dd.spec_in_bounds() && !is_player_piece(*self, dd)) by {
                        if ii == i && offset_matches(self.turn, src, dd, tbl@[ii])
                            && dd.spec_in_bounds() {
                            assert(false);
                        }
                    }
                }
            }
            i += 1;
        }
        proof {
            assert forall|d: Point| !ninja_move_legal(*self, c, src, d) by {
                if ninja_move_legal(*self, c, src, d) {
                    let ii = choose|ii: int|
                        0 <= ii < card_moves(c, false, false).len() && offset_matches(
                            self.turn,
                            src,
                            d,
                            card_moves(c, false, false)[ii],
                        );
                    assert(!(offset_matches(self.turn, src, d, tbl@[ii]) && d.spec_in_bounds()
                        && !is_player_piece(*self, d)));
                }
            }
        }
        false
    }

    /// Whether either held card can move the piece on `src` anywhere in
    /// the ordinary phase.
    fn any_for_src(&self, c0: Card, c1: Card, src: Point) -> (r: bool)
        requires
            is_player_piece(*self, src),
            player_hand_of(*self)[0] == c0,
            player_hand_of(*self)[1] == c1,
        ensures
            r == exists|card: Card, d: Point| normal_move_legal(*self, card, src, d),
    {
        if self.normal_src_any(c0, src) {
            proof {
                let d = choose|d: Point| normal_move_legal(*self, c0, src, d);
                assert(normal_move_legal(*self, c0, src, d));
            }
            return true;
        }
        if self.normal_src_any(c1, src) {
            proof {
                let d = choose|d: Point| normal_move_legal(*self, c1, src, d);
                assert(normal_move_legal(*self, c1, src, d));
            }
            return true;
        }
        proof {
            assert forall|card: Card, d: Point| !normal_move_legal(*self, card, src, d) by {
                if normal_move_legal(*self, card, src, d) {
                    assert(card == c0 || card == c1);
                }
            }
        }
        false
    }

    /// Whether any forced ninja sub-move exists.
    fn ninja_phase_any(&self) -> (r: bool)
        ensures
            r == ninja_phase_can_move(*self),
    {
        {
            match self.ninja_move_card {
                None => {
                    proof {
                        assert forall|src: Point, dst: Point|
                            !(#[trigger] ninja_move_legal(
                                *self,
                                self.ninja_move_card->0,
                                src,
                                dst,
                            )) by {}
                    }
                    return false;
                },
                Some(c) => {
                    let ns = self.player_ninjas();
                    if let Some(n) = ns[0] {
                        if self.ninja_src_any(c, n.pos) {
                            proof {
                                let d = choose|d: Point| ninja_move_legal(*self, c, n.pos, d);
                                assert(ninja_move_legal(*self, self.ninja_move_card->0, n.pos, d));
                            }
                            return true;
                        }
                    }
                    if let Some(n) = ns[1] {
                        if self.ninja_src_any(c, n.pos) {
                            proof {
                                let d = choose|d: Point| ninja_move_legal(*self, c, n.pos, d);
                                assert(ninja_move_legal(*self, self.ninja_move_card->0, n.pos, d));
                            }
                            return true;
                        }
                    }
                    proof {
                        assert forall|src: Point, dst: Point|
                            !(#[trigger] ninja_move_legal(
                                *self,
                                self.ninja_move_card->0,
                                src,
                                dst,
                            )) by {
                            if ninja_move_legal(*self, c, src, dst) {
                                assert(is_player_ninja(*self, src));
                            }
                        }
                    }
                    return false;
                },
            }
        }
    }

    /// Whether the pending Wind Spirit sub-move has any destination.
    fn wind_phase_any(&self) -> (r: bool)
        ensures
            r == wind_phase_can_move(*self),
    {
        {
            let ws_opt = self.wind_spirit;
            let wc_opt = self.wind_move_card;
            match (ws_opt, wc_opt) {
                (Some(ws), Some(c)) => {
                    let tbl = c.moves(false, true);
                    let mut i: usize = 0;
                    while i < tbl.len()
                        invariant
                            tbl@ == card_moves(c, false, true),
                            i <= tbl@.len(),
                            self.wind_spirit == Some(ws),
                            self.wind_move_card == Some(c),
                            forall|d: Point, ii: int|
                                0 <= ii < i ==> !(#[trigger] offset_matches(
                                    self.turn,
                                    ws,
                                    d,
                                    tbl@[ii],
                                ) && d.spec_in_bounds() && !is_king_square(*self, d)),
                        decreases tbl@.len() - i,
                    {
                        let o = tbl[i];
                        let tx: i16;
                        let ty: i16;
                        match self.turn {
                            Player::Red => {
                                tx = o.x as i16;
                                ty = o.y as i16;
                            },
                            Player::Blue => {
                                tx = -(o.x as i16);
                                ty = -(o.y as i16);
                            },
                        }
                        let nx = ws.x as i16 + tx;
                        let ny = ws.y as i16 + ty;
                        if 0 <= nx && nx <= 4 && 0 <= ny && ny <= 4 {
                            let d = Point { x: nx as i8, y: ny as i8 };
                            proof {
                                assert(offset_matches(self.turn, ws, d, tbl@[i as int]));
                            }
                            if !self.king_square(d) {
                                proof {
                                    assert(card_reaches(
                                        self.wind_move_card->0,
                                        false,
                                        true,
                                        self.turn,
                                        self.wind_spirit->0,
                                        d,
                                    ));
                                    assert(wind_phase_can_move(*self));
                                }
                                return true;
                            }
                            proof {
                                assert forall|dd: Point, ii: int|
                                    0 <= ii < i + 1 implies !(#[trigger] offset_matches(
                                    self.turn,
                                    ws,
                                    dd,
                                    tbl@[ii],
                                ) && dd.spec_in_bounds() && !is_king_square(*self, dd)) by {
                                    if ii == i && offset_matches(self.turn, ws, dd, tbl@[ii]) {
                                        assert(dd == d);
                                    }
                                }
                            }
                        } else {
                            proof {
                                assert forall|dd: Point, ii: int|
                                    0 <= ii < i + 1 implies !(#[trigger] offset_matches(
                                    self.turn,
                                    ws,
                                    dd,
                                    tbl@[ii],
                                ) && dd.spec_in_bounds() && !is_king_square(*self, dd)) by {
                                    if ii == i && offset_matches(self.turn, ws, dd, tbl@[ii])
                                        && dd.spec_in_bounds() {
                                        assert(false);
                                    }
                                }
                            }
                        }
                        i += 1;
                    }
                    proof {
                        assert(!wind_phase_can_move(*self)) by {
                            if wind_phase_can_move(*self) {
                                let d = choose|d: Point|
                                    {
                                        &&& d.spec_in_bounds()
                                        &&& card_reaches(c, false, true, self.turn, ws, d)
                                        &&& !is_king_square(*self, d)
                                    };
                                let ii = choose|ii: int|
                                    0 <= ii < card_moves(c, false, true).len() && offset_matches(
                                        self.turn,
                                        ws,
                                        d,
                                        card_moves(c, false, true)[ii],
                                    );
                                assert(!(offset_matches(self.turn, ws, d, tbl@[ii])
                                    && d.spec_in_bounds() && !is_king_square(*self, d)));
                            }
                        }
                    }
                    return false;
                },
                _ => {
                    return false;
                },
            }
        }
    }

    /// Whether any ordinary-phase move exists.
    fn normal_phase_any(&self) -> (r: bool)
        ensures
            r == exists|card: Card, src: Point, dst: Point|
                #[trigger] normal_move_legal(*self, card, src, dst),
    {
        let hand = *self.player_hand();
        let c0 = hand[0];
        let c1 = hand[1];
        if let Some(src) = self.player_king() {
            if self.any_for_src(c0, c1, src) {
                proof {
                    let (card, d) = choose|card: Card, d: Point|
                        normal_move_legal(*self, card, src, d);
                    assert(normal_move_legal(*self, card, src, d));
                }
                return true;
            }
        }
        let ps = self.player_pawns();
        let ns = self.player_ninjas();
        if let Some(src) = ps[0] {
            if self.any_for_src(c0, c1, src) {
                proof {
                    let (card, d) = choose|card: Card, d: Point|
                        normal_move_legal(*self, card, src, d);
                    assert(normal_move_legal(*self, card, src, d));
                }
                return true;
            }
        }
        if let Some(src) = ps[1] {
            if self.any_for_src(c0, c1, src) {
                proof {
                    let (card, d) = choose|card: Card, d: Point|
                        normal_move_legal(*self, card, src, d);
                    assert(normal_move_legal(*self, card, src, d));
                }
                return true;
            }
        }
        if let Some(src) = ps[2] {
            if self.any_for_src(c0, c1, src) {
                proof {
                    let (card, d) = choose|card: Card, d: Point|
                        normal_move_legal(*self, card, src, d);
                    assert(normal_move_legal(*self, card, src, d));
                }
                return true;
            }
        }
        if let Some(src) = ps[3] {
            if self.any_for_src(c0, c1, src) {
                proof {
                    let (card, d) = choose|card: Card, d: Point|
                        normal_move_legal(*self, card, src, d);
                    assert(normal_move_legal(*self, card, src, d));
                }
                return true;
            }
        }
        if let Some(n) = ns[0] {
            if self.any_for_src(c0, c1, n.pos) {
                proof {
                    let (card, d) = choose|card: Card, d: Point|
                        normal_move_legal(*self, card, n.pos, d);
                    assert(normal_move_legal(*self, card, n.pos, d));
                }
                return true;
            }
        }
        if let Some(n) = ns[1] {
            if self.any_for_src(c0, c1, n.pos) {
                proof {
                    let (card, d) = choose|card: Card, d: Point|
                        normal_move_legal(*self, card, n.pos, d);
                    assert(normal_move_legal(*self, card, n.pos, d));
                }
                return true;
            }
        }
        if let Some(src) = self.wind_spirit {
            if self.any_for_src(c0, c1, src) {
                proof {
                    let (card, d) = choose|card: Card, d: Point|
                        normal_move_legal(*self, card, src, d);
                    assert(normal_move_legal(*self, card, src, d));
                }
                return true;
            }
        }
        proof {
            assert forall|card: Card, src: Point, dst: Point|
                !(#[trigger] normal_move_legal(*self, card, src, dst)) by {
                if normal_move_legal(*self, card, src, dst) {
                    assert(is_player_piece(*self, src));
                }
            }
        }
        false
    }

    /// Whether any move at all exists for the side to move, respecting a
    /// pending sub-move phase.
    pub fn can_move(&self) -> (r: bool)
        ensures
            r == spec_can_move(*self),
    {
        if self.ninja_move_pending {
            self.ninja_phase_any()
        } else if self.wind_move_pending {
            self.wind_phase_any()
        } else {
            self.normal_phase_any()
        }
    }

    /// The capture classification of a move from `src` to `dst`: which
    /// kind of piece (if any) stands on the destination, in the fixed
    /// priority order, and whether the mover is a concealed ninja.
    fn capture_flags(&self, src: Point, dst: Point, reveal: bool) -> (r: (
        bool,
        bool,
        bool,
        bool,
        bool,
    ))
        ensures
            r.0 == hit_own_pawn(*self, dst),
            r.1 == hit_enemy_pawn(*self, dst),
            r.2 == hit_own_ninja(*self, dst),
            r.3 == hit_enemy_ninja(*self, dst),
            r.4 == mover_is_hidden_ninja(*self, src, reveal),
    {
        let own_ps = self.player_pawns();
        let opp_ps = self.opponent_pawns();
        let own_ns = self.player_ninjas();
        let opp_ns = self.opponent_ninjas();
        let hop = pawn_at_exec(&own_ps, dst);
        let hep = !hop && pawn_at_exec(&opp_ps, dst);
        let hon = !hop && !hep && ninja_at_exec(&own_ns, dst);
        let hen = !hop && !hep && !hon && ninja_at_exec(&opp_ns, dst);
        let mhn = {
            let first_at = match own_ns[0] {
                Some(n) => n.pos == src,
                None => false,
            };
            if first_at {
                match own_ns[0] {
                    Some(n) => !(n.revealed || reveal),
                    None => false,
                }
            } else {
                match own_ns[1] {
                    Some(n) => if n.pos == src {
                        !(n.revealed || reveal)
                    } else {
                        false
                    },
                    None => false,
                }
            }
        };
        (hop, hep, hon, hen, mhn)
    }

    /// Whether the opposing ninja standing on `dst` is still concealed.
    fn enemy_hidden_at(&self, dst: Point) -> (r: bool)
        ensures
            r == enemy_ninja_hidden_at(*self, dst),
    {
        let opp_ns = self.opponent_ninjas();
        let first_at = match opp_ns[0] {
            Some(n) => n.pos == dst,
            None => false,
        };
        if first_at {
            match opp_ns[0] {
                Some(n) => !n.revealed,
                None => false,
            }
        } else {
            match opp_ns[1] {
                Some(n) => if n.pos == dst {
                    !n.revealed
                } else {
                    false
                },
                None => false,
            }
        }
    }

    /// The mover's pawns after the move.
    fn build_own_pawns(&self, src: Point, dst: Point, wind: bool) -> (r: [Option<Point>; 4])
        ensures
            r == own_pawns_after(*self, src, dst, wind),
    {
        let ps = self.player_pawns();
        let s0 = if wind {
            if opt_eq(ps[0], dst) {
                Some(src)
            } else {
                ps[0]
            }
        } else {
            if opt_eq(ps[0], src) {
                Some(dst)
            } else {
                ps[0]
            }
        };
        let s1 = if wind {
            if opt_eq(ps[1], dst) {
                Some(src)
            } else {
                ps[1]
            }
        } else {
            if opt_eq(ps[1], src) {
                Some(dst)
            } else {
                ps[1]
            }
        };
        let s2 = if wind {
            if opt_eq(ps[2], dst) {
                Some(src)
            } else {
                ps[2]
            }
        } else {
            if opt_eq(ps[2], src) {
                Some(dst)
            } else {
                ps[2]
            }
        };
        let s3 = if wind {
            if opt_eq(ps[3], dst) {
                Some(src)
            } else {
                ps[3]
            }
        } else {
            if opt_eq(ps[3], src) {
                Some(dst)
            } else {
                ps[3]
            }
        };
        [s0, s1, s2, s3]
    }

    /// The opponent's pawns after the move.
    fn build_enemy_pawns(&self, hep: bool, src: Point, dst: Point, wind: bool) -> (r: [Option<
        Point,
    >; 4])
        requires
            hep == hit_enemy_pawn(*self, dst),
        ensures
            r == enemy_pawns_after(*self, src, dst, wind),
    {
        let ps = self.opponent_pawns();
        let s0 = if hep && opt_eq(ps[0], dst) {
            if wind {
                Some(src)
            } else {
                None
            }
        } else {
            ps[0]
        };
        let s1 = if hep && opt_eq(ps[1], dst) {
            if wind {
                Some(src)
            } else {
                None
            }
        } else {
            ps[1]
        };
        let s2 = if hep && opt_eq(ps[2], dst) {
            if wind {
                Some(src)
            } else {
                None
            }
        } else {
            ps[2]
        };
        let s3 = if hep && opt_eq(ps[3], dst) {
            if wind {
                Some(src)
            } else {
                None
            }
        } else {
            ps[3]
        };
        [s0, s1, s2, s3]
    }

    /// The mover's ninjas after the move.
    fn build_own_ninjas(
        &self,
        hon: bool,
        src: Point,
        dst: Point,
        wind: bool,
        reveal: bool,
        captured: bool,
    ) -> (r: [Option<Ninja>; 2])
        requires
            hon == hit_own_ninja(*self, dst),
        ensures
            r == own_ninjas_after(*self, src, dst, wind, reveal, captured),
    {
        let ns = self.player_ninjas();
        let s0 = match ns[0] {
            None => None,
            Some(n) => if wind {
                if hon && n.pos == dst {
                    Some(Ninja { pos: src, revealed: true })
                } else {
                    Some(n)
                }
            } else {
                if n.pos == src {
                    Some(Ninja { pos: dst, revealed: n.revealed || reveal || captured })
                } else {
                    Some(n)
                }
            },
        };
        let s1 = match ns[1] {
            None => None,
            Some(n) => if wind {
                if hon && n.pos == dst {
                    Some(Ninja { pos: src, revealed: true })
                } else {
                    Some(n)
                }
            } else {
                if n.pos == src {
                    Some(Ninja { pos: dst, revealed: n.revealed || reveal || captured })
                } else {
                    Some(n)
                }
            },
        };
        [s0, s1]
    }

    /// The opponent's ninjas after the move.
    fn build_enemy_ninjas(
        &self,
        hen: bool,
        mhn: bool,
        src: Point,
        dst: Point,
        wind: bool,
        reveal: bool,
    ) -> (r: [Option<Ninja>; 2])
        requires
            hen == hit_enemy_ninja(*self, dst),
            mhn == mover_is_hidden_ninja(*self, src, reveal),
        ensures
            r == enemy_ninjas_after(*self, src, dst, wind, reveal),
    {
        let ns = self.opponent_ninjas();
        let s0 = match ns[0] {
            None => None,
            Some(n) => if hen && n.pos == dst {
                if wind {
                    Some(Ninja { pos: src, revealed: true })
                } else if mhn && !n.revealed {
                    Some(n)
                } else {
                    None
                }
            } else {
                Some(n)
            },
        };
        let s1 = match ns[1] {
            None => None,
            Some(n) => if hen && n.pos == dst {
                if wind {
                    Some(Ninja { pos: src, revealed: true })
                } else if mhn && !n.revealed {
                    Some(n)
                } else {
                    None
                }
            } else {
                Some(n)
            },
        };
        [s0, s1]
    }

    /// Whether playing `card` on this move opens a mandatory Wind Spirit
    /// sub-move, probed on the tentative position.
    fn enable_wind_move(&self, card: Card, src: Point, dst: Point) -> (r: bool)
        ensures
            r == spec_enable_wind(*self, card, src, dst),
    {
        if !wind_card(card) {
            return false;
        }
        let mut temp = *self;
        if opt_eq(self.player_king(), src) {
            match self.turn {
                Player::Red => {
                    temp.red_king = Some(dst);
                },
                Player::Blue => {
                    temp.blue_king = Some(dst);
                },
            }
        }
        temp.wind_move_pending = true;
        temp.wind_move_card = Some(card);
        temp.can_move()
    }

    /// Whether this move opens a forced ninja sub-move, probed on the
    /// tentative position.
    fn enable_ninja_move(&self, card: Card, src: Point, dst: Point) -> (r: bool)
        ensures
            r == spec_enable_ninja(*self, card, src, dst),
    {
        if !self.shadow_mode || !self.has_ninja() {
            return false;
        }
        let mut temp = *self;
        if opt_eq(self.player_king(), src) {
            match self.turn {
                Player::Red => {
                    temp.red_king = Some(dst);
                },
                Player::Blue => {
                    temp.blue_king = Some(dst);
                },
            }
        }
        temp.ninja_move_pending = true;
        temp.ninja_move_card = Some(card);
        temp.can_move()
    }

    /// The board after a discard of `card`.
    fn discard_board(&self, card: Card) -> (r: Board)
        ensures
            r == spec_discard_board(*self, card),
    {
        let hand = *self.player_hand();
        let new_hand = replace_card(&hand, card, self.spare_card);
        let mut nb = *self;
        match self.turn {
            Player::Red => {
                nb.red_hand = new_hand;
            },
            Player::Blue => {
                nb.blue_hand = new_hand;
            },
        }
        nb.spare_card = card;
        nb.wind_move_pending = false;
        nb.wind_move_card = None;
        nb.ninja_move_pending = false;
        nb.ninja_move_card = None;
        nb.turn = self.turn.invert();
        nb
    }

    /// The board after an accepted ordinary move.
    fn apply_normal_move(&self, card: Card, src: Point, dst: Point, reveal: bool) -> (r: Board)
        ensures
            r == spec_move_board(*self, card, src, dst, reveal),
    {
        let wind = opt_eq(self.wind_spirit, src);
        let (_hop, hep, hon, hen, mhn) = self.capture_flags(src, dst, reveal);
        let eha = self.enemy_hidden_at(dst);
        let captured = !wind && (hep || (hen && !(mhn && eha)));
        proof {
            assert(captured == spec_captured(*self, src, dst, reveal, wind));
        }
        let np: bool;
        let ncard: Option<Card>;
        if self.shadow_mode && self.has_ninja() {
            if self.is_ninja(src) {
                np = false;
                ncard = None;
            } else {
                np = self.enable_ninja_move(card, src, dst);
                ncard = if np {
                    Some(card)
                } else {
                    None
                };
            }
        } else {
            np = self.ninja_move_pending;
            ncard = self.ninja_move_card;
        }
        proof {
            assert(np == ninja_pending_after(*self, card, src, dst));
            assert(ncard == ninja_card_after(*self, card, src, dst));
        }
        let wp = self.enable_wind_move(card, src, dst);
        let wcard: Option<Card> = if wp {
            Some(card)
        } else {
            None
        };
        let chained = wp || np;
        let hand = *self.player_hand();
        let new_hand = if chained {
            hand
        } else {
            replace_card(&hand, card, self.spare_card)
        };
        let new_king = if opt_eq(self.player_king(), src) {
            Some(dst)
        } else {
            self.player_king()
        };
        let own_p = self.build_own_pawns(src, dst, wind);
        let en_p = self.build_enemy_pawns(hep, src, dst, wind);
        let own_n = self.build_own_ninjas(hon, src, dst, wind, reveal, captured);
        let en_n = self.build_enemy_ninjas(hen, mhn, src, dst, wind, reveal);
        let new_ws = if wind {
            Some(dst)
        } else {
            self.wind_spirit
        };
        let new_spare = if chained {
            self.spare_card
        } else {
            card
        };
        let new_turn = if chained {
            self.turn
        } else {
            self.turn.invert()
        };
        let nb = match self.turn {
            Player::Red => Board {
                wind_spirit: new_ws,
                blue_king: self.blue_king,
                blue_pawns: en_p,
                blue_ninjas: en_n,
                blue_hand: self.blue_hand,
                red_king: new_king,
                red_pawns: own_p,
                red_ninjas: own_n,
                red_hand: new_hand,
                spare_card: new_spare,
                wind_move_pending: wp,
                wind_move_card: wcard,
                shadow_mode: self.shadow_mode,
                ninja_move_pending: np,
                ninja_move_card: ncard,
                turn: new_turn,
            },
            Player::Blue => Board {
                wind_spirit: new_ws,
                blue_king: new_king,
                blue_pawns: own_p,
                blue_ninjas: own_n,
                blue_hand: new_hand,
                red_king: self.red_king,
                red_pawns: en_p,
                red_ninjas: en_n,
                red_hand: self.red_hand,
                spare_card: new_spare,
                wind_move_pending: wp,
                wind_move_card: wcard,
                shadow_mode: self.shadow_mode,
                ninja_move_pending: np,
                ninja_move_card: ncard,
                turn: new_turn,
            },
        };
        nb
    }

    /// The board after an accepted Wind Spirit sub-move.
    fn apply_wind_move(&self, card: Card, src: Point, dst: Point) -> (r: Board)
        ensures
            r == spec_wind_move_board(*self, card, src, dst),
    {
        let (_hop, hep, hon, hen, mhn) = self.capture_flags(src, dst, false);
        let hand = *self.player_hand();
        let new_hand = replace_card(&hand, card, self.spare_card);
        let own_p = self.build_own_pawns(src, dst, true);
        let en_p = self.build_enemy_pawns(hep, src, dst, true);
        let own_n = self.build_own_ninjas(hon, src, dst, true, false, false);
        let en_n = self.build_enemy_ninjas(hen, mhn, src, dst, true, false);
        let nb = match self.turn {
            Player::Red => Board {
                wind_spirit: Some(dst),
                blue_king: self.blue_king,
                blue_pawns: en_p,
                blue_ninjas: en_n,
                blue_hand: self.blue_hand,
                red_king: self.red_king,
                red_pawns: own_p,
                red_ninjas: own_n,
                red_hand: new_hand,
                spare_card: card,
                wind_move_pending: false,
                wind_move_card: None,
                shadow_mode: self.shadow_mode,
                ninja_move_pending: false,
                ninja_move_card: None,
                turn: Player::Blue,
            },
            Player::Blue => Board {
                wind_spirit: Some(dst),
                blue_king: self.blue_king,
                blue_pawns: own_p,
                blue_ninjas: own_n,
                blue_hand: new_hand,
                red_king: self.red_king,
                red_pawns: en_p,
                red_ninjas: en_n,
                red_hand: self.red_hand,
                spare_card: card,
                wind_move_pending: false,
                wind_move_card: None,
                shadow_mode: self.shadow_mode,
                ninja_move_pending: false,
                ninja_move_card: None,
                turn: Player::Red,
            },
        };
        nb
    }

    /// The ordinary phase (and the forced-ninja phase) of `try_move`.
    fn try_move_main(&self, game_move: Move) -> (r: Result<GameState, String>)
        ensures
            r is Ok <==> spec_try_move_main(*self, game_move) is Ok,
            r matches Ok(gs) ==> Ok::<GameState, Seq<char>>(gs) == spec_try_move_main(
                *self,
                game_move,
            ),
            r matches Err(e) ==> (spec_try_move_main(*self, game_move) matches Err(s) && e@ == s),
    {
        let (card, src, dst, reveal_ninja) = match game_move {
            Move::Move { card, src, dst, reveal_ninja } => (card, src, dst, reveal_ninja),
            Move::Discard { card } => {
                if self.ninja_move_pending && self.can_move() {
                    let card_matches = match self.ninja_move_card {
                        Some(nc) => card == nc,
                        None => false,
                    };
                    if !card_matches {
                        return Err(msg("Invalid card to discard during Ninja move phase."));
                    }
                    let mut nb = *self;
                    nb.ninja_move_pending = false;
                    if !nb.wind_move_pending {
                        return Ok(GameState::Playing { board: nb.discard_board(card) });
                    }
                    nb.ninja_move_card = None;
                    return Ok(GameState::Playing { board: nb });
                }
                if self.can_move() {
                    return Err(msg("Valid moves exist"));
                }
                return Ok(GameState::Playing { board: self.discard_board(card) });
            },
        };
        let hand = *self.player_hand();
        if !hand_contains(&hand, card) {
            return Err(msg("Card not in hand"));
        }
        if !self.piece_at(src) {
            return Err(msg("No piece at source"));
        }
        if self.shadow_mode && self.is_ninja(src) && self.can_move() && !self.ninja_move_pending {
            return Err(msg("You must move another piece before moving your Ninja!"));
        }
        if self.ninja_move_pending {
            if !self.is_ninja(src) {
                return Err(msg("Only the Ninja can move now."));
            }
            match self.ninja_move_card {
                None => {
                    return Err(msg("Ninja move card is not set during ninja_move_pending."));
                },
                Some(nc) => {
                    if card != nc {
                        return Err(msg("Must use the pending card for the Ninja move."));
                    }
                },
            }
        }
        let move_ws = opt_eq(self.wind_spirit, src);
        if move_ws && wind_card(card) {
            return Err(msg("Wind Spirit cannot use a Way of the Wind card to move"));
        }
        if dst.out_of_bounds() {
            return Err(msg("Destination is out of bounds"));
        }
        let is_king_mover = opt_eq(self.player_king(), src);
        if !self.reaches(card, is_king_mover, false, src, dst) {
            return Err(msg("Move not valid for card"));
        }
        if move_ws && self.king_square(dst) {
            return Err(msg("Wind Spirit cannot move onto a Master!"));
        }
        let own_ps = self.player_pawns();
        let own_ns = self.player_ninjas();
        if self.piece_at(dst) && !(move_ws && (pawn_at_exec(&own_ps, dst) || ninja_at_exec(
            &own_ns,
            dst,
        ))) {
            return Err(msg("Destination occupied by your piece"));
        }
        let nb = self.apply_normal_move(card, src, dst, reveal_ninja);
        let goal = match self.turn {
            Player::Red => Point { x: 2, y: 0 },
            Player::Blue => Point { x: 2, y: 4 },
        };
        let finished = opt_eq(self.opponent_king(), dst) || (is_king_mover && dst == goal)
            || !nb.has_remaining(self.turn.invert());
        if finished {
            Ok(GameState::Finished { board: nb, winner: self.turn })
        } else {
            Ok(GameState::Playing { board: nb })
        }
    }

    /// The pending Wind Spirit sub-move phase of `try_move`.
    fn try_wind_move(&self, game_move: Move) -> (r: Result<GameState, String>)
        ensures
            r is Ok <==> spec_try_wind_move(*self, game_move) is Ok,
            r matches Ok(gs) ==> Ok::<GameState, Seq<char>>(gs) == spec_try_wind_move(
                *self,
                game_move,
            ),
            r matches Err(e) ==> (spec_try_wind_move(*self, game_move) matches Err(s) && e@ == s),
    {
        let wc = match self.wind_move_card {
            None => {
                return Err(msg("Wind move card is not set during wind_move_pending."));
            },
            Some(wc) => wc,
        };
        if !self.can_move() {
            return Ok(GameState::Playing { board: self.discard_board(wc) });
        }
        let (card, src, dst) = match game_move {
            Move::Move { card, src, dst, .. } => (card, src, dst),
            Move::Discard { card } => {
                let mut nb = *self;
                nb.wind_move_pending = false;
                return nb.try_move_main(Move::Discard { card });
            },
        };
        let ws = match self.wind_spirit {
            None => {
                return Err(msg("Wind Spirit is missing!"));
            },
            Some(ws) => ws,
        };
        if !(src == ws) {
            return Err(msg("You must move the Wind Spirit"));
        }
        if card != wc {
            return Err(msg("Must use the pending wind card to move"));
        }
        if dst.out_of_bounds() {
            return Err(msg("Destination is out of bounds"));
        }
        if !self.reaches(card, false, true, src, dst) {
            return Err(msg("Move not valid for card"));
        }
        if self.king_square(dst) {
            return Err(msg("Wind Spirit cannot move onto a Master!"));
        }
        Ok(GameState::Playing { board: self.apply_wind_move(card, src, dst) })
    }

    /// Validate and apply a move, producing the next state or a
    /// descriptive rule violation. The result is exactly what the rules
    /// model `spec_try_move` says, error messages included; the board
    /// itself is never mutated.
    pub fn try_move(&self, game_move: Move) -> (r: Result<GameState, String>)
        ensures
            r is Ok <==> spec_try_move(*self, game_move) is Ok,
            r matches Ok(gs) ==> gs == spec_apply(*self, game_move),
            r matches Err(e) ==> (spec_try_move(*self, game_move) matches Err(s) && e@ == s),
    {
        proof {
            reveal(spec_apply);
        }
        if self.wind_move_pending && !self.ninja_move_pending {
            self.try_wind_move(game_move)
        } else {
            self.try_move_main(game_move)
        }
    }

    /// Whether the given colour still has any piece at all.
    pub(crate) fn has_remaining(&self, color: Player) -> (r: bool)
        ensures
            r == has_remaining_pieces(*self, color),
    {
        match color {
            Player::Red => {
                self.red_king.is_some() || self.red_pawns[0].is_some() || self.red_pawns[1].is_some()
                    || self.red_pawns[2].is_some() || self.red_pawns[3].is_some()
                    || self.red_ninjas[0].is_some() || self.red_ninjas[1].is_some()
            },
            Player::Blue => {
                self.blue_king.is_some() || self.blue_pawns[0].is_some()
                    || self.blue_pawns[1].is_some() || self.blue_pawns[2].is_some()
                    || self.blue_pawns[3].is_some() || self.blue_ninjas[0].is_some()
                    || self.blue_ninjas[1].is_some()
            },
        }
    }
}


/// One grid cell for view projection, by the fixed priority: the Wind
/// Spirit over the kings, kings over ninjas, ninjas over pawns.
pub open spec fn spec_grid_cell(b: Board, x: int, y: int) -> GameSquare {
    let p = Point { x: x as i8, y: y as i8 };
    if b.wind_spirit == Some(p) {
        GameSquare::WindSpirit
    } else if b.blue_king == Some(p) {
        GameSquare::BlueKing
    } else if b.red_king == Some(p) {
        GameSquare::RedKing
    } else if crate::rules::slot_is_at(b.red_ninjas[1], p) {
        GameSquare::RedNinja { revealed: b.red_ninjas[1]->0.revealed }
    } else if crate::rules::slot_is_at(b.red_ninjas[0], p) {
        GameSquare::RedNinja { revealed: b.red_ninjas[0]->0.revealed }
    } else if crate::rules::slot_is_at(b.blue_ninjas[1], p) {
        GameSquare::BlueNinja { revealed: b.blue_ninjas[1]->0.revealed }
    } else if crate::rules::slot_is_at(b.blue_ninjas[0], p) {
        GameSquare::BlueNinja { revealed: b.blue_ninjas[0]->0.revealed }
    } else if pawn_at(b.red_pawns, p) {
        GameSquare::RedPawn
    } else if pawn_at(b.blue_pawns, p) {
        GameSquare::BluePawn
    } else {
        GameSquare::Empty
    }
}

impl Board {
    /// The cell at one square.
    fn grid_cell(&self, x: i8, y: i8) -> (r: GameSquare)
        requires
            0 <= x <= 4,
            0 <= y <= 4,
        ensures
            r == spec_grid_cell(*self, x as int, y as int),
    {
        let p = Point { x, y };
        if opt_eq(self.wind_spirit, p) {
            GameSquare::WindSpirit
        } else if opt_eq(self.blue_king, p) {
            GameSquare::BlueKing
        } else if opt_eq(self.red_king, p) {
            GameSquare::RedKing
        } else {
            let rn1_here = match self.red_ninjas[1] {
                Some(n) => if n.pos == p {
                    Some(n.revealed)
                } else {
                    None
                },
                None => None,
            };
            let rn0_here = match self.red_ninjas[0] {
                Some(n) => if n.pos == p {
                    Some(n.revealed)
                } else {
                    None
                },
                None => None,
            };
            let bn1_here = match self.blue_ninjas[1] {
                Some(n) => if n.pos == p {
                    Some(n.revealed)
                } else {
                    None
                },
                None => None,
            };
            let bn0_here = match self.blue_ninjas[0] {
                Some(n) => if n.pos == p {
                    Some(n.revealed)
                } else {
                    None
                },
                None => None,
            };
            if let Some(rev) = rn1_here {
                GameSquare::RedNinja { revealed: rev }
            } else if let Some(rev) = rn0_here {
                GameSquare::RedNinja { revealed: rev }
            } else if let Some(rev) = bn1_here {
                GameSquare::BlueNinja { revealed: rev }
            } else if let Some(rev) = bn0_here {
                GameSquare::BlueNinja { revealed: rev }
            } else if pawn_at_exec(&self.red_pawns, p) {
                GameSquare::RedPawn
            } else if pawn_at_exec(&self.blue_pawns, p) {
                GameSquare::BluePawn
            } else {
                GameSquare::Empty
            }
        }
    }

    /// The whole grid for view projection, row by row: each cell holds
    /// the piece standing on it, by the fixed priority.
    pub fn to_grid(&self) -> (r: [[GameSquare; 5]; 5])
        ensures
            forall|x: int, y: int|
                0 <= x < 5 && 0 <= y < 5 ==> #[trigger] r[y][x] == spec_grid_cell(*self, x, y),
    {
        let row0 = [
            self.grid_cell(0, 0),
            self.grid_cell(1, 0),
            self.grid_cell(2, 0),
            self.grid_cell(3, 0),
            self.grid_cell(4, 0),
        ];
        let row1 = [
            self.grid_cell(0, 1),
            self.grid_cell(1, 1),
            self.grid_cell(2, 1),
            self.grid_cell(3, 1),
            self.grid_cell(4, 1),
        ];
        let row2 = [
            self.grid_cell(0, 2),
            self.grid_cell(1, 2),
            self.grid_cell(2, 2),
            self.grid_cell(3, 2),
            self.grid_cell(4, 2),
        ];
        let row3 = [
            self.grid_cell(0, 3),
            self.grid_cell(1, 3),
            self.grid_cell(2, 3),
            self.grid_cell(3, 3),
            self.grid_cell(4, 3),
        ];
        let row4 = [
            self.grid_cell(0, 4),
            self.grid_cell(1, 4),
            self.grid_cell(2, 4),
            self.grid_cell(3, 4),
            self.grid_cell(4, 4),
        ];
        [row0, row1, row2, row3, row4]
    }
}

impl GameState {
    /// Whether the game has ended.
    pub fn finished(&self) -> (r: bool)
        ensures
            r == (*self is Finished),
    {
        match self {
            GameState::Finished { .. } => true,
            GameState::Playing { .. } => false,
        }
    }

    /// Validate and apply a move to a game in progress; a finished game
    /// refuses every move.
    pub fn try_move(&self, game_move: Move) -> (r: Result<GameState, String>)
        ensures
            *self matches GameState::Playing { board } ==> {
                &&& (r is Ok <==> spec_try_move(board, game_move) is Ok)
                &&& (r matches Ok(gs) ==> gs == spec_apply(board, game_move))
                &&& (r matches Err(e) ==> (spec_try_move(board, game_move) matches Err(s) && e@
                    == s))
            },
            *self is Finished ==> (r matches Err(e) && e@ == "Game already finished"@),
    {
        match self {
            GameState::Playing { board } => board.try_move(game_move),
            GameState::Finished { .. } => Err(msg("Game already finished")),
        }
    }
}

}
