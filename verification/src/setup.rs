//! Game setup: the random deal. A new board holds two distinct cards
//! per hand and a spare held by neither side, drawn from the enabled
//! card sets; the pieces stand in the standard rows, with the optional
//! Wind Spirit and the Way of Light and Shadow layouts on top.

use rand::rngs::StdRng;
use vstd::prelude::*;

use crate::cards::all_cards;
use crate::cards::all_cards_seq;
use crate::cards::is_wind_card;
use crate::cards::lemma_all_cards_indexed;
use crate::cards::spec_card_set;
use crate::cards::wind_card;
use crate::models::Board;
use crate::models::Card;
use crate::models::CardSet;
use crate::models::GameSettings;
use crate::models::GameState;
use crate::models::Ninja;
use crate::models::Player;
use crate::models::Point;
use crate::rng::rand_below;
use crate::rng::rng_from_entropy;
use crate::rng::rng_from_seed;

verus! {

broadcast use vstd::seq_lib::group_seq_lib_default;

/// The standard piece rows: kings on the home columns, four pawns
/// beside each, nothing else on the board, Red to move, no phase
/// pending.
pub open spec fn standard_layout(b: Board) -> bool {
    &&& b.red_king == Some(Point { x: 2, y: 4 })
    &&& b.blue_king == Some(Point { x: 2, y: 0 })
    &&& b.red_pawns == [
        Some(Point { x: 0, y: 4 }),
        Some(Point { x: 1, y: 4 }),
        Some(Point { x: 3, y: 4 }),
        Some(Point { x: 4, y: 4 }),
    ]
    &&& b.blue_pawns == [
        Some(Point { x: 0, y: 0 }),
        Some(Point { x: 1, y: 0 }),
        Some(Point { x: 3, y: 0 }),
        Some(Point { x: 4, y: 0 }),
    ]
    &&& b.red_ninjas[0] is None
    &&& b.red_ninjas[1] is None
    &&& b.blue_ninjas[0] is None
    &&& b.blue_ninjas[1] is None
    &&& b.wind_spirit is None
    &&& !b.wind_move_pending
    &&& b.wind_move_card is None
    &&& !b.shadow_mode
    &&& !b.ninja_move_pending
    &&& b.ninja_move_card is None
    &&& b.turn == Player::Red
}

/// Draw a uniformly random card out of a pool. A duplicate-free pool
/// stays duplicate-free and no longer holds the drawn card.
fn draw(pool: &mut Vec<Card>, rng: &mut StdRng) -> (r: Card)
    requires
        old(pool)@.len() > 0,
    ensures
        old(pool)@.contains(r),
        final(pool)@.len() == old(pool)@.len() - 1,
        forall|i: int|
            0 <= i < final(pool)@.len() ==> old(pool)@.contains(#[trigger] final(pool)@[i]),
        old(pool)@.no_duplicates() ==> (final(pool)@.no_duplicates() && !final(pool)@.contains(r)),
{
    let ghost orig = pool@;
    let j = rand_below(rng, pool.len());
    let c = pool.remove(j);
    proof {
        assert forall|i: int| 0 <= i < pool@.len() implies orig.contains(#[trigger] pool@[i]) by {
            if i < j {
                assert(pool@[i] == orig[i]);
            } else {
                assert(pool@[i] == orig[i + 1]);
            }
        }
        if orig.no_duplicates() {
            assert forall|a: int, b2: int|
                0 <= a < pool@.len() && 0 <= b2 < pool@.len() && a != b2 implies pool@.index(a)
                != pool@.index(b2) by {
                let fa: int = if a < j {
                    a
                } else {
                    a + 1
                };
                let fb: int = if b2 < j {
                    b2
                } else {
                    b2 + 1
                };
                assert(pool@[a] == orig[fa]);
                assert(pool@[b2] == orig[fb]);
            }
            assert forall|i: int| 0 <= i < pool@.len() implies pool@[i] != c by {
                let fi: int = if i < j {
                    i
                } else {
                    i + 1
                };
                assert(pool@[i] == orig[fi]);
                assert(c == orig[j as int]);
            }
            if pool@.contains(c) {
                let i = choose|i: int| 0 <= i < pool@.len() && pool@[i] == c;
                assert(false);
            }
        }
    }
    c
}

impl Board {
    /// A standard board dealt from the full card order with the given
    /// generator: the reproducible setup behind seeded games.
    pub fn new_rng(rng: &mut StdRng) -> (r: Board)
        ensures
            r.wf(),
            standard_layout(r),
    {
        let mut pool = all_cards();
        proof {
            lemma_all_cards_indexed();
        }
        let c0 = draw(&mut pool, rng);
        let c1 = draw(&mut pool, rng);
        let c2 = draw(&mut pool, rng);
        let c3 = draw(&mut pool, rng);
        let c4 = draw(&mut pool, rng);
        Board {
            wind_spirit: None,
            blue_king: Some(Point { x: 2, y: 0 }),
            blue_pawns: [
                Some(Point { x: 0, y: 0 }),
                Some(Point { x: 1, y: 0 }),
                Some(Point { x: 3, y: 0 }),
                Some(Point { x: 4, y: 0 }),
            ],
            blue_ninjas: [None, None],
            blue_hand: [c0, c1],
            red_king: Some(Point { x: 2, y: 4 }),
            red_pawns: [
                Some(Point { x: 0, y: 4 }),
                Some(Point { x: 1, y: 4 }),
                Some(Point { x: 3, y: 4 }),
                Some(Point { x: 4, y: 4 }),
            ],
            red_ninjas: [None, None],
            red_hand: [c2, c3],
            spare_card: c4,
            wind_move_pending: false,
            wind_move_card: None,
            shadow_mode: false,
            ninja_move_pending: false,
            ninja_move_card: None,
            turn: Player::Red,
        }
    }
}

impl GameState {
    /// A fresh game dealt with the given generator.
    pub fn new_rng(rng: &mut StdRng) -> (r: GameState)
        ensures
            r matches GameState::Playing { board } && board.wf() && standard_layout(board),
    {
        GameState::Playing { board: Board::new_rng(rng) }
    }
}

/// The card set a configuration name refers to, under either its short
/// or its display name.
pub open spec fn spec_parse_card_set(s: Seq<char>) -> Option<CardSet> {
    if s == "Base"@ || s == "Base Game"@ {
        Some(CardSet::Base)
    } else if s == "SenseiPath"@ || s == "Sensei's Path"@ {
        Some(CardSet::SenseiPath)
    } else if s == "PromotionalPack"@ || s == "Promotional Cards"@ {
        Some(CardSet::PromotionalPack)
    } else if s == "WayOfTheWind"@ || s == "Way of the Wind"@ {
        Some(CardSet::WayOfTheWind)
    } else {
        None
    }
}

/// Parse a configuration name into a card set.
fn parse_card_set(s: &String) -> (r: Option<CardSet>)
    ensures
        r == spec_parse_card_set(s@),
{
    if *s == "Base".to_string() || *s == "Base Game".to_string() {
        Some(CardSet::Base)
    } else if *s == "SenseiPath".to_string() || *s == "Sensei's Path".to_string() {
        Some(CardSet::SenseiPath)
    } else if *s == "PromotionalPack".to_string() || *s == "Promotional Cards".to_string() {
        Some(CardSet::PromotionalPack)
    } else if *s == "WayOfTheWind".to_string() || *s == "Way of the Wind".to_string() {
        Some(CardSet::WayOfTheWind)
    } else {
        None
    }
}

/// Whether the settings disable the given card set.
pub open spec fn spec_set_disabled(names: Seq<String>, cs: CardSet) -> bool {
    exists|i: int| 0 <= i < names.len() && spec_parse_card_set((#[trigger] names[i])@) == Some(cs)
}

/// Whether the settings name this card set among the disabled ones.
pub(crate) fn set_disabled(settings: &GameSettings, cs: CardSet) -> (r: bool)
    ensures
        r == spec_set_disabled(settings.disabled_card_sets@, cs),
{
    let mut i: usize = 0;
    while i < settings.disabled_card_sets.len()
        invariant
            i <= settings.disabled_card_sets@.len(),
            forall|j: int|
                0 <= j < i ==> spec_parse_card_set(
                    (#[trigger] settings.disabled_card_sets@[j])@,
                ) != Some(cs),
        decreases settings.disabled_card_sets@.len() - i,
    {
        let entry: &String = &settings.disabled_card_sets[i];
        let parsed = parse_card_set(entry);
        proof {
            assert(parsed == spec_parse_card_set((settings.disabled_card_sets@[i as int])@));
        }
        match parsed {
            Some(found) => {
                if found == cs {
                    proof {
                        assert(spec_parse_card_set((settings.disabled_card_sets@[i as int])@)
                            == Some(cs));
                        assert(spec_set_disabled(settings.disabled_card_sets@, cs));
                    }
                    return true;
                }
            },
            None => {},
        }
        i += 1;
    }
    false
}

/// Whether the settings leave a card's own set enabled.
pub open spec fn spec_card_enabled(settings: GameSettings, c: Card) -> bool {
    !spec_set_disabled(settings.disabled_card_sets@, spec_card_set(c))
}

/// An enabled card outside the Way of the Wind set.
pub open spec fn other_pool_card(settings: GameSettings, c: Card) -> bool {
    spec_card_enabled(settings, c) && !is_wind_card(c)
}

/// An enabled Way of the Wind card.
pub open spec fn wind_pool_card(settings: GameSettings, c: Card) -> bool {
    spec_card_enabled(settings, c) && is_wind_card(c)
}

/// How many enabled cards lie outside the Way of the Wind set.
pub open spec fn enabled_other_count(settings: GameSettings) -> int {
    all_cards_seq().filter(|c: Card| other_pool_card(settings, c)).len() as int
}

/// How many Way of the Wind cards are enabled.
pub open spec fn enabled_wind_count(settings: GameSettings) -> int {
    all_cards_seq().filter(|c: Card| wind_pool_card(settings, c)).len() as int
}

/// How many of five dealt cards belong to the Way of the Wind set.
pub open spec fn wind_count_five(rh: [Card; 2], bh: [Card; 2], sp: Card) -> int {
    (if is_wind_card(rh[0]) {
        1int
    } else {
        0
    }) + (if is_wind_card(rh[1]) {
        1int
    } else {
        0
    }) + (if is_wind_card(bh[0]) {
        1int
    } else {
        0
    }) + (if is_wind_card(bh[1]) {
        1int
    } else {
        0
    }) + (if is_wind_card(sp) {
        1int
    } else {
        0
    })
}

/// How many of a board's five visible cards belong to the Way of the
/// Wind set.
pub open spec fn wind_cards_dealt(b: Board) -> int {
    wind_count_five(b.red_hand, b.blue_hand, b.spare_card)
}

/// Whether all five of a board's cards come from enabled sets.
pub open spec fn deal_enabled(settings: GameSettings, b: Board) -> bool {
    &&& spec_card_enabled(settings, b.red_hand[0])
    &&& spec_card_enabled(settings, b.red_hand[1])
    &&& spec_card_enabled(settings, b.blue_hand[0])
    &&& spec_card_enabled(settings, b.blue_hand[1])
    &&& spec_card_enabled(settings, b.spare_card)
}

/// The standard rows: kings on their home columns, four pawns beside
/// each, no ninja anywhere, no shadow rule.
pub open spec fn standard_rows(b: Board) -> bool {
    &&& b.red_king == Some(Point { x: 2, y: 4 })
    &&& b.blue_king == Some(Point { x: 2, y: 0 })
    &&& b.red_pawns == [
        Some(Point { x: 0, y: 4 }),
        Some(Point { x: 1, y: 4 }),
        Some(Point { x: 3, y: 4 }),
        Some(Point { x: 4, y: 4 }),
    ]
    &&& b.blue_pawns == [
        Some(Point { x: 0, y: 0 }),
        Some(Point { x: 1, y: 0 }),
        Some(Point { x: 3, y: 0 }),
        Some(Point { x: 4, y: 0 }),
    ]
    &&& b.red_ninjas[0] is None
    &&& b.red_ninjas[1] is None
    &&& b.blue_ninjas[0] is None
    &&& b.blue_ninjas[1] is None
    &&& !b.shadow_mode
}

/// The Way of Shadow rows: two pawns and one concealed ninja per side,
/// the ninja on column 1 or 3 of its home row.
pub open spec fn shadow_rows(b: Board) -> bool {
    &&& b.shadow_mode
    &&& b.red_king == Some(Point { x: 2, y: 4 })
    &&& b.blue_king == Some(Point { x: 2, y: 0 })
    &&& b.red_pawns == [None, None, Some(Point { x: 0, y: 4 }), Some(Point { x: 4, y: 4 })]
    &&& b.blue_pawns == [None, None, Some(Point { x: 0, y: 0 }), Some(Point { x: 4, y: 0 })]
    &&& (b.red_ninjas[0] matches Some(n) && !n.revealed && n.pos.y == 4 && (n.pos.x == 1
        || n.pos.x == 3))
    &&& b.red_ninjas[1] is None
    &&& (b.blue_ninjas[0] matches Some(n) && !n.revealed && n.pos.y == 0 && (n.pos.x == 1
        || n.pos.x == 3))
    &&& b.blue_ninjas[1] is None
}

/// The Way of Light rows: the Shadow Master keeps no king and no pawn,
/// only two concealed ninjas on distinct squares of its home row.
pub open spec fn light_rows(b: Board) -> bool {
    &&& !b.shadow_mode
    &&& b.red_king == Some(Point { x: 2, y: 4 })
    &&& b.blue_king is None
    &&& b.red_pawns == [
        Some(Point { x: 0, y: 4 }),
        Some(Point { x: 1, y: 4 }),
        Some(Point { x: 3, y: 4 }),
        Some(Point { x: 4, y: 4 }),
    ]
    &&& b.blue_pawns == [None::<Point>, None, None, None]
    &&& b.red_ninjas[0] is None
    &&& b.red_ninjas[1] is None
    &&& (b.blue_ninjas[0] matches Some(n) && !n.revealed && n.pos.y == 0 && 0 <= n.pos.x <= 4)
    &&& (b.blue_ninjas[1] matches Some(n) && !n.revealed && n.pos.y == 0 && 0 <= n.pos.x <= 4)
    &&& (b.blue_ninjas[0] matches Some(n) && b.blue_ninjas[1] matches Some(m) ==> n.pos != m.pos)
}

/// Filtering a one-element card sequence keeps or drops its element.
proof fn lemma_filter_one_card(c: Card, p: spec_fn(Card) -> bool)
    ensures
        seq![c].filter(p) == if p(c) {
            seq![c]
        } else {
            Seq::<Card>::empty()
        },
{
    reveal_with_fuel(Seq::filter, 2);
    assert(seq![c].drop_last() =~= Seq::<Card>::empty());
    if p(c) {
        assert(seq![c].filter(p) =~= seq![c]);
    } else {
        assert(seq![c].filter(p) =~= Seq::<Card>::empty());
    }
}

/// A duplicate-free sequence stays duplicate-free when an element it
/// does not hold is pushed.
proof fn lemma_push_no_dup(s: Seq<Card>, x: Card)
    requires
        s.no_duplicates(),
        !s.contains(x),
    ensures
        s.push(x).no_duplicates(),
{
    assert forall|a: int, b2: int|
        0 <= a < s.push(x).len() && 0 <= b2 < s.push(x).len() && a != b2 implies s.push(x).index(a)
        != s.push(x).index(b2) by {
        if a < s.len() && b2 < s.len() {
            assert(s.push(x)[a] == s[a]);
            assert(s.push(x)[b2] == s[b2]);
        } else if a < s.len() {
            assert(s.push(x)[b2] == x);
            if s[a] == x {
                assert(s.contains(x));
            }
        } else {
            assert(s.push(x)[a] == x);
            if s[b2] == x {
                assert(s.contains(x));
            }
        }
    }
}

/// The enabled cards, split into the Way of the Wind pool and the rest,
/// each pool duplicate-free and holding exactly the enabled cards of
/// its kind.
#[verifier::rlimit(60)]
fn build_pools(settings: &GameSettings) -> (r: (Vec<Card>, Vec<Card>))
    ensures
        r.0@.no_duplicates(),
        r.1@.no_duplicates(),
        forall|i: int| 0 <= i < r.0@.len() ==> !is_wind_card(#[trigger] r.0@[i]),
        forall|i: int| 0 <= i < r.1@.len() ==> is_wind_card(#[trigger] r.1@[i]),
        forall|i: int| 0 <= i < r.0@.len() ==> spec_card_enabled(*settings, #[trigger] r.0@[i]),
        forall|i: int| 0 <= i < r.1@.len() ==> spec_card_enabled(*settings, #[trigger] r.1@[i]),
        r.0@.len() == enabled_other_count(*settings),
        r.1@.len() == enabled_wind_count(*settings),
{
    let deck = all_cards();
    proof {
        lemma_all_cards_indexed();
    }
    let mut other: Vec<Card> = Vec::new();
    let mut wind: Vec<Card> = Vec::new();
    let mut i: usize = 0;
    while i < deck.len()
        invariant
            i <= deck@.len(),
            deck@ == all_cards_seq(),
            deck@.no_duplicates(),
            other@.no_duplicates(),
            wind@.no_duplicates(),
            forall|k: int| 0 <= k < other@.len() ==> !is_wind_card(#[trigger] other@[k]),
            forall|k: int| 0 <= k < wind@.len() ==> is_wind_card(#[trigger] wind@[k]),
            forall|k: int|
                0 <= k < other@.len() ==> spec_card_enabled(*settings, #[trigger] other@[k]),
            forall|k: int|
                0 <= k < wind@.len() ==> spec_card_enabled(*settings, #[trigger] wind@[k]),
            other@.len() == deck@.take(i as int).filter(
                |c: Card| other_pool_card(*settings, c),
            ).len(),
            wind@.len() == deck@.take(i as int).filter(
                |c: Card| wind_pool_card(*settings, c),
            ).len(),
            forall|k: int|
                0 <= k < other@.len() ==> exists|j: int|
                    0 <= j < i && #[trigger] other@[k] == deck@[j],
            forall|k: int|
                0 <= k < wind@.len() ==> exists|j: int|
                    0 <= j < i && #[trigger] wind@[k] == deck@.index(j),
        decreases deck@.len() - i,
    {
        let card = deck[i];
        let enabled = match card.find_card_set() {
            Some(cs) => !set_disabled(settings, cs),
            None => false,
        };
        proof {
            assert(enabled == spec_card_enabled(*settings, deck@[i as int]));
            assert(deck@.take(i as int + 1) =~= deck@.take(i as int).push(deck@[i as int]));
            assert(deck@.take(i as int).push(deck@[i as int]) =~= deck@.take(i as int) + seq![
                deck@.index(i as int),
            ]);
            lemma_filter_one_card(deck@[i as int], |c: Card| other_pool_card(*settings, c));
            lemma_filter_one_card(deck@[i as int], |c: Card| wind_pool_card(*settings, c));
        }
        if enabled {
            if wind_card(card) {
                proof {
                    assert forall|k: int| 0 <= k < wind@.len() implies wind@[k] != card by {
                        let j = choose|j: int| 0 <= j < i && wind@[k] == deck@[j];
                        assert(deck@[j] != deck@[i as int]);
                    }
                    if wind@.contains(card) {
                        let k = choose|k: int| 0 <= k < wind@.len() && wind@[k] == card;
                        assert(false);
                    }
                    lemma_push_no_dup(wind@, card);
                }
                wind.push(card);
                proof {
                    assert forall|k: int|
                        0 <= k < wind@.len() implies exists|j: int|
                        0 <= j < i + 1 && #[trigger] wind@[k] == deck@[j] by {
                        if k == wind@.len() - 1 {
                            assert(wind@[k] == deck@[i as int]);
                        }
                    }
                }
            } else {
                proof {
                    assert forall|k: int| 0 <= k < other@.len() implies other@[k] != card by {
                        let j = choose|j: int| 0 <= j < i && other@[k] == deck@[j];
                        assert(deck@[j] != deck@[i as int]);
                    }
                    if other@.contains(card) {
                        let k = choose|k: int| 0 <= k < other@.len() && other@[k] == card;
                        assert(false);
                    }
                    lemma_push_no_dup(other@, card);
                }
                other.push(card);
                proof {
                    assert forall|k: int|
                        0 <= k < other@.len() implies exists|j: int|
                        0 <= j < i + 1 && #[trigger] other@[k] == deck@[j] by {
                        if k == other@.len() - 1 {
                            assert(other@[k] == deck@[i as int]);
                        }
                    }
                }
            }
        }
        i += 1;
    }
    proof {
        assert(deck@.take(deck@.len() as int) =~= deck@);
    }
    (other, wind)
}

/// Deal two hands and the spare: `nw` Way of the Wind cards and the
/// rest from the ordinary pool, in the fixed pattern. The five cards
/// dealt are pairwise distinct, drawn from the given pools, and
/// exactly `nw` of them are Way of the Wind cards.
#[verifier::rlimit(60)]
fn deal_hands(
    other_pool: &mut Vec<Card>,
    wind_pool: &mut Vec<Card>,
    nw: usize,
    rng: &mut StdRng,
) -> (r: ([Card; 2], [Card; 2], Card))
    requires
        nw <= 5,
        old(wind_pool)@.len() >= nw,
        old(other_pool)@.len() >= 5 - nw,
        old(other_pool)@.no_duplicates(),
        old(wind_pool)@.no_duplicates(),
        forall|i: int|
            0 <= i < old(other_pool)@.len() ==> !is_wind_card(#[trigger] old(other_pool)@[i]),
        forall|i: int|
            0 <= i < old(wind_pool)@.len() ==> is_wind_card(#[trigger] old(wind_pool)@[i]),
    ensures
        ({
            let (rh, bh, sp) = r;
            &&& rh[0] != rh[1]
            &&& bh[0] != bh[1]
            &&& rh[0] != bh[0]
            &&& rh[0] != bh[1]
            &&& rh[1] != bh[0]
            &&& rh[1] != bh[1]
            &&& sp != rh[0]
            &&& sp != rh[1]
            &&& sp != bh[0]
            &&& sp != bh[1]
            &&& wind_count_five(rh, bh, sp) == nw as int
            &&& (old(other_pool)@.contains(rh[0]) || old(wind_pool)@.contains(rh[0]))
            &&& (old(other_pool)@.contains(rh[1]) || old(wind_pool)@.contains(rh[1]))
            &&& (old(other_pool)@.contains(bh[0]) || old(wind_pool)@.contains(bh[0]))
            &&& (old(other_pool)@.contains(bh[1]) || old(wind_pool)@.contains(bh[1]))
            &&& (old(other_pool)@.contains(sp) || old(wind_pool)@.contains(sp))
        }),
{
    if nw == 0 {
        let c0 = draw(other_pool, rng);
        let c1 = draw(other_pool, rng);
        let c2 = draw(other_pool, rng);
        let c3 = draw(other_pool, rng);
        let c4 = draw(other_pool, rng);
        ([c0, c1], [c2, c3], c4)
    } else if nw == 1 {
        let c0 = draw(other_pool, rng);
        let c1 = draw(other_pool, rng);
        let c2 = draw(other_pool, rng);
        let c3 = draw(other_pool, rng);
        let w0 = draw(wind_pool, rng);
        ([c0, c1], [c2, c3], w0)
    } else if nw == 2 {
        let w0 = draw(wind_pool, rng);
        let w1 = draw(wind_pool, rng);
        let c0 = draw(other_pool, rng);
        let c1 = draw(other_pool, rng);
        let c2 = draw(other_pool, rng);
        ([w0, c0], [w1, c1], c2)
    } else if nw == 3 {
        let w0 = draw(wind_pool, rng);
        let w1 = draw(wind_pool, rng);
        let w2 = draw(wind_pool, rng);
        let c0 = draw(other_pool, rng);
        let c1 = draw(other_pool, rng);
        ([w0, c0], [w1, c1], w2)
    } else if nw == 4 {
        let w0 = draw(wind_pool, rng);
        let w1 = draw(wind_pool, rng);
        let w2 = draw(wind_pool, rng);
        let w3 = draw(wind_pool, rng);
        let c0 = draw(other_pool, rng);
        ([w0, w1], [w2, w3], c0)
    } else {
        let w0 = draw(wind_pool, rng);
        let w1 = draw(wind_pool, rng);
        let w2 = draw(wind_pool, rng);
        let w3 = draw(wind_pool, rng);
        let w4 = draw(wind_pool, rng);
        ([w0, w1], [w2, w3], w4)
    }
}

impl Board {
    /// A new game under the given settings: the deal honours the
    /// enabled card sets and the requested number of Way of the Wind
    /// cards wherever they suffice, the Wind Spirit enters when forced
    /// or by chance (never when its set is disabled), and the forced
    /// Way of Light and Shadow sub-modes replace the standard rows.
    /// Whatever was rolled, the board is well formed and Red is to move
    /// with no phase pending. Settings that leave fewer than five cards
    /// enabled are dealt from the full card order instead.
    #[verifier::rlimit(100)]
    pub fn new_with_settings(settings: GameSettings) -> (r: Board)
        ensures
            r.wf(),
            r.turn == Player::Red,
            !r.wind_move_pending,
            !r.ninja_move_pending,
            (!settings.force_light_and_shadow && !settings.enable_light_and_shadow)
                ==> standard_rows(r),
            (settings.force_light_and_shadow && (settings.light_and_shadow_mode matches Some(s)
                && s@ == "Shadow"@)) ==> shadow_rows(r),
            (settings.force_light_and_shadow && (settings.light_and_shadow_mode matches Some(s)
                && s@ == "Light"@)) ==> light_rows(r),
            (settings.force_wind_spirit_inclusion && !spec_set_disabled(
                settings.disabled_card_sets@,
                CardSet::WayOfTheWind,
            )) ==> r.wind_spirit == Some(Point { x: 2, y: 2 }),
            spec_set_disabled(settings.disabled_card_sets@, CardSet::WayOfTheWind)
                ==> r.wind_spirit is None,
            r.wind_spirit matches Some(p) ==> p == (Point { x: 2, y: 2 }),
            (enabled_other_count(settings) + enabled_wind_count(settings) >= 5) ==> deal_enabled(
                settings,
                r,
            ),
            (spec_set_disabled(settings.disabled_card_sets@, CardSet::WayOfTheWind)
                && enabled_other_count(settings) >= 5) ==> wind_cards_dealt(r) == 0,
            (settings.force_wind_spirit_inclusion && !spec_set_disabled(
                settings.disabled_card_sets@,
                CardSet::WayOfTheWind,
            ) && (settings.number_of_wind_cards matches Some(k) && k <= 5 && enabled_wind_count(
                settings,
            ) >= k as int && enabled_other_count(settings) >= 5 - k as int)) ==> wind_cards_dealt(
                r,
            ) == settings.number_of_wind_cards->0 as int,
    {
        let mut rng = rng_from_entropy();
        let include_las = settings.force_light_and_shadow || (settings.enable_light_and_shadow
            && rand_below(&mut rng, 100) < 5);
        let mode: u8 = if include_las {
            match &settings.light_and_shadow_mode {
                Some(s) => {
                    if *s == "Shadow".to_string() {
                        2
                    } else if *s == "Light".to_string() {
                        1
                    } else {
                        0
                    }
                },
                None => {
                    if rand_below(&mut rng, 100) < 70 {
                        2
                    } else {
                        1
                    }
                },
            }
        } else {
            0
        };
        let ws_disabled = set_disabled(&settings, CardSet::WayOfTheWind);
        let include_ws = !ws_disabled && (settings.force_wind_spirit_inclusion || rand_below(
            &mut rng,
            100,
        ) < 25);
        let (mut other_pool, mut wind_pool) = build_pools(&settings);
        let nw_raw: usize = if include_ws {
            match settings.number_of_wind_cards {
                Some(n) => n,
                None => {
                    let chance = rand_below(&mut rng, 100);
                    if chance < 10 {
                        0
                    } else if chance < 25 {
                        1
                    } else if chance < 60 {
                        2
                    } else if chance < 75 {
                        3
                    } else if chance < 90 {
                        4
                    } else {
                        5
                    }
                },
            }
        } else {
            0
        };
        let nw: usize = if nw_raw > 5 {
            5
        } else {
            nw_raw
        };
        let red_hand: [Card; 2];
        let blue_hand: [Card; 2];
        let spare: Card;
        let pools_suffice = other_pool.len() >= 5 || wind_pool.len() >= 5 - other_pool.len();
        if pools_suffice {
            // shift the wind share only as far as the pools force
            let nw_min: usize = if other_pool.len() >= 5 {
                0
            } else {
                5 - other_pool.len()
            };
            let nw_cap: usize = if wind_pool.len() < nw {
                wind_pool.len()
            } else {
                nw
            };
            let nw2: usize = if nw_cap < nw_min {
                nw_min
            } else {
                nw_cap
            };
            let (rh, bh, sp) = deal_hands(&mut other_pool, &mut wind_pool, nw2, &mut rng);
            red_hand = rh;
            blue_hand = bh;
            spare = sp;
        } else {
            // fewer than five cards enabled: deal from the full order
            let mut pool = all_cards();
            proof {
                lemma_all_cards_indexed();
            }
            let c0 = draw(&mut pool, &mut rng);
            let c1 = draw(&mut pool, &mut rng);
            let c2 = draw(&mut pool, &mut rng);
            let c3 = draw(&mut pool, &mut rng);
            let c4 = draw(&mut pool, &mut rng);
            red_hand = [c0, c1];
            blue_hand = [c2, c3];
            spare = c4;
        }
        let mut board = Board {
            wind_spirit: if include_ws {
                Some(Point { x: 2, y: 2 })
            } else {
                None
            },
            blue_king: Some(Point { x: 2, y: 0 }),
            blue_pawns: [
                Some(Point { x: 0, y: 0 }),
                Some(Point { x: 1, y: 0 }),
                Some(Point { x: 3, y: 0 }),
                Some(Point { x: 4, y: 0 }),
            ],
            blue_ninjas: [None, None],
            blue_hand,
            red_king: Some(Point { x: 2, y: 4 }),
            red_pawns: [
                Some(Point { x: 0, y: 4 }),
                Some(Point { x: 1, y: 4 }),
                Some(Point { x: 3, y: 4 }),
                Some(Point { x: 4, y: 4 }),
            ],
            red_ninjas: [None, None],
            red_hand,
            spare_card: spare,
            wind_move_pending: false,
            wind_move_card: None,
            shadow_mode: false,
            ninja_move_pending: false,
            ninja_move_card: None,
            turn: Player::Red,
        };
        if mode == 1 {
            board.blue_pawns = [None, None, None, None];
            board.blue_king = None;
            let x0u = rand_below(&mut rng, 5);
            let ku = rand_below(&mut rng, 4);
            let x1u = if ku >= x0u {
                ku + 1
            } else {
                ku
            };
            let x0 = x0u as i8;
            let x1 = x1u as i8;
            board.blue_ninjas = [
                Some(Ninja { pos: Point { x: x0, y: 0 }, revealed: false }),
                Some(Ninja { pos: Point { x: x1, y: 0 }, revealed: false }),
            ];
        } else if mode == 2 {
            board.shadow_mode = true;
            let red_x: i8 = if rand_below(&mut rng, 2) == 0 {
                1
            } else {
                3
            };
            let blue_x: i8 = if rand_below(&mut rng, 2) == 0 {
                1
            } else {
                3
            };
            board.red_pawns = [None, None, Some(Point { x: 0, y: 4 }), Some(Point { x: 4, y: 4 })];
            board.red_ninjas = [
                Some(Ninja { pos: Point { x: red_x, y: 4 }, revealed: false }),
                None,
            ];
            board.blue_pawns = [None, None, Some(Point { x: 0, y: 0 }), Some(Point { x: 4, y: 0 })];
            board.blue_ninjas = [
                Some(Ninja { pos: Point { x: blue_x, y: 0 }, revealed: false }),
                None,
            ];
        }
        proof {
            // the two sub-mode names never collide
            reveal_strlit("Light");
            reveal_strlit("Shadow");
            assert("Light"@.len() != "Shadow"@.len());
        }
        board
    }

    /// A new game under the default settings.
    pub fn new() -> (r: Board)
        ensures
            r.wf(),
            r.turn == Player::Red,
            !r.wind_move_pending,
            !r.ninja_move_pending,
    {
        Board::new_with_settings(GameSettings::default())
    }
}

impl GameState {
    /// A fresh game under the default settings.
    pub fn new() -> (r: GameState)
        ensures
            r matches GameState::Playing { board } && board.wf() && board.turn == Player::Red,
    {
        GameState::Playing { board: Board::new_with_settings(GameSettings::default()) }
    }

    /// A fresh game under the given settings.
    pub fn new_with_settings(settings: GameSettings) -> (r: GameState)
        ensures
            r matches GameState::Playing { board } && board.wf() && board.turn == Player::Red,
    {
        GameState::Playing { board: Board::new_with_settings(settings) }
    }
}

/// One hundred distinct in-progress positions reached by random play
/// from seeded deals: reproducible inputs for tests and benchmarks.
pub fn generate_test_states() -> (r: Vec<GameState>)
    ensures
        r@.len() == 100,
        forall|i: int| 0 <= i < r@.len() ==> (#[trigger] r@[i]) is Playing,
        forall|i: int|
            0 <= i < r@.len() ==> crate::ninja_logic::state_no_hidden(#[trigger] r@[i]),
{
    let mut rng = rng_from_seed(0);
    let mut states: Vec<GameState> = Vec::new();
    while states.len() < 100
        invariant
            forall|i: int| 0 <= i < states@.len() ==> (#[trigger] states@[i]) is Playing,
            forall|i: int|
                0 <= i < states@.len() ==> crate::ninja_logic::state_no_hidden(
                    #[trigger] states@[i],
                ),
        decreases (if states@.len() <= 100 {
            100 - states@.len()
        } else {
            0int
        }),
    {
        let ghost before = states@.len();
        let mut st = GameState::new_rng(&mut rng);
        states.push(st);
        let mut ply: u32 = 0;
        while ply < 1000
            invariant
                forall|i: int| 0 <= i < states@.len() ==> (#[trigger] states@[i]) is Playing,
                forall|i: int|
                    0 <= i < states@.len() ==> crate::ninja_logic::state_no_hidden(
                        #[trigger] states@[i],
                    ),
                states@.len() > before,
                st is Playing,
                crate::ninja_logic::state_no_hidden(st),
            decreases 1000 - ply,
        {
            let board = match st {
                GameState::Playing { board } => board,
                GameState::Finished { .. } => {
                    break ;
                },
            };
            match board.random_legal_move(&mut rng) {
                None => {
                    break ;
                },
                Some(m) => {
                    match board.try_move(m) {
                        Ok(next) => {
                            proof {
                                crate::alphabeta::lemma_apply_no_hidden(board, m);
                            }
                            match next {
                                GameState::Playing { .. } => {
                                    states.push(next);
                                    st = next;
                                },
                                GameState::Finished { .. } => {
                                    break ;
                                },
                            }
                        },
                        Err(_) => {
                            break ;
                        },
                    }
                },
            }
            ply += 1;
        }
    }
    while states.len() > 100
        invariant
            states@.len() >= 100,
            forall|i: int| 0 <= i < states@.len() ==> (#[trigger] states@[i]) is Playing,
            forall|i: int|
                0 <= i < states@.len() ==> crate::ninja_logic::state_no_hidden(
                    #[trigger] states@[i],
                ),
        decreases states@.len(),
    {
        let _ = states.pop();
    }
    states
}

}
