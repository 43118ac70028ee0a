//! The card catalog: each card's movement offsets (conditioned on the
//! moving piece being a King or the Wind Spirit), its left/right bias,
//! its position in the fixed card order, and the four expansion sets.

use vstd::prelude::*;

use crate::models::Card;
use crate::models::CardDirection;
use crate::models::CardSet;
use crate::models::Point;

verus! {

/// An offset, written compactly in the tables below.
pub open spec fn off(x: int, y: int) -> Point {
    Point { x: x as i8, y: y as i8 }
}

/// The offsets `card` grants to a piece, from the moving player's own
/// point of view (negative y is forwards). `is_king` selects the King
/// pattern of the cards that have one; `is_spirit` selects the wind
/// pattern that Way of the Wind cards grant to the Wind Spirit alone.
pub open spec fn card_moves(card: Card, is_king: bool, is_spirit: bool) -> Seq<Point> {
    match card {
        Card::Tiger => seq![off(0, -2), off(0, 1)],
        Card::Dragon => seq![off(-2, -1), off(-1, 1), off(2, -1), off(1, 1)],
        Card::Frog => seq![off(-2, 0), off(-1, -1), off(1, 1)],
        Card::Rabbit => seq![off(1, -1), off(2, 0), off(-1, 1)],
        Card::Crab => seq![off(0, -1), off(-2, 0), off(2, 0)],
        Card::Elephant => seq![off(1, 0), off(-1, -1), off(1, -1), off(-1, 0)],
        Card::Goose => seq![off(-1, 0), off(-1, -1), off(1, 0), off(1, 1)],
        Card::Rooster => seq![off(1, 0), off(1, -1), off(-1, 0), off(-1, 1)],
        Card::Monkey => seq![off(-1, -1), off(1, -1), off(-1, 1), off(1, 1)],
        Card::Mantis => seq![off(-1, -1), off(1, -1), off(0, 1)],
        Card::Horse => seq![off(0, -1), off(-1, 0), off(0, 1)],
        Card::Ox => seq![off(0, -1), off(1, 0), off(0, 1)],
        Card::Crane => seq![off(0, -1), off(1, 1), off(-1, 1)],
        Card::Boar => seq![off(0, -1), off(1, 0), off(-1, 0)],
        Card::Eel => seq![off(1, 0), off(-1, -1), off(-1, 1)],
        Card::Cobra => seq![off(-1, 0), off(1, -1), off(1, 1)],
        Card::Fox => seq![off(1, -1), off(1, 0), off(1, 1)],
        Card::Dog => seq![off(-1, -1), off(-1, 0), off(-1, 1)],
        Card::Giraffe => seq![off(-2, -1), off(2, -1), off(0, 1)],
        Card::Panda => seq![off(-1, 1), off(0, -1), off(1, -1)],
        Card::Bear => seq![off(1, 1), off(0, -1), off(-1, -1)],
        Card::Kirin => seq![off(0, 2), off(1, -2), off(-1, -2)],
        Card::SeaSnake => seq![off(-1, 1), off(0, -1), off(2, 0)],
        Card::Viper => seq![off(1, 1), off(0, -1), off(-2, 0)],
        Card::Phoenix => seq![off(-2, 0), off(-1, -1), off(1, -1), off(2, 0)],
        Card::Mouse => seq![off(-1, 1), off(0, -1), off(1, 0)],
        Card::Rat => seq![off(1, 1), off(0, -1), off(-1, 0)],
        Card::Turtle => seq![off(-2, 0), off(-1, 1), off(1, 1), off(2, 0)],
        Card::Tanuki => seq![off(-1, 1), off(0, -1), off(2, -1)],
        Card::Iguana => seq![off(1, 1), off(0, -1), off(-2, -1)],
        Card::Sable => seq![off(-2, 0), off(-1, 1), off(1, -1)],
        Card::Otter => seq![off(2, 0), off(1, 1), off(-1, -1)],
        Card::Bat => if is_spirit { seq![off(-2, -1), off(-1, -1), off(1, -1), off(2, -1)] } else { seq![off(0, 1), off(0, -1)] },
        Card::Eagle => if is_spirit { seq![off(-2, -2), off(2, -2)] } else { seq![off(-1, -1), off(1, -1)] },
        Card::Hawk => if is_spirit { seq![off(-2, 0), off(-2, -1), off(2, -1), off(2, 0)] } else { seq![off(-1, -1), off(-1, 1)] },
        Card::Lion => if is_spirit { seq![off(0, -1), off(0, -2)] } else { seq![off(-1, 1), off(1, -1)] },
        Card::Octopus => if is_spirit { seq![off(-1, 0), off(-1, 1), off(0, -1), off(0, 1), off(1, 0), off(1, 1)] } else { seq![off(-1, -1), off(1, 1)] },
        Card::Rhinoceros => if is_spirit { seq![off(-2, 0), off(-1, -1), off(0, -1), off(1, -1), off(2, 0)] } else { seq![off(-1, -1), off(0, 1)] },
        Card::Scorpion => if is_spirit { seq![off(-2, -1), off(-1, -2), off(1, -2), off(2, -1)] } else { seq![off(1, 1), off(1, -1)] },
        Card::Spider => if is_spirit { seq![off(-1, -1), off(0, -1), off(0, 1), off(1, -1)] } else { seq![off(1, -1), off(0, 1)] },
        Card::Goat => seq![off(-1, 0), off(0, 1), off(1, -1)],
        Card::Sheep => seq![off(1, 0), off(0, 1), off(-1, -1)],
        Card::Lobster => seq![off(-1, -1), off(-1, 2), off(1, -1), off(1, 2)],
        Card::Steer => seq![off(1, 0), off(-1, 1), off(1, 1), off(-1, 0)],
        Card::Hornet => seq![off(-2, 2), off(0, -1), off(1, 0)],
        Card::Centipede => seq![off(-1, 0), off(0, -1), off(2, 2)],
        Card::Cat => seq![off(-1, 0), off(0, -1), off(0, 2), off(2, 0)],
        Card::Serow => seq![off(-2, 0), off(0, -1), off(0, 2), off(1, 0)],
        Card::Nessie => seq![off(-2, -1), off(2, 0), off(-1, 1), off(1, 1)],
        Card::Butterfly => seq![off(-2, -1), off(2, -1), off(0, 1)],
        Card::Moth => seq![off(-2, 1), off(2, 1), off(0, -1)],
        Card::Okija => if is_king { seq![off(-2, -2), off(2, -2)] } else { seq![off(0, -1)] },
        Card::Mejika => if is_king { seq![off(0, -1)] } else { seq![off(-2, -1), off(2, -1)] },
        Card::Kumo => if is_king { seq![off(-2, 0), off(2, 0)] } else { seq![off(-1, -1), off(1, -1)] },
        Card::Sasori => if is_king { seq![off(-1, -2), off(1, -2)] } else { seq![off(-2, 0), off(2, 0)] },
    }
}

/// The left/right bias of each card.
pub open spec fn spec_direction(card: Card) -> CardDirection {
    match card {
        Card::Tiger => CardDirection::Balanced,
        Card::Dragon => CardDirection::Balanced,
        Card::Frog => CardDirection::Left,
        Card::Rabbit => CardDirection::Right,
        Card::Crab => CardDirection::Balanced,
        Card::Elephant => CardDirection::Balanced,
        Card::Goose => CardDirection::Left,
        Card::Rooster => CardDirection::Right,
        Card::Monkey => CardDirection::Balanced,
        Card::Mantis => CardDirection::Balanced,
        Card::Horse => CardDirection::Left,
        Card::Ox => CardDirection::Right,
        Card::Crane => CardDirection::Balanced,
        Card::Boar => CardDirection::Balanced,
        Card::Eel => CardDirection::Left,
        Card::Cobra => CardDirection::Right,
        Card::Fox => CardDirection::Right,
        Card::Dog => CardDirection::Left,
        Card::Giraffe => CardDirection::Balanced,
        Card::Panda => CardDirection::Right,
        Card::Bear => CardDirection::Left,
        Card::Kirin => CardDirection::Balanced,
        Card::SeaSnake => CardDirection::Right,
        Card::Viper => CardDirection::Left,
        Card::Phoenix => CardDirection::Balanced,
        Card::Mouse => CardDirection::Right,
        Card::Rat => CardDirection::Left,
        Card::Turtle => CardDirection::Balanced,
        Card::Tanuki => CardDirection::Right,
        Card::Iguana => CardDirection::Left,
        Card::Sable => CardDirection::Right,
        Card::Otter => CardDirection::Left,
        Card::Bat => CardDirection::Balanced,
        Card::Eagle => CardDirection::Balanced,
        Card::Hawk => CardDirection::Left,
        Card::Lion => CardDirection::Right,
        Card::Octopus => CardDirection::Left,
        Card::Rhinoceros => CardDirection::Left,
        Card::Scorpion => CardDirection::Right,
        Card::Spider => CardDirection::Right,
        Card::Goat => CardDirection::Right,
        Card::Sheep => CardDirection::Left,
        Card::Lobster => CardDirection::Balanced,
        Card::Steer => CardDirection::Balanced,
        Card::Hornet => CardDirection::Right,
        Card::Centipede => CardDirection::Left,
        Card::Cat => CardDirection::Right,
        Card::Serow => CardDirection::Left,
        Card::Nessie => CardDirection::Balanced,
        Card::Butterfly => CardDirection::Balanced,
        Card::Moth => CardDirection::Balanced,
        Card::Okija => CardDirection::Balanced,
        Card::Mejika => CardDirection::Balanced,
        Card::Kumo => CardDirection::Balanced,
        Card::Sasori => CardDirection::Balanced,
    }
}

/// Every card's position in the fixed card order.
pub open spec fn card_index(card: Card) -> u32 {
    match card {
        Card::Tiger => 0,
        Card::Dragon => 1,
        Card::Frog => 2,
        Card::Rabbit => 3,
        Card::Crab => 4,
        Card::Elephant => 5,
        Card::Goose => 6,
        Card::Rooster => 7,
        Card::Monkey => 8,
        Card::Mantis => 9,
        Card::Horse => 10,
        Card::Ox => 11,
        Card::Crane => 12,
        Card::Boar => 13,
        Card::Eel => 14,
        Card::Cobra => 15,
        Card::Fox => 16,
        Card::Dog => 17,
        Card::Giraffe => 18,
        Card::Panda => 19,
        Card::Bear => 20,
        Card::Kirin => 21,
        Card::SeaSnake => 22,
        Card::Viper => 23,
        Card::Phoenix => 24,
        Card::Mouse => 25,
        Card::Rat => 26,
        Card::Turtle => 27,
        Card::Tanuki => 28,
        Card::Iguana => 29,
        Card::Sable => 30,
        Card::Otter => 31,
        Card::Bat => 32,
        Card::Eagle => 33,
        Card::Hawk => 34,
        Card::Lion => 35,
        Card::Octopus => 36,
        Card::Rhinoceros => 37,
        Card::Scorpion => 38,
        Card::Spider => 39,
        Card::Goat => 40,
        Card::Sheep => 41,
        Card::Lobster => 42,
        Card::Steer => 43,
        Card::Hornet => 44,
        Card::Centipede => 45,
        Card::Cat => 46,
        Card::Serow => 47,
        Card::Nessie => 48,
        Card::Butterfly => 49,
        Card::Moth => 50,
        Card::Okija => 51,
        Card::Mejika => 52,
        Card::Kumo => 53,
        Card::Sasori => 54,
    }
}

/// The expansion set that each card belongs to.
pub open spec fn spec_card_set(card: Card) -> CardSet {
    match card {
        Card::Tiger => CardSet::Base,
        Card::Dragon => CardSet::Base,
        Card::Frog => CardSet::Base,
        Card::Rabbit => CardSet::Base,
        Card::Crab => CardSet::Base,
        Card::Elephant => CardSet::Base,
        Card::Goose => CardSet::Base,
        Card::Rooster => CardSet::Base,
        Card::Monkey => CardSet::Base,
        Card::Mantis => CardSet::Base,
        Card::Horse => CardSet::Base,
        Card::Ox => CardSet::Base,
        Card::Crane => CardSet::Base,
        Card::Boar => CardSet::Base,
        Card::Eel => CardSet::Base,
        Card::Cobra => CardSet::Base,
        Card::Fox => CardSet::SenseiPath,
        Card::Dog => CardSet::SenseiPath,
        Card::Giraffe => CardSet::SenseiPath,
        Card::Panda => CardSet::SenseiPath,
        Card::Bear => CardSet::SenseiPath,
        Card::Kirin => CardSet::SenseiPath,
        Card::SeaSnake => CardSet::SenseiPath,
        Card::Viper => CardSet::SenseiPath,
        Card::Phoenix => CardSet::SenseiPath,
        Card::Mouse => CardSet::SenseiPath,
        Card::Rat => CardSet::SenseiPath,
        Card::Turtle => CardSet::SenseiPath,
        Card::Tanuki => CardSet::SenseiPath,
        Card::Iguana => CardSet::SenseiPath,
        Card::Sable => CardSet::SenseiPath,
        Card::Otter => CardSet::SenseiPath,
        Card::Bat => CardSet::WayOfTheWind,
        Card::Eagle => CardSet::WayOfTheWind,
        Card::Hawk => CardSet::WayOfTheWind,
        Card::Lion => CardSet::WayOfTheWind,
        Card::Octopus => CardSet::WayOfTheWind,
        Card::Rhinoceros => CardSet::WayOfTheWind,
        Card::Scorpion => CardSet::WayOfTheWind,
        Card::Spider => CardSet::WayOfTheWind,
        Card::Goat => CardSet::PromotionalPack,
        Card::Sheep => CardSet::PromotionalPack,
        Card::Lobster => CardSet::PromotionalPack,
        Card::Steer => CardSet::PromotionalPack,
        Card::Hornet => CardSet::PromotionalPack,
        Card::Centipede => CardSet::PromotionalPack,
        Card::Cat => CardSet::PromotionalPack,
        Card::Serow => CardSet::PromotionalPack,
        Card::Nessie => CardSet::PromotionalPack,
        Card::Butterfly => CardSet::PromotionalPack,
        Card::Moth => CardSet::PromotionalPack,
        Card::Okija => CardSet::PromotionalPack,
        Card::Mejika => CardSet::PromotionalPack,
        Card::Kumo => CardSet::PromotionalPack,
        Card::Sasori => CardSet::PromotionalPack,
    }
}

/// Whether a card belongs to the Way of the Wind set. Such a card,
/// when played, mandates a chained Wind Spirit sub-move, and cannot be
/// used to move the Wind Spirit itself in an ordinary turn.
pub open spec fn is_wind_card(card: Card) -> bool {
    spec_card_set(card) == CardSet::WayOfTheWind
}

/// The cards of each expansion set, in catalog order.
pub open spec fn card_set_cards(set: CardSet) -> Seq<Card> {
    match set {
        CardSet::Base => seq![Card::Boar, Card::Crab, Card::Elephant, Card::Dragon, Card::Monkey, Card::Tiger, Card::Crane, Card::Mantis, Card::Eel, Card::Cobra, Card::Frog, Card::Rabbit, Card::Goose, Card::Rooster, Card::Horse, Card::Ox],
        CardSet::SenseiPath => seq![Card::Giraffe, Card::Kirin, Card::Phoenix, Card::Turtle, Card::Bear, Card::Panda, Card::Dog, Card::Fox, Card::Iguana, Card::Tanuki, Card::Rat, Card::Mouse, Card::Otter, Card::Sable, Card::Viper, Card::SeaSnake],
        CardSet::PromotionalPack => seq![Card::Sheep, Card::Goat, Card::Okija, Card::Mejika, Card::Kumo, Card::Sasori, Card::Lobster, Card::Steer, Card::Centipede, Card::Hornet, Card::Nessie, Card::Serow, Card::Cat, Card::Butterfly, Card::Moth],
        CardSet::WayOfTheWind => seq![Card::Bat, Card::Eagle, Card::Hawk, Card::Lion, Card::Octopus, Card::Rhinoceros, Card::Scorpion, Card::Spider],
    }
}

/// All 55 cards, in the fixed card order.
pub open spec fn all_cards_seq() -> Seq<Card> {
    seq![Card::Tiger, Card::Dragon, Card::Frog, Card::Rabbit, Card::Crab, Card::Elephant, Card::Goose, Card::Rooster, Card::Monkey, Card::Mantis, Card::Horse, Card::Ox, Card::Crane, Card::Boar, Card::Eel, Card::Cobra, Card::Fox, Card::Dog, Card::Giraffe, Card::Panda, Card::Bear, Card::Kirin, Card::SeaSnake, Card::Viper, Card::Phoenix, Card::Mouse, Card::Rat, Card::Turtle, Card::Tanuki, Card::Iguana, Card::Sable, Card::Otter, Card::Bat, Card::Eagle, Card::Hawk, Card::Lion, Card::Octopus, Card::Rhinoceros, Card::Scorpion, Card::Spider, Card::Goat, Card::Sheep, Card::Lobster, Card::Steer, Card::Hornet, Card::Centipede, Card::Cat, Card::Serow, Card::Nessie, Card::Butterfly, Card::Moth, Card::Okija, Card::Mejika, Card::Kumo, Card::Sasori]
}

fn pt(x: i8, y: i8) -> (r: Point)
    ensures r == off(x as int, y as int),
{
    Point { x, y }
}

fn pts1(p0: Point) -> (r: Vec<Point>)
    ensures r@ =~= seq![p0],
{
    let mut v: Vec<Point> = Vec::new();
    v.push(p0);
    v
}

fn pts2(p0: Point, p1: Point) -> (r: Vec<Point>)
    ensures r@ =~= seq![p0, p1],
{
    let mut v: Vec<Point> = Vec::new();
    v.push(p0);
    v.push(p1);
    v
}

fn pts3(p0: Point, p1: Point, p2: Point) -> (r: Vec<Point>)
    ensures r@ =~= seq![p0, p1, p2],
{
    let mut v: Vec<Point> = Vec::new();
    v.push(p0);
    v.push(p1);
    v.push(p2);
    v
}

fn pts4(p0: Point, p1: Point, p2: Point, p3: Point) -> (r: Vec<Point>)
    ensures r@ =~= seq![p0, p1, p2, p3],
{
    let mut v: Vec<Point> = Vec::new();
    v.push(p0);
    v.push(p1);
    v.push(p2);
    v.push(p3);
    v
}

fn pts5(p0: Point, p1: Point, p2: Point, p3: Point, p4: Point) -> (r: Vec<Point>)
    ensures r@ =~= seq![p0, p1, p2, p3, p4],
{
    let mut v: Vec<Point> = Vec::new();
    v.push(p0);
    v.push(p1);
    v.push(p2);
    v.push(p3);
    v.push(p4);
    v
}

fn pts6(p0: Point, p1: Point, p2: Point, p3: Point, p4: Point, p5: Point) -> (r: Vec<Point>)
    ensures r@ =~= seq![p0, p1, p2, p3, p4, p5],
{
    let mut v: Vec<Point> = Vec::new();
    v.push(p0);
    v.push(p1);
    v.push(p2);
    v.push(p3);
    v.push(p4);
    v.push(p5);
    v
}

impl Card {
    /// The offsets this card grants, from the moving player's own point
    /// of view, for a piece of the given role.
    pub fn moves(&self, is_king: bool, is_spirit: bool) -> (r: Vec<Point>)
        ensures r@ == card_moves(*self, is_king, is_spirit),
    {
        match self {
            Card::Tiger => pts2(pt(0, -2), pt(0, 1)),
            Card::Dragon => pts4(pt(-2, -1), pt(-1, 1), pt(2, -1), pt(1, 1)),
            Card::Frog => pts3(pt(-2, 0), pt(-1, -1), pt(1, 1)),
            Card::Rabbit => pts3(pt(1, -1), pt(2, 0), pt(-1, 1)),
            Card::Crab => pts3(pt(0, -1), pt(-2, 0), pt(2, 0)),
            Card::Elephant => pts4(pt(1, 0), pt(-1, -1), pt(1, -1), pt(-1, 0)),
            Card::Goose => pts4(pt(-1, 0), pt(-1, -1), pt(1, 0), pt(1, 1)),
            Card::Rooster => pts4(pt(1, 0), pt(1, -1), pt(-1, 0), pt(-1, 1)),
            Card::Monkey => pts4(pt(-1, -1), pt(1, -1), pt(-1, 1), pt(1, 1)),
            Card::Mantis => pts3(pt(-1, -1), pt(1, -1), pt(0, 1)),
            Card::Horse => pts3(pt(0, -1), pt(-1, 0), pt(0, 1)),
            Card::Ox => pts3(pt(0, -1), pt(1, 0), pt(0, 1)),
            Card::Crane => pts3(pt(0, -1), pt(1, 1), pt(-1, 1)),
            Card::Boar => pts3(pt(0, -1), pt(1, 0), pt(-1, 0)),
            Card::Eel => pts3(pt(1, 0), pt(-1, -1), pt(-1, 1)),
            Card::Cobra => pts3(pt(-1, 0), pt(1, -1), pt(1, 1)),
            Card::Fox => pts3(pt(1, -1), pt(1, 0), pt(1, 1)),
            Card::Dog => pts3(pt(-1, -1), pt(-1, 0), pt(-1, 1)),
            Card::Giraffe => pts3(pt(-2, -1), pt(2, -1), pt(0, 1)),
            Card::Panda => pts3(pt(-1, 1), pt(0, -1), pt(1, -1)),
            Card::Bear => pts3(pt(1, 1), pt(0, -1), pt(-1, -1)),
            Card::Kirin => pts3(pt(0, 2), pt(1, -2), pt(-1, -2)),
            Card::SeaSnake => pts3(pt(-1, 1), pt(0, -1), pt(2, 0)),
            Card::Viper => pts3(pt(1, 1), pt(0, -1), pt(-2, 0)),
            Card::Phoenix => pts4(pt(-2, 0), pt(-1, -1), pt(1, -1), pt(2, 0)),
            Card::Mouse => pts3(pt(-1, 1), pt(0, -1), pt(1, 0)),
            Card::Rat => pts3(pt(1, 1), pt(0, -1), pt(-1, 0)),
            Card::Turtle => pts4(pt(-2, 0), pt(-1, 1), pt(1, 1), pt(2, 0)),
            Card::Tanuki => pts3(pt(-1, 1), pt(0, -1), pt(2, -1)),
            Card::Iguana => pts3(pt(1, 1), pt(0, -1), pt(-2, -1)),
            Card::Sable => pts3(pt(-2, 0), pt(-1, 1), pt(1, -1)),
            Card::Otter => pts3(pt(2, 0), pt(1, 1), pt(-1, -1)),
            Card::Bat => if is_spirit { pts4(pt(-2, -1), pt(-1, -1), pt(1, -1), pt(2, -1)) } else { pts2(pt(0, 1), pt(0, -1)) },
            Card::Eagle => if is_spirit { pts2(pt(-2, -2), pt(2, -2)) } else { pts2(pt(-1, -1), pt(1, -1)) },
            Card::Hawk => if is_spirit { pts4(pt(-2, 0), pt(-2, -1), pt(2, -1), pt(2, 0)) } else { pts2(pt(-1, -1), pt(-1, 1)) },
            Card::Lion => if is_spirit { pts2(pt(0, -1), pt(0, -2)) } else { pts2(pt(-1, 1), pt(1, -1)) },
            Card::Octopus => if is_spirit { pts6(pt(-1, 0), pt(-1, 1), pt(0, -1), pt(0, 1), pt(1, 0), pt(1, 1)) } else { pts2(pt(-1, -1), pt(1, 1)) },
            Card::Rhinoceros => if is_spirit { pts5(pt(-2, 0), pt(-1, -1), pt(0, -1), pt(1, -1), pt(2, 0)) } else { pts2(pt(-1, -1), pt(0, 1)) },
            Card::Scorpion => if is_spirit { pts4(pt(-2, -1), pt(-1, -2), pt(1, -2), pt(2, -1)) } else { pts2(pt(1, 1), pt(1, -1)) },
            Card::Spider => if is_spirit { pts4(pt(-1, -1), pt(0, -1), pt(0, 1), pt(1, -1)) } else { pts2(pt(1, -1), pt(0, 1)) },
            Card::Goat => pts3(pt(-1, 0), pt(0, 1), pt(1, -1)),
            Card::Sheep => pts3(pt(1, 0), pt(0, 1), pt(-1, -1)),
            Card::Lobster => pts4(pt(-1, -1), pt(-1, 2), pt(1, -1), pt(1, 2)),
            Card::Steer => pts4(pt(1, 0), pt(-1, 1), pt(1, 1), pt(-1, 0)),
            Card::Hornet => pts3(pt(-2, 2), pt(0, -1), pt(1, 0)),
            Card::Centipede => pts3(pt(-1, 0), pt(0, -1), pt(2, 2)),
            Card::Cat => pts4(pt(-1, 0), pt(0, -1), pt(0, 2), pt(2, 0)),
            Card::Serow => pts4(pt(-2, 0), pt(0, -1), pt(0, 2), pt(1, 0)),
            Card::Nessie => pts4(pt(-2, -1), pt(2, 0), pt(-1, 1), pt(1, 1)),
            Card::Butterfly => pts3(pt(-2, -1), pt(2, -1), pt(0, 1)),
            Card::Moth => pts3(pt(-2, 1), pt(2, 1), pt(0, -1)),
            Card::Okija => if is_king { pts2(pt(-2, -2), pt(2, -2)) } else { pts1(pt(0, -1)) },
            Card::Mejika => if is_king { pts1(pt(0, -1)) } else { pts2(pt(-2, -1), pt(2, -1)) },
            Card::Kumo => if is_king { pts2(pt(-2, 0), pt(2, 0)) } else { pts2(pt(-1, -1), pt(1, -1)) },
            Card::Sasori => if is_king { pts2(pt(-1, -2), pt(1, -2)) } else { pts2(pt(-2, 0), pt(2, 0)) },
        }
    }

    /// The left/right bias of this card.
    pub fn direction(&self) -> (r: CardDirection)
        ensures r == spec_direction(*self),
    {
        match self {
            Card::Tiger => CardDirection::Balanced,
            Card::Dragon => CardDirection::Balanced,
            Card::Frog => CardDirection::Left,
            Card::Rabbit => CardDirection::Right,
            Card::Crab => CardDirection::Balanced,
            Card::Elephant => CardDirection::Balanced,
            Card::Goose => CardDirection::Left,
            Card::Rooster => CardDirection::Right,
            Card::Monkey => CardDirection::Balanced,
            Card::Mantis => CardDirection::Balanced,
            Card::Horse => CardDirection::Left,
            Card::Ox => CardDirection::Right,
            Card::Crane => CardDirection::Balanced,
            Card::Boar => CardDirection::Balanced,
            Card::Eel => CardDirection::Left,
            Card::Cobra => CardDirection::Right,
            Card::Fox => CardDirection::Right,
            Card::Dog => CardDirection::Left,
            Card::Giraffe => CardDirection::Balanced,
            Card::Panda => CardDirection::Right,
            Card::Bear => CardDirection::Left,
            Card::Kirin => CardDirection::Balanced,
            Card::SeaSnake => CardDirection::Right,
            Card::Viper => CardDirection::Left,
            Card::Phoenix => CardDirection::Balanced,
            Card::Mouse => CardDirection::Right,
            Card::Rat => CardDirection::Left,
            Card::Turtle => CardDirection::Balanced,
            Card::Tanuki => CardDirection::Right,
            Card::Iguana => CardDirection::Left,
            Card::Sable => CardDirection::Right,
            Card::Otter => CardDirection::Left,
            Card::Bat => CardDirection::Balanced,
            Card::Eagle => CardDirection::Balanced,
            Card::Hawk => CardDirection::Left,
            Card::Lion => CardDirection::Right,
            Card::Octopus => CardDirection::Left,
            Card::Rhinoceros => CardDirection::Left,
            Card::Scorpion => CardDirection::Right,
            Card::Spider => CardDirection::Right,
            Card::Goat => CardDirection::Right,
            Card::Sheep => CardDirection::Left,
            Card::Lobster => CardDirection::Balanced,
            Card::Steer => CardDirection::Balanced,
            Card::Hornet => CardDirection::Right,
            Card::Centipede => CardDirection::Left,
            Card::Cat => CardDirection::Right,
            Card::Serow => CardDirection::Left,
            Card::Nessie => CardDirection::Balanced,
            Card::Butterfly => CardDirection::Balanced,
            Card::Moth => CardDirection::Balanced,
            Card::Okija => CardDirection::Balanced,
            Card::Mejika => CardDirection::Balanced,
            Card::Kumo => CardDirection::Balanced,
            Card::Sasori => CardDirection::Balanced,
        }
    }

    /// This card's position in the fixed card order.
    pub fn index(&self) -> (r: u32)
        ensures r == card_index(*self),
    {
        match self {
            Card::Tiger => 0,
            Card::Dragon => 1,
            Card::Frog => 2,
            Card::Rabbit => 3,
            Card::Crab => 4,
            Card::Elephant => 5,
            Card::Goose => 6,
            Card::Rooster => 7,
            Card::Monkey => 8,
            Card::Mantis => 9,
            Card::Horse => 10,
            Card::Ox => 11,
            Card::Crane => 12,
            Card::Boar => 13,
            Card::Eel => 14,
            Card::Cobra => 15,
            Card::Fox => 16,
            Card::Dog => 17,
            Card::Giraffe => 18,
            Card::Panda => 19,
            Card::Bear => 20,
            Card::Kirin => 21,
            Card::SeaSnake => 22,
            Card::Viper => 23,
            Card::Phoenix => 24,
            Card::Mouse => 25,
            Card::Rat => 26,
            Card::Turtle => 27,
            Card::Tanuki => 28,
            Card::Iguana => 29,
            Card::Sable => 30,
            Card::Otter => 31,
            Card::Bat => 32,
            Card::Eagle => 33,
            Card::Hawk => 34,
            Card::Lion => 35,
            Card::Octopus => 36,
            Card::Rhinoceros => 37,
            Card::Scorpion => 38,
            Card::Spider => 39,
            Card::Goat => 40,
            Card::Sheep => 41,
            Card::Lobster => 42,
            Card::Steer => 43,
            Card::Hornet => 44,
            Card::Centipede => 45,
            Card::Cat => 46,
            Card::Serow => 47,
            Card::Nessie => 48,
            Card::Butterfly => 49,
            Card::Moth => 50,
            Card::Okija => 51,
            Card::Mejika => 52,
            Card::Kumo => 53,
            Card::Sasori => 54,
        }
    }

    /// The card at a given position of the fixed card order.
    pub fn from_index(idx: u32) -> (r: Card)
        requires idx < 55,
        ensures card_index(r) == idx,
    {
        match idx {
            0 => Card::Tiger,
            1 => Card::Dragon,
            2 => Card::Frog,
            3 => Card::Rabbit,
            4 => Card::Crab,
            5 => Card::Elephant,
            6 => Card::Goose,
            7 => Card::Rooster,
            8 => Card::Monkey,
            9 => Card::Mantis,
            10 => Card::Horse,
            11 => Card::Ox,
            12 => Card::Crane,
            13 => Card::Boar,
            14 => Card::Eel,
            15 => Card::Cobra,
            16 => Card::Fox,
            17 => Card::Dog,
            18 => Card::Giraffe,
            19 => Card::Panda,
            20 => Card::Bear,
            21 => Card::Kirin,
            22 => Card::SeaSnake,
            23 => Card::Viper,
            24 => Card::Phoenix,
            25 => Card::Mouse,
            26 => Card::Rat,
            27 => Card::Turtle,
            28 => Card::Tanuki,
            29 => Card::Iguana,
            30 => Card::Sable,
            31 => Card::Otter,
            32 => Card::Bat,
            33 => Card::Eagle,
            34 => Card::Hawk,
            35 => Card::Lion,
            36 => Card::Octopus,
            37 => Card::Rhinoceros,
            38 => Card::Scorpion,
            39 => Card::Spider,
            40 => Card::Goat,
            41 => Card::Sheep,
            42 => Card::Lobster,
            43 => Card::Steer,
            44 => Card::Hornet,
            45 => Card::Centipede,
            46 => Card::Cat,
            47 => Card::Serow,
            48 => Card::Nessie,
            49 => Card::Butterfly,
            50 => Card::Moth,
            51 => Card::Okija,
            52 => Card::Mejika,
            53 => Card::Kumo,
            _ => Card::Sasori,
        }
    }

    /// The expansion set this card belongs to. Every card belongs to
    /// exactly one set.
    pub fn find_card_set(&self) -> (r: Option<CardSet>)
        ensures r == Some(spec_card_set(*self)),
    {
        match self {
            Card::Tiger => Some(CardSet::Base),
            Card::Dragon => Some(CardSet::Base),
            Card::Frog => Some(CardSet::Base),
            Card::Rabbit => Some(CardSet::Base),
            Card::Crab => Some(CardSet::Base),
            Card::Elephant => Some(CardSet::Base),
            Card::Goose => Some(CardSet::Base),
            Card::Rooster => Some(CardSet::Base),
            Card::Monkey => Some(CardSet::Base),
            Card::Mantis => Some(CardSet::Base),
            Card::Horse => Some(CardSet::Base),
            Card::Ox => Some(CardSet::Base),
            Card::Crane => Some(CardSet::Base),
            Card::Boar => Some(CardSet::Base),
            Card::Eel => Some(CardSet::Base),
            Card::Cobra => Some(CardSet::Base),
            Card::Fox => Some(CardSet::SenseiPath),
            Card::Dog => Some(CardSet::SenseiPath),
            Card::Giraffe => Some(CardSet::SenseiPath),
            Card::Panda => Some(CardSet::SenseiPath),
            Card::Bear => Some(CardSet::SenseiPath),
            Card::Kirin => Some(CardSet::SenseiPath),
            Card::SeaSnake => Some(CardSet::SenseiPath),
            Card::Viper => Some(CardSet::SenseiPath),
            Card::Phoenix => Some(CardSet::SenseiPath),
            Card::Mouse => Some(CardSet::SenseiPath),
            Card::Rat => Some(CardSet::SenseiPath),
            Card::Turtle => Some(CardSet::SenseiPath),
            Card::Tanuki => Some(CardSet::SenseiPath),
            Card::Iguana => Some(CardSet::SenseiPath),
            Card::Sable => Some(CardSet::SenseiPath),
            Card::Otter => Some(CardSet::SenseiPath),
            Card::Bat => Some(CardSet::WayOfTheWind),
            Card::Eagle => Some(CardSet::WayOfTheWind),
            Card::Hawk => Some(CardSet::WayOfTheWind),
            Card::Lion => Some(CardSet::WayOfTheWind),
            Card::Octopus => Some(CardSet::WayOfTheWind),
            Card::Rhinoceros => Some(CardSet::WayOfTheWind),
            Card::Scorpion => Some(CardSet::WayOfTheWind),
            Card::Spider => Some(CardSet::WayOfTheWind),
            Card::Goat => Some(CardSet::PromotionalPack),
            Card::Sheep => Some(CardSet::PromotionalPack),
            Card::Lobster => Some(CardSet::PromotionalPack),
            Card::Steer => Some(CardSet::PromotionalPack),
            Card::Hornet => Some(CardSet::PromotionalPack),
            Card::Centipede => Some(CardSet::PromotionalPack),
            Card::Cat => Some(CardSet::PromotionalPack),
            Card::Serow => Some(CardSet::PromotionalPack),
            Card::Nessie => Some(CardSet::PromotionalPack),
            Card::Butterfly => Some(CardSet::PromotionalPack),
            Card::Moth => Some(CardSet::PromotionalPack),
            Card::Okija => Some(CardSet::PromotionalPack),
            Card::Mejika => Some(CardSet::PromotionalPack),
            Card::Kumo => Some(CardSet::PromotionalPack),
            Card::Sasori => Some(CardSet::PromotionalPack),
        }
    }
}

impl CardSet {
    /// The cards of this expansion set, in catalog order.
    pub fn cards(&self) -> (r: Vec<Card>)
        ensures r@ == card_set_cards(*self),
    {
        let mut v: Vec<Card> = Vec::new();
        match self {
            CardSet::Base => {
                v.push(Card::Boar);
                v.push(Card::Crab);
                v.push(Card::Elephant);
                v.push(Card::Dragon);
                v.push(Card::Monkey);
                v.push(Card::Tiger);
                v.push(Card::Crane);
                v.push(Card::Mantis);
                v.push(Card::Eel);
                v.push(Card::Cobra);
                v.push(Card::Frog);
                v.push(Card::Rabbit);
                v.push(Card::Goose);
                v.push(Card::Rooster);
                v.push(Card::Horse);
                v.push(Card::Ox);
            }
            CardSet::SenseiPath => {
                v.push(Card::Giraffe);
                v.push(Card::Kirin);
                v.push(Card::Phoenix);
                v.push(Card::Turtle);
                v.push(Card::Bear);
                v.push(Card::Panda);
                v.push(Card::Dog);
                v.push(Card::Fox);
                v.push(Card::Iguana);
                v.push(Card::Tanuki);
                v.push(Card::Rat);
                v.push(Card::Mouse);
                v.push(Card::Otter);
                v.push(Card::Sable);
                v.push(Card::Viper);
                v.push(Card::SeaSnake);
            }
            CardSet::PromotionalPack => {
                v.push(Card::Sheep);
                v.push(Card::Goat);
                v.push(Card::Okija);
                v.push(Card::Mejika);
                v.push(Card::Kumo);
                v.push(Card::Sasori);
                v.push(Card::Lobster);
                v.push(Card::Steer);
                v.push(Card::Centipede);
                v.push(Card::Hornet);
                v.push(Card::Nessie);
                v.push(Card::Serow);
                v.push(Card::Cat);
                v.push(Card::Butterfly);
                v.push(Card::Moth);
            }
            CardSet::WayOfTheWind => {
                v.push(Card::Bat);
                v.push(Card::Eagle);
                v.push(Card::Hawk);
                v.push(Card::Lion);
                v.push(Card::Octopus);
                v.push(Card::Rhinoceros);
                v.push(Card::Scorpion);
                v.push(Card::Spider);
            }
        }
        proof {
            assert(v@ =~= card_set_cards(*self));
        }
        v
    }
}

/// Whether a card belongs to the Way of the Wind set, decided by the
/// card's own set rather than by scanning the set's card list.
pub fn wind_card(card: Card) -> (r: bool)
    ensures r == is_wind_card(card),
{
    match card.find_card_set() {
        Some(CardSet::WayOfTheWind) => true,
        _ => false,
    }
}

/// All 55 cards, in the fixed card order.
#[verifier::rlimit(50)]
pub fn all_cards() -> (r: Vec<Card>)
    ensures
        r@ == all_cards_seq(),
        r@.len() == 55,
{
    let mut v: Vec<Card> = Vec::new();
    v.push(Card::Tiger);
    v.push(Card::Dragon);
    v.push(Card::Frog);
    v.push(Card::Rabbit);
    v.push(Card::Crab);
    v.push(Card::Elephant);
    v.push(Card::Goose);
    v.push(Card::Rooster);
    v.push(Card::Monkey);
    v.push(Card::Mantis);
    v.push(Card::Horse);
    v.push(Card::Ox);
    v.push(Card::Crane);
    v.push(Card::Boar);
    v.push(Card::Eel);
    v.push(Card::Cobra);
    v.push(Card::Fox);
    v.push(Card::Dog);
    v.push(Card::Giraffe);
    v.push(Card::Panda);
    v.push(Card::Bear);
    v.push(Card::Kirin);
    v.push(Card::SeaSnake);
    v.push(Card::Viper);
    v.push(Card::Phoenix);
    v.push(Card::Mouse);
    v.push(Card::Rat);
    v.push(Card::Turtle);
    v.push(Card::Tanuki);
    v.push(Card::Iguana);
    v.push(Card::Sable);
    v.push(Card::Otter);
    v.push(Card::Bat);
    v.push(Card::Eagle);
    v.push(Card::Hawk);
    v.push(Card::Lion);
    v.push(Card::Octopus);
    v.push(Card::Rhinoceros);
    v.push(Card::Scorpion);
    v.push(Card::Spider);
    v.push(Card::Goat);
    v.push(Card::Sheep);
    v.push(Card::Lobster);
    v.push(Card::Steer);
    v.push(Card::Hornet);
    v.push(Card::Centipede);
    v.push(Card::Cat);
    v.push(Card::Serow);
    v.push(Card::Nessie);
    v.push(Card::Butterfly);
    v.push(Card::Moth);
    v.push(Card::Okija);
    v.push(Card::Mejika);
    v.push(Card::Kumo);
    v.push(Card::Sasori);
    proof {
        assert(v@ =~= all_cards_seq());
    }
    v
}

/// Each card sits at its own index of the full card order: the card
/// list never repeats a card.
#[verifier::rlimit(50)]
pub proof fn lemma_all_cards_indexed()
    ensures
        all_cards_seq().len() == 55,
        forall|i: int| 0 <= i < 55 ==> card_index(#[trigger] all_cards_seq()[i]) == i,
        all_cards_seq().no_duplicates(),
{
    assert forall|i: int| 0 <= i < 55 implies card_index(#[trigger] all_cards_seq()[i]) == i by {
        if i < 28 {
            assert(card_index(all_cards_seq()[i]) == i);
        } else {
            assert(card_index(all_cards_seq()[i]) == i);
        }
    }
    assert(all_cards_seq().no_duplicates()) by {
        assert forall|i: int, j: int| 0 <= i < j < all_cards_seq().len()
            implies all_cards_seq()[i] != all_cards_seq()[j] by {
            assert(card_index(all_cards_seq()[i]) == i);
            assert(card_index(all_cards_seq()[j]) == j);
        }
    }
}

}
