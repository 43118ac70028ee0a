//! Core data model: players, grid points, cards, moves, boards and game
//! states.
//!
//! A `Board` is a plain value: every rule of the game is a function from
//! one board value to another, and each mutation produces a new value.

use vstd::prelude::*;

verus! {

/// One of the two sides. Red moves first and plays "up" the board
/// (towards decreasing y); Blue plays the mirrored directions.
#[derive(Eq, PartialEq, Copy, Clone, Debug, Structural)]
pub enum Player {
    Red,
    Blue,
}

impl Player {
    /// The opposing side, as a specification-level function.
    pub open spec fn spec_invert(self) -> Player {
        match self {
            Player::Red => Player::Blue,
            Player::Blue => Player::Red,
        }
    }

    /// The opposing side.
    pub fn invert(&self) -> (r: Player)
        ensures
            r == self.spec_invert(),
    {
        match self {
            Player::Red => Player::Blue,
            Player::Blue => Player::Red,
        }
    }
}

/// A square of the 5x5 grid, or an offset between squares.
#[derive(Eq, PartialEq, Copy, Clone, Debug, Structural)]
pub struct Point {
    pub x: i8,
    pub y: i8,
}

impl Point {
    /// True when the point lies outside the 5x5 grid.
    pub open spec fn spec_out_of_bounds(self) -> bool {
        self.x < 0 || self.x > 4 || self.y < 0 || self.y > 4
    }

    /// True when the point lies on the 5x5 grid.
    pub open spec fn spec_in_bounds(self) -> bool {
        !self.spec_out_of_bounds()
    }

    pub fn out_of_bounds(&self) -> (r: bool)
        ensures
            r == self.spec_out_of_bounds(),
    {
        self.x < 0 || self.x > 4 || self.y < 0 || self.y > 4
    }

    pub fn in_bounds(&self) -> (r: bool)
        ensures
            r == self.spec_in_bounds(),
    {
        !self.out_of_bounds()
    }

    /// The same square as seen from the other player's perspective.
    pub fn invert(&self) -> (r: Point)
        requires
            self.spec_in_bounds(),
        ensures
            r == (Point { x: (4 - self.x) as i8, y: (4 - self.y) as i8 }),
    {
        Point { x: 4 - self.x, y: 4 - self.y }
    }
}

/// Rough left/right bias of a card's offsets, shown to players when
/// picking which way round to read a card.
#[derive(Eq, PartialEq, Copy, Clone, Debug, Structural)]
pub enum CardDirection {
    Right,
    Left,
    Balanced,
}

/// A movement card. Each card resolves to a fixed set of offsets,
/// conditioned on whether the moving piece is a King or the Wind Spirit,
/// and belongs to exactly one `CardSet`.
#[derive(Eq, PartialEq, Copy, Clone, Debug, Structural)]
pub enum Card {
    // Base game
    Tiger,
    Dragon,
    Frog,
    Rabbit,
    Crab,
    Elephant,
    Goose,
    Rooster,
    Monkey,
    Mantis,
    Horse,
    Ox,
    Crane,
    Boar,
    Eel,
    Cobra,
    // Sensei's Path
    Fox,
    Dog,
    Giraffe,
    Panda,
    Bear,
    Kirin,
    SeaSnake,
    Viper,
    Phoenix,
    Mouse,
    Rat,
    Turtle,
    Tanuki,
    Iguana,
    Sable,
    Otter,
    // Way of the Wind
    Bat,
    Eagle,
    Hawk,
    Lion,
    Octopus,
    Rhinoceros,
    Scorpion,
    Spider,
    // Promotional Cards
    Goat,
    Sheep,
    Lobster,
    Steer,
    Hornet,
    Centipede,
    Cat,
    Serow,
    Nessie,
    Butterfly,
    Moth,
    Okija,
    Mejika,
    Kumo,
    Sasori,
}

/// An expansion set of cards.
#[derive(Eq, PartialEq, Copy, Clone, Hash, Debug, Structural)]
pub enum CardSet {
    Base,
    SenseiPath,
    PromotionalPack,
    WayOfTheWind,
}

/// A concealable Ninja piece: its square and whether it has been revealed.
/// Reveal is permanent: a Ninja that captures, is captured, or is swapped
/// with the Wind Spirit stays revealed for the rest of the game.
#[derive(Eq, PartialEq, Copy, Clone, Debug, Structural)]
pub struct Ninja {
    pub pos: Point,
    pub revealed: bool,
}

/// The complete game position.
///
/// Each side has a King (absent once captured, or never dealt in the Way
/// of Light sub-mode), up to four Pawns and up to two Ninjas, and holds
/// exactly two cards; a fifth card sits face up as the spare. A neutral
/// Wind Spirit may be on the board. The `wind_move_pending` /
/// `ninja_move_pending` flags record a mandatory chained sub-move together
/// with the card that forced it.
#[derive(Copy, Clone, Debug, PartialEq)]
pub struct Board {
    pub wind_spirit: Option<Point>,
    pub blue_king: Option<Point>,
    pub blue_pawns: [Option<Point>; 4],
    pub blue_ninjas: [Option<Ninja>; 2],
    pub blue_hand: [Card; 2],
    pub red_king: Option<Point>,
    pub red_pawns: [Option<Point>; 4],
    pub red_ninjas: [Option<Ninja>; 2],
    pub red_hand: [Card; 2],
    pub spare_card: Card,
    pub wind_move_pending: bool,
    pub wind_move_card: Option<Card>,
    pub shadow_mode: bool,
    pub ninja_move_pending: bool,
    pub ninja_move_card: Option<Card>,
    pub turn: Player,
}

/// A player's action: move a piece with a held card, or discard a held
/// card when no move exists. `reveal_ninja` voluntarily reveals the moved
/// Ninja.
#[derive(Debug, Clone, Copy, Eq, PartialEq, Structural)]
pub enum Move {
    Move { card: Card, src: Point, dst: Point, reveal_ninja: bool },
    Discard { card: Card },
}

/// A game in progress or a finished game with its winner. Once finished,
/// a game only changes by an explicit reset to a new game.
#[derive(Debug, Clone, Copy, PartialEq)]
pub enum GameState {
    Playing { board: Board },
    Finished { board: Board, winner: Player },
}

/// What a single square of the grid holds, for view projection.
#[derive(Copy, Clone, Debug, Eq, PartialEq, Structural)]
pub enum GameSquare {
    WindSpirit,
    RedKing,
    RedPawn,
    RedNinja { revealed: bool },
    BlueKing,
    BluePawn,
    BlueNinja { revealed: bool },
    Empty,
}

/// A recoverable rule violation reported by `try_move`.
#[derive(Clone, Debug)]
pub enum GameError {
    Error { message: String },
}

/// Build and user identifiers attached to analytics events.
#[derive(Clone, Debug)]
pub struct GameMeta {
    pub build: String,
    pub uid: String,
}

impl GameMeta {
    /// A metadata record with empty identifiers.
    pub fn blank() -> (r: GameMeta)
        ensures
            r.build@ == Seq::<char>::empty(),
            r.uid@ == Seq::<char>::empty(),
    {
        GameMeta { build: String::new(), uid: String::new() }
    }
}

/// An analytics event: a game started or ended against a named opponent.
#[derive(Clone, Debug)]
pub enum GameEvent {
    Start { against: String, training: bool, meta: GameMeta },
    End { against: String, winner: String, training: bool, meta: GameMeta },
}

/// Configuration for a new game: which card sets are excluded, how many
/// Way of the Wind cards to deal, whether to force the Wind Spirit onto
/// the board, and whether to force the Way of Light and Shadow variant
/// (and which of its sub-modes).
#[derive(Clone, Debug)]
pub struct GameSettings {
    pub disabled_card_sets: Vec<String>,
    pub number_of_wind_cards: Option<usize>,
    pub force_wind_spirit_inclusion: bool,
    pub enable_light_and_shadow: bool,
    pub force_light_and_shadow: bool,
    pub light_and_shadow_mode: Option<String>,
}

impl GameSettings {
    /// Settings for a standard game: the Way of the Wind set is disabled,
    /// two wind cards would be dealt if it were enabled, and neither the
    /// Wind Spirit nor the Light and Shadow variant is forced.
    pub fn default() -> (r: GameSettings)
        ensures
            r.disabled_card_sets@.len() == 1,
            r.disabled_card_sets@[0]@ == "WayOfTheWind"@,
            r.number_of_wind_cards == Some(2usize),
            !r.force_wind_spirit_inclusion,
            !r.enable_light_and_shadow,
            !r.force_light_and_shadow,
            r.light_and_shadow_mode is None,
    {
        let mut disabled: Vec<String> = Vec::new();
        disabled.push("WayOfTheWind".to_string());
        GameSettings {
            disabled_card_sets: disabled,
            number_of_wind_cards: Some(2),
            force_wind_spirit_inclusion: false,
            enable_light_and_shadow: false,
            force_light_and_shadow: false,
            light_and_shadow_mode: None,
        }
    }
}

}
