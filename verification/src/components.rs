//! The attribute records that an entity can carry, and the model of an
//! entity in contracts.

use vstd::prelude::*;

verus! {

/// The colours that the game draws with.
#[derive(Clone, Copy, Debug, PartialEq, Eq, Structural)]
pub enum Colour {
    Black,
    White,
    Red,
    Blue,
}

/// Role tag: the entity that counts frames.
pub struct FrameCounter;

/// Role tag: the entity that holds the score.
pub struct ScoreCounter;

/// Role tag: the player's ship.
pub struct SpaceShip;

/// Role tag: an enemy that falls down the grid.
pub struct FallingEnemy;

/// Role tag: the entity that spawns waves of enemies.
pub struct EnemyFactory;

/// An unsigned counter: a frame count, a countdown or a score.
pub struct Counter(pub u64);

/// Cadence of movement: one cell every so many frames.
pub struct Speed(pub u16);

/// Grid position: column, then row.
pub struct CellPosition(pub u16, pub u16);

/// Extent in grid cells: width, then height.
pub struct CellSize(pub u16, pub u16);

/// Fill colour of an entity drawn as a rectangle.
pub struct CellRender(pub Colour);

/// The string of a text entity.
pub struct TextContent(pub String);

/// Where a text entity is drawn, in pixels: x, then y.
pub struct TextPosition(pub u16, pub u16);

/// Font size and colour of a text entity.
pub struct TextRender(pub u16, pub Colour);

/// What the world holds of one entity: its role tags and, for each kind of
/// attribute, the value if the entity carries one.
pub struct Attributes {
    pub frame_counter: bool,
    pub score_counter: bool,
    pub ship: bool,
    pub enemy: bool,
    pub factory: bool,
    pub counter: Option<u64>,
    pub speed: Option<u16>,
    pub position: Option<(u16, u16)>,
    pub size: Option<(u16, u16)>,
    pub fill: Option<Colour>,
    pub text: Option<Seq<char>>,
    pub text_position: Option<(u16, u16)>,
    pub text_style: Option<(u16, Colour)>,
}

/// An entity without tags or attributes.
pub open spec fn blank() -> Attributes {
    Attributes {
        frame_counter: false,
        score_counter: false,
        ship: false,
        enemy: false,
        factory: false,
        counter: None,
        speed: None,
        position: None,
        size: None,
        fill: None,
        text: None,
        text_position: None,
        text_style: None,
    }
}

/// The frame counter as it is created.
pub open spec fn frame_counter_entity(value: u64) -> Attributes {
    Attributes { frame_counter: true, counter: Some(value), ..blank() }
}

/// The score counter as it is created.
pub open spec fn score_counter_entity(
    value: u64,
    text: Seq<char>,
    at: (u16, u16),
    style: (u16, Colour),
) -> Attributes {
    Attributes {
        score_counter: true,
        counter: Some(value),
        text: Some(text),
        text_position: Some(at),
        text_style: Some(style),
        ..blank()
    }
}

/// The ship as it is created.
pub open spec fn ship_entity(fill: Colour, at: (u16, u16), size: (u16, u16)) -> Attributes {
    Attributes { ship: true, fill: Some(fill), position: Some(at), size: Some(size), ..blank() }
}

/// The enemy factory as it is created.
pub open spec fn factory_entity(countdown: u64) -> Attributes {
    Attributes { factory: true, counter: Some(countdown), ..blank() }
}

/// A falling enemy as it is created.
pub open spec fn enemy_entity(
    fill: Colour,
    at: (u16, u16),
    size: (u16, u16),
    speed: u16,
) -> Attributes {
    Attributes {
        enemy: true,
        fill: Some(fill),
        position: Some(at),
        size: Some(size),
        speed: Some(speed),
        ..blank()
    }
}

} // verus!
