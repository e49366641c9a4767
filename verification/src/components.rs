//! The components that entities carry, and the game log.
use crate::ecs::Entity;
use vstd::prelude::*;

verus! {

/// Marks the entity the player controls.
#[derive(Clone, Copy, PartialEq, Eq, Structural, Debug)]
pub struct Player {}

/// Where an entity stands on the map.
#[derive(Clone, Copy, PartialEq, Eq, Structural, Debug)]
pub struct Position {
    pub x: i32,
    pub y: i32,
}

/// A point of the map (the player's position is kept as one).
#[derive(Clone, Copy, PartialEq, Eq, Structural, Debug)]
pub struct Point {
    pub x: i32,
    pub y: i32,
}

/// What an entity sees.
#[derive(Debug)]
pub struct Viewshed {
    pub visible_tiles: Vec<Point>,
    pub range: i32,
    pub dirty: bool,
}

/// Marks a monster.
#[derive(Clone, Copy, PartialEq, Eq, Structural, Debug)]
pub struct Mob {}

/// The name an entity is called by in messages.
#[derive(Debug)]
pub struct Name {
    pub name: String,
}

/// Marks an entity that blocks the tile it stands on.
#[derive(Clone, Copy, PartialEq, Eq, Structural, Debug)]
pub struct Blocker {}

/// Hit points and fighting strength.
#[derive(Clone, Copy, PartialEq, Eq, Structural, Debug)]
pub struct CombatStats {
    pub max_hp: i32,
    pub hp: i32,
    pub attack: i32,
    pub defense: i32,
}

/// The intent to attack `target`.
#[derive(Clone, Copy, PartialEq, Eq, Structural, Debug)]
pub struct WantsToMelee {
    pub target: Entity,
}

/// Damage an entity is to take.
#[derive(Clone, Copy, PartialEq, Eq, Structural, Debug)]
pub struct SufferDamage {
    pub amount: i32,
}

/// The intent of `who` to pick up `what`.
#[derive(Clone, Copy, PartialEq, Eq, Structural, Debug)]
pub struct WantsToPickup {
    pub who: Entity,
    pub what: Entity,
}

/// The intent to drop `item`.
#[derive(Clone, Copy, PartialEq, Eq, Structural, Debug)]
pub struct WantsToDrop {
    pub item: Entity,
}

/// The intent to use `item`.
#[derive(Clone, Copy, PartialEq, Eq, Structural, Debug)]
pub struct WantsToUse {
    pub item: Entity,
}

/// The footprint of an item in a backpack.
#[derive(Clone, Copy, PartialEq, Eq, Structural, Debug)]
pub enum Shape {
    One,
    Two,
    Three,
    Square,
    ThreeWide,
    FourWide,
}

/// An item carried in the backpack of `owner`, at cell (`x`, `y`).
#[derive(Clone, Copy, PartialEq, Eq, Structural, Debug)]
pub struct BackpackOf {
    pub owner: Entity,
    pub x: i32,
    pub y: i32,
}

/// An item, with its backpack footprint and the glyph it shows.
#[derive(Clone, Copy, PartialEq, Eq, Structural, Debug)]
pub struct Item {
    pub shape: Shape,
    pub image: char,
}

/// A healing herb.
#[derive(Clone, Copy, PartialEq, Eq, Structural, Debug)]
pub struct Moongrass {
    pub heal_amount: i32,
}

/// The messages shown to the player, newest first.
#[derive(Debug)]
pub struct GameLog {
    pub entries: Vec<String>,
}

impl GameLog {
    /// The entries as character sequences.
    pub open spec fn lines(&self) -> Seq<Seq<char>> {
        self.entries@.map_values(|s: String| s@)
    }
}

} // verus!
