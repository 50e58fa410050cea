//! The component kinds that can be attached to an entity.
//!
//! An entity is an opaque handle: an index into the world's component
//! storages. A component is a typed data fragment; presence or absence of a
//! component expresses what an entity is and can do. One-shot "intent"
//! components represent a desired action and are consumed and cleared by
//! exactly one system per tick.

use vstd::prelude::*;

verus! {

/// Grid coordinates of an entity standing on the map.
#[derive(Clone, Copy, PartialEq, Eq, Structural, Debug)]
pub struct Position {
    pub x: i32,
    pub y: i32,
}

/// What an entity can currently see: recomputed every tick by the visibility
/// resolver. `dirty` is set by movement; it is recorded but not yet consulted
/// to skip recomputation.
#[derive(Debug)]
pub struct Viewshed {
    pub visible_tiles: Vec<Position>,
    pub range: i32,
    pub dirty: bool,
}

/// Role tag: the one entity whose intents come from input and whose death
/// ends the game.
#[derive(Clone, Copy, Debug)]
pub struct Player;

/// Role tag: an entity driven by the AI decision maker.
#[derive(Clone, Copy, Debug)]
pub struct Monster;

/// Display and log identity.
#[derive(Debug)]
pub struct Name {
    pub name: String,
}

/// Marker: occupying a cell makes that cell impassable.
#[derive(Clone, Copy, Debug)]
pub struct BlocksTile;

/// Combat state. `hp` never exceeds `max_hp`.
#[derive(Clone, Copy, PartialEq, Eq, Structural, Debug)]
pub struct CombatStats {
    pub max_hp: i32,
    pub defense: i32,
    pub power: i32,
    pub hp: i32,
}

/// One-shot intent: this entity wants to attack `target` this tick.
#[derive(Clone, Copy, PartialEq, Eq, Structural, Debug)]
pub struct WantsToMelee {
    pub target: usize,
}

/// One queued damage instruction. Several instructions may accumulate on one
/// target within a tick; they are additive and cleared every pipeline run.
#[derive(Clone, Copy, PartialEq, Eq, Structural, Debug)]
pub struct SufferDamage {
    pub target: usize,
    pub amount: i32,
}

/// Role tag: this entity can be picked up and carried.
#[derive(Clone, Copy, Debug)]
pub struct Item;

/// Effect payload of a drinkable item.
#[derive(Clone, Copy, PartialEq, Eq, Structural, Debug)]
pub struct Potion {
    pub heal_amount: i32,
}

/// Ownership relation: the item is carried by `owner`. Mutually exclusive
/// with `Position`: an item is either on the ground or in a backpack.
#[derive(Clone, Copy, PartialEq, Eq, Structural, Debug)]
pub struct InBackpack {
    pub owner: usize,
}

/// One-shot intent: `collected_by` wants to pick `item` up from the ground.
#[derive(Clone, Copy, PartialEq, Eq, Structural, Debug)]
pub struct WantsToPickupItem {
    pub collected_by: usize,
    pub item: usize,
}

/// One-shot intent: the holder wants to drop `item` at its own position.
#[derive(Clone, Copy, PartialEq, Eq, Structural, Debug)]
pub struct WantsToDropItem {
    pub item: usize,
}

/// One-shot intent: the drinker wants to use `potion` and destroy it.
#[derive(Clone, Copy, PartialEq, Eq, Structural, Debug)]
pub struct WantsToDrinkPotion {
    pub potion: usize,
}

} // verus!
