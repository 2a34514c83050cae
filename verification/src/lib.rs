//! Decision core of a turn-based grid simulation: per-tick perception,
//! path planning, goal selection and behavioral state transitions for
//! the non-player actors.

use vstd::prelude::*;

pub mod character;
pub mod data;
pub mod dialogue;
pub mod director;
pub mod map_brain;
pub mod pathfinder;
pub mod physics;
pub mod vision;
pub mod werewolf;

verus! {

/// A player command that is not a movement.
pub enum ActionInput {
    /// Take no action.
    Pass,
    /// Select an item from the inventory.
    SelectFromInventory(usize),
    /// Use the currently equipped item.
    UseEquippedItem,
}

/// Which screen of the client is active.
#[derive(Debug, Clone, PartialEq, Eq, Hash)]
pub enum Scene {
    World,
    Inventory,
    Settings,
}

/// What modal interaction, if any, holds the player.
#[derive(Clone, Copy)]
pub enum PlayerState {
    Free,
    Dialogue,
    Looting,
}

} // verus!
