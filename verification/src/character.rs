//! Actors: species, werewolf forms, movement commands, health, sprites.

use vstd::prelude::*;

use crate::physics::Position;

verus! {

/// What an actor looks like on screen.
#[derive(Debug, Clone, Copy, PartialEq, Eq, Structural)]
pub struct Sprite {
    pub character: char,
}

impl Sprite {
    pub fn new(character: char) -> (r: Sprite)
        ensures
            r.character == character,
    {
        Sprite { character }
    }
}

/// Hit points of an actor, never negative and never above `max`.
#[derive(Debug, Clone, Copy)]
pub struct Health {
    pub value: i32,
    pub max: i32,
}

impl Health {
    pub fn new(value: i32) -> (r: Health)
        ensures
            r.value == value,
            r.max == value,
    {
        Health { value, max: value }
    }

    /// Raise `value` by `amount`, capped at `max`.
    pub fn heal(&mut self, amount: i32)
        requires
            i32::MIN <= old(self).value + amount <= i32::MAX,
        ensures
            final(self).max == old(self).max,
            final(self).value == if old(self).value + amount > old(self).max {
                old(self).max as int
            } else {
                old(self).value + amount
            },
    {
        self.value = self.value + amount;
        if self.value > self.max {
            self.value = self.max;
        }
    }

    /// Lower `value` by `amount`, floored at zero.
    pub fn damage(&mut self, amount: i32)
        requires
            i32::MIN <= old(self).value - amount <= i32::MAX,
        ensures
            final(self).max == old(self).max,
            final(self).value == if old(self).value - amount < 0 {
                0int
            } else {
                old(self).value - amount
            },
    {
        self.value = self.value - amount;
        if self.value < 0 {
            self.value = 0;
        }
    }
}

/// The species of a character; decides which goal policy drives it.
#[derive(Debug, Clone, Copy, PartialEq, Eq, Structural)]
pub enum CharacterType {
    Player,
    Lerain,
    Rumdare,
    Werewolf,
}

/// The two shapes a werewolf can take.
#[derive(Debug, Clone, Copy, PartialEq, Eq, Structural)]
pub enum WereForm {
    Human,
    Beast,
}

/// Species-specific data carried by an actor.
#[derive(Debug, Clone, Copy)]
pub enum CharacterData {
    Human,
    Werewolf { form: WereForm },
}

/// One movement command for one tick.
#[derive(Debug, Clone, Copy, PartialEq, Eq, Structural)]
pub enum MovementInput {
    Idle,
    North,
    East,
    South,
    West,
}

/// Returned when a movement has no direction to turn into an offset.
#[derive(Debug, Clone, Copy, PartialEq, Eq, Structural)]
pub struct ToPositionError;

impl MovementInput {
    /// The unit offset of this movement; `Idle` has none.
    pub fn to_position(&self) -> (r: Result<Position, ToPositionError>)
        ensures
            r == match *self {
                MovementInput::Idle => Result::<Position, ToPositionError>::Err(ToPositionError),
                MovementInput::North => Result::<Position, ToPositionError>::Ok(
                    Position { x: 0, y: 1 },
                ),
                MovementInput::East => Result::<Position, ToPositionError>::Ok(
                    Position { x: 1, y: 0 },
                ),
                MovementInput::South => Result::<Position, ToPositionError>::Ok(
                    Position { x: 0i32, y: -1i32 },
                ),
                MovementInput::West => Result::<Position, ToPositionError>::Ok(
                    Position { x: -1i32, y: 0i32 },
                ),
            },
    {
        match self {
            MovementInput::Idle => Err(ToPositionError),
            MovementInput::North => Ok(Position::new(0, 1)),
            MovementInput::East => Ok(Position::new(1, 0)),
            MovementInput::South => Ok(Position::new(0, -1)),
            MovementInput::West => Ok(Position::new(-1, 0)),
        }
    }
}

/// What the world query reports about one actor: enough for perception
/// and targeting, detached from any component store.
#[derive(Debug, Clone, Copy)]
pub struct ActorInfo {
    /// Stable arena handle of the actor.
    pub entity: u64,
    pub character_type: CharacterType,
    /// `Some` for werewolves, `None` for everyone else.
    pub form: Option<WereForm>,
    pub position: Position,
}

} // verus!
