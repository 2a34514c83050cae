//! Behavioral state carried by each actor, and the generic wrapper that
//! gates whether an actor's AI runs at all this tick.

use vstd::prelude::*;

use crate::physics::Position;

verus! {

/// A behavior together with its run-conditions. The behavior runs on a tick
/// only when no condition is registered or at least one condition holds;
/// re-evaluating the conditions each tick is the caller's business.
pub struct BehaviorData<T> {
    pub behavior: T,
    pub conditions: Vec<bool>,
}

impl<T> BehaviorData<T> {
    pub fn new(behavior: T) -> (r: BehaviorData<T>)
        ensures
            r.behavior == behavior,
            r.conditions@.len() == 0,
    {
        BehaviorData { behavior, conditions: Vec::new() }
    }

    /// Register one more run-condition.
    pub fn run_if(self, condition: bool) -> (r: BehaviorData<T>)
        ensures
            r.behavior == self.behavior,
            r.conditions@ == self.conditions@.push(condition),
    {
        let mut conditions = self.conditions;
        conditions.push(condition);
        BehaviorData { behavior: self.behavior, conditions }
    }

    /// Whether the behavior may run: vacuously when no condition is
    /// registered, otherwise when some condition holds.
    pub fn check_conditions(&self) -> (r: bool)
        ensures
            r == (self.conditions@.len() == 0
                || exists|i: int| 0 <= i < self.conditions@.len() && self.conditions@[i]),
    {
        if self.conditions.len() == 0 {
            return true;
        }
        let mut i: usize = 0;
        while i < self.conditions.len()
            invariant
                i <= self.conditions@.len(),
                forall|j: int| 0 <= j < i ==> !self.conditions@[j],
            decreases self.conditions@.len() - i,
        {
            if self.conditions[i] {
                return true;
            }
            i = i + 1;
        }
        false
    }
}

/// Ticks left before a panicking beast may calm down.
#[derive(Debug, Clone, Copy, PartialEq, Eq, Structural)]
pub struct Cooldown(pub usize);

impl Cooldown {
    /// Spend one tick of the cooldown. Returns whether any of it was left:
    /// `true` while the count was non-zero (and decrements it), `false`
    /// once it has run out.
    pub fn execute(&mut self) -> (r: bool)
        ensures
            r == (old(self).0 != 0),
            final(self).0 == if old(self).0 == 0 { 0int } else { old(self).0 - 1 },
    {
        if self.0 == 0 {
            false
        } else {
            self.0 = self.0 - 1;
            true
        }
    }
}

/// The live behavioral state of an actor. A werewolf holds both a human
/// state and a werewolf state; its current form decides which one drives it.
#[derive(Debug, Clone)]
pub enum CharacterBehaviorData {
    Human { human_state: HumanState },
    Werewolf { werewolf_state: WerewolfState, human_state: HumanState },
}

impl CharacterBehaviorData {
    pub fn default_human() -> (r: CharacterBehaviorData)
        ensures
            r == (CharacterBehaviorData::Human { human_state: HumanState::Idle(None) }),
    {
        CharacterBehaviorData::Human { human_state: HumanState::Idle(None) }
    }

    pub fn default_werewolf() -> (r: CharacterBehaviorData)
        ensures
            r == (CharacterBehaviorData::Werewolf {
                werewolf_state: WerewolfState::Hunt(None),
                human_state: HumanState::Idle(None),
            }),
    {
        CharacterBehaviorData::Werewolf {
            werewolf_state: WerewolfState::Hunt(None),
            human_state: HumanState::Idle(None),
        }
    }
}

/// Behavioral state of a human (or a werewolf wearing its human form).
#[derive(Debug, Clone, Copy, PartialEq, Eq, Structural)]
pub enum HumanState {
    /// Nothing to do; optionally remembers which wander cluster to avoid next.
    Idle(Option<NewObjective>),
    /// Walking to a wander objective drawn from the given cluster index.
    Moving(usize),
    /// Fleeing to a hiding point drawn from the given cluster index.
    Panic(usize),
}

/// How the next wander objective is to be chosen.
#[derive(Debug, Clone, Copy, PartialEq, Eq, Structural)]
pub enum NewObjective {
    /// Choose a wander point, but not from the given cluster index.
    WanderButExclude(usize),
}

/// Behavioral state of a werewolf in beast form.
#[derive(Debug, Clone)]
pub enum WerewolfState {
    /// Chasing the last seen enemy, or standing ground when none is recorded.
    Hunt(Option<Position>),
    /// Outnumbered and fleeing toward a hiding point.
    Panic {
        /// The chosen hiding point, once one has been selected.
        target: Option<Position>,
        /// Hiding cluster not to choose again.
        exclude_target_index: Option<usize>,
        /// Positions of the threats seen when panic began.
        enemies: Vec<Position>,
        /// Moves left before the beast calms down.
        calm_cooldown: Cooldown,
    },
}

} // verus!
