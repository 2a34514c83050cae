//! The goal director: per-species policy choosing each actor's next goal
//! from what it perceives — wandering and queueing for civilians, fleeing
//! to hiding points under threat, hunting and panicking for the werewolf.

use vstd::prelude::*;

use crate::character::{ActorInfo, CharacterData, CharacterType, MovementInput, WereForm};
use crate::data::{hiding_choice_ok, PathfinderGlobalData};
use crate::map_brain::{
    BehaviorData, CharacterBehaviorData, Cooldown, HumanState, NewObjective, WerewolfState,
};
use crate::pathfinder::{
    behavior_after_goal, set_goal_result, GoalContinuation, Pathfinder, PathfinderBehavior,
    Priority, SkipTurn,
};
use crate::physics::{
    coord_ok, dist2, lemma_dist2_bounded, lemma_dist2_sym, KrillTheaterZone, MapCache, Position,
    TileMap,
};
use crate::vision::{tile_exists, vision_of, VISION_RADIUS_SQ};

verus! {

/// Whether this sighted actor is a hostile of the hunted species: for
/// werewolf targets only the beast form counts as a threat.
pub open spec fn is_threat(a: ActorInfo, target: CharacterType) -> bool {
    &&& a.character_type == target
    &&& (target is Werewolf ==> a.form == Some(WereForm::Beast))
}

/// Whether some listed threat stands on a tile the vision cache holds.
pub open spec fn some_threat_seen(c: MapCache, actors: Seq<ActorInfo>, target: CharacterType) -> bool {
    exists|i: int| 0 <= i < actors.len() && is_threat(#[trigger] actors[i], target)
        && c.sees(actors[i].position)
}

/// Whether `t` is the position of a visible threat no farther from `from`
/// than any other visible threat.
pub open spec fn nearest_threat(
    c: MapCache,
    actors: Seq<ActorInfo>,
    target: CharacterType,
    from: Position,
    t: Position,
) -> bool {
    &&& exists|i: int| 0 <= i < actors.len() && is_threat(#[trigger] actors[i], target)
        && c.sees(actors[i].position) && actors[i].position == t
    &&& forall|j: int| 0 <= j < actors.len() && is_threat(#[trigger] actors[j], target)
        && c.sees(actors[j].position) ==> dist2(from, t) <= dist2(from, actors[j].position)
}

/// The hiding clusters an actor of this species retreats to.
pub open spec fn faction_clusters(data: PathfinderGlobalData, ct: CharacterType) -> Seq<Seq<Position>> {
    if ct is Werewolf {
        data.werewolf_data().clusters()
    } else {
        data.human_data().clusters()
    }
}

/// A valid wander objective under the remembered exclusion: a point of some
/// cluster, avoiding the excluded cluster whenever another exists.
pub open spec fn wander_selection_ok(
    data: PathfinderGlobalData,
    objective: Option<NewObjective>,
    p: Position,
    idx: int,
) -> bool {
    &&& 0 <= idx < data.clusters().len()
    &&& data.clusters()[idx].contains(p)
    &&& match objective {
        Some(NewObjective::WanderButExclude(e)) => data.clusters().len() > 1 ==> idx != e,
        None => true,
    }
}

/// A behavior after a wander goal was chosen: the goal request plus the
/// registered settle-on-arrival action.
pub open spec fn wander_post(
    data: PathfinderGlobalData,
    objective: Option<NewObjective>,
    s1: HumanState,
    b0: PathfinderBehavior,
    b1: PathfinderBehavior,
    priority: Priority,
) -> bool {
    exists|p: Position, idx: usize| {
        &&& #[trigger] wander_selection_ok(data, objective, p, idx as int)
        &&& s1 == HumanState::Moving(idx)
        &&& b1 == (PathfinderBehavior {
            pathfinder: set_goal_result(b0.pathfinder, p, priority),
            skip_turn: b0.skip_turn,
            reached_goal: Some(GoalContinuation::SettleIntoIdle),
        })
    }
}

/// What the idle zone inspection leaves behind, given the tile under the
/// actor: `Free` or no zone picks a new wander goal at low priority, a
/// queue tile aims at its queue slot, an exit tile picks a wander goal at
/// medium priority.
pub open spec fn idle_zone_post(
    data: PathfinderGlobalData,
    m: TileMap,
    position: Position,
    objective: Option<NewObjective>,
    s0: HumanState,
    s1: HumanState,
    b0: PathfinderBehavior,
    b1: PathfinderBehavior,
) -> bool {
    match m.tile_at_pos(position) {
        None => s1 == s0 && b1 == b0,
        Some(tile) => match tile.spec_krill_theater() {
            Some(KrillTheaterZone::LineUp(t)) => s1 == s0 && behavior_after_goal(
                b0,
                b1,
                t,
                Priority::Low,
            ),
            Some(KrillTheaterZone::Free) => wander_post(data, objective, s1, b0, b1, Priority::Low),
            Some(KrillTheaterZone::Exit) => wander_post(
                data,
                objective,
                s1,
                b0,
                b1,
                Priority::Medium,
            ),
            None => wander_post(data, objective, s1, b0, b1, Priority::Low),
        },
    }
}

/// Everything one evaluation of the human policy may do, case by case over
/// the starting state. `c1` is the vision cache as the evaluation left it.
pub open spec fn human_tick_post(
    ct: CharacterType,
    data: PathfinderGlobalData,
    m: TileMap,
    position: Position,
    actors: Seq<ActorInfo>,
    target: CharacterType,
    s0: HumanState,
    s1: HumanState,
    b0: PathfinderBehavior,
    b1: PathfinderBehavior,
    c1: MapCache,
) -> bool {
    match s0 {
        HumanState::Idle(objective) => {
            if actors.len() == 0 {
                if b0.pathfinder.current_goal == position {
                    idle_zone_post(data, m, position, objective, s0, s1, b0, b1)
                } else {
                    s1 == s0 && b1 == b0
                }
            } else if !vision_of(m, position, c1) {
                false
            } else if some_threat_seen(c1, actors, target) {
                s1 == s0 && (exists|t: Position| #[trigger] nearest_threat(c1, actors, target, position, t)
                    && behavior_after_goal(b0, b1, t, Priority::Low))
            } else {
                let bmid = PathfinderBehavior {
                    pathfinder: set_goal_result(b0.pathfinder, position, Priority::Low),
                    skip_turn: b0.skip_turn,
                    reached_goal: b0.reached_goal,
                };
                if bmid.pathfinder.current_goal == position {
                    idle_zone_post(data, m, position, objective, s0, s1, bmid, b1)
                } else {
                    s1 == s0 && b1 == bmid
                }
            }
        },
        HumanState::Moving(index) => {
            if ct is Player {
                s1 == s0 && b1 == b0
            } else if !vision_of(m, position, c1) {
                false
            } else if some_threat_seen(c1, actors, target) {
                exists|t: Position, p: Position, j: usize| {
                    &&& #[trigger] nearest_threat(c1, actors, target, position, t)
                    &&& #[trigger] hiding_choice_ok(
                        faction_clusters(data, ct),
                        position,
                        Some(t),
                        None,
                        p,
                        j as int,
                    )
                    &&& s1 == HumanState::Panic(j)
                    &&& behavior_after_goal(b0, b1, p, Priority::High)
                }
            } else {
                s1 == s0 && b1 == b0
            }
        },
        HumanState::Panic(index) => {
            if ct is Player {
                s1 == s0 && b1 == b0
            } else if !vision_of(m, position, c1) {
                false
            } else if some_threat_seen(c1, actors, target) {
                exists|t: Position, p: Position, j: usize| {
                    &&& #[trigger] nearest_threat(c1, actors, target, position, t)
                    &&& #[trigger] hiding_choice_ok(
                        faction_clusters(data, ct),
                        position,
                        Some(t),
                        Some(index),
                        p,
                        j as int,
                    )
                    &&& s1 == HumanState::Panic(j)
                    &&& behavior_after_goal(b0, b1, p, Priority::High)
                }
            } else if b0.pathfinder.current_goal == position {
                s1 == HumanState::Idle(Some(NewObjective::WanderButExclude(index))) && b1 == b0
            } else {
                s1 == s0 && b1 == b0
            }
        },
    }
}

/// Law of the civilian wander kick-off: an idle actor standing at its goal
/// on a `Free` krill-theater tile, seeing no hostile, whose stand-still
/// request is not outranked by a pending goal, comes out of the policy in
/// `Moving(i)` with a low-priority wander objective; provided no wander
/// point sits on the actor's own tile, that objective lies away from it.
pub proof fn lemma_idle_on_free_tile_starts_moving(
    ct: CharacterType,
    data: PathfinderGlobalData,
    m: TileMap,
    position: Position,
    actors: Seq<ActorInfo>,
    target: CharacterType,
    objective: Option<NewObjective>,
    s1: HumanState,
    b0: PathfinderBehavior,
    b1: PathfinderBehavior,
    c1: MapCache,
)
    requires
        human_tick_post(
            ct,
            data,
            m,
            position,
            actors,
            target,
            HumanState::Idle(objective),
            s1,
            b0,
            b1,
            c1,
        ),
        actors.len() > 0,
        !some_threat_seen(c1, actors, target),
        !(b0.pathfinder.pending_goal
            && b0.pathfinder.goal_priority.rank() > Priority::Low.rank()),
        match m.tile_at_pos(position) {
            Some(t) => t.spec_krill_theater() == Some(KrillTheaterZone::Free),
            None => false,
        },
        forall|i: int, j: int| 0 <= i < data.clusters().len()
            && 0 <= j < data.clusters()[i].len()
            ==> #[trigger] data.clusters()[i][j] != position,
    ensures
        exists|i: usize| s1 == HumanState::Moving(i),
        b1.pathfinder.current_goal != position,
        b1.pathfinder.pending_goal,
        b1.pathfinder.goal_priority == Priority::Low,
{
    let bmid = PathfinderBehavior {
        pathfinder: set_goal_result(b0.pathfinder, position, Priority::Low),
        skip_turn: b0.skip_turn,
        reached_goal: b0.reached_goal,
    };
    assert(bmid.pathfinder.current_goal == position);
    assert(wander_post(data, objective, s1, bmid, b1, Priority::Low));
    let (p, idx): (Position, usize) = choose|p: Position, idx: usize| {
        &&& #[trigger] wander_selection_ok(data, objective, p, idx as int)
        &&& s1 == HumanState::Moving(idx)
        &&& b1 == (PathfinderBehavior {
            pathfinder: set_goal_result(bmid.pathfinder, p, Priority::Low),
            skip_turn: bmid.skip_turn,
            reached_goal: Some(GoalContinuation::SettleIntoIdle),
        })
    };
    assert(data.clusters()[idx as int].contains(p));
    let j = choose|j: int| 0 <= j < data.clusters()[idx as int].len()
        && data.clusters()[idx as int][j] == p;
    assert(data.clusters()[idx as int][j] != position);
    assert(b1.pathfinder.current_goal == p);
}

/// Recompute vision from `position` and pick the nearest visible threat of
/// the hunted species among `actors`, if any.
fn find_visible_target(
    map: &TileMap,
    cache: &mut MapCache,
    position: Position,
    actors: &Vec<ActorInfo>,
    target: CharacterType,
) -> (r: Option<Position>)
    requires
        map.wf(),
        coord_ok(position),
    ensures
        vision_of(*map, position, *final(cache)),
        match r {
            Some(t) => nearest_threat(*final(cache), actors@, target, position, t)
                && coord_ok(t),
            None => !some_threat_seen(*final(cache), actors@, target),
        },
{
    map.get_in_vision(cache, position);
    let mut best: Option<Position> = None;
    let mut best_dist: u32 = 0;
    let mut i: usize = 0;
    while i < actors.len()
        invariant
            i <= actors@.len(),
            map.wf(),
            coord_ok(position),
            cache.wf(),
            forall|p: Position| cache.sees(p) ==> dist2(p, position) < VISION_RADIUS_SQ,
            forall|p: Position| cache.sees(p)
                ==> p == position || tile_exists(*map, p.x as int, p.y as int),
            match best {
                Some(t) => {
                    &&& coord_ok(t)
                    &&& best_dist == dist2(position, t)
                    &&& exists|k: int| 0 <= k < i && is_threat(#[trigger] actors@[k], target)
                        && cache.sees(actors@[k].position) && actors@[k].position == t
                    &&& forall|j: int| 0 <= j < i && is_threat(#[trigger] actors@[j], target)
                        && cache.sees(actors@[j].position)
                        ==> dist2(position, t) <= dist2(position, actors@[j].position)
                },
                None => forall|j: int| 0 <= j < i
                    ==> !(is_threat(#[trigger] actors@[j], target)
                        && cache.sees(actors@[j].position)),
            },
        decreases actors@.len() - i,
    {
        let a = &actors[i];
        let hostile = a.character_type == target
            && (!matches!(target, CharacterType::Werewolf)
                || matches!(a.form, Some(WereForm::Beast)));
        if hostile && cache.contains(a.position) {
            proof {
                lemma_dist2_sym(a.position, position);
                if a.position != position {
                    map.lemma_tile_bounds(a.position.x as int, a.position.y as int);
                }
            }
            let d = position.distance(&a.position);
            let better = match best {
                Some(_) => d < best_dist,
                None => true,
            };
            if better {
                best = Some(a.position);
                best_dist = d;
            }
        }
        i = i + 1;
    }
    best
}

/// Returns any position of a visible beast-form werewolf, with the owning
/// actor's handle; the vision cache is refilled from `position`.
pub fn human_panic(
    map: &TileMap,
    map_cache: &mut MapCache,
    position: Position,
    actors: &Vec<ActorInfo>,
) -> (r: Option<(u64, Position)>)
    requires
        map.wf(),
        old(map_cache).wf(),
        coord_ok(position),
    ensures
        vision_of(*map, position, *final(map_cache)),
        match r {
            Some(ep) => nearest_threat(
                *final(map_cache),
                actors@,
                CharacterType::Werewolf,
                position,
                ep.1,
            ) && exists|i: int| 0 <= i < actors@.len()
                && is_threat(#[trigger] actors@[i], CharacterType::Werewolf)
                && actors@[i].position == ep.1 && actors@[i].entity == ep.0,
            None => !some_threat_seen(*final(map_cache), actors@, CharacterType::Werewolf),
        },
{
    let found = find_visible_target(map, map_cache, position, actors, CharacterType::Werewolf);
    let t = match found {
        Some(t) => t,
        None => {
            return None;
        },
    };
    let mut i: usize = 0;
    while i < actors.len()
        invariant
            i <= actors@.len(),
            vision_of(*map, position, *map_cache),
            nearest_threat(*map_cache, actors@, CharacterType::Werewolf, position, t),
            forall|j: int| 0 <= j < i
                ==> !(is_threat(#[trigger] actors@[j], CharacterType::Werewolf)
                    && actors@[j].position == t),
        decreases actors@.len() - i,
    {
        let a = &actors[i];
        let hostile = a.character_type == CharacterType::Werewolf
            && matches!(a.form, Some(WereForm::Beast));
        if hostile && a.position == t {
            return Some((a.entity, a.position));
        }
        i = i + 1;
    }
    proof {
        let k = choose|k: int| 0 <= k < actors@.len()
            && is_threat(actors@[k], CharacterType::Werewolf)
            && map_cache.sees(actors@[k].position) && actors@[k].position == t;
        assert(false);
    }
    None
}

/// Aim for the nearest visible actor of the hunted species: when one is
/// seen its tile becomes the goal, otherwise the actor's own tile does.
/// Returns whether a target was seen. No goal is touched when `actors` is
/// empty.
pub fn get_pathfinder_target(
    behavior: &mut PathfinderBehavior,
    map: &TileMap,
    map_cache: &mut MapCache,
    position: Position,
    actors: &Vec<ActorInfo>,
    target_character_type: CharacterType,
) -> (found: bool)
    requires
        map.wf(),
        old(map_cache).wf(),
        coord_ok(position),
    ensures
        final(map_cache).wf(),
        actors@.len() == 0 ==> !found && *final(behavior) == *old(behavior)
            && *final(map_cache) == *old(map_cache),
        actors@.len() > 0 ==> {
            &&& vision_of(*map, position, *final(map_cache))
            &&& found == some_threat_seen(*final(map_cache), actors@, target_character_type)
            &&& if found {
                exists|t: Position| #[trigger] nearest_threat(
                    *final(map_cache),
                    actors@,
                    target_character_type,
                    position,
                    t,
                ) && behavior_after_goal(*old(behavior), *final(behavior), t, Priority::Low)
            } else {
                behavior_after_goal(*old(behavior), *final(behavior), position, Priority::Low)
            }
        },
{
    if actors.len() == 0 {
        return false;
    }
    match find_visible_target(map, map_cache, position, actors, target_character_type) {
        Some(t) => {
            behavior.set_goal(t, Priority::Low);
            true
        },
        None => {
            behavior.set_goal(position, Priority::Low);
            false
        },
    }
}

/// Choose a hiding point from this species' hiding clusters.
fn faction_panic_point(
    data: &PathfinderGlobalData,
    character_type: CharacterType,
    friendly: Position,
    enemy: Option<Position>,
    exclude: Option<usize>,
) -> (r: (Position, usize))
    requires
        data.wf(),
        coord_ok(friendly),
        match enemy {
            Some(e) => coord_ok(e),
            None => true,
        },
    ensures
        hiding_choice_ok(
            faction_clusters(*data, character_type),
            friendly,
            enemy,
            exclude,
            r.0,
            r.1 as int,
        ),
{
    if matches!(character_type, CharacterType::Werewolf) {
        data.werewolf().panic_point(friendly, enemy, exclude)
    } else {
        data.human().panic_point(friendly, enemy, exclude)
    }
}

/// Send the actor fleeing: choose a hiding point away from the enemy,
/// request it at high priority, and enter the panic state remembering the
/// chosen cluster.
pub fn set_human_panic(
    data: &PathfinderGlobalData,
    behavior: &mut PathfinderBehavior,
    state: &mut HumanState,
    character_type: CharacterType,
    position: Position,
    enemy_position: Position,
    exclude: Option<usize>,
)
    requires
        data.wf(),
        coord_ok(position),
        coord_ok(enemy_position),
    ensures
        exists|p: Position, j: usize| {
            &&& #[trigger] hiding_choice_ok(
                faction_clusters(*data, character_type),
                position,
                Some(enemy_position),
                exclude,
                p,
                j as int,
            )
            &&& *final(state) == HumanState::Panic(j)
            &&& behavior_after_goal(*old(behavior), *final(behavior), p, Priority::High)
        },
{
    let (p, j) = faction_panic_point(data, character_type, position, Some(enemy_position), exclude);
    behavior.set_goal(p, Priority::High);
    *state = HumanState::Panic(j);
}

/// Pick a new wander objective, remember its cluster in the moving state,
/// and arrange to settle back to idle on arrival.
fn set_wander_goal(
    state: &mut HumanState,
    behavior: &mut PathfinderBehavior,
    goal: (Position, usize),
    priority: Priority,
)
    ensures
        *final(state) == HumanState::Moving(goal.1),
        *final(behavior) == (PathfinderBehavior {
            pathfinder: set_goal_result(old(behavior).pathfinder, goal.0, priority),
            skip_turn: old(behavior).skip_turn,
            reached_goal: Some(GoalContinuation::SettleIntoIdle),
        }),
{
    *state = HumanState::Moving(goal.1);
    behavior.set_goal(goal.0, priority);
    behavior.reach_goal(GoalContinuation::SettleIntoIdle);
}

/// Pick a wander objective under the remembered exclusion.
fn choose_wander(data: &PathfinderGlobalData, objective: Option<NewObjective>) -> (r: (
    Position,
    usize,
))
    requires
        data.wf(),
    ensures
        wander_selection_ok(*data, objective, r.0, r.1 as int),
{
    match objective {
        Some(NewObjective::WanderButExclude(e)) => data.wander_point_except(e),
        None => data.wander_point(),
    }
}

/// One evaluation of the human policy for the actor at `position`: chase a
/// visible hostile, panic away from it while moving, or pick the next
/// wander or queue objective from the tile it stands on.
pub fn human_pathfinder(
    character_type: CharacterType,
    state: &mut HumanState,
    data: &PathfinderGlobalData,
    behavior: &mut PathfinderBehavior,
    map: &TileMap,
    map_cache: &mut MapCache,
    position: Position,
    actors: &Vec<ActorInfo>,
    target_character_type: CharacterType,
)
    requires
        map.wf(),
        old(map_cache).wf(),
        data.wf(),
        coord_ok(position),
    ensures
        final(map_cache).wf(),
        final(behavior).skip_turn == old(behavior).skip_turn,
        final(behavior).pathfinder.last_path == old(behavior).pathfinder.last_path,
        final(behavior).pathfinder.path_index == old(behavior).pathfinder.path_index,
        final(behavior).pathfinder.last_goal == old(behavior).pathfinder.last_goal,
        human_tick_post(
            character_type,
            *data,
            *map,
            position,
            actors@,
            target_character_type,
            *old(state),
            *final(state),
            *old(behavior),
            *final(behavior),
            *final(map_cache),
        ),
{
    match *state {
        HumanState::Idle(objective) => {
            let found = get_pathfinder_target(
                behavior,
                map,
                map_cache,
                position,
                actors,
                target_character_type,
            );
            if !found && behavior.is_at(position) {
                let wander_priority = match map.at_pos(position) {
                    Some(tile) => match tile.krill_theater() {
                        // queueing: aim at the next slot, stay idle
                        Some(KrillTheaterZone::LineUp(t)) => {
                            behavior.set_goal(*t, Priority::Low);
                            return;
                        },
                        // leaving the theater insists more than idling in it
                        Some(KrillTheaterZone::Exit) => Priority::Medium,
                        Some(KrillTheaterZone::Free) | None => Priority::Low,
                    },
                    None => {
                        return;
                    },
                };
                let goal = choose_wander(data, objective);
                set_wander_goal(state, behavior, goal, wander_priority);
            }
        },
        HumanState::Moving(_index) => {
            if matches!(character_type, CharacterType::Player) {
                return;
            }
            match find_visible_target(map, map_cache, position, actors, target_character_type) {
                Some(t) => {
                    set_human_panic(data, behavior, state, character_type, position, t, None);
                },
                None => {},
            }
        },
        HumanState::Panic(panic_index) => {
            if matches!(character_type, CharacterType::Player) {
                return;
            }
            match find_visible_target(map, map_cache, position, actors, target_character_type) {
                Some(t) => {
                    set_human_panic(
                        data,
                        behavior,
                        state,
                        character_type,
                        position,
                        t,
                        Some(panic_index),
                    );
                },
                None => {
                    if behavior.is_at(position) {
                        *state = HumanState::Idle(Some(NewObjective::WanderButExclude(panic_index)));
                    }
                },
            }
        },
    }
}

/// Civilian policy: the human policy hunting for werewolves.
pub fn lerain_pathfinder(
    data: &PathfinderGlobalData,
    behavior: &mut PathfinderBehavior,
    map: &TileMap,
    map_cache: &mut MapCache,
    character_type: CharacterType,
    character_behavior_data: &mut CharacterBehaviorData,
    position: Position,
    actors: &Vec<ActorInfo>,
)
    requires
        map.wf(),
        old(map_cache).wf(),
        data.wf(),
        coord_ok(position),
    ensures
        final(map_cache).wf(),
        final(behavior).skip_turn == old(behavior).skip_turn,
        final(behavior).pathfinder.last_path == old(behavior).pathfinder.last_path,
        final(behavior).pathfinder.path_index == old(behavior).pathfinder.path_index,
        final(behavior).pathfinder.last_goal == old(behavior).pathfinder.last_goal,
        match *old(character_behavior_data) {
            CharacterBehaviorData::Human { human_state: s0 } => match *final(character_behavior_data) {
                CharacterBehaviorData::Human { human_state: s1 } => human_tick_post(
                    character_type,
                    *data,
                    *map,
                    position,
                    actors@,
                    CharacterType::Werewolf,
                    s0,
                    s1,
                    *old(behavior),
                    *final(behavior),
                    *final(map_cache),
                ),
                _ => false,
            },
            _ => *final(character_behavior_data) == *old(character_behavior_data)
                && *final(behavior) == *old(behavior)
                && *final(map_cache) == *old(map_cache),
        },
{
    let mut taken = CharacterBehaviorData::default_human();
    core::mem::swap(character_behavior_data, &mut taken);
    match taken {
        CharacterBehaviorData::Human { human_state } => {
            let mut state = human_state;
            human_pathfinder(
                character_type,
                &mut state,
                data,
                behavior,
                map,
                map_cache,
                position,
                actors,
                CharacterType::Werewolf,
            );
            *character_behavior_data = CharacterBehaviorData::Human { human_state: state };
        },
        other => {
            *character_behavior_data = other;
        },
    }
}

/// A random in-map goal at low priority.
pub fn get_random_target(map: &TileMap, pathfinder: &mut PathfinderBehavior)
    requires
        map.wf(),
        map.spec_size_x() >= 1,
        map.spec_size_y() >= 1,
    ensures
        exists|g: Position| {
            &&& 0 <= g.x < map.spec_size_x()
            &&& 0 <= g.y < map.spec_size_y()
            &&& #[trigger] behavior_after_goal(*old(pathfinder), *final(pathfinder), g, Priority::Low)
        },
{
    proof {
        map.lemma_size_bounds();
    }
    let x = crate::data::random_below(map.get_size_x());
    let y = crate::data::random_below(map.get_size_y());
    let g = Position { x: x as i32, y: y as i32 };
    pathfinder.set_goal(g, Priority::Low);
    proof {
        assert(behavior_after_goal(*old(pathfinder), *pathfinder, g, Priority::Low));
    }
}

/// Tourist policy: chase a visible werewolf, else wander anywhere at all.
pub fn rumdare_pathfinder(
    data: &PathfinderGlobalData,
    behavior: &mut PathfinderBehavior,
    map: &TileMap,
    map_cache: &mut MapCache,
    character_type: CharacterType,
    character_behavior_data: &mut CharacterBehaviorData,
    position: Position,
    actors: &Vec<ActorInfo>,
)
    requires
        map.wf(),
        old(map_cache).wf(),
        map.spec_size_x() >= 1,
        map.spec_size_y() >= 1,
        coord_ok(position),
    ensures
        final(map_cache).wf(),
        final(behavior).skip_turn == old(behavior).skip_turn,
        final(behavior).pathfinder.last_path == old(behavior).pathfinder.last_path,
        final(behavior).pathfinder.path_index == old(behavior).pathfinder.path_index,
        final(behavior).pathfinder.last_goal == old(behavior).pathfinder.last_goal,
        *final(character_behavior_data) == *old(character_behavior_data),
        actors@.len() > 0 ==> vision_of(*map, position, *final(map_cache)),
        actors@.len() > 0 && some_threat_seen(
            *final(map_cache),
            actors@,
            CharacterType::Werewolf,
        ) ==> exists|t: Position| #[trigger] nearest_threat(
            *final(map_cache),
            actors@,
            CharacterType::Werewolf,
            position,
            t,
        ) && behavior_after_goal(*old(behavior), *final(behavior), t, Priority::Low),
        actors@.len() == 0 ==> exists|g: Position| {
            &&& 0 <= g.x < map.spec_size_x()
            &&& 0 <= g.y < map.spec_size_y()
            &&& #[trigger] behavior_after_goal(*old(behavior), *final(behavior), g, Priority::Low)
        },
        actors@.len() > 0 && !some_threat_seen(
            *final(map_cache),
            actors@,
            CharacterType::Werewolf,
        ) ==> exists|g: Position| {
            &&& 0 <= g.x < map.spec_size_x()
            &&& 0 <= g.y < map.spec_size_y()
            &&& #[trigger] final(behavior).pathfinder == set_goal_result(
                set_goal_result(old(behavior).pathfinder, position, Priority::Low),
                g,
                Priority::Low,
            )
            &&& final(behavior).skip_turn == old(behavior).skip_turn
            &&& final(behavior).reached_goal == old(behavior).reached_goal
        },
{
    if !get_pathfinder_target(
        behavior,
        map,
        map_cache,
        position,
        actors,
        CharacterType::Werewolf,
    ) {
        get_random_target(map, behavior);
    }
}

/// Which enemy of the listed ones a panicking beast flees from: the one
/// nearest to it, or none when none is listed.
pub open spec fn enemy_pick_ok(enemies: Seq<Position>, from: Position, e: Option<Position>) -> bool {
    match e {
        None => enemies.len() == 0,
        Some(ep) => enemies.contains(ep) && forall|i: int| 0 <= i < enemies.len()
            ==> dist2(from, ep) <= dist2(from, #[trigger] enemies[i]),
    }
}

/// Every enemy position remembered in a panic state fits on a map.
pub open spec fn enemies_coord_ok(cbd: CharacterBehaviorData) -> bool {
    match cbd {
        CharacterBehaviorData::Werewolf {
            werewolf_state: WerewolfState::Panic { enemies, .. },
            ..
        } => forall|i: int| 0 <= i < enemies@.len() ==> coord_ok(#[trigger] enemies@[i]),
        _ => true,
    }
}

/// The nearest listed enemy, if any is listed.
fn pick_nearest_enemy(enemies: &Vec<Position>, from: Position) -> (r: Option<Position>)
    requires
        coord_ok(from),
        forall|i: int| 0 <= i < enemies@.len() ==> coord_ok(#[trigger] enemies@[i]),
    ensures
        enemy_pick_ok(enemies@, from, r),
{
    if enemies.len() == 0 {
        return None;
    }
    let mut best: Position = enemies[0];
    let mut best_dist: u32;
    proof {
        lemma_dist2_bounded(from, enemies@[0]);
    }
    best_dist = from.distance(&enemies[0]);
    let mut i: usize = 1;
    while i < enemies.len()
        invariant
            1 <= i <= enemies@.len(),
            coord_ok(from),
            forall|k: int| 0 <= k < enemies@.len() ==> coord_ok(#[trigger] enemies@[k]),
            enemies@.contains(best),
            best_dist == dist2(from, best),
            forall|k: int| 0 <= k < i ==> dist2(from, best) <= dist2(from, #[trigger] enemies@[k]),
        decreases enemies@.len() - i,
    {
        proof {
            lemma_dist2_bounded(from, enemies@[i as int]);
        }
        let d = from.distance(&enemies[i]);
        if d < best_dist {
            best = enemies[i];
            best_dist = d;
        }
        i = i + 1;
    }
    Some(best)
}

/// What the beast-form policy does to the werewolf's state, its form, and
/// its goal, case by case over the starting werewolf state.
pub open spec fn beast_post(
    data: PathfinderGlobalData,
    position: Position,
    ws0: WerewolfState,
    ws1: WerewolfState,
    cd1: CharacterData,
    b0: PathfinderBehavior,
    b1: PathfinderBehavior,
) -> bool {
    match ws0 {
        WerewolfState::Hunt(target) => {
            &&& ws1 == ws0
            &&& cd1 == (CharacterData::Werewolf { form: WereForm::Beast })
            &&& match target {
                Some(t) => behavior_after_goal(b0, b1, t, Priority::Medium),
                None => behavior_after_goal(b0, b1, position, Priority::Medium),
            }
        },
        WerewolfState::Panic {
            target: Some(t),
            exclude_target_index: ex0,
            enemies: en0,
            calm_cooldown: cc0,
        } => {
            if cc0.0 != 0 {
                &&& cd1 == (CharacterData::Werewolf { form: WereForm::Beast })
                &&& behavior_after_goal(b0, b1, t, Priority::Medium)
                &&& match ws1 {
                    WerewolfState::Panic {
                        target: t1,
                        exclude_target_index: ex1,
                        enemies: en1,
                        calm_cooldown: cc1,
                    } => t1 == Some(t) && ex1 == ex0 && en1@ == en0@ && cc1.0 == cc0.0 - 1,
                    _ => false,
                }
            } else {
                &&& cd1 == (CharacterData::Werewolf { form: WereForm::Human })
                &&& b1 == b0
                &&& ws1 == ws0
            }
        },
        WerewolfState::Panic {
            target: None,
            exclude_target_index: ex0,
            enemies: en0,
            calm_cooldown: _,
        } => {
            exists|e: Option<Position>, p: Position, j: usize| {
                &&& #[trigger] enemy_pick_ok(en0@, position, e)
                &&& #[trigger] hiding_choice_ok(
                    data.werewolf_data().clusters(),
                    position,
                    e,
                    ex0,
                    p,
                    j as int,
                )
                &&& cd1 == (CharacterData::Werewolf { form: WereForm::Beast })
                &&& behavior_after_goal(b0, b1, p, Priority::Medium)
                &&& match ws1 {
                    WerewolfState::Panic {
                        target: t1,
                        exclude_target_index: ex1,
                        enemies: en1,
                        calm_cooldown: cc1,
                    } => t1 == Some(p) && ex1 == Some(j) && en1@ == en0@
                        && cc1.0 == dist2(position, p),
                    _ => false,
                }
            }
        },
    }
}

/// Everything one evaluation of the werewolf policy may do: in human form
/// the human policy hunting the player, in beast form hunting or fleeing
/// by the werewolf state.
pub open spec fn werewolf_tick_post(
    ct: CharacterType,
    data: PathfinderGlobalData,
    m: TileMap,
    position: Position,
    actors: Seq<ActorInfo>,
    cd0: CharacterData,
    cd1: CharacterData,
    cbd0: CharacterBehaviorData,
    cbd1: CharacterBehaviorData,
    b0: PathfinderBehavior,
    b1: PathfinderBehavior,
    c1: MapCache,
) -> bool {
    match cd0 {
        CharacterData::Werewolf { form: WereForm::Human } => match cbd0 {
            CharacterBehaviorData::Werewolf { werewolf_state: ws0, human_state: hs0 } => {
                &&& cd1 == cd0
                &&& match cbd1 {
                    CharacterBehaviorData::Werewolf { werewolf_state: ws1, human_state: hs1 } => {
                        ws1 == ws0 && human_tick_post(
                            ct,
                            data,
                            m,
                            position,
                            actors,
                            CharacterType::Player,
                            hs0,
                            hs1,
                            b0,
                            b1,
                            c1,
                        )
                    },
                    _ => false,
                }
            },
            _ => cd1 == cd0 && cbd1 == cbd0 && b1 == b0,
        },
        CharacterData::Werewolf { form: WereForm::Beast } => match cbd0 {
            CharacterBehaviorData::Werewolf { werewolf_state: ws0, human_state: hs0 } => {
                match cbd1 {
                    CharacterBehaviorData::Werewolf { werewolf_state: ws1, human_state: hs1 } => {
                        hs1 == hs0 && beast_post(data, position, ws0, ws1, cd1, b0, b1)
                    },
                    _ => false,
                }
            },
            _ => cd1 == cd0 && cbd1 == cbd0 && b1 == b0,
        },
        _ => cd1 == cd0 && cbd1 == cbd0 && b1 == b0,
    }
}

/// One evaluation of the werewolf policy.
pub fn werewolf_pathfinder(
    data: &PathfinderGlobalData,
    behavior: &mut PathfinderBehavior,
    map: &TileMap,
    map_cache: &mut MapCache,
    character_type: CharacterType,
    character_data: &mut CharacterData,
    character_behavior_data: &mut CharacterBehaviorData,
    position: Position,
    actors: &Vec<ActorInfo>,
)
    requires
        map.wf(),
        old(map_cache).wf(),
        data.wf(),
        coord_ok(position),
        enemies_coord_ok(*old(character_behavior_data)),
    ensures
        final(map_cache).wf(),
        final(behavior).skip_turn == old(behavior).skip_turn,
        final(behavior).pathfinder.last_path == old(behavior).pathfinder.last_path,
        final(behavior).pathfinder.path_index == old(behavior).pathfinder.path_index,
        final(behavior).pathfinder.last_goal == old(behavior).pathfinder.last_goal,
        werewolf_tick_post(
            character_type,
            *data,
            *map,
            position,
            actors@,
            *old(character_data),
            *final(character_data),
            *old(character_behavior_data),
            *final(character_behavior_data),
            *old(behavior),
            *final(behavior),
            *final(map_cache),
        ),
{
    let beast = match character_data {
        CharacterData::Werewolf { form } => matches!(form, WereForm::Beast),
        _ => {
            return;
        },
    };
    if !beast {
        // human form: run the human policy on the stored human state
        let mut taken = CharacterBehaviorData::default_human();
        core::mem::swap(character_behavior_data, &mut taken);
        match taken {
            CharacterBehaviorData::Werewolf { werewolf_state, human_state } => {
                let mut state = human_state;
                human_pathfinder(
                    character_type,
                    &mut state,
                    data,
                    behavior,
                    map,
                    map_cache,
                    position,
                    actors,
                    CharacterType::Player,
                );
                *character_behavior_data = CharacterBehaviorData::Werewolf {
                    werewolf_state,
                    human_state: state,
                };
            },
            other => {
                *character_behavior_data = other;
            },
        }
        return;
    }
    let mut taken = CharacterBehaviorData::default_human();
    core::mem::swap(character_behavior_data, &mut taken);
    match taken {
        CharacterBehaviorData::Werewolf { werewolf_state, human_state } => {
            let new_state: WerewolfState = match werewolf_state {
                WerewolfState::Hunt(target) => {
                    match target {
                        Some(t) => {
                            behavior.set_goal(t, Priority::Medium);
                        },
                        None => {
                            behavior.set_goal(position, Priority::Medium);
                        },
                    }
                    WerewolfState::Hunt(target)
                },
                WerewolfState::Panic {
                    target: Some(t),
                    exclude_target_index,
                    enemies,
                    calm_cooldown,
                } => {
                    let mut cooldown = calm_cooldown;
                    if cooldown.execute() {
                        behavior.set_goal(t, Priority::Medium);
                    } else {
                        // the beast has calmed down: revert to human form
                        *character_data = CharacterData::Werewolf { form: WereForm::Human };
                    }
                    WerewolfState::Panic {
                        target: Some(t),
                        exclude_target_index,
                        enemies,
                        calm_cooldown: cooldown,
                    }
                },
                WerewolfState::Panic {
                    target: None,
                    exclude_target_index,
                    enemies,
                    calm_cooldown: _,
                } => {
                    let enemy = pick_nearest_enemy(&enemies, position);
                    let (p, j) = faction_panic_point(
                        data,
                        CharacterType::Werewolf,
                        position,
                        enemy,
                        exclude_target_index,
                    );
                    proof {
                        let clusters = data.werewolf_data().clusters();
                        assert(clusters[j as int].contains(p));
                        let pi = choose|pi: int| 0 <= pi < clusters[j as int].len()
                            && clusters[j as int][pi] == p;
                        lemma_dist2_bounded(position, p);
                    }
                    let cooldown = Cooldown(position.distance(&p) as usize);
                    behavior.set_goal(p, Priority::Medium);
                    WerewolfState::Panic {
                        target: Some(p),
                        exclude_target_index: Some(j),
                        enemies,
                        calm_cooldown: cooldown,
                    }
                },
            };
            *character_behavior_data = CharacterBehaviorData::Werewolf {
                werewolf_state: new_state,
                human_state,
            };
        },
        other => {
            *character_behavior_data = other;
        },
    }
}

/// A mover that has reached its objective settles: it becomes idle and
/// remembers the wander cluster it came from. Anything else is untouched.
pub open spec fn settle_state(cbd: CharacterBehaviorData) -> CharacterBehaviorData {
    match cbd {
        CharacterBehaviorData::Human { human_state: HumanState::Moving(i) } => {
            CharacterBehaviorData::Human {
                human_state: HumanState::Idle(Some(NewObjective::WanderButExclude(i))),
            }
        },
        CharacterBehaviorData::Werewolf {
            werewolf_state,
            human_state: HumanState::Moving(i),
        } => CharacterBehaviorData::Werewolf {
            werewolf_state,
            human_state: HumanState::Idle(Some(NewObjective::WanderButExclude(i))),
        },
        other => other,
    }
}

/// Run a registered one-shot goal continuation.
fn apply_goal_continuation(c: GoalContinuation, cbd: &mut CharacterBehaviorData)
    ensures
        *final(cbd) == settle_state(*old(cbd)),
{
    match c {
        GoalContinuation::SettleIntoIdle => {
            let mut taken = CharacterBehaviorData::default_human();
            core::mem::swap(cbd, &mut taken);
            match taken {
                CharacterBehaviorData::Human { human_state: HumanState::Moving(i) } => {
                    *cbd = CharacterBehaviorData::Human {
                        human_state: HumanState::Idle(Some(NewObjective::WanderButExclude(i))),
                    };
                },
                CharacterBehaviorData::Werewolf {
                    werewolf_state,
                    human_state: HumanState::Moving(i),
                } => {
                    *cbd = CharacterBehaviorData::Werewolf {
                        werewolf_state,
                        human_state: HumanState::Idle(Some(NewObjective::WanderButExclude(i))),
                    };
                },
                other => {
                    *cbd = other;
                },
            }
        },
    }
}

/// The behavior after the start-of-tick arrival check: standing on the
/// current goal settles it (no longer pending) and consumes any registered
/// on-reach action.
pub open spec fn arrival_behavior(b0: PathfinderBehavior, position: Position) -> PathfinderBehavior {
    if b0.pathfinder.current_goal == position {
        PathfinderBehavior {
            pathfinder: Pathfinder {
                current_goal: b0.pathfinder.current_goal,
                goal_priority: b0.pathfinder.goal_priority,
                pending_goal: false,
                last_goal: b0.pathfinder.last_goal,
                last_path: b0.pathfinder.last_path,
                path_index: b0.pathfinder.path_index,
            },
            skip_turn: b0.skip_turn,
            reached_goal: None,
        }
    } else {
        b0
    }
}

/// The behavioral state after the arrival check: the registered action
/// fires exactly when the actor stands on its goal.
pub open spec fn arrival_state(
    b0: PathfinderBehavior,
    cbd0: CharacterBehaviorData,
    position: Position,
) -> CharacterBehaviorData {
    if b0.pathfinder.current_goal == position
        && b0.reached_goal == Some(GoalContinuation::SettleIntoIdle) {
        settle_state(cbd0)
    } else {
        cbd0
    }
}

/// Whether the registered run-conditions let the AI act this tick.
pub open spec fn conditions_pass(conds: Seq<bool>) -> bool {
    conds.len() == 0 || exists|i: int| 0 <= i < conds.len() && conds[i]
}

/// Which policy each species runs, and what it may do.
pub open spec fn policy_applied(
    ct: CharacterType,
    data: PathfinderGlobalData,
    m: TileMap,
    position: Position,
    actors: Seq<ActorInfo>,
    cd0: CharacterData,
    cd1: CharacterData,
    cbd0: CharacterBehaviorData,
    cbd1: CharacterBehaviorData,
    b0: PathfinderBehavior,
    b1: PathfinderBehavior,
    c1: MapCache,
) -> bool {
    match ct {
        CharacterType::Player => cd1 == cd0 && cbd1 == cbd0 && b1 == b0,
        CharacterType::Lerain => cd1 == cd0 && match cbd0 {
            CharacterBehaviorData::Human { human_state: s0 } => match cbd1 {
                CharacterBehaviorData::Human { human_state: s1 } => human_tick_post(
                    ct,
                    data,
                    m,
                    position,
                    actors,
                    CharacterType::Werewolf,
                    s0,
                    s1,
                    b0,
                    b1,
                    c1,
                ),
                _ => false,
            },
            _ => cbd1 == cbd0 && b1 == b0,
        },
        CharacterType::Rumdare => cd1 == cd0 && cbd1 == cbd0
            && (actors.len() > 0 ==> vision_of(m, position, c1)),
        CharacterType::Werewolf => werewolf_tick_post(
            ct,
            data,
            m,
            position,
            actors,
            cd0,
            cd1,
            cbd0,
            cbd1,
            b0,
            b1,
            c1,
        ),
    }
}

/// One full planner tick for one actor: fire the goal-reached action when
/// standing on the goal, let the run-conditions and the skip-turn throttle
/// gate the tick, run the species policy, then search and follow the path.
pub fn pathfinder_update(
    data: &PathfinderGlobalData,
    behavior_data: &mut BehaviorData<PathfinderBehavior>,
    map: &TileMap,
    map_cache: &mut MapCache,
    character_type: CharacterType,
    character_data: &mut CharacterData,
    character_behavior_data: &mut CharacterBehaviorData,
    position: Position,
    actors: &Vec<ActorInfo>,
) -> (movement: MovementInput)
    requires
        map.wf(),
        map.spec_size_x() >= 1,
        map.spec_size_y() >= 1,
        old(map_cache).wf(),
        data.wf(),
        coord_ok(position),
        old(behavior_data).behavior.wf(),
        enemies_coord_ok(*old(character_behavior_data)),
    ensures
        final(map_cache).wf(),
        final(behavior_data).behavior.wf(),
        final(behavior_data).conditions == old(behavior_data).conditions,
        !conditions_pass(old(behavior_data).conditions@) ==> {
            let b1 = arrival_behavior(old(behavior_data).behavior, position);
            &&& movement is Idle
            &&& final(behavior_data).behavior == (PathfinderBehavior {
                pathfinder: b1.pathfinder,
                skip_turn: SkipTurn { count: 0, skip_at: b1.skip_turn.skip_at },
                reached_goal: b1.reached_goal,
            })
            &&& *final(character_behavior_data) == arrival_state(
                old(behavior_data).behavior,
                *old(character_behavior_data),
                position,
            )
            &&& *final(character_data) == *old(character_data)
            &&& *final(map_cache) == *old(map_cache)
        },
        conditions_pass(old(behavior_data).conditions@)
            && old(behavior_data).behavior.skip_turn.count
                == old(behavior_data).behavior.skip_turn.skip_at ==> {
            let b1 = arrival_behavior(old(behavior_data).behavior, position);
            &&& movement is Idle
            &&& final(behavior_data).behavior == (PathfinderBehavior {
                pathfinder: b1.pathfinder,
                skip_turn: b1.skip_turn.next(),
                reached_goal: b1.reached_goal,
            })
            &&& *final(character_behavior_data) == arrival_state(
                old(behavior_data).behavior,
                *old(character_behavior_data),
                position,
            )
            &&& *final(character_data) == *old(character_data)
            &&& *final(map_cache) == *old(map_cache)
        },
        conditions_pass(old(behavior_data).conditions@)
            && old(behavior_data).behavior.skip_turn.count
                != old(behavior_data).behavior.skip_turn.skip_at ==> {
            let b1 = arrival_behavior(old(behavior_data).behavior, position);
            exists|b2: PathfinderBehavior| {
                &&& #[trigger] policy_applied(
                    character_type,
                    *data,
                    *map,
                    position,
                    actors@,
                    *old(character_data),
                    *final(character_data),
                    arrival_state(
                        old(behavior_data).behavior,
                        *old(character_behavior_data),
                        position,
                    ),
                    *final(character_behavior_data),
                    PathfinderBehavior {
                        pathfinder: b1.pathfinder,
                        skip_turn: b1.skip_turn.next(),
                        reached_goal: b1.reached_goal,
                    },
                    b2,
                    *final(map_cache),
                )
                &&& final(behavior_data).behavior.skip_turn == b2.skip_turn
                &&& final(behavior_data).behavior.reached_goal == b2.reached_goal
                &&& crate::pathfinder::step_rel(
                    *map,
                    b2.pathfinder,
                    final(behavior_data).behavior.pathfinder,
                    position,
                    movement,
                )
            }
        },
{
    // arrival: settle the goal and run the one-shot action
    if behavior_data.behavior.is_at(position) {
        behavior_data.behavior.pathfinder.pending_goal = false;
        match behavior_data.behavior.reached_goal {
            Some(c) => {
                apply_goal_continuation(c, character_behavior_data);
            },
            None => {},
        }
        behavior_data.behavior.reached_goal = None;
    }
    // gating: run-conditions, then the skip-turn throttle
    if !behavior_data.check_conditions() {
        behavior_data.behavior.skip_turn.reset_count();
        return MovementInput::Idle;
    }
    if !behavior_data.behavior.skip_turn.check() {
        return MovementInput::Idle;
    }
    // the species policy chooses the goal
    match character_type {
        CharacterType::Player => {},
        CharacterType::Lerain => {
            lerain_pathfinder(
                data,
                &mut behavior_data.behavior,
                map,
                map_cache,
                character_type,
                character_behavior_data,
                position,
                actors,
            );
        },
        CharacterType::Rumdare => {
            rumdare_pathfinder(
                data,
                &mut behavior_data.behavior,
                map,
                map_cache,
                character_type,
                character_behavior_data,
                position,
                actors,
            );
        },
        CharacterType::Werewolf => {
            werewolf_pathfinder(
                data,
                &mut behavior_data.behavior,
                map,
                map_cache,
                character_type,
                character_data,
                character_behavior_data,
                position,
                actors,
            );
        },
    }
    // search toward the goal and walk the path
    let ghost b2 = behavior_data.behavior;
    let movement = behavior_data.behavior.pathfinder.step(map, position);
    proof {
        assert(policy_applied(
            character_type,
            *data,
            *map,
            position,
            actors@,
            *old(character_data),
            *character_data,
            arrival_state(
                old(behavior_data).behavior,
                *old(character_behavior_data),
                position,
            ),
            *character_behavior_data,
            PathfinderBehavior {
                pathfinder: arrival_behavior(old(behavior_data).behavior, position).pathfinder,
                skip_turn: arrival_behavior(old(behavior_data).behavior, position).skip_turn.next(),
                reached_goal: arrival_behavior(old(behavior_data).behavior, position).reached_goal,
            },
            b2,
            *map_cache,
        ));
    }
    movement
}

} // verus!
