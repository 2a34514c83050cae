use map_brain::character::{ActorInfo, CharacterData, CharacterType, MovementInput, WereForm};
use map_brain::data::{
    HumanPathfinderGlobalData, PathfinderGlobalData, WerewolfPathfinderGlobalData,
};
use map_brain::director::{
    get_pathfinder_target, human_panic, human_pathfinder, lerain_pathfinder, pathfinder_update,
    rumdare_pathfinder, werewolf_pathfinder,
};
use map_brain::map_brain::{
    BehaviorData, CharacterBehaviorData, Cooldown, HumanState, NewObjective, WerewolfState,
};
use map_brain::pathfinder::{PathfinderBehavior, Priority};
use map_brain::physics::{
    CollisionType, KrillTheaterZone, MapCache, Occupier, Position, Tile, TileMap, Zone,
};

fn test_data() -> PathfinderGlobalData {
    PathfinderGlobalData::new(
        vec![vec![Position::new(7, 7)], vec![Position::new(1, 7)]],
        vec![Position::new(6, 1)],
        HumanPathfinderGlobalData::new(vec![
            vec![Position::new(1, 1)],
            vec![Position::new(8, 8)],
        ]),
        WerewolfPathfinderGlobalData::new(vec![
            vec![Position::new(8, 8)],
            vec![Position::new(1, 1)],
        ]),
    )
}

fn civilian(position: Position) -> ActorInfo {
    ActorInfo {
        entity: 1,
        character_type: CharacterType::Lerain,
        form: None,
        position,
    }
}

fn beast(position: Position) -> ActorInfo {
    ActorInfo {
        entity: 2,
        character_type: CharacterType::Werewolf,
        form: Some(WereForm::Beast),
        position,
    }
}

#[test]
fn civilian_on_free_tile_starts_moving() {
    // a civilian standing on a Free krill-theater tile with no goal and no
    // threats picks a wander objective and enters Moving
    let data = test_data();
    let mut map = TileMap::new(9, 9);
    let position = Position::new(4, 4);
    map.set_tile(
        4,
        4,
        Tile::new_ground(Zone::KrillTheater { zone: KrillTheaterZone::Free }),
    );
    let mut cache = MapCache::new();
    let mut state = HumanState::Idle(None);
    let mut behavior = PathfinderBehavior::new(1).behavior;
    let actors = vec![civilian(position)];
    human_pathfinder(
        CharacterType::Lerain,
        &mut state,
        &data,
        &mut behavior,
        &map,
        &mut cache,
        position,
        &actors,
        CharacterType::Werewolf,
    );
    match state {
        HumanState::Moving(i) => {
            let goal = behavior.pathfinder.current_goal;
            assert!(goal == Position::new(7, 7) || goal == Position::new(1, 7));
            assert!(goal != position);
            // the remembered cluster is the one the goal came from
            if goal == Position::new(7, 7) {
                assert_eq!(i, 0);
            } else {
                assert_eq!(i, 1);
            }
        },
        _ => panic!("expected Moving"),
    }
}

#[test]
fn civilian_in_queue_aims_at_its_slot() {
    let data = test_data();
    let mut map = TileMap::new(9, 9);
    let position = Position::new(4, 4);
    let slot = Position::new(5, 4);
    map.set_tile(
        4,
        4,
        Tile::new_ground(Zone::KrillTheater { zone: KrillTheaterZone::LineUp(slot) }),
    );
    let mut cache = MapCache::new();
    let mut state = HumanState::Idle(None);
    let mut behavior = PathfinderBehavior::new(1).behavior;
    let actors = vec![civilian(position)];
    human_pathfinder(
        CharacterType::Lerain,
        &mut state,
        &data,
        &mut behavior,
        &map,
        &mut cache,
        position,
        &actors,
        CharacterType::Werewolf,
    );
    // queueing keeps the idle state and aims at the queue slot
    assert!(matches!(state, HumanState::Idle(None)));
    assert!(behavior.is_at(slot));
}

#[test]
fn civilian_leaving_by_exit_avoids_its_old_cluster() {
    let data = test_data();
    let mut map = TileMap::new(9, 9);
    let position = Position::new(4, 4);
    map.set_tile(
        4,
        4,
        Tile::new_ground(Zone::KrillTheater { zone: KrillTheaterZone::Exit }),
    );
    let mut cache = MapCache::new();
    let mut state = HumanState::Idle(Some(NewObjective::WanderButExclude(0)));
    let mut behavior = PathfinderBehavior::new(1).behavior;
    let actors = vec![civilian(position)];
    human_pathfinder(
        CharacterType::Lerain,
        &mut state,
        &data,
        &mut behavior,
        &map,
        &mut cache,
        position,
        &actors,
        CharacterType::Werewolf,
    );
    // cluster 0 is excluded, so the goal comes from cluster 1
    assert!(matches!(state, HumanState::Moving(1)));
    assert!(behavior.is_at(Position::new(1, 7)));
}

#[test]
fn civilian_panics_toward_the_farthest_hiding_cluster() {
    // a moving civilian at (5,5) spots a beast-form werewolf at (5,7):
    // it panics toward the hiding cluster farthest from the enemy
    let data = test_data();
    let map = TileMap::new(9, 9);
    let position = Position::new(5, 5);
    let mut cache = MapCache::new();
    let mut state = HumanState::Moving(0);
    let mut behavior = PathfinderBehavior::new(1).behavior;
    let actors = vec![civilian(position), beast(Position::new(5, 7))];
    human_pathfinder(
        CharacterType::Lerain,
        &mut state,
        &data,
        &mut behavior,
        &map,
        &mut cache,
        position,
        &actors,
        CharacterType::Werewolf,
    );
    // hiding clusters are (1,1) and (8,8); (1,1) is farthest from (5,7)
    match state {
        HumanState::Panic(j) => assert_eq!(j, 0),
        _ => panic!("expected Panic"),
    }
    assert!(behavior.is_at(Position::new(1, 1)));
}

#[test]
fn moving_civilian_ignores_a_human_form_werewolf() {
    let data = test_data();
    let map = TileMap::new(9, 9);
    let position = Position::new(5, 5);
    let mut cache = MapCache::new();
    let mut state = HumanState::Moving(0);
    let mut behavior = PathfinderBehavior::new(1).behavior;
    let mut tame = beast(Position::new(5, 7));
    tame.form = Some(WereForm::Human);
    let actors = vec![civilian(position), tame];
    human_pathfinder(
        CharacterType::Lerain,
        &mut state,
        &data,
        &mut behavior,
        &map,
        &mut cache,
        position,
        &actors,
        CharacterType::Werewolf,
    );
    assert!(matches!(state, HumanState::Moving(0)));
}

#[test]
fn panicking_civilian_settles_once_safe_and_arrived() {
    let data = test_data();
    let map = TileMap::new(9, 9);
    let position = Position::new(1, 1);
    let mut cache = MapCache::new();
    let mut state = HumanState::Panic(0);
    let mut behavior = PathfinderBehavior::new(1).behavior;
    behavior.set_goal(position, Priority::High);
    let actors = vec![civilian(position)];
    human_pathfinder(
        CharacterType::Lerain,
        &mut state,
        &data,
        &mut behavior,
        &map,
        &mut cache,
        position,
        &actors,
        CharacterType::Werewolf,
    );
    assert_eq!(
        state,
        HumanState::Idle(Some(NewObjective::WanderButExclude(0)))
    );
}

#[test]
fn human_panic_reports_the_visible_beast() {
    let map = TileMap::new(9, 9);
    let mut cache = MapCache::new();
    let actors = vec![civilian(Position::new(5, 5)), beast(Position::new(5, 7))];
    let r = human_panic(&map, &mut cache, Position::new(5, 5), &actors);
    match r {
        Some((entity, p)) => {
            assert_eq!(entity, 2);
            assert_eq!(p, Position::new(5, 7));
        },
        None => panic!("beast not seen"),
    }
    // nothing is reported when no beast is in sight
    let calm = vec![civilian(Position::new(5, 5))];
    assert!(human_panic(&map, &mut cache, Position::new(5, 5), &calm).is_none());
}

#[test]
fn get_pathfinder_target_chases_the_nearest_beast() {
    let map = TileMap::new(20, 20);
    let mut cache = MapCache::new();
    let mut behavior = PathfinderBehavior::new(1).behavior;
    let position = Position::new(10, 10);
    let mut far = beast(Position::new(10, 16));
    far.entity = 3;
    let actors = vec![beast(Position::new(10, 13)), far];
    let found = get_pathfinder_target(
        &mut behavior,
        &map,
        &mut cache,
        position,
        &actors,
        CharacterType::Werewolf,
    );
    assert!(found);
    assert!(behavior.is_at(Position::new(10, 13)));
}

#[test]
fn rumdare_without_a_target_wanders_inside_the_map() {
    let data = test_data();
    let map = TileMap::new(9, 9);
    let mut cache = MapCache::new();
    let mut behavior = PathfinderBehavior::new(1).behavior;
    let mut cbd = CharacterBehaviorData::default_human();
    let position = Position::new(4, 4);
    let actors = vec![civilian(position)];
    rumdare_pathfinder(
        &data,
        &mut behavior,
        &map,
        &mut cache,
        CharacterType::Rumdare,
        &mut cbd,
        position,
        &actors,
    );
    let goal = behavior.pathfinder.current_goal;
    assert!(0 <= goal.x && goal.x < 9);
    assert!(0 <= goal.y && goal.y < 9);
}

#[test]
fn beast_hunts_its_recorded_quarry() {
    let data = test_data();
    let map = TileMap::new(9, 9);
    let mut cache = MapCache::new();
    let mut behavior = PathfinderBehavior::new(4).behavior;
    let mut cd = CharacterData::Werewolf { form: WereForm::Beast };
    let mut cbd = CharacterBehaviorData::Werewolf {
        werewolf_state: WerewolfState::Hunt(Some(Position::new(2, 2))),
        human_state: HumanState::Idle(None),
    };
    werewolf_pathfinder(
        &data,
        &mut behavior,
        &map,
        &mut cache,
        CharacterType::Werewolf,
        &mut cd,
        &mut cbd,
        Position::new(5, 5),
        &vec![],
    );
    assert!(behavior.is_at(Position::new(2, 2)));
}

#[test]
fn panicking_beast_picks_a_hiding_point_and_a_cooldown() {
    let data = test_data();
    let map = TileMap::new(9, 9);
    let mut cache = MapCache::new();
    let mut behavior = PathfinderBehavior::new(4).behavior;
    let mut cd = CharacterData::Werewolf { form: WereForm::Beast };
    let position = Position::new(5, 5);
    let mut cbd = CharacterBehaviorData::Werewolf {
        werewolf_state: WerewolfState::Panic {
            target: None,
            exclude_target_index: None,
            enemies: vec![Position::new(5, 7)],
            calm_cooldown: Cooldown(0),
        },
        human_state: HumanState::Idle(None),
    };
    werewolf_pathfinder(
        &data,
        &mut behavior,
        &map,
        &mut cache,
        CharacterType::Werewolf,
        &mut cd,
        &mut cbd,
        position,
        &vec![],
    );
    // the werewolf hiding clusters are (8,8) and (1,1); (1,1) is farthest
    // from the enemy at (5,7)
    match cbd {
        CharacterBehaviorData::Werewolf {
            werewolf_state:
                WerewolfState::Panic { target: Some(t), exclude_target_index: Some(j), calm_cooldown, .. },
            ..
        } => {
            assert_eq!(t, Position::new(1, 1));
            assert_eq!(j, 1);
            // the calm cooldown is the squared distance to the chosen point
            assert_eq!(calm_cooldown.0, (16 + 16) as usize);
        },
        _ => panic!("expected a chosen panic target"),
    }
    assert!(behavior.is_at(Position::new(1, 1)));
}

#[test]
fn calmed_beast_reverts_to_human_form() {
    let data = test_data();
    let map = TileMap::new(9, 9);
    let mut cache = MapCache::new();
    let mut behavior = PathfinderBehavior::new(4).behavior;
    let mut cd = CharacterData::Werewolf { form: WereForm::Beast };
    let mut cbd = CharacterBehaviorData::Werewolf {
        werewolf_state: WerewolfState::Panic {
            target: Some(Position::new(8, 8)),
            exclude_target_index: Some(0),
            enemies: vec![],
            calm_cooldown: Cooldown(0),
        },
        human_state: HumanState::Idle(None),
    };
    werewolf_pathfinder(
        &data,
        &mut behavior,
        &map,
        &mut cache,
        CharacterType::Werewolf,
        &mut cd,
        &mut cbd,
        Position::new(5, 5),
        &vec![],
    );
    assert!(matches!(cd, CharacterData::Werewolf { form: WereForm::Human }));
}

#[test]
fn conditions_gate_the_whole_tick() {
    let data = test_data();
    let map = TileMap::new(9, 9);
    let mut cache = MapCache::new();
    let mut bd = PathfinderBehavior::new(1);
    bd = bd.run_if(false);
    bd.behavior.skip_turn.count = 1;
    let mut cd = CharacterData::Human;
    let mut cbd = CharacterBehaviorData::default_human();
    let position = Position::new(4, 4);
    let actors = vec![civilian(position)];
    let m = pathfinder_update(
        &data,
        &mut bd,
        &map,
        &mut cache,
        CharacterType::Lerain,
        &mut cd,
        &mut cbd,
        position,
        &actors,
    );
    assert!(matches!(m, MovementInput::Idle));
    // the throttle was reset, not advanced
    assert_eq!(bd.behavior.skip_turn.count, 0);
}

#[test]
fn full_tick_moves_a_civilian_toward_its_objective() {
    let data = test_data();
    let mut map = TileMap::new(9, 9);
    let position = Position::new(4, 4);
    map.set_tile(
        4,
        4,
        Tile::new_ground(Zone::KrillTheater { zone: KrillTheaterZone::Free }),
    );
    let mut cache = MapCache::new();
    // skip threshold high enough that this tick acts
    let mut bd = PathfinderBehavior::new(5);
    let mut cd = CharacterData::Human;
    let mut cbd = CharacterBehaviorData::default_human();
    let actors = vec![civilian(position)];
    let m = pathfinder_update(
        &data,
        &mut bd,
        &map,
        &mut cache,
        CharacterType::Lerain,
        &mut cd,
        &mut cbd,
        position,
        &actors,
    );
    // a wander objective was chosen and the first step heads out
    assert!(!matches!(m, MovementInput::Idle));
    assert!(matches!(
        cbd,
        CharacterBehaviorData::Human { human_state: HumanState::Moving(_) }
    ));
    // the stored path leads from the actor to the chosen goal
    let path = &bd.behavior.pathfinder.last_path;
    assert_eq!(path[0], position);
    assert_eq!(*path.last().unwrap(), bd.behavior.pathfinder.current_goal);
}

#[test]
fn arrival_fires_the_settle_action() {
    let data = test_data();
    let map = TileMap::new(9, 9);
    let mut cache = MapCache::new();
    // gate the rest of the tick so only the arrival handling runs
    let mut bd = PathfinderBehavior::new(5).run_if(false);
    let position = Position::new(7, 7);
    bd.behavior.set_goal(position, Priority::Low);
    bd.behavior
        .reach_goal(map_brain::pathfinder::GoalContinuation::SettleIntoIdle);
    let mut cd = CharacterData::Human;
    let mut cbd = CharacterBehaviorData::Human { human_state: HumanState::Moving(0) };
    // the civilian stands exactly on its goal: the one-shot action fires
    let actors = vec![civilian(position)];
    pathfinder_update(
        &data,
        &mut bd,
        &map,
        &mut cache,
        CharacterType::Lerain,
        &mut cd,
        &mut cbd,
        position,
        &actors,
    );
    match cbd {
        CharacterBehaviorData::Human {
            human_state: HumanState::Idle(Some(NewObjective::WanderButExclude(0))),
        } => {},
        _ => panic!("settle action did not fire"),
    }
    assert!(bd.behavior.reached_goal.is_none());
}

#[test]
fn single_cluster_selection_is_pinned() {
    // with one point in one cluster the random selection has no freedom
    let data = PathfinderGlobalData::new(
        vec![vec![Position::new(2, 2)]],
        vec![],
        HumanPathfinderGlobalData::new(vec![vec![Position::new(1, 1)]]),
        WerewolfPathfinderGlobalData::new(vec![vec![Position::new(8, 8)]]),
    );
    let (p, i) = data.wander_point();
    assert_eq!(p, Position::new(2, 2));
    assert_eq!(i, 0);
    let (p2, i2) = data.wander_point_except(0);
    assert_eq!(p2, Position::new(2, 2));
    assert_eq!(i2, 0);
}

#[test]
fn configured_points_are_recognized() {
    let data = test_data();
    assert_eq!(data.contains_point(Position::new(7, 7)), Some('0'));
    assert_eq!(data.contains_point(Position::new(1, 7)), Some('0'));
    assert_eq!(data.contains_point(Position::new(6, 1)), Some('e'));
    assert_eq!(data.contains_point(Position::new(4, 4)), None);
    assert!(data.is_krill_exit(&Position::new(6, 1)));
    assert!(!data.is_krill_exit(&Position::new(7, 7)));
}

#[test]
fn lerain_policy_leaves_werewolf_state_alone() {
    let data = test_data();
    let map = TileMap::new(9, 9);
    let mut cache = MapCache::new();
    let mut behavior = PathfinderBehavior::new(1).behavior;
    let mut cbd = CharacterBehaviorData::default_werewolf();
    lerain_pathfinder(
        &data,
        &mut behavior,
        &map,
        &mut cache,
        CharacterType::Lerain,
        &mut cbd,
        Position::new(4, 4),
        &vec![],
    );
    assert!(matches!(cbd, CharacterBehaviorData::Werewolf { .. }));
}

#[test]
fn run_conditions_pass_when_any_holds() {
    let bd: BehaviorData<u32> = BehaviorData::new(7);
    assert!(bd.check_conditions());
    let bd = bd.run_if(false);
    assert!(!bd.check_conditions());
    let bd = bd.run_if(true);
    assert!(bd.check_conditions());
}
