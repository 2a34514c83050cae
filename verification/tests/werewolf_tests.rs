use map_brain::character::{CharacterData, CharacterType, Sprite, WereForm};
use map_brain::map_brain::{CharacterBehaviorData, HumanState, WerewolfState};
use map_brain::pathfinder::PathfinderBehavior;
use map_brain::physics::{CollisionType, MapCache, Occupier, Position, Tile, TileMap};
use map_brain::data::{
    HumanPathfinderGlobalData, PathfinderGlobalData, WerewolfPathfinderGlobalData,
};
use map_brain::director::pathfinder_update;
use map_brain::werewolf::{
    check, werewolf_update, BEAST_FORM_SPRITE, HUMAN_FORM_SPRITE, HUMAN_SKIP_AT, WEREWOLF_SKIP_AT,
};

fn place_character(map: &mut TileMap, entity: u64, p: Position) {
    let placed = map.place_occupant(
        p,
        Occupier::new(
            entity,
            Sprite::new('L'),
            Some(CharacterType::Lerain),
            CollisionType::Solid,
        ),
    );
    assert!(placed);
}

#[test]
fn one_visible_actor_turns_the_werewolf_into_a_hunting_beast() {
    // a werewolf at the center of a 9x9 open grid with exactly one other
    // actor in sight turns beast and hunts that actor's position
    let mut map = TileMap::new(9, 9);
    let mut cache = MapCache::new();
    let center = Position::new(4, 4);
    let prey = Position::new(4, 6);
    place_character(&mut map, 11, prey);
    let mut cd = CharacterData::Werewolf { form: WereForm::Human };
    let mut cbd = CharacterBehaviorData::default_werewolf();
    let mut sprite = Sprite::new(HUMAN_FORM_SPRITE);
    let mut behavior = PathfinderBehavior::new(HUMAN_SKIP_AT).behavior;
    let melee = werewolf_update(
        &mut map,
        &mut cache,
        &mut cd,
        &mut cbd,
        &mut sprite,
        center,
        &mut behavior,
    );
    // in human form nothing is struck
    assert!(melee.is_empty());
    assert!(matches!(cd, CharacterData::Werewolf { form: WereForm::Beast }));
    match cbd {
        CharacterBehaviorData::Werewolf {
            werewolf_state: WerewolfState::Hunt(Some(t)),
            ..
        } => assert_eq!(t, prey),
        _ => panic!("expected Hunt of the seen actor"),
    }
    // the form change redraws the sprite and speeds up the cadence
    assert_eq!(sprite.character, BEAST_FORM_SPRITE);
    assert_eq!(behavior.skip_turn.skip_at, WEREWOLF_SKIP_AT);
    assert_eq!(behavior.skip_turn.count, 0);
}

#[test]
fn no_visible_actor_reverts_the_beast_to_human() {
    // the same werewolf with zero visible actors, not mid-unresolved-hunt,
    // becomes human again with its human state reset
    let mut map = TileMap::new(9, 9);
    let mut cache = MapCache::new();
    let center = Position::new(4, 4);
    let mut cd = CharacterData::Werewolf { form: WereForm::Beast };
    let mut cbd = CharacterBehaviorData::Werewolf {
        werewolf_state: WerewolfState::Hunt(None),
        human_state: HumanState::Moving(1),
    };
    let mut sprite = Sprite::new(BEAST_FORM_SPRITE);
    let mut behavior = PathfinderBehavior::new(WEREWOLF_SKIP_AT).behavior;
    werewolf_update(
        &mut map,
        &mut cache,
        &mut cd,
        &mut cbd,
        &mut sprite,
        center,
        &mut behavior,
    );
    assert!(matches!(cd, CharacterData::Werewolf { form: WereForm::Human }));
    match cbd {
        CharacterBehaviorData::Werewolf {
            werewolf_state: WerewolfState::Hunt(None),
            human_state: HumanState::Idle(None),
        } => {},
        _ => panic!("expected a reset human state"),
    }
    assert_eq!(sprite.character, HUMAN_FORM_SPRITE);
    assert_eq!(behavior.skip_turn.skip_at, HUMAN_SKIP_AT);
}

#[test]
fn outnumbered_werewolf_panics() {
    let mut map = TileMap::new(9, 9);
    let mut cache = MapCache::new();
    let center = Position::new(4, 4);
    place_character(&mut map, 11, Position::new(4, 6));
    place_character(&mut map, 12, Position::new(6, 4));
    let mut cd = CharacterData::Werewolf { form: WereForm::Human };
    let mut cbd = CharacterBehaviorData::default_werewolf();
    let mut sprite = Sprite::new(HUMAN_FORM_SPRITE);
    let mut behavior = PathfinderBehavior::new(HUMAN_SKIP_AT).behavior;
    werewolf_update(
        &mut map,
        &mut cache,
        &mut cd,
        &mut cbd,
        &mut sprite,
        center,
        &mut behavior,
    );
    assert!(matches!(cd, CharacterData::Werewolf { form: WereForm::Beast }));
    match cbd {
        CharacterBehaviorData::Werewolf {
            werewolf_state:
                WerewolfState::Panic { target: None, exclude_target_index: None, enemies, calm_cooldown },
            ..
        } => {
            assert_eq!(calm_cooldown.0, 0);
            assert_eq!(enemies.len(), 2);
            assert!(enemies.contains(&Position::new(4, 6)));
            assert!(enemies.contains(&Position::new(6, 4)));
        },
        _ => panic!("expected a fresh panic"),
    }
}

#[test]
fn unreached_panic_goal_forbids_changing_form() {
    let mut map = TileMap::new(9, 9);
    let mut cache = MapCache::new();
    let center = Position::new(4, 4);
    let mut cd = CharacterData::Werewolf { form: WereForm::Beast };
    let mut cbd = CharacterBehaviorData::Werewolf {
        werewolf_state: WerewolfState::Panic {
            target: Some(Position::new(8, 8)),
            exclude_target_index: None,
            enemies: vec![],
            calm_cooldown: map_brain::map_brain::Cooldown(3),
        },
        human_state: HumanState::Idle(None),
    };
    let mut sprite = Sprite::new(BEAST_FORM_SPRITE);
    let mut behavior = PathfinderBehavior::new(WEREWOLF_SKIP_AT).behavior;
    werewolf_update(
        &mut map,
        &mut cache,
        &mut cd,
        &mut cbd,
        &mut sprite,
        center,
        &mut behavior,
    );
    // still fleeing: no transition happened
    assert!(matches!(cd, CharacterData::Werewolf { form: WereForm::Beast }));
    assert!(matches!(
        cbd,
        CharacterBehaviorData::Werewolf {
            werewolf_state: WerewolfState::Panic { target: Some(_), .. },
            ..
        }
    ));
    assert_eq!(sprite.character, BEAST_FORM_SPRITE);
}

#[test]
fn beast_melee_strikes_the_adjacent_occupants() {
    let mut map = TileMap::new(9, 9);
    let mut cache = MapCache::new();
    let center = Position::new(4, 4);
    place_character(&mut map, 21, Position::new(4, 5));
    place_character(&mut map, 22, Position::new(3, 4));
    // a hunting beast that keeps its quarry in sight stays in beast form
    let mut cd = CharacterData::Werewolf { form: WereForm::Beast };
    let mut cbd = CharacterBehaviorData::Werewolf {
        werewolf_state: WerewolfState::Hunt(Some(Position::new(4, 5))),
        human_state: HumanState::Idle(None),
    };
    let mut sprite = Sprite::new(BEAST_FORM_SPRITE);
    let mut behavior = PathfinderBehavior::new(WEREWOLF_SKIP_AT).behavior;
    let melee = werewolf_update(
        &mut map,
        &mut cache,
        &mut cd,
        &mut cbd,
        &mut sprite,
        center,
        &mut behavior,
    );
    // north neighbor first, then west
    assert_eq!(melee, vec![21, 22]);
}

#[test]
fn check_reports_unresolved_hunts() {
    let at = Position::new(3, 3);
    assert!(check(&WerewolfState::Hunt(None), &at));
    assert!(check(&WerewolfState::Hunt(Some(at)), &at));
    assert!(!check(&WerewolfState::Hunt(Some(Position::new(5, 5))), &at));
}

#[test]
fn full_tick_beast_walks_toward_its_quarry() {
    let data = PathfinderGlobalData::new(
        vec![vec![Position::new(7, 7)]],
        vec![],
        HumanPathfinderGlobalData::new(vec![vec![Position::new(1, 1)]]),
        WerewolfPathfinderGlobalData::new(vec![vec![Position::new(8, 8)]]),
    );
    let map = TileMap::new(9, 9);
    let mut cache = MapCache::new();
    let mut bd = PathfinderBehavior::new(WEREWOLF_SKIP_AT);
    let mut cd = CharacterData::Werewolf { form: WereForm::Beast };
    let mut cbd = CharacterBehaviorData::Werewolf {
        werewolf_state: WerewolfState::Hunt(Some(Position::new(4, 6))),
        human_state: HumanState::Idle(None),
    };
    let position = Position::new(4, 4);
    let movement = pathfinder_update(
        &data,
        &mut bd,
        &map,
        &mut cache,
        CharacterType::Werewolf,
        &mut cd,
        &mut cbd,
        position,
        &vec![],
    );
    // the beast aims at its quarry and takes the first step north
    assert!(bd.behavior.is_at(Position::new(4, 6)));
    assert!(matches!(movement, map_brain::character::MovementInput::North));
}
