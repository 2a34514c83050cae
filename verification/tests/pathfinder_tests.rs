use map_brain::character::{CharacterType, Health, MovementInput, Sprite, ToPositionError};
use map_brain::map_brain::Cooldown;
use map_brain::pathfinder::{
    select_movement, PathfinderBehavior, Pathfinder, Priority, SkipTurn,
};
use map_brain::physics::{
    CollisionType, KrillTheaterZone, MapCache, Occupier, Position, Tile, TileMap, Zone,
};

#[test]
fn movement_selection_east() {
    // waypoint t=(3,5) from p=(2,5): x differs, y equal
    let r = select_movement(Position::new(3, 5), Position::new(2, 5));
    assert_eq!(r, MovementInput::East);
}

#[test]
fn movement_selection_north() {
    // waypoint t=(2,6) from p=(2,5)
    let r = select_movement(Position::new(2, 6), Position::new(2, 5));
    assert_eq!(r, MovementInput::North);
}

#[test]
fn movement_selection_priority_order() {
    // both axes differ: north wins first
    assert_eq!(
        select_movement(Position::new(3, 6), Position::new(2, 5)),
        MovementInput::North
    );
    assert_eq!(
        select_movement(Position::new(1, 4), Position::new(2, 5)),
        MovementInput::South
    );
    assert_eq!(
        select_movement(Position::new(1, 5), Position::new(2, 5)),
        MovementInput::West
    );
    assert_eq!(
        select_movement(Position::new(2, 5), Position::new(2, 5)),
        MovementInput::Idle
    );
}

#[test]
fn skip_turn_skips_exactly_once_per_cycle() {
    // over threshold + 1 consecutive calls exactly one returns false
    let mut s = SkipTurn { count: 0, skip_at: 3 };
    let mut falses = 0;
    for _ in 0..4 {
        if !s.check() {
            falses += 1;
        }
    }
    assert_eq!(falses, 1);
    // and again from the state the cycle left behind
    let mut falses2 = 0;
    for _ in 0..4 {
        if !s.check() {
            falses2 += 1;
        }
    }
    assert_eq!(falses2, 1);
}

#[test]
fn skip_turn_reset() {
    let mut s = SkipTurn { count: 2, skip_at: 3 };
    s.reset_count();
    assert_eq!(s.count, 0);
    assert_eq!(s.skip_at, 3);
}

#[test]
fn cooldown_runs_out() {
    let mut c = Cooldown(2);
    assert!(c.execute());
    assert!(c.execute());
    assert!(!c.execute());
    assert!(!c.execute());
    assert_eq!(c.0, 0);
}

#[test]
fn goal_priority_rules() {
    let mut b = PathfinderBehavior::new(1).behavior;
    assert!(!b.pathfinder.pending_goal);
    // a fresh planner takes any request
    b.set_goal(Position::new(3, 3), Priority::High);
    assert!(b.is_at(Position::new(3, 3)));
    // a pending high-priority goal wins over a low request
    b.set_goal(Position::new(5, 5), Priority::Low);
    assert!(b.is_at(Position::new(3, 3)));
    // an equal-priority request replaces it
    b.set_goal(Position::new(5, 5), Priority::High);
    assert!(b.is_at(Position::new(5, 5)));
    // force_goal overwrites unconditionally
    b.force_goal(Position::new(1, 1));
    assert!(b.is_at(Position::new(1, 1)));
    // after force_goal the stored priority starts over at Low
    b.set_goal(Position::new(2, 2), Priority::Low);
    assert!(b.is_at(Position::new(2, 2)));
}

#[test]
fn step_finds_a_path_and_walks_it() {
    let map = TileMap::new(9, 9);
    let mut pf = Pathfinder::new();
    let start = Position::new(1, 1);
    pf.current_goal = Position::new(4, 1);
    let m = pf.step(&map, start);
    // the found path starts at the actor, ends at the goal
    assert_eq!(pf.last_path[0], start);
    assert_eq!(*pf.last_path.last().unwrap(), Position::new(4, 1));
    assert_eq!(pf.last_goal, Position::new(4, 1));
    // every intermediate tile of the path is passable ground
    for i in 1..pf.last_path.len() - 1 {
        let p = pf.last_path[i];
        match map.at_pos(p) {
            Some(t) => assert!(t.passable()),
            None => panic!("path left the map"),
        }
    }
    // the first movement heads toward the next waypoint
    assert_eq!(m, MovementInput::East);
}

#[test]
fn failed_search_keeps_the_stale_path() {
    let mut map = TileMap::new(9, 9);
    // seal off the goal tile completely
    map.set_tile(5, 4, Tile::Wall);
    map.set_tile(7, 4, Tile::Wall);
    map.set_tile(6, 3, Tile::Wall);
    map.set_tile(6, 5, Tile::Wall);
    let mut pf = Pathfinder::new();
    pf.current_goal = Position::new(6, 4);
    let m = pf.step(&map, Position::new(1, 1));
    // no path: the stored (empty) path stays, the actor idles
    assert_eq!(pf.last_path.len(), 0);
    assert_eq!(m, MovementInput::Idle);
}

#[test]
fn path_may_end_on_an_occupied_goal() {
    let mut map = TileMap::new(9, 9);
    let goal = Position::new(4, 4);
    let placed = map.place_occupant(
        goal,
        Occupier::new(9, Sprite::new('M'), None, CollisionType::Solid),
    );
    assert!(placed);
    let mut pf = Pathfinder::new();
    pf.current_goal = goal;
    pf.step(&map, Position::new(1, 4));
    // the path ends on the occupied goal but never crosses it
    assert_eq!(*pf.last_path.last().unwrap(), goal);
    for i in 0..pf.last_path.len() - 1 {
        assert!(pf.last_path[i] != goal);
    }
}

#[test]
fn follow_index_advances_along_the_path() {
    let map = TileMap::new(9, 9);
    let mut pf = Pathfinder::new();
    let mut pos = Position::new(1, 1);
    pf.current_goal = Position::new(3, 1);
    // walk the whole path, applying each movement by hand
    for _ in 0..8 {
        let m = pf.step(&map, pos);
        match m {
            MovementInput::North => pos.y += 1,
            MovementInput::East => pos.x += 1,
            MovementInput::South => pos.y -= 1,
            MovementInput::West => pos.x -= 1,
            MovementInput::Idle => break,
        }
    }
    assert_eq!(pos, Position::new(3, 1));
}

#[test]
fn map_borders_are_walls() {
    let map = TileMap::new(9, 9);
    assert!(matches!(map.at_pos(Position::new(0, 4)), Some(Tile::Wall)));
    assert!(matches!(map.at_pos(Position::new(8, 4)), Some(Tile::Wall)));
    assert!(matches!(map.at_pos(Position::new(4, 0)), Some(Tile::Wall)));
    assert!(matches!(map.at_pos(Position::new(4, 8)), Some(Tile::Wall)));
    assert!(matches!(
        map.at_pos(Position::new(4, 4)),
        Some(Tile::Ground { .. })
    ));
    assert!(map.at_pos(Position::new(9, 4)).is_none());
    assert!(map.at_pos(Position::new(-1, 4)).is_none());
}

#[test]
fn occupants_can_be_placed_and_cleared() {
    let mut map = TileMap::new(9, 9);
    let p = Position::new(2, 2);
    let o = Occupier::new(
        5,
        Sprite::new('@'),
        Some(CharacterType::Player),
        CollisionType::Solid,
    );
    assert!(map.place_occupant(p, o));
    match map.at_pos(p) {
        Some(Tile::Ground { occupier: Some(q), .. }) => {
            assert_eq!(q.entity, 5);
            assert!(q.character_type.is_some());
        },
        _ => panic!("occupant missing"),
    }
    // an occupied ground tile is not passable for a solid mover
    assert!(!map.at_pos(p).unwrap().passable());
    map.clear_occupant(p);
    assert!(map.at_pos(p).unwrap().passable());
    // walls take no occupant
    assert!(!map.place_occupant(Position::new(0, 0), o));
}

#[test]
fn krill_theater_zone_is_read_from_ground() {
    let mut map = TileMap::new(9, 9);
    map.set_tile(
        3,
        3,
        Tile::new_ground(Zone::KrillTheater { zone: KrillTheaterZone::Free }),
    );
    let tile = map.at_pos(Position::new(3, 3)).unwrap();
    assert!(matches!(tile.krill_theater(), Some(KrillTheaterZone::Free)));
    let road = map.at_pos(Position::new(4, 4)).unwrap();
    assert!(road.krill_theater().is_none());
}

#[test]
fn distance_is_squared_euclidean() {
    let a = Position::new(2, 5);
    let b = Position::new(5, 1);
    assert_eq!(a.distance(&b), 9 + 16);
    assert_eq!(b.distance(&a), 25);
    assert_eq!(a.distance(&a), 0);
}

#[test]
fn movement_offsets() {
    assert_eq!(MovementInput::North.to_position(), Ok(Position::new(0, 1)));
    assert_eq!(MovementInput::East.to_position(), Ok(Position::new(1, 0)));
    assert_eq!(MovementInput::South.to_position(), Ok(Position::new(0, -1)));
    assert_eq!(MovementInput::West.to_position(), Ok(Position::new(-1, 0)));
    assert_eq!(MovementInput::Idle.to_position(), Err(ToPositionError));
}

#[test]
fn health_is_clamped() {
    let mut h = Health::new(5);
    h.damage(3);
    assert_eq!(h.value, 2);
    h.damage(10);
    assert_eq!(h.value, 0);
    h.heal(3);
    assert_eq!(h.value, 3);
    h.heal(100);
    assert_eq!(h.value, 5);
}

#[test]
fn off_map_goal_is_unreachable() {
    // a goal whose coordinates hold no tile is impassable like any other
    // missing tile: the search fails and the stale (empty) path stays
    let map = TileMap::new(9, 9);
    let mut pf = Pathfinder::new();
    pf.current_goal = Position::new(20, 4);
    let m = pf.step(&map, Position::new(4, 4));
    assert_eq!(pf.last_path.len(), 0);
    assert_eq!(m, MovementInput::Idle);
}
