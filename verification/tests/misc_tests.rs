use map_brain::character::Sprite;
use map_brain::dialogue::DialogueOption;
use map_brain::physics::{Collision, CollisionType, Occupier, Position, Tile, Zone};
use map_brain::{ActionInput, PlayerState, Scene};

#[test]
fn tile_occupancy_depends_on_the_mover_class() {
    let ground_free = Tile::new_ground(Zone::Road);
    let occupier = Occupier::new(1, Sprite::new('@'), None, CollisionType::Solid);
    let ground_taken = Tile::Ground { occupier: Some(occupier), zone: Zone::Road };
    let wall = Tile::Wall;
    let obstacle_free = Tile::Obstacle { occupier: None };

    let mut solid = Collision::new(CollisionType::Solid);
    assert!(!ground_free.is_occupied(&mut solid));
    assert!(ground_taken.is_occupied(&mut solid));
    // an empty obstacle still blocks a solid mover
    assert!(obstacle_free.is_occupied(&mut solid));
    assert!(!solid.collided);
    // a wall blocks and records the hit
    assert!(wall.is_occupied(&mut solid));
    assert!(solid.collided);

    // a sensor-class mover passes an unoccupied obstacle
    let mut sensor = Collision::new(CollisionType::Sensor);
    assert!(!obstacle_free.is_occupied(&mut sensor));
}

#[test]
fn default_ground_is_passable_road() {
    let t = Tile::default_ground();
    assert!(t.passable());
    assert!(matches!(t, Tile::Ground { zone: Zone::Road, occupier: None }));
}

#[test]
fn client_facing_enums_are_usable() {
    // the thin client types carried along with the core
    let action = ActionInput::SelectFromInventory(2);
    assert!(matches!(action, ActionInput::SelectFromInventory(2)));
    assert!(matches!(ActionInput::Pass, ActionInput::Pass));
    assert_eq!(Scene::World, Scene::World);
    assert_ne!(Scene::Inventory, Scene::Settings);
    assert!(matches!(PlayerState::Free, PlayerState::Free));
    let option = DialogueOption::Info(String::from("hello"), Vec::new());
    match option {
        DialogueOption::Info(text, rest) => {
            assert_eq!(text, "hello");
            assert!(rest.is_empty());
        },
        DialogueOption::Leave => panic!("expected the info branch"),
    }
}

#[test]
fn sprite_and_occupier_carry_their_fields() {
    let s = Sprite::new('x');
    assert_eq!(s.character, 'x');
    let o = Occupier::new(9, s, None, CollisionType::Sensor);
    assert_eq!(o.entity, 9);
    assert_eq!(o.sprite, s);
    assert!(o.character_type.is_none());
    assert!(matches!(o.collision_type, CollisionType::Sensor));
}

#[test]
fn positions_compare_by_coordinates() {
    let a = Position::new(3, -4);
    assert_eq!(a, Position::new(3, -4));
    assert_ne!(a, Position::new(-4, 3));
    assert_eq!(a.x, 3);
    assert_eq!(a.y, -4);
}
