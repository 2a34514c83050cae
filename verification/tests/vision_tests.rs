use map_brain::physics::{MapCache, Position, Tile, TileMap};

fn open_map() -> TileMap {
    // 9x9 grid: walls on the border, open road ground inside
    TileMap::new(9, 9)
}

#[test]
fn origin_is_always_visible() {
    let map = open_map();
    let mut cache = MapCache::new();
    let origin = Position::new(4, 4);
    map.get_in_vision(&mut cache, origin);
    assert!(cache.contains(origin));
}

#[test]
fn origin_is_visible_even_off_the_map() {
    let map = open_map();
    let mut cache = MapCache::new();
    let origin = Position::new(-3, -3);
    map.get_in_vision(&mut cache, origin);
    assert!(cache.contains(origin));
}

#[test]
fn no_tile_beyond_radius_is_returned() {
    // a map big enough that the radius, not the border, is the limit
    let map = TileMap::new(100, 100);
    let mut cache = MapCache::new();
    let origin = Position::new(50, 50);
    map.get_in_vision(&mut cache, origin);
    let mut i = 0;
    while i < cache.len() {
        let p = cache.nth(i);
        assert!(p.distance(&origin) < 400);
        i += 1;
    }
    // a tile well within line of sight but at squared distance >= 400
    assert!(!cache.contains(Position::new(70, 50)));
    assert!(!cache.contains(Position::new(50, 71)));
}

#[test]
fn tiles_near_the_origin_are_visible() {
    let map = open_map();
    let mut cache = MapCache::new();
    let origin = Position::new(4, 4);
    map.get_in_vision(&mut cache, origin);
    assert!(cache.contains(Position::new(5, 4)));
    assert!(cache.contains(Position::new(4, 5)));
    assert!(cache.contains(Position::new(3, 4)));
    assert!(cache.contains(Position::new(4, 3)));
}

#[test]
fn wall_is_visible_but_blocks_what_is_behind_it() {
    let mut map = TileMap::new(12, 9);
    // a wall between the origin and the east edge
    map.set_tile(6, 4, Tile::Wall);
    let mut cache = MapCache::new();
    let origin = Position::new(2, 4);
    map.get_in_vision(&mut cache, origin);
    // tiles before the wall, and the wall itself, are seen
    assert!(cache.contains(Position::new(5, 4)));
    assert!(cache.contains(Position::new(6, 4)));
    // tiles strictly behind the wall on the same ray are not
    assert!(!cache.contains(Position::new(7, 4)));
    assert!(!cache.contains(Position::new(8, 4)));
}

#[test]
fn border_walls_end_the_scan() {
    let map = open_map();
    let mut cache = MapCache::new();
    let origin = Position::new(4, 4);
    map.get_in_vision(&mut cache, origin);
    // the border wall is seen, nothing beyond the map is
    assert!(cache.contains(Position::new(8, 4)));
    assert!(!cache.contains(Position::new(9, 4)));
}

#[test]
fn vision_cache_is_cleared_between_queries() {
    let map = open_map();
    let mut cache = MapCache::new();
    map.get_in_vision(&mut cache, Position::new(1, 1));
    assert!(cache.contains(Position::new(1, 1)));
    map.get_in_vision(&mut cache, Position::new(7, 7));
    assert!(cache.contains(Position::new(7, 7)));
    // no duplicates: every held position occurs once
    let mut i = 0;
    while i < cache.len() {
        let p = cache.nth(i);
        let mut j = i + 1;
        while j < cache.len() {
            assert!(cache.nth(j) != p);
            j += 1;
        }
        i += 1;
    }
}

#[test]
fn wall_blocks_the_north_ray_too() {
    let mut map = TileMap::new(9, 12);
    map.set_tile(4, 7, Tile::Wall);
    let mut cache = MapCache::new();
    let origin = Position::new(4, 3);
    map.get_in_vision(&mut cache, origin);
    assert!(cache.contains(Position::new(4, 6)));
    assert!(cache.contains(Position::new(4, 7)));
    assert!(!cache.contains(Position::new(4, 8)));
    assert!(!cache.contains(Position::new(4, 9)));
}
