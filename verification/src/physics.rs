//! The grid world: positions, tiles, the tile map, and the reusable vision cache.

use vstd::prelude::*;

use crate::character::{CharacterType, Sprite};

verus! {

/// Largest side length a map may have. Keeping coordinates this small keeps
/// every squared distance between in-map positions well inside `u32`.
pub const MAX_MAP_EXTENT: usize = 30000;

/// A tile coordinate. Arithmetic on coordinates is done in `int` inside
/// specifications, so contracts are free of overflow concerns.
#[derive(Debug, Clone, Copy, PartialEq, Eq, Hash, Structural)]
pub struct Position {
    pub x: i32,
    pub y: i32,
}

/// Squared Euclidean distance between two positions, as a mathematical integer.
pub open spec fn dist2(a: Position, b: Position) -> int {
    (a.x - b.x) * (a.x - b.x) + (a.y - b.y) * (a.y - b.y)
}

/// Coordinates that fit on a map, so every squared distance between two
/// such positions fits in `u32`.
pub open spec fn coord_ok(p: Position) -> bool {
    &&& 0 <= p.x <= MAX_MAP_EXTENT
    &&& 0 <= p.y <= MAX_MAP_EXTENT
}

/// Squared distance does not depend on the order of its arguments.
pub proof fn lemma_dist2_sym(a: Position, b: Position)
    ensures
        dist2(a, b) == dist2(b, a),
{
    assert((a.x - b.x) * (a.x - b.x) == (b.x - a.x) * (b.x - a.x)) by (nonlinear_arith);
    assert((a.y - b.y) * (a.y - b.y) == (b.y - a.y) * (b.y - a.y)) by (nonlinear_arith);
}

/// Squared distances between positions with small coordinates fit in `u32`.
pub proof fn lemma_dist2_bounded(a: Position, b: Position)
    requires
        coord_ok(a),
        coord_ok(b),
    ensures
        0 <= dist2(a, b) <= u32::MAX,
{
    assert(0 <= dist2(a, b) <= 1_800_000_000) by (nonlinear_arith)
        requires
            0 <= a.x <= 30000 && 0 <= a.y <= 30000,
            0 <= b.x <= 30000 && 0 <= b.y <= 30000;
}

impl Position {
    pub fn new(x: i32, y: i32) -> (r: Position)
        ensures
            r.x == x && r.y == y,
    {
        Position { x, y }
    }

    /// Squared Euclidean distance to `other`.
    pub fn distance(&self, other: &Position) -> (r: u32)
        requires
            dist2(*self, *other) <= u32::MAX,
        ensures
            r == dist2(*self, *other),
    {
        let dx: i64 = self.x as i64 - other.x as i64;
        let dy: i64 = self.y as i64 - other.y as i64;
        proof {
            lemma_square_bound(dx as int, dy as int);
        }
        (dx * dx + dy * dy) as u32
    }
}

/// If the sum of two squares fits in `u32`, each factor is small enough that
/// the 64-bit products cannot overflow.
proof fn lemma_square_bound(dx: int, dy: int)
    requires
        dx * dx + dy * dy <= u32::MAX,
    ensures
        -65536 <= dx <= 65536,
        -65536 <= dy <= 65536,
        0 <= dx * dx <= u32::MAX,
        0 <= dy * dy <= u32::MAX,
{
    assert(dx * dx >= 0 && dy * dy >= 0) by (nonlinear_arith);
    assert(dx > 65536 ==> dx * dx > u32::MAX) by (nonlinear_arith);
    assert(dx < -65536 ==> dx * dx > u32::MAX) by (nonlinear_arith);
    assert(dy > 65536 ==> dy * dy > u32::MAX) by (nonlinear_arith);
    assert(dy < -65536 ==> dy * dy > u32::MAX) by (nonlinear_arith);
}

/// Bound on flat vector indices computed from in-bounds coordinates of a
/// map no larger than `MAX_MAP_EXTENT` on a side.
proof fn lemma_index_bound(x: int, y: int, sx: int, sy: int)
    requires
        0 <= x < sx,
        0 <= y < sy,
        sx <= MAX_MAP_EXTENT,
        sy <= MAX_MAP_EXTENT,
    ensures
        0 <= x + sx * y < sx * sy,
        sx * sy <= 900_000_000,
{
    assert(x + sx * y < sx * sy) by (nonlinear_arith)
        requires 0 <= x < sx && 0 <= y < sy;
    assert(sx * sy <= 900_000_000) by (nonlinear_arith)
        requires 0 < sx <= 30000 && 0 < sy <= 30000;
    assert(sx * y >= 0) by (nonlinear_arith)
        requires sx > 0 && y >= 0;
}

/// Special behavior tagged onto a ground tile.
#[derive(Debug, Clone, Copy)]
pub enum Zone {
    Road,
    Offroad,
    Home,
    KrillTheater { zone: KrillTheaterZone },
}

/// Sub-states of the krill-theater zone guiding civilian queueing.
#[derive(Debug, Clone, Copy)]
pub enum KrillTheaterZone {
    /// Wander freely; pick a new objective from here.
    Free,
    /// Stand in a queue whose next slot is the given position.
    LineUp(Position),
    /// Leaving the theater; pick an objective away from it.
    Exit,
}

/// How a body interacts with others on collision checks.
#[derive(Debug, Clone, Copy, PartialEq, Eq, Structural)]
pub enum CollisionType {
    /// Blocks movement onto its tile.
    Solid,
    /// Overlaps freely; used by projectile-class movers.
    Sensor,
}

/// Collision bookkeeping carried by a moving body.
#[derive(Debug)]
pub struct Collision {
    /// Set when the body last ran into something that blocks it.
    pub collided: bool,
    pub collision_type: CollisionType,
}

impl Collision {
    pub fn new(collision_type: CollisionType) -> (r: Collision)
        ensures
            !r.collided,
            r.collision_type == collision_type,
    {
        Collision { collided: false, collision_type }
    }
}

/// The body standing on a tile: a stable actor handle plus what is needed
/// to draw it and to collide with it.
#[derive(Debug, Clone, Copy)]
pub struct Occupier {
    /// Stable arena handle of the owning actor.
    pub entity: u64,
    pub sprite: Sprite,
    /// `Some` when the occupant is a character rather than scenery.
    pub character_type: Option<CharacterType>,
    pub collision_type: CollisionType,
}

impl Occupier {
    pub fn new(
        entity: u64,
        sprite: Sprite,
        character_type: Option<CharacterType>,
        collision_type: CollisionType,
    ) -> (r: Occupier)
        ensures
            r.entity == entity,
            r.sprite == sprite,
            r.character_type == character_type,
            r.collision_type == collision_type,
    {
        Occupier { entity, sprite, character_type, collision_type }
    }
}

/// One cell of the map.
#[derive(Debug, Clone, Copy)]
pub enum Tile {
    Ground { occupier: Option<Occupier>, zone: Zone },
    Wall,
    Obstacle { occupier: Option<Occupier> },
}

impl Tile {
    pub open spec fn is_wall(self) -> bool {
        self is Wall
    }

    /// The occupant of the tile, if the tile can hold one.
    pub open spec fn spec_occupier(self) -> Option<Occupier> {
        match self {
            Tile::Ground { occupier, .. } => occupier,
            Tile::Wall => None,
            Tile::Obstacle { occupier } => occupier,
        }
    }

    /// Whether a character is standing on this tile.
    pub open spec fn has_character(self) -> bool {
        match self.spec_occupier() {
            Some(o) => o.character_type is Some,
            None => false,
        }
    }

    /// Whether a normal (solid-class) mover may stand on this tile:
    /// ground that is not held by a solid-class occupant.
    pub open spec fn is_passable(self) -> bool {
        match self {
            Tile::Ground { occupier, .. } => match occupier {
                Some(o) => o.collision_type is Sensor,
                None => true,
            },
            Tile::Wall => false,
            Tile::Obstacle { .. } => false,
        }
    }

    /// Whether a character stands on this tile; see `has_character`.
    pub fn is_character(&self) -> (r: bool)
        ensures
            r == self.has_character(),
    {
        match self {
            Tile::Ground { occupier: Some(o), .. } => o.character_type.is_some(),
            Tile::Obstacle { occupier: Some(o) } => o.character_type.is_some(),
            _ => false,
        }
    }

    /// Whether a normal mover may stand on this tile; see `is_passable`.
    pub fn passable(&self) -> (r: bool)
        ensures
            r == self.is_passable(),
    {
        match self {
            Tile::Ground { occupier, .. } => match occupier {
                Some(o) => matches!(o.collision_type, CollisionType::Sensor),
                None => true,
            },
            _ => false,
        }
    }

    /// The krill-theater zone of this tile, when it is ground inside the theater.
    pub open spec fn spec_krill_theater(self) -> Option<KrillTheaterZone> {
        match self {
            Tile::Ground { zone: Zone::KrillTheater { zone }, .. } => Some(zone),
            _ => None,
        }
    }

    pub fn krill_theater(&self) -> (r: Option<&KrillTheaterZone>)
        ensures
            match r {
                Some(z) => self.spec_krill_theater() == Some(*z),
                None => self.spec_krill_theater() is None,
            },
    {
        match self {
            Tile::Ground { zone, .. } => match zone {
                Zone::KrillTheater { zone } => Some(zone),
                _ => None,
            },
            _ => None,
        }
    }

    pub fn new_ground(zone: Zone) -> (r: Tile)
        ensures
            r == (Tile::Ground { occupier: None, zone }),
    {
        Tile::Ground { occupier: None, zone }
    }

    pub fn default_ground() -> (r: Tile)
        ensures
            r == (Tile::Ground { occupier: None, zone: Zone::Road }),
    {
        Tile::new_ground(Zone::Road)
    }

    /// Whether this tile is taken from the point of view of the mover owning
    /// `collision`. Walls additionally record the hit on the mover.
    pub fn is_occupied(&self, collision: &mut Collision) -> (r: bool)
        ensures
            final(collision).collision_type == old(collision).collision_type,
            final(collision).collided == (old(collision).collided || self.is_wall()),
            r == match *self {
                Tile::Ground { occupier, .. } => occupier is Some,
                Tile::Wall => true,
                Tile::Obstacle { occupier } => !(old(collision).collision_type is Sensor)
                    || occupier is Some,
            },
    {
        match self {
            Tile::Ground { occupier, .. } => occupier.is_some(),
            Tile::Wall => {
                collision.collided = true;
                true
            },
            Tile::Obstacle { occupier } => {
                !matches!(collision.collision_type, CollisionType::Sensor) || occupier.is_some()
            },
        }
    }
}

/// The 2-D tile grid. Owns every tile; width and height are explicit and
/// need not be equal.
pub struct TileMap {
    values: Vec<Tile>,
    size_x: usize,
    size_y: usize,
}

impl TileMap {
    /// Well-formedness: the backing vector matches the advertised dimensions,
    /// and both dimensions are small enough for coordinate arithmetic.
    pub closed spec fn wf(self) -> bool {
        &&& self.values@.len() == self.size_x * self.size_y
        &&& self.size_x <= MAX_MAP_EXTENT
        &&& self.size_y <= MAX_MAP_EXTENT
    }

    pub closed spec fn spec_size_x(self) -> usize {
        self.size_x
    }

    pub closed spec fn spec_size_y(self) -> usize {
        self.size_y
    }

    /// The tile at integer coordinates, `None` outside the grid.
    pub closed spec fn tile_at(self, xi: int, yi: int) -> Option<Tile> {
        if 0 <= xi < self.size_x && 0 <= yi < self.size_y {
            Some(self.values@[xi + self.size_x * yi])
        } else {
            None
        }
    }

    /// The tile under a position, `None` outside the grid.
    pub open spec fn tile_at_pos(self, p: Position) -> Option<Tile> {
        self.tile_at(p.x as int, p.y as int)
    }

    /// Whether integer coordinates fall inside the grid.
    pub open spec fn in_bounds(self, xi: int, yi: int) -> bool {
        0 <= xi < self.spec_size_x() && 0 <= yi < self.spec_size_y()
    }

    /// What `new` writes at each coordinate: walls on the border, plain
    /// road ground inside.
    pub open spec fn initial_tile(size_x: int, size_y: int, xi: int, yi: int) -> Tile {
        if xi == 0 || yi == 0 || xi == size_x - 1 || yi == size_y - 1 {
            Tile::Wall
        } else {
            Tile::Ground { occupier: None, zone: Zone::Road }
        }
    }

    /// A fresh map of the given dimensions: walls around the border, road
    /// ground everywhere else.
    pub fn new(size_x: usize, size_y: usize) -> (r: TileMap)
        requires
            1 <= size_x <= MAX_MAP_EXTENT,
            1 <= size_y <= MAX_MAP_EXTENT,
        ensures
            r.wf(),
            r.spec_size_x() == size_x,
            r.spec_size_y() == size_y,
            forall|xi: int, yi: int| r.in_bounds(xi, yi)
                ==> r.tile_at(xi, yi) == Some(Self::initial_tile(size_x as int, size_y as int, xi, yi)),
    {
        let mut values: Vec<Tile> = Vec::new();
        let mut y: usize = 0;
        while y < size_y
            invariant
                y <= size_y,
                size_x >= 1,
                size_y >= 1,
                size_x <= MAX_MAP_EXTENT,
                size_y <= MAX_MAP_EXTENT,
                values@.len() == size_x * y,
                forall|xi: int, yi: int| 0 <= xi < size_x && 0 <= yi < y
                    ==> values@[xi + size_x * yi]
                        == Self::initial_tile(size_x as int, size_y as int, xi, yi),
            decreases size_y - y,
        {
            let mut x: usize = 0;
            while x < size_x
                invariant
                    x <= size_x,
                    y < size_y,
                    size_x >= 1,
                    size_y >= 1,
                    size_x <= MAX_MAP_EXTENT,
                    size_y <= MAX_MAP_EXTENT,
                    values@.len() == size_x * y + x,
                    forall|xi: int, yi: int| 0 <= xi < size_x && 0 <= yi < y
                        ==> values@[xi + size_x * yi]
                            == Self::initial_tile(size_x as int, size_y as int, xi, yi),
                    forall|xi: int| 0 <= xi < x
                        ==> values@[xi + size_x * y]
                            == Self::initial_tile(size_x as int, size_y as int, xi, y as int),
                decreases size_x - x,
            {
                let tile = if x == 0 || y == 0 || x == size_x - 1 || y == size_y - 1 {
                    Tile::Wall
                } else {
                    Tile::default_ground()
                };
                values.push(tile);
                proof {
                    assert forall|xi: int, yi: int| 0 <= xi < size_x && 0 <= yi < y
                        implies values@[xi + size_x * yi]
                            == Self::initial_tile(size_x as int, size_y as int, xi, yi) by {
                        assert(xi + size_x * yi < size_x * y) by (nonlinear_arith)
                            requires 0 <= xi < size_x && 0 <= yi < y;
                    }
                }
                x = x + 1;
            }
            y = y + 1;
            proof {
                assert(size_x * (y - 1) + size_x == size_x * y) by (nonlinear_arith);
            }
        }
        TileMap { values, size_x, size_y }
    }

    pub fn get_size_x(&self) -> (r: usize)
        ensures
            r == self.spec_size_x(),
    {
        self.size_x
    }

    pub fn get_size_y(&self) -> (r: usize)
        ensures
            r == self.spec_size_y(),
    {
        self.size_y
    }

    pub fn get(&self, x: usize, y: usize) -> (r: Option<&Tile>)
        requires
            self.wf(),
        ensures
            match r {
                Some(t) => self.tile_at(x as int, y as int) == Some(*t),
                None => self.tile_at(x as int, y as int) is None,
            },
    {
        if x < self.size_x && y < self.size_y {
            proof {
                lemma_index_bound(x as int, y as int, self.size_x as int, self.size_y as int);
            }
            Some(&self.values[x + self.size_x * y])
        } else {
            None
        }
    }

    /// A well-formed map is no larger than `MAX_MAP_EXTENT` on a side.
    pub proof fn lemma_size_bounds(self)
        requires
            self.wf(),
        ensures
            self.spec_size_x() <= MAX_MAP_EXTENT,
            self.spec_size_y() <= MAX_MAP_EXTENT,
    {
    }

    /// A tile exists at coordinates exactly when they are in bounds, and
    /// in-bounds coordinates are small.
    pub proof fn lemma_tile_bounds(self, xi: int, yi: int)
        requires
            self.wf(),
        ensures
            self.tile_at(xi, yi) is Some <==> self.in_bounds(xi, yi),
            self.in_bounds(xi, yi) ==> 0 <= xi < MAX_MAP_EXTENT && 0 <= yi < MAX_MAP_EXTENT,
    {
    }

    /// The tile under `p`, treating negative coordinates as off the grid.
    pub fn at_pos(&self, p: Position) -> (r: Option<&Tile>)
        requires
            self.wf(),
        ensures
            match r {
                Some(t) => self.tile_at_pos(p) == Some(*t),
                None => self.tile_at_pos(p) is None,
            },
            r is Some ==> self.in_bounds(p.x as int, p.y as int) && coord_ok(p)
                && p.x < MAX_MAP_EXTENT && p.y < MAX_MAP_EXTENT,
    {
        if p.x < 0 || p.y < 0 {
            None
        } else {
            self.get(p.x as usize, p.y as usize)
        }
    }

    /// Overwrite the tile at in-bounds coordinates.
    pub fn set_tile(&mut self, x: usize, y: usize, tile: Tile)
        requires
            old(self).wf(),
            old(self).in_bounds(x as int, y as int),
        ensures
            final(self).wf(),
            final(self).spec_size_x() == old(self).spec_size_x(),
            final(self).spec_size_y() == old(self).spec_size_y(),
            final(self).tile_at(x as int, y as int) == Some(tile),
            forall|xi: int, yi: int| !(xi == x && yi == y)
                ==> final(self).tile_at(xi, yi) == old(self).tile_at(xi, yi),
    {
        proof {
            lemma_index_bound(x as int, y as int, self.size_x as int, self.size_y as int);
        }
        self.values[x + self.size_x * y] = tile;
        proof {
            assert forall|xi: int, yi: int| !(xi == x && yi == y)
                implies self.tile_at(xi, yi) == old(self).tile_at(xi, yi) by {
                if 0 <= xi < self.size_x && 0 <= yi < self.size_y {
                    assert(xi + self.size_x * yi != x + self.size_x * y) by (nonlinear_arith)
                        requires
                            0 <= xi < self.size_x,
                            0 <= yi < self.size_y,
                            0 <= x < self.size_x,
                            0 <= y < self.size_y,
                            !(xi == x && yi == y);
                    lemma_index_bound(xi, yi, self.size_x as int, self.size_y as int);
                }
            }
        }
    }

    /// Put an occupant onto the tile at `p`, when that tile is ground or an
    /// obstacle. Returns whether the occupant was placed.
    pub fn place_occupant(&mut self, p: Position, occupier: Occupier) -> (placed: bool)
        requires
            old(self).wf(),
        ensures
            final(self).wf(),
            final(self).spec_size_x() == old(self).spec_size_x(),
            final(self).spec_size_y() == old(self).spec_size_y(),
            placed == match old(self).tile_at_pos(p) {
                Some(t) => !(t is Wall),
                None => false,
            },
            forall|xi: int, yi: int| !(xi == p.x as int && yi == p.y as int)
                ==> final(self).tile_at(xi, yi) == old(self).tile_at(xi, yi),
            placed ==> match old(self).tile_at_pos(p) {
                Some(Tile::Ground { zone, .. }) => final(self).tile_at_pos(p)
                    == Some(Tile::Ground { occupier: Some(occupier), zone }),
                Some(Tile::Obstacle { .. }) => final(self).tile_at_pos(p)
                    == Some(Tile::Obstacle { occupier: Some(occupier) }),
                _ => false,
            },
            !placed ==> *final(self) == *old(self),
    {
        if p.x < 0 || p.y < 0 {
            return false;
        }
        let x = p.x as usize;
        let y = p.y as usize;
        let new_tile = match self.get(x, y) {
            Some(Tile::Ground { zone, .. }) => Tile::Ground {
                occupier: Some(occupier),
                zone: *zone,
            },
            Some(Tile::Obstacle { .. }) => Tile::Obstacle { occupier: Some(occupier) },
            _ => {
                return false;
            },
        };
        self.set_tile(x, y, new_tile);
        true
    }

    /// What `set_occupant_sprite` makes of a single tile.
    pub open spec fn tile_with_sprite(t: Option<Tile>, s: Sprite) -> Option<Tile> {
        match t {
            Some(Tile::Ground { occupier: Some(o), zone }) => Some(Tile::Ground {
                occupier: Some(Occupier { sprite: s, ..o }),
                zone,
            }),
            Some(Tile::Obstacle { occupier: Some(o) }) => Some(Tile::Obstacle {
                occupier: Some(Occupier { sprite: s, ..o }),
            }),
            t => t,
        }
    }

    /// Redraw the occupant of the tile at `p`, if it has one.
    pub fn set_occupant_sprite(&mut self, p: Position, s: Sprite)
        requires
            old(self).wf(),
        ensures
            final(self).wf(),
            final(self).spec_size_x() == old(self).spec_size_x(),
            final(self).spec_size_y() == old(self).spec_size_y(),
            forall|xi: int, yi: int| !(xi == p.x as int && yi == p.y as int)
                ==> final(self).tile_at(xi, yi) == old(self).tile_at(xi, yi),
            final(self).tile_at_pos(p) == Self::tile_with_sprite(old(self).tile_at_pos(p), s),
    {
        if p.x < 0 || p.y < 0 {
            return;
        }
        let x = p.x as usize;
        let y = p.y as usize;
        let new_tile = match self.get(x, y) {
            Some(Tile::Ground { occupier: Some(o), zone }) => Tile::Ground {
                occupier: Some(Occupier { sprite: s, ..*o }),
                zone: *zone,
            },
            Some(Tile::Obstacle { occupier: Some(o) }) => Tile::Obstacle {
                occupier: Some(Occupier { sprite: s, ..*o }),
            },
            _ => {
                return;
            },
        };
        self.set_tile(x, y, new_tile);
    }

    /// Remove any occupant from the tile at `p`.
    pub fn clear_occupant(&mut self, p: Position)
        requires
            old(self).wf(),
        ensures
            final(self).wf(),
            final(self).spec_size_x() == old(self).spec_size_x(),
            final(self).spec_size_y() == old(self).spec_size_y(),
            forall|xi: int, yi: int| !(xi == p.x as int && yi == p.y as int)
                ==> final(self).tile_at(xi, yi) == old(self).tile_at(xi, yi),
            final(self).tile_at_pos(p) == match old(self).tile_at_pos(p) {
                Some(Tile::Ground { zone, .. }) => Some(Tile::Ground { occupier: None, zone }),
                Some(Tile::Obstacle { .. }) => Some(Tile::Obstacle { occupier: None }),
                t => t,
            },
    {
        if p.x < 0 || p.y < 0 {
            return;
        }
        let x = p.x as usize;
        let y = p.y as usize;
        let new_tile = match self.get(x, y) {
            Some(Tile::Ground { zone, .. }) => Tile::Ground { occupier: None, zone: *zone },
            Some(Tile::Obstacle { .. }) => Tile::Obstacle { occupier: None },
            _ => {
                return;
            },
        };
        self.set_tile(x, y, new_tile);
    }
}

/// A reusable scratch set of positions for vision queries. It only exists to
/// avoid reallocation: it is cleared and refilled on every query and carries
/// nothing across ticks or actors.
pub struct MapCache {
    in_vision: Vec<Position>,
}

impl MapCache {
    /// The positions currently held, in insertion order and without duplicates.
    pub closed spec fn seen_seq(self) -> Seq<Position> {
        self.in_vision@
    }

    /// Whether `p` is in the cache.
    pub open spec fn sees(self, p: Position) -> bool {
        self.seen_seq().contains(p)
    }

    /// The cache never holds a position twice.
    pub closed spec fn wf(self) -> bool {
        forall|i: int, j: int| 0 <= i < j < self.in_vision@.len()
            ==> self.in_vision@[i] != self.in_vision@[j]
    }

    pub fn new() -> (r: MapCache)
        ensures
            r.wf(),
            r.seen_seq().len() == 0,
    {
        MapCache { in_vision: Vec::new() }
    }

    /// A well-formed cache never holds the same position twice.
    pub proof fn lemma_distinct(self)
        requires
            self.wf(),
        ensures
            forall|i: int, j: int| 0 <= i < j < self.seen_seq().len()
                ==> self.seen_seq()[i] != self.seen_seq()[j],
    {
    }

    pub fn clear(&mut self)
        ensures
            final(self).wf(),
            final(self).seen_seq().len() == 0,
    {
        self.in_vision.clear();
    }

    pub fn contains(&self, p: Position) -> (r: bool)
        ensures
            r == self.sees(p),
    {
        let mut i: usize = 0;
        while i < self.in_vision.len()
            invariant
                i <= self.in_vision@.len(),
                forall|j: int| 0 <= j < i ==> self.in_vision@[j] != p,
            decreases self.in_vision@.len() - i,
        {
            if self.in_vision[i].x == p.x && self.in_vision[i].y == p.y {
                return true;
            }
            i = i + 1;
        }
        false
    }

    /// Add `p` if it is not yet present.
    pub fn insert(&mut self, p: Position)
        requires
            old(self).wf(),
        ensures
            final(self).wf(),
            final(self).sees(p),
            forall|q: Position| final(self).sees(q) == (old(self).sees(q) || q == p),
            final(self).seen_seq() == if old(self).sees(p) {
                old(self).seen_seq()
            } else {
                old(self).seen_seq().push(p)
            },
    {
        if !self.contains(p) {
            self.in_vision.push(p);
            proof {
                let pre = old(self).seen_seq();
                let post = self.seen_seq();
                assert(post[pre.len() as int] == p);
                assert forall|q: Position| post.contains(q)
                    == (pre.contains(q) || q == p) by {
                    if pre.contains(q) {
                        let i = choose|i: int| 0 <= i < pre.len() && pre[i] == q;
                        assert(post[i] == q);
                    }
                    if post.contains(q) {
                        let i = choose|i: int| 0 <= i < post.len() && post[i] == q;
                        if i < pre.len() {
                            assert(pre[i] == q);
                        } else {
                            assert(q == p);
                        }
                    }
                }
                assert forall|i: int, j: int| 0 <= i < j < post.len()
                    implies post[i] != post[j] by {
                    if j < pre.len() {
                        assert(pre[i] == post[i] && pre[j] == post[j]);
                    } else {
                        assert(post[j] == p);
                        assert(pre[i] == post[i]);
                        assert(!pre.contains(p));
                    }
                }
            }
        }
    }

    pub fn len(&self) -> (r: usize)
        ensures
            r == self.seen_seq().len(),
    {
        self.in_vision.len()
    }

    /// The `i`-th held position, in insertion order.
    pub fn nth(&self, i: usize) -> (r: Position)
        requires
            i < self.seen_seq().len(),
        ensures
            r == self.seen_seq()[i as int],
    {
        self.in_vision[i]
    }
}

} // verus!
