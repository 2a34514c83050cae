//! The vision field: an approximate, symmetric eight-octant sweep that
//! collects every tile visible from an origin within the vision radius,
//! stopping at walls and at the map edge.

use vstd::prelude::*;

use crate::physics::{coord_ok, dist2, lemma_dist2_bounded, MapCache, Position, Tile, TileMap};

verus! {

broadcast use vstd::set::group_set_axioms;

/// The perception radius; its square is the insertion cutoff.
pub const VISION_RADIUS: u32 = 20;

/// Squared insertion cutoff of the vision scan.
pub const VISION_RADIUS_SQ: u32 = 400;

/// Whether a wall stands at the integer coordinates.
pub open spec fn wall_at(m: TileMap, xi: int, yi: int) -> bool {
    match m.tile_at(xi, yi) {
        Some(t) => t is Wall,
        None => false,
    }
}

/// Whether a tile exists at the integer coordinates.
pub open spec fn tile_exists(m: TileMap, xi: int, yi: int) -> bool {
    m.tile_at(xi, yi) is Some
}

/// A tile a scan ray may pass over: it exists and is not a wall.
pub open spec fn walkable_at(m: TileMap, xi: int, yi: int) -> bool {
    tile_exists(m, xi, yi) && !wall_at(m, xi, yi)
}

/// A unit step along one axis.
pub open spec fn unit_dir(dx: int, dy: int) -> bool {
    ||| (dx == 0 && (dy == 1 || dy == -1))
    ||| (dy == 0 && (dx == 1 || dx == -1))
}

/// How many steps along `(dx, dy)` lead from `o` to `p`, counted along the
/// direction's own axis.
pub open spec fn ray_off(o: Position, p: Position, dx: int, dy: int) -> int {
    (p.x - o.x) * dx + (p.y - o.y) * dy
}

/// Whether `p` lies on the line through `o` along `(dx, dy)`.
pub open spec fn on_ray(o: Position, p: Position, dx: int, dy: int) -> bool {
    (p.x - o.x) * dy == 0 && (p.y - o.y) * dx == 0
}

/// Whether a wall stands `j` steps out from `o` along `(dx, dy)`.
pub open spec fn ray_wall(m: TileMap, o: Position, dx: int, dy: int, j: int) -> bool {
    wall_at(m, o.x + j * dx, o.y + j * dy)
}

/// Whether the tile `j` steps out from `o` along `(dx, dy)` exists and is
/// not a wall.
pub open spec fn ray_open(m: TileMap, o: Position, dx: int, dy: int, j: int) -> bool {
    walkable_at(m, o.x + j * dx, o.y + j * dy)
}

/// No wall stands strictly between `o` and the `k`-th step along `(dx, dy)`.
pub open spec fn ray_clear(m: TileMap, o: Position, dx: int, dy: int, k: int) -> bool {
    forall|j: int| 1 <= j < k ==> !(#[trigger] ray_wall(m, o, dx, dy, j))
}

/// Every tile strictly between `o` and the `k`-th step along `(dx, dy)`
/// exists and is not a wall.
pub open spec fn ray_walkable(m: TileMap, o: Position, dx: int, dy: int, k: int) -> bool {
    forall|j: int| 1 <= j < k ==> #[trigger] ray_open(m, o, dx, dy, j)
}

/// A tile the scan owes to its caller: on the axis ray from `o` along
/// `(dx, dy)`, within the radius, existing, with only walkable tiles
/// strictly before it. The tile itself may be the blocking wall.
pub open spec fn ray_visible(m: TileMap, o: Position, dx: int, dy: int, p: Position) -> bool {
    &&& on_ray(o, p, dx, dy)
    &&& 1 <= ray_off(o, p, dx, dy)
    &&& dist2(p, o) < VISION_RADIUS_SQ
    &&& tile_exists(m, p.x as int, p.y as int)
    &&& ray_walkable(m, o, dx, dy, ray_off(o, p, dx, dy))
}

/// The scan can walk at all only when the origin tile exists and is open.
pub open spec fn origin_open(m: TileMap, o: Position) -> bool {
    walkable_at(m, o.x as int, o.y as int)
}

/// Two perpendicular unit axis steps: the frame of one octant.
pub open spec fn dirs_ok(ix: int, iy: int, ox: int, oy: int) -> bool {
    &&& unit_dir(ix, iy)
    &&& unit_dir(ox, oy)
    &&& ix * ox + iy * oy == 0
}

/// What one octant sweep may insert: a tile of the octant's quarter-plane,
/// within the radius, whose decomposition into `u` inner and `v` outer steps
/// is wall-free along whichever boundary ray it sits on.
pub open spec fn octant_ok(
    m: TileMap,
    o: Position,
    ix: int,
    iy: int,
    ox: int,
    oy: int,
    q: Position,
) -> bool {
    let u = ray_off(o, q, ix, iy);
    let v = ray_off(o, q, ox, oy);
    &&& dist2(q, o) < VISION_RADIUS_SQ
    &&& tile_exists(m, q.x as int, q.y as int)
    &&& u >= 0
    &&& v >= 0
    &&& q.x == o.x + u * ix + v * ox
    &&& q.y == o.y + u * iy + v * oy
    &&& (v == 0 ==> ray_clear(m, o, ix, iy, u))
    &&& (u == 0 ==> ray_clear(m, o, ox, oy, v))
}

/// One unit step of the scan.
pub open spec fn step_pos(p: Position, dx: int, dy: int) -> Position {
    Position { x: (p.x + dx) as i32, y: (p.y + dy) as i32 }
}

/// One row of the sweep, walked tile by tile from `ipos` with `count`
/// steps already taken: the tiles it inserts and the count it stops at.
/// The walk ends at the map edge, just past the clamp, or just after
/// inserting a wall; only tiles within the radius are inserted.
pub open spec fn row_scan(
    m: TileMap,
    o: Position,
    ipos: Position,
    ix: int,
    iy: int,
    count: nat,
    limit: Option<nat>,
    fuel: nat,
) -> (Set<Position>, nat)
    decreases fuel,
{
    if fuel == 0 {
        (Set::empty(), count)
    } else {
        match m.tile_at_pos(ipos) {
            None => (Set::empty(), count),
            Some(t) => {
                let c2 = (count + 1) as nat;
                if match limit {
                    Some(mv) => c2 > mv,
                    None => false,
                } {
                    (Set::empty(), c2)
                } else {
                    let ins: Set<Position> = if dist2(ipos, o) < VISION_RADIUS_SQ {
                        Set::empty().insert(ipos)
                    } else {
                        Set::empty()
                    };
                    if t is Wall {
                        (ins, c2)
                    } else {
                        let rest = row_scan(
                            m,
                            o,
                            step_pos(ipos, ix, iy),
                            ix,
                            iy,
                            c2,
                            limit,
                            (fuel - 1) as nat,
                        );
                        (ins.union(rest.0), rest.1)
                    }
                }
            },
        }
    }
}

/// The whole sweep of one octant from outer anchor `pos`: each outer tile
/// within the radius, its row, and the rest of the sweep under the clamp
/// tightened to the narrowest row extent reached so far.
pub open spec fn octant_scan(
    m: TileMap,
    o: Position,
    pos: Position,
    ix: int,
    iy: int,
    ox: int,
    oy: int,
    limit: Option<nat>,
    fuel: nat,
) -> Set<Position>
    decreases fuel,
{
    if fuel == 0 {
        Set::empty()
    } else {
        match m.tile_at_pos(pos) {
            None => Set::empty(),
            Some(t) => {
                let ins: Set<Position> = if dist2(pos, o) < VISION_RADIUS_SQ {
                    Set::empty().insert(pos)
                } else {
                    Set::empty()
                };
                if t is Wall {
                    ins
                } else {
                    let row = row_scan(m, o, step_pos(pos, ix, iy), ix, iy, 0, limit, 30002);
                    let tightened: Option<nat> = match limit {
                        Some(mv) => if row.1 < mv {
                            Some(row.1)
                        } else {
                            Some(mv)
                        },
                        None => Some(row.1),
                    };
                    ins.union(row.0).union(
                        octant_scan(
                            m,
                            o,
                            step_pos(pos, ox, oy),
                            ix,
                            iy,
                            ox,
                            oy,
                            tightened,
                            (fuel - 1) as nat,
                        ),
                    )
                }
            },
        }
    }
}

/// Every tile one octant of the sweep inserts, scanning out from `o`.
pub open spec fn octant_tiles(m: TileMap, o: Position, ix: int, iy: int, ox: int, oy: int) -> Set<Position> {
    octant_scan(m, o, o, ix, iy, ox, oy, None, 30002)
}

/// The exact set of tiles visible from `o` on `m`: the origin plus what
/// the eight octant sweeps insert. A function of the map and the origin
/// alone, so recomputed vision owes nothing to any earlier query.
pub open spec fn visible_from(m: TileMap, o: Position) -> Set<Position> {
    Set::empty().insert(o)
        .union(octant_tiles(m, o, 1, 0, 0, 1))
        .union(octant_tiles(m, o, 1, 0, 0, -1))
        .union(octant_tiles(m, o, -1, 0, 0, -1))
        .union(octant_tiles(m, o, -1, 0, 0, 1))
        .union(octant_tiles(m, o, 0, 1, 1, 0))
        .union(octant_tiles(m, o, 0, 1, -1, 0))
        .union(octant_tiles(m, o, 0, -1, -1, 0))
        .union(octant_tiles(m, o, 0, -1, 1, 0))
}

/// A point on an axis line sits exactly `ray_off` unit steps out.
proof fn lemma_on_ray_coords(o: Position, p: Position, dx: int, dy: int)
    requires
        unit_dir(dx, dy),
        on_ray(o, p, dx, dy),
    ensures
        p.x == o.x + ray_off(o, p, dx, dy) * dx,
        p.y == o.y + ray_off(o, p, dx, dy) * dy,
{
    assert(p.x == o.x + ((p.x - o.x) * dx + (p.y - o.y) * dy) * dx
        && p.y == o.y + ((p.x - o.x) * dx + (p.y - o.y) * dy) * dy) by (nonlinear_arith)
        requires
            (dx == 0 && (dy == 1 || dy == -1)) || (dy == 0 && (dx == 1 || dx == -1)),
            (p.x - o.x) * dy == 0,
            (p.y - o.y) * dx == 0;
}

/// A point written in an octant frame has the written offsets as its
/// projections onto the frame's two rays.
proof fn lemma_decompose(
    o: Position,
    ix: int,
    iy: int,
    ox: int,
    oy: int,
    u: int,
    v: int,
    q: Position,
)
    requires
        dirs_ok(ix, iy, ox, oy),
        q.x == o.x + u * ix + v * ox,
        q.y == o.y + u * iy + v * oy,
    ensures
        ray_off(o, q, ix, iy) == u,
        ray_off(o, q, ox, oy) == v,
{
    assert((q.x - o.x) * ix + (q.y - o.y) * iy == u
        && (q.x - o.x) * ox + (q.y - o.y) * oy == v) by (nonlinear_arith)
        requires
            (ix == 0 && (iy == 1 || iy == -1)) || (iy == 0 && (ix == 1 || ix == -1)),
            (ox == 0 && (oy == 1 || oy == -1)) || (oy == 0 && (ox == 1 || ox == -1)),
            ix * ox + iy * oy == 0,
            q.x == o.x + u * ix + v * ox,
            q.y == o.y + u * iy + v * oy;
}

/// Anything one octant may insert respects every axis ray: a tile `k` steps
/// out along a cardinal direction has no wall strictly before it.
proof fn lemma_octant_sound_ray(
    m: TileMap,
    o: Position,
    ix: int,
    iy: int,
    ox: int,
    oy: int,
    q: Position,
    dx: int,
    dy: int,
)
    requires
        dirs_ok(ix, iy, ox, oy),
        unit_dir(dx, dy),
        octant_ok(m, o, ix, iy, ox, oy, q),
        on_ray(o, q, dx, dy),
        ray_off(o, q, dx, dy) >= 1,
    ensures
        ray_clear(m, o, dx, dy, ray_off(o, q, dx, dy)),
{
    let k = ray_off(o, q, dx, dy);
    let u = ray_off(o, q, ix, iy);
    let v = ray_off(o, q, ox, oy);
    lemma_on_ray_coords(o, q, dx, dy);
    assert(u == k * (dx * ix + dy * iy) && v == k * (dx * ox + dy * oy)) by (nonlinear_arith)
        requires
            (ix == 0 && (iy == 1 || iy == -1)) || (iy == 0 && (ix == 1 || ix == -1)),
            (ox == 0 && (oy == 1 || oy == -1)) || (oy == 0 && (ox == 1 || ox == -1)),
            (dx == 0 && (dy == 1 || dy == -1)) || (dy == 0 && (dx == 1 || dx == -1)),
            u == (q.x - o.x) * ix + (q.y - o.y) * iy,
            v == (q.x - o.x) * ox + (q.y - o.y) * oy,
            q.x == o.x + k * dx,
            q.y == o.y + k * dy;
    if dx == ix && dy == iy {
        assert(dx * ix + dy * iy == 1 && dx * ox + dy * oy == 0) by (nonlinear_arith)
            requires
                (dx == 0 && (dy == 1 || dy == -1)) || (dy == 0 && (dx == 1 || dx == -1)),
                dx == ix && dy == iy,
                ix * ox + iy * oy == 0;
        assert(u == k && v == 0);
    } else if dx == ox && dy == oy {
        assert(dx * ox + dy * oy == 1 && dx * ix + dy * iy == 0) by (nonlinear_arith)
            requires
                (dx == 0 && (dy == 1 || dy == -1)) || (dy == 0 && (dx == 1 || dx == -1)),
                dx == ox && dy == oy,
                ix * ox + iy * oy == 0;
        assert(v == k && u == 0);
    } else {
        // The remaining axis directions run opposite to one of the frame's
        // rays; a point of the quarter-plane cannot sit on them.
        assert((dx == -ix && dy == -iy) || (dx == -ox && dy == -oy));
        assert(u == -k || v == -k) by (nonlinear_arith)
            requires
                (ix == 0 && (iy == 1 || iy == -1)) || (iy == 0 && (ix == 1 || ix == -1)),
                (ox == 0 && (oy == 1 || oy == -1)) || (oy == 0 && (ox == 1 || ox == -1)),
                (dx == -ix && dy == -iy) || (dx == -ox && dy == -oy),
                u == k * (dx * ix + dy * iy),
                v == k * (dx * ox + dy * oy);
        assert(false);
    }
}

/// Insert `p` into the cache when it is within the vision radius of `origin`.
fn insert_if_close(cache: &mut MapCache, origin: Position, p: Position)
    requires
        old(cache).wf(),
        coord_ok(origin),
        coord_ok(p),
    ensures
        final(cache).wf(),
        dist2(p, origin) < VISION_RADIUS_SQ
            ==> forall|q: Position| final(cache).sees(q) == (old(cache).sees(q) || q == p),
        dist2(p, origin) >= VISION_RADIUS_SQ ==> *final(cache) == *old(cache),
{
    proof {
        lemma_dist2_bounded(p, origin);
    }
    if p.distance(&origin) < VISION_RADIUS_SQ {
        cache.insert(p);
    }
}

/// One octant sweep, parameterized by the octant frame: walk the outer ray
/// tile by tile and, from each of its tiles, walk a row along the inner
/// step, clamping each row to the narrowest extent a previous row reached.
/// Tiles within the radius are inserted; a wall is inserted and stops its
/// walk.
fn scan_octant(
    map: &TileMap,
    cache: &mut MapCache,
    origin: Position,
    ix: i32,
    iy: i32,
    ox: i32,
    oy: i32,
)
    requires
        map.wf(),
        old(cache).wf(),
        dirs_ok(ix as int, iy as int, ox as int, oy as int),
    ensures
        final(cache).wf(),
        forall|q: Position| old(cache).sees(q) ==> final(cache).sees(q),
        forall|q: Position| final(cache).sees(q) == (old(cache).sees(q)
            || octant_tiles(*map, origin, ix as int, iy as int, ox as int, oy as int).contains(q)),
        forall|q: Position| final(cache).sees(q) && !old(cache).sees(q)
            ==> octant_ok(*map, origin, ix as int, iy as int, ox as int, oy as int, q),
        origin_open(*map, origin) ==> forall|p: Position|
            ray_visible(*map, origin, ix as int, iy as int, p) ==> final(cache).sees(p),
        origin_open(*map, origin) ==> forall|p: Position|
            ray_visible(*map, origin, ox as int, oy as int, p) ==> final(cache).sees(p),
{
    let ghost m = *map;
    let ghost o = origin;
    let ghost target = octant_tiles(m, origin, ix as int, iy as int, ox as int, oy as int);
    let ghost mut inserted: Set<Position> = Set::empty();
    let ghost mut limit_model: Option<nat> = None;
    let mut max_extent: Option<u32> = None;
    let mut pos = origin;
    let ghost mut v: int = 0;
    loop
        invariant_except_break
            map.wf(),
            cache.wf(),
            dirs_ok(ix as int, iy as int, ox as int, oy as int),
            m == *map,
            o == origin,
            0 <= v <= 30001,
            pos.x == o.x + v * ox,
            pos.y == o.y + v * oy,
            target == octant_tiles(m, o, ix as int, iy as int, ox as int, oy as int),
            limit_model == match max_extent {
                Some(mv) => Some(mv as nat),
                None => None::<nat>,
            },
            forall|q: Position| cache.sees(q) == (old(cache).sees(q) || inserted.contains(q)),
            forall|q: Position| target.contains(q) == (inserted.contains(q)
                || octant_scan(m, o, pos, ix as int, iy as int, ox as int, oy as int,
                    limit_model, (30002 - v) as nat).contains(q)),
            forall|q: Position| old(cache).sees(q) ==> cache.sees(q),
            forall|q: Position| cache.sees(q) && !old(cache).sees(q)
                ==> octant_ok(m, o, ix as int, iy as int, ox as int, oy as int, q),
            // every outer tile before this one was walked through
            v >= 1 ==> origin_open(m, o),
            forall|j: int| 1 <= j < v ==> #[trigger] ray_open(m, o, ox as int, oy as int, j),
            // outer tiles already passed are seen when within the radius
            forall|p: Position| on_ray(o, p, ox as int, oy as int)
                && 1 <= ray_off(o, p, ox as int, oy as int) < v
                && dist2(p, o) < VISION_RADIUS_SQ ==> cache.sees(p),
            // the first row has been fully walked once the outer ray moved on
            v >= 1 ==> forall|p: Position|
                ray_visible(m, o, ix as int, iy as int, p) ==> cache.sees(p),
            v >= 1 ==> cache.sees(o) || dist2(o, o) >= VISION_RADIUS_SQ,
            v == 0 ==> max_extent is None,
        ensures
            cache.wf(),
            forall|q: Position| old(cache).sees(q) ==> cache.sees(q),
            forall|q: Position| cache.sees(q) == (old(cache).sees(q) || target.contains(q)),
            forall|q: Position| cache.sees(q) && !old(cache).sees(q)
                ==> octant_ok(m, o, ix as int, iy as int, ox as int, oy as int, q),
            origin_open(m, o) ==> forall|p: Position|
                ray_visible(m, o, ix as int, iy as int, p) ==> cache.sees(p),
            origin_open(m, o) ==> forall|p: Position|
                ray_visible(m, o, ox as int, oy as int, p) ==> cache.sees(p),
        decreases 30002 - (pos.x * ox + pos.y * oy),
    {
        let anchor_wall: bool;
        match map.at_pos(pos) {
            None => {
                // The outer ray left the map: nothing at or beyond this
                // offset can be visible along it.
                proof {
                    assert(octant_scan(m, o, pos, ix as int, iy as int, ox as int, oy as int,
                        limit_model, (30002 - v) as nat) == Set::<Position>::empty());
                    assert forall|p: Position| origin_open(m, o)
                        && ray_visible(m, o, ox as int, oy as int, p)
                        implies cache.sees(p) by {
                        let k = ray_off(o, p, ox as int, oy as int);
                        lemma_on_ray_coords(o, p, ox as int, oy as int);
                        if k >= v {
                            if k == v {
                                assert(p == pos);
                            } else {
                                assert(ray_open(m, o, ox as int, oy as int, v));
                            }
                        }
                    }
                    assert forall|p: Position| origin_open(m, o)
                        && ray_visible(m, o, ix as int, iy as int, p)
                        implies cache.sees(p) by {
                        if v == 0 {
                            assert(pos == o);
                        }
                    }
                }
                break;
            },
            Some(tile) => {
                anchor_wall = matches!(tile, Tile::Wall);
            },
        }
        // the anchor tile exists; record it when it is within the radius
        proof {
            map.lemma_tile_bounds(pos.x as int, pos.y as int);
            if v >= 1 {
                map.lemma_tile_bounds(o.x as int, o.y as int);
            }
        }
        insert_if_close(cache, origin, pos);
        proof {
            if dist2(pos, o) < VISION_RADIUS_SQ {
                inserted = inserted.insert(pos);
            }
            lemma_decompose(o, ix as int, iy as int, ox as int, oy as int, 0, v, pos);
            assert forall|j: int| 1 <= j < v
                implies !(#[trigger] ray_wall(m, o, ox as int, oy as int, j)) by {
                assert(ray_open(m, o, ox as int, oy as int, j));
            }
            assert(octant_ok(m, o, ix as int, iy as int, ox as int, oy as int, pos)
                || dist2(pos, o) >= VISION_RADIUS_SQ);
        }
        if anchor_wall {
            // a wall on the outer ray is seen but ends the sweep
            proof {
                if dist2(pos, o) < VISION_RADIUS_SQ {
                    assert(octant_scan(m, o, pos, ix as int, iy as int, ox as int, oy as int,
                        limit_model, (30002 - v) as nat)
                        == Set::<Position>::empty().insert(pos));
                } else {
                    assert(octant_scan(m, o, pos, ix as int, iy as int, ox as int, oy as int,
                        limit_model, (30002 - v) as nat) == Set::<Position>::empty());
                }
                assert forall|p: Position| origin_open(m, o)
                    && ray_visible(m, o, ox as int, oy as int, p)
                    implies cache.sees(p) by {
                    let k = ray_off(o, p, ox as int, oy as int);
                    lemma_on_ray_coords(o, p, ox as int, oy as int);
                    if k > v {
                        assert(ray_open(m, o, ox as int, oy as int, v));
                        assert(false);
                    } else if k == v {
                        assert(p == pos);
                    }
                }
                assert forall|p: Position| origin_open(m, o)
                    && ray_visible(m, o, ix as int, iy as int, p)
                    implies cache.sees(p) by {
                    if v == 0 {
                        assert(pos == o);
                        assert(!origin_open(m, o));
                    }
                }
            }
            break;
        }
        // walk this row away from the outer ray
        let ghost anchor = pos;
        let ghost limit_row = limit_model;
        let ghost inserted0 = inserted;
        let mut ipos = Position { x: pos.x + ix, y: pos.y + iy };
        let ghost row_target = row_scan(m, o, ipos, ix as int, iy as int, 0, limit_model, 30002);
        let ghost mut row_acc: Set<Position> = Set::empty();
        proof {
            assert(step_pos(pos, ix as int, iy as int) == ipos);
        }
        let mut count: u32 = 0;
        let ghost mut u: int = 1;
        loop
            invariant_except_break
                map.wf(),
                cache.wf(),
                dirs_ok(ix as int, iy as int, ox as int, oy as int),
                m == *map,
                o == origin,
                anchor == pos,
                v >= 0,
                pos.x == o.x + v * ox,
                pos.y == o.y + v * oy,
                walkable_at(m, pos.x as int, pos.y as int),
                1 <= u <= 30001,
                count == u - 1,
                ipos.x == pos.x + u * ix,
                ipos.y == pos.y + u * iy,
                limit_row == limit_model,
                limit_model == match max_extent {
                    Some(mv) => Some(mv as nat),
                    None => None::<nat>,
                },
                forall|q: Position| cache.sees(q) == (old(cache).sees(q) || inserted.contains(q)),
                forall|q: Position| inserted.contains(q)
                    == (inserted0.contains(q) || row_acc.contains(q)),
                forall|q: Position| row_target.0.contains(q) == (row_acc.contains(q)
                    || row_scan(m, o, ipos, ix as int, iy as int, count as nat,
                        limit_model, (30003 - u) as nat).0.contains(q)),
                row_target.1 == row_scan(m, o, ipos, ix as int, iy as int, count as nat,
                    limit_model, (30003 - u) as nat).1,
                forall|q: Position| old(cache).sees(q) ==> cache.sees(q),
                forall|q: Position| cache.sees(q) && !old(cache).sees(q)
                    ==> octant_ok(m, o, ix as int, iy as int, ox as int, oy as int, q),
                forall|j: int| 1 <= j < u ==> #[trigger] ray_open(m, pos, ix as int, iy as int, j),
                v == 0 ==> forall|p: Position| on_ray(o, p, ix as int, iy as int)
                    && 1 <= ray_off(o, p, ix as int, iy as int) < u
                    && dist2(p, o) < VISION_RADIUS_SQ ==> cache.sees(p),
                v == 0 ==> max_extent is None,
                v >= 1 ==> origin_open(m, o),
                forall|j: int| 1 <= j < v ==> #[trigger] ray_open(m, o, ox as int, oy as int, j),
                forall|p: Position| on_ray(o, p, ox as int, oy as int)
                    && 1 <= ray_off(o, p, ox as int, oy as int) < v
                    && dist2(p, o) < VISION_RADIUS_SQ ==> cache.sees(p),
                v >= 1 ==> forall|p: Position|
                    ray_visible(m, o, ix as int, iy as int, p) ==> cache.sees(p),
                v >= 1 ==> cache.sees(o) || dist2(o, o) >= VISION_RADIUS_SQ,
                cache.sees(pos) || dist2(pos, o) >= VISION_RADIUS_SQ,
            ensures
                cache.wf(),
                m == *map,
                anchor == pos,
                limit_row == limit_model,
                forall|q: Position| cache.sees(q) == (old(cache).sees(q) || inserted.contains(q)),
                forall|q: Position| inserted.contains(q)
                    == (inserted0.contains(q) || row_target.0.contains(q)),
                row_target.1 == count as nat,
                forall|q: Position| old(cache).sees(q) ==> cache.sees(q),
                forall|q: Position| cache.sees(q) && !old(cache).sees(q)
                    ==> octant_ok(m, o, ix as int, iy as int, ox as int, oy as int, q),
                v == 0 ==> forall|p: Position|
                    ray_visible(m, o, ix as int, iy as int, p) ==> cache.sees(p),
                forall|p: Position| on_ray(o, p, ox as int, oy as int)
                    && 1 <= ray_off(o, p, ox as int, oy as int) < v
                    && dist2(p, o) < VISION_RADIUS_SQ ==> cache.sees(p),
                v >= 1 ==> forall|p: Position|
                    ray_visible(m, o, ix as int, iy as int, p) ==> cache.sees(p),
                v >= 1 ==> cache.sees(o) || dist2(o, o) >= VISION_RADIUS_SQ,
                cache.sees(pos) || dist2(pos, o) >= VISION_RADIUS_SQ,
                v >= 1 ==> origin_open(m, o),
                forall|j: int| 1 <= j < v ==> #[trigger] ray_open(m, o, ox as int, oy as int, j),
            decreases 30002 - (ipos.x * ix + ipos.y * iy),
        {
            let row_wall: bool;
            match map.at_pos(ipos) {
                None => {
                    proof {
                        assert(row_scan(m, o, ipos, ix as int, iy as int, count as nat,
                            limit_model, (30003 - u) as nat)
                            == (Set::<Position>::empty(), count as nat));
                        if v == 0 {
                            assert(pos == o);
                            assert forall|p: Position|
                                ray_visible(m, o, ix as int, iy as int, p)
                                implies cache.sees(p) by {
                                let k = ray_off(o, p, ix as int, iy as int);
                                lemma_on_ray_coords(o, p, ix as int, iy as int);
                                if k == u {
                                    assert(p == ipos);
                                } else if k > u {
                                    assert(ray_open(m, o, ix as int, iy as int, u));
                                }
                            }
                        }
                    }
                    break;
                },
                Some(t2) => {
                    row_wall = matches!(t2, Tile::Wall);
                },
            }
            let ghost count0: nat = count as nat;
            let ghost fuel0: nat = (30003 - u) as nat;
            proof {
                map.lemma_tile_bounds(ipos.x as int, ipos.y as int);
                map.lemma_tile_bounds(pos.x as int, pos.y as int);
                map.lemma_tile_bounds(o.x as int, o.y as int);
                if v == 0 {
                    assert(pos == o);
                }
                assert(coord_ok(o));
                assert(u + 1 <= 30001) by (nonlinear_arith)
                    requires
                        (ix == 0 && (iy == 1 || iy == -1)) || (iy == 0 && (ix == 1 || ix == -1)),
                        ipos.x == pos.x + u * ix,
                        ipos.y == pos.y + u * iy,
                        0 <= ipos.x < 30000 && 0 <= ipos.y < 30000,
                        0 <= pos.x < 30000 && 0 <= pos.y < 30000,
                        u >= 1;
            }
            count = count + 1;
            let clamped = match max_extent {
                Some(mv) => count > mv,
                None => false,
            };
            if clamped {
                proof {
                    assert(row_scan(m, o, ipos, ix as int, iy as int, count0,
                        limit_model, fuel0)
                        == (Set::<Position>::empty(), count as nat));
                }
                break;
            }
            let ghost row_acc_pre = row_acc;
            insert_if_close(cache, origin, ipos);
            proof {
                if dist2(ipos, o) < VISION_RADIUS_SQ {
                    inserted = inserted.insert(ipos);
                    row_acc = row_acc.insert(ipos);
                }
                lemma_decompose(o, ix as int, iy as int, ox as int, oy as int, u, v, ipos);
                if v == 0 {
                    assert(pos == o);
                    assert forall|j: int| 1 <= j < u
                        implies !(#[trigger] ray_wall(m, o, ix as int, iy as int, j)) by {
                        assert(ray_open(m, o, ix as int, iy as int, j));
                    }
                }
                if dist2(ipos, o) < VISION_RADIUS_SQ {
                    assert(octant_ok(m, o, ix as int, iy as int, ox as int, oy as int, ipos));
                }
            }
            if row_wall {
                proof {
                    if dist2(ipos, o) < VISION_RADIUS_SQ {
                        assert(row_scan(m, o, ipos, ix as int, iy as int, count0,
                            limit_model, fuel0)
                            == (Set::<Position>::empty().insert(ipos), count as nat));
                    } else {
                        assert(row_scan(m, o, ipos, ix as int, iy as int, count0,
                            limit_model, fuel0)
                            == (Set::<Position>::empty(), count as nat));
                    }
                    if v == 0 {
                        assert(pos == o);
                        assert forall|p: Position|
                            ray_visible(m, o, ix as int, iy as int, p)
                            implies cache.sees(p) by {
                            let k = ray_off(o, p, ix as int, iy as int);
                            lemma_on_ray_coords(o, p, ix as int, iy as int);
                            if k == u {
                                assert(p == ipos);
                            } else if k > u {
                                assert(ray_open(m, o, ix as int, iy as int, u));
                                assert(ray_wall(m, o, ix as int, iy as int, u));
                                assert(false);
                            }
                        }
                    }
                }
                break;
            }
            proof {
                assert forall|j: int| 1 <= j < u + 1
                    implies #[trigger] ray_open(m, pos, ix as int, iy as int, j) by {
                    if j == u {
                        assert(ipos.x == pos.x + u * ix && ipos.y == pos.y + u * iy);
                    }
                }
                if v == 0 {
                    assert(pos == o);
                    assert forall|p: Position| on_ray(o, p, ix as int, iy as int)
                        && 1 <= ray_off(o, p, ix as int, iy as int) < u + 1
                        && dist2(p, o) < VISION_RADIUS_SQ implies cache.sees(p) by {
                        let k = ray_off(o, p, ix as int, iy as int);
                        lemma_on_ray_coords(o, p, ix as int, iy as int);
                        if k == u {
                            assert(p == ipos);
                        }
                    }
                }
            }
            let ghost prev = ipos;
            ipos = Position { x: ipos.x + ix, y: ipos.y + iy };
            proof {
                assert(step_pos(prev, ix as int, iy as int) == ipos);
                assert(row_scan(m, o, prev, ix as int, iy as int, count0, limit_model, fuel0)
                    == ((if dist2(prev, o) < VISION_RADIUS_SQ {
                        Set::<Position>::empty().insert(prev)
                    } else {
                        Set::<Position>::empty()
                    }).union(row_scan(m, o, ipos, ix as int, iy as int, count as nat,
                        limit_model, (fuel0 - 1) as nat).0),
                    row_scan(m, o, ipos, ix as int, iy as int, count as nat,
                        limit_model, (fuel0 - 1) as nat).1));
                u = u + 1;
                assert(ipos.x * ix + ipos.y * iy == prev.x * ix + prev.y * iy + 1
                    && -30001 <= prev.x * ix + prev.y * iy <= 30001) by (nonlinear_arith)
                    requires
                        (ix == 0 && (iy == 1 || iy == -1)) || (iy == 0 && (ix == 1 || ix == -1)),
                        ipos.x == prev.x + ix,
                        ipos.y == prev.y + iy,
                        0 <= prev.x < 30000 && 0 <= prev.y < 30000;
                assert(ipos.x == pos.x + u * ix && ipos.y == pos.y + u * iy) by (nonlinear_arith)
                    requires
                        ipos.x == prev.x + ix,
                        ipos.y == prev.y + iy,
                        prev.x == pos.x + (u - 1) * ix,
                        prev.y == pos.y + (u - 1) * iy;
                let insp: Set<Position> = if dist2(prev, o) < VISION_RADIUS_SQ {
                    Set::<Position>::empty().insert(prev)
                } else {
                    Set::<Position>::empty()
                };
                assert forall|q: Position| row_target.0.contains(q) == (row_acc.contains(q)
                    || row_scan(m, o, ipos, ix as int, iy as int, count as nat,
                        limit_model, (30003 - u) as nat).0.contains(q)) by {
                    assert((30003 - u) as nat == (fuel0 - 1) as nat);
                    assert(row_target.0.contains(q) == (row_acc_pre.contains(q)
                        || row_scan(m, o, prev, ix as int, iy as int, count0,
                            limit_model, fuel0).0.contains(q)));
                    assert(row_scan(m, o, prev, ix as int, iy as int, count0, limit_model, fuel0).0
                        == insp.union(row_scan(m, o, ipos, ix as int, iy as int, count as nat,
                            limit_model, (30003 - u) as nat).0));
                }
            }
        }
        // remember the narrowest extent any row has reached
        let ghost limit_pre = limit_model;
        let update = match max_extent {
            Some(mv) => count < mv,
            None => true,
        };
        if update {
            max_extent = Some(count);
        }
        proof {
            limit_model = match limit_model {
                Some(mv) => if (count as nat) < mv {
                    Some(count as nat)
                } else {
                    Some(mv)
                },
                None => Some(count as nat),
            };
        }
        // return to the outer ray and take one outer step
        proof {
            map.lemma_tile_bounds(pos.x as int, pos.y as int);
            assert forall|j: int| 1 <= j < v + 1
                implies #[trigger] ray_open(m, o, ox as int, oy as int, j) by {
                if j == v {
                    lemma_on_ray_coords(o, pos, ox as int, oy as int);
                }
            }
            assert forall|p: Position| on_ray(o, p, ox as int, oy as int)
                && 1 <= ray_off(o, p, ox as int, oy as int) < v + 1
                && dist2(p, o) < VISION_RADIUS_SQ implies cache.sees(p) by {
                let k = ray_off(o, p, ox as int, oy as int);
                lemma_on_ray_coords(o, p, ox as int, oy as int);
                if k == v {
                    assert(p == pos);
                }
            }
            if v == 0 {
                assert(pos == o);
            }
        }
        let ghost prev_anchor = pos;
        pos = Position { x: pos.x + ox, y: pos.y + oy };
        proof {
            v = v + 1;
            assert(pos.x * ox + pos.y * oy == prev_anchor.x * ox + prev_anchor.y * oy + 1
                && -30001 <= prev_anchor.x * ox + prev_anchor.y * oy <= 30001) by (nonlinear_arith)
                requires
                    (ox == 0 && (oy == 1 || oy == -1)) || (oy == 0 && (ox == 1 || ox == -1)),
                    pos.x == prev_anchor.x + ox,
                    pos.y == prev_anchor.y + oy,
                    0 <= prev_anchor.x < 30000 && 0 <= prev_anchor.y < 30000;
            if v - 1 >= 1 {
                map.lemma_tile_bounds(o.x as int, o.y as int);
            }
            assert(v <= 30001) by (nonlinear_arith)
                requires
                    (ox == 0 && (oy == 1 || oy == -1)) || (oy == 0 && (ox == 1 || ox == -1)),
                    prev_anchor.x == o.x + (v - 1) * ox,
                    prev_anchor.y == o.y + (v - 1) * oy,
                    0 <= prev_anchor.x < 30000 && 0 <= prev_anchor.y < 30000,
                    v - 1 >= 1 ==> 0 <= o.x < 30000 && 0 <= o.y < 30000,
                    v >= 1;
            // one anchor and its row are done: unfold the sweep one step
            let fpre = (30002 - (v - 1)) as nat;
            assert(fpre >= 1);
            assert(step_pos(prev_anchor, ox as int, oy as int) == pos);
            assert(row_scan(m, o, step_pos(prev_anchor, ix as int, iy as int),
                ix as int, iy as int, 0, limit_pre, 30002) == row_target);
            assert(octant_scan(m, o, prev_anchor, ix as int, iy as int, ox as int, oy as int,
                limit_pre, fpre)
                == (if dist2(prev_anchor, o) < VISION_RADIUS_SQ {
                    Set::<Position>::empty().insert(prev_anchor)
                } else {
                    Set::<Position>::empty()
                }).union(row_target.0).union(octant_scan(m, o, pos, ix as int, iy as int,
                    ox as int, oy as int, limit_model, (30002 - v) as nat)));
            assert forall|q: Position| target.contains(q) == (inserted.contains(q)
                || octant_scan(m, o, pos, ix as int, iy as int, ox as int, oy as int,
                    limit_model, (30002 - v) as nat).contains(q)) by {
            }
        }
    }
}

/// Soundness of a computed vision field: whatever it holds on an axis ray
/// from the origin has no wall strictly before it on that ray.
pub open spec fn vision_sound(m: TileMap, o: Position, c: MapCache) -> bool {
    forall|p: Position, dx: int, dy: int|
        c.sees(p) && unit_dir(dx, dy) && on_ray(o, p, dx, dy)
            && ray_off(o, p, dx, dy) >= 1
            ==> ray_clear(m, o, dx, dy, ray_off(o, p, dx, dy))
}

/// Completeness of a computed vision field along the axis rays: every tile
/// that an axis ray reaches before any wall, within the radius, is held.
pub open spec fn vision_complete(m: TileMap, o: Position, c: MapCache) -> bool {
    origin_open(m, o) ==> forall|p: Position, dx: int, dy: int|
        unit_dir(dx, dy) && ray_visible(m, o, dx, dy, p) ==> c.sees(p)
}

/// A cache holding the freshly computed vision field of `(m, o)`: exactly
/// the set `visible_from(m, o)` — a function of the map and origin alone,
/// owing nothing to the cache's prior contents — within the radius, on
/// existing tiles but for the origin, with the four axis rays scanned
/// soundly and completely.
pub open spec fn vision_of(m: TileMap, o: Position, c: MapCache) -> bool {
    &&& c.wf()
    &&& c.sees(o)
    &&& forall|p: Position| c.sees(p) == visible_from(m, o).contains(p)
    &&& forall|p: Position| c.sees(p) ==> dist2(p, o) < VISION_RADIUS_SQ
    &&& forall|p: Position| c.sees(p) ==> p == o || tile_exists(m, p.x as int, p.y as int)
    &&& vision_sound(m, o, c)
    &&& vision_complete(m, o, c)
}

impl TileMap {
    /// Recompute from scratch the set of tiles visible from `position`,
    /// clearing and refilling `cache`: afterwards the cache holds exactly
    /// `visible_from(self, position)`, whatever it held before, so equal
    /// inputs always give equal sets and nothing is cached across calls.
    /// The origin is always included; no tile at squared distance
    /// `VISION_RADIUS_SQ` or more is ever included; and along each of the
    /// four axis rays the scan is sound (nothing behind a wall) and
    /// complete (everything before a wall, within the radius).
    pub fn get_in_vision(&self, cache: &mut MapCache, position: Position)
        requires
            self.wf(),
        ensures
            vision_of(*self, position, *final(cache)),
    {
        let ghost m = *self;
        let ghost o = position;
        cache.clear();
        cache.insert(position);
        let ghost c0 = *cache;
        scan_octant(self, cache, position, 1, 0, 0, 1);
        let ghost c1 = *cache;
        scan_octant(self, cache, position, 1, 0, 0, -1);
        let ghost c2 = *cache;
        scan_octant(self, cache, position, -1, 0, 0, -1);
        let ghost c3 = *cache;
        scan_octant(self, cache, position, -1, 0, 0, 1);
        let ghost c4 = *cache;
        scan_octant(self, cache, position, 0, 1, 1, 0);
        let ghost c5 = *cache;
        scan_octant(self, cache, position, 0, 1, -1, 0);
        let ghost c6 = *cache;
        scan_octant(self, cache, position, 0, -1, -1, 0);
        let ghost c7 = *cache;
        scan_octant(self, cache, position, 0, -1, 1, 0);
        proof {
            let c8 = *cache;
            assert forall|q: Position| c8.sees(q) == visible_from(m, o).contains(q) by {
                assert(c0.sees(q) == (q == o));
            }
            assert(dist2(o, o) == 0);
            assert forall|p: Position| c8.sees(p)
                implies dist2(p, o) < VISION_RADIUS_SQ by {
                if c0.sees(p) {
                    assert(p == o);
                }
            }
            assert forall|p: Position| c8.sees(p)
                implies p == o || tile_exists(m, p.x as int, p.y as int) by {
                if c0.sees(p) {
                    assert(p == o);
                }
            }
            assert forall|p: Position, dx: int, dy: int|
                c8.sees(p) && unit_dir(dx, dy) && on_ray(o, p, dx, dy)
                    && ray_off(o, p, dx, dy) >= 1
                implies ray_clear(m, o, dx, dy, ray_off(o, p, dx, dy)) by {
                if c0.sees(p) {
                    assert(p == o);
                    assert(ray_off(o, p, dx, dy) == 0);
                } else if c1.sees(p) {
                    lemma_octant_sound_ray(m, o, 1, 0, 0, 1, p, dx, dy);
                } else if c2.sees(p) {
                    lemma_octant_sound_ray(m, o, 1, 0, 0, -1, p, dx, dy);
                } else if c3.sees(p) {
                    lemma_octant_sound_ray(m, o, -1, 0, 0, -1, p, dx, dy);
                } else if c4.sees(p) {
                    lemma_octant_sound_ray(m, o, -1, 0, 0, 1, p, dx, dy);
                } else if c5.sees(p) {
                    lemma_octant_sound_ray(m, o, 0, 1, 1, 0, p, dx, dy);
                } else if c6.sees(p) {
                    lemma_octant_sound_ray(m, o, 0, 1, -1, 0, p, dx, dy);
                } else if c7.sees(p) {
                    lemma_octant_sound_ray(m, o, 0, -1, -1, 0, p, dx, dy);
                } else {
                    lemma_octant_sound_ray(m, o, 0, -1, 1, 0, p, dx, dy);
                }
            }
            if origin_open(m, o) {
                assert forall|p: Position, dx: int, dy: int|
                    unit_dir(dx, dy) && ray_visible(m, o, dx, dy, p)
                    implies c8.sees(p) by {
                    if dx == 1 && dy == 0 {
                        assert(c1.sees(p));
                    } else if dx == -1 && dy == 0 {
                        assert(c3.sees(p));
                    } else if dx == 0 && dy == 1 {
                        assert(c1.sees(p));
                    } else {
                        assert(c2.sees(p));
                    }
                }
            }
        }
    }

}

/// Law of the vision field: a tile strictly behind a wall on the same axis
/// ray as the origin is never part of a sound field.
pub proof fn lemma_behind_wall_hidden(
    m: TileMap,
    o: Position,
    c: MapCache,
    p: Position,
    dx: int,
    dy: int,
    wall_k: int,
)
    requires
        vision_sound(m, o, c),
        unit_dir(dx, dy),
        on_ray(o, p, dx, dy),
        ray_wall(m, o, dx, dy, wall_k),
        1 <= wall_k < ray_off(o, p, dx, dy),
    ensures
        !c.sees(p),
{
    if c.sees(p) {
        assert(ray_clear(m, o, dx, dy, ray_off(o, p, dx, dy)));
        assert(!ray_wall(m, o, dx, dy, wall_k));
    }
}

/// Law of the vision field: the first wall on an axis ray is itself part of
/// a complete field when it stands within the radius.
pub proof fn lemma_wall_tile_visible(
    m: TileMap,
    o: Position,
    c: MapCache,
    p: Position,
    dx: int,
    dy: int,
)
    requires
        vision_complete(m, o, c),
        origin_open(m, o),
        unit_dir(dx, dy),
        on_ray(o, p, dx, dy),
        ray_off(o, p, dx, dy) >= 1,
        dist2(p, o) < VISION_RADIUS_SQ,
        wall_at(m, p.x as int, p.y as int),
        ray_walkable(m, o, dx, dy, ray_off(o, p, dx, dy)),
    ensures
        c.sees(p),
{
    assert(ray_visible(m, o, dx, dy, p));
}

} // verus!
