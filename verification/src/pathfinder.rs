//! The path planner: goal bookkeeping with priorities, an A* search over the
//! grid honoring dynamic occupancy, waypoint-following, and the skip-turn
//! throttle that paces each actor.

use vstd::prelude::*;

use crate::physics::{Position, TileMap};

verus! {

/// How strongly a goal request insists. A pending, unreached goal is only
/// overwritten by a request of at least its priority.
#[derive(Debug, Clone, Copy, PartialEq, Eq, Structural)]
pub enum Priority {
    Low,
    Medium,
    High,
}

impl Priority {
    /// Numeric rank; higher means more urgent.
    pub open spec fn rank(self) -> int {
        match self {
            Priority::Low => 0,
            Priority::Medium => 1,
            Priority::High => 2,
        }
    }

    /// Whether this priority is at least as urgent as `other`.
    pub fn at_least(self, other: Priority) -> (r: bool)
        ensures
            r == (self.rank() >= other.rank()),
    {
        let s: u8 = match self {
            Priority::Low => 0,
            Priority::Medium => 1,
            Priority::High => 2,
        };
        let o: u8 = match other {
            Priority::Low => 0,
            Priority::Medium => 1,
            Priority::High => 2,
        };
        s >= o
    }
}

/// Per-actor cadence control: `check` answers one `count == skip_at` call in
/// every `skip_at + 1` with `false`, telling the actor to idle that tick.
#[derive(Debug, Clone, Copy, PartialEq, Eq, Structural)]
pub struct SkipTurn {
    pub count: u32,
    pub skip_at: u32,
}

impl SkipTurn {
    /// The counter never runs past its threshold.
    pub open spec fn wf(self) -> bool {
        self.count <= self.skip_at
    }

    /// The state after one `check` call.
    pub open spec fn next(self) -> SkipTurn {
        if self.count == self.skip_at {
            SkipTurn { count: 0, skip_at: self.skip_at }
        } else {
            SkipTurn { count: (self.count + 1) as u32, skip_at: self.skip_at }
        }
    }

    /// The state after `n` successive `check` calls.
    pub open spec fn iter(self, n: nat) -> SkipTurn
        decreases n,
    {
        if n == 0 {
            self
        } else {
            self.next().iter((n - 1) as nat)
        }
    }

    /// How many of the next `n` `check` calls answer `false` (skip the turn).
    pub open spec fn skips_in(self, n: nat) -> nat
        decreases n,
    {
        if n == 0 {
            0
        } else {
            (if self.count == self.skip_at { 1nat } else { 0nat })
                + self.next().skips_in((n - 1) as nat)
        }
    }

    /// False to skip this turn, otherwise true. Counts the call either way.
    pub fn check(&mut self) -> (r: bool)
        requires
            old(self).wf(),
        ensures
            final(self).wf(),
            r == (old(self).count != old(self).skip_at),
            *final(self) == old(self).next(),
    {
        if self.count == self.skip_at {
            self.count = 0;
            false
        } else {
            self.count = self.count + 1;
            true
        }
    }

    /// Start the cadence over.
    pub fn reset_count(&mut self)
        ensures
            final(self).count == 0,
            final(self).skip_at == old(self).skip_at,
            final(self).wf(),
    {
        self.count = 0;
    }
}

/// Splitting a run of `check` calls splits its skip count.
proof fn lemma_skips_split(s: SkipTurn, a: nat, b: nat)
    ensures
        s.skips_in(a + b) == s.skips_in(a) + s.iter(a).skips_in(b),
    decreases a,
{
    if a > 0 {
        lemma_skips_split(s.next(), (a - 1) as nat, b);
    }
}

/// Running a counter at `count <= skip_at` up to its threshold skips nothing
/// and lands exactly on the threshold.
proof fn lemma_run_to_threshold(s: SkipTurn)
    requires
        s.wf(),
    ensures
        s.skips_in((s.skip_at - s.count) as nat) == 0,
        s.iter((s.skip_at - s.count) as nat) == (SkipTurn { count: s.skip_at, skip_at: s.skip_at }),
    decreases s.skip_at - s.count,
{
    if s.count == s.skip_at {
    } else {
        lemma_run_to_threshold(s.next());
    }
}

/// Law of the throttle: from any valid counter state, among `skip_at + 1`
/// consecutive `check` calls exactly one answers `false`.
pub proof fn lemma_skip_turn_exactly_one(s: SkipTurn)
    requires
        s.wf(),
    ensures
        s.skips_in((s.skip_at + 1) as nat) == 1,
{
    let to_threshold = (s.skip_at - s.count) as nat;
    let rest = ((s.skip_at + 1) - to_threshold) as nat;
    lemma_run_to_threshold(s);
    lemma_skips_split(s, to_threshold, rest);
    let at_threshold = s.iter(to_threshold);
    assert(at_threshold.skips_in(rest)
        == 1 + at_threshold.next().skips_in((rest - 1) as nat));
    let after = at_threshold.next();
    assert(after == (SkipTurn { count: 0, skip_at: s.skip_at }));
    lemma_run_to_threshold(after);
    lemma_skips_split(after, (rest - 1) as nat, (s.skip_at + 1 - rest) as nat);
}

/// Whether `b` is one orthogonal step away from `a`.
pub open spec fn step_adjacent(a: Position, b: Position) -> bool {
    ||| (b.x == a.x && b.y == a.y + 1)
    ||| (b.x == a.x + 1 && b.y == a.y)
    ||| (b.x == a.x && b.y == a.y - 1)
    ||| (b.x == a.x - 1 && b.y == a.y)
}

/// Whether a normal mover may stand at `p` on `m`.
pub open spec fn passable_at(m: TileMap, p: Position) -> bool {
    match m.tile_at_pos(p) {
        Some(t) => t.is_passable(),
        None => false,
    }
}

/// Whether the search may step from `a` to `b` when heading for `goal`:
/// one orthogonal step onto an existing tile that is passable or is the
/// goal itself. An actor may path onto, but not through, an occupied goal
/// tile; a goal whose coordinates hold no tile at all is impassable like
/// any other missing tile, so no step ever leaves the map.
pub open spec fn is_successor(m: TileMap, a: Position, b: Position, goal: Position) -> bool {
    &&& step_adjacent(a, b)
    &&& m.tile_at_pos(b) is Some
    &&& (passable_at(m, b) || b == goal)
}

impl Position {
    /// The valid search successors of this position: each orthogonal
    /// neighbor that is passable or equal to the target, at unit cost.
    pub(crate) fn successors(&self, map: &TileMap, target: &Position) -> (r: Vec<(Position, u32)>)
        requires
            map.wf(),
        ensures
            forall|i: int| 0 <= i < r@.len()
                ==> r@[i].1 == 1 && is_successor(*map, *self, r@[i].0, *target),
            forall|b: Position| is_successor(*map, *self, b, *target) ==> r@.contains((b, 1u32)),
    {
        let mut r: Vec<(Position, u32)> = Vec::new();
        if self.y < i32::MAX {
            let p = Position { x: self.x, y: self.y + 1 };
            self.push_if_successor(&mut r, map, target, p);
        }
        let ghost r1 = r@;
        if self.x < i32::MAX {
            let p = Position { x: self.x + 1, y: self.y };
            self.push_if_successor(&mut r, map, target, p);
        }
        let ghost r2 = r@;
        if self.y > i32::MIN {
            let p = Position { x: self.x, y: self.y - 1 };
            self.push_if_successor(&mut r, map, target, p);
        }
        let ghost r3 = r@;
        if self.x > i32::MIN {
            let p = Position { x: self.x - 1, y: self.y };
            self.push_if_successor(&mut r, map, target, p);
        }
        proof {
            assert forall|b: Position| is_successor(*map, *self, b, *target)
                implies r@.contains((b, 1u32)) by {
                if b.y == self.y + 1 && b.x == self.x {
                    let i = r1.len() - 1;
                    assert(r@[i] == (b, 1u32));
                } else if b.x == self.x + 1 && b.y == self.y {
                    let i = r2.len() - 1;
                    assert(r@[i] == (b, 1u32));
                } else if b.y == self.y - 1 && b.x == self.x {
                    let i = r3.len() - 1;
                    assert(r@[i] == (b, 1u32));
                } else {
                    let i = r@.len() - 1;
                    assert(r@[i] == (b, 1u32));
                }
            }
        }
        r
    }

    /// Append `p` when it is a valid successor.
    fn push_if_successor(
        &self,
        r: &mut Vec<(Position, u32)>,
        map: &TileMap,
        target: &Position,
        p: Position,
    )
        requires
            map.wf(),
            step_adjacent(*self, p),
        ensures
            is_successor(*map, *self, p, *target)
                ==> final(r)@ == old(r)@.push((p, 1u32)),
            !is_successor(*map, *self, p, *target) ==> final(r)@ == old(r)@,
    {
        match map.at_pos(p) {
            Some(t) => {
                if t.passable() || p == *target {
                    r.push((p, 1));
                }
            },
            None => {},
        }
    }
}

/// Cap applied to the search heuristic, keeping the search's internal cost
/// sums far from `u32` overflow whatever goal is asked for.
pub const HEURISTIC_CAP: u32 = 1_000_000_000;

/// The capped squared-distance heuristic handed to the search. Intentionally
/// not admissible: it trades shortest-path guarantees for speed.
pub(crate) fn step_heuristic(a: &Position, b: &Position) -> (r: u32)
    ensures
        r == if crate::physics::dist2(*a, *b) > HEURISTIC_CAP {
            HEURISTIC_CAP as int
        } else {
            crate::physics::dist2(*a, *b)
        },
{
    let dx: i64 = a.x as i64 - b.x as i64;
    let dy: i64 = a.y as i64 - b.y as i64;
    proof {
        assert(0 <= (dx as int) * (dx as int) <= 0xFFFFFFFE00000001) by (nonlinear_arith)
            requires -0xFFFFFFFF <= dx <= 0xFFFFFFFF;
        assert(0 <= (dy as int) * (dy as int) <= 0xFFFFFFFE00000001) by (nonlinear_arith)
            requires -0xFFFFFFFF <= dy <= 0xFFFFFFFF;
    }
    let q: i128 = (dx as i128) * (dx as i128) + (dy as i128) * (dy as i128);
    if q > HEURISTIC_CAP as i128 {
        HEURISTIC_CAP
    } else {
        q as u32
    }
}

/// A path the search may hand back: it leads from `start` to `goal`, every
/// step is a valid successor step, and `goal` appears only at the end.
pub open spec fn path_valid(m: TileMap, path: Seq<Position>, start: Position, goal: Position) -> bool {
    &&& path.len() >= 1
    &&& path[0] == start
    &&& path[path.len() - 1] == goal
    &&& forall|i: int| 0 <= i < path.len() - 1
        ==> is_successor(m, #[trigger] path[i], path[i + 1], goal)
    &&& forall|i: int| 0 <= i < path.len() - 1 ==> #[trigger] path[i] != goal
}

/// Relies on pathfinding's `astar`: when it returns a path, that path starts
/// at `start`, ends at the first node passing the success test (here:
/// equality with `goal`), and every consecutive pair was produced by the
/// successors function. Relies also on its documented completeness: `None`
/// comes back exactly when no path can be found, and the search explores
/// the whole successor graph, so a result exists whenever some valid path
/// does.
#[verifier::external_body]
fn astar_search(map: &TileMap, start: Position, goal: Position) -> (r: Option<Vec<Position>>)
    requires
        map.wf(),
    ensures
        match r {
            Some(path) => path_valid(*map, path@, start, goal),
            None => !(exists|s: Seq<Position>| path_valid(*map, s, start, goal)),
        },
{
    pathfinding::prelude::astar(
        &start,
        |p: &Position| p.successors(map, &goal),
        |p: &Position| step_heuristic(p, &goal),
        |p: &Position| *p == goal,
    ).map(|(path, _cost)| path)
}

/// The planner state of one actor.
pub struct Pathfinder {
    /// Where the actor wants to go.
    pub current_goal: Position,
    /// How insistently the current goal was requested.
    pub goal_priority: Priority,
    /// Whether the current goal has yet to be reached.
    pub pending_goal: bool,
    /// The goal of the last successful search.
    pub last_goal: Position,
    /// The path of the last successful search.
    pub last_path: Vec<Position>,
    /// Next waypoint of `last_path` to walk toward.
    pub path_index: usize,
}

/// Which movement heads from `p` toward the waypoint `t`: the axis checks
/// run in the fixed order north, east, south, west; the first match wins.
pub open spec fn move_toward(t: Position, p: Position) -> crate::character::MovementInput {
    if t.y > p.y {
        crate::character::MovementInput::North
    } else if t.x > p.x {
        crate::character::MovementInput::East
    } else if t.y < p.y {
        crate::character::MovementInput::South
    } else if t.x < p.x {
        crate::character::MovementInput::West
    } else {
        crate::character::MovementInput::Idle
    }
}

/// The movement selection rule, as an executable function; see `move_toward`.
pub fn select_movement(t: Position, p: Position) -> (r: crate::character::MovementInput)
    ensures
        r == move_toward(t, p),
{
    if t.y > p.y {
        crate::character::MovementInput::North
    } else if t.x > p.x {
        crate::character::MovementInput::East
    } else if t.y < p.y {
        crate::character::MovementInput::South
    } else if t.x < p.x {
        crate::character::MovementInput::West
    } else {
        crate::character::MovementInput::Idle
    }
}

impl Pathfinder {
    /// The follow index never runs past the stored path.
    pub open spec fn wf(self) -> bool {
        self.path_index <= self.last_path@.len()
    }

    pub fn new() -> (r: Pathfinder)
        ensures
            r.wf(),
            r.current_goal == (Position { x: 0, y: 0 }),
            r.goal_priority == Priority::Low,
            !r.pending_goal,
            r.last_path@.len() == 0,
            r.path_index == 0,
    {
        Pathfinder {
            current_goal: Position { x: 0, y: 0 },
            goal_priority: Priority::Low,
            pending_goal: false,
            last_goal: Position { x: 0, y: 0 },
            last_path: Vec::new(),
            path_index: 0,
        }
    }

    /// Run a fresh search from `position` to the current goal. Whenever any
    /// valid path exists, a found path replaces the stored one and following
    /// restarts behind its first tile; only when none exists is the stale
    /// path deliberately kept.
    pub fn recompute_path(&mut self, map: &TileMap, position: Position)
        requires
            map.wf(),
            old(self).wf(),
        ensures
            final(self).wf(),
            final(self).current_goal == old(self).current_goal,
            final(self).goal_priority == old(self).goal_priority,
            final(self).pending_goal == old(self).pending_goal,
            (exists|s: Seq<Position>|
                path_valid(*map, s, position, old(self).current_goal)) ==> {
                &&& path_valid(*map, final(self).last_path@, position, old(self).current_goal)
                &&& final(self).last_goal == old(self).current_goal
                &&& final(self).path_index == 1
            },
            !(exists|s: Seq<Position>|
                path_valid(*map, s, position, old(self).current_goal)) ==> {
                &&& final(self).last_path == old(self).last_path
                &&& final(self).last_goal == old(self).last_goal
                &&& final(self).path_index == old(self).path_index
            },
    {
        match astar_search(map, position, self.current_goal) {
            Some(path) => {
                self.last_path = path;
                self.path_index = 1;
                self.last_goal = self.current_goal;
            },
            None => {},
        }
    }

    /// Walk toward the next stored waypoint: pick the movement by the fixed
    /// axis order and advance the follow index after a non-idle choice. An
    /// empty or exhausted path yields `Idle`.
    pub fn follow_path(&mut self, position: Position) -> (r: crate::character::MovementInput)
        requires
            old(self).wf(),
        ensures
            final(self).wf(),
            final(self).current_goal == old(self).current_goal,
            final(self).goal_priority == old(self).goal_priority,
            final(self).pending_goal == old(self).pending_goal,
            final(self).last_path == old(self).last_path,
            final(self).last_goal == old(self).last_goal,
            old(self).path_index < old(self).last_path@.len() ==> {
                &&& r == move_toward(old(self).last_path@[old(self).path_index as int], position)
                &&& final(self).path_index == old(self).path_index
                    + (if r is Idle { 0int } else { 1int })
            },
            old(self).path_index >= old(self).last_path@.len() ==> {
                &&& r is Idle
                &&& final(self).path_index == old(self).path_index
            },
    {
        if self.path_index < self.last_path.len() {
            let target = self.last_path[self.path_index];
            let movement = select_movement(target, position);
            if !matches!(movement, crate::character::MovementInput::Idle) {
                self.path_index = self.path_index + 1;
            }
            movement
        } else {
            crate::character::MovementInput::Idle
        }
    }

    /// One planning step: search anew toward the current goal, then follow.
    pub fn step(&mut self, map: &TileMap, position: Position) -> (r: crate::character::MovementInput)
        requires
            map.wf(),
            old(self).wf(),
        ensures
            final(self).wf(),
            step_rel(*map, *old(self), *final(self), position, r),
    {
        self.recompute_path(map, position);
        self.follow_path(position)
    }
}

/// Walking one waypoint of `path` from follow index `i0`: the movement is
/// the selection rule applied to that waypoint (or `Idle` past the end of
/// the path), and the index advances exactly on a non-idle choice.
pub open spec fn follow_rel(
    path: Seq<Position>,
    i0: int,
    position: Position,
    r: crate::character::MovementInput,
    i1: int,
) -> bool {
    if i0 < path.len() {
        r == move_toward(path[i0], position)
            && i1 == i0 + (if r is Idle { 0int } else { 1int })
    } else {
        r is Idle && i1 == i0
    }
}

/// What one planning step does: the goal fields stay put; whenever a valid
/// path to the goal exists, one replaces the stored path and the first
/// waypoint behind its start is walked; otherwise the stale path is kept
/// and walked from the old follow index.
pub open spec fn step_rel(
    m: TileMap,
    pf0: Pathfinder,
    pf1: Pathfinder,
    position: Position,
    r: crate::character::MovementInput,
) -> bool {
    &&& pf1.current_goal == pf0.current_goal
    &&& pf1.goal_priority == pf0.goal_priority
    &&& pf1.pending_goal == pf0.pending_goal
    &&& if exists|s: Seq<Position>| path_valid(m, s, position, pf0.current_goal) {
        &&& path_valid(m, pf1.last_path@, position, pf0.current_goal)
        &&& pf1.last_goal == pf0.current_goal
        &&& follow_rel(pf1.last_path@, 1, position, r, pf1.path_index as int)
    } else {
        &&& pf1.last_path == pf0.last_path
        &&& pf1.last_goal == pf0.last_goal
        &&& follow_rel(pf0.last_path@, pf0.path_index as int, position, r, pf1.path_index as int)
    }
}

/// Law of the planner: inside a path the search accepts, every tile between
/// the start and the goal is passable on the map that was searched.
pub proof fn lemma_path_interior_passable(
    m: TileMap,
    path: Seq<Position>,
    start: Position,
    goal: Position,
)
    requires
        path_valid(m, path, start, goal),
    ensures
        forall|i: int| 1 <= i < path.len() - 1 ==> passable_at(m, path[i]),
{
    assert forall|i: int| 1 <= i < path.len() - 1 implies passable_at(m, path[i]) by {
        assert(is_successor(m, path[i - 1], path[i], goal));
        assert(path[i] != goal);
    }
}

/// The one-shot action registered to run the tick the actor stands on its
/// goal.
#[derive(Debug, Clone, Copy, PartialEq, Eq, Structural)]
pub enum GoalContinuation {
    /// A mover settles: `Moving(i)` becomes `Idle` remembering to avoid
    /// wander cluster `i` next time.
    SettleIntoIdle,
}

/// A planner together with its throttle and its pending on-reach action.
pub struct PathfinderBehavior {
    pub pathfinder: Pathfinder,
    pub skip_turn: SkipTurn,
    pub reached_goal: Option<GoalContinuation>,
}

/// What a goal request leaves behind: a pending goal of strictly higher
/// priority wins over the request, anything else is replaced by it. The
/// stored path is never touched.
pub open spec fn set_goal_result(pre: Pathfinder, goal: Position, priority: Priority) -> Pathfinder {
    if pre.pending_goal && pre.goal_priority.rank() > priority.rank() {
        pre
    } else {
        Pathfinder {
            current_goal: goal,
            goal_priority: priority,
            pending_goal: true,
            last_goal: pre.last_goal,
            last_path: pre.last_path,
            path_index: pre.path_index,
        }
    }
}

/// The whole behavior after a goal request: only the planner's goal fields
/// may move.
pub open spec fn behavior_after_goal(
    pre: PathfinderBehavior,
    post: PathfinderBehavior,
    goal: Position,
    priority: Priority,
) -> bool {
    &&& post.skip_turn == pre.skip_turn
    &&& post.reached_goal == pre.reached_goal
    &&& post.pathfinder == set_goal_result(pre.pathfinder, goal, priority)
}

impl PathfinderBehavior {
    pub open spec fn wf(self) -> bool {
        self.pathfinder.wf() && self.skip_turn.wf()
    }

    pub fn new(skip: u32) -> (r: crate::map_brain::BehaviorData<PathfinderBehavior>)
        ensures
            r.behavior.wf(),
            !r.behavior.pathfinder.pending_goal,
            r.behavior.pathfinder.last_path@.len() == 0,
            r.behavior.pathfinder.path_index == 0,
            r.behavior.pathfinder.current_goal == (Position { x: 0, y: 0 }),
            r.behavior.pathfinder.goal_priority == Priority::Low,
            r.behavior.skip_turn == (SkipTurn { count: 0, skip_at: skip }),
            r.behavior.reached_goal is None,
            r.conditions@.len() == 0,
    {
        crate::map_brain::BehaviorData::new(PathfinderBehavior {
            pathfinder: Pathfinder::new(),
            skip_turn: SkipTurn { count: 0, skip_at: skip },
            reached_goal: None,
        })
    }

    /// Change the cadence and start it over.
    pub fn set_skip_turn(&mut self, skip_at: u32)
        ensures
            final(self).pathfinder == old(self).pathfinder,
            final(self).reached_goal == old(self).reached_goal,
            final(self).skip_turn == (SkipTurn { count: 0, skip_at }),
    {
        self.skip_turn.skip_at = skip_at;
        self.skip_turn.count = 0;
    }

    /// Request a goal. A pending, unreached goal of strictly higher priority
    /// wins over the request; otherwise the request replaces it.
    pub fn set_goal(&mut self, goal: Position, priority: Priority)
        ensures
            behavior_after_goal(*old(self), *final(self), goal, priority),
    {
        if self.pathfinder.pending_goal && !priority.at_least(self.pathfinder.goal_priority) {
            return;
        }
        self.pathfinder.current_goal = goal;
        self.pathfinder.goal_priority = priority;
        self.pathfinder.pending_goal = true;
    }

    /// Overwrite the goal unconditionally, dropping any pending on-reach
    /// action. The stored priority starts over at `Low`.
    pub fn force_goal(&mut self, goal: Position)
        ensures
            final(self).skip_turn == old(self).skip_turn,
            final(self).reached_goal is None,
            final(self).pathfinder.current_goal == goal,
            final(self).pathfinder.goal_priority == Priority::Low,
            final(self).pathfinder.pending_goal,
            final(self).pathfinder.last_goal == old(self).pathfinder.last_goal,
            final(self).pathfinder.last_path == old(self).pathfinder.last_path,
            final(self).pathfinder.path_index == old(self).pathfinder.path_index,
    {
        self.reached_goal = None;
        self.pathfinder.current_goal = goal;
        self.pathfinder.goal_priority = Priority::Low;
        self.pathfinder.pending_goal = true;
    }

    /// Register the one-shot action to run the tick the goal is reached.
    pub fn reach_goal(&mut self, reached_goal: GoalContinuation)
        ensures
            final(self).pathfinder == old(self).pathfinder,
            final(self).skip_turn == old(self).skip_turn,
            final(self).reached_goal == Some(reached_goal),
    {
        self.reached_goal = Some(reached_goal);
    }

    /// Whether the current goal is exactly `position`.
    pub fn is_at(&self, position: Position) -> (r: bool)
        ensures
            r == (self.pathfinder.current_goal == position),
    {
        self.pathfinder.current_goal == position
    }
}

} // verus!
