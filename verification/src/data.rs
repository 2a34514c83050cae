//! Static pathfinder configuration, loaded once and shared read-only by all
//! actors: wander-point clusters, per-faction hiding-point clusters, and the
//! krill-theater exit tiles.

use vstd::prelude::*;

use rand::Rng;

use crate::physics::{coord_ok, dist2, lemma_dist2_bounded, Position};

verus! {

/// Relies on rand's thread-local generator: `gen_range(0..n)` returns a
/// value of that range and panics only when the range is empty. Nothing
/// more is assumed of the value.
#[verifier::external_body]
pub(crate) fn random_below(n: usize) -> (r: usize)
    requires
        n > 0,
    ensures
        r < n,
{
    rand::thread_rng().gen_range(0..n)
}

/// A family of point clusters: every cluster is non-empty and all of its
/// points have small coordinates.
pub open spec fn clusters_wf(clusters: Seq<Seq<Position>>) -> bool {
    &&& clusters.len() > 0
    &&& forall|i: int| 0 <= i < clusters.len() ==> clusters[i].len() > 0
    &&& forall|i: int, j: int| 0 <= i < clusters.len() && 0 <= j < clusters[i].len()
        ==> coord_ok(clusters[i][j])
}

/// Which cluster indices a hiding-point selection may pick: every index,
/// except the excluded one whenever skipping it still leaves a choice.
pub open spec fn hiding_candidate(
    clusters: Seq<Seq<Position>>,
    exclude: Option<usize>,
    j: int,
) -> bool {
    &&& 0 <= j < clusters.len()
    &&& match exclude {
        Some(e) => clusters.len() <= 1 || j != e,
        None => true,
    }
}

/// What `select_hiding` promises of its result `(point, index)`.
pub open spec fn hiding_choice_ok(
    clusters: Seq<Seq<Position>>,
    friendly: Position,
    enemy: Option<Position>,
    exclude: Option<usize>,
    point: Position,
    index: int,
) -> bool {
    &&& hiding_candidate(clusters, exclude, index)
    &&& clusters[index].contains(point)
    &&& match enemy {
        // Flee: the chosen cluster is at least as far from the enemy as
        // any other candidate cluster.
        Some(e) => forall|j: int| hiding_candidate(clusters, exclude, j)
            ==> dist2(clusters[j][0], e) <= dist2(clusters[index][0], e),
        // No enemy recorded: retreat to the nearest candidate cluster.
        None => forall|j: int| hiding_candidate(clusters, exclude, j)
            ==> dist2(clusters[j][0], friendly) >= dist2(clusters[index][0], friendly),
    }
}

/// Pick a hiding cluster for an actor at `friendly`: the candidate cluster
/// farthest from `enemy` when one is given, else the candidate cluster
/// nearest to the actor; then a random point of that cluster.
fn select_hiding(
    clusters: &Vec<Vec<Position>>,
    friendly: Position,
    enemy: Option<Position>,
    exclude: Option<usize>,
) -> (r: (Position, usize))
    requires
        clusters_wf(clusters@.map_values(|v: Vec<Position>| v@)),
        coord_ok(friendly),
        match enemy {
            Some(e) => coord_ok(e),
            None => true,
        },
    ensures
        hiding_choice_ok(
            clusters@.map_values(|v: Vec<Position>| v@),
            friendly,
            enemy,
            exclude,
            r.0,
            r.1 as int,
        ),
{
    let ghost spec_clusters = clusters@.map_values(|v: Vec<Position>| v@);
    let reference = match enemy {
        Some(e) => e,
        None => friendly,
    };
    let mut best: usize = 0;
    let mut best_set = false;
    let mut best_dist: u32 = 0;
    let mut j: usize = 0;
    while j < clusters.len()
        invariant
            j <= clusters@.len(),
            clusters_wf(spec_clusters),
            spec_clusters == clusters@.map_values(|v: Vec<Position>| v@),
            coord_ok(friendly),
            match enemy {
                Some(e) => coord_ok(e) && reference == e,
                None => reference == friendly,
            },
            best_set ==> hiding_candidate(spec_clusters, exclude, best as int)
                && best < j
                && best_dist == dist2(spec_clusters[best as int][0], reference),
            best_set ==> forall|k: int| 0 <= k < j && hiding_candidate(spec_clusters, exclude, k)
                ==> match enemy {
                    Some(_) => dist2(spec_clusters[k][0], reference) <= best_dist,
                    None => dist2(spec_clusters[k][0], reference) >= best_dist,
                },
            !best_set ==> forall|k: int| 0 <= k < j ==> !hiding_candidate(spec_clusters, exclude, k),
        decreases clusters@.len() - j,
    {
        let allowed = match exclude {
            Some(e) => clusters.len() <= 1 || j != e,
            None => true,
        };
        if allowed {
            proof {
                lemma_dist2_bounded(spec_clusters[j as int][0], reference);
            }
            let d = clusters[j][0].distance(&reference);
            let better = if !best_set {
                true
            } else {
                match enemy {
                    Some(_) => d > best_dist,
                    None => d < best_dist,
                }
            };
            if better {
                best = j;
                best_dist = d;
                best_set = true;
            }
        }
        j = j + 1;
    }
    proof {
        if exclude is Some && spec_clusters.len() > 1 {
            let e = exclude->0;
            let w: int = if e == 0 { 1 } else { 0 };
            assert(hiding_candidate(spec_clusters, exclude, w));
        } else {
            assert(hiding_candidate(spec_clusters, exclude, 0));
        }
    }
    let cluster_len = clusters[best].len();
    let pick = random_below(cluster_len);
    let point = clusters[best][pick];
    proof {
        assert(spec_clusters[best as int].contains(point));
    }
    (point, best)
}

/// Hiding configuration for human-faction actors.
pub struct HumanPathfinderGlobalData {
    hiding_points: Vec<Vec<Position>>,
}

impl HumanPathfinderGlobalData {
    /// The hiding clusters, by index.
    pub closed spec fn clusters(self) -> Seq<Seq<Position>> {
        self.hiding_points@.map_values(|v: Vec<Position>| v@)
    }

    pub open spec fn wf(self) -> bool {
        clusters_wf(self.clusters())
    }

    pub fn new(hiding_points: Vec<Vec<Position>>) -> (r: HumanPathfinderGlobalData)
        requires
            clusters_wf(hiding_points@.map_values(|v: Vec<Position>| v@)),
        ensures
            r.wf(),
            r.clusters() == hiding_points@.map_values(|v: Vec<Position>| v@),
    {
        HumanPathfinderGlobalData { hiding_points }
    }

    /// Choose a hiding point for an actor at `friendly`; see `hiding_choice_ok`.
    pub fn panic_point(
        &self,
        friendly: Position,
        enemy: Option<Position>,
        exclude: Option<usize>,
    ) -> (r: (Position, usize))
        requires
            self.wf(),
            coord_ok(friendly),
            match enemy {
                Some(e) => coord_ok(e),
                None => true,
            },
        ensures
            hiding_choice_ok(self.clusters(), friendly, enemy, exclude, r.0, r.1 as int),
    {
        select_hiding(&self.hiding_points, friendly, enemy, exclude)
    }
}

/// Hiding configuration for the werewolf faction.
pub struct WerewolfPathfinderGlobalData {
    hiding_points: Vec<Vec<Position>>,
}

impl WerewolfPathfinderGlobalData {
    /// The hiding clusters, by index.
    pub closed spec fn clusters(self) -> Seq<Seq<Position>> {
        self.hiding_points@.map_values(|v: Vec<Position>| v@)
    }

    pub open spec fn wf(self) -> bool {
        clusters_wf(self.clusters())
    }

    pub fn new(hiding_points: Vec<Vec<Position>>) -> (r: WerewolfPathfinderGlobalData)
        requires
            clusters_wf(hiding_points@.map_values(|v: Vec<Position>| v@)),
        ensures
            r.wf(),
            r.clusters() == hiding_points@.map_values(|v: Vec<Position>| v@),
    {
        WerewolfPathfinderGlobalData { hiding_points }
    }

    /// Choose a hiding point for an actor at `friendly`; see `hiding_choice_ok`.
    pub fn panic_point(
        &self,
        friendly: Position,
        enemy: Option<Position>,
        exclude: Option<usize>,
    ) -> (r: (Position, usize))
        requires
            self.wf(),
            coord_ok(friendly),
            match enemy {
                Some(e) => coord_ok(e),
                None => true,
            },
        ensures
            hiding_choice_ok(self.clusters(), friendly, enemy, exclude, r.0, r.1 as int),
    {
        select_hiding(&self.hiding_points, friendly, enemy, exclude)
    }
}

/// The whole static configuration.
pub struct PathfinderGlobalData {
    points: Vec<Vec<Position>>,
    krill_exit_points: Vec<Position>,
    human: HumanPathfinderGlobalData,
    werewolf: WerewolfPathfinderGlobalData,
}

impl PathfinderGlobalData {
    /// The human-faction hiding configuration.
    pub closed spec fn human_data(self) -> HumanPathfinderGlobalData {
        self.human
    }

    /// The werewolf-faction hiding configuration.
    pub closed spec fn werewolf_data(self) -> WerewolfPathfinderGlobalData {
        self.werewolf
    }

    pub fn human(&self) -> (r: &HumanPathfinderGlobalData)
        ensures
            *r == self.human_data(),
    {
        &self.human
    }

    pub fn werewolf(&self) -> (r: &WerewolfPathfinderGlobalData)
        ensures
            *r == self.werewolf_data(),
    {
        &self.werewolf
    }

    /// The wander-point clusters, by index.
    pub closed spec fn clusters(self) -> Seq<Seq<Position>> {
        self.points@.map_values(|v: Vec<Position>| v@)
    }

    /// The krill-theater exit tiles.
    pub closed spec fn exits(self) -> Seq<Position> {
        self.krill_exit_points@
    }

    pub open spec fn wf(self) -> bool {
        &&& self.clusters().len() > 0
        &&& forall|i: int| 0 <= i < self.clusters().len() ==> self.clusters()[i].len() > 0
        &&& self.human_data().wf()
        &&& self.werewolf_data().wf()
    }

    pub fn new(
        points: Vec<Vec<Position>>,
        krill_exit_points: Vec<Position>,
        human: HumanPathfinderGlobalData,
        werewolf: WerewolfPathfinderGlobalData,
    ) -> (r: PathfinderGlobalData)
        requires
            points@.len() > 0,
            forall|i: int| 0 <= i < points@.len() ==> points@[i]@.len() > 0,
            human.wf(),
            werewolf.wf(),
        ensures
            r.wf(),
            r.clusters() == points@.map_values(|v: Vec<Position>| v@),
            r.exits() == krill_exit_points@,
            r.human_data() == human,
            r.werewolf_data() == werewolf,
    {
        let r = PathfinderGlobalData { points, krill_exit_points, human, werewolf };
        proof {
            assert forall|i: int| 0 <= i < r.clusters().len()
                implies r.clusters()[i].len() > 0 by {
                assert(r.clusters()[i] == r.points@[i]@);
            }
        }
        r
    }

    /// A wander objective: a random point of a random cluster, returned with
    /// the cluster's index.
    pub fn wander_point(&self) -> (r: (Position, usize))
        requires
            self.wf(),
        ensures
            r.1 < self.clusters().len(),
            self.clusters()[r.1 as int].contains(r.0),
    {
        let i0 = random_below(self.points.len());
        proof {
            assert(self.clusters()[i0 as int] == self.points@[i0 as int]@);
        }
        let i1 = random_below(self.points[i0].len());
        let p = self.points[i0][i1];
        (p, i0)
    }

    /// A wander objective avoiding the given cluster whenever another
    /// cluster exists.
    pub fn wander_point_except(&self, exclude: usize) -> (r: (Position, usize))
        requires
            self.wf(),
        ensures
            r.1 < self.clusters().len(),
            self.clusters().len() > 1 ==> r.1 != exclude,
            self.clusters()[r.1 as int].contains(r.0),
    {
        let len = self.points.len();
        let mut i0 = random_below(len);
        if i0 == exclude && len > 1 {
            if i0 == len - 1 {
                i0 = 0;
            } else {
                i0 = i0 + 1;
            }
        }
        proof {
            assert(self.clusters()[i0 as int] == self.points@[i0 as int]@);
        }
        let i1 = random_below(self.points[i0].len());
        let p = self.points[i0][i1];
        (p, i0)
    }

    /// Whether `position` is one of the krill-theater exit tiles.
    pub fn is_krill_exit(&self, position: &Position) -> (r: bool)
        ensures
            r == self.exits().contains(*position),
    {
        let mut i: usize = 0;
        while i < self.krill_exit_points.len()
            invariant
                i <= self.krill_exit_points@.len(),
                forall|j: int| 0 <= j < i ==> self.krill_exit_points@[j] != *position,
            decreases self.krill_exit_points@.len() - i,
        {
            if self.krill_exit_points[i] == *position {
                return true;
            }
            i = i + 1;
        }
        false
    }

    /// Debugging aid: which kind of configured point sits at `position`,
    /// `'0'` for a wander point, `'e'` for an exit tile.
    pub fn contains_point(&self, position: Position) -> (r: Option<char>)
        ensures
            r == if exists|i: int, j: int| 0 <= i < self.clusters().len()
                    && 0 <= j < self.clusters()[i].len()
                    && self.clusters()[i][j] == position {
                Some('0')
            } else if self.exits().contains(position) {
                Some('e')
            } else {
                Option::<char>::None
            },
    {
        let mut i: usize = 0;
        while i < self.points.len()
            invariant
                i <= self.points@.len(),
                forall|k: int, j: int| 0 <= k < i && 0 <= j < self.clusters()[k].len()
                    ==> self.clusters()[k][j] != position,
            decreases self.points@.len() - i,
        {
            let cluster = &self.points[i];
            let mut j: usize = 0;
            while j < cluster.len()
                invariant
                    j <= cluster@.len(),
                    cluster@ == self.clusters()[i as int],
                    i < self.points@.len(),
                    forall|k: int| 0 <= k < j ==> self.clusters()[i as int][k] != position,
                decreases cluster@.len() - j,
            {
                if cluster[j] == position {
                    return Some('0');
                }
                j = j + 1;
            }
            i = i + 1;
        }
        if self.is_krill_exit(&position) {
            Some('e')
        } else {
            None
        }
    }
}

} // verus!
