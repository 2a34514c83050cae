//! The werewolf form transition: once per tick a werewolf strikes its
//! neighbors while in beast form, counts the characters it can see, and
//! decides whether to change shape.

use vstd::prelude::*;

use crate::character::{CharacterData, Sprite, WereForm};
use crate::map_brain::{BehaviorData, CharacterBehaviorData, Cooldown, HumanState, WerewolfState};
use crate::pathfinder::{PathfinderBehavior, SkipTurn};
use crate::physics::{coord_ok, dist2, lemma_dist2_sym, MapCache, Position, Tile, TileMap};
use crate::vision::{vision_of, VISION_RADIUS_SQ};

verus! {

/// Cadence threshold while wearing the human form.
pub const HUMAN_SKIP_AT: u32 = 1;

/// Cadence threshold while wearing the beast form: a higher threshold
/// means fewer skipped turns, so the beast moves more often.
pub const WEREWOLF_SKIP_AT: u32 = 4;

/// What a werewolf looks like in each form.
pub const HUMAN_FORM_SPRITE: char = 'C';

pub const BEAST_FORM_SPRITE: char = 'W';

/// How many visible characters make a werewolf turn beast and hunt; any
/// more and it panics instead.
pub const BEAST_FORM_COUNT: u32 = 1;

/// The marker behavior of werewolf actors.
pub struct WerewolfBehavior {}

impl WerewolfBehavior {
    pub fn new() -> (r: BehaviorData<WerewolfBehavior>)
        ensures
            r.conditions@.len() == 0,
    {
        BehaviorData::new(WerewolfBehavior {})
    }
}

/// The character standing on the tile at the integer coordinates, if any.
pub open spec fn occupant_at(m: TileMap, xi: int, yi: int) -> Option<u64> {
    match m.tile_at(xi, yi) {
        Some(Tile::Ground { occupier: Some(o), .. }) => Some(o.entity),
        _ => None,
    }
}

/// Append the occupant to the strike list when there is one.
pub open spec fn push_opt(s: Seq<u64>, o: Option<u64>) -> Seq<u64> {
    match o {
        Some(e) => s.push(e),
        None => s,
    }
}

/// Who a beast's melee aura strikes: the ground occupants of the four
/// orthogonal neighbors, in the order north, east, south, west.
pub open spec fn melee_targets(m: TileMap, p: Position) -> Seq<u64> {
    push_opt(
        push_opt(
            push_opt(
                push_opt(Seq::empty(), occupant_at(m, p.x as int, p.y + 1)),
                occupant_at(m, p.x + 1, p.y as int),
            ),
            occupant_at(m, p.x as int, p.y - 1),
        ),
        occupant_at(m, p.x - 1, p.y as int),
    )
}

/// Whether a character other than the actor itself stands at `p`.
pub open spec fn char_sight(m: TileMap, p: Position, selfp: Position) -> bool {
    p != selfp && match m.tile_at_pos(p) {
        Some(t) => t.has_character(),
        None => false,
    }
}

/// How many of the first `n` cached tiles show another character.
pub open spec fn count_chars(m: TileMap, s: Seq<Position>, selfp: Position) -> nat
    decreases s.len(),
{
    if s.len() == 0 {
        0
    } else {
        count_chars(m, s.drop_last(), selfp) + if char_sight(m, s.last(), selfp) {
            1nat
        } else {
            0nat
        }
    }
}

/// Whether `t` is a visible character sighting no farther away than any
/// other.
pub open spec fn nearest_sight(m: TileMap, s: Seq<Position>, selfp: Position, t: Position) -> bool {
    &&& s.contains(t)
    &&& char_sight(m, t, selfp)
    &&& forall|i: int| 0 <= i < s.len() && char_sight(m, #[trigger] s[i], selfp)
        ==> dist2(selfp, t) <= dist2(selfp, s[i])
}

/// A pending, unreached panic goal forbids changing form.
pub open spec fn eligible_to_change(ws: WerewolfState, p: Position) -> bool {
    match ws {
        WerewolfState::Panic { target: Some(t), .. } => p == t,
        _ => true,
    }
}

/// Whether no hunt with a still-unreached quarry is underway.
pub open spec fn hunt_resolved(ws: WerewolfState, p: Position) -> bool {
    match ws {
        WerewolfState::Hunt(Some(t)) => p == t,
        _ => true,
    }
}

/// Whether no hunt with a still-unreached quarry is underway.
pub fn check(state: &WerewolfState, position: &Position) -> (r: bool)
    ensures
        r == hunt_resolved(*state, *position),
{
    if let WerewolfState::Hunt(Some(target)) = state {
        if !(position.x == target.x && position.y == target.y) {
            return false;
        }
    }
    true
}

/// The sprite worn in a form.
pub open spec fn form_sprite(form: WereForm) -> Sprite {
    match form {
        WereForm::Human => Sprite { character: HUMAN_FORM_SPRITE },
        WereForm::Beast => Sprite { character: BEAST_FORM_SPRITE },
    }
}

/// The cadence threshold of a form.
pub open spec fn form_skip_at(form: WereForm) -> u32 {
    match form {
        WereForm::Human => HUMAN_SKIP_AT,
        WereForm::Beast => WEREWOLF_SKIP_AT,
    }
}

/// The side effects of actually changing form: the actor's sprite, its
/// tile's sprite, and its cadence follow the new form; without a change
/// nothing moves.
pub open spec fn form_effects(
    changed: bool,
    form1: WereForm,
    position: Position,
    sprite0: Sprite,
    sprite1: Sprite,
    b0: PathfinderBehavior,
    b1: PathfinderBehavior,
    m0: TileMap,
    m1: TileMap,
) -> bool {
    if changed {
        &&& sprite1 == form_sprite(form1)
        &&& b1 == (PathfinderBehavior {
            pathfinder: b0.pathfinder,
            skip_turn: SkipTurn { count: 0, skip_at: form_skip_at(form1) },
            reached_goal: b0.reached_goal,
        })
        &&& forall|xi: int, yi: int| !(xi == position.x as int && yi == position.y as int)
            ==> m1.tile_at(xi, yi) == m0.tile_at(xi, yi)
        &&& m1.tile_at_pos(position) == TileMap::tile_with_sprite(
            m0.tile_at_pos(position),
            sprite1,
        )
        &&& m1.spec_size_x() == m0.spec_size_x()
        &&& m1.spec_size_y() == m0.spec_size_y()
    } else {
        sprite1 == sprite0 && b1 == b0 && m1 == m0
    }
}

/// What one evaluation of the form transition does, given the count of
/// visible characters `cc` on the refreshed vision `c1`.
pub open spec fn transition_post(
    m0: TileMap,
    m1: TileMap,
    c1: MapCache,
    position: Position,
    cd0: CharacterData,
    cd1: CharacterData,
    cbd0: CharacterBehaviorData,
    cbd1: CharacterBehaviorData,
    sprite0: Sprite,
    sprite1: Sprite,
    b0: PathfinderBehavior,
    b1: PathfinderBehavior,
) -> bool {
    match (cd0, cbd0) {
        (
            CharacterData::Werewolf { form: form0 },
            CharacterBehaviorData::Werewolf { werewolf_state: ws0, human_state: hs0 },
        ) => {
            let cc = count_chars(m0, c1.seen_seq(), position);
            if !eligible_to_change(ws0, position) {
                cd1 == cd0 && cbd1 == cbd0 && sprite1 == sprite0 && b1 == b0 && m1 == m0
            } else if cc == 1 {
                exists|t: Position| {
                    &&& #[trigger] nearest_sight(m0, c1.seen_seq(), position, t)
                    &&& cbd1 == (CharacterBehaviorData::Werewolf {
                        werewolf_state: WerewolfState::Hunt(Some(t)),
                        human_state: hs0,
                    })
                    &&& cd1 == (CharacterData::Werewolf { form: WereForm::Beast })
                    &&& form_effects(
                        form0 != WereForm::Beast,
                        WereForm::Beast,
                        position,
                        sprite0,
                        sprite1,
                        b0,
                        b1,
                        m0,
                        m1,
                    )
                }
            } else if cc > 1 {
                &&& cd1 == (CharacterData::Werewolf { form: WereForm::Beast })
                &&& match cbd1 {
                    CharacterBehaviorData::Werewolf {
                        werewolf_state: WerewolfState::Panic {
                            target: None,
                            exclude_target_index: None,
                            enemies,
                            calm_cooldown: cc1,
                        },
                        human_state: hs1,
                    } => {
                        &&& cc1.0 == 0
                        &&& hs1 == hs0
                        &&& forall|i: int| 0 <= i < enemies@.len()
                            ==> char_sight(m0, #[trigger] enemies@[i], position)
                                && c1.seen_seq().contains(enemies@[i])
                        &&& forall|p: Position| c1.seen_seq().contains(p)
                            && char_sight(m0, p, position) ==> enemies@.contains(p)
                        &&& forall|i: int, j: int| 0 <= i < j < enemies@.len()
                            ==> enemies@[i] != enemies@[j]
                    },
                    _ => false,
                }
                &&& form_effects(
                    form0 != WereForm::Beast,
                    WereForm::Beast,
                    position,
                    sprite0,
                    sprite1,
                    b0,
                    b1,
                    m0,
                    m1,
                )
            } else if hunt_resolved(ws0, position) {
                &&& cbd1 == (CharacterBehaviorData::Werewolf {
                    werewolf_state: WerewolfState::Hunt(None),
                    human_state: if form0 != WereForm::Human {
                        HumanState::Idle(None)
                    } else {
                        hs0
                    },
                })
                &&& cd1 == (CharacterData::Werewolf { form: WereForm::Human })
                &&& form_effects(
                    form0 != WereForm::Human,
                    WereForm::Human,
                    position,
                    sprite0,
                    sprite1,
                    b0,
                    b1,
                    m0,
                    m1,
                )
            } else {
                cd1 == cd0 && cbd1 == cbd0 && sprite1 == sprite0 && b1 == b0 && m1 == m0
            }
        },
        _ => cd1 == cd0 && cbd1 == cbd0 && sprite1 == sprite0 && b1 == b0 && m1 == m0,
    }
}

/// Collect the strike list of a beast at `position`.
fn collect_melee(map: &TileMap, position: Position) -> (r: Vec<u64>)
    requires
        map.wf(),
        coord_ok(position),
    ensures
        r@ == melee_targets(*map, position),
{
    let mut r: Vec<u64> = Vec::new();
    match map.at_pos(Position { x: position.x, y: position.y + 1 }) {
        Some(Tile::Ground { occupier: Some(o), .. }) => r.push(o.entity),
        _ => {},
    }
    match map.at_pos(Position { x: position.x + 1, y: position.y }) {
        Some(Tile::Ground { occupier: Some(o), .. }) => r.push(o.entity),
        _ => {},
    }
    match map.at_pos(Position { x: position.x, y: position.y - 1 }) {
        Some(Tile::Ground { occupier: Some(o), .. }) => r.push(o.entity),
        _ => {},
    }
    match map.at_pos(Position { x: position.x - 1, y: position.y }) {
        Some(Tile::Ground { occupier: Some(o), .. }) => r.push(o.entity),
        _ => {},
    }
    r
}

/// One evaluation of the werewolf form transition for the actor at
/// `position`. While in beast form the four orthogonal neighbors are
/// struck: the returned list holds the handles of the actors owed one
/// point of damage. The vision cache is refilled from `position`.
pub fn werewolf_update(
    map: &mut TileMap,
    map_cache: &mut MapCache,
    character_data: &mut CharacterData,
    character_behavior_data: &mut CharacterBehaviorData,
    sprite: &mut Sprite,
    position: Position,
    behavior: &mut PathfinderBehavior,
) -> (melee: Vec<u64>)
    requires
        old(map).wf(),
        old(map_cache).wf(),
        coord_ok(position),
    ensures
        final(map).wf(),
        final(map_cache).wf(),
        melee@ == match *old(character_data) {
            CharacterData::Werewolf { form: WereForm::Beast } => melee_targets(*old(map), position),
            _ => Seq::<u64>::empty(),
        },
        match *old(character_data) {
            CharacterData::Werewolf { .. } => match *old(character_behavior_data) {
                CharacterBehaviorData::Werewolf { .. } => vision_of(
                    *old(map),
                    position,
                    *final(map_cache),
                ) && transition_post(
                    *old(map),
                    *final(map),
                    *final(map_cache),
                    position,
                    *old(character_data),
                    *final(character_data),
                    *old(character_behavior_data),
                    *final(character_behavior_data),
                    *old(sprite),
                    *final(sprite),
                    *old(behavior),
                    *final(behavior),
                ),
                _ => *final(character_behavior_data) == *old(character_behavior_data)
                    && *final(character_data) == *old(character_data)
                    && *final(sprite) == *old(sprite)
                    && *final(behavior) == *old(behavior)
                    && *final(map) == *old(map),
            },
            _ => *final(character_behavior_data) == *old(character_behavior_data)
                && *final(character_data) == *old(character_data)
                && *final(sprite) == *old(sprite)
                && *final(behavior) == *old(behavior)
                && *final(map) == *old(map),
        },
{
    let ghost m0 = *map;
    let beast: bool;
    match character_data {
        CharacterData::Werewolf { form } => {
            beast = matches!(form, WereForm::Beast);
        },
        _ => {
            return Vec::new();
        },
    }
    let melee = if beast {
        collect_melee(map, position)
    } else {
        Vec::new()
    };
    let is_werewolf_state = matches!(character_behavior_data, CharacterBehaviorData::Werewolf { .. });
    if !is_werewolf_state {
        return melee;
    }
    // scan the visible tiles for other characters
    map.get_in_vision(map_cache, position);
    let mut character_count: usize = 0;
    let mut enemies: Vec<Position> = Vec::new();
    let mut nearest_target: Option<Position> = None;
    let mut nearest_dist: u32 = 0;
    let n = map_cache.len();
    let ghost seen = map_cache.seen_seq();
    let mut i: usize = 0;
    while i < n
        invariant
            i <= n,
            map.wf(),
            *map == m0,
            map_cache.wf(),
            coord_ok(position),
            seen == map_cache.seen_seq(),
            n == seen.len(),
            forall|p: Position| map_cache.sees(p) ==> dist2(p, position) < VISION_RADIUS_SQ,
            character_count <= i,
            character_count == count_chars(m0, seen.take(i as int), position),
            forall|k: int| 0 <= k < enemies@.len()
                ==> char_sight(m0, #[trigger] enemies@[k], position)
                    && seen.take(i as int).contains(enemies@[k]),
            forall|j: int| 0 <= j < i && char_sight(m0, #[trigger] seen[j], position)
                ==> enemies@.contains(seen[j]),
            forall|k: int, l: int| 0 <= k < l < enemies@.len()
                ==> enemies@[k] != enemies@[l],
            match nearest_target {
                Some(t) => {
                    &&& seen.contains(t)
                    &&& char_sight(m0, t, position)
                    &&& nearest_dist == dist2(position, t)
                    &&& forall|j: int| 0 <= j < i && char_sight(m0, #[trigger] seen[j], position)
                        ==> dist2(position, t) <= dist2(position, seen[j])
                },
                None => forall|j: int| 0 <= j < i
                    ==> !char_sight(m0, #[trigger] seen[j], position),
            },
        decreases n - i,
    {
        let p = map_cache.nth(i);
        let mut sight = false;
        if !(p.x == position.x && p.y == position.y) {
            match map.at_pos(p) {
                Some(t) => {
                    sight = t.is_character();
                },
                None => {},
            }
        }
        proof {
            map_cache.lemma_distinct();
            assert(seen.take(i + 1).drop_last() == seen.take(i as int));
            assert(seen.take(i + 1).last() == seen[i as int]);
            assert(seen.contains(seen[i as int]));
            assert(sight == char_sight(m0, p, position));
        }
        if sight {
            character_count = character_count + 1;
            proof {
                assert(forall|k: int| 0 <= k < i ==> seen.take(i as int)[k] == seen[k]);
                assert(map_cache.sees(p));
                lemma_dist2_sym(p, position);
            }
            let d = position.distance(&p);
            let better = match nearest_target {
                Some(_) => d < nearest_dist,
                None => true,
            };
            if better {
                nearest_target = Some(p);
                nearest_dist = d;
            }
            let ghost enemies_pre = enemies@;
            enemies.push(p);
            proof {
                assert(enemies@[enemies@.len() - 1] == p);
                assert forall|k: int| 0 <= k < enemies_pre.len()
                    implies enemies@.contains(enemies_pre[k]) by {
                    assert(enemies@[k] == enemies_pre[k]);
                }
                assert forall|k: int, l: int| 0 <= k < l < enemies@.len()
                    implies enemies@[k] != enemies@[l] by {
                    if l == enemies@.len() - 1 {
                        let kp = choose|kp: int| 0 <= kp < seen.take(i as int).len()
                            && seen.take(i as int)[kp] == enemies_pre[k];
                        assert(seen[kp] == enemies_pre[k]);
                        assert(seen[kp] != seen[i as int]);
                    }
                }
                assert forall|j: int| 0 <= j < i + 1 && char_sight(m0, #[trigger] seen[j], position)
                    implies enemies@.contains(seen[j]) by {
                    if j < i {
                        let kp = choose|kp: int| 0 <= kp < enemies_pre.len()
                            && enemies_pre[kp] == seen[j];
                        assert(enemies@[kp] == seen[j]);
                    } else {
                        assert(enemies@[enemies@.len() - 1] == seen[j]);
                    }
                }
                assert forall|k: int| 0 <= k < enemies@.len()
                    implies char_sight(m0, #[trigger] enemies@[k], position)
                        && seen.take(i + 1).contains(enemies@[k]) by {
                    if k < enemies_pre.len() {
                        let kp = choose|kp: int| 0 <= kp < seen.take(i as int).len()
                            && seen.take(i as int)[kp] == enemies_pre[k];
                        assert(seen.take(i + 1)[kp] == enemies@[k]);
                    } else {
                        assert(seen.take(i + 1)[i as int] == p);
                    }
                }
            }
        }
        i = i + 1;
    }
    proof {
        assert(seen.take(n as int) == seen);
    }
    // decide the next form
    let mut taken = CharacterBehaviorData::default_human();
    core::mem::swap(character_behavior_data, &mut taken);
    let (werewolf_state, human_state) = match taken {
        CharacterBehaviorData::Werewolf { werewolf_state, human_state } => (
            werewolf_state,
            human_state,
        ),
        other => {
            *character_behavior_data = other;
            proof {
                assert(false);
            }
            return melee;
        },
    };
    let can_change = match &werewolf_state {
        WerewolfState::Panic { target: Some(t), .. } => position.x == t.x && position.y == t.y,
        _ => true,
    };
    if !can_change {
        *character_behavior_data = CharacterBehaviorData::Werewolf { werewolf_state, human_state };
        return melee;
    }
    if character_count == 1 {
        match nearest_target {
            Some(t) => {
                proof {
                    assert(nearest_sight(m0, map_cache.seen_seq(), position, t));
                }
                if !beast {
                    *character_data = CharacterData::Werewolf { form: WereForm::Beast };
                    *sprite = Sprite { character: BEAST_FORM_SPRITE };
                    map.set_occupant_sprite(position, *sprite);
                    behavior.set_skip_turn(WEREWOLF_SKIP_AT);
                }
                *character_behavior_data = CharacterBehaviorData::Werewolf {
                    werewolf_state: WerewolfState::Hunt(Some(t)),
                    human_state,
                };
            },
            None => {
                proof {
                    lemma_count_chars_none(m0, seen, position);
                }
                *character_behavior_data = CharacterBehaviorData::Werewolf {
                    werewolf_state,
                    human_state,
                };
            },
        }
    } else if character_count > 1 {
        if !beast {
            *character_data = CharacterData::Werewolf { form: WereForm::Beast };
            *sprite = Sprite { character: BEAST_FORM_SPRITE };
            map.set_occupant_sprite(position, *sprite);
            behavior.set_skip_turn(WEREWOLF_SKIP_AT);
        }
        *character_behavior_data = CharacterBehaviorData::Werewolf {
            werewolf_state: WerewolfState::Panic {
                target: None,
                exclude_target_index: None,
                enemies,
                calm_cooldown: Cooldown(0),
            },
            human_state,
        };
    } else {
        let resolved = check(&werewolf_state, &position);
        if resolved {
            if beast {
                *character_data = CharacterData::Werewolf { form: WereForm::Human };
                *sprite = Sprite { character: HUMAN_FORM_SPRITE };
                map.set_occupant_sprite(position, *sprite);
                behavior.set_skip_turn(HUMAN_SKIP_AT);
                *character_behavior_data = CharacterBehaviorData::Werewolf {
                    werewolf_state: WerewolfState::Hunt(None),
                    human_state: HumanState::Idle(None),
                };
            } else {
                *character_behavior_data = CharacterBehaviorData::Werewolf {
                    werewolf_state: WerewolfState::Hunt(None),
                    human_state,
                };
            }
        } else {
            *character_behavior_data = CharacterBehaviorData::Werewolf {
                werewolf_state,
                human_state,
            };
        }
    }
    melee
}

/// A run of sightings with no character in it counts none.
proof fn lemma_count_chars_none(m: TileMap, s: Seq<Position>, selfp: Position)
    requires
        forall|j: int| 0 <= j < s.len() ==> !char_sight(m, #[trigger] s[j], selfp),
    ensures
        count_chars(m, s, selfp) == 0,
    decreases s.len(),
{
    if s.len() > 0 {
        lemma_count_chars_none(m, s.drop_last(), selfp);
    }
}

} // verus!
