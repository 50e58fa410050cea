//! The AI decision maker: on the monsters' turn, each monster either attacks
//! an adjacent player, walks one step along a path toward a visible player,
//! or stands still.
//!
//! Shortest-path search is an external service handed in as a function over
//! the map, so the decisions are verified for every answer the service can
//! give. A monster that moves migrates its cell's blocked flag with it, so
//! that two monsters cannot walk into each other within the same pass.

use vstd::prelude::*;
use crate::components::Position;
use crate::components::Viewshed;
use crate::components::WantsToMelee;
use crate::game_map::GameMap;
use crate::state::RunState;
use crate::world::World;

verus! {

/// Two cells within Euclidean distance 1.5 of each other: on an integer
/// grid that is exactly a one-step box, diagonals included.
pub open spec fn adjacent(a: Position, b: Position) -> bool {
    &&& -1 <= a.x - b.x <= 1
    &&& -1 <= a.y - b.y <= 1
}

/// `s` lists the cell `p`.
pub open spec fn contains_pos(s: Seq<Position>, p: Position) -> bool {
    exists|j: int| 0 <= j < s.len() && s[j] == p
}

/// Entity `e` acts in the AI pass: a live monster with a viewshed and a
/// position.
pub open spec fn is_monster_actor(w: World, e: int) -> bool {
    &&& 0 <= e < w.num_entities()
    &&& w.alive@[e]
    &&& w.monsters@[e] is Some
    &&& w.viewsheds@[e] is Some
    &&& w.positions@[e] is Some
}

/// The stored player position is inside monster `e`'s visible set.
pub open spec fn monster_sees_player(w: World, e: int) -> bool {
    contains_pos(w.viewsheds@[e]->Some_0.visible_tiles@, w.player_pos)
}

/// The cell index monster `e` stands on.
pub open spec fn monster_start(w: World, e: int) -> int {
    w.map.idx_of(w.positions@[e]->Some_0.x as int, w.positions@[e]->Some_0.y as int)
}

/// The cell index of the stored player position.
pub open spec fn player_goal(w: World) -> int {
    w.map.idx_of(w.player_pos.x as int, w.player_pos.y as int)
}

/// The coordinates of cell index `s`.
pub open spec fn decode_pos(m: GameMap, s: int) -> Position {
    Position { x: (s % (m.width as int)) as i32, y: (s / (m.width as int)) as i32 }
}

/// Monster `e` may ask for a path this pass: not adjacent to the player, but
/// the player is visible to it.
pub open spec fn ai_walker(w: World, e: int) -> bool {
    &&& is_monster_actor(w, e)
    &&& !adjacent(w.positions@[e]->Some_0, w.player_pos)
    &&& monster_sees_player(w, e)
}

/// `b` is `a` with its dirty flag raised: same range, same visible cells.
pub open spec fn dirtied(a: Option<Viewshed>, b: Option<Viewshed>) -> bool {
    &&& a is Some
    &&& b is Some
    &&& b->Some_0.range == a->Some_0.range
    &&& b->Some_0.visible_tiles@ == a->Some_0.visible_tiles@
    &&& b->Some_0.dirty == true
}

/// Monster `k` took one step this pass, ending with position `pos_after`
/// and viewshed `vs_after`: some answer of the path service, queried from
/// `k`'s cell to the player's cell over some map state, was a success with
/// at least one intermediate step landing on the map, and `k` now stands on
/// that step with its viewshed marked dirty.
pub open spec fn walker_stepped<G: Fn(&GameMap, usize, usize) -> (bool, Vec<usize>)>(
    path: G,
    pre: World,
    pos_after: Option<Position>,
    vs_after: Option<Viewshed>,
    k: int,
) -> bool {
    exists|m: GameMap, steps: Vec<usize>|
        {
            &&& #[trigger] call_ensures(
                path,
                (&m, monster_start(pre, k) as usize, player_goal(pre) as usize),
                (true, steps),
            )
            &&& steps@.len() > 1
            &&& (steps@[1] as int) < pre.map.tiles@.len()
            &&& pos_after == Some(decode_pos(pre.map, steps@[1] as int))
            &&& dirtied(pre.viewsheds@[k], vs_after)
        }
}

/// Monster `k` took one step this pass (stated over the post world).
pub open spec fn moved_along<G: Fn(&GameMap, usize, usize) -> (bool, Vec<usize>)>(
    path: G,
    pre: World,
    post: World,
    k: int,
) -> bool {
    walker_stepped(path, pre, post.positions@[k], post.viewsheds@[k], k)
}

/// What the pass's only walker owes to the answer `(success, steps)` the
/// path service actually gave for its query: a successful route with an
/// on-map first intermediate step forces the move — the monster stands on
/// `steps[1]`, its viewshed is dirtied, and its blocked flag migrates from
/// its old cell to the step — and any other answer forces standing still
/// with position, viewshed and blocked flags unchanged.
pub open spec fn lone_walk_outcome(
    pre: World,
    post: World,
    k: int,
    success: bool,
    steps: Vec<usize>,
) -> bool {
    if success && steps@.len() > 1 && (steps@[1] as int) < pre.map.tiles@.len() {
        &&& post.positions@[k] == Some(decode_pos(pre.map, steps@[1] as int))
        &&& dirtied(pre.viewsheds@[k], post.viewsheds@[k])
        &&& post.map.blocked@ == pre.map.blocked@.update(monster_start(pre, k), false).update(
            steps@[1] as int,
            true,
        )
    } else {
        &&& post.positions@[k] == pre.positions@[k]
        &&& post.viewsheds@[k] == pre.viewsheds@[k]
        &&& post.map.blocked@ == pre.map.blocked@
    }
}

/// What one run of the AI decision maker does. Outside the monsters' turn
/// nothing happens. Otherwise every live monster with a viewshed and a
/// position acts on the pre-pass state: adjacent to the player it queues a
/// melee intent against the player and stays put; a non-adjacent monster
/// that sees the player either stands still or takes one step along a
/// successful path answer; one that cannot see the player does nothing.
/// Blocked flags change only on cells a stepping monster left or entered.
/// When exactly one monster walks, its fate is decided by the service's
/// actual answer to its query over the pass-entry map: a successful on-map
/// route forces the move, anything else forces standing still.
pub open spec fn ai_effect<G: Fn(&GameMap, usize, usize) -> (bool, Vec<usize>)>(
    path: G,
    pre: World,
    post: World,
) -> bool {
    if pre.run_state != RunState::MonsterTurn {
        post == pre
    } else {
        &&& post == (World {
            map: post.map,
            positions: post.positions,
            viewsheds: post.viewsheds,
            melee_intents: post.melee_intents,
            ..pre
        })
        &&& post.map == (GameMap { blocked: post.map.blocked, ..pre.map })
        &&& post.map.blocked@.len() == pre.map.blocked@.len()
        &&& post.positions@.len() == pre.num_entities()
        &&& post.viewsheds@.len() == pre.num_entities()
        &&& post.melee_intents@.len() == pre.num_entities()
        &&& forall|k: int|
            0 <= k < pre.num_entities() && !is_monster_actor(pre, k) ==> post.positions@[k]
                == pre.positions@[k] && post.viewsheds@[k] == pre.viewsheds@[k]
                && post.melee_intents@[k] == pre.melee_intents@[k]
        &&& forall|k: int|
            #[trigger] is_monster_actor(pre, k) && adjacent(
                pre.positions@[k]->Some_0,
                pre.player_pos,
            ) ==> post.melee_intents@[k] == Some(
                WantsToMelee { target: pre.player_entity },
            ) && post.positions@[k] == pre.positions@[k] && post.viewsheds@[k]
                == pre.viewsheds@[k]
        &&& forall|k: int|
            #[trigger] is_monster_actor(pre, k) && !adjacent(
                pre.positions@[k]->Some_0,
                pre.player_pos,
            ) ==> post.melee_intents@[k] == pre.melee_intents@[k]
        &&& forall|k: int|
            #[trigger] is_monster_actor(pre, k) && !adjacent(
                pre.positions@[k]->Some_0,
                pre.player_pos,
            ) && !monster_sees_player(pre, k) ==> post.positions@[k] == pre.positions@[k]
                && post.viewsheds@[k] == pre.viewsheds@[k]
        &&& forall|k: int|
            #[trigger] ai_walker(pre, k) ==> (post.positions@[k] == pre.positions@[k]
                && post.viewsheds@[k] == pre.viewsheds@[k]) || moved_along(path, pre, post, k)
        &&& forall|i: int|
            0 <= i < pre.map.blocked@.len() && !(exists|k: int|
                #[trigger] ai_walker(pre, k) && walker_stepped(
                    path,
                    pre,
                    post.positions@[k],
                    post.viewsheds@[k],
                    k,
                ) && (monster_start(pre, k) == i || (post.positions@[k] is Some
                    && pre.map.idx_of(
                    post.positions@[k]->Some_0.x as int,
                    post.positions@[k]->Some_0.y as int,
                ) == i))) ==> post.map.blocked@[i] == pre.map.blocked@[i]
        &&& forall|k: int|
            #[trigger] ai_walker(pre, k) && (forall|k2: int| ai_walker(pre, k2) ==> k2 == k)
                ==> exists|success: bool, steps: Vec<usize>|
                {
                    &&& #[trigger] call_ensures(
                        path,
                        (&pre.map, monster_start(pre, k) as usize, player_goal(pre) as usize),
                        (success, steps),
                    )
                    &&& lone_walk_outcome(pre, post, k, success, steps)
                }
    }
}

/// Decides and applies every monster's action on the monsters' turn.
pub struct MonsterAI;

impl MonsterAI {
    /// For each live monster with a viewshed and a position: if it stands
    /// within Euclidean distance 1.5 of the player it queues a melee intent
    /// against the player; otherwise, if the player's cell is in its visible
    /// set, it asks the path service for a route to the player and, given a
    /// successful answer with an on-map first step, moves there immediately,
    /// clearing its old cell's blocked flag and setting the new one's.
    pub fn run<G: Fn(&GameMap, usize, usize) -> (bool, Vec<usize>)>(world: &mut World, path: G)
        requires
            old(world).wf(),
            forall|m: &GameMap, s: usize, g: usize| #[trigger] call_requires(path, (m, s, g)),
        ensures
            final(world).wf(),
            ai_effect(path, *old(world), *final(world)),
    {
        let is_monster_turn = match world.run_state {
            RunState::MonsterTurn => true,
            _ => false,
        };
        if !is_monster_turn {
            return ;
        }
        let n: usize = world.alive.len();
        let mut e: usize = 0;
        while e < n
            invariant
                e <= n,
                n == old(world).num_entities(),
                old(world).wf(),
                old(world).run_state == RunState::MonsterTurn,
                world.wf(),
                forall|m: &GameMap, s: usize, g: usize| #[trigger] call_requires(path, (m, s, g)),
                *world == (World {
                    map: world.map,
                    positions: world.positions,
                    viewsheds: world.viewsheds,
                    melee_intents: world.melee_intents,
                    ..*old(world)
                }),
                world.map == (GameMap { blocked: world.map.blocked, ..old(world).map }),
                world.map.blocked@.len() == old(world).map.blocked@.len(),
                world.positions@.len() == n,
                world.viewsheds@.len() == n,
                world.melee_intents@.len() == n,
                forall|k: int|
                    e <= k < n ==> world.positions@[k] == old(world).positions@[k]
                        && world.viewsheds@[k] == old(world).viewsheds@[k]
                        && world.melee_intents@[k] == old(world).melee_intents@[k],
                forall|k: int|
                    0 <= k < n && !is_monster_actor(*old(world), k) ==> world.positions@[k] == old(
                        world,
                    ).positions@[k] && world.viewsheds@[k] == old(world).viewsheds@[k]
                        && world.melee_intents@[k] == old(world).melee_intents@[k],
                forall|k: int|
                    k < e && #[trigger] is_monster_actor(*old(world), k) && adjacent(
                        old(world).positions@[k]->Some_0,
                        old(world).player_pos,
                    ) ==> world.melee_intents@[k] == Some(
                        WantsToMelee { target: old(world).player_entity },
                    ) && world.positions@[k] == old(world).positions@[k] && world.viewsheds@[k]
                        == old(world).viewsheds@[k],
                forall|k: int|
                    #[trigger] is_monster_actor(*old(world), k) && !adjacent(
                        old(world).positions@[k]->Some_0,
                        old(world).player_pos,
                    ) ==> world.melee_intents@[k] == old(world).melee_intents@[k],
                forall|k: int|
                    #[trigger] is_monster_actor(*old(world), k) && !adjacent(
                        old(world).positions@[k]->Some_0,
                        old(world).player_pos,
                    ) && !monster_sees_player(*old(world), k) ==> world.positions@[k] == old(
                        world,
                    ).positions@[k] && world.viewsheds@[k] == old(world).viewsheds@[k],
                forall|k: int|
                    #[trigger] ai_walker(*old(world), k) ==> (world.positions@[k] == old(
                        world,
                    ).positions@[k] && world.viewsheds@[k] == old(world).viewsheds@[k])
                        || moved_along(path, *old(world), *world, k),
                forall|i: int|
                    0 <= i < world.map.blocked@.len() && !(exists|k: int|
                        #[trigger] ai_walker(*old(world), k) && walker_stepped(
                            path,
                            *old(world),
                            world.positions@[k],
                            world.viewsheds@[k],
                            k,
                        ) && (monster_start(*old(world), k) == i || (world.positions@[k] is Some
                            && old(world).map.idx_of(
                            world.positions@[k]->Some_0.x as int,
                            world.positions@[k]->Some_0.y as int,
                        ) == i))) ==> world.map.blocked@[i] == old(world).map.blocked@[i],
                forall|k: int|
                    #[trigger] ai_walker(*old(world), k) && (forall|k2: int|
                        ai_walker(*old(world), k2) ==> k2 == k) && e <= k
                        ==> world.map.blocked == old(world).map.blocked,
                forall|k: int|
                    #[trigger] ai_walker(*old(world), k) && (forall|k2: int|
                        ai_walker(*old(world), k2) ==> k2 == k) && k < e ==> exists|
                        success: bool,
                        steps: Vec<usize>,
                    |
                        {
                            &&& #[trigger] call_ensures(
                                path,
                                (
                                    &old(world).map,
                                    monster_start(*old(world), k) as usize,
                                    player_goal(*old(world)) as usize,
                                ),
                                (success, steps),
                            )
                            &&& lone_walk_outcome(*old(world), *world, k, success, steps)
                        },
            decreases n - e,
        {
            let ghost pre = *old(world);
            let ghost w0 = *world;
            let is_actor = world.alive[e] && world.monsters[e].is_some()
                && world.viewsheds[e].is_some() && world.positions[e].is_some();
            if is_actor {
                proof {
                    assert(is_monster_actor(pre, e as int));
                }
                let pos = match world.positions[e] {
                    Some(p) => p,
                    None => Position { x: 0, y: 0 },
                };
                let pp = world.player_pos;
                let dx = pos.x - pp.x;
                let dy = pos.y - pp.y;
                if -1 <= dx && dx <= 1 && -1 <= dy && dy <= 1 {
                    world.melee_intents[e] = Some(WantsToMelee { target: world.player_entity });
                    proof {
                        assert(adjacent(pre.positions@[e as int]->Some_0, pre.player_pos));
                        assert(!ai_walker(pre, e as int));
                    }
                } else {
                    proof {
                        assert(!adjacent(pre.positions@[e as int]->Some_0, pre.player_pos));
                    }
                    let sees = {
                        let mut found = false;
                        match &world.viewsheds[e] {
                            Some(vs) => {
                                let vn: usize = vs.visible_tiles.len();
                                let mut j: usize = 0;
                                while j < vn
                                    invariant
                                        j <= vn,
                                        vn == vs.visible_tiles@.len(),
                                        found == exists|j2: int|
                                            0 <= j2 < j && vs.visible_tiles@[j2] == pp,
                                    decreases vn - j,
                                {
                                    let t = vs.visible_tiles[j];
                                    if t.x == pp.x && t.y == pp.y {
                                        proof {
                                            assert(vs.visible_tiles@[j as int] == pp);
                                        }
                                        found = true;
                                    }
                                    j += 1;
                                }
                            },
                            None => {},
                        }
                        found
                    };
                    proof {
                        assert(sees == monster_sees_player(pre, e as int));
                    }
                    if sees {
                        proof {
                            assert(ai_walker(pre, e as int));
                        }
                        let start = world.map.xy_idx(pos.x, pos.y);
                        let goal = world.map.xy_idx(pp.x, pp.y);
                        let (success, steps) = path(&world.map, start, goal);
                        let ghost qmap = world.map;
                        proof {
                            assert(start == monster_start(pre, e as int) as usize);
                            assert(goal == player_goal(pre) as usize);
                            if forall|k2: int| ai_walker(pre, k2) ==> k2 == e as int {
                                // nobody walked before the pass's only walker,
                                // so the query ran over the pass-entry map
                                assert(w0.map.blocked == pre.map.blocked);
                                assert(w0.map == pre.map);
                                assert(qmap == pre.map);
                            }
                        }
                        if success && steps.len() > 1 {
                            let s1 = steps[1];
                            if s1 < world.map.tiles.len() {
                                world.map.blocked[start] = false;
                                let width = world.map.width;
                                let new_x = (s1 as i32) % width;
                                let new_y = (s1 as i32) / width;
                                proof {
                                    crate::game_map::GameMap::lemma_div_mod_bounds(
                                        pre.map,
                                        s1 as int,
                                    );
                                }
                                world.positions[e] = Some(Position { x: new_x, y: new_y });
                                let new_idx = world.map.xy_idx(new_x, new_y);
                                proof {
                                    vstd::arithmetic::div_mod::lemma_fundamental_div_mod(
                                        s1 as int,
                                        pre.map.width as int,
                                    );
                                    assert((pre.map.width as int) * ((s1 as int) / (
                                    pre.map.width as int)) == ((s1 as int) / (
                                    pre.map.width as int)) * (pre.map.width as int))
                                        by (nonlinear_arith);
                                    assert(new_idx == s1);
                                }
                                world.map.blocked[new_idx] = true;
                                match &mut world.viewsheds[e] {
                                    Some(vs) => {
                                        vs.dirty = true;
                                    },
                                    None => {},
                                }
                                proof {
                                    assert(world.positions@[e as int] == Some(
                                        decode_pos(pre.map, s1 as int),
                                    ));
                                    assert(dirtied(
                                        pre.viewsheds@[e as int],
                                        world.viewsheds@[e as int],
                                    ));
                                    assert(call_ensures(
                                        path,
                                        (
                                            &qmap,
                                            monster_start(pre, e as int) as usize,
                                            player_goal(pre) as usize,
                                        ),
                                        (true, steps),
                                    ));
                                    assert(walker_stepped(
                                        path,
                                        pre,
                                        world.positions@[e as int],
                                        world.viewsheds@[e as int],
                                        e as int,
                                    ));
                                    assert(moved_along(path, pre, *world, e as int));
                                    assert(world.map.blocked@ == w0.map.blocked@.update(
                                        monster_start(pre, e as int),
                                        false,
                                    ).update(s1 as int, true));
                                    assert(pre.map.idx_of(
                                        world.positions@[e as int]->Some_0.x as int,
                                        world.positions@[e as int]->Some_0.y as int,
                                    ) == s1 as int);
                                    assert forall|i: int|
                                        0 <= i < world.map.blocked@.len() && !(exists|k: int|
                                            #[trigger] ai_walker(pre, k) && walker_stepped(
                                                path,
                                                pre,
                                                world.positions@[k],
                                                world.viewsheds@[k],
                                                k,
                                            ) && (monster_start(pre, k) == i || (
                                            world.positions@[k] is Some && pre.map.idx_of(
                                                world.positions@[k]->Some_0.x as int,
                                                world.positions@[k]->Some_0.y as int,
                                            ) == i))) implies world.map.blocked@[i]
                                        == pre.map.blocked@[i] by {
                                        if i == monster_start(pre, e as int) || i == s1 as int {
                                            assert(ai_walker(pre, e as int) && walker_stepped(
                                                path,
                                                pre,
                                                world.positions@[e as int],
                                                world.viewsheds@[e as int],
                                                e as int,
                                            ) && (monster_start(pre, e as int) == i || (
                                            world.positions@[e as int] is Some && pre.map.idx_of(
                                                world.positions@[e as int]->Some_0.x as int,
                                                world.positions@[e as int]->Some_0.y as int,
                                            ) == i)));
                                            assert(false);
                                        } else {
                                            assert(world.map.blocked@[i] == w0.map.blocked@[i]);
                                            assert(!(exists|k: int|
                                                #[trigger] ai_walker(pre, k) && walker_stepped(
                                                    path,
                                                    pre,
                                                    w0.positions@[k],
                                                    w0.viewsheds@[k],
                                                    k,
                                                ) && (monster_start(pre, k) == i || (
                                                w0.positions@[k] is Some && pre.map.idx_of(
                                                    w0.positions@[k]->Some_0.x as int,
                                                    w0.positions@[k]->Some_0.y as int,
                                                ) == i)))) by {
                                                if exists|k: int|
                                                    #[trigger] ai_walker(pre, k)
                                                        && walker_stepped(
                                                        path,
                                                        pre,
                                                        w0.positions@[k],
                                                        w0.viewsheds@[k],
                                                        k,
                                                    ) && (monster_start(pre, k) == i || (
                                                    w0.positions@[k] is Some && pre.map.idx_of(
                                                        w0.positions@[k]->Some_0.x as int,
                                                        w0.positions@[k]->Some_0.y as int,
                                                    ) == i)) {
                                                    let k = choose|k: int|
                                                        #[trigger] ai_walker(pre, k)
                                                            && walker_stepped(
                                                            path,
                                                            pre,
                                                            w0.positions@[k],
                                                            w0.viewsheds@[k],
                                                            k,
                                                        ) && (monster_start(pre, k) == i || (
                                                        w0.positions@[k] is Some
                                                            && pre.map.idx_of(
                                                            w0.positions@[k]->Some_0.x as int,
                                                            w0.positions@[k]->Some_0.y as int,
                                                        ) == i));
                                                    if k == e as int {
                                                        // before its own turn the walker
                                                        // still stands on its start cell
                                                        assert(w0.positions@[e as int]
                                                            == pre.positions@[e as int]);
                                                        assert(i == monster_start(
                                                            pre,
                                                            e as int,
                                                        ));
                                                    } else {
                                                        assert(world.positions@[k]
                                                            == w0.positions@[k]);
                                                        assert(world.viewsheds@[k]
                                                            == w0.viewsheds@[k]);
                                                    }
                                                }
                                            }
                                        }
                                    }
                                }
                            }
                        }
                        proof {
                            if forall|k2: int| ai_walker(pre, k2) ==> k2 == e as int {
                                assert(call_ensures(
                                    path,
                                    (
                                        &pre.map,
                                        monster_start(pre, e as int) as usize,
                                        player_goal(pre) as usize,
                                    ),
                                    (success, steps),
                                ));
                                assert(lone_walk_outcome(
                                    pre,
                                    *world,
                                    e as int,
                                    success,
                                    steps,
                                ));
                            }
                        }
                    }
                }
            } else {
                proof {
                    assert(!is_monster_actor(pre, e as int));
                }
            }
            e += 1;
        }
    }
}

/// A monster standing within melee reach of the player queues an attack
/// against the player and does not move, whatever the path service answers.
pub proof fn adjacent_monster_attacks_law<G: Fn(&GameMap, usize, usize) -> (bool, Vec<usize>)>(
    path: G,
    pre: World,
    post: World,
    k: int,
)
    requires
        ai_effect(path, pre, post),
        pre.run_state == RunState::MonsterTurn,
        is_monster_actor(pre, k),
        adjacent(pre.positions@[k]->Some_0, pre.player_pos),
    ensures
        post.melee_intents@[k] == Some(WantsToMelee { target: pre.player_entity }),
        post.positions@[k] == pre.positions@[k],
{
}

/// A lone distant monster that sees the player is forced to walk: when the
/// path service answers its query over the pass-entry map with one
/// determined successful route whose first intermediate step is on the map,
/// the monster afterwards stands exactly on that step — not further — its
/// viewshed is dirtied, no melee intent is queued for it, and its blocked
/// flag migrates from its old cell to the step.
pub proof fn lone_walker_moves_law<G: Fn(&GameMap, usize, usize) -> (bool, Vec<usize>)>(
    path: G,
    pre: World,
    post: World,
    k: int,
    steps: Vec<usize>,
)
    requires
        ai_effect(path, pre, post),
        pre.run_state == RunState::MonsterTurn,
        ai_walker(pre, k),
        forall|k2: int| ai_walker(pre, k2) ==> k2 == k,
        forall|ret: (bool, Vec<usize>)|
            #[trigger] call_ensures(
                path,
                (&pre.map, monster_start(pre, k) as usize, player_goal(pre) as usize),
                ret,
            ) ==> ret == (true, steps),
        steps@.len() > 1,
        (steps@[1] as int) < pre.map.tiles@.len(),
    ensures
        post.positions@[k] == Some(decode_pos(pre.map, steps@[1] as int)),
        dirtied(pre.viewsheds@[k], post.viewsheds@[k]),
        post.melee_intents@[k] == pre.melee_intents@[k],
        post.map.blocked@ == pre.map.blocked@.update(monster_start(pre, k), false).update(
            steps@[1] as int,
            true,
        ),
{
    let (su, st) = choose|su: bool, st: Vec<usize>|
        #[trigger] call_ensures(
            path,
            (&pre.map, monster_start(pre, k) as usize, player_goal(pre) as usize),
            (su, st),
        ) && lone_walk_outcome(pre, post, k, su, st);
    assert((su, st) == (true, steps));
    assert(lone_walk_outcome(pre, post, k, true, steps));
}

} // verus!
