//! The spatial index system: rebuilds the map's blocking index and per-cell
//! content index from the current terrain and entity positions.
//!
//! It must run after any movement and before the AI and melee systems, which
//! read the indices it writes.

use vstd::prelude::*;
use crate::game_map::GameMap;
use crate::game_map::TileType;
use crate::world::World;

verus! {

/// Cell `i` of `m`'s content index lists handle `k`.
pub open spec fn cell_has(m: GameMap, i: int, k: int) -> bool {
    exists|j: int|
        0 <= j < m.tile_content@[i]@.len() && m.tile_content@[i]@[j] as int == k
}

/// Entity `e` is live, stands on cell `i`, and blocks it.
pub open spec fn blocking_occupant(w: World, e: int, i: int) -> bool {
    w.occupies(e, i) && w.blockers@[e] is Some
}

/// What one run of the spatial index system does: `post` is `pre` with the
/// map's blocking index rebuilt from terrain and blocking occupants, and the
/// content index rebuilt to list exactly the live positioned entities of each
/// cell, in ascending handle order.
pub open spec fn spatial_index_effect(pre: World, post: World) -> bool {
    &&& post == (World { map: post.map, ..pre })
    &&& post.map == (GameMap {
        blocked: post.map.blocked,
        tile_content: post.map.tile_content,
        ..pre.map
    })
    &&& post.map.blocked@.len() == pre.map.blocked@.len()
    &&& post.map.tile_content@.len() == pre.map.tile_content@.len()
    &&& forall|i: int|
        0 <= i < post.map.blocked@.len() ==> post.map.blocked@[i] == (pre.map.tiles@[i]
            == TileType::Wall || exists|e: int| blocking_occupant(pre, e, i))
    &&& forall|i: int, k: int|
        0 <= i < post.map.tile_content@.len() ==> (cell_has(post.map, i, k) <==> pre.occupies(
            k,
            i,
        ))
    &&& forall|i: int, j1: int, j2: int|
        0 <= i < post.map.tile_content@.len() && 0 <= j1 < j2 < post.map.tile_content@[i]@.len()
            ==> post.map.tile_content@[i]@[j1] < post.map.tile_content@[i]@[j2]
}

/// Rebuilds the map's blocking and content indices every tick.
pub struct MapIndexingSystem;

impl MapIndexingSystem {
    /// Rebuild `blocked` from terrain, then walk every live positioned
    /// entity: it is appended to its cell's content list, and if it carries
    /// `BlocksTile` its cell is marked blocked.
    pub fn run(world: &mut World)
        requires
            old(world).wf(),
        ensures
            final(world).wf(),
            spatial_index_effect(*old(world), *final(world)),
    {
        world.map.populate_blocked();
        world.map.clear_content_index();
        let n: usize = world.alive.len();
        let mut e: usize = 0;
        while e < n
            invariant
                e <= n,
                n == old(world).num_entities(),
                world.wf(),
                *world == (World { map: world.map, ..*old(world) }),
                world.map == (GameMap {
                    blocked: world.map.blocked,
                    tile_content: world.map.tile_content,
                    ..old(world).map
                }),
                world.map.blocked@.len() == old(world).map.blocked@.len(),
                world.map.tile_content@.len() == old(world).map.tile_content@.len(),
                forall|i: int|
                    0 <= i < world.map.blocked@.len() ==> world.map.blocked@[i] == (
                    old(world).map.tiles@[i] == TileType::Wall || exists|k: int|
                        k < e && blocking_occupant(*old(world), k, i)),
                forall|i: int, k: int|
                    0 <= i < world.map.tile_content@.len() ==> (cell_has(world.map, i, k) <==> (k
                        < e && old(world).occupies(k, i))),
                forall|i: int, j1: int, j2: int|
                    0 <= i < world.map.tile_content@.len() && 0 <= j1 < j2
                        < world.map.tile_content@[i]@.len() ==> world.map.tile_content@[i]@[j1]
                        < world.map.tile_content@[i]@[j2],
                forall|i: int, j: int|
                    0 <= i < world.map.tile_content@.len() && 0 <= j
                        < world.map.tile_content@[i]@.len() ==> (world.map.tile_content@[i]@[j]
                        as int) < e,
            decreases n - e,
        {
            let ghost w0 = *world;
            let alive_here = world.alive[e];
            let pos_opt = if alive_here {
                world.positions[e]
            } else {
                None
            };
            match pos_opt {
                Some(p) => {
                    let idx = world.map.xy_idx(p.x, p.y);
                    let is_blocker = world.blockers[e].is_some();
                    if is_blocker {
                        world.map.blocked[idx] = true;
                    }
                    world.map.tile_content[idx].push(e);
                    proof {
                        let ghost m = world.map;
                        assert(m.tile_content@[idx as int]@ == w0.map.tile_content@[
                        idx as int]@.push(e));
                        assert(old(world).occupies(e as int, idx as int));
                        assert forall|i: int|
                            0 <= i < m.blocked@.len() implies m.blocked@[i] == (
                        old(world).map.tiles@[i] == TileType::Wall || exists|k: int|
                            k < e + 1 && blocking_occupant(*old(world), k, i)) by {
                            if is_blocker && i == idx as int {
                                assert(blocking_occupant(*old(world), e as int, i));
                                assert(m.blocked@[i]);
                            } else {
                                assert(m.blocked@[i] == w0.map.blocked@[i]);
                                assert(!blocking_occupant(*old(world), e as int, i));
                                if w0.map.blocked@[i] {
                                    if !(old(world).map.tiles@[i] == TileType::Wall) {
                                        let k = choose|k: int|
                                            k < e && blocking_occupant(*old(world), k, i);
                                        assert(k < e + 1 && blocking_occupant(
                                            *old(world),
                                            k,
                                            i,
                                        ));
                                    }
                                } else {
                                    assert forall|k: int| k < e + 1 implies !blocking_occupant(
                                        *old(world),
                                        k,
                                        i,
                                    ) by {
                                        if k < e {
                                            assert(!blocking_occupant(*old(world), k, i));
                                        }
                                    }
                                }
                            }
                        }
                        assert forall|i: int, k: int|
                            0 <= i < m.tile_content@.len() implies (cell_has(m, i, k) <==> (k < e
                            + 1 && old(world).occupies(k, i))) by {
                            if i == idx as int {
                                if cell_has(m, i, k) {
                                    let j = choose|j: int|
                                        0 <= j < m.tile_content@[i]@.len() && m.tile_content@[i]@[j]
                                            as int == k;
                                    if j < m.tile_content@[i]@.len() - 1 {
                                        assert(m.tile_content@[i]@[j] == w0.map.tile_content@[i]@[j]);
                                        assert(cell_has(w0.map, i, k));
                                        assert(k < e + 1 && old(world).occupies(k, i));
                                    } else {
                                        assert(k == e as int);
                                    }
                                }
                                if k < e + 1 && old(world).occupies(k, i) {
                                    if k < e {
                                        assert(cell_has(w0.map, i, k));
                                        let j = choose|j: int|
                                            0 <= j < w0.map.tile_content@[i]@.len()
                                                && w0.map.tile_content@[i]@[j] as int == k;
                                        assert(m.tile_content@[i]@[j] as int == k);
                                        assert(cell_has(m, i, k));
                                    } else {
                                        assert(m.tile_content@[i]@.last() as int == k);
                                        assert(cell_has(m, i, k));
                                    }
                                }
                            } else {
                                assert(m.tile_content@[i]@ == w0.map.tile_content@[i]@);
                                assert(cell_has(m, i, k) == cell_has(w0.map, i, k));
                                assert(!old(world).occupies(e as int, i));
                            }
                        }
                    }
                },
                None => {
                    proof {
                        assert forall|i: int, k: int|
                            0 <= i < world.map.tile_content@.len() implies (cell_has(
                            world.map,
                            i,
                            k,
                        ) <==> (k < e + 1 && old(world).occupies(k, i))) by {
                            assert(!old(world).occupies(e as int, i));
                        }
                        assert forall|i: int|
                            0 <= i < world.map.blocked@.len() implies world.map.blocked@[i] == (
                        old(world).map.tiles@[i] == TileType::Wall || exists|k: int|
                            k < e + 1 && blocking_occupant(*old(world), k, i)) by {
                            assert(!blocking_occupant(*old(world), e as int, i));
                            if world.map.blocked@[i] {
                                if !(old(world).map.tiles@[i] == TileType::Wall) {
                                    let k = choose|k: int|
                                        k < e && blocking_occupant(*old(world), k, i);
                                    assert(k < e + 1 && blocking_occupant(*old(world), k, i));
                                }
                            } else {
                                assert forall|k: int| k < e + 1 implies !blocking_occupant(
                                    *old(world),
                                    k,
                                    i,
                                ) by {
                                    if k < e {
                                        assert(!blocking_occupant(*old(world), k, i));
                                    }
                                }
                            }
                        }
                    }
                },
            }
            e += 1;
        }
    }
}


/// After the spatial index runs, a cell is blocked exactly when its terrain
/// is a wall or some blocking entity stands on it.
pub proof fn spatial_index_blocking_law(pre: World, post: World)
    requires
        spatial_index_effect(pre, post),
    ensures
        forall|i: int|
            0 <= i < post.map.blocked@.len() ==> post.map.blocked@[i] == (pre.map.tiles@[i]
                == TileType::Wall || exists|e: int| blocking_occupant(pre, e, i)),
{
}

} // verus!
