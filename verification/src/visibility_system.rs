//! The visibility resolver: recomputes each viewer's visible-cell set from
//! its position and sight range using an external field-of-view service,
//! then discards cells on the map's outer border.
//!
//! The service is handed in as a function over the map, so the resolver is
//! verified for every answer the service can give.

use vstd::prelude::*;
use crate::components::Position;
use crate::components::Viewshed;
use crate::game_map::GameMap;
use crate::world::World;

verus! {

/// `p` lies strictly inside the map: border cells are never considered
/// visible, whatever the field-of-view service returned.
pub open spec fn in_interior(m: GameMap, p: Position) -> bool {
    0 < p.x && p.x < m.width - 1 && 0 < p.y && p.y < m.height - 1
}

/// `s` with every cell on the map's outer border removed, order kept.
pub open spec fn interior_only(s: Seq<Position>, m: GameMap) -> Seq<Position>
    decreases s.len(),
{
    if s.len() == 0 {
        Seq::empty()
    } else {
        let rest = interior_only(s.drop_last(), m);
        if in_interior(m, s.last()) {
            rest.push(s.last())
        } else {
            rest
        }
    }
}

/// Entity `e` is a viewer: it has both a viewshed and a position.
pub open spec fn viewer(w: World, e: int) -> bool {
    &&& 0 <= e < w.num_entities()
    &&& w.viewsheds@[e] is Some
    &&& w.positions@[e] is Some
}

/// What one run of the visibility resolver does: every viewer's visible set
/// becomes some answer of the field-of-view service for its position and
/// range, filtered to the map's interior; range and dirty flag are kept, and
/// nothing else changes.
pub open spec fn visibility_effect<F: Fn(&GameMap, Position, i32) -> Vec<Position>>(
    fov: F,
    pre: World,
    post: World,
) -> bool {
    &&& post == (World { viewsheds: post.viewsheds, ..pre })
    &&& post.viewsheds@.len() == pre.num_entities()
    &&& forall|e: int|
        0 <= e < pre.num_entities() && !viewer(pre, e) ==> post.viewsheds@[e] == pre.viewsheds@[e]
    &&& forall|e: int|
        0 <= e < pre.num_entities() && #[trigger] viewer(pre, e) ==> {
            let vs = pre.viewsheds@[e]->Some_0;
            let pos = pre.positions@[e]->Some_0;
            &&& post.viewsheds@[e] is Some
            &&& post.viewsheds@[e]->Some_0.range == vs.range
            &&& post.viewsheds@[e]->Some_0.dirty == vs.dirty
            &&& exists|raw: Vec<Position>|
                #[trigger] call_ensures(fov, (&pre.map, pos, vs.range), raw)
                    && post.viewsheds@[e]->Some_0.visible_tiles@ == interior_only(raw@, pre.map)
        }
}

/// Recomputes every viewer's visible cells each tick.
pub struct VisibilitySystem;

impl VisibilitySystem {
    /// For every entity with both a position and a viewshed: ask the
    /// field-of-view service for the visible cells from its position at its
    /// range, and keep only cells strictly inside the map.
    pub fn run<F: Fn(&GameMap, Position, i32) -> Vec<Position>>(world: &mut World, fov: F)
        requires
            old(world).wf(),
            forall|m: &GameMap, p: Position, r: i32| #[trigger] call_requires(fov, (m, p, r)),
        ensures
            final(world).wf(),
            visibility_effect(fov, *old(world), *final(world)),
    {
        let n: usize = world.alive.len();
        let mut e: usize = 0;
        while e < n
            invariant
                e <= n,
                n == old(world).num_entities(),
                old(world).wf(),
                world.wf(),
                forall|m: &GameMap, p: Position, r: i32| #[trigger] call_requires(fov, (m, p, r)),
                *world == (World { viewsheds: world.viewsheds, ..*old(world) }),
                world.viewsheds@.len() == n,
                forall|k: int| e <= k < n ==> world.viewsheds@[k] == old(world).viewsheds@[k],
                forall|k: int|
                    0 <= k < e && !viewer(*old(world), k) ==> world.viewsheds@[k] == old(
                        world,
                    ).viewsheds@[k],
                forall|k: int|
                    0 <= k < e && #[trigger] viewer(*old(world), k) ==> {
                        let vs = old(world).viewsheds@[k]->Some_0;
                        let pos = old(world).positions@[k]->Some_0;
                        &&& world.viewsheds@[k] is Some
                        &&& world.viewsheds@[k]->Some_0.range == vs.range
                        &&& world.viewsheds@[k]->Some_0.dirty == vs.dirty
                        &&& exists|raw: Vec<Position>|
                            #[trigger] call_ensures(fov, (&old(world).map, pos, vs.range), raw)
                                && world.viewsheds@[k]->Some_0.visible_tiles@ == interior_only(
                                raw@,
                                old(world).map,
                            )
                    },
            decreases n - e,
        {
            let has_viewshed = world.viewsheds[e].is_some();
            let has_position = world.positions[e].is_some();
            if has_viewshed && has_position {
                let (range, dirty) = match &world.viewsheds[e] {
                    Some(vs) => (vs.range, vs.dirty),
                    None => (0, false),
                };
                let pos = match world.positions[e] {
                    Some(p) => p,
                    None => Position { x: 0, y: 0 },
                };
                let raw: Vec<Position> = fov(&world.map, pos, range);
                let m: usize = raw.len();
                let mut vis: Vec<Position> = Vec::new();
                let mut k: usize = 0;
                while k < m
                    invariant
                        k <= m,
                        m == raw@.len(),
                        vis@ == interior_only(raw@.take(k as int), world.map),
                        world.map.wf(),
                    decreases m - k,
                {
                    let p = raw[k];
                    proof {
                        assert(raw@.take(k + 1).drop_last() =~= raw@.take(k as int));
                        assert(raw@.take(k + 1).last() == p);
                    }
                    if p.x > 0 && p.x < world.map.width - 1 && p.y > 0 && p.y < world.map.height
                        - 1 {
                        vis.push(p);
                    }
                    k += 1;
                }
                proof {
                    assert(raw@.take(m as int) =~= raw@);
                }
                world.viewsheds[e] = Some(Viewshed { visible_tiles: vis, range, dirty });
                proof {
                    assert(viewer(*old(world), e as int));
                    assert(call_ensures(fov, (&old(world).map, pos, range), raw));
                }
            } else {
                proof {
                    assert(!viewer(*old(world), e as int));
                }
            }
            e += 1;
        }
    }
}

} // verus!
