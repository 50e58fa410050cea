//! The inventory transaction systems: pickup, drop and potion use. Each
//! consumes and clears its one-shot intent component every tick.

use vstd::prelude::*;
use vstd::math::min;
use crate::components::CombatStats;
use crate::components::InBackpack;
use crate::components::WantsToDropItem;
use crate::components::WantsToPickupItem;
use crate::game_log::LogEntry;
use crate::world::PipelineError;
use crate::world::World;

verus! {

/// Entity `e` asked to pick an item up this tick.
pub open spec fn pickup_requested(w: World, e: int) -> bool {
    0 <= e < w.num_entities() && w.pickup_intents@[e] is Some
}

/// The item entity `e`'s pickup intent names.
pub open spec fn pickup_item_of(w: World, e: int) -> int {
    w.pickup_intents@[e]->Some_0.item as int
}

/// The collector entity `e`'s pickup intent names.
pub open spec fn pickup_collector_of(w: World, e: int) -> int {
    w.pickup_intents@[e]->Some_0.collected_by as int
}

/// Some pickup intent names item `i`.
pub open spec fn pickup_referenced(w: World, i: int) -> bool {
    exists|e: int| pickup_requested(w, e) && pickup_item_of(w, e) == i
}

/// Entity `e`'s pickup intent is the only one naming its item.
pub open spec fn pickup_unique(w: World, e: int) -> bool {
    forall|e2: int|
        pickup_requested(w, e2) && pickup_item_of(w, e2) == pickup_item_of(w, e) ==> e2 == e
}

/// Every item the player collects has a name to log.
pub open spec fn pickup_valid(w: World) -> bool {
    forall|e: int|
        #[trigger] pickup_requested(w, e) && pickup_collector_of(w, e)
            == w.player_entity as int ==> w.names@[pickup_item_of(w, e)] is Some
}

/// The log entries the pickup system produces while scanning entities
/// `0..n` in ascending order.
pub open spec fn pickup_log(w: World, n: int) -> Seq<LogEntry>
    decreases n,
{
    if n <= 0 {
        Seq::empty()
    } else {
        let rest = pickup_log(w, n - 1);
        let e = n - 1;
        if pickup_requested(w, e) && pickup_collector_of(w, e) == w.player_entity as int {
            rest.push(
                LogEntry::PickedUp { name: w.names@[pickup_item_of(w, e)]->Some_0.name },
            )
        } else {
            rest
        }
    }
}

/// What one run of the pickup system does. On success every requested item
/// loses its `Position` and gains `InBackpack{owner: collector}`, the
/// player's pickups are logged, and every intent is cleared; a nameless item
/// collected by the player aborts the tick with the world unchanged.
pub open spec fn pickup_effect(pre: World, post: World, r: Result<(), PipelineError>) -> bool {
    match r {
        Ok(()) => {
            &&& pickup_valid(pre)
            &&& post == (World {
                positions: post.positions,
                backpacks: post.backpacks,
                pickup_intents: post.pickup_intents,
                log: post.log,
                ..pre
            })
            &&& post.positions@.len() == pre.num_entities()
            &&& post.backpacks@.len() == pre.num_entities()
            &&& post.pickup_intents@.len() == pre.num_entities()
            &&& forall|e: int| 0 <= e < pre.num_entities() ==> post.pickup_intents@[e] is None
            &&& forall|i: int|
                0 <= i < pre.num_entities() && !pickup_referenced(pre, i) ==> post.positions@[i]
                    == pre.positions@[i] && post.backpacks@[i] == pre.backpacks@[i]
            &&& forall|i: int|
                0 <= i < pre.num_entities() && pickup_referenced(pre, i) ==> post.positions@[i]
                    is None && (exists|e: int|
                    pickup_requested(pre, e) && pickup_item_of(pre, e) == i && post.backpacks@[i]
                        == Some(
                        InBackpack { owner: pre.pickup_intents@[e]->Some_0.collected_by },
                    ))
            &&& forall|e: int|
                #[trigger] pickup_requested(pre, e) && pickup_unique(pre, e)
                    ==> post.backpacks@[pickup_item_of(pre, e)] == Some(
                    InBackpack { owner: pre.pickup_intents@[e]->Some_0.collected_by },
                )
            &&& post.log.entries@ == pickup_log(pre, pre.num_entities()).reverse()
                + pre.log.entries@
        },
        Err(err) => {
            &&& err == PipelineError::PickupItemUnnamed
            &&& !pickup_valid(pre)
            &&& post == pre
        },
    }
}

/// Moves requested items from the ground into backpacks.
pub struct ItemCollectionSystem;

impl ItemCollectionSystem {
    /// For every pickup intent: remove the item's `Position`, attach
    /// `InBackpack{owner: collector}`, and log the pickup if the collector is
    /// the player; then clear all intents. A nameless item collected by the
    /// player aborts the tick with the world unchanged.
    pub fn run(world: &mut World) -> (r: Result<(), PipelineError>)
        requires
            old(world).wf(),
        ensures
            final(world).wf(),
            pickup_effect(*old(world), *final(world), r),
    {
        let n: usize = world.alive.len();
        let mut e: usize = 0;
        while e < n
            invariant
                e <= n,
                n == old(world).num_entities(),
                *world == *old(world),
                old(world).wf(),
                forall|k: int|
                    0 <= k < e && #[trigger] pickup_requested(*old(world), k)
                        && pickup_collector_of(*old(world), k) == old(world).player_entity as int
                        ==> old(world).names@[pickup_item_of(*old(world), k)] is Some,
            decreases n - e,
        {
            match world.pickup_intents[e] {
                Some(intent) => {
                    if intent.collected_by == world.player_entity {
                        if world.names[intent.item].is_none() {
                            proof {
                                assert(pickup_requested(*old(world), e as int));
                                assert(pickup_collector_of(*old(world), e as int) == old(
                                    world,
                                ).player_entity as int);
                                assert(!pickup_valid(*old(world)));
                            }
                            return Err(PipelineError::PickupItemUnnamed);
                        }
                    }
                },
                None => {},
            }
            e += 1;
        }
        let mut e: usize = 0;
        while e < n
            invariant
                e <= n,
                n == old(world).num_entities(),
                old(world).wf(),
                pickup_valid(*old(world)),
                world.wf(),
                *world == (World {
                    positions: world.positions,
                    backpacks: world.backpacks,
                    log: world.log,
                    ..*old(world)
                }),
                world.positions@.len() == n,
                world.backpacks@.len() == n,
                forall|i: int|
                    0 <= i < n && !(exists|k: int|
                        k < e && #[trigger] pickup_requested(*old(world), k) && pickup_item_of(
                            *old(world),
                            k,
                        ) == i) ==> world.positions@[i] == old(world).positions@[i]
                        && world.backpacks@[i] == old(world).backpacks@[i],
                forall|i: int|
                    0 <= i < n && (exists|k: int|
                        k < e && #[trigger] pickup_requested(*old(world), k) && pickup_item_of(
                            *old(world),
                            k,
                        ) == i) ==> world.positions@[i] is None && (exists|k: int|
                        k < e && #[trigger] pickup_requested(*old(world), k) && pickup_item_of(
                            *old(world),
                            k,
                        ) == i && world.backpacks@[i] == Some(
                            InBackpack {
                                owner: old(world).pickup_intents@[k]->Some_0.collected_by,
                            },
                        )),
                forall|es: int|
                    es < e && #[trigger] pickup_requested(*old(world), es) && pickup_unique(
                        *old(world),
                        es,
                    ) ==> world.backpacks@[pickup_item_of(*old(world), es)] == Some(
                        InBackpack { owner: old(world).pickup_intents@[es]->Some_0.collected_by },
                    ),
                world.log.entries@ == pickup_log(*old(world), e as int).reverse() + old(
                    world,
                ).log.entries@,
            decreases n - e,
        {
            let ghost w0 = *world;
            match world.pickup_intents[e] {
                Some(intent) => {
                    world.positions[intent.item] = None;
                    world.backpacks[intent.item] = Some(InBackpack { owner: intent.collected_by });
                    if intent.collected_by == world.player_entity {
                        let name = match &world.names[intent.item] {
                            Some(nm) => nm.name.clone(),
                            None => String::new(),
                        };
                        world.log.entries.insert(0, LogEntry::PickedUp { name });
                    }
                    proof {
                        assert(pickup_requested(*old(world), e as int));
                        assert(world.log.entries@ =~= pickup_log(*old(world), e + 1).reverse()
                            + old(world).log.entries@);
                        let i0 = pickup_item_of(*old(world), e as int);
                        assert forall|i: int|
                            0 <= i < n && (exists|k: int|
                                k < e + 1 && #[trigger] pickup_requested(*old(world), k)
                                    && pickup_item_of(*old(world), k) == i) implies
                        world.positions@[i] is None && (exists|k: int|
                            k < e + 1 && #[trigger] pickup_requested(*old(world), k)
                                && pickup_item_of(*old(world), k) == i && world.backpacks@[i]
                                == Some(
                                InBackpack {
                                    owner: old(world).pickup_intents@[k]->Some_0.collected_by,
                                },
                            )) by {
                            if i == i0 {
                                assert(pickup_requested(*old(world), e as int) && pickup_item_of(
                                    *old(world),
                                    e as int,
                                ) == i && world.backpacks@[i] == Some(
                                    InBackpack {
                                        owner: old(world).pickup_intents@[e as int]->Some_0.collected_by,
                                    },
                                ));
                            } else {
                                let k = choose|k: int|
                                    k < e + 1 && #[trigger] pickup_requested(*old(world), k)
                                        && pickup_item_of(*old(world), k) == i;
                                assert(k < e);
                                assert(world.positions@[i] == w0.positions@[i]);
                                assert(world.backpacks@[i] == w0.backpacks@[i]);
                                let k2 = choose|k2: int|
                                    k2 < e && #[trigger] pickup_requested(*old(world), k2)
                                        && pickup_item_of(*old(world), k2) == i
                                        && w0.backpacks@[i] == Some(
                                        InBackpack {
                                            owner: old(
                                                world,
                                            ).pickup_intents@[k2]->Some_0.collected_by,
                                        },
                                    );
                                assert(k2 < e + 1 && pickup_requested(*old(world), k2)
                                    && pickup_item_of(*old(world), k2) == i && world.backpacks@[i]
                                    == Some(
                                    InBackpack {
                                        owner: old(world).pickup_intents@[k2]->Some_0.collected_by,
                                    },
                                ));
                            }
                        }
                    }
                },
                None => {
                    proof {
                        assert(!pickup_requested(*old(world), e as int));
                        assert(world.log.entries@ =~= pickup_log(*old(world), e + 1).reverse()
                            + old(world).log.entries@);
                    }
                },
            }
            e += 1;
        }
        let mut e: usize = 0;
        while e < n
            invariant
                e <= n,
                n == old(world).num_entities(),
                old(world).wf(),
                pickup_valid(*old(world)),
                world.wf(),
                *world == (World {
                    positions: world.positions,
                    backpacks: world.backpacks,
                    pickup_intents: world.pickup_intents,
                    log: world.log,
                    ..*old(world)
                }),
                world.positions@.len() == n,
                world.backpacks@.len() == n,
                world.pickup_intents@.len() == n,
                forall|k: int| 0 <= k < e ==> world.pickup_intents@[k] is None,
                forall|i: int|
                    0 <= i < n && !pickup_referenced(*old(world), i) ==> world.positions@[i] == old(
                        world,
                    ).positions@[i] && world.backpacks@[i] == old(world).backpacks@[i],
                forall|i: int|
                    0 <= i < n && pickup_referenced(*old(world), i) ==> world.positions@[i] is None
                        && (exists|k: int|
                        pickup_requested(*old(world), k) && pickup_item_of(*old(world), k) == i
                            && world.backpacks@[i] == Some(
                            InBackpack {
                                owner: old(world).pickup_intents@[k]->Some_0.collected_by,
                            },
                        )),
                forall|es: int|
                    #[trigger] pickup_requested(*old(world), es) && pickup_unique(*old(world), es)
                        ==> world.backpacks@[pickup_item_of(*old(world), es)] == Some(
                        InBackpack { owner: old(world).pickup_intents@[es]->Some_0.collected_by },
                    ),
                world.log.entries@ == pickup_log(*old(world), n as int).reverse() + old(
                    world,
                ).log.entries@,
            decreases n - e,
        {
            world.pickup_intents[e] = None;
            e += 1;
        }
        Ok(())
    }
}


/// Entity `e` asked to drop an item this tick.
pub open spec fn drop_requested(w: World, e: int) -> bool {
    0 <= e < w.num_entities() && w.drop_intents@[e] is Some
}

/// The item entity `e`'s drop intent names.
pub open spec fn drop_item_of(w: World, e: int) -> int {
    w.drop_intents@[e]->Some_0.item as int
}

/// Some drop intent names item `i`.
pub open spec fn drop_referenced(w: World, i: int) -> bool {
    exists|e: int| drop_requested(w, e) && drop_item_of(w, e) == i
}

/// Entity `e`'s drop intent is the only one naming its item.
pub open spec fn drop_unique(w: World, e: int) -> bool {
    forall|e2: int| drop_requested(w, e2) && drop_item_of(w, e2) == drop_item_of(w, e) ==> e2 == e
}

/// Entity `e`'s drop intent cannot be honoured: the holder has no position
/// to drop at, or the player is dropping a nameless item.
pub open spec fn drop_violation(w: World, e: int) -> bool {
    drop_requested(w, e) && (w.positions@[e] is None || (e == w.player_entity as int
        && w.names@[drop_item_of(w, e)] is None))
}

/// Which abort a violating drop intent raises; a missing holder position is
/// noticed first.
pub open spec fn drop_error_kind(w: World, e: int) -> PipelineError {
    if w.positions@[e] is None {
        PipelineError::DropperMissingPosition
    } else {
        PipelineError::DropItemUnnamed
    }
}

/// No drop intent is violating.
pub open spec fn drop_valid(w: World) -> bool {
    forall|e: int| !drop_violation(w, e)
}

/// The log entries the drop system produces while scanning entities `0..n`
/// in ascending order.
pub open spec fn drop_log(w: World, n: int) -> Seq<LogEntry>
    decreases n,
{
    if n <= 0 {
        Seq::empty()
    } else {
        let rest = drop_log(w, n - 1);
        let e = n - 1;
        if drop_requested(w, e) && e == w.player_entity as int {
            rest.push(LogEntry::Dropped { name: w.names@[drop_item_of(w, e)]->Some_0.name })
        } else {
            rest
        }
    }
}

/// What one run of the drop system does. On success every requested item
/// loses `InBackpack` and gains a `Position` equal to its dropper's current
/// coordinates, the player's drops are logged, and every intent is cleared;
/// a holder without a position, or the player dropping a nameless item,
/// aborts the tick with the world unchanged.
pub open spec fn drop_effect(pre: World, post: World, r: Result<(), PipelineError>) -> bool {
    match r {
        Ok(()) => {
            &&& drop_valid(pre)
            &&& post == (World {
                positions: post.positions,
                backpacks: post.backpacks,
                drop_intents: post.drop_intents,
                log: post.log,
                ..pre
            })
            &&& post.positions@.len() == pre.num_entities()
            &&& post.backpacks@.len() == pre.num_entities()
            &&& post.drop_intents@.len() == pre.num_entities()
            &&& forall|e: int| 0 <= e < pre.num_entities() ==> post.drop_intents@[e] is None
            &&& forall|i: int|
                0 <= i < pre.num_entities() && !drop_referenced(pre, i) ==> post.positions@[i]
                    == pre.positions@[i] && post.backpacks@[i] == pre.backpacks@[i]
            &&& forall|i: int|
                0 <= i < pre.num_entities() && drop_referenced(pre, i) ==> post.backpacks@[i]
                    is None && post.positions@[i] is Some
            &&& forall|e: int|
                #[trigger] drop_requested(pre, e) && drop_unique(pre, e) && !drop_referenced(
                    pre,
                    e,
                ) ==> post.positions@[drop_item_of(pre, e)] == pre.positions@[e]
            &&& post.log.entries@ == drop_log(pre, pre.num_entities()).reverse() + pre.log.entries@
        },
        Err(err) => {
            &&& post == pre
            &&& exists|e: int|
                #[trigger] drop_violation(pre, e) && (forall|k: int|
                    0 <= k < e ==> !drop_violation(pre, k)) && err == drop_error_kind(pre, e)
        },
    }
}

/// Moves requested items from backpacks onto the ground.
pub struct ItemDropSystem;

impl ItemDropSystem {
    /// For every drop intent: give the item a `Position` equal to the
    /// holder's current coordinates, remove its `InBackpack`, and log the
    /// drop if the holder is the player; then clear all intents. A holder
    /// without a position, or the player dropping a nameless item, aborts
    /// the tick with the world unchanged.
    pub fn run(world: &mut World) -> (r: Result<(), PipelineError>)
        requires
            old(world).wf(),
        ensures
            final(world).wf(),
            drop_effect(*old(world), *final(world), r),
    {
        let n: usize = world.alive.len();
        let mut e: usize = 0;
        while e < n
            invariant
                e <= n,
                n == old(world).num_entities(),
                *world == *old(world),
                old(world).wf(),
                forall|k: int| 0 <= k < e ==> !drop_violation(*old(world), k),
            decreases n - e,
        {
            match world.drop_intents[e] {
                Some(intent) => {
                    if world.positions[e].is_none() {
                        proof {
                            assert(drop_violation(*old(world), e as int));
                        }
                        return Err(PipelineError::DropperMissingPosition);
                    }
                    if e == world.player_entity {
                        if world.names[intent.item].is_none() {
                            proof {
                                assert(drop_violation(*old(world), e as int));
                            }
                            return Err(PipelineError::DropItemUnnamed);
                        }
                    }
                },
                None => {},
            }
            e += 1;
        }
        proof {
            assert forall|e2: int| !drop_violation(*old(world), e2) by {
                if 0 <= e2 < n {
                } else {
                    assert(!drop_requested(*old(world), e2));
                }
            }
        }
        let mut e: usize = 0;
        while e < n
            invariant
                e <= n,
                n == old(world).num_entities(),
                old(world).wf(),
                drop_valid(*old(world)),
                world.wf(),
                *world == (World {
                    positions: world.positions,
                    backpacks: world.backpacks,
                    log: world.log,
                    ..*old(world)
                }),
                world.positions@.len() == n,
                world.backpacks@.len() == n,
                forall|k: int|
                    0 <= k < n && old(world).positions@[k] is Some ==> world.positions@[k] is Some,
                forall|i: int|
                    0 <= i < n && !(exists|k: int|
                        k < e && #[trigger] drop_requested(*old(world), k) && drop_item_of(
                            *old(world),
                            k,
                        ) == i) ==> world.positions@[i] == old(world).positions@[i]
                        && world.backpacks@[i] == old(world).backpacks@[i],
                forall|i: int|
                    0 <= i < n && (exists|k: int|
                        k < e && #[trigger] drop_requested(*old(world), k) && drop_item_of(
                            *old(world),
                            k,
                        ) == i) ==> world.backpacks@[i] is None && world.positions@[i] is Some,
                forall|es: int|
                    es < e && #[trigger] drop_requested(*old(world), es) && drop_unique(
                        *old(world),
                        es,
                    ) && !drop_referenced(*old(world), es) ==> world.positions@[drop_item_of(
                        *old(world),
                        es,
                    )] == old(world).positions@[es],
                world.log.entries@ == drop_log(*old(world), e as int).reverse() + old(
                    world,
                ).log.entries@,
            decreases n - e,
        {
            let ghost w0 = *world;
            match world.drop_intents[e] {
                Some(intent) => {
                    let dpos_opt = world.positions[e];
                    match dpos_opt {
                        Some(dpos) => {
                            world.positions[intent.item] = Some(dpos);
                            world.backpacks[intent.item] = None;
                            if e == world.player_entity {
                                let name = match &world.names[intent.item] {
                                    Some(nm) => nm.name.clone(),
                                    None => String::new(),
                                };
                                world.log.entries.insert(0, LogEntry::Dropped { name });
                            }
                            proof {
                                assert(drop_requested(*old(world), e as int));
                                assert(!drop_violation(*old(world), e as int));
                                assert(old(world).names == world.names);
                                assert(world.log.entries@ =~= drop_log(
                                    *old(world),
                                    e + 1,
                                ).reverse() + old(world).log.entries@);
                                let i0 = drop_item_of(*old(world), e as int);
                                assert forall|i: int|
                                    0 <= i < n && !(exists|k: int|
                                        k < e + 1 && #[trigger] drop_requested(*old(world), k)
                                            && drop_item_of(*old(world), k) == i) implies
                                world.positions@[i] == old(world).positions@[i]
                                    && world.backpacks@[i] == old(world).backpacks@[i] by {
                                    assert(i != i0);
                                    assert(!(exists|k: int|
                                        k < e && #[trigger] drop_requested(*old(world), k)
                                            && drop_item_of(*old(world), k) == i));
                                }
                                assert forall|es: int|
                                    es < e + 1 && #[trigger] drop_requested(*old(world), es)
                                        && drop_unique(*old(world), es) && !drop_referenced(
                                        *old(world),
                                        es,
                                    ) implies world.positions@[drop_item_of(*old(world), es)]
                                    == old(world).positions@[es] by {
                                    let it = drop_item_of(*old(world), es);
                                    if es == e as int {
                                        assert(!(exists|k: int|
                                            k < e && #[trigger] drop_requested(*old(world), k)
                                                && drop_item_of(*old(world), k) == es));
                                        assert(w0.positions@[e as int] == old(
                                            world,
                                        ).positions@[e as int]);
                                        assert(world.positions@[it] == Some(dpos));
                                    } else {
                                        assert(it != i0);
                                        assert(world.positions@[it] == w0.positions@[it]);
                                    }
                                }
                            }
                        },
                        None => {
                            proof {
                                assert(drop_requested(*old(world), e as int));
                                assert(!drop_violation(*old(world), e as int));
                                assert(old(world).positions@[e as int] is Some);
                                assert(false);
                            }
                        },
                    }
                },
                None => {
                    proof {
                        assert(!drop_requested(*old(world), e as int));
                        assert(world.log.entries@ =~= drop_log(*old(world), e + 1).reverse()
                            + old(world).log.entries@);
                    }
                },
            }
            e += 1;
        }
        let mut e: usize = 0;
        while e < n
            invariant
                e <= n,
                n == old(world).num_entities(),
                old(world).wf(),
                drop_valid(*old(world)),
                world.wf(),
                *world == (World {
                    positions: world.positions,
                    backpacks: world.backpacks,
                    drop_intents: world.drop_intents,
                    log: world.log,
                    ..*old(world)
                }),
                world.positions@.len() == n,
                world.backpacks@.len() == n,
                world.drop_intents@.len() == n,
                forall|k: int| 0 <= k < e ==> world.drop_intents@[k] is None,
                forall|i: int|
                    0 <= i < n && !drop_referenced(*old(world), i) ==> world.positions@[i] == old(
                        world,
                    ).positions@[i] && world.backpacks@[i] == old(world).backpacks@[i],
                forall|i: int|
                    0 <= i < n && drop_referenced(*old(world), i) ==> world.backpacks@[i] is None
                        && world.positions@[i] is Some,
                forall|es: int|
                    #[trigger] drop_requested(*old(world), es) && drop_unique(*old(world), es)
                        && !drop_referenced(*old(world), es) ==> world.positions@[drop_item_of(
                        *old(world),
                        es,
                    )] == old(world).positions@[es],
                world.log.entries@ == drop_log(*old(world), n as int).reverse() + old(
                    world,
                ).log.entries@,
            decreases n - e,
        {
            world.drop_intents[e] = None;
            e += 1;
        }
        Ok(())
    }
}


/// Entity `e` asked to drink a potion this tick and has combat stats to
/// heal.
pub open spec fn drink_eligible(w: World, e: int) -> bool {
    &&& 0 <= e < w.num_entities()
    &&& w.drink_intents@[e] is Some
    &&& w.combat_stats@[e] is Some
}

/// The potion entity `e`'s drink intent names.
pub open spec fn drink_potion_of(w: World, e: int) -> int {
    w.drink_intents@[e]->Some_0.potion as int
}

/// Some eligible drinker names potion `p`.
pub open spec fn potion_referenced(w: World, p: int) -> bool {
    exists|e: int| drink_eligible(w, e) && drink_potion_of(w, e) == p
}

/// Entity `e` is the first eligible drinker of its potion, so the potion is
/// still there at `e`'s turn.
pub open spec fn drink_first(w: World, e: int) -> bool {
    drink_eligible(w, e) && (forall|e2: int|
        0 <= e2 < e ==> !(drink_eligible(w, e2) && drink_potion_of(w, e2) == drink_potion_of(
            w,
            e,
        )))
}

/// Entity `e`'s drink intent cannot be honoured: the referenced entity has
/// no `Potion`, consuming it would corrupt the pass (it is itself a drinker,
/// or the player), or the player is drinking a nameless potion.
pub open spec fn drink_violation(w: World, e: int) -> bool {
    drink_eligible(w, e) && {
        let p = drink_potion_of(w, e);
        ||| w.potions@[p] is None
        ||| drink_eligible(w, p)
        ||| p == w.player_entity as int
        ||| (e == w.player_entity as int && w.names@[p] is None)
    }
}

/// Which abort a violating drink intent raises; a missing `Potion` is
/// noticed first, then a conflicting potion, then a nameless one.
pub open spec fn drink_error_kind(w: World, e: int) -> PipelineError {
    let p = drink_potion_of(w, e);
    if w.potions@[p] is None {
        PipelineError::MissingPotion
    } else if drink_eligible(w, p) || p == w.player_entity as int {
        PipelineError::PotionConflict
    } else {
        PipelineError::PotionUnnamed
    }
}

/// No drink intent is violating.
pub open spec fn drink_valid(w: World) -> bool {
    forall|e: int| !drink_violation(w, e)
}

/// The combat stats of `e` after drinking its potion: hit points rise by
/// the potion's strength, capped at the maximum.
pub open spec fn drink_healed_stats(w: World, e: int) -> CombatStats {
    let s = w.combat_stats@[e]->Some_0;
    let heal = w.potions@[drink_potion_of(w, e)]->Some_0.heal_amount;
    CombatStats {
        max_hp: s.max_hp,
        defense: s.defense,
        power: s.power,
        hp: min(s.max_hp as int, s.hp + heal) as i32,
    }
}

/// The log entries the potion system produces while scanning entities
/// `0..n` in ascending order.
pub open spec fn drink_log(w: World, n: int) -> Seq<LogEntry>
    decreases n,
{
    if n <= 0 {
        Seq::empty()
    } else {
        let rest = drink_log(w, n - 1);
        let e = n - 1;
        if drink_first(w, e) && e == w.player_entity as int {
            rest.push(
                LogEntry::Drank {
                    name: w.names@[drink_potion_of(w, e)]->Some_0.name,
                    heal_amount: w.potions@[drink_potion_of(w, e)]->Some_0.heal_amount,
                },
            )
        } else {
            rest
        }
    }
}

/// What one run of the potion system does. On success every referenced
/// potion's first drinker is healed up to its cap, every referenced potion
/// entity is destroyed outright, the player's drink is logged, and every
/// intent is cleared; a violating intent aborts the tick with the world
/// unchanged.
pub open spec fn drink_effect(pre: World, post: World, r: Result<(), PipelineError>) -> bool {
    match r {
        Ok(()) => {
            &&& drink_valid(pre)
            &&& post == (World {
                alive: post.alive,
                positions: post.positions,
                viewsheds: post.viewsheds,
                monsters: post.monsters,
                names: post.names,
                blockers: post.blockers,
                combat_stats: post.combat_stats,
                items: post.items,
                potions: post.potions,
                backpacks: post.backpacks,
                melee_intents: post.melee_intents,
                pickup_intents: post.pickup_intents,
                drop_intents: post.drop_intents,
                drink_intents: post.drink_intents,
                log: post.log,
                ..pre
            })
            &&& post.num_entities() == pre.num_entities()
            &&& post.positions@.len() == pre.num_entities()
            &&& post.viewsheds@.len() == pre.num_entities()
            &&& post.monsters@.len() == pre.num_entities()
            &&& post.names@.len() == pre.num_entities()
            &&& post.blockers@.len() == pre.num_entities()
            &&& post.combat_stats@.len() == pre.num_entities()
            &&& post.items@.len() == pre.num_entities()
            &&& post.potions@.len() == pre.num_entities()
            &&& post.backpacks@.len() == pre.num_entities()
            &&& post.melee_intents@.len() == pre.num_entities()
            &&& post.pickup_intents@.len() == pre.num_entities()
            &&& post.drop_intents@.len() == pre.num_entities()
            &&& post.drink_intents@.len() == pre.num_entities()
            &&& forall|e: int| 0 <= e < pre.num_entities() ==> post.drink_intents@[e] is None
            &&& forall|k: int|
                0 <= k < pre.num_entities() && !potion_referenced(pre, k) ==> {
                    &&& post.alive@[k] == pre.alive@[k]
                    &&& post.positions@[k] == pre.positions@[k]
                    &&& post.viewsheds@[k] == pre.viewsheds@[k]
                    &&& post.monsters@[k] == pre.monsters@[k]
                    &&& post.names@[k] == pre.names@[k]
                    &&& post.blockers@[k] == pre.blockers@[k]
                    &&& post.items@[k] == pre.items@[k]
                    &&& post.potions@[k] == pre.potions@[k]
                    &&& post.backpacks@[k] == pre.backpacks@[k]
                    &&& post.melee_intents@[k] == pre.melee_intents@[k]
                    &&& post.pickup_intents@[k] == pre.pickup_intents@[k]
                    &&& post.drop_intents@[k] == pre.drop_intents@[k]
                }
            &&& forall|k: int|
                0 <= k < pre.num_entities() && !potion_referenced(pre, k) && drink_first(pre, k)
                    ==> post.combat_stats@[k] == Some(drink_healed_stats(pre, k))
            &&& forall|k: int|
                0 <= k < pre.num_entities() && !potion_referenced(pre, k) && !drink_first(pre, k)
                    ==> post.combat_stats@[k] == pre.combat_stats@[k]
            &&& forall|p: int|
                0 <= p < pre.num_entities() && potion_referenced(pre, p) ==> {
                    &&& !post.alive@[p]
                    &&& post.positions@[p] is None
                    &&& post.viewsheds@[p] is None
                    &&& post.monsters@[p] is None
                    &&& post.names@[p] is None
                    &&& post.blockers@[p] is None
                    &&& post.combat_stats@[p] is None
                    &&& post.items@[p] is None
                    &&& post.potions@[p] is None
                    &&& post.backpacks@[p] is None
                    &&& post.melee_intents@[p] is None
                    &&& post.pickup_intents@[p] is None
                    &&& post.drop_intents@[p] is None
                }
            &&& post.log.entries@ == drink_log(pre, pre.num_entities()).reverse()
                + pre.log.entries@
        },
        Err(err) => {
            &&& post == pre
            &&& exists|e: int|
                #[trigger] drink_violation(pre, e) && (forall|k: int|
                    0 <= k < e ==> !drink_violation(pre, k)) && err == drink_error_kind(pre, e)
        },
    }
}

/// Some eligible drinker earlier than `e` names potion `p`, so `p` is
/// already consumed when `e`'s turn comes.
pub open spec fn drunk_before(w: World, p: int, e: int) -> bool {
    exists|e2: int| 0 <= e2 < e && drink_eligible(w, e2) && drink_potion_of(w, e2) == p
}

/// How `drunk_before` grows as the scan advances by one entity.
pub proof fn lemma_drunk_before_step(w: World, p: int, e: int)
    requires
        0 <= e,
    ensures
        drunk_before(w, p, e + 1) == (drunk_before(w, p, e) || (drink_eligible(w, e)
            && drink_potion_of(w, e) == p)),
{
    if drunk_before(w, p, e + 1) {
        let e2 = choose|e2: int|
            0 <= e2 < e + 1 && drink_eligible(w, e2) && drink_potion_of(w, e2) == p;
        if e2 < e {
            assert(drunk_before(w, p, e));
        } else {
            assert(e2 == e);
        }
    }
    if drunk_before(w, p, e) {
        let e2 = choose|e2: int| 0 <= e2 < e && drink_eligible(w, e2) && drink_potion_of(w, e2) == p;
        assert(0 <= e2 < e + 1 && drink_eligible(w, e2) && drink_potion_of(w, e2) == p);
        assert(drunk_before(w, p, e + 1));
    }
    if drink_eligible(w, e) && drink_potion_of(w, e) == p {
        assert(0 <= e < e + 1 && drink_eligible(w, e) && drink_potion_of(w, e) == p);
        assert(drunk_before(w, p, e + 1));
    }
}

/// Applies drink intents: heal the drinker, destroy the potion.
pub struct PotionUseSystem;

impl PotionUseSystem {
    /// For every drink intent whose drinker has combat stats: if the potion
    /// entity still carries `Potion`, raise the drinker's hit points by its
    /// strength capped at the maximum, log the drink if the drinker is the
    /// player, and destroy the potion entity entirely; then clear all
    /// intents. A violating intent aborts the tick with the world unchanged.
    pub fn run(world: &mut World) -> (r: Result<(), PipelineError>)
        requires
            old(world).wf(),
        ensures
            final(world).wf(),
            drink_effect(*old(world), *final(world), r),
    {
        let n: usize = world.alive.len();
        let mut e: usize = 0;
        while e < n
            invariant
                e <= n,
                n == old(world).num_entities(),
                *world == *old(world),
                old(world).wf(),
                forall|k: int| 0 <= k < e ==> !drink_violation(*old(world), k),
            decreases n - e,
        {
            match world.drink_intents[e] {
                Some(intent) => {
                    if world.combat_stats[e].is_some() {
                        let p = intent.potion;
                        if world.potions[p].is_none() {
                            proof {
                                assert(drink_violation(*old(world), e as int));
                            }
                            return Err(PipelineError::MissingPotion);
                        }
                        if (world.drink_intents[p].is_some() && world.combat_stats[p].is_some())
                            || p == world.player_entity {
                            proof {
                                assert(drink_violation(*old(world), e as int));
                            }
                            return Err(PipelineError::PotionConflict);
                        }
                        if e == world.player_entity {
                            if world.names[p].is_none() {
                                proof {
                                    assert(drink_violation(*old(world), e as int));
                                }
                                return Err(PipelineError::PotionUnnamed);
                            }
                        }
                        proof {
                            assert(!drink_violation(*old(world), e as int));
                        }
                    }
                },
                None => {},
            }
            e += 1;
        }
        proof {
            assert forall|e2: int| !drink_violation(*old(world), e2) by {
                if 0 <= e2 < n {
                } else {
                    assert(!drink_eligible(*old(world), e2));
                }
            }
        }
        let mut e: usize = 0;
        while e < n
            invariant
                e <= n,
                n == old(world).num_entities(),
                old(world).wf(),
                drink_valid(*old(world)),
                world.wf(),
                *world == (World {
                    alive: world.alive,
                    positions: world.positions,
                    viewsheds: world.viewsheds,
                    monsters: world.monsters,
                    names: world.names,
                    blockers: world.blockers,
                    combat_stats: world.combat_stats,
                    items: world.items,
                    potions: world.potions,
                    backpacks: world.backpacks,
                    melee_intents: world.melee_intents,
                    pickup_intents: world.pickup_intents,
                    drop_intents: world.drop_intents,
                    drink_intents: world.drink_intents,
                    log: world.log,
                    ..*old(world)
                }),
                world.num_entities() == n,
                world.positions@.len() == n,
                world.viewsheds@.len() == n,
                world.monsters@.len() == n,
                world.names@.len() == n,
                world.blockers@.len() == n,
                world.combat_stats@.len() == n,
                world.items@.len() == n,
                world.potions@.len() == n,
                world.backpacks@.len() == n,
                world.melee_intents@.len() == n,
                world.pickup_intents@.len() == n,
                world.drop_intents@.len() == n,
                world.drink_intents@.len() == n,
                forall|k: int|
                    0 <= k < n && !(#[trigger] drunk_before(*old(world), k, e as int)) ==> {
                        &&& world.alive@[k] == old(world).alive@[k]
                        &&& world.positions@[k] == old(world).positions@[k]
                        &&& world.viewsheds@[k] == old(world).viewsheds@[k]
                        &&& world.monsters@[k] == old(world).monsters@[k]
                        &&& world.names@[k] == old(world).names@[k]
                        &&& world.blockers@[k] == old(world).blockers@[k]
                        &&& world.items@[k] == old(world).items@[k]
                        &&& world.potions@[k] == old(world).potions@[k]
                        &&& world.backpacks@[k] == old(world).backpacks@[k]
                        &&& world.melee_intents@[k] == old(world).melee_intents@[k]
                        &&& world.pickup_intents@[k] == old(world).pickup_intents@[k]
                        &&& world.drop_intents@[k] == old(world).drop_intents@[k]
                        &&& world.drink_intents@[k] == old(world).drink_intents@[k]
                    },
                forall|k: int|
                    0 <= k < n && !(#[trigger] drunk_before(*old(world), k, e as int))
                        ==> world.combat_stats@[k] == (if drink_first(*old(world), k) && k < e {
                        Some(drink_healed_stats(*old(world), k))
                    } else {
                        old(world).combat_stats@[k]
                    }),
                forall|p: int|
                    0 <= p < n && #[trigger] drunk_before(*old(world), p, e as int) ==> {
                        &&& !world.alive@[p]
                        &&& world.positions@[p] is None
                        &&& world.viewsheds@[p] is None
                        &&& world.monsters@[p] is None
                        &&& world.names@[p] is None
                        &&& world.blockers@[p] is None
                        &&& world.combat_stats@[p] is None
                        &&& world.items@[p] is None
                        &&& world.potions@[p] is None
                        &&& world.backpacks@[p] is None
                        &&& world.melee_intents@[p] is None
                        &&& world.pickup_intents@[p] is None
                        &&& world.drop_intents@[p] is None
                        &&& world.drink_intents@[p] is None
                    },
                world.log.entries@ == drink_log(*old(world), e as int).reverse() + old(
                    world,
                ).log.entries@,
            decreases n - e,
        {
            let ghost w0 = *world;
            let ghost pre = *old(world);
            proof {
                assert forall|p: int|
                    drunk_before(pre, p, e + 1) == (drunk_before(pre, p, e as int) || (
                    drink_eligible(pre, e as int) && drink_potion_of(pre, e as int) == p)) by {
                    lemma_drunk_before_step(pre, p, e as int);
                }
            }
            match world.drink_intents[e] {
                Some(intent) => {
                    let p = intent.potion;
                    let s_opt = world.combat_stats[e];
                    match s_opt {
                        Some(s) => {
                            proof {
                                assert(!drunk_before(pre, e as int, e as int)) by {
                                    if drunk_before(pre, e as int, e as int) {
                                        assert(world.drink_intents@[e as int] is None);
                                    }
                                }
                                assert(world.drink_intents@[e as int] == pre.drink_intents@[
                                e as int]);
                                assert(drink_eligible(pre, e as int));
                                assert(!drink_violation(pre, e as int));
                                assert(s == pre.combat_stats@[e as int]->Some_0);
                            }
                            let pot_opt = world.potions[p];
                            match pot_opt {
                                Some(pot) => {
                                    proof {
                                        assert(!drunk_before(pre, p as int, e as int)) by {
                                            if drunk_before(pre, p as int, e as int) {
                                                assert(world.potions@[p as int] is None);
                                            }
                                        }
                                        assert(drink_first(pre, e as int)) by {
                                            assert forall|e2: int|
                                                0 <= e2 < e implies !(drink_eligible(pre, e2)
                                                && drink_potion_of(pre, e2) == drink_potion_of(
                                                pre,
                                                e as int,
                                            )) by {
                                                if drink_eligible(pre, e2) && drink_potion_of(
                                                    pre,
                                                    e2,
                                                ) == p as int {
                                                    assert(drunk_before(pre, p as int, e as int));
                                                }
                                            }
                                        }
                                        assert(pot == pre.potions@[p as int]->Some_0);
                                    }
                                    let sum: i32 = s.hp + pot.heal_amount;
                                    let new_hp: i32 = if sum > s.max_hp {
                                        s.max_hp
                                    } else {
                                        sum
                                    };
                                    world.combat_stats[e] = Some(
                                        CombatStats {
                                            max_hp: s.max_hp,
                                            defense: s.defense,
                                            power: s.power,
                                            hp: new_hp,
                                        },
                                    );
                                    if e == world.player_entity {
                                        let name = match &world.names[p] {
                                            Some(nm) => nm.name.clone(),
                                            None => String::new(),
                                        };
                                        world.log.entries.insert(
                                            0,
                                            LogEntry::Drank { name, heal_amount: pot.heal_amount },
                                        );
                                    }
                                    world.alive[p] = false;
                                    world.positions[p] = None;
                                    world.viewsheds[p] = None;
                                    world.monsters[p] = None;
                                    world.names[p] = None;
                                    world.blockers[p] = None;
                                    world.combat_stats[p] = None;
                                    world.items[p] = None;
                                    world.potions[p] = None;
                                    world.backpacks[p] = None;
                                    world.melee_intents[p] = None;
                                    world.pickup_intents[p] = None;
                                    world.drop_intents[p] = None;
                                    world.drink_intents[p] = None;
                                    proof {
                                        assert(p != e as usize);
                                        assert(world.combat_stats@[e as int] == Some(
                                            drink_healed_stats(pre, e as int),
                                        ));
                                        assert(world.log.entries@ =~= drink_log(
                                            pre,
                                            e + 1,
                                        ).reverse() + pre.log.entries@);
                                        assert forall|k: int|
                                            0 <= k < n && !(#[trigger] drunk_before(pre, k, e + 1))
                                                implies world.combat_stats@[k] == (if drink_first(
                                            pre,
                                            k,
                                        ) && k < e + 1 {
                                            Some(drink_healed_stats(pre, k))
                                        } else {
                                            pre.combat_stats@[k]
                                        }) by {
                                            if k == e as int {
                                                assert(drink_first(pre, e as int));
                                                assert(world.combat_stats@[k] == Some(
                                                    drink_healed_stats(pre, k),
                                                ));
                                            } else if k == p as int {
                                                assert(drink_eligible(pre, e as int)
                                                    && drink_potion_of(pre, e as int) == p as int);
                                                assert(drunk_before(pre, k, e + 1));
                                                assert(false);
                                            } else {
                                                assert(world.combat_stats@[k]
                                                    == w0.combat_stats@[k]);
                                                assert(!drunk_before(pre, k, e as int));
                                            }
                                        }
                                        assert forall|k: int|
                                            0 <= k < n && !(#[trigger] drunk_before(pre, k, e + 1))
                                                implies {
                                            &&& world.alive@[k] == pre.alive@[k]
                                            &&& world.positions@[k] == pre.positions@[k]
                                            &&& world.viewsheds@[k] == pre.viewsheds@[k]
                                            &&& world.monsters@[k] == pre.monsters@[k]
                                            &&& world.names@[k] == pre.names@[k]
                                            &&& world.blockers@[k] == pre.blockers@[k]
                                            &&& world.items@[k] == pre.items@[k]
                                            &&& world.potions@[k] == pre.potions@[k]
                                            &&& world.backpacks@[k] == pre.backpacks@[k]
                                            &&& world.melee_intents@[k] == pre.melee_intents@[k]
                                            &&& world.pickup_intents@[k] == pre.pickup_intents@[k]
                                            &&& world.drop_intents@[k] == pre.drop_intents@[k]
                                            &&& world.drink_intents@[k] == pre.drink_intents@[k]
                                        } by {
                                            if k == p as int {
                                                assert(drink_eligible(pre, e as int)
                                                    && drink_potion_of(pre, e as int) == p as int);
                                                assert(drunk_before(pre, k, e + 1));
                                                assert(false);
                                            } else {
                                                assert(!drunk_before(pre, k, e as int));
                                            }
                                        }
                                        assert forall|p2: int|
                                            0 <= p2 < n && #[trigger] drunk_before(pre, p2, e + 1)
                                                implies {
                                            &&& !world.alive@[p2]
                                            &&& world.positions@[p2] is None
                                            &&& world.viewsheds@[p2] is None
                                            &&& world.monsters@[p2] is None
                                            &&& world.names@[p2] is None
                                            &&& world.blockers@[p2] is None
                                            &&& world.combat_stats@[p2] is None
                                            &&& world.items@[p2] is None
                                            &&& world.potions@[p2] is None
                                            &&& world.backpacks@[p2] is None
                                            &&& world.melee_intents@[p2] is None
                                            &&& world.pickup_intents@[p2] is None
                                            &&& world.drop_intents@[p2] is None
                                            &&& world.drink_intents@[p2] is None
                                        } by {
                                            if p2 == p as int {
                                            } else {
                                                assert(drunk_before(pre, p2, e as int));
                                                assert(p2 != e as int);
                                            }
                                        }
                                    }
                                },
                                None => {
                                    proof {
                                        assert(pre.potions@[p as int] is Some);
                                        assert(drunk_before(pre, p as int, e as int)) by {
                                            if !drunk_before(pre, p as int, e as int) {
                                                assert(world.potions@[p as int]
                                                    == pre.potions@[p as int]);
                                            }
                                        }
                                        assert(!drink_first(pre, e as int)) by {
                                            let e2 = choose|e2: int|
                                                0 <= e2 < e && drink_eligible(pre, e2)
                                                    && drink_potion_of(pre, e2) == p as int;
                                            assert(drink_eligible(pre, e2) && drink_potion_of(
                                                pre,
                                                e2,
                                            ) == drink_potion_of(pre, e as int));
                                        }
                                        assert(world.log.entries@ =~= drink_log(
                                            pre,
                                            e + 1,
                                        ).reverse() + pre.log.entries@);

                                        assert forall|k: int|
                                            0 <= k < n && !(#[trigger] drunk_before(pre, k, e + 1))
                                                implies world.combat_stats@[k] == (if drink_first(
                                            pre,
                                            k,
                                        ) && k < e + 1 {
                                            Some(drink_healed_stats(pre, k))
                                        } else {
                                            pre.combat_stats@[k]
                                        }) by {
                                            assert(!drunk_before(pre, k, e as int));
                                            if k == e as int {
                                                assert(!drink_first(pre, k));
                                            }
                                        }
                                        assert forall|k: int|
                                            0 <= k < n && !(#[trigger] drunk_before(pre, k, e + 1)) implies {
                                            &&& world.alive@[k] == pre.alive@[k]
                                            &&& world.positions@[k] == pre.positions@[k]
                                            &&& world.viewsheds@[k] == pre.viewsheds@[k]
                                            &&& world.monsters@[k] == pre.monsters@[k]
                                            &&& world.names@[k] == pre.names@[k]
                                            &&& world.blockers@[k] == pre.blockers@[k]
                                            &&& world.items@[k] == pre.items@[k]
                                            &&& world.potions@[k] == pre.potions@[k]
                                            &&& world.backpacks@[k] == pre.backpacks@[k]
                                            &&& world.melee_intents@[k] == pre.melee_intents@[k]
                                            &&& world.pickup_intents@[k] == pre.pickup_intents@[k]
                                            &&& world.drop_intents@[k] == pre.drop_intents@[k]
                                            &&& world.drink_intents@[k] == pre.drink_intents@[k]
                                        } by {
                                            assert(!drunk_before(pre, k, e as int));
                                        }
                                        assert forall|p2: int|
                                            0 <= p2 < n && #[trigger] drunk_before(pre, p2, e + 1)
                                                implies drunk_before(pre, p2, e as int) by {}
                                    }
                                },
                            }
                        },
                        None => {
                            proof {
                                assert(!drink_eligible(pre, e as int)) by {
                                    if drink_eligible(pre, e as int) {
                                        assert(!potion_referenced(pre, e as int)) by {
                                            if potion_referenced(pre, e as int) {
                                                let e2 = choose|e2: int|
                                                    drink_eligible(pre, e2) && drink_potion_of(
                                                        pre,
                                                        e2,
                                                    ) == e as int;
                                                assert(drink_violation(pre, e2));
                                            }
                                        }
                                        assert(!drunk_before(pre, e as int, e as int)) by {
                                            if drunk_before(pre, e as int, e as int) {
                                                let e2 = choose|e2: int|
                                                    0 <= e2 < e && drink_eligible(pre, e2)
                                                        && drink_potion_of(pre, e2) == e as int;
                                                assert(potion_referenced(pre, e as int));
                                            }
                                        }
                                        assert(world.combat_stats@[e as int]
                                            == pre.combat_stats@[e as int]);
                                    }
                                }
                                assert(world.log.entries@ =~= drink_log(pre, e + 1).reverse()
                                    + pre.log.entries@);

                                assert forall|k: int|
                                    0 <= k < n && !(#[trigger] drunk_before(pre, k, e + 1))
                                        implies world.combat_stats@[k] == (if drink_first(pre, k)
                                        && k < e + 1 {
                                        Some(drink_healed_stats(pre, k))
                                    } else {
                                        pre.combat_stats@[k]
                                    }) by {
                                    assert(!drunk_before(pre, k, e as int));
                                    if k == e as int {
                                        assert(!drink_first(pre, k));
                                    }
                                }
                                assert forall|k: int|
                                    0 <= k < n && !(#[trigger] drunk_before(pre, k, e + 1)) implies {
                                    &&& world.alive@[k] == pre.alive@[k]
                                    &&& world.positions@[k] == pre.positions@[k]
                                    &&& world.viewsheds@[k] == pre.viewsheds@[k]
                                    &&& world.monsters@[k] == pre.monsters@[k]
                                    &&& world.names@[k] == pre.names@[k]
                                    &&& world.blockers@[k] == pre.blockers@[k]
                                    &&& world.items@[k] == pre.items@[k]
                                    &&& world.potions@[k] == pre.potions@[k]
                                    &&& world.backpacks@[k] == pre.backpacks@[k]
                                    &&& world.melee_intents@[k] == pre.melee_intents@[k]
                                    &&& world.pickup_intents@[k] == pre.pickup_intents@[k]
                                    &&& world.drop_intents@[k] == pre.drop_intents@[k]
                                    &&& world.drink_intents@[k] == pre.drink_intents@[k]
                                } by {
                                    assert(!drunk_before(pre, k, e as int));
                                }
                                assert forall|p2: int|
                                    0 <= p2 < n && #[trigger] drunk_before(pre, p2, e + 1) implies
                                drunk_before(pre, p2, e as int) by {}
                            }
                        },
                    }
                },
                None => {
                    proof {
                        assert(!drink_eligible(pre, e as int)) by {
                            if drink_eligible(pre, e as int) {
                                assert(!potion_referenced(pre, e as int)) by {
                                    if potion_referenced(pre, e as int) {
                                        let e2 = choose|e2: int|
                                            drink_eligible(pre, e2) && drink_potion_of(pre, e2)
                                                == e as int;
                                        assert(drink_violation(pre, e2));
                                    }
                                }
                                assert(!drunk_before(pre, e as int, e as int)) by {
                                    if drunk_before(pre, e as int, e as int) {
                                        let e2 = choose|e2: int|
                                            0 <= e2 < e && drink_eligible(pre, e2)
                                                && drink_potion_of(pre, e2) == e as int;
                                        assert(potion_referenced(pre, e as int));
                                    }
                                }
                                assert(world.drink_intents@[e as int] == pre.drink_intents@[
                                e as int]);
                            }
                        }
                        assert(world.log.entries@ =~= drink_log(pre, e + 1).reverse()
                            + pre.log.entries@);

                        assert forall|k: int|
                            0 <= k < n && !(#[trigger] drunk_before(pre, k, e + 1)) implies
                        world.combat_stats@[k] == (if drink_first(pre, k) && k < e + 1 {
                            Some(drink_healed_stats(pre, k))
                        } else {
                            pre.combat_stats@[k]
                        }) by {
                            assert(!drunk_before(pre, k, e as int));
                            if k == e as int {
                                assert(!drink_first(pre, k));
                            }
                        }
                        assert forall|k: int|
                            0 <= k < n && !(#[trigger] drunk_before(pre, k, e + 1)) implies {
                            &&& world.alive@[k] == pre.alive@[k]
                            &&& world.positions@[k] == pre.positions@[k]
                            &&& world.viewsheds@[k] == pre.viewsheds@[k]
                            &&& world.monsters@[k] == pre.monsters@[k]
                            &&& world.names@[k] == pre.names@[k]
                            &&& world.blockers@[k] == pre.blockers@[k]
                            &&& world.items@[k] == pre.items@[k]
                            &&& world.potions@[k] == pre.potions@[k]
                            &&& world.backpacks@[k] == pre.backpacks@[k]
                            &&& world.melee_intents@[k] == pre.melee_intents@[k]
                            &&& world.pickup_intents@[k] == pre.pickup_intents@[k]
                            &&& world.drop_intents@[k] == pre.drop_intents@[k]
                            &&& world.drink_intents@[k] == pre.drink_intents@[k]
                        } by {
                            assert(!drunk_before(pre, k, e as int));
                        }
                        assert forall|p2: int|
                            0 <= p2 < n && #[trigger] drunk_before(pre, p2, e + 1) implies
                        drunk_before(pre, p2, e as int) by {}
                    }
                },
            }
            e += 1;
        }
        proof {
            let pre = *old(world);
            assert forall|p: int| drunk_before(pre, p, n as int) == potion_referenced(pre, p) by {
                if drunk_before(pre, p, n as int) {
                    let e2 = choose|e2: int|
                        0 <= e2 < n && drink_eligible(pre, e2) && drink_potion_of(pre, e2) == p;
                    assert(potion_referenced(pre, p));
                }
                if potion_referenced(pre, p) {
                    let e2 = choose|e2: int|
                        drink_eligible(pre, e2) && drink_potion_of(pre, e2) == p;
                    assert(0 <= e2 < n && drink_eligible(pre, e2) && drink_potion_of(pre, e2)
                        == p);
                    assert(drunk_before(pre, p, n as int));
                }
            }
        }
        let mut e: usize = 0;
        while e < n
            invariant
                e <= n,
                n == old(world).num_entities(),
                old(world).wf(),
                world.wf(),
                drink_valid(*old(world)),
                *world == (World {
                    alive: world.alive,
                    positions: world.positions,
                    viewsheds: world.viewsheds,
                    monsters: world.monsters,
                    names: world.names,
                    blockers: world.blockers,
                    combat_stats: world.combat_stats,
                    items: world.items,
                    potions: world.potions,
                    backpacks: world.backpacks,
                    melee_intents: world.melee_intents,
                    pickup_intents: world.pickup_intents,
                    drop_intents: world.drop_intents,
                    drink_intents: world.drink_intents,
                    log: world.log,
                    ..*old(world)
                }),
                world.num_entities() == n,
                world.positions@.len() == n,
                world.viewsheds@.len() == n,
                world.monsters@.len() == n,
                world.names@.len() == n,
                world.blockers@.len() == n,
                world.combat_stats@.len() == n,
                world.items@.len() == n,
                world.potions@.len() == n,
                world.backpacks@.len() == n,
                world.melee_intents@.len() == n,
                world.pickup_intents@.len() == n,
                world.drop_intents@.len() == n,
                world.drink_intents@.len() == n,
                forall|k: int| 0 <= k < e ==> world.drink_intents@[k] is None,
                forall|k: int|
                    0 <= k < n && !potion_referenced(*old(world), k) ==> {
                        &&& world.alive@[k] == old(world).alive@[k]
                        &&& world.positions@[k] == old(world).positions@[k]
                        &&& world.viewsheds@[k] == old(world).viewsheds@[k]
                        &&& world.monsters@[k] == old(world).monsters@[k]
                        &&& world.names@[k] == old(world).names@[k]
                        &&& world.blockers@[k] == old(world).blockers@[k]
                        &&& world.items@[k] == old(world).items@[k]
                        &&& world.potions@[k] == old(world).potions@[k]
                        &&& world.backpacks@[k] == old(world).backpacks@[k]
                        &&& world.melee_intents@[k] == old(world).melee_intents@[k]
                        &&& world.pickup_intents@[k] == old(world).pickup_intents@[k]
                        &&& world.drop_intents@[k] == old(world).drop_intents@[k]
                    },
                forall|k: int|
                    0 <= k < n && !potion_referenced(*old(world), k) && drink_first(*old(world), k)
                        ==> world.combat_stats@[k] == Some(drink_healed_stats(*old(world), k)),
                forall|k: int|
                    0 <= k < n && !potion_referenced(*old(world), k) && !drink_first(
                        *old(world),
                        k,
                    ) ==> world.combat_stats@[k] == old(world).combat_stats@[k],
                forall|p: int|
                    0 <= p < n && potion_referenced(*old(world), p) ==> {
                        &&& !world.alive@[p]
                        &&& world.positions@[p] is None
                        &&& world.viewsheds@[p] is None
                        &&& world.monsters@[p] is None
                        &&& world.names@[p] is None
                        &&& world.blockers@[p] is None
                        &&& world.combat_stats@[p] is None
                        &&& world.items@[p] is None
                        &&& world.potions@[p] is None
                        &&& world.backpacks@[p] is None
                        &&& world.melee_intents@[p] is None
                        &&& world.pickup_intents@[p] is None
                        &&& world.drop_intents@[p] is None
                    },
                world.log.entries@ == drink_log(*old(world), n as int).reverse() + old(
                    world,
                ).log.entries@,
            decreases n - e,
        {
            world.drink_intents[e] = None;
            e += 1;
        }
        Ok(())
    }
}

/// Potion use is idempotent on the health cap: a drinker already at full
/// hit points stays at full hit points, and the potion entity no longer
/// exists afterwards.
pub proof fn potion_use_caps_health(pre: World, post: World, e: int)
    requires
        pre.wf(),
        drink_effect(pre, post, Ok(())),
        drink_eligible(pre, e),
        forall|e2: int| 0 <= e2 < pre.num_entities() && e2 != e ==> pre.drink_intents@[e2] is None,
        pre.combat_stats@[e]->Some_0.hp == pre.combat_stats@[e]->Some_0.max_hp,
    ensures
        post.combat_stats@[e] is Some,
        post.combat_stats@[e]->Some_0.hp == pre.combat_stats@[e]->Some_0.max_hp,
        !post.alive@[drink_potion_of(pre, e)],
        post.potions@[drink_potion_of(pre, e)] is None,
    decreases 0int,
{
    let p = drink_potion_of(pre, e);
    assert(!drink_violation(pre, e));
    assert(potion_referenced(pre, p));
    assert(!potion_referenced(pre, e)) by {
        if potion_referenced(pre, e) {
            let e2 = choose|e2: int|
                drink_eligible(pre, e2) && drink_potion_of(pre, e2) == e as int;
            assert(e2 == e);
            assert(drink_eligible(pre, e));
            assert(drink_violation(pre, e2));
        }
    }
    assert(drink_first(pre, e));
    assert(post.combat_stats@[e] == Some(drink_healed_stats(pre, e)));
    assert(0 <= pre.potions@[p]->Some_0.heal_amount);
}


/// Round trip: picking an item up, dropping it, and picking it up again
/// restores the same `InBackpack` owner as the first pickup, leaves the item
/// off the ground, and neither duplicates nor destroys any entity.
///
/// `w0` holds exactly one pickup intent (held by `h`, collecting `i` for
/// `c`) and no drop intents; `w1b` is the world after the first pickup with
/// one drop intent for `i` placed on `c`; `w2b` is the world after the drop
/// with the pickup intent placed again.
pub proof fn pickup_drop_pickup_round_trip(
    w0: World,
    w1: World,
    w1b: World,
    w2: World,
    w2b: World,
    w3: World,
    h: usize,
    c: usize,
    i: usize,
)
    requires
        w0.wf(),
        pickup_effect(w0, w1, Ok(())),
        pickup_requested(w0, h as int),
        w0.pickup_intents@[h as int] == Some(WantsToPickupItem { collected_by: c, item: i }),
        forall|e2: int| pickup_requested(w0, e2) ==> e2 == h as int,
        forall|e: int| 0 <= e < w0.num_entities() ==> w0.drop_intents@[e] is None,
        c != i,
        (c as int) < w0.num_entities(),
        w1b == (World { drop_intents: w1b.drop_intents, ..w1 }),
        w1b.drop_intents@ == w1.drop_intents@.update(c as int, Some(WantsToDropItem { item: i })),
        drop_effect(w1b, w2, Ok(())),
        w2b == (World { pickup_intents: w2b.pickup_intents, ..w2 }),
        w2b.pickup_intents@ == w2.pickup_intents@.update(
            c as int,
            Some(WantsToPickupItem { collected_by: c, item: i }),
        ),
        pickup_effect(w2b, w3, Ok(())),
    ensures
        w1.backpacks@[i as int] == Some(InBackpack { owner: c }),
        w1.positions@[i as int] is None,
        w2.backpacks@[i as int] is None,
        w2.positions@[i as int] == w1.positions@[c as int],
        w3.backpacks@[i as int] == w1.backpacks@[i as int],
        w3.backpacks@[i as int] == Some(InBackpack { owner: c }),
        w3.positions@[i as int] is None,
        w3.alive@ == w0.alive@,
        w3.num_entities() == w0.num_entities(),
{
    let n = w0.num_entities();
    assert((i as int) < n && (h as int) < n);
    // First pickup: the single intent is trivially the unique one for `i`.
    assert(pickup_unique(w0, h as int));
    assert(pickup_item_of(w0, h as int) == i as int);
    assert(w1.backpacks@[i as int] == Some(InBackpack { owner: c }));
    assert(pickup_referenced(w0, i as int));
    assert(w1.positions@[i as int] is None);
    // The drop: the single drop intent sits on `c` and names `i`.
    assert(w1b.num_entities() == n);
    assert(drop_requested(w1b, c as int));
    assert(drop_item_of(w1b, c as int) == i as int);
    assert(drop_unique(w1b, c as int)) by {
        assert forall|e2: int|
            drop_requested(w1b, e2) && drop_item_of(w1b, e2) == drop_item_of(
                w1b,
                c as int,
            ) implies e2 == c as int by {
            if e2 != c as int {
                assert(w1b.drop_intents@[e2] == w1.drop_intents@[e2]);
                assert(w1.drop_intents@[e2] == w0.drop_intents@[e2]);
            }
        }
    }
    assert(!drop_referenced(w1b, c as int)) by {
        if drop_referenced(w1b, c as int) {
            let e2 = choose|e2: int|
                drop_requested(w1b, e2) && drop_item_of(w1b, e2) == c as int;
            if e2 != c as int {
                assert(w1b.drop_intents@[e2] == w0.drop_intents@[e2]);
            }
        }
    }
    assert(w2.positions@[i as int] == w1b.positions@[c as int]);
    assert(drop_referenced(w1b, i as int));
    assert(w2.backpacks@[i as int] is None);
    // Second pickup: again a single intent, now held by `c`.
    assert(w2b.num_entities() == n);
    assert(pickup_requested(w2b, c as int));
    assert(pickup_item_of(w2b, c as int) == i as int);
    assert(pickup_unique(w2b, c as int)) by {
        assert forall|e2: int|
            pickup_requested(w2b, e2) && pickup_item_of(w2b, e2) == pickup_item_of(
                w2b,
                c as int,
            ) implies e2 == c as int by {
            if e2 != c as int {
                assert(w2b.pickup_intents@[e2] == w2.pickup_intents@[e2]);
                assert(w2.pickup_intents@[e2] is None);
            }
        }
    }
    assert(w3.backpacks@[i as int] == Some(InBackpack { owner: c }));
    assert(pickup_referenced(w2b, i as int));
    assert(w3.positions@[i as int] is None);
    assert(w3.alive@ == w0.alive@);
}


/// One-shot pickup, drop and drink intents are empty immediately after
/// their owning systems complete.
pub proof fn inventory_intents_cleared_law(
    pre1: World,
    post1: World,
    pre2: World,
    post2: World,
    pre3: World,
    post3: World,
)
    requires
        pickup_effect(pre1, post1, Ok(())),
        drop_effect(pre2, post2, Ok(())),
        drink_effect(pre3, post3, Ok(())),
    ensures
        forall|e: int| 0 <= e < pre1.num_entities() ==> post1.pickup_intents@[e] is None,
        forall|e: int| 0 <= e < pre2.num_entities() ==> post2.drop_intents@[e] is None,
        forall|e: int| 0 <= e < pre3.num_entities() ==> post3.drink_intents@[e] is None,
{
}


/// With exactly one pickup intent, held by `h`, the pickup system's log
/// additions are that one player pickup, or nothing.
proof fn lemma_single_pickup_log(w: World, h: usize, n: int)
    requires
        pickup_requested(w, h as int),
        forall|e2: int| pickup_requested(w, e2) ==> e2 == h as int,
        0 <= n <= w.num_entities(),
    ensures
        pickup_log(w, n) == if (h as int) < n && pickup_collector_of(w, h as int)
            == w.player_entity as int {
            seq![LogEntry::PickedUp { name: w.names@[pickup_item_of(w, h as int)]->Some_0.name }]
        } else {
            Seq::<LogEntry>::empty()
        },
    decreases n,
{
    if n > 0 {
        lemma_single_pickup_log(w, h, n - 1);
        if pickup_requested(w, n - 1) {
            assert(n - 1 == h as int);
        }
        assert(Seq::<LogEntry>::empty().push(
            LogEntry::PickedUp { name: w.names@[pickup_item_of(w, h as int)]->Some_0.name },
        ) =~= seq![
            LogEntry::PickedUp { name: w.names@[pickup_item_of(w, h as int)]->Some_0.name },
        ]);
    }
}

/// A single pickup, in full: the item leaves the ground, lands in the
/// collector's backpack, and the pickup is logged exactly when the
/// collector is the player.
pub proof fn single_pickup_law(pre: World, post: World, h: usize, c: usize, i: usize)
    requires
        pre.wf(),
        pickup_effect(pre, post, Ok(())),
        pickup_requested(pre, h as int),
        pre.pickup_intents@[h as int] == Some(WantsToPickupItem { collected_by: c, item: i }),
        forall|e2: int| pickup_requested(pre, e2) ==> e2 == h as int,
    ensures
        post.positions@[i as int] is None,
        post.backpacks@[i as int] == Some(InBackpack { owner: c }),
        post.pickup_intents@[h as int] is None,
        post.log.entries@ == if c == pre.player_entity {
            seq![LogEntry::PickedUp { name: pre.names@[i as int]->Some_0.name }]
                + pre.log.entries@
        } else {
            pre.log.entries@
        },
{
    assert(pickup_unique(pre, h as int));
    assert(pickup_item_of(pre, h as int) == i as int);
    assert(pickup_referenced(pre, i as int));
    lemma_single_pickup_log(pre, h, pre.num_entities());
    if c == pre.player_entity {
        assert(pickup_log(pre, pre.num_entities()).reverse() =~= seq![
            LogEntry::PickedUp { name: pre.names@[i as int]->Some_0.name },
        ]);
    } else {
        assert(pickup_log(pre, pre.num_entities()).reverse() =~= Seq::<LogEntry>::empty());
        assert(Seq::<LogEntry>::empty() + pre.log.entries@ =~= pre.log.entries@);
    }
}

/// With exactly one drop intent, held by `h`, the drop system's log
/// additions are that one player drop, or nothing.
proof fn lemma_single_drop_log(w: World, h: usize, n: int)
    requires
        drop_requested(w, h as int),
        forall|e2: int| drop_requested(w, e2) ==> e2 == h as int,
        0 <= n <= w.num_entities(),
    ensures
        drop_log(w, n) == if (h as int) < n && h as int == w.player_entity as int {
            seq![LogEntry::Dropped { name: w.names@[drop_item_of(w, h as int)]->Some_0.name }]
        } else {
            Seq::<LogEntry>::empty()
        },
    decreases n,
{
    if n > 0 {
        lemma_single_drop_log(w, h, n - 1);
        if drop_requested(w, n - 1) {
            assert(n - 1 == h as int);
        }
        assert(Seq::<LogEntry>::empty().push(
            LogEntry::Dropped { name: w.names@[drop_item_of(w, h as int)]->Some_0.name },
        ) =~= seq![
            LogEntry::Dropped { name: w.names@[drop_item_of(w, h as int)]->Some_0.name },
        ]);
    }
}

/// A single drop, in full: the item loses its backpack relation and gains a
/// position equal to the holder's current coordinates, the holder's own
/// position is kept, and the drop is logged exactly when the holder is the
/// player.
pub proof fn single_drop_law(pre: World, post: World, h: usize, i: usize)
    requires
        pre.wf(),
        drop_effect(pre, post, Ok(())),
        drop_requested(pre, h as int),
        pre.drop_intents@[h as int] == Some(WantsToDropItem { item: i }),
        forall|e2: int| drop_requested(pre, e2) ==> e2 == h as int,
        h != i,
    ensures
        post.backpacks@[i as int] is None,
        post.positions@[i as int] == pre.positions@[h as int],
        post.positions@[h as int] == pre.positions@[h as int],
        post.drop_intents@[h as int] is None,
        post.log.entries@ == if h == pre.player_entity {
            seq![LogEntry::Dropped { name: pre.names@[i as int]->Some_0.name }]
                + pre.log.entries@
        } else {
            pre.log.entries@
        },
{
    assert(drop_unique(pre, h as int));
    assert(drop_item_of(pre, h as int) == i as int);
    assert(drop_referenced(pre, i as int));
    assert(!drop_referenced(pre, h as int)) by {
        if drop_referenced(pre, h as int) {
            let e2 = choose|e2: int| drop_requested(pre, e2) && drop_item_of(pre, e2) == h as int;
            assert(e2 == h as int);
        }
    }
    lemma_single_drop_log(pre, h, pre.num_entities());
    if h == pre.player_entity {
        assert(drop_log(pre, pre.num_entities()).reverse() =~= seq![
            LogEntry::Dropped { name: pre.names@[i as int]->Some_0.name },
        ]);
    } else {
        assert(drop_log(pre, pre.num_entities()).reverse() =~= Seq::<LogEntry>::empty());
        assert(Seq::<LogEntry>::empty() + pre.log.entries@ =~= pre.log.entries@);
    }
}

} // verus!
