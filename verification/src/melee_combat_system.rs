//! The melee resolver: converts attack intents into queued damage
//! instructions using combat stats, then clears every intent.

use vstd::prelude::*;
use vstd::math::max;
use crate::components::SufferDamage;
use crate::world::PipelineError;
use crate::world::World;

verus! {

/// Entity `e` resolves an attack this tick: it holds a melee intent and has
/// combat stats of its own.
pub open spec fn melee_eligible(w: World, e: int) -> bool {
    &&& 0 <= e < w.num_entities()
    &&& w.melee_intents@[e] is Some
    &&& w.combat_stats@[e] is Some
}

/// The damage an attack by `e` inflicts: the attacker's power less the
/// target's defense, floored at one.
pub open spec fn melee_damage(w: World, e: int) -> int {
    let t = w.melee_intents@[e]->Some_0.target as int;
    max(1, w.combat_stats@[e]->Some_0.power - w.combat_stats@[t]->Some_0.defense)
}

/// The damage instructions enqueued while resolving the intents of entities
/// `0..n` in ascending order.
pub open spec fn melee_additions(w: World, n: int) -> Seq<SufferDamage>
    decreases n,
{
    if n <= 0 {
        Seq::empty()
    } else {
        let rest = melee_additions(w, n - 1);
        let e = n - 1;
        if melee_eligible(w, e) {
            rest.push(
                SufferDamage {
                    target: w.melee_intents@[e]->Some_0.target,
                    amount: melee_damage(w, e) as i32,
                },
            )
        } else {
            rest
        }
    }
}

/// Every resolved attack names a target that still has combat stats.
pub open spec fn melee_intents_valid(w: World) -> bool {
    forall|e: int|
        melee_eligible(w, e) ==> w.combat_stats@[(#[trigger] w.melee_intents@[e])->Some_0.target as int]
            is Some
}

/// What one run of the melee resolver does. On success exactly the eligible
/// intents become queued damage, in ascending attacker order, and every
/// intent is cleared; an intent against a target without combat stats aborts
/// the tick with the world unchanged.
pub open spec fn melee_effect(pre: World, post: World, r: Result<(), PipelineError>) -> bool {
    match r {
        Ok(()) => {
            &&& melee_intents_valid(pre)
            &&& post == (World {
                melee_intents: post.melee_intents,
                damage_queue: post.damage_queue,
                ..pre
            })
            &&& post.melee_intents@.len() == pre.num_entities()
            &&& forall|e: int| 0 <= e < pre.num_entities() ==> post.melee_intents@[e] is None
            &&& post.damage_queue@ == pre.damage_queue@ + melee_additions(pre, pre.num_entities())
        },
        Err(err) => {
            &&& err == PipelineError::MeleeTargetMissingStats
            &&& !melee_intents_valid(pre)
            &&& post == pre
        },
    }
}

/// Resolves melee intents into damage instructions.
pub struct MeleeCombatSystem;

impl MeleeCombatSystem {
    /// For every entity holding a melee intent and combat stats of its own,
    /// enqueue `SufferDamage` against the target for the attacker's power
    /// less the target's defense, floored at one; then clear all intents.
    /// A target without combat stats aborts the tick with the world
    /// unchanged.
    pub fn run(world: &mut World) -> (r: Result<(), PipelineError>)
        requires
            old(world).wf(),
        ensures
            final(world).wf(),
            melee_effect(*old(world), *final(world), r),
    {
        let n: usize = world.alive.len();
        let mut e: usize = 0;
        while e < n
            invariant
                e <= n,
                n == old(world).num_entities(),
                *world == *old(world),
                old(world).wf(),
                forall|k: int|
                    0 <= k < e && melee_eligible(*old(world), k) ==> old(world).combat_stats@[(
                    #[trigger] old(world).melee_intents@[k])->Some_0.target as int] is Some,
            decreases n - e,
        {
            match world.melee_intents[e] {
                Some(intent) => {
                    if world.combat_stats[e].is_some() {
                        if world.combat_stats[intent.target].is_none() {
                            return Err(PipelineError::MeleeTargetMissingStats);
                        }
                    }
                },
                None => {},
            }
            e += 1;
        }
        let mut e: usize = 0;
        while e < n
            invariant
                e <= n,
                n == old(world).num_entities(),
                old(world).wf(),
                melee_intents_valid(*old(world)),
                world.wf(),
                *world == (World { damage_queue: world.damage_queue, ..*old(world) }),
                world.damage_queue@ == old(world).damage_queue@ + melee_additions(
                    *old(world),
                    e as int,
                ),
            decreases n - e,
        {
            match world.melee_intents[e] {
                Some(intent) => {
                    let atk_opt = world.combat_stats[e];
                    match atk_opt {
                        Some(atk) => {
                            let tgt_opt = world.combat_stats[intent.target];
                            match tgt_opt {
                                Some(tgt) => {
                                    let raw: i32 = atk.power - tgt.defense;
                                    let amount: i32 = if raw < 1 {
                                        1
                                    } else {
                                        raw
                                    };
                                    world.damage_queue.push(
                                        SufferDamage { target: intent.target, amount },
                                    );
                                    proof {
                                        assert(world.damage_queue@ =~= old(world).damage_queue@
                                            + melee_additions(*old(world), e + 1));
                                    }
                                },
                                None => {
                                    proof {
                                        assert(melee_eligible(*old(world), e as int));
                                        assert(false);
                                    }
                                },
                            }
                        },
                        None => {},
                    }
                },
                None => {},
            }
            e += 1;
        }
        let mut e: usize = 0;
        while e < n
            invariant
                e <= n,
                n == old(world).num_entities(),
                old(world).wf(),
                melee_intents_valid(*old(world)),
                world.wf(),
                *world == (World {
                    melee_intents: world.melee_intents,
                    damage_queue: world.damage_queue,
                    ..*old(world)
                }),
                world.melee_intents@.len() == n,
                forall|k: int| 0 <= k < e ==> world.melee_intents@[k] is None,
                world.damage_queue@ == old(world).damage_queue@ + melee_additions(
                    *old(world),
                    n as int,
                ),
            decreases n - e,
        {
            world.melee_intents[e] = None;
            e += 1;
        }
        Ok(())
    }
}


/// One-shot melee intents are empty immediately after the melee resolver
/// completes.
pub proof fn melee_intents_cleared_law(pre: World, post: World)
    requires
        melee_effect(pre, post, Ok(())),
    ensures
        forall|e: int| 0 <= e < pre.num_entities() ==> post.melee_intents@[e] is None,
{
}

} // verus!
