//! The damage applicator and the death sweep.
//!
//! The applicator subtracts every queued damage instruction from its target's
//! hit points and clears the queue. The sweep then removes every named,
//! non-player combatant whose hit points fell below one; the player is never
//! removed — its death is only logged.

use vstd::prelude::*;
use crate::components::CombatStats;
use crate::components::SufferDamage;
use crate::game_log::LogEntry;
use crate::world::PipelineError;
use crate::world::World;

verus! {

/// `h` minus `a`, saturating at the smallest `i32` so that hit points can
/// never underflow.
pub open spec fn hp_minus(h: int, a: int) -> int {
    if h - a < i32::MIN as int {
        i32::MIN as int
    } else {
        h - a
    }
}

/// The hit points of entity `e` after applying every instruction of `q` that
/// targets it, in queue order, starting from `h0`.
pub open spec fn hp_after(h0: int, q: Seq<SufferDamage>, e: int) -> int
    decreases q.len(),
{
    if q.len() == 0 {
        h0
    } else {
        let prev = hp_after(h0, q.drop_last(), e);
        if q.last().target as int == e {
            hp_minus(prev, q.last().amount as int)
        } else {
            prev
        }
    }
}

/// Applying a queue of non-negative amounts never raises hit points and
/// never leaves the `i32` range.
pub proof fn lemma_hp_after_bounds(h0: int, q: Seq<SufferDamage>, e: int)
    requires
        i32::MIN <= h0 <= i32::MAX,
        forall|k: int| 0 <= k < q.len() ==> 0 <= (#[trigger] q[k]).amount,
    ensures
        i32::MIN <= hp_after(h0, q, e) <= h0,
    decreases q.len(),
{
    if q.len() > 0 {
        assert(forall|k: int|
            0 <= k < q.drop_last().len() ==> 0 <= (#[trigger] q.drop_last()[k]).amount);
        lemma_hp_after_bounds(h0, q.drop_last(), e);
    }
}

/// Damage accumulation: a queue holding exactly two instructions against the
/// same target takes their sum off that target's hit points, as long as the
/// result stays in range.
pub proof fn damage_accumulates(h0: int, q: Seq<SufferDamage>, e: int)
    requires
        i32::MIN <= h0 <= i32::MAX,
        q.len() == 2,
        q[0].target as int == e,
        q[1].target as int == e,
        0 <= q[0].amount,
        0 <= q[1].amount,
        i32::MIN <= h0 - q[0].amount - q[1].amount,
    ensures
        hp_after(h0, q, e) == h0 - q[0].amount - q[1].amount,
{
    assert(q.drop_last().drop_last() =~= Seq::<SufferDamage>::empty());
    assert(q.drop_last().last() == q[0]);
    assert(hp_after(h0, q.drop_last().drop_last(), e) == h0);
    assert(hp_after(h0, q.drop_last(), e) == hp_minus(h0, q[0].amount as int));
    assert(hp_after(h0, q, e) == hp_minus(hp_minus(h0, q[0].amount as int), q[1].amount as int));
}

/// Every queued instruction names a live target that has combat stats.
pub open spec fn damage_queue_valid(w: World) -> bool {
    forall|k: int|
        0 <= k < w.damage_queue@.len() ==> {
            let t = (#[trigger] w.damage_queue@[k]).target as int;
            &&& 0 <= t < w.num_entities()
            &&& w.alive@[t]
            &&& w.combat_stats@[t] is Some
        }
}

/// What one run of the damage applicator does. On success every combatant's
/// hit points drop by the queued amounts against it and the queue is empty;
/// on a stale queue entry the tick is aborted with the world unchanged.
pub open spec fn damage_effect(pre: World, post: World, r: Result<(), PipelineError>) -> bool {
    match r {
        Ok(()) => {
            &&& damage_queue_valid(pre)
            &&& post == (World {
                combat_stats: post.combat_stats,
                damage_queue: post.damage_queue,
                ..pre
            })
            &&& post.damage_queue@.len() == 0
            &&& post.combat_stats@.len() == pre.combat_stats@.len()
            &&& forall|e: int|
                0 <= e < pre.num_entities() && pre.combat_stats@[e] is None
                    ==> post.combat_stats@[e] is None
            &&& forall|e: int|
                0 <= e < pre.num_entities() && pre.combat_stats@[e] is Some ==> {
                    let s = pre.combat_stats@[e]->Some_0;
                    post.combat_stats@[e] == Some(
                        CombatStats {
                            max_hp: s.max_hp,
                            defense: s.defense,
                            power: s.power,
                            hp: hp_after(s.hp as int, pre.damage_queue@, e) as i32,
                        },
                    )
                }
        },
        Err(err) => {
            &&& err == PipelineError::DamageTargetMissingStats
            &&& !damage_queue_valid(pre)
            &&& post == pre
        },
    }
}

/// Applies queued damage, then clears the queue.
pub struct DamageSystem;

impl DamageSystem {
    /// Subtract every queued `SufferDamage` amount from its target's hit
    /// points (several instructions against one target accumulate), then
    /// clear the queue. A queue entry whose target is dead or has no combat
    /// stats aborts the tick with the world unchanged.
    pub fn run(world: &mut World) -> (r: Result<(), PipelineError>)
        requires
            old(world).wf(),
        ensures
            final(world).wf(),
            damage_effect(*old(world), *final(world), r),
    {
        let qlen: usize = world.damage_queue.len();
        let mut k: usize = 0;
        while k < qlen
            invariant
                k <= qlen,
                *world == *old(world),
                old(world).wf(),
                qlen == world.damage_queue@.len(),
                forall|j: int|
                    0 <= j < k ==> {
                        let t = (#[trigger] world.damage_queue@[j]).target as int;
                        &&& world.alive@[t]
                        &&& world.combat_stats@[t] is Some
                    },
            decreases qlen - k,
        {
            let d = world.damage_queue[k];
            if !(world.alive[d.target] && world.combat_stats[d.target].is_some()) {
                return Err(PipelineError::DamageTargetMissingStats);
            }
            k += 1;
        }
        let mut k: usize = 0;
        while k < qlen
            invariant
                k <= qlen,
                old(world).wf(),
                damage_queue_valid(*old(world)),
                world.wf(),
                qlen == world.damage_queue@.len(),
                *world == (World { combat_stats: world.combat_stats, ..*old(world) }),
                world.combat_stats@.len() == old(world).combat_stats@.len(),
                forall|e: int|
                    0 <= e < old(world).num_entities() && old(world).combat_stats@[e] is None
                        ==> world.combat_stats@[e] is None,
                forall|e: int|
                    0 <= e < old(world).num_entities() && old(world).combat_stats@[e] is Some
                        ==> {
                        let s = old(world).combat_stats@[e]->Some_0;
                        world.combat_stats@[e] == Some(
                            CombatStats {
                                max_hp: s.max_hp,
                                defense: s.defense,
                                power: s.power,
                                hp: hp_after(
                                    s.hp as int,
                                    old(world).damage_queue@.take(k as int),
                                    e,
                                ) as i32,
                            },
                        )
                    },
            decreases qlen - k,
        {
            let d = world.damage_queue[k];
            proof {
                assert(old(world).damage_queue@.take(k + 1).drop_last() =~= old(
                    world,
                ).damage_queue@.take(k as int));
                assert(old(world).damage_queue@.take(k + 1).last() == d);
            }
            let s_opt = world.combat_stats[d.target];
            match s_opt {
                Some(s) => {
                    proof {
                        let t = d.target as int;
                        let s0 = old(world).combat_stats@[t]->Some_0;
                        lemma_hp_after_bounds(
                            s0.hp as int,
                            old(world).damage_queue@.take(k as int),
                            t,
                        );
                    }
                    let new_hp: i32 = if s.hp >= i32::MIN + d.amount {
                        s.hp - d.amount
                    } else {
                        i32::MIN
                    };
                    world.combat_stats[d.target] = Some(
                        CombatStats { max_hp: s.max_hp, defense: s.defense, power: s.power, hp: new_hp },
                    );
                    proof {
                        assert forall|e: int|
                            0 <= e < old(world).num_entities() && old(world).combat_stats@[e]
                                is Some implies {
                            let s1 = old(world).combat_stats@[e]->Some_0;
                            world.combat_stats@[e] == Some(
                                CombatStats {
                                    max_hp: s1.max_hp,
                                    defense: s1.defense,
                                    power: s1.power,
                                    hp: hp_after(
                                        s1.hp as int,
                                        old(world).damage_queue@.take(k + 1),
                                        e,
                                    ) as i32,
                                },
                            )
                        } by {
                            let s1 = old(world).combat_stats@[e]->Some_0;
                            if e == d.target as int {
                                lemma_hp_after_bounds(
                                    s1.hp as int,
                                    old(world).damage_queue@.take(k as int),
                                    e,
                                );
                            } else {
                                assert(hp_after(
                                    s1.hp as int,
                                    old(world).damage_queue@.take(k + 1),
                                    e,
                                ) == hp_after(
                                    s1.hp as int,
                                    old(world).damage_queue@.take(k as int),
                                    e,
                                ));
                            }
                        }
                    }
                },
                None => {
                    proof {
                        assert(false);
                    }
                },
            }
            k += 1;
        }
        proof {
            assert(old(world).damage_queue@.take(qlen as int) =~= old(world).damage_queue@);
        }
        world.damage_queue.clear();
        Ok(())
    }
}

/// Entity `e` is scanned by the death sweep: live with both a name and
/// combat stats.
pub open spec fn scanned(w: World, e: int) -> bool {
    &&& 0 <= e < w.num_entities()
    &&& w.alive@[e]
    &&& w.names@[e] is Some
    &&& w.combat_stats@[e] is Some
}

/// Entity `e` dies this sweep: scanned, below one hit point, and not the
/// player.
pub open spec fn doomed(w: World, e: int) -> bool {
    &&& scanned(w, e)
    &&& w.combat_stats@[e]->Some_0.hp < 1
    &&& w.players@[e] is None
}

/// The log entries the sweep produces while scanning entities `0..n` in
/// ascending order (each is inserted at the log's front, so they end up in
/// descending order).
pub open spec fn death_log(w: World, n: int) -> Seq<LogEntry>
    decreases n,
{
    if n <= 0 {
        Seq::empty()
    } else {
        let rest = death_log(w, n - 1);
        let e = n - 1;
        if scanned(w, e) && w.combat_stats@[e]->Some_0.hp < 1 {
            if w.players@[e] is Some {
                rest.push(LogEntry::PlayerDead)
            } else {
                rest.push(LogEntry::Dead { name: w.names@[e]->Some_0.name })
            }
        } else {
            rest
        }
    }
}

/// What one death sweep does: every doomed entity loses its slot and all its
/// components, every other entity is untouched, the deaths are logged, and
/// the player is never removed.
pub open spec fn sweep_effect(pre: World, post: World) -> bool {
    &&& post == (World {
        log: post.log,
        alive: post.alive,
        positions: post.positions,
        viewsheds: post.viewsheds,
        monsters: post.monsters,
        names: post.names,
        blockers: post.blockers,
        combat_stats: post.combat_stats,
        items: post.items,
        potions: post.potions,
        backpacks: post.backpacks,
        melee_intents: post.melee_intents,
        pickup_intents: post.pickup_intents,
        drop_intents: post.drop_intents,
        drink_intents: post.drink_intents,
        ..pre
    })
    &&& post.num_entities() == pre.num_entities()
    &&& post.positions@.len() == pre.num_entities()
    &&& post.viewsheds@.len() == pre.num_entities()
    &&& post.monsters@.len() == pre.num_entities()
    &&& post.names@.len() == pre.num_entities()
    &&& post.blockers@.len() == pre.num_entities()
    &&& post.combat_stats@.len() == pre.num_entities()
    &&& post.items@.len() == pre.num_entities()
    &&& post.potions@.len() == pre.num_entities()
    &&& post.backpacks@.len() == pre.num_entities()
    &&& post.melee_intents@.len() == pre.num_entities()
    &&& post.pickup_intents@.len() == pre.num_entities()
    &&& post.drop_intents@.len() == pre.num_entities()
    &&& post.drink_intents@.len() == pre.num_entities()
    &&& forall|e: int|
        0 <= e < pre.num_entities() && doomed(pre, e) ==> {
            &&& !post.alive@[e]
            &&& post.positions@[e] is None
            &&& post.viewsheds@[e] is None
            &&& post.monsters@[e] is None
            &&& post.names@[e] is None
            &&& post.blockers@[e] is None
            &&& post.combat_stats@[e] is None
            &&& post.items@[e] is None
            &&& post.potions@[e] is None
            &&& post.backpacks@[e] is None
            &&& post.melee_intents@[e] is None
            &&& post.pickup_intents@[e] is None
            &&& post.drop_intents@[e] is None
            &&& post.drink_intents@[e] is None
        }
    &&& forall|e: int|
        0 <= e < pre.num_entities() && !doomed(pre, e) ==> {
            &&& post.alive@[e] == pre.alive@[e]
            &&& post.positions@[e] == pre.positions@[e]
            &&& post.viewsheds@[e] == pre.viewsheds@[e]
            &&& post.monsters@[e] == pre.monsters@[e]
            &&& post.names@[e] == pre.names@[e]
            &&& post.blockers@[e] == pre.blockers@[e]
            &&& post.combat_stats@[e] == pre.combat_stats@[e]
            &&& post.items@[e] == pre.items@[e]
            &&& post.potions@[e] == pre.potions@[e]
            &&& post.backpacks@[e] == pre.backpacks@[e]
            &&& post.melee_intents@[e] == pre.melee_intents@[e]
            &&& post.pickup_intents@[e] == pre.pickup_intents@[e]
            &&& post.drop_intents@[e] == pre.drop_intents@[e]
            &&& post.drink_intents@[e] == pre.drink_intents@[e]
        }
    &&& post.log.entries@ == death_log(pre, pre.num_entities()).reverse() + pre.log.entries@
}

/// The death sweep: remove every doomed entity, log each death, and log —
/// but never remove — a player whose hit points fell below one.
#[verifier::spinoff_prover]
pub fn delete_the_dead(world: &mut World)
    requires
        old(world).wf(),
    ensures
        final(world).wf(),
        sweep_effect(*old(world), *final(world)),
{
    let n: usize = world.alive.len();
    let mut dead: Vec<usize> = Vec::new();
    let mut e: usize = 0;
    while e < n
        invariant
            e <= n,
            n == old(world).num_entities(),
            old(world).wf(),
            *world == (World { log: world.log, ..*old(world) }),
            world.log.entries@ == death_log(*old(world), e as int).reverse() + old(
                world,
            ).log.entries@,
            forall|j: int| 0 <= j < dead@.len() ==> doomed(*old(world), dead@[j] as int),
            forall|j1: int, j2: int| 0 <= j1 < j2 < dead@.len() ==> dead@[j1] < dead@[j2],
            forall|j: int| 0 <= j < dead@.len() ==> (dead@[j] as int) < e,
            forall|k: int|
                0 <= k < e && doomed(*old(world), k) ==> exists|j: int|
                    0 <= j < dead@.len() && dead@[j] as int == k,
        decreases n - e,
    {
        let ghost log0 = world.log.entries@;
        let ghost dead0 = dead@;
        if world.alive[e] && world.names[e].is_some() && world.combat_stats[e].is_some() {
            let hp = match world.combat_stats[e] {
                Some(s) => s.hp,
                None => 0,
            };
            if hp < 1 {
                if world.players[e].is_some() {
                    world.log.entries.insert(0, LogEntry::PlayerDead);
                } else {
                    let name = match &world.names[e] {
                        Some(nm) => nm.name.clone(),
                        None => String::new(),
                    };
                    world.log.entries.insert(0, LogEntry::Dead { name });
                    dead.push(e);
                }
            }
        }
        proof {
            assert(world.log.entries@ =~= death_log(*old(world), e + 1).reverse() + old(
                world,
            ).log.entries@);
            assert forall|k: int|
                0 <= k < e + 1 && doomed(*old(world), k) implies exists|j: int|
                0 <= j < dead@.len() && dead@[j] as int == k by {
                if k < e {
                    let j = choose|j: int| 0 <= j < dead0.len() && dead0[j] as int == k;
                    assert(dead@[j] as int == k);
                } else {
                    assert(dead@.last() as int == k);
                }
            }
        }
        e += 1;
    }
    let ghost mid = *world;
    let dn: usize = dead.len();
    let mut j: usize = 0;
    while j < dn
        invariant
            j <= dn,
            dn == dead@.len(),
            n == old(world).num_entities(),
            old(world).wf(),
            mid.wf(),
            mid == (World { log: mid.log, ..*old(world) }),
            world.wf(),
            forall|jj: int| 0 <= jj < dead@.len() ==> doomed(*old(world), dead@[jj] as int),
            forall|j1: int, j2: int| 0 <= j1 < j2 < dead@.len() ==> dead@[j1] < dead@[j2],
            forall|jj: int| 0 <= jj < dead@.len() ==> (dead@[jj] as int) < n,
            forall|k: int|
                0 <= k < n && doomed(*old(world), k) ==> exists|jj: int|
                    0 <= jj < dead@.len() && dead@[jj] as int == k,
            *world == (World {
                alive: world.alive,
                positions: world.positions,
                viewsheds: world.viewsheds,
                monsters: world.monsters,
                names: world.names,
                blockers: world.blockers,
                combat_stats: world.combat_stats,
                items: world.items,
                potions: world.potions,
                backpacks: world.backpacks,
                melee_intents: world.melee_intents,
                pickup_intents: world.pickup_intents,
                drop_intents: world.drop_intents,
                drink_intents: world.drink_intents,
                ..mid
            }),
            world.num_entities() == n,
            world.positions@.len() == n,
            world.viewsheds@.len() == n,
            world.monsters@.len() == n,
            world.names@.len() == n,
            world.blockers@.len() == n,
            world.combat_stats@.len() == n,
            world.items@.len() == n,
            world.potions@.len() == n,
            world.backpacks@.len() == n,
            world.melee_intents@.len() == n,
            world.pickup_intents@.len() == n,
            world.drop_intents@.len() == n,
            world.drink_intents@.len() == n,
            forall|k: int|
                0 <= k < n && (exists|jj: int| 0 <= jj < j && dead@[jj] as int == k) ==> {
                    &&& !world.alive@[k]
                    &&& world.positions@[k] is None
                    &&& world.viewsheds@[k] is None
                    &&& world.monsters@[k] is None
                    &&& world.names@[k] is None
                    &&& world.blockers@[k] is None
                    &&& world.combat_stats@[k] is None
                    &&& world.items@[k] is None
                    &&& world.potions@[k] is None
                    &&& world.backpacks@[k] is None
                    &&& world.melee_intents@[k] is None
                    &&& world.pickup_intents@[k] is None
                    &&& world.drop_intents@[k] is None
                    &&& world.drink_intents@[k] is None
                },
            forall|k: int|
                0 <= k < n && !(exists|jj: int| 0 <= jj < j && dead@[jj] as int == k) ==> {
                    &&& world.alive@[k] == mid.alive@[k]
                    &&& world.positions@[k] == mid.positions@[k]
                    &&& world.viewsheds@[k] == mid.viewsheds@[k]
                    &&& world.monsters@[k] == mid.monsters@[k]
                    &&& world.names@[k] == mid.names@[k]
                    &&& world.blockers@[k] == mid.blockers@[k]
                    &&& world.combat_stats@[k] == mid.combat_stats@[k]
                    &&& world.items@[k] == mid.items@[k]
                    &&& world.potions@[k] == mid.potions@[k]
                    &&& world.backpacks@[k] == mid.backpacks@[k]
                    &&& world.melee_intents@[k] == mid.melee_intents@[k]
                    &&& world.pickup_intents@[k] == mid.pickup_intents@[k]
                    &&& world.drop_intents@[k] == mid.drop_intents@[k]
                    &&& world.drink_intents@[k] == mid.drink_intents@[k]
                },
        decreases dn - j,
    {
        let victim = dead[j];
        proof {
            assert(doomed(*old(world), victim as int));
        }
        world.alive[victim] = false;
        world.positions[victim] = None;
        world.viewsheds[victim] = None;
        world.monsters[victim] = None;
        world.names[victim] = None;
        world.blockers[victim] = None;
        world.combat_stats[victim] = None;
        world.items[victim] = None;
        world.potions[victim] = None;
        world.backpacks[victim] = None;
        world.melee_intents[victim] = None;
        world.pickup_intents[victim] = None;
        world.drop_intents[victim] = None;
        world.drink_intents[victim] = None;
        proof {
            assert forall|k: int|
                0 <= k < n && (exists|jj: int| 0 <= jj < j + 1 && dead@[jj] as int == k) implies {
                &&& !world.alive@[k]
                &&& world.positions@[k] is None
                &&& world.viewsheds@[k] is None
                &&& world.monsters@[k] is None
                &&& world.names@[k] is None
                &&& world.blockers@[k] is None
                &&& world.combat_stats@[k] is None
                &&& world.items@[k] is None
                &&& world.potions@[k] is None
                &&& world.backpacks@[k] is None
                &&& world.melee_intents@[k] is None
                &&& world.pickup_intents@[k] is None
                &&& world.drop_intents@[k] is None
                &&& world.drink_intents@[k] is None
            } by {
                if k == victim as int {
                } else {
                    let jj = choose|jj: int| 0 <= jj < j + 1 && dead@[jj] as int == k;
                    assert(jj < j);
                    assert(exists|j2: int| 0 <= j2 < j && dead@[j2] as int == k);
                }
            }
        }
        j += 1;
    }
    proof {
        assert forall|k: int|
            0 <= k < n && doomed(*old(world), k) implies (exists|jj: int|
            0 <= jj < dn && dead@[jj] as int == k) by {}
        assert forall|k: int|
            0 <= k < n && !doomed(*old(world), k) implies !(exists|jj: int|
            0 <= jj < dn && dead@[jj] as int == k) by {}
    }
}

/// The death sweep never removes the player, even below one hit point, and
/// always removes a scanned non-player below one hit point.
pub proof fn death_sweep_spares_only_player(pre: World, post: World)
    requires
        pre.wf(),
        sweep_effect(pre, post),
    ensures
        post.alive@[pre.player_entity as int] == pre.alive@[pre.player_entity as int],
        post.alive@[pre.player_entity as int],
        forall|e: int| doomed(pre, e) ==> !post.alive@[e],
        forall|e: int|
            scanned(pre, e) && pre.combat_stats@[e]->Some_0.hp < 1 && pre.players@[e] is None
                ==> !post.alive@[e],
{
    assert(!doomed(pre, pre.player_entity as int));
    assert forall|e: int|
        scanned(pre, e) && pre.combat_stats@[e]->Some_0.hp < 1 && pre.players@[e]
            is None implies !post.alive@[e] by {
        assert(doomed(pre, e));
    }
}


/// The one-shot damage queue is empty immediately after the damage
/// applicator completes.
pub proof fn damage_queue_cleared_law(pre: World, post: World)
    requires
        damage_effect(pre, post, Ok(())),
    ensures
        post.damage_queue@.len() == 0,
{
}


/// Two damage instructions against one live target, queued in one tick,
/// take exactly their sum off that target's hit points, and the queue is
/// empty afterwards.
pub proof fn double_damage_law(pre: World, post: World, t: usize, a: i32, b: i32)
    requires
        pre.wf(),
        damage_effect(pre, post, Ok(())),
        pre.damage_queue@ =~= seq![
            SufferDamage { target: t, amount: a },
            SufferDamage { target: t, amount: b },
        ],
        0 <= a,
        0 <= b,
        pre.combat_stats@[t as int] is Some,
        i32::MIN <= pre.combat_stats@[t as int]->Some_0.hp - a - b,
    ensures
        post.combat_stats@[t as int] is Some,
        post.combat_stats@[t as int]->Some_0.hp == pre.combat_stats@[t as int]->Some_0.hp - a
            - b,
        post.damage_queue@.len() == 0,
{
    let s = pre.combat_stats@[t as int]->Some_0;
    damage_accumulates(s.hp as int, pre.damage_queue@, t as int);
}

} // verus!
