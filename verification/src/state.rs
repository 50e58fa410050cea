//! The turn controller: the state machine that decides, per frame, whether
//! to run the simulation pipeline, interpret one input intent, or drive a
//! menu — and the player's own intent resolution.
//!
//! The pipeline order is fixed and is itself part of the contract:
//! visibility, spatial index, AI, melee, damage, then the inventory
//! transactions; the death sweep runs after every transition.

use vstd::prelude::*;
use crate::components::Position;
use crate::components::WantsToDrinkPotion;
use crate::components::WantsToDropItem;
use crate::components::WantsToMelee;
use crate::components::WantsToPickupItem;
use crate::damage_system::DamageSystem;
use crate::damage_system::damage_effect;
use crate::damage_system::delete_the_dead;
use crate::damage_system::sweep_effect;
use crate::game_log::LogEntry;
use crate::game_map::GameMap;
use crate::gui::ItemMenuResult;
use crate::gui::lemma_inventory_list_entries;
use crate::gui::menu_outcome;
use crate::gui::show_inventory;
use crate::gui::drop_item_menu;
use crate::inventory_system::ItemCollectionSystem;
use crate::inventory_system::ItemDropSystem;
use crate::inventory_system::PotionUseSystem;
use crate::inventory_system::drink_effect;
use crate::inventory_system::drop_effect;
use crate::inventory_system::pickup_effect;
use crate::map_ai_system::MapIndexingSystem;
use crate::map_ai_system::spatial_index_effect;
use crate::melee_combat_system::MeleeCombatSystem;
use crate::melee_combat_system::melee_effect;
use crate::monster_ai_system::MonsterAI;
use crate::monster_ai_system::ai_effect;
use crate::visibility_system::VisibilitySystem;
use crate::visibility_system::visibility_effect;
use crate::world::PipelineError;
use crate::world::World;

verus! {

/// The controller's state: what the next tick will do.
#[derive(Clone, Copy, PartialEq, Eq, Structural, Debug)]
pub enum RunState {
    /// Run one full pipeline before the first input is read.
    PreRun,
    /// Wait for the host to supply an input intent.
    AwaitingInput,
    /// Resolve the player's action with a full pipeline run.
    PlayerTurn,
    /// Resolve the monsters' actions with a full pipeline run.
    MonsterTurn,
    /// The inventory menu is open; ticks feed it menu commands.
    ShowInventory,
    /// The drop-item menu is open; ticks feed it menu commands.
    ShowDropItem,
}

/// One decoded input intent, at most one per tick.
#[derive(Clone, Copy, PartialEq, Eq, Structural, Debug)]
pub enum InputCommand {
    /// A directional step by `(dx, dy)`.
    MoveDelta { dx: i32, dy: i32 },
    /// Pick up whatever item lies at the player's cell.
    PickUp,
    /// Open the inventory menu.
    OpenInventory,
    /// Open the drop-item menu.
    OpenDropMenu,
}

/// One decoded menu interaction, at most one per tick.
#[derive(Clone, Copy, PartialEq, Eq, Structural, Debug)]
pub enum MenuCommand {
    /// Close the menu without choosing.
    Exit,
    /// Choose the listed entry at this zero-based index.
    Choose { index: i32 },
    /// No usable key this tick.
    Nothing,
}

/// Everything the host hands the controller for one tick: the decoded key,
/// if any, and the menu interaction, if a menu is open.
#[derive(Clone, Copy, Debug)]
pub struct TickInput {
    pub key: Option<InputCommand>,
    pub menu: MenuCommand,
}

/// `v` forced into `lo..=hi`.
pub open spec fn clamp(v: int, lo: int, hi: int) -> int {
    if v < lo {
        lo
    } else if v > hi {
        hi
    } else {
        v
    }
}

/// The player has what it needs to act: a position and a viewshed.
pub open spec fn player_ready(w: World) -> bool {
    &&& w.positions@[w.player_entity as int] is Some
    &&& w.viewsheds@[w.player_entity as int] is Some
}

/// Where a step by `(dx, dy)` lands: the candidate destination clamped to
/// the map's bounds.
pub open spec fn move_dest(w: World, dx: int, dy: int) -> Position {
    let p = w.positions@[w.player_entity as int]->Some_0;
    Position {
        x: clamp(p.x + dx, 0, w.map.width - 1) as i32,
        y: clamp(p.y + dy, 0, w.map.height - 1) as i32,
    }
}

/// The first handle from position `j` onward in `s` that has combat stats.
pub open spec fn first_target_idx(w: World, s: Seq<usize>, j: int) -> Option<usize>
    decreases s.len() - j,
{
    if !(0 <= j < s.len()) {
        None
    } else if w.combat_stats@[s[j] as int] is Some {
        Some(s[j])
    } else {
        first_target_idx(w, s, j + 1)
    }
}

/// The first occupant of cell `i` that has combat stats, in content-list
/// order.
pub open spec fn first_combat_target(w: World, i: int) -> Option<usize> {
    first_target_idx(w, w.map.tile_content@[i]@, 0)
}

/// What resolving one directional delta for the player does. Without a
/// position and viewshed nothing happens. Otherwise, with a combatant on
/// the destination cell, a melee intent against the first one is queued and
/// the player stays put; with a free destination the player moves there,
/// marks its viewshed dirty and updates the player-position resource; a
/// blocked destination does nothing.
pub open spec fn move_effect(pre: World, post: World, dx: int, dy: int) -> bool {
    if !player_ready(pre) {
        post == pre
    } else {
        let pe = pre.player_entity as int;
        let dest = move_dest(pre, dx, dy);
        let di = pre.map.idx_of(dest.x as int, dest.y as int);
        match first_combat_target(pre, di) {
            Some(t) => {
                &&& post == (World { melee_intents: post.melee_intents, ..pre })
                &&& post.melee_intents@ == pre.melee_intents@.update(
                    pe,
                    Some(WantsToMelee { target: t }),
                )
            },
            None => {
                if !pre.map.blocked@[di] {
                    &&& post == (World {
                        positions: post.positions,
                        viewsheds: post.viewsheds,
                        player_pos: dest,
                        ..pre
                    })
                    &&& post.positions@ == pre.positions@.update(pe, Some(dest))
                    &&& post.viewsheds@.len() == pre.num_entities()
                    &&& crate::monster_ai_system::dirtied(
                        pre.viewsheds@[pe],
                        post.viewsheds@[pe],
                    )
                    &&& forall|k: int|
                        0 <= k < pre.num_entities() && k != pe ==> post.viewsheds@[k]
                            == pre.viewsheds@[k]
                } else {
                    post == pre
                }
            },
        }
    }
}

/// Resolve one directional delta for the player: attack the destination
/// cell's first combatant, or step onto it if it is free.
pub fn try_move_player(world: &mut World, delta_x: i32, delta_y: i32)
    requires
        old(world).wf(),
    ensures
        final(world).wf(),
        move_effect(*old(world), *final(world), delta_x as int, delta_y as int),
{
    let e = world.player_entity;
    if !(world.positions[e].is_some() && world.viewsheds[e].is_some()) {
        return ;
    }
    let pos = match world.positions[e] {
        Some(p) => p,
        None => Position { x: 0, y: 0 },
    };
    let w64: i64 = world.map.width as i64;
    let h64: i64 = world.map.height as i64;
    let mut nx64: i64 = pos.x as i64 + delta_x as i64;
    let mut ny64: i64 = pos.y as i64 + delta_y as i64;
    if nx64 < 0 {
        nx64 = 0;
    }
    if nx64 > w64 - 1 {
        nx64 = w64 - 1;
    }
    if ny64 < 0 {
        ny64 = 0;
    }
    if ny64 > h64 - 1 {
        ny64 = h64 - 1;
    }
    let nx: i32 = nx64 as i32;
    let ny: i32 = ny64 as i32;
    proof {
        assert(nx as int == move_dest(*old(world), delta_x as int, delta_y as int).x as int);
        assert(ny as int == move_dest(*old(world), delta_x as int, delta_y as int).y as int);
    }
    let di = world.map.xy_idx(nx, ny);
    let ghost s = world.map.tile_content@[di as int]@;
    let clen: usize = world.map.tile_content[di].len();
    let mut target: Option<usize> = None;
    let mut j: usize = 0;
    while j < clen
        invariant
            j <= clen,
            *world == *old(world),
            old(world).wf(),
            di < world.map.tile_content@.len(),
            s == world.map.tile_content@[di as int]@,
            clen == s.len(),
            match target {
                None => first_target_idx(*old(world), s, 0) == first_target_idx(
                    *old(world),
                    s,
                    j as int,
                ),
                Some(t) => first_target_idx(*old(world), s, 0) == Some(t) && (t as int) < old(
                    world,
                ).num_entities(),
            },
        decreases clen - j,
    {
        let t = world.map.tile_content[di][j];
        if target.is_none() && world.combat_stats[t].is_some() {
            target = Some(t);
        }
        j += 1;
    }
    match target {
        Some(t) => {
            world.melee_intents[e] = Some(WantsToMelee { target: t });
        },
        None => {
            if !world.map.blocked[di] {
                world.positions[e] = Some(Position { x: nx, y: ny });
                match &mut world.viewsheds[e] {
                    Some(vs) => {
                        vs.dirty = true;
                    },
                    None => {},
                }
                world.player_pos = Position { x: nx, y: ny };
            }
        },
    }
}

/// Entity `e` is an item lying at the player's cell.
pub open spec fn item_at_player(w: World, e: int) -> bool {
    &&& 0 <= e < w.num_entities()
    &&& w.alive@[e]
    &&& w.items@[e] is Some
    &&& w.positions@[e] is Some
    &&& w.positions@[e]->Some_0.x == w.player_pos.x
    &&& w.positions@[e]->Some_0.y == w.player_pos.y
}

/// The item a pickup request targets among entities `0..n`: the last one at
/// the player's cell in handle order.
pub open spec fn last_item_at_player(w: World, n: int) -> Option<usize>
    decreases n,
{
    if n <= 0 {
        None
    } else if item_at_player(w, n - 1) {
        Some((n - 1) as usize)
    } else {
        last_item_at_player(w, n - 1)
    }
}

/// What one pickup request does: with no item at the player's cell a log
/// line says so; otherwise a pickup intent for the found item is queued on
/// the player.
pub open spec fn get_item_effect(pre: World, post: World) -> bool {
    match last_item_at_player(pre, pre.num_entities()) {
        None => {
            &&& post == (World { log: post.log, ..pre })
            &&& post.log.entries@ == seq![LogEntry::NothingHere] + pre.log.entries@
        },
        Some(it) => {
            &&& post == (World { pickup_intents: post.pickup_intents, ..pre })
            &&& post.pickup_intents@ == pre.pickup_intents@.update(
                pre.player_entity as int,
                Some(
                    WantsToPickupItem {
                        collected_by: pre.player_entity,
                        item: it,
                    },
                ),
            )
        },
    }
}

/// Queue a pickup intent for an item at the player's cell, or log that
/// there is nothing to pick up.
pub fn get_item(world: &mut World)
    requires
        old(world).wf(),
    ensures
        final(world).wf(),
        get_item_effect(*old(world), *final(world)),
{
    let pp = world.player_pos;
    let n: usize = world.alive.len();
    let mut target: Option<usize> = None;
    let mut e: usize = 0;
    while e < n
        invariant
            e <= n,
            n == old(world).num_entities(),
            *world == *old(world),
            old(world).wf(),
            pp == old(world).player_pos,
            target == last_item_at_player(*old(world), e as int),
            match target {
                Some(t) => (t as int) < n,
                None => true,
            },
        decreases n - e,
    {
        let found = world.alive[e] && world.items[e].is_some() && (match world.positions[e] {
            Some(p) => p.x == pp.x && p.y == pp.y,
            None => false,
        });
        if found {
            target = Some(e);
        }
        e += 1;
    }
    match target {
        None => {
            world.log.entries.insert(0, LogEntry::NothingHere);
            proof {
                assert(world.log.entries@ =~= seq![LogEntry::NothingHere] + old(
                    world,
                ).log.entries@);
            }
        },
        Some(it) => {
            let pe = world.player_entity;
            world.pickup_intents[pe] = Some(
                WantsToPickupItem { collected_by: pe, item: it },
            );
        },
    }
}

/// Which state one input intent leads to.
pub open spec fn key_next(key: Option<InputCommand>) -> RunState {
    match key {
        None => RunState::AwaitingInput,
        Some(InputCommand::MoveDelta { dx, dy }) => RunState::PlayerTurn,
        Some(InputCommand::PickUp) => RunState::PlayerTurn,
        Some(InputCommand::OpenInventory) => RunState::ShowInventory,
        Some(InputCommand::OpenDropMenu) => RunState::ShowDropItem,
    }
}

/// What interpreting one input intent does to the world.
pub open spec fn input_effect(pre: World, post: World, key: Option<InputCommand>) -> bool {
    match key {
        None => post == pre,
        Some(InputCommand::MoveDelta { dx, dy }) => move_effect(pre, post, dx as int, dy as int),
        Some(InputCommand::PickUp) => get_item_effect(pre, post),
        Some(InputCommand::OpenInventory) => post == pre,
        Some(InputCommand::OpenDropMenu) => post == pre,
    }
}

/// `w` with the turn state replaced.
pub open spec fn with_state(w: World, rs: RunState) -> World {
    World { run_state: rs, ..w }
}

/// What one full pipeline run does: the eight systems in their fixed order
/// — visibility, spatial index, AI, melee, damage, pickup, drop, potion —
/// each acting on its predecessor's world. An aborting system returns its
/// error with everything after it unrun.
pub open spec fn pipeline_effect<
    F: Fn(&GameMap, Position, i32) -> Vec<Position>,
    G: Fn(&GameMap, usize, usize) -> (bool, Vec<usize>),
>(fov: F, path: G, pre: World, post: World, r: Result<(), PipelineError>) -> bool {
    match r {
        Ok(()) => exists|w1: World, w2: World, w3: World, w4: World, w5: World, w6: World, w7: World|
            {
                &&& visibility_effect(fov, pre, w1)
                &&& spatial_index_effect(w1, w2)
                &&& ai_effect(path, w2, w3)
                &&& melee_effect(w3, w4, Ok(()))
                &&& damage_effect(w4, w5, Ok(()))
                &&& pickup_effect(w5, w6, Ok(()))
                &&& drop_effect(w6, w7, Ok(()))
                &&& drink_effect(w7, post, Ok(()))
            },
        Err(err) => exists|w1: World, w2: World, w3: World|
            {
                &&& visibility_effect(fov, pre, w1)
                &&& spatial_index_effect(w1, w2)
                &&& ai_effect(path, w2, w3)
                &&& {
                    ||| melee_effect(w3, post, Err(err))
                    ||| exists|w4: World|
                        {
                            &&& melee_effect(w3, w4, Ok(()))
                            &&& damage_effect(w4, post, Err(err))
                        }
                    ||| exists|w4: World, w5: World|
                        {
                            &&& melee_effect(w3, w4, Ok(()))
                            &&& damage_effect(w4, w5, Ok(()))
                            &&& pickup_effect(w5, post, Err(err))
                        }
                    ||| exists|w4: World, w5: World, w6: World|
                        {
                            &&& melee_effect(w3, w4, Ok(()))
                            &&& damage_effect(w4, w5, Ok(()))
                            &&& pickup_effect(w5, w6, Ok(()))
                            &&& drop_effect(w6, post, Err(err))
                        }
                    ||| exists|w4: World, w5: World, w6: World, w7: World|
                        {
                            &&& melee_effect(w3, w4, Ok(()))
                            &&& damage_effect(w4, w5, Ok(()))
                            &&& pickup_effect(w5, w6, Ok(()))
                            &&& drop_effect(w6, w7, Ok(()))
                            &&& drink_effect(w7, post, Err(err))
                        }
                }
            },
    }
}

/// What one whole tick does, by the state the controller starts in: run the
/// pipeline, interpret one input, or drive a menu — then write the next
/// state and always run the death sweep. An aborted pipeline returns its
/// error with the state not advanced and no sweep run.
pub open spec fn tick_effect<
    F: Fn(&GameMap, Position, i32) -> Vec<Position>,
    G: Fn(&GameMap, usize, usize) -> (bool, Vec<usize>),
>(fov: F, path: G, pre: World, post: World, input: TickInput, r: Result<(), PipelineError>) -> bool {
    match pre.run_state {
        RunState::PreRun => {
            match r {
                Ok(()) => exists|mid: World|
                    {
                        &&& #[trigger] pipeline_effect(fov, path, pre, mid, Ok(()))
                        &&& sweep_effect(with_state(mid, RunState::AwaitingInput), post)
                    },
                Err(err) => pipeline_effect(fov, path, pre, post, Err(err)),
            }
        },
        RunState::PlayerTurn => {
            match r {
                Ok(()) => exists|mid: World|
                    {
                        &&& #[trigger] pipeline_effect(fov, path, pre, mid, Ok(()))
                        &&& sweep_effect(with_state(mid, RunState::MonsterTurn), post)
                    },
                Err(err) => pipeline_effect(fov, path, pre, post, Err(err)),
            }
        },
        RunState::MonsterTurn => {
            match r {
                Ok(()) => exists|mid: World|
                    {
                        &&& #[trigger] pipeline_effect(fov, path, pre, mid, Ok(()))
                        &&& sweep_effect(with_state(mid, RunState::AwaitingInput), post)
                    },
                Err(err) => pipeline_effect(fov, path, pre, post, Err(err)),
            }
        },
        RunState::AwaitingInput => {
            &&& r == Result::<(), PipelineError>::Ok(())
            &&& exists|mid: World|
                {
                    &&& #[trigger] input_effect(pre, mid, input.key)
                    &&& sweep_effect(with_state(mid, key_next(input.key)), post)
                }
        },
        RunState::ShowInventory => {
            &&& r == Result::<(), PipelineError>::Ok(())
            &&& match menu_outcome(pre, input.menu) {
                ItemMenuResult::Cancel => sweep_effect(
                    with_state(pre, RunState::AwaitingInput),
                    post,
                ),
                ItemMenuResult::NoResponse => sweep_effect(pre, post),
                ItemMenuResult::Selected(item) => exists|mid: World|
                    {
                        &&& mid == (World {
                            drink_intents: mid.drink_intents,
                            run_state: RunState::PlayerTurn,
                            ..pre
                        })
                        &&& #[trigger] mid.drink_intents@ == pre.drink_intents@.update(
                            pre.player_entity as int,
                            Some(WantsToDrinkPotion { potion: item }),
                        )
                        &&& sweep_effect(mid, post)
                    },
            }
        },
        RunState::ShowDropItem => {
            &&& r == Result::<(), PipelineError>::Ok(())
            &&& match menu_outcome(pre, input.menu) {
                ItemMenuResult::Cancel => sweep_effect(
                    with_state(pre, RunState::AwaitingInput),
                    post,
                ),
                ItemMenuResult::NoResponse => sweep_effect(pre, post),
                ItemMenuResult::Selected(item) => exists|mid: World|
                    {
                        &&& mid == (World {
                            drop_intents: mid.drop_intents,
                            run_state: RunState::PlayerTurn,
                            ..pre
                        })
                        &&& #[trigger] mid.drop_intents@ == pre.drop_intents@.update(
                            pre.player_entity as int,
                            Some(WantsToDropItem { item }),
                        )
                        &&& sweep_effect(mid, post)
                    },
            }
        },
    }
}

/// The whole game: the world store, advanced one tick at a time.
pub struct State {
    pub ecs: World,
}

impl State {
    /// Run the full system pipeline once, in its fixed order.
    pub fn run_systems<
        F: Fn(&GameMap, Position, i32) -> Vec<Position>,
        G: Fn(&GameMap, usize, usize) -> (bool, Vec<usize>),
    >(&mut self, fov: F, path: G) -> (r: Result<(), PipelineError>)
        requires
            old(self).ecs.wf(),
            forall|m: &GameMap, p: Position, rng: i32| #[trigger] call_requires(fov, (m, p, rng)),
            forall|m: &GameMap, a: usize, b: usize| #[trigger] call_requires(path, (m, a, b)),
        ensures
            final(self).ecs.wf(),
            pipeline_effect(fov, path, old(self).ecs, final(self).ecs, r),
    {
        VisibilitySystem::run(&mut self.ecs, fov);
        let ghost w1 = self.ecs;
        MapIndexingSystem::run(&mut self.ecs);
        let ghost w2 = self.ecs;
        MonsterAI::run(&mut self.ecs, path);
        let ghost w3 = self.ecs;
        match MeleeCombatSystem::run(&mut self.ecs) {
            Err(err) => {
                proof {
                    assert(visibility_effect(fov, old(self).ecs, w1));
                    assert(spatial_index_effect(w1, w2));
                    assert(ai_effect(path, w2, w3));
                    assert(melee_effect(w3, self.ecs, Err(err)));
                    assert(pipeline_effect(fov, path, old(self).ecs, self.ecs, Err(err)));
                }
                return Err(err);
            },
            Ok(()) => {},
        }
        let ghost w4 = self.ecs;
        match DamageSystem::run(&mut self.ecs) {
            Err(err) => {
                proof {
                    assert(visibility_effect(fov, old(self).ecs, w1));
                    assert(spatial_index_effect(w1, w2));
                    assert(ai_effect(path, w2, w3));
                    assert(melee_effect(w3, w4, Ok(())));
                    assert(damage_effect(w4, self.ecs, Err(err)));
                    assert(pipeline_effect(fov, path, old(self).ecs, self.ecs, Err(err)));
                }
                return Err(err);
            },
            Ok(()) => {},
        }
        let ghost w5 = self.ecs;
        match ItemCollectionSystem::run(&mut self.ecs) {
            Err(err) => {
                proof {
                    assert(visibility_effect(fov, old(self).ecs, w1));
                    assert(spatial_index_effect(w1, w2));
                    assert(ai_effect(path, w2, w3));
                    assert(melee_effect(w3, w4, Ok(())));
                    assert(damage_effect(w4, w5, Ok(())));
                    assert(pickup_effect(w5, self.ecs, Err(err)));
                    assert(pipeline_effect(fov, path, old(self).ecs, self.ecs, Err(err)));
                }
                return Err(err);
            },
            Ok(()) => {},
        }
        let ghost w6 = self.ecs;
        match ItemDropSystem::run(&mut self.ecs) {
            Err(err) => {
                proof {
                    assert(visibility_effect(fov, old(self).ecs, w1));
                    assert(spatial_index_effect(w1, w2));
                    assert(ai_effect(path, w2, w3));
                    assert(melee_effect(w3, w4, Ok(())));
                    assert(damage_effect(w4, w5, Ok(())));
                    assert(pickup_effect(w5, w6, Ok(())));
                    assert(drop_effect(w6, self.ecs, Err(err)));
                    assert(pipeline_effect(fov, path, old(self).ecs, self.ecs, Err(err)));
                }
                return Err(err);
            },
            Ok(()) => {},
        }
        let ghost w7 = self.ecs;
        match PotionUseSystem::run(&mut self.ecs) {
            Err(err) => {
                proof {
                    assert(visibility_effect(fov, old(self).ecs, w1));
                    assert(spatial_index_effect(w1, w2));
                    assert(ai_effect(path, w2, w3));
                    assert(melee_effect(w3, w4, Ok(())));
                    assert(damage_effect(w4, w5, Ok(())));
                    assert(pickup_effect(w5, w6, Ok(())));
                    assert(drop_effect(w6, w7, Ok(())));
                    assert(drink_effect(w7, self.ecs, Err(err)));
                    assert(pipeline_effect(fov, path, old(self).ecs, self.ecs, Err(err)));
                }
                return Err(err);
            },
            Ok(()) => {},
        }
        proof {
            assert(visibility_effect(fov, old(self).ecs, w1));
            assert(spatial_index_effect(w1, w2));
            assert(ai_effect(path, w2, w3));
            assert(melee_effect(w3, w4, Ok(())));
            assert(damage_effect(w4, w5, Ok(())));
            assert(pickup_effect(w5, w6, Ok(())));
            assert(drop_effect(w6, w7, Ok(())));
            assert(drink_effect(w7, self.ecs, Ok(())));
            assert(pipeline_effect(fov, path, old(self).ecs, self.ecs, Ok(())));
        }
        Ok(())
    }

    /// Interpret one input intent while waiting for input: a directional
    /// key resolves movement or attack, a pickup key grabs, menu keys open
    /// their menu, and anything else keeps waiting. The returned state is
    /// what the controller transitions to; the stored state is not yet
    /// changed.
    pub fn state_after_player_input(&mut self, key: Option<InputCommand>) -> (rs: RunState)
        requires
            old(self).ecs.wf(),
        ensures
            final(self).ecs.wf(),
            input_effect(old(self).ecs, final(self).ecs, key),
            rs == key_next(key),
            final(self).ecs.run_state == old(self).ecs.run_state,
    {
        match key {
            None => RunState::AwaitingInput,
            Some(InputCommand::MoveDelta { dx, dy }) => {
                try_move_player(&mut self.ecs, dx, dy);
                RunState::PlayerTurn
            },
            Some(InputCommand::PickUp) => {
                get_item(&mut self.ecs);
                RunState::PlayerTurn
            },
            Some(InputCommand::OpenInventory) => RunState::ShowInventory,
            Some(InputCommand::OpenDropMenu) => RunState::ShowDropItem,
        }
    }

    /// Advance the world by one tick: on a pipeline state run the pipeline,
    /// while waiting interpret one input, on a menu state drive the menu;
    /// then store the next state and run the death sweep. An aborted
    /// pipeline returns its error before the state advances.
    pub fn tick<
        F: Fn(&GameMap, Position, i32) -> Vec<Position>,
        G: Fn(&GameMap, usize, usize) -> (bool, Vec<usize>),
    >(&mut self, input: TickInput, fov: F, path: G) -> (r: Result<(), PipelineError>)
        requires
            old(self).ecs.wf(),
            forall|m: &GameMap, p: Position, rng: i32| #[trigger] call_requires(fov, (m, p, rng)),
            forall|m: &GameMap, a: usize, b: usize| #[trigger] call_requires(path, (m, a, b)),
        ensures
            final(self).ecs.wf(),
            tick_effect(fov, path, old(self).ecs, final(self).ecs, input, r),
    {
        let ghost pre = self.ecs;
        let count = self.ecs.alive.len();
        proof {
            assert(pre.num_entities() == count as int);
        }
        let rs = self.ecs.run_state;
        let mut next: RunState = rs;
        match rs {
            RunState::PreRun => {
                match self.run_systems(fov, path) {
                    Err(err) => {
                        return Err(err);
                    },
                    Ok(()) => {},
                }
                next = RunState::AwaitingInput;
            },
            RunState::AwaitingInput => {
                next = self.state_after_player_input(input.key);
            },
            RunState::PlayerTurn => {
                match self.run_systems(fov, path) {
                    Err(err) => {
                        return Err(err);
                    },
                    Ok(()) => {},
                }
                next = RunState::MonsterTurn;
            },
            RunState::MonsterTurn => {
                match self.run_systems(fov, path) {
                    Err(err) => {
                        return Err(err);
                    },
                    Ok(()) => {},
                }
                next = RunState::AwaitingInput;
            },
            RunState::ShowInventory => {
                match show_inventory(&self.ecs, input.menu) {
                    ItemMenuResult::Cancel => {
                        next = RunState::AwaitingInput;
                    },
                    ItemMenuResult::NoResponse => {},
                    ItemMenuResult::Selected(item) => {
                        proof {
                            lemma_inventory_list_entries(pre, pre.num_entities());
                            assert(crate::gui::in_player_inventory(pre, item as int));
                        }
                        let pe = self.ecs.player_entity;
                        self.ecs.drink_intents[pe] = Some(WantsToDrinkPotion { potion: item });
                        next = RunState::PlayerTurn;
                    },
                }
            },
            RunState::ShowDropItem => {
                match drop_item_menu(&self.ecs, input.menu) {
                    ItemMenuResult::Cancel => {
                        next = RunState::AwaitingInput;
                    },
                    ItemMenuResult::NoResponse => {},
                    ItemMenuResult::Selected(item) => {
                        proof {
                            lemma_inventory_list_entries(pre, pre.num_entities());
                            assert(crate::gui::in_player_inventory(pre, item as int));
                        }
                        let pe = self.ecs.player_entity;
                        self.ecs.drop_intents[pe] = Some(WantsToDropItem { item });
                        next = RunState::PlayerTurn;
                    },
                }
            },
        }
        let ghost mid_pre_state = self.ecs;
        self.ecs.run_state = next;
        let ghost mid = self.ecs;
        delete_the_dead(&mut self.ecs);
        proof {
            assert(mid == with_state(mid_pre_state, next));
            assert(sweep_effect(mid, self.ecs));
            match pre.run_state {
                RunState::PreRun => {
                    assert(pipeline_effect(fov, path, pre, mid_pre_state, Ok(())));
                },
                RunState::PlayerTurn => {
                    assert(pipeline_effect(fov, path, pre, mid_pre_state, Ok(())));
                },
                RunState::MonsterTurn => {
                    assert(pipeline_effect(fov, path, pre, mid_pre_state, Ok(())));
                },
                RunState::AwaitingInput => {
                    assert(input_effect(pre, mid_pre_state, input.key));
                    assert(next == key_next(input.key));
                },
                RunState::ShowInventory => {
                    match menu_outcome(pre, input.menu) {
                        ItemMenuResult::Cancel => {
                            assert(mid == with_state(pre, RunState::AwaitingInput));
                        },
                        ItemMenuResult::NoResponse => {
                            assert(mid == pre);
                        },
                        ItemMenuResult::Selected(item) => {
                            assert(mid == (World {
                                drink_intents: mid.drink_intents,
                                run_state: RunState::PlayerTurn,
                                ..pre
                            }));
                            assert(mid.drink_intents@ == pre.drink_intents@.update(
                                pre.player_entity as int,
                                Some(WantsToDrinkPotion { potion: item }),
                            ));
                        },
                    }
                },
                RunState::ShowDropItem => {
                    match menu_outcome(pre, input.menu) {
                        ItemMenuResult::Cancel => {
                            assert(mid == with_state(pre, RunState::AwaitingInput));
                        },
                        ItemMenuResult::NoResponse => {
                            assert(mid == pre);
                        },
                        ItemMenuResult::Selected(item) => {
                            assert(mid == (World {
                                drop_intents: mid.drop_intents,
                                run_state: RunState::PlayerTurn,
                                ..pre
                            }));
                            assert(mid.drop_intents@ == pre.drop_intents@.update(
                                pre.player_entity as int,
                                Some(WantsToDropItem { item }),
                            ));
                        },
                    }
                },
            }
        }
        Ok(())
    }
}


/// The turn table: which state one successful tick leads to, from each
/// state. Pipeline states advance in their fixed cycle, input leads where
/// the key says, and menus close, wait or spend the player's turn.
pub proof fn turn_transition_law<
    F: Fn(&GameMap, Position, i32) -> Vec<Position>,
    G: Fn(&GameMap, usize, usize) -> (bool, Vec<usize>),
>(fov: F, path: G, pre: World, post: World, input: TickInput)
    requires
        tick_effect(fov, path, pre, post, input, Ok(())),
    ensures
        post.run_state == (match pre.run_state {
            RunState::PreRun => RunState::AwaitingInput,
            RunState::PlayerTurn => RunState::MonsterTurn,
            RunState::MonsterTurn => RunState::AwaitingInput,
            RunState::AwaitingInput => key_next(input.key),
            RunState::ShowInventory => match menu_outcome(pre, input.menu) {
                ItemMenuResult::Cancel => RunState::AwaitingInput,
                ItemMenuResult::NoResponse => RunState::ShowInventory,
                ItemMenuResult::Selected(item) => RunState::PlayerTurn,
            },
            RunState::ShowDropItem => match menu_outcome(pre, input.menu) {
                ItemMenuResult::Cancel => RunState::AwaitingInput,
                ItemMenuResult::NoResponse => RunState::ShowDropItem,
                ItemMenuResult::Selected(item) => RunState::PlayerTurn,
            },
        }),
{
    match pre.run_state {
        RunState::PreRun => {
            let mid = choose|mid: World|
                #[trigger] pipeline_effect(fov, path, pre, mid, Ok(())) && sweep_effect(
                    with_state(mid, RunState::AwaitingInput),
                    post,
                );
            assert(post.run_state == with_state(mid, RunState::AwaitingInput).run_state);
        },
        RunState::PlayerTurn => {
            let mid = choose|mid: World|
                #[trigger] pipeline_effect(fov, path, pre, mid, Ok(())) && sweep_effect(
                    with_state(mid, RunState::MonsterTurn),
                    post,
                );
            assert(post.run_state == with_state(mid, RunState::MonsterTurn).run_state);
        },
        RunState::MonsterTurn => {
            let mid = choose|mid: World|
                #[trigger] pipeline_effect(fov, path, pre, mid, Ok(())) && sweep_effect(
                    with_state(mid, RunState::AwaitingInput),
                    post,
                );
            assert(post.run_state == with_state(mid, RunState::AwaitingInput).run_state);
        },
        RunState::AwaitingInput => {
            let mid = choose|mid: World|
                #[trigger] input_effect(pre, mid, input.key) && sweep_effect(
                    with_state(mid, key_next(input.key)),
                    post,
                );
            assert(post.run_state == with_state(mid, key_next(input.key)).run_state);
        },
        RunState::ShowInventory => {
            match menu_outcome(pre, input.menu) {
                ItemMenuResult::Cancel => {
                    assert(post.run_state == with_state(pre, RunState::AwaitingInput).run_state);
                },
                ItemMenuResult::NoResponse => {
                    assert(post.run_state == pre.run_state);
                },
                ItemMenuResult::Selected(item) => {
                    let mid = choose|mid: World|
                        mid == (World {
                            drink_intents: mid.drink_intents,
                            run_state: RunState::PlayerTurn,
                            ..pre
                        }) && #[trigger] mid.drink_intents@ == pre.drink_intents@.update(
                            pre.player_entity as int,
                            Some(WantsToDrinkPotion { potion: item }),
                        ) && sweep_effect(mid, post);
                    assert(post.run_state == mid.run_state);
                },
            }
        },
        RunState::ShowDropItem => {
            match menu_outcome(pre, input.menu) {
                ItemMenuResult::Cancel => {
                    assert(post.run_state == with_state(pre, RunState::AwaitingInput).run_state);
                },
                ItemMenuResult::NoResponse => {
                    assert(post.run_state == pre.run_state);
                },
                ItemMenuResult::Selected(item) => {
                    let mid = choose|mid: World|
                        mid == (World {
                            drop_intents: mid.drop_intents,
                            run_state: RunState::PlayerTurn,
                            ..pre
                        }) && #[trigger] mid.drop_intents@ == pre.drop_intents@.update(
                            pre.player_entity as int,
                            Some(WantsToDropItem { item }),
                        ) && sweep_effect(mid, post);
                    assert(post.run_state == mid.run_state);
                },
            }
        },
    }
}

} // verus!
