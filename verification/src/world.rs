//! The world store: every entity's components, plus the shared resources —
//! the map, the player handle, the player's position, the turn state and the
//! message log.
//!
//! An entity handle is an index into the component storages; every storage
//! has one slot per entity. A dead entity keeps its slot (handles stay
//! stable) but loses all its components.

use vstd::prelude::*;
use crate::components::BlocksTile;
use crate::components::CombatStats;
use crate::components::InBackpack;
use crate::components::Item;
use crate::components::Monster;
use crate::components::Name;
use crate::components::Player;
use crate::components::Position;
use crate::components::Potion;
use crate::components::SufferDamage;
use crate::components::Viewshed;
use crate::components::WantsToDrinkPotion;
use crate::components::WantsToDropItem;
use crate::components::WantsToMelee;
use crate::components::WantsToPickupItem;
use crate::game_log::GameLog;
use crate::game_map::GameMap;
use crate::state::RunState;

verus! {

/// Upper bound on combat stat fields, potion strength and queued damage
/// amounts; it keeps every hit-point calculation inside `i32`.
pub const STAT_CAP: i32 = 1_000_000;

/// An invariant violation inside the pipeline: a queued intent or damage
/// instruction references an entity whose required component is missing.
/// Such a tick is aborted loudly rather than silently skipped, since it
/// indicates a pipeline-ordering bug in the caller.
#[derive(Clone, Copy, PartialEq, Eq, Structural, Debug)]
pub enum PipelineError {
    /// A melee intent's attacker or target lacks `CombatStats`, or the
    /// target is dead.
    MeleeTargetMissingStats,
    /// A queued damage instruction's target is dead or lacks `CombatStats`.
    DamageTargetMissingStats,
    /// The player picked up an item that has no `Name` to log.
    PickupItemUnnamed,
    /// A drop intent's holder has no `Position` to drop at.
    DropperMissingPosition,
    /// The player dropped an item that has no `Name` to log.
    DropItemUnnamed,
    /// A drink intent references an entity that is dead or has no `Potion`.
    MissingPotion,
    /// A referenced potion is itself a drinker, or is the player: consuming
    /// it would corrupt the world mid-pass.
    PotionConflict,
    /// The player drank a potion that has no `Name` to log.
    PotionUnnamed,
}

/// The world: shared resources and one component storage per component kind.
#[derive(Debug)]
pub struct World {
    /// The current map, including its blocking and content indices.
    pub map: GameMap,
    /// The handle of the one player entity.
    pub player_entity: usize,
    /// The player's position, mirrored as a resource for distance and
    /// visibility checks.
    pub player_pos: Position,
    /// The turn state machine's current state.
    pub run_state: RunState,
    /// The message log, newest entry first.
    pub log: GameLog,
    /// Which entity slots are live.
    pub alive: Vec<bool>,
    pub positions: Vec<Option<Position>>,
    pub viewsheds: Vec<Option<Viewshed>>,
    pub players: Vec<Option<Player>>,
    pub monsters: Vec<Option<Monster>>,
    pub names: Vec<Option<Name>>,
    pub blockers: Vec<Option<BlocksTile>>,
    pub combat_stats: Vec<Option<CombatStats>>,
    pub items: Vec<Option<Item>>,
    pub potions: Vec<Option<Potion>>,
    pub backpacks: Vec<Option<InBackpack>>,
    pub melee_intents: Vec<Option<WantsToMelee>>,
    pub pickup_intents: Vec<Option<WantsToPickupItem>>,
    pub drop_intents: Vec<Option<WantsToDropItem>>,
    pub drink_intents: Vec<Option<WantsToDrinkPotion>>,
    /// Damage queued this tick; several entries may name the same target.
    pub damage_queue: Vec<SufferDamage>,
}

impl World {
    /// How many entity slots exist (live or dead).
    pub open spec fn num_entities(self) -> int {
        self.alive@.len() as int
    }

    /// Every component storage has one slot per entity.
    pub open spec fn storages_sized(self) -> bool {
        &&& self.positions@.len() == self.num_entities()
        &&& self.viewsheds@.len() == self.num_entities()
        &&& self.players@.len() == self.num_entities()
        &&& self.monsters@.len() == self.num_entities()
        &&& self.names@.len() == self.num_entities()
        &&& self.blockers@.len() == self.num_entities()
        &&& self.combat_stats@.len() == self.num_entities()
        &&& self.items@.len() == self.num_entities()
        &&& self.potions@.len() == self.num_entities()
        &&& self.backpacks@.len() == self.num_entities()
        &&& self.melee_intents@.len() == self.num_entities()
        &&& self.pickup_intents@.len() == self.num_entities()
        &&& self.drop_intents@.len() == self.num_entities()
        &&& self.drink_intents@.len() == self.num_entities()
    }

    /// There is exactly one player-tagged entity, it is live, and the
    /// `player_entity` resource names it.
    pub open spec fn player_ok(self) -> bool {
        &&& 0 <= self.player_entity < self.num_entities()
        &&& self.alive@[self.player_entity as int]
        &&& self.players@[self.player_entity as int] is Some
        &&& forall|e: int|
            0 <= e < self.num_entities() && self.players@[e] is Some ==> e
                == self.player_entity as int
    }

    /// Every stored position, and the player-position resource, lies on the
    /// map.
    pub open spec fn positions_ok(self) -> bool {
        &&& forall|e: int|
            0 <= e < self.num_entities() && self.positions@[e] is Some ==> self.map.in_bounds(
                self.positions@[e]->Some_0.x as int,
                self.positions@[e]->Some_0.y as int,
            )
        &&& self.map.in_bounds(self.player_pos.x as int, self.player_pos.y as int)
    }

    /// Every handle in the map's content index is a real slot.
    pub open spec fn content_ok(self) -> bool {
        forall|i: int, j: int|
            0 <= i < self.map.tile_content@.len() && 0 <= j < self.map.tile_content@[i]@.len()
                ==> (self.map.tile_content@[i]@[j] as int) < self.num_entities()
    }

    /// Combat stats and potion strengths are capped so that hit-point
    /// arithmetic stays inside `i32`; hit points never exceed the maximum.
    pub open spec fn stats_ok(self) -> bool {
        &&& forall|e: int|
            0 <= e < self.num_entities() && self.combat_stats@[e] is Some ==> {
                let s = self.combat_stats@[e]->Some_0;
                &&& 0 <= s.max_hp <= STAT_CAP
                &&& 0 <= s.defense <= STAT_CAP
                &&& 0 <= s.power <= STAT_CAP
                &&& s.hp <= s.max_hp
            }
        &&& forall|e: int|
            0 <= e < self.num_entities() && self.potions@[e] is Some ==> 0 <= self.potions@[e]->Some_0.heal_amount <= STAT_CAP
    }

    /// Every handle held by an intent, a backpack relation or a queued
    /// damage instruction is a real slot, and queued amounts are capped.
    pub open spec fn handles_ok(self) -> bool {
        &&& forall|e: int|
            0 <= e < self.num_entities() && self.melee_intents@[e] is Some ==> (
            self.melee_intents@[e]->Some_0.target as int) < self.num_entities()
        &&& forall|e: int|
            0 <= e < self.num_entities() && self.pickup_intents@[e] is Some ==> (
            self.pickup_intents@[e]->Some_0.collected_by as int) < self.num_entities() && (
            self.pickup_intents@[e]->Some_0.item as int) < self.num_entities()
        &&& forall|e: int|
            0 <= e < self.num_entities() && self.drop_intents@[e] is Some ==> (
            self.drop_intents@[e]->Some_0.item as int) < self.num_entities()
        &&& forall|e: int|
            0 <= e < self.num_entities() && self.drink_intents@[e] is Some ==> (
            self.drink_intents@[e]->Some_0.potion as int) < self.num_entities()
        &&& forall|e: int|
            0 <= e < self.num_entities() && self.backpacks@[e] is Some ==> (
            self.backpacks@[e]->Some_0.owner as int) < self.num_entities()
        &&& forall|k: int|
            0 <= k < self.damage_queue@.len() ==> (self.damage_queue@[k].target as int)
                < self.num_entities() && 0 <= self.damage_queue@[k].amount <= STAT_CAP
    }

    /// The world invariant: constructors establish it and every system
    /// preserves it.
    pub open spec fn wf(self) -> bool {
        &&& self.map.wf()
        &&& self.storages_sized()
        &&& self.player_ok()
        &&& self.positions_ok()
        &&& self.content_ok()
        &&& self.stats_ok()
        &&& self.handles_ok()
    }

    /// Entity `e` is live and stands on cell `i`.
    pub open spec fn occupies(self, e: int, i: int) -> bool {
        &&& 0 <= e < self.num_entities()
        &&& self.alive@[e]
        &&& self.positions@[e] is Some
        &&& self.map.idx_of(
            self.positions@[e]->Some_0.x as int,
            self.positions@[e]->Some_0.y as int,
        ) == i
    }

    /// A fresh world holding only the player: standing at `(x, y)` with the
    /// given name, combat stats and sight range, one turn from its first
    /// pipeline run.
    pub fn new(map: GameMap, x: i32, y: i32, name: String, stats: CombatStats, range: i32) -> (w:
        World)
        requires
            map.wf(),
            map.in_bounds(x as int, y as int),
            forall|i: int| 0 <= i < map.tile_content@.len() ==> map.tile_content@[i]@.len() == 0,
            0 <= stats.max_hp <= STAT_CAP,
            0 <= stats.defense <= STAT_CAP,
            0 <= stats.power <= STAT_CAP,
            stats.hp <= stats.max_hp,
        ensures
            w.wf(),
            w.map == map,
            w.num_entities() == 1,
            w.player_entity == 0,
            w.player_pos == (Position { x, y }),
            w.run_state == RunState::PreRun,
            w.log.entries@ =~= Seq::<crate::game_log::LogEntry>::empty(),
            w.alive@[0],
            w.positions@[0] == Some(Position { x, y }),
            w.players@[0] is Some,
            w.monsters@[0] is None,
            w.names@[0] is Some,
            w.names@[0]->Some_0.name == name,
            w.blockers@[0] is Some,
            w.combat_stats@[0] == Some(stats),
            w.items@[0] is None,
            w.potions@[0] is None,
            w.backpacks@[0] is None,
            w.melee_intents@[0] is None,
            w.pickup_intents@[0] is None,
            w.drop_intents@[0] is None,
            w.drink_intents@[0] is None,
            w.damage_queue@ =~= Seq::<SufferDamage>::empty(),
            w.viewsheds@[0] is Some,
            w.viewsheds@[0]->Some_0.visible_tiles@ =~= Seq::<Position>::empty(),
            w.viewsheds@[0]->Some_0.range == range,
            w.viewsheds@[0]->Some_0.dirty == true,
    {
        let mut w = World {
            map,
            player_entity: 0,
            player_pos: Position { x, y },
            run_state: RunState::PreRun,
            log: GameLog { entries: Vec::new() },
            alive: Vec::new(),
            positions: Vec::new(),
            viewsheds: Vec::new(),
            players: Vec::new(),
            monsters: Vec::new(),
            names: Vec::new(),
            blockers: Vec::new(),
            combat_stats: Vec::new(),
            items: Vec::new(),
            potions: Vec::new(),
            backpacks: Vec::new(),
            melee_intents: Vec::new(),
            pickup_intents: Vec::new(),
            drop_intents: Vec::new(),
            drink_intents: Vec::new(),
            damage_queue: Vec::new(),
        };
        w.alive.push(true);
        w.positions.push(Some(Position { x, y }));
        w.viewsheds.push(
            Some(Viewshed { visible_tiles: Vec::new(), range, dirty: true }),
        );
        w.players.push(Some(Player));
        w.monsters.push(None);
        w.names.push(Some(Name { name }));
        w.blockers.push(Some(BlocksTile));
        w.combat_stats.push(Some(stats));
        w.items.push(None);
        w.potions.push(None);
        w.backpacks.push(None);
        w.melee_intents.push(None);
        w.pickup_intents.push(None);
        w.drop_intents.push(None);
        w.drink_intents.push(None);
        w
    }

    /// Add a fresh, live entity slot with no components and return its
    /// handle. Spawning concrete monsters and items is the bootstrap's job.
    pub fn create_entity(&mut self) -> (e: usize)
        requires
            old(self).wf(),
        ensures
            final(self).wf(),
            e as int == old(self).num_entities(),
            final(self).num_entities() == old(self).num_entities() + 1,
            final(self).alive@ == old(self).alive@.push(true),
            final(self).positions@ == old(self).positions@.push(None),
            final(self).viewsheds@ =~= old(self).viewsheds@.push(None),
            final(self).players@ == old(self).players@.push(None),
            final(self).monsters@ == old(self).monsters@.push(None),
            final(self).names@ =~= old(self).names@.push(None),
            final(self).blockers@ == old(self).blockers@.push(None),
            final(self).combat_stats@ == old(self).combat_stats@.push(None),
            final(self).items@ == old(self).items@.push(None),
            final(self).potions@ == old(self).potions@.push(None),
            final(self).backpacks@ == old(self).backpacks@.push(None),
            final(self).melee_intents@ == old(self).melee_intents@.push(None),
            final(self).pickup_intents@ == old(self).pickup_intents@.push(None),
            final(self).drop_intents@ == old(self).drop_intents@.push(None),
            final(self).drink_intents@ == old(self).drink_intents@.push(None),
            final(self).damage_queue == old(self).damage_queue,
            final(self).map == old(self).map,
            final(self).player_entity == old(self).player_entity,
            final(self).player_pos == old(self).player_pos,
            final(self).run_state == old(self).run_state,
            final(self).log == old(self).log,
    {
        let e = self.alive.len();
        self.alive.push(true);
        self.positions.push(None);
        self.viewsheds.push(None);
        self.players.push(None);
        self.monsters.push(None);
        self.names.push(None);
        self.blockers.push(None);
        self.combat_stats.push(None);
        self.items.push(None);
        self.potions.push(None);
        self.backpacks.push(None);
        self.melee_intents.push(None);
        self.pickup_intents.push(None);
        self.drop_intents.push(None);
        self.drink_intents.push(None);
        e
    }

    /// Decide the invariant at run time, so that an unverified host can test
    /// it before calling into the pipeline.
    pub fn check_wf(&self) -> (r: bool)
        ensures
            r == self.wf(),
    {
        let n: usize = self.alive.len();
        let w64: i64 = self.map.width as i64;
        let h64: i64 = self.map.height as i64;
        if !(self.map.width >= 1 && self.map.height >= 1) {
            return false;
        }
        proof {
            assert(i64::MIN <= (w64 as int) * (h64 as int) <= i64::MAX) by (nonlinear_arith)
                requires
                    -0x8000_0000 <= w64 <= 0x7fff_ffff,
                    -0x8000_0000 <= h64 <= 0x7fff_ffff,
            {}
        }
        if w64 * h64 > i32::MAX as i64 {
            return false;
        }
        let cells: usize = (w64 * h64) as usize;
        if !(self.map.tiles.len() == cells && self.map.revealed_tiles.len() == cells
            && self.map.visible_tiles.len() == cells && self.map.blocked.len() == cells
            && self.map.tile_content.len() == cells) {
            return false;
        }
        if !(self.positions.len() == n && self.viewsheds.len() == n && self.players.len() == n
            && self.monsters.len() == n && self.names.len() == n && self.blockers.len() == n
            && self.combat_stats.len() == n && self.items.len() == n && self.potions.len() == n
            && self.backpacks.len() == n && self.melee_intents.len() == n
            && self.pickup_intents.len() == n && self.drop_intents.len() == n
            && self.drink_intents.len() == n) {
            return false;
        }
        if !(self.player_entity < n && self.alive[self.player_entity]
            && self.players[self.player_entity].is_some()) {
            return false;
        }
        if !(self.player_pos.x >= 0 && self.player_pos.x < self.map.width && self.player_pos.y >= 0
            && self.player_pos.y < self.map.height) {
            return false;
        }
        let mut e: usize = 0;
        while e < n
            invariant
                e <= n,
                n == self.num_entities(),
                self.map.wf(),
                self.storages_sized(),
                self.player_entity < n,
                forall|k: int|
                    0 <= k < e && self.players@[k] is Some ==> k == self.player_entity as int,
                forall|k: int|
                    0 <= k < e && self.positions@[k] is Some ==> self.map.in_bounds(
                        self.positions@[k]->Some_0.x as int,
                        self.positions@[k]->Some_0.y as int,
                    ),
                forall|k: int|
                    0 <= k < e && self.combat_stats@[k] is Some ==> {
                        let st = self.combat_stats@[k]->Some_0;
                        &&& 0 <= st.max_hp <= STAT_CAP
                        &&& 0 <= st.defense <= STAT_CAP
                        &&& 0 <= st.power <= STAT_CAP
                        &&& st.hp <= st.max_hp
                    },
                forall|k: int|
                    0 <= k < e && self.potions@[k] is Some ==> 0 <= self.potions@[k]->Some_0.heal_amount <= STAT_CAP,
                forall|k: int|
                    0 <= k < e && self.melee_intents@[k] is Some ==> (
                    self.melee_intents@[k]->Some_0.target as int) < n,
                forall|k: int|
                    0 <= k < e && self.pickup_intents@[k] is Some ==> (
                    self.pickup_intents@[k]->Some_0.collected_by as int) < n && (
                    self.pickup_intents@[k]->Some_0.item as int) < n,
                forall|k: int|
                    0 <= k < e && self.drop_intents@[k] is Some ==> (
                    self.drop_intents@[k]->Some_0.item as int) < n,
                forall|k: int|
                    0 <= k < e && self.drink_intents@[k] is Some ==> (
                    self.drink_intents@[k]->Some_0.potion as int) < n,
                forall|k: int|
                    0 <= k < e && self.backpacks@[k] is Some ==> (
                    self.backpacks@[k]->Some_0.owner as int) < n,
            decreases n - e,
        {
            if self.players[e].is_some() && e != self.player_entity {
                return false;
            }
            match self.positions[e] {
                Some(p) => {
                    if !(p.x >= 0 && p.x < self.map.width && p.y >= 0 && p.y < self.map.height) {
                        return false;
                    }
                },
                None => {},
            }
            match self.combat_stats[e] {
                Some(st) => {
                    if !(0 <= st.max_hp && st.max_hp <= STAT_CAP && 0 <= st.defense && st.defense
                        <= STAT_CAP && 0 <= st.power && st.power <= STAT_CAP && st.hp
                        <= st.max_hp) {
                        return false;
                    }
                },
                None => {},
            }
            match self.potions[e] {
                Some(p) => {
                    if !(0 <= p.heal_amount && p.heal_amount <= STAT_CAP) {
                        return false;
                    }
                },
                None => {},
            }
            match self.melee_intents[e] {
                Some(m) => {
                    if !(m.target < n) {
                        return false;
                    }
                },
                None => {},
            }
            match self.pickup_intents[e] {
                Some(p) => {
                    if !(p.collected_by < n && p.item < n) {
                        return false;
                    }
                },
                None => {},
            }
            match self.drop_intents[e] {
                Some(d) => {
                    if !(d.item < n) {
                        return false;
                    }
                },
                None => {},
            }
            match self.drink_intents[e] {
                Some(d) => {
                    if !(d.potion < n) {
                        return false;
                    }
                },
                None => {},
            }
            match self.backpacks[e] {
                Some(b) => {
                    if !(b.owner < n) {
                        return false;
                    }
                },
                None => {},
            }
            e += 1;
        }
        let qn: usize = self.damage_queue.len();
        let mut k: usize = 0;
        while k < qn
            invariant
                k <= qn,
                qn == self.damage_queue@.len(),
                n == self.num_entities(),
                forall|j: int|
                    0 <= j < k ==> ((#[trigger] self.damage_queue@[j]).target as int) < n && 0
                        <= self.damage_queue@[j].amount <= STAT_CAP,
            decreases qn - k,
        {
            let d = self.damage_queue[k];
            if !(d.target < n && 0 <= d.amount && d.amount <= STAT_CAP) {
                return false;
            }
            k += 1;
        }
        let cn: usize = self.map.tile_content.len();
        let mut i: usize = 0;
        while i < cn
            invariant
                i <= cn,
                cn == self.map.tile_content@.len(),
                n == self.num_entities(),
                forall|i2: int, j: int|
                    0 <= i2 < i && 0 <= j < self.map.tile_content@[i2]@.len() ==> (
                    self.map.tile_content@[i2]@[j] as int) < n,
            decreases cn - i,
        {
            let ln: usize = self.map.tile_content[i].len();
            let mut j: usize = 0;
            while j < ln
                invariant
                    j <= ln,
                    i < cn,
                    cn == self.map.tile_content@.len(),
                    ln == self.map.tile_content@[i as int]@.len(),
                    n == self.num_entities(),
                    forall|j2: int|
                        0 <= j2 < j ==> (self.map.tile_content@[i as int]@[j2] as int) < n,
                decreases ln - j,
            {
                if !(self.map.tile_content[i][j] < n) {
                    return false;
                }
                j += 1;
            }
            i += 1;
        }
        true
    }
}

} // verus!
