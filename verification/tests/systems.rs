use dungeon_core::BlocksTile;
use dungeon_core::CombatStats;
use dungeon_core::DamageSystem;
use dungeon_core::GameMap;
use dungeon_core::LogEntry;
use dungeon_core::MapIndexingSystem;
use dungeon_core::Monster;
use dungeon_core::MonsterAI;
use dungeon_core::Name;
use dungeon_core::PipelineError;
use dungeon_core::Position;
use dungeon_core::RunState;
use dungeon_core::SufferDamage;
use dungeon_core::TileType;
use dungeon_core::Viewshed;
use dungeon_core::VisibilitySystem;
use dungeon_core::WantsToMelee;
use dungeon_core::World;
use dungeon_core::delete_the_dead;

fn sys_open_map(width: i32, height: i32) -> GameMap {
    let mut map = GameMap::new(width, height);
    for i in 0..map.tiles.len() {
        map.tiles[i] = TileType::Floor;
    }
    map.populate_blocked();
    map
}

fn sys_world(width: i32, height: i32, px: i32, py: i32) -> World {
    let stats = CombatStats { max_hp: 30, defense: 2, power: 5, hp: 30 };
    World::new(sys_open_map(width, height), px, py, "Player".to_string(), stats, 8)
}

fn sys_monster(w: &mut World, x: i32, y: i32) -> usize {
    let m = w.create_entity();
    w.monsters[m] = Some(Monster);
    w.positions[m] = Some(Position { x, y });
    w.viewsheds[m] = Some(Viewshed { visible_tiles: Vec::new(), range: 8, dirty: true });
    w.names[m] = Some(Name { name: "Goblin".to_string() });
    w.blockers[m] = Some(BlocksTile);
    w.combat_stats[m] = Some(CombatStats { max_hp: 16, defense: 1, power: 4, hp: 16 });
    m
}

#[test]
fn spatial_index_blocked_iff_wall_or_blocker() {
    let mut w = sys_world(10, 10, 2, 2);
    let wall = w.map.xy_idx(5, 5);
    w.map.tiles[wall] = TileType::Wall;
    let m = sys_monster(&mut w, 7, 7);
    MapIndexingSystem::run(&mut w);
    for y in 0..10 {
        for x in 0..10 {
            let i = w.map.xy_idx(x, y);
            let expect = w.map.tiles[i] == TileType::Wall || (x == 7 && y == 7) || (x == 2 && y
                == 2);
            assert_eq!(w.map.blocked[i], expect, "cell ({x},{y})");
        }
    }
    let mcell = w.map.xy_idx(7, 7);
    assert_eq!(w.map.tile_content[mcell], vec![m]);
    let pcell = w.map.xy_idx(2, 2);
    assert_eq!(w.map.tile_content[pcell], vec![w.player_entity]);
}

#[test]
fn visibility_filters_border_cells() {
    let mut w = sys_world(10, 10, 2, 2);
    let fov = |_m: &GameMap, _p: Position, _r: i32| {
        vec![
            Position { x: 0, y: 2 },  // left border: dropped
            Position { x: 9, y: 2 },  // right border: dropped
            Position { x: 2, y: 0 },  // top border: dropped
            Position { x: 2, y: 9 },  // bottom border: dropped
            Position { x: 3, y: 4 },  // interior: kept
            Position { x: 8, y: 8 },  // interior: kept
        ]
    };
    VisibilitySystem::run(&mut w, fov);
    let vs = w.viewsheds[w.player_entity].as_ref().unwrap();
    assert_eq!(vs.visible_tiles, vec![Position { x: 3, y: 4 }, Position { x: 8, y: 8 }]);
    assert_eq!(vs.range, 8);
    assert!(vs.dirty);
}

#[test]
fn adjacent_monster_queues_melee_and_stays() {
    let mut w = sys_world(10, 10, 5, 5);
    let m = sys_monster(&mut w, 6, 6);
    w.run_state = RunState::MonsterTurn;
    MapIndexingSystem::run(&mut w);
    let path = |_m: &GameMap, _s: usize, _g: usize| -> (bool, Vec<usize>) {
        panic!("an adjacent monster must not ask for a path")
    };
    MonsterAI::run(&mut w, path);
    assert_eq!(w.melee_intents[m], Some(WantsToMelee { target: w.player_entity }));
    assert_eq!(w.positions[m], Some(Position { x: 6, y: 6 }));
}

#[test]
fn distant_monster_walks_first_step_and_blocked_migrates() {
    let mut w = sys_world(10, 10, 1, 1);
    let m = sys_monster(&mut w, 5, 1);
    // the player is visible to the monster
    w.viewsheds[m].as_mut().unwrap().visible_tiles.push(Position { x: 1, y: 1 });
    w.viewsheds[m].as_mut().unwrap().dirty = false;
    w.run_state = RunState::MonsterTurn;
    MapIndexingSystem::run(&mut w);
    let start = w.map.xy_idx(5, 1);
    let goal = w.map.xy_idx(1, 1);
    let step = w.map.xy_idx(4, 1);
    let path = move |_m: &GameMap, s: usize, g: usize| -> (bool, Vec<usize>) {
        assert_eq!(s, start);
        assert_eq!(g, goal);
        (true, vec![s, step, g])
    };
    MonsterAI::run(&mut w, path);
    assert_eq!(w.positions[m], Some(Position { x: 4, y: 1 }));
    assert!(!w.map.blocked[start], "the old cell is freed");
    assert!(w.map.blocked[step], "the new cell is blocked");
    assert!(w.viewsheds[m].as_ref().unwrap().dirty);
    assert_eq!(w.melee_intents[m], None);
}

#[test]
fn monster_without_sight_of_player_stays() {
    let mut w = sys_world(10, 10, 1, 1);
    let m = sys_monster(&mut w, 5, 1);
    w.run_state = RunState::MonsterTurn;
    MapIndexingSystem::run(&mut w);
    let path = |_m: &GameMap, _s: usize, _g: usize| -> (bool, Vec<usize>) {
        panic!("a monster that cannot see the player must not ask for a path")
    };
    MonsterAI::run(&mut w, path);
    assert_eq!(w.positions[m], Some(Position { x: 5, y: 1 }));
}

#[test]
fn ai_only_acts_on_monster_turn() {
    let mut w = sys_world(10, 10, 5, 5);
    let m = sys_monster(&mut w, 6, 6);
    w.run_state = RunState::PlayerTurn;
    let path = |_m: &GameMap, s: usize, _g: usize| (true, vec![s]);
    MonsterAI::run(&mut w, path);
    assert_eq!(w.melee_intents[m], None);
}

#[test]
fn melee_resolves_power_minus_defense() {
    let mut w = sys_world(10, 10, 5, 5);
    let m = sys_monster(&mut w, 6, 6);
    // player power 5, monster defense 1: the hit queues 4 damage
    w.melee_intents[w.player_entity] = Some(WantsToMelee { target: m });
    dungeon_core::MeleeCombatSystem::run(&mut w).unwrap();
    assert_eq!(w.damage_queue.len(), 1);
    assert_eq!(w.damage_queue[0], SufferDamage { target: m, amount: 4 });
    assert!(w.melee_intents.iter().all(|i| i.is_none()));
}

#[test]
fn melee_damage_floors_at_one() {
    let mut w = sys_world(10, 10, 5, 5);
    let m = sys_monster(&mut w, 6, 6);
    w.combat_stats[m] = Some(CombatStats { max_hp: 16, defense: 50, power: 4, hp: 16 });
    w.melee_intents[w.player_entity] = Some(WantsToMelee { target: m });
    dungeon_core::MeleeCombatSystem::run(&mut w).unwrap();
    assert_eq!(w.damage_queue[0], SufferDamage { target: m, amount: 1 });
}

#[test]
fn melee_against_statless_target_aborts() {
    let mut w = sys_world(10, 10, 5, 5);
    let m = sys_monster(&mut w, 6, 6);
    w.combat_stats[m] = None;
    w.melee_intents[w.player_entity] = Some(WantsToMelee { target: m });
    let r = dungeon_core::MeleeCombatSystem::run(&mut w);
    assert_eq!(r, Err(PipelineError::MeleeTargetMissingStats));
    // the tick was aborted with the world unchanged
    assert!(w.melee_intents[w.player_entity].is_some());
    assert!(w.damage_queue.is_empty());
}

#[test]
fn two_damage_instructions_accumulate() {
    let mut w = sys_world(10, 10, 5, 5);
    let m = sys_monster(&mut w, 6, 6);
    w.damage_queue.push(SufferDamage { target: m, amount: 5 });
    w.damage_queue.push(SufferDamage { target: m, amount: 5 });
    DamageSystem::run(&mut w).unwrap();
    assert_eq!(w.combat_stats[m].unwrap().hp, 6);
    assert!(w.damage_queue.is_empty());
}

#[test]
fn damage_against_statless_target_aborts() {
    let mut w = sys_world(10, 10, 5, 5);
    w.damage_queue.push(SufferDamage { target: w.player_entity, amount: 5 });
    let m = sys_monster(&mut w, 6, 6);
    w.combat_stats[m] = None;
    w.damage_queue.push(SufferDamage { target: m, amount: 5 });
    let r = DamageSystem::run(&mut w);
    assert_eq!(r, Err(PipelineError::DamageTargetMissingStats));
    assert_eq!(w.combat_stats[w.player_entity].unwrap().hp, 30);
    assert_eq!(w.damage_queue.len(), 2);
}

#[test]
fn death_sweep_removes_monster_but_never_player() {
    let mut w = sys_world(10, 10, 5, 5);
    let m = sys_monster(&mut w, 6, 6);
    w.combat_stats[m].as_mut().unwrap().hp = 0;
    w.combat_stats[w.player_entity].as_mut().unwrap().hp = -3;
    delete_the_dead(&mut w);
    assert!(!w.alive[m]);
    assert!(w.positions[m].is_none());
    assert!(w.combat_stats[m].is_none());
    assert!(w.monsters[m].is_none());
    assert!(w.alive[w.player_entity], "the player is never removed");
    assert!(w.combat_stats[w.player_entity].is_some());
    assert!(w.log.entries.contains(&LogEntry::PlayerDead));
    assert!(w.log.entries.contains(&LogEntry::Dead { name: "Goblin".to_string() }));
}

#[test]
fn death_sweep_spares_the_healthy() {
    let mut w = sys_world(10, 10, 5, 5);
    let m = sys_monster(&mut w, 6, 6);
    delete_the_dead(&mut w);
    assert!(w.alive[m]);
    assert!(w.log.entries.is_empty());
}
