use dungeon_core::BlocksTile;
use dungeon_core::CombatStats;
use dungeon_core::GameMap;
use dungeon_core::InBackpack;
use dungeon_core::InputCommand;
use dungeon_core::Item;
use dungeon_core::ItemMenuResult;
use dungeon_core::MapIndexingSystem;
use dungeon_core::MenuCommand;
use dungeon_core::Monster;
use dungeon_core::Name;
use dungeon_core::Position;
use dungeon_core::Potion;
use dungeon_core::RunState;
use dungeon_core::State;
use dungeon_core::TickInput;
use dungeon_core::TileType;
use dungeon_core::Viewshed;
use dungeon_core::WantsToMelee;
use dungeon_core::World;
use dungeon_core::names_at;
use dungeon_core::player_inventory;
use dungeon_core::show_inventory;
use dungeon_core::try_move_player;

fn turn_world(px: i32, py: i32) -> World {
    let mut map = GameMap::new(12, 12);
    for i in 0..map.tiles.len() {
        map.tiles[i] = TileType::Floor;
    }
    map.populate_blocked();
    let stats = CombatStats { max_hp: 30, defense: 2, power: 5, hp: 30 };
    World::new(map, px, py, "Player".to_string(), stats, 8)
}

fn turn_monster(w: &mut World, x: i32, y: i32) -> usize {
    let m = w.create_entity();
    w.monsters[m] = Some(Monster);
    w.positions[m] = Some(Position { x, y });
    w.viewsheds[m] = Some(Viewshed { visible_tiles: Vec::new(), range: 8, dirty: true });
    w.names[m] = Some(Name { name: "Goblin".to_string() });
    w.blockers[m] = Some(BlocksTile);
    w.combat_stats[m] = Some(CombatStats { max_hp: 16, defense: 1, power: 4, hp: 16 });
    m
}

fn no_fov(_m: &GameMap, _p: Position, _r: i32) -> Vec<Position> {
    Vec::new()
}

fn no_path(_m: &GameMap, _s: usize, _g: usize) -> (bool, Vec<usize>) {
    (false, Vec::new())
}

#[test]
fn moving_into_a_combatant_queues_melee_instead() {
    let mut w = turn_world(5, 5);
    let m = turn_monster(&mut w, 6, 5);
    MapIndexingSystem::run(&mut w);
    try_move_player(&mut w, 1, 0);
    let pe = w.player_entity;
    assert_eq!(w.melee_intents[pe], Some(WantsToMelee { target: m }));
    assert_eq!(w.positions[pe], Some(Position { x: 5, y: 5 }), "no movement occurs");
    assert_eq!(w.player_pos, Position { x: 5, y: 5 });
}

#[test]
fn moving_onto_free_floor_commits_the_step() {
    let mut w = turn_world(5, 5);
    MapIndexingSystem::run(&mut w);
    w.viewsheds[w.player_entity].as_mut().unwrap().dirty = false;
    try_move_player(&mut w, -1, 1);
    let pe = w.player_entity;
    assert_eq!(w.positions[pe], Some(Position { x: 4, y: 6 }));
    assert_eq!(w.player_pos, Position { x: 4, y: 6 });
    assert!(w.viewsheds[pe].as_ref().unwrap().dirty, "movement marks the viewshed dirty");
}

#[test]
fn moving_into_a_wall_does_nothing() {
    let mut w = turn_world(5, 5);
    let wall = w.map.xy_idx(6, 5);
    w.map.tiles[wall] = TileType::Wall;
    MapIndexingSystem::run(&mut w);
    try_move_player(&mut w, 1, 0);
    assert_eq!(w.positions[w.player_entity], Some(Position { x: 5, y: 5 }));
}

#[test]
fn movement_clamps_to_map_bounds() {
    let mut w = turn_world(0, 0);
    MapIndexingSystem::run(&mut w);
    try_move_player(&mut w, -1, -1);
    assert_eq!(w.positions[w.player_entity], Some(Position { x: 0, y: 0 }));
}

#[test]
fn prerun_tick_runs_pipeline_then_awaits_input() {
    let mut gs = State { ecs: turn_world(5, 5) };
    assert_eq!(gs.ecs.run_state, RunState::PreRun);
    let input = TickInput { key: None, menu: MenuCommand::Nothing };
    gs.tick(input, no_fov, no_path).unwrap();
    assert_eq!(gs.ecs.run_state, RunState::AwaitingInput);
}

#[test]
fn awaiting_input_without_a_key_stays_put() {
    let mut gs = State { ecs: turn_world(5, 5) };
    gs.ecs.run_state = RunState::AwaitingInput;
    let input = TickInput { key: None, menu: MenuCommand::Nothing };
    gs.tick(input, no_fov, no_path).unwrap();
    assert_eq!(gs.ecs.run_state, RunState::AwaitingInput);
}

#[test]
fn a_movement_key_spends_the_player_turn() {
    let mut gs = State { ecs: turn_world(5, 5) };
    gs.ecs.run_state = RunState::AwaitingInput;
    MapIndexingSystem::run(&mut gs.ecs);
    let input = TickInput {
        key: Some(InputCommand::MoveDelta { dx: 1, dy: 0 }),
        menu: MenuCommand::Nothing,
    };
    gs.tick(input, no_fov, no_path).unwrap();
    assert_eq!(gs.ecs.run_state, RunState::PlayerTurn);
    assert_eq!(gs.ecs.positions[gs.ecs.player_entity], Some(Position { x: 6, y: 5 }));
    // the next two ticks run the pipeline: player turn, then monster turn
    let quiet = TickInput { key: None, menu: MenuCommand::Nothing };
    gs.tick(quiet, no_fov, no_path).unwrap();
    assert_eq!(gs.ecs.run_state, RunState::MonsterTurn);
    gs.tick(quiet, no_fov, no_path).unwrap();
    assert_eq!(gs.ecs.run_state, RunState::AwaitingInput);
}

#[test]
fn menu_keys_open_their_menus() {
    let mut gs = State { ecs: turn_world(5, 5) };
    gs.ecs.run_state = RunState::AwaitingInput;
    let input = TickInput { key: Some(InputCommand::OpenInventory), menu: MenuCommand::Nothing };
    gs.tick(input, no_fov, no_path).unwrap();
    assert_eq!(gs.ecs.run_state, RunState::ShowInventory);
    gs.ecs.run_state = RunState::AwaitingInput;
    let input = TickInput { key: Some(InputCommand::OpenDropMenu), menu: MenuCommand::Nothing };
    gs.tick(input, no_fov, no_path).unwrap();
    assert_eq!(gs.ecs.run_state, RunState::ShowDropItem);
}

fn turn_carried_potion(w: &mut World, name: &str) -> usize {
    let p = w.create_entity();
    w.items[p] = Some(Item);
    w.potions[p] = Some(Potion { heal_amount: 8 });
    w.names[p] = Some(Name { name: name.to_string() });
    w.backpacks[p] = Some(InBackpack { owner: w.player_entity });
    p
}

#[test]
fn inventory_lists_only_the_players_named_carry() {
    let mut w = turn_world(5, 5);
    let a = turn_carried_potion(&mut w, "First");
    let b = turn_carried_potion(&mut w, "Second");
    let other = w.create_entity();
    w.backpacks[other] = Some(InBackpack { owner: other });
    assert_eq!(player_inventory(&w), vec![a, b]);
}

#[test]
fn menu_selection_picks_the_listed_entity() {
    let mut w = turn_world(5, 5);
    let a = turn_carried_potion(&mut w, "First");
    let b = turn_carried_potion(&mut w, "Second");
    assert_eq!(show_inventory(&w, MenuCommand::Exit), ItemMenuResult::Cancel);
    assert_eq!(show_inventory(&w, MenuCommand::Nothing), ItemMenuResult::NoResponse);
    assert_eq!(
        show_inventory(&w, MenuCommand::Choose { index: 0 }),
        ItemMenuResult::Selected(a)
    );
    assert_eq!(
        show_inventory(&w, MenuCommand::Choose { index: 1 }),
        ItemMenuResult::Selected(b)
    );
    assert_eq!(
        show_inventory(&w, MenuCommand::Choose { index: 2 }),
        ItemMenuResult::NoResponse
    );
    assert_eq!(
        show_inventory(&w, MenuCommand::Choose { index: -1 }),
        ItemMenuResult::NoResponse
    );
}

#[test]
fn choosing_from_the_inventory_menu_drinks() {
    let mut gs = State { ecs: turn_world(5, 5) };
    let p = turn_carried_potion(&mut gs.ecs, "Health Potion");
    gs.ecs.run_state = RunState::ShowInventory;
    gs.ecs.combat_stats[gs.ecs.player_entity].as_mut().unwrap().hp = 20;
    let input = TickInput { key: None, menu: MenuCommand::Choose { index: 0 } };
    gs.tick(input, no_fov, no_path).unwrap();
    assert_eq!(gs.ecs.run_state, RunState::PlayerTurn);
    // the pipeline of the player turn consumes the potion
    let quiet = TickInput { key: None, menu: MenuCommand::Nothing };
    gs.tick(quiet, no_fov, no_path).unwrap();
    assert_eq!(gs.ecs.combat_stats[gs.ecs.player_entity].unwrap().hp, 28);
    assert!(!gs.ecs.alive[p]);
}

#[test]
fn cancelling_a_menu_returns_to_input() {
    let mut gs = State { ecs: turn_world(5, 5) };
    gs.ecs.run_state = RunState::ShowInventory;
    let input = TickInput { key: None, menu: MenuCommand::Exit };
    gs.tick(input, no_fov, no_path).unwrap();
    assert_eq!(gs.ecs.run_state, RunState::AwaitingInput);
}

#[test]
fn a_full_fight_kills_the_monster() {
    let mut gs = State { ecs: turn_world(5, 5) };
    let m = turn_monster(&mut gs.ecs, 6, 5);
    gs.ecs.combat_stats[m].as_mut().unwrap().hp = 3;
    gs.ecs.run_state = RunState::AwaitingInput;
    MapIndexingSystem::run(&mut gs.ecs);
    // bump attack: 5 power - 1 defense = 4 damage, enough for 3 hp
    let attack = TickInput {
        key: Some(InputCommand::MoveDelta { dx: 1, dy: 0 }),
        menu: MenuCommand::Nothing,
    };
    gs.tick(attack, no_fov, no_path).unwrap();
    assert_eq!(gs.ecs.run_state, RunState::PlayerTurn);
    let quiet = TickInput { key: None, menu: MenuCommand::Nothing };
    gs.tick(quiet, no_fov, no_path).unwrap();
    assert!(!gs.ecs.alive[m], "the monster died and was swept");
    assert!(gs.ecs.alive[gs.ecs.player_entity]);
}

#[test]
fn world_invariant_checker_accepts_and_rejects() {
    let mut w = turn_world(5, 5);
    assert!(w.check_wf());
    w.positions[w.player_entity] = Some(Position { x: 99, y: 99 });
    assert!(!w.check_wf());
}

#[test]
fn names_at_lists_everyone_on_the_cell() {
    let mut w = turn_world(5, 5);
    let m = turn_monster(&mut w, 5, 5);
    let _ = m;
    assert_eq!(names_at(&w, 5, 5), vec!["Player".to_string(), "Goblin".to_string()]);
    assert!(names_at(&w, 1, 1).is_empty());
}
