use dungeon_core::CombatStats;
use dungeon_core::GameMap;
use dungeon_core::InBackpack;
use dungeon_core::Item;
use dungeon_core::ItemCollectionSystem;
use dungeon_core::ItemDropSystem;
use dungeon_core::LogEntry;
use dungeon_core::Name;
use dungeon_core::PipelineError;
use dungeon_core::Position;
use dungeon_core::Potion;
use dungeon_core::PotionUseSystem;
use dungeon_core::TileType;
use dungeon_core::WantsToDrinkPotion;
use dungeon_core::WantsToDropItem;
use dungeon_core::WantsToPickupItem;
use dungeon_core::World;
use dungeon_core::get_item;

fn inv_world(px: i32, py: i32) -> World {
    let mut map = GameMap::new(12, 12);
    for i in 0..map.tiles.len() {
        map.tiles[i] = TileType::Floor;
    }
    map.populate_blocked();
    let stats = CombatStats { max_hp: 30, defense: 2, power: 5, hp: 30 };
    World::new(map, px, py, "Player".to_string(), stats, 8)
}

fn inv_potion(w: &mut World, x: i32, y: i32, heal: i32, name: &str) -> usize {
    let p = w.create_entity();
    w.items[p] = Some(Item);
    w.potions[p] = Some(Potion { heal_amount: heal });
    w.names[p] = Some(Name { name: name.to_string() });
    w.positions[p] = Some(Position { x, y });
    p
}

#[test]
fn pickup_moves_item_into_backpack() {
    let mut w = inv_world(3, 3);
    let p = inv_potion(&mut w, 3, 3, 8, "Health Potion");
    let pe = w.player_entity;
    w.pickup_intents[pe] = Some(WantsToPickupItem { collected_by: pe, item: p });
    ItemCollectionSystem::run(&mut w).unwrap();
    assert_eq!(w.backpacks[p], Some(InBackpack { owner: pe }));
    assert!(w.positions[p].is_none());
    assert!(w.pickup_intents.iter().all(|i| i.is_none()));
    assert_eq!(w.log.entries[0], LogEntry::PickedUp { name: "Health Potion".to_string() });
}

#[test]
fn pickup_of_nameless_item_by_player_aborts() {
    let mut w = inv_world(3, 3);
    let p = inv_potion(&mut w, 3, 3, 8, "Health Potion");
    w.names[p] = None;
    let pe = w.player_entity;
    w.pickup_intents[pe] = Some(WantsToPickupItem { collected_by: pe, item: p });
    let r = ItemCollectionSystem::run(&mut w);
    assert_eq!(r, Err(PipelineError::PickupItemUnnamed));
    assert!(w.positions[p].is_some());
    assert!(w.backpacks[p].is_none());
}

#[test]
fn drop_places_item_at_holder_position() {
    let mut w = inv_world(4, 7);
    let p = inv_potion(&mut w, 1, 1, 8, "Health Potion");
    let pe = w.player_entity;
    w.positions[p] = None;
    w.backpacks[p] = Some(InBackpack { owner: pe });
    w.drop_intents[pe] = Some(WantsToDropItem { item: p });
    ItemDropSystem::run(&mut w).unwrap();
    assert_eq!(w.positions[p], Some(Position { x: 4, y: 7 }));
    assert!(w.backpacks[p].is_none());
    assert!(w.drop_intents.iter().all(|i| i.is_none()));
    assert_eq!(w.log.entries[0], LogEntry::Dropped { name: "Health Potion".to_string() });
}

#[test]
fn drop_without_holder_position_aborts() {
    let mut w = inv_world(4, 7);
    let p = inv_potion(&mut w, 1, 1, 8, "Health Potion");
    let pe = w.player_entity;
    w.backpacks[p] = Some(InBackpack { owner: pe });
    w.positions[pe] = None;
    w.drop_intents[pe] = Some(WantsToDropItem { item: p });
    let r = ItemDropSystem::run(&mut w);
    assert_eq!(r, Err(PipelineError::DropperMissingPosition));
}

#[test]
fn dropping_a_nameless_item_aborts() {
    let mut w = inv_world(4, 7);
    let p = inv_potion(&mut w, 1, 1, 8, "Health Potion");
    w.names[p] = None;
    let pe = w.player_entity;
    w.positions[p] = None;
    w.backpacks[p] = Some(InBackpack { owner: pe });
    w.drop_intents[pe] = Some(WantsToDropItem { item: p });
    let r = ItemDropSystem::run(&mut w);
    assert_eq!(r, Err(PipelineError::DropItemUnnamed));
    assert!(w.backpacks[p].is_some());
}

#[test]
fn drinking_a_fellow_drinker_aborts() {
    let mut w = inv_world(5, 5);
    let p = inv_potion(&mut w, 5, 5, 8, "Strange Brew");
    // the potion entity is itself an eligible drinker: consuming it would
    // corrupt the pass
    w.combat_stats[p] = Some(CombatStats { max_hp: 5, defense: 0, power: 0, hp: 5 });
    w.drink_intents[p] = Some(WantsToDrinkPotion { potion: p });
    let pe = w.player_entity;
    w.drink_intents[pe] = Some(WantsToDrinkPotion { potion: p });
    let r = PotionUseSystem::run(&mut w);
    assert_eq!(r, Err(PipelineError::PotionConflict));
    assert!(w.alive[p]);
}

#[test]
fn pickup_drop_pickup_restores_owner_without_duplication() {
    let mut w = inv_world(5, 5);
    let p = inv_potion(&mut w, 5, 5, 8, "Health Potion");
    let pe = w.player_entity;
    let population = w.alive.len();
    // pickup
    w.pickup_intents[pe] = Some(WantsToPickupItem { collected_by: pe, item: p });
    ItemCollectionSystem::run(&mut w).unwrap();
    let owner_after_first = w.backpacks[p];
    assert_eq!(owner_after_first, Some(InBackpack { owner: pe }));
    // drop: the item lands on the dropper's current cell
    w.drop_intents[pe] = Some(WantsToDropItem { item: p });
    ItemDropSystem::run(&mut w).unwrap();
    assert_eq!(w.positions[p], Some(Position { x: 5, y: 5 }));
    assert!(w.backpacks[p].is_none());
    // pickup again: same owner, item off the ground, nothing duplicated
    w.pickup_intents[pe] = Some(WantsToPickupItem { collected_by: pe, item: p });
    ItemCollectionSystem::run(&mut w).unwrap();
    assert_eq!(w.backpacks[p], owner_after_first);
    assert!(w.positions[p].is_none());
    assert_eq!(w.alive.len(), population);
    assert_eq!(w.alive.iter().filter(|a| **a).count(), 2);
}

#[test]
fn potion_heals_up_to_the_cap_and_is_destroyed() {
    let mut w = inv_world(5, 5);
    let p = inv_potion(&mut w, 5, 5, 8, "Health Potion");
    let pe = w.player_entity;
    w.combat_stats[pe].as_mut().unwrap().hp = 25;
    w.drink_intents[pe] = Some(WantsToDrinkPotion { potion: p });
    PotionUseSystem::run(&mut w).unwrap();
    assert_eq!(w.combat_stats[pe].unwrap().hp, 30, "healing caps at max_hp");
    assert!(!w.alive[p], "the potion entity is destroyed");
    assert!(w.potions[p].is_none());
    assert!(w.drink_intents.iter().all(|i| i.is_none()));
    assert_eq!(
        w.log.entries[0],
        LogEntry::Drank { name: "Health Potion".to_string(), heal_amount: 8 }
    );
}

#[test]
fn potion_at_full_health_changes_nothing_but_is_consumed() {
    let mut w = inv_world(5, 5);
    let p = inv_potion(&mut w, 5, 5, 8, "Health Potion");
    let pe = w.player_entity;
    assert_eq!(w.combat_stats[pe].unwrap().hp, 30);
    w.drink_intents[pe] = Some(WantsToDrinkPotion { potion: p });
    PotionUseSystem::run(&mut w).unwrap();
    assert_eq!(w.combat_stats[pe].unwrap().hp, 30, "full health stays at the cap");
    assert!(!w.alive[p]);
}

#[test]
fn drinking_a_non_potion_aborts() {
    let mut w = inv_world(5, 5);
    let p = inv_potion(&mut w, 5, 5, 8, "Health Potion");
    w.potions[p] = None;
    let pe = w.player_entity;
    w.drink_intents[pe] = Some(WantsToDrinkPotion { potion: p });
    let r = PotionUseSystem::run(&mut w);
    assert_eq!(r, Err(PipelineError::MissingPotion));
    assert_eq!(w.combat_stats[pe].unwrap().hp, 30);
    assert!(w.alive[p]);
}

#[test]
fn drinking_a_nameless_potion_aborts() {
    let mut w = inv_world(5, 5);
    let p = inv_potion(&mut w, 5, 5, 8, "Health Potion");
    w.names[p] = None;
    let pe = w.player_entity;
    w.drink_intents[pe] = Some(WantsToDrinkPotion { potion: p });
    let r = PotionUseSystem::run(&mut w);
    assert_eq!(r, Err(PipelineError::PotionUnnamed));
}

#[test]
fn get_item_queues_pickup_of_item_underfoot() {
    let mut w = inv_world(5, 5);
    let p = inv_potion(&mut w, 5, 5, 8, "Health Potion");
    get_item(&mut w);
    let pe = w.player_entity;
    assert_eq!(
        w.pickup_intents[pe],
        Some(WantsToPickupItem { collected_by: pe, item: p })
    );
}

#[test]
fn get_item_prefers_the_last_matching_item() {
    let mut w = inv_world(5, 5);
    let _first = inv_potion(&mut w, 5, 5, 8, "First");
    let second = inv_potion(&mut w, 5, 5, 8, "Second");
    get_item(&mut w);
    let pe = w.player_entity;
    assert_eq!(w.pickup_intents[pe].unwrap().item, second);
}

#[test]
fn get_item_with_nothing_underfoot_logs() {
    let mut w = inv_world(5, 5);
    let _elsewhere = inv_potion(&mut w, 2, 2, 8, "Health Potion");
    get_item(&mut w);
    let pe = w.player_entity;
    assert!(w.pickup_intents[pe].is_none());
    assert_eq!(w.log.entries[0], LogEntry::NothingHere);
}
