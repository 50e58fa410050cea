//! Simulation core of a turn-based dungeon crawl.
//!
//! Given player intent and the current world state, the library advances the
//! world by exactly one logical turn: movement, line of sight, monster
//! decisions, melee, damage, inventory transactions and the death sweep, in a
//! fixed order. Field-of-view and shortest-path search are external services;
//! the caller hands them in as functions over the map.

mod components;
mod damage_system;
mod game_log;
mod game_map;
mod gui;
mod inventory_system;
mod map_ai_system;
mod melee_combat_system;
mod monster_ai_system;
mod state;
mod visibility_system;
mod world;

pub use components::Position;
pub use components::Viewshed;
pub use components::Player;
pub use components::Monster;
pub use components::Name;
pub use components::BlocksTile;
pub use components::CombatStats;
pub use components::WantsToMelee;
pub use components::SufferDamage;
pub use components::Item;
pub use components::Potion;
pub use components::InBackpack;
pub use components::WantsToPickupItem;
pub use components::WantsToDropItem;
pub use components::WantsToDrinkPotion;
pub use game_map::GameMap;
pub use game_map::Rect;
pub use game_map::TileType;
pub use game_map::rects_intersect;
pub use game_map::room_candidate_ok;
pub use game_map::accepted_rooms;
pub use game_map::exits_upto;
pub use game_map::exits_row_upto;
pub use game_log::GameLog;
pub use game_log::LogEntry;
pub use state::RunState;
pub use state::InputCommand;
pub use state::MenuCommand;
pub use world::World;
pub use world::STAT_CAP;
pub use map_ai_system::MapIndexingSystem;
pub use map_ai_system::cell_has;
pub use map_ai_system::blocking_occupant;
pub use map_ai_system::spatial_index_effect;
pub use map_ai_system::spatial_index_blocking_law;
pub use world::PipelineError;
pub use damage_system::DamageSystem;
pub use damage_system::delete_the_dead;
pub use damage_system::hp_minus;
pub use damage_system::hp_after;
pub use damage_system::lemma_hp_after_bounds;
pub use damage_system::damage_accumulates;
pub use damage_system::double_damage_law;
pub use damage_system::damage_queue_valid;
pub use damage_system::damage_effect;
pub use damage_system::damage_queue_cleared_law;
pub use damage_system::scanned;
pub use damage_system::doomed;
pub use damage_system::death_log;
pub use damage_system::sweep_effect;
pub use damage_system::death_sweep_spares_only_player;
pub use melee_combat_system::MeleeCombatSystem;
pub use melee_combat_system::melee_eligible;
pub use melee_combat_system::melee_damage;
pub use melee_combat_system::melee_additions;
pub use melee_combat_system::melee_intents_valid;
pub use melee_combat_system::melee_effect;
pub use melee_combat_system::melee_intents_cleared_law;
pub use inventory_system::ItemCollectionSystem;
pub use inventory_system::pickup_requested;
pub use inventory_system::pickup_item_of;
pub use inventory_system::pickup_collector_of;
pub use inventory_system::pickup_referenced;
pub use inventory_system::pickup_valid;
pub use inventory_system::pickup_unique;
pub use inventory_system::pickup_log;
pub use inventory_system::pickup_effect;
pub use inventory_system::ItemDropSystem;
pub use inventory_system::drop_requested;
pub use inventory_system::drop_item_of;
pub use inventory_system::drop_referenced;
pub use inventory_system::drop_unique;
pub use inventory_system::drop_violation;
pub use inventory_system::drop_error_kind;
pub use inventory_system::drop_valid;
pub use inventory_system::drop_log;
pub use inventory_system::drop_effect;
pub use inventory_system::PotionUseSystem;
pub use inventory_system::drink_eligible;
pub use inventory_system::drink_potion_of;
pub use inventory_system::potion_referenced;
pub use inventory_system::drink_first;
pub use inventory_system::drink_violation;
pub use inventory_system::drink_error_kind;
pub use inventory_system::drink_valid;
pub use inventory_system::drink_healed_stats;
pub use inventory_system::drink_log;
pub use inventory_system::drink_effect;
pub use inventory_system::inventory_intents_cleared_law;
pub use inventory_system::drunk_before;
pub use inventory_system::lemma_drunk_before_step;
pub use inventory_system::potion_use_caps_health;
pub use inventory_system::pickup_drop_pickup_round_trip;
pub use inventory_system::single_pickup_law;
pub use inventory_system::single_drop_law;
pub use visibility_system::VisibilitySystem;
pub use visibility_system::in_interior;
pub use visibility_system::interior_only;
pub use visibility_system::viewer;
pub use visibility_system::visibility_effect;
pub use monster_ai_system::MonsterAI;
pub use monster_ai_system::adjacent;
pub use monster_ai_system::contains_pos;
pub use monster_ai_system::is_monster_actor;
pub use monster_ai_system::monster_sees_player;
pub use monster_ai_system::monster_start;
pub use monster_ai_system::player_goal;
pub use monster_ai_system::decode_pos;
pub use monster_ai_system::ai_walker;
pub use monster_ai_system::dirtied;
pub use monster_ai_system::moved_along;
pub use monster_ai_system::walker_stepped;
pub use monster_ai_system::lone_walk_outcome;
pub use monster_ai_system::lone_walker_moves_law;
pub use monster_ai_system::ai_effect;
pub use monster_ai_system::adjacent_monster_attacks_law;
pub use gui::ItemMenuResult;
pub use gui::in_player_inventory;
pub use gui::inventory_list;
pub use gui::menu_outcome;
pub use gui::lemma_inventory_list_entries;
pub use gui::player_inventory;
pub use gui::show_inventory;
pub use gui::drop_item_menu;
pub use gui::names_at_list;
pub use gui::names_at;
pub use state::TickInput;
pub use state::clamp;
pub use state::player_ready;
pub use state::move_dest;
pub use state::first_target_idx;
pub use state::first_combat_target;
pub use state::move_effect;
pub use state::try_move_player;
pub use state::item_at_player;
pub use state::last_item_at_player;
pub use state::get_item_effect;
pub use state::get_item;
pub use state::key_next;
pub use state::input_effect;
pub use state::with_state;
pub use state::pipeline_effect;
pub use state::tick_effect;
pub use state::turn_transition_law;
pub use state::State;
