//! MUDL definitions: anatomy, behaviours, triggers, schedules, NPCs and world maps.

pub mod anatomy;
pub mod lines;
pub mod trigger_def;
pub mod behavior_def;
pub mod world_def;
pub mod schedule_def;
pub mod npc_def;
pub mod behavior_line;
pub mod spawner_def;
pub mod loot_spawner_def;
pub mod resource_spawner_def;
pub mod loader;
pub mod roles;
pub mod role_apply;
pub mod item_def;
