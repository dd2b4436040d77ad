//! Loot: items that spawners place in rooms and containers.

pub mod spawner;
