//! Renewable resources: harvest nodes that spawners restock.

pub mod spawner;
