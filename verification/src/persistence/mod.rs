//! Persistence-side logic: save conflicts, row metadata and the single-writer lock policy.

pub mod error;
pub mod metadata;
pub mod optimistic;
pub mod writer_lock;
