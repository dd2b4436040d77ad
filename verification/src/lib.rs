//! MUDL core logic: IRC protocol helpers, the object property model, and
//! MUDL definition parsers, with their behaviour stated and proved in Verus.

pub mod assoc;
pub mod text;
pub mod irc;
pub mod object;
pub mod mudl;
pub mod persistence;
pub mod spawning;
pub mod loot;
pub mod resource;
