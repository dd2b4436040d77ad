//! IRC protocol helpers for multi-user MUDL play: wire parsing and
//! formatting, registration, channel routing, nick hygiene and reconnects.

pub mod message;
pub mod capability;
pub mod nick;
pub mod input;
pub mod nickserv;
pub mod social;
pub mod reconnect;
pub mod config;
pub mod identity;
pub mod channels;
pub mod connect;
pub mod runner;
pub mod dispatch;
pub mod transport;
