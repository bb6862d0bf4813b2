//! The catalogs that are the same in every game.

pub mod doctrines;
pub mod events;
pub mod scripted_triggers;
