//! Capture the flag: the rules of the game mode, as systems over the store
//! and the event channels.

pub mod component;
pub mod config;
pub mod systems;
