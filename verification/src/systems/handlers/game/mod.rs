//! The handlers of what happens in the game.

pub mod on_join;
pub mod on_spectate_event;
pub mod register;
