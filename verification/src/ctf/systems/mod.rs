//! The systems of the game mode.

pub mod pickupflag;
pub mod flag_message;
pub mod dropflag;
pub mod captureflag;
