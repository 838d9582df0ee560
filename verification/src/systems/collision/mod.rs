//! What hits what.

pub mod player_missile;
