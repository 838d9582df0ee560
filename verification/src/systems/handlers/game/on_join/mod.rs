//! What is sent when a player joins.

pub mod send_level;

pub mod send_score;
pub mod send_login;
