//! The systems that answer events.

pub mod game;
