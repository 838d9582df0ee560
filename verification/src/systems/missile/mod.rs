//! Missiles: how they come into being.

pub mod fire;
