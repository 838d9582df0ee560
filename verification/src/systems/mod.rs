//! The systems that run once per tick.

pub mod collision;
pub mod handlers;
pub mod missile;
pub mod timer_handler;
