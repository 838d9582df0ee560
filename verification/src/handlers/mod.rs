//! The handlers of what players send.

pub mod command;
