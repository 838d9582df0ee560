//! The events that systems tell each other of, and the channels that carry
//! them.

pub mod channel;
pub mod event;
