//! What is sent when a player goes to watch.

pub mod send_kill_packet;
