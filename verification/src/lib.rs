//! Simulation core of a fixed-tick multiplayer arena server.
//!
//! The crate holds the entity and component store, the event channels that
//! connect systems, the dependency scheduler, the bucket-grid collision engine
//! and the capture-the-flag rules built on top of them. All quantities are
//! fixed-point integers; see [`types`].

pub mod collision;
pub mod component;
pub mod config;
pub mod ctf;
pub mod dispatch;
pub mod entity;
pub mod event;
pub mod handlers;
pub mod hashing;
pub mod protocol;
pub mod storage;
pub mod systems;
pub mod types;
pub mod utils;
pub mod world;
