//! Helpers that belong to no system.

pub mod geoip;
