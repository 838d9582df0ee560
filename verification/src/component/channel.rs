//! The channels of the simulation, by the event they carry.

use crate::component::event::{PlayerJoin, PlayerMissileCollision, PlayerSpectate};
use crate::event::{EventChannel, ReaderId};
use vstd::prelude::*;

verus! {

pub type OnPlayerJoin = EventChannel<PlayerJoin>;

pub type OnPlayerJoinReader = ReaderId;

pub type OnPlayerSpectate = EventChannel<PlayerSpectate>;

pub type OnPlayerSpectateReader = ReaderId;

pub type OnPlayerMissileCollision = EventChannel<PlayerMissileCollision>;

pub type OnPlayerMissileCollisionReader = ReaderId;

} // verus!
