//! The events of the simulation.

use crate::entity::Entity;
use crate::types::Instant;
use vstd::prelude::*;

verus! {

/// A missile hit a player.
#[derive(Clone, Copy, Debug, PartialEq, Eq, Hash, Structural)]
pub struct PlayerMissileCollision {
    pub missile: Entity,
    pub player: Entity,
}

/// A player joined.
#[derive(Clone, Copy, Debug, PartialEq, Eq, Structural)]
pub struct PlayerJoin(pub Entity);

/// A player went to watch. The flags tell what the player was doing before.
#[derive(Clone, Copy, Debug, PartialEq, Eq, Structural)]
pub struct PlayerSpectate {
    pub player: Entity,
    pub target: Option<Entity>,
    pub is_dead: bool,
    pub is_spec: bool,
}

/// What a timer went off for.
#[derive(Clone, Copy, Debug, PartialEq, Eq, Structural)]
pub enum TimerEventType {
    ScoreBoard,
    AFKTimeout,
    PingDispatch,
}

/// A timer went off.
#[derive(Clone, Copy, Debug, PartialEq, Eq, Structural)]
pub struct TimerEvent {
    pub ty: TimerEventType,
    pub instant: Instant,
}

/// It is time to send the score board.
#[derive(Clone, Copy, Debug, PartialEq, Eq, Structural)]
pub struct ScoreBoardTimerEvent(pub Instant);

/// It is time to look for idle players.
#[derive(Clone, Copy, Debug, PartialEq, Eq, Structural)]
pub struct AFKTimerEvent(pub Instant);

/// It is time to ping the players.
#[derive(Clone, Copy, Debug, PartialEq, Eq, Structural)]
pub struct PingTimerEvent(pub Instant);

} // verus!
