//! The components, events and resources of the game mode.

use crate::entity::Entity;
use crate::event::{EventChannel, ReaderId};
use crate::types::{Instant, Position, Team};
use vstd::prelude::*;

verus! {

/// Marks an entity as a flag.
#[derive(Copy, Clone, Debug, PartialEq, Eq, Structural)]
pub struct IsFlag;

/// The player that carries a flag, if any.
#[derive(Copy, Clone, Debug, PartialEq, Eq, Structural)]
pub struct FlagCarrier(pub Option<Entity>);

#[derive(Copy, Clone, Debug, PartialEq, Eq, Structural)]
pub enum FlagEventType {
    PickUp,
    Return,
    Capture,
    Drop,
}

#[derive(Copy, Clone, Debug, PartialEq, Eq, Structural)]
pub struct FlagEvent {
    pub ty: FlagEventType,
    /// Player that carried out the action (capturer, player that returned)
    pub player: Option<Entity>,
    pub flag: Entity,
}

/// Who dropped a flag last, and when.
#[derive(Copy, Clone, Debug, PartialEq, Eq, Structural)]
pub struct LastDrop {
    pub player: Option<Entity>,
    pub time: Instant,
}

#[derive(Copy, Clone, Debug, PartialEq, Eq, Structural)]
pub struct GameScores {
    pub redteam: u8,
    pub blueteam: u8,
}

/// The two flags.
#[derive(Copy, Clone, Debug, PartialEq, Eq, Structural)]
pub struct Flags {
    pub red: Entity,
    pub blue: Entity,
}

pub type OnFlag = EventChannel<FlagEvent>;

pub type OnFlagReader = ReaderId;

/// The blue team.
pub const BLUE_TEAM: u16 = 1;

/// The red team.
pub const RED_TEAM: u16 = 2;

/// Where a flag stands in the game.
#[derive(Copy, Clone, Debug, PartialEq, Eq, Structural)]
pub enum FlagState {
    /// At its home position, carried by nobody.
    AtBase,
    /// In the hands of a player.
    Carried(Entity),
    /// Lying away from home.
    Dropped { at: Position, by: Option<Entity>, since: Instant },
}

/// The state of a flag with the given components, whose home is `home`.
pub open spec fn flag_state(
    carrier: FlagCarrier,
    pos: Position,
    last: LastDrop,
    home: Position,
) -> FlagState {
    match carrier.0 {
        Some(p) => FlagState::Carried(p),
        None => if pos == home {
            FlagState::AtBase
        } else {
            FlagState::Dropped { at: pos, by: last.player, since: last.time }
        },
    }
}

pub fn state_of(carrier: FlagCarrier, pos: Position, last: LastDrop, home: Position) -> (s:
    FlagState)
    ensures
        s == flag_state(carrier, pos, last, home),
{
    match carrier.0 {
        Some(p) => FlagState::Carried(p),
        None => if pos == home {
            FlagState::AtBase
        } else {
            FlagState::Dropped { at: pos, by: last.player, since: last.time }
        },
    }
}

impl GameScores {
    pub fn new() -> (r: Self)
        ensures
            r == (GameScores { redteam: 0, blueteam: 0 }),
    {
        GameScores { redteam: 0, blueteam: 0 }
    }

    /// The score of `team`; zero for a team that keeps none.
    pub open spec fn of(self, team: Team) -> u8 {
        if team.0 == RED_TEAM {
            self.redteam
        } else if team.0 == BLUE_TEAM {
            self.blueteam
        } else {
            0
        }
    }
}

/// No player is the carrier of two flags.
pub open spec fn one_flag_each(carrier: Map<Entity, FlagCarrier>) -> bool {
    forall|f: Entity, g: Entity|
        #![trigger carrier[f], carrier[g]]
        carrier.contains_key(f) && carrier.contains_key(g) && f != g && carrier[f].0 is Some
            ==> carrier[f].0 != carrier[g].0
}

/// Some flag is carried by `p`.
pub open spec fn carries_any(carrier: Map<Entity, FlagCarrier>, p: Entity) -> bool {
    exists|f: Entity| #[trigger] carrier.contains_key(f) && carrier[f].0 == Some(p)
}

} // verus!
