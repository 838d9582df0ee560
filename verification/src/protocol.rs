//! The messages the simulation hands to the network layer, as plain values.
//!
//! Systems queue messages on [`Connections`]; the program around the
//! library encodes and sends what is queued. A queued message never blocks
//! the tick.

use crate::entity::Entity;
use crate::types::{
    Accel, ConnectionId, Energy, EnergyRegen, FlagCode, Level, Mob, Plane, Position, Rotation,
    Score, Speed, Status, Team, Velocity,
};
use std::str::FromStr;
use vstd::prelude::*;

verus! {

/// One projectile of a shot.
#[derive(Clone, Copy, Debug, PartialEq, Eq, Structural)]
pub struct PlayerFireProjectile {
    pub id: Entity,
    pub ty: Mob,
    pub pos: Position,
    pub speed: Velocity,
    pub accel: Accel,
    pub max_speed: Speed,
}

/// A player fired.
pub struct PlayerFire {
    pub clock: u32,
    pub id: Entity,
    pub energy: Energy,
    pub energy_regen: EnergyRegen,
    pub projectiles: Vec<PlayerFireProjectile>,
}

/// A player changed nationality flag.
#[derive(Clone, Copy, Debug, PartialEq, Eq, Structural)]
pub struct PlayerFlag {
    pub id: Entity,
    pub flag: FlagCode,
}

/// The upgrade fields that go out with a player.
#[derive(Clone, Copy, Debug, PartialEq, Eq, Structural)]
pub struct ProtocolUpgrades {
    pub speed: u8,
    pub shield: bool,
    pub inferno: bool,
}

/// A player came back into play.
#[derive(Clone, Copy, Debug, PartialEq, Eq, Structural)]
pub struct PlayerRespawn {
    pub id: Entity,
    pub pos: Position,
    pub rot: Rotation,
    pub upgrades: ProtocolUpgrades,
}

/// A player changed plane.
#[derive(Clone, Copy, Debug, PartialEq, Eq, Structural)]
pub struct PlayerType {
    pub id: Entity,
    pub ty: Plane,
}

/// A player's plane went out of play.
#[derive(Clone, Copy, Debug, PartialEq, Eq, Structural)]
pub struct PlayerKill {
    pub id: Entity,
    pub killer: Option<Entity>,
    pub pos: Position,
}

#[derive(Clone, Copy, Debug, PartialEq, Eq, Structural)]
pub enum PlayerLevelType {
    Login,
    LevelUp,
}

/// A player's level, announced to the others.
#[derive(Clone, Copy, Debug, PartialEq, Eq, Structural)]
pub struct PlayerLevel {
    pub id: Entity,
    pub ty: PlayerLevelType,
    pub level: Level,
}

/// One player as a newcomer is told of it.
pub struct LoginPlayer {
    pub id: Entity,
    pub status: Status,
    pub level: Level,
    pub name: String,
    pub ty: Plane,
    pub team: Team,
    pub pos: Position,
    pub rot: Rotation,
    pub flag: FlagCode,
    pub upgrades: ProtocolUpgrades,
}

/// A [`LoginPlayer`] as a value, its name as a sequence of characters.
pub struct LoginPlayerView {
    pub id: Entity,
    pub status: Status,
    pub level: Level,
    pub name: Seq<char>,
    pub ty: Plane,
    pub team: Team,
    pub pos: Position,
    pub rot: Rotation,
    pub flag: FlagCode,
    pub upgrades: ProtocolUpgrades,
}

impl View for LoginPlayer {
    type V = LoginPlayerView;

    open spec fn view(&self) -> LoginPlayerView {
        LoginPlayerView {
            id: self.id,
            status: self.status,
            level: self.level,
            name: self.name@,
            ty: self.ty,
            team: self.team,
            pos: self.pos,
            rot: self.rot,
            flag: self.flag,
            upgrades: self.upgrades,
        }
    }
}

#[derive(Clone, Copy, Debug, PartialEq, Eq, Structural)]
pub enum GameType {
    FFA,
    CTF,
    BTR,
}

/// What a newcomer is told on joining.
pub struct Login {
    pub success: bool,
    pub id: Entity,
    pub team: Team,
    pub clock: u32,
    pub token: String,
    pub ty: GameType,
    pub room: String,
    pub players: Vec<LoginPlayer>,
}

/// A player's score line.
#[derive(Clone, Copy, Debug, PartialEq, Eq, Structural)]
pub struct ScoreUpdate {
    pub id: Entity,
    pub score: Score,
    pub earnings: u32,
    pub upgrades: u16,
    pub total_kills: u32,
    pub total_deaths: u32,
}

#[derive(Clone, Copy, Debug, PartialEq, Eq, Structural)]
pub enum ServerMessageType {
    TimeToGameStart,
    FlagMessage,
}

/// A line of text shown to players.
pub struct ServerMessage {
    pub ty: ServerMessageType,
    pub duration: u32,
    pub text: String,
}

pub enum ServerPacket {
    Login(Login),
    PlayerFire(PlayerFire),
    PlayerFlag(PlayerFlag),
    PlayerRespawn(PlayerRespawn),
    PlayerType(PlayerType),
    PlayerKill(PlayerKill),
    PlayerLevel(PlayerLevel),
    ScoreUpdate(ScoreUpdate),
    ServerMessage(ServerMessage),
}

/// Who a message goes to.
#[derive(Clone, Copy, Debug, PartialEq, Eq, Structural)]
pub enum Recipients {
    All,
    Player(Entity),
    Others(Entity),
}

/// A message together with its recipients.
pub struct Outbound {
    pub to: Recipients,
    pub packet: ServerPacket,
}

/// The number of the flag that a country code names, as
/// `airmash_protocol::FlagCode::from_str` has it; `None` for a string that
/// names no flag.
pub uninterp spec fn flag_code_of(code: Seq<char>) -> Option<u16>;

/// `airmash_protocol::FlagCode::from_str`, with the flag given by its
/// number on the wire. The result depends on the string alone.
#[verifier::external_body]
fn flag_code_from_str(code: &str) -> (r: Option<u16>)
    ensures
        r == flag_code_of(code@),
{
    match airmash_protocol::FlagCode::from_str(code) {
        Ok(flag) => Some(u16::from(flag)),
        Err(_) => None,
    }
}

/// The flag that a country code names, if it names one.
pub open spec fn flag_of(code: Seq<char>) -> Option<FlagCode> {
    match flag_code_of(code) {
        Some(number) => Some(FlagCode(number)),
        None => None,
    }
}

/// The flag that the country code `code` names.
pub fn flag_from_str(code: &str) -> (r: Option<FlagCode>)
    ensures
        r == flag_of(code@),
{
    match flag_code_from_str(code) {
        Some(number) => Some(FlagCode(number)),
        None => None,
    }
}

/// The game mode that the server runs.
pub struct GameMode {
    pub room: String,
    pub gametype: GameType,
}

/// What is known of one connection.
#[derive(Clone, Copy, Debug, PartialEq, Eq, Structural)]
pub struct ConnectionData {
    pub id: ConnectionId,
    pub player: Option<Entity>,
}

/// The open connections, and the messages queued for them.
pub struct Connections {
    links: Vec<ConnectionData>,
    outbox: Vec<Outbound>,
}

impl Connections {
    /// The open connections, each with the player behind it, if any.
    pub closed spec fn links(&self) -> Map<ConnectionId, Option<Entity>> {
        Map::new(
            |id: ConnectionId| exists|k: int| 0 <= k < self.links@.len() && self.links@[k].id == id,
            |id: ConnectionId|
                self.links@[choose|k: int| 0 <= k < self.links@.len() && self.links@[k].id
                    == id].player,
        )
    }

    /// The messages queued and not yet taken out, oldest first.
    pub closed spec fn queued(&self) -> Seq<Outbound> {
        self.outbox@
    }

    /// No connection is listed twice.
    pub closed spec fn wf(&self) -> bool {
        forall|k: int, l: int|
            0 <= k < l < self.links@.len() ==> self.links@[k].id != self.links@[l].id
    }

    /// The player behind `id`: `None` for a connection that is not open or
    /// has no player yet.
    pub open spec fn player_of(&self, id: ConnectionId) -> Option<Entity> {
        if self.links().contains_key(id) {
            self.links()[id]
        } else {
            None
        }
    }

    pub fn new() -> (r: Self)
        ensures
            r.wf(),
            r.links() == Map::<ConnectionId, Option<Entity>>::empty(),
            r.queued() == Seq::<Outbound>::empty(),
    {
        let r = Connections { links: Vec::new(), outbox: Vec::new() };
        r
    }

    fn position(&self, id: ConnectionId) -> (r: Option<usize>)
        requires
            self.wf(),
        ensures
            match r {
                Some(k) => k < self.links@.len() && self.links@[k as int].id == id
                    && self.links().contains_key(id) && self.links()[id]
                    == self.links@[k as int].player,
                None => !self.links().contains_key(id) && forall|k: int|
                    0 <= k < self.links@.len() ==> self.links@[k].id != id,
            },
    {
        let mut i: usize = 0;
        while i < self.links.len()
            invariant
                self.wf(),
                i <= self.links@.len(),
                forall|k: int| 0 <= k < i ==> self.links@[k].id != id,
            decreases self.links@.len() - i,
        {
            if self.links[i].id == id {
                return Some(i);
            }
            i += 1;
        }
        None
    }

    /// Opens the connection `id`, or changes the player behind it.
    pub fn set(&mut self, id: ConnectionId, player: Option<Entity>)
        requires
            old(self).wf(),
        ensures
            final(self).wf(),
            final(self).links() == old(self).links().insert(id, player),
            final(self).queued() == old(self).queued(),
    {
        match self.position(id) {
            Some(k) => {
                self.links.set(k, ConnectionData { id, player });
                proof {
                    assert forall|c: ConnectionId| #[trigger]
                        self.links().contains_key(c) == old(self).links().insert(
                            id,
                            player,
                        ).contains_key(c) by {
                        if old(self).links().insert(id, player).contains_key(c) {
                            if c != id {
                                let j = choose|j: int|
                                    0 <= j < old(self).links@.len() && old(self).links@[j].id == c;
                                assert(self.links@[j].id == c);
                            } else {
                                assert(self.links@[k as int].id == c);
                            }
                        }
                    }
                }
            },
            None => {
                self.links.push(ConnectionData { id, player });
                proof {
                    let n = old(self).links@.len() as int;
                    assert(self.links@[n].id == id);
                    assert forall|c: ConnectionId| #[trigger]
                        self.links().contains_key(c) == old(self).links().insert(
                            id,
                            player,
                        ).contains_key(c) by {
                        if old(self).links().insert(id, player).contains_key(c) {
                            if c != id {
                                let j = choose|j: int|
                                    0 <= j < old(self).links@.len() && old(self).links@[j].id == c;
                                assert(self.links@[j].id == c);
                            }
                        }
                    }
                }
            },
        }
    }

    /// The player behind `id`.
    pub fn player(&self, id: ConnectionId) -> (r: Option<Entity>)
        requires
            self.wf(),
        ensures
            r == self.player_of(id),
    {
        match self.position(id) {
            Some(k) => self.links[k].player,
            None => None,
        }
    }

    /// Queues `packet` for every player.
    pub fn send_to_all(&mut self, packet: ServerPacket)
        ensures
            final(self).queued() == old(self).queued().push(
                Outbound { to: Recipients::All, packet },
            ),
            final(self).links() == old(self).links(),
            final(self).wf() == old(self).wf(),
    {
        self.outbox.push(Outbound { to: Recipients::All, packet });
    }

    /// Queues `packet` for `player` alone.
    pub fn send_to_player(&mut self, player: Entity, packet: ServerPacket)
        ensures
            final(self).queued() == old(self).queued().push(
                Outbound { to: Recipients::Player(player), packet },
            ),
            final(self).links() == old(self).links(),
            final(self).wf() == old(self).wf(),
    {
        self.outbox.push(Outbound { to: Recipients::Player(player), packet });
    }

    /// Queues `packet` for every player but `player`.
    pub fn send_to_others(&mut self, player: Entity, packet: ServerPacket)
        ensures
            final(self).queued() == old(self).queued().push(
                Outbound { to: Recipients::Others(player), packet },
            ),
            final(self).links() == old(self).links(),
            final(self).wf() == old(self).wf(),
    {
        self.outbox.push(Outbound { to: Recipients::Others(player), packet });
    }

    /// Takes the queued messages out, oldest first.
    pub fn drain(&mut self) -> (out: Vec<Outbound>)
        ensures
            out@ == old(self).queued(),
            final(self).queued() == Seq::<Outbound>::empty(),
            final(self).links() == old(self).links(),
            final(self).wf() == old(self).wf(),
    {
        let mut out: Vec<Outbound> = Vec::new();
        std::mem::swap(&mut self.outbox, &mut out);
        out
    }
}

} // verus!
