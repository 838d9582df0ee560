//! Welcoming a player who joined: the newcomer is told who it is and who
//! else is there.

use crate::component::channel::{OnPlayerJoin, OnPlayerJoinReader};
use crate::component::event::PlayerJoin;
use crate::dispatch::{DeclView, Resource, SystemDecl};
use crate::entity::{Entities, Entity};
use crate::protocol::{
    Connections, GameMode, Login, LoginPlayer, LoginPlayerView, Outbound, ProtocolUpgrades,
    Recipients, ServerPacket,
};
use crate::storage::{among, ascending, Table};
use crate::types::{
    FlagCode, Level, Name, Plane, Position, Powerups, Rotation, Status, Team, Upgrades, Velocity,
};
use vstd::prelude::*;
use vstd::string::StringExecFns;

verus! {

pub struct SendLogin {
    reader: Option<OnPlayerJoinReader>,
}

pub struct SendLoginData<'a> {
    pub channel: &'a mut OnPlayerJoin,
    pub conns: &'a mut Connections,
    pub entities: &'a Entities,
    pub gamemode: &'a GameMode,
    pub pos: &'a Table<Position>,
    pub rot: &'a Table<Rotation>,
    pub vel: &'a Table<Velocity>,
    pub plane: &'a Table<Plane>,
    pub team: &'a Table<Team>,
    pub status: &'a Table<Status>,
    pub flag: &'a Table<FlagCode>,
    pub upgrades: &'a Table<Upgrades>,
    pub powerups: &'a Table<Powerups>,
    pub name: &'a Table<Name>,
    pub level: &'a Table<Level>,
}

/// What the system reads.
pub struct Lobby {
    pub gamemode: GameMode,
    pub pos: Map<Entity, Position>,
    pub rot: Map<Entity, Rotation>,
    pub plane: Map<Entity, Plane>,
    pub team: Map<Entity, Team>,
    pub status: Map<Entity, Status>,
    pub flag: Map<Entity, FlagCode>,
    pub upgrades: Map<Entity, Upgrades>,
    pub powerups: Map<Entity, Powerups>,
    pub name: Map<Entity, Name>,
    pub level: Map<Entity, Level>,
}

/// One of `players` is `e`.
pub open spec fn listed(players: Seq<LoginPlayer>, e: Entity) -> bool {
    exists|i: int| 0 <= i < players.len() && (#[trigger] players[i]).id == e
}

impl Lobby {
    /// `e` has everything that a newcomer is told of a player.
    pub open spec fn is_member(self, e: Entity) -> bool {
        &&& self.pos.contains_key(e)
        &&& self.rot.contains_key(e)
        &&& self.plane.contains_key(e)
        &&& self.name.contains_key(e)
        &&& self.flag.contains_key(e)
        &&& self.upgrades.contains_key(e)
        &&& self.level.contains_key(e)
        &&& self.status.contains_key(e)
        &&& self.team.contains_key(e)
        &&& self.powerups.contains_key(e)
    }

    /// What a newcomer is told of the player `e`.
    pub open spec fn entry(self, e: Entity) -> LoginPlayerView {
        LoginPlayerView {
            id: e,
            status: self.status[e],
            level: self.level[e],
            name: self.name[e].0@,
            ty: self.plane[e],
            team: self.team[e],
            pos: self.pos[e],
            rot: self.rot[e],
            flag: self.flag[e],
            upgrades: ProtocolUpgrades {
                speed: self.upgrades[e].speed,
                shield: self.powerups[e].shield,
                inferno: self.powerups[e].inferno,
            },
        }
    }

    /// `players` lists every member once, in ascending order of slot, each
    /// with its entry.
    pub open spec fn is_roster(self, players: Seq<LoginPlayer>) -> bool {
        &&& forall|e: Entity| self.is_member(e) <==> #[trigger] listed(players, e)
        &&& forall|i: int, j: int| 0 <= i < j < players.len() ==> players[i].id.id < players[j].id.id
        &&& forall|i: int|
            0 <= i < players.len() ==> (#[trigger] players[i])@ == self.entry(players[i].id)
    }

    /// `out` welcomes the newcomer of `ev`.
    pub open spec fn welcomes(self, out: Outbound, ev: PlayerJoin) -> bool {
        &&& out.to == Recipients::Player(ev.0)
        &&& match out.packet {
            ServerPacket::Login(login) => {
                &&& login.clock == 0
                &&& login.id == ev.0
                &&& login.room@ == self.gamemode.room@
                &&& login.success
                &&& login.token@ == "none"@
                &&& login.team == self.team[ev.0]
                &&& login.ty == self.gamemode.gametype
                &&& self.is_roster(login.players@)
            },
            _ => false,
        }
    }
}

impl<'a> SendLoginData<'a> {
    pub open spec fn lobby(&self) -> Lobby {
        Lobby {
            gamemode: *self.gamemode,
            pos: self.pos@,
            rot: self.rot@,
            plane: self.plane@,
            team: self.team@,
            status: self.status@,
            flag: self.flag@,
            upgrades: self.upgrades@,
            powerups: self.powerups@,
            name: self.name@,
            level: self.level@,
        }
    }
}

/// What the tables say, as a lobby.
pub open spec fn lobby_of(
    gamemode: &GameMode,
    pos: &Table<Position>,
    rot: &Table<Rotation>,
    plane: &Table<Plane>,
    team: &Table<Team>,
    status: &Table<Status>,
    flag: &Table<FlagCode>,
    upgrades: &Table<Upgrades>,
    powerups: &Table<Powerups>,
    name: &Table<Name>,
    level: &Table<Level>,
) -> Lobby {
    Lobby {
        gamemode: *gamemode,
        pos: pos@,
        rot: rot@,
        plane: plane@,
        team: team@,
        status: status@,
        flag: flag@,
        upgrades: upgrades@,
        powerups: powerups@,
        name: name@,
        level: level@,
    }
}

/// What a newcomer is told of `e`, if `e` is a member.
fn login_player(
    e: Entity,
    gamemode: &GameMode,
    pos: &Table<Position>,
    rot: &Table<Rotation>,
    plane: &Table<Plane>,
    team: &Table<Team>,
    status: &Table<Status>,
    flag: &Table<FlagCode>,
    upgrades: &Table<Upgrades>,
    powerups: &Table<Powerups>,
    name: &Table<Name>,
    level: &Table<Level>,
) -> (r: Option<LoginPlayer>)
    ensures
        r is Some <==> lobby_of(
            gamemode,
            pos,
            rot,
            plane,
            team,
            status,
            flag,
            upgrades,
            powerups,
            name,
            level,
        ).is_member(e),
        r is Some ==> r.unwrap().id == e && r.unwrap()@ == lobby_of(
            gamemode,
            pos,
            rot,
            plane,
            team,
            status,
            flag,
            upgrades,
            powerups,
            name,
            level,
        ).entry(e),
{
    let pos = match pos.get(e) {
        Some(v) => *v,
        None => { return None; },
    };
    let rot = match rot.get(e) {
        Some(v) => *v,
        None => { return None; },
    };
    let plane = match plane.get(e) {
        Some(v) => *v,
        None => { return None; },
    };
    let name = match name.get(e) {
        Some(v) => v,
        None => { return None; },
    };
    let flag = match flag.get(e) {
        Some(v) => *v,
        None => { return None; },
    };
    let upgrades = match upgrades.get(e) {
        Some(v) => *v,
        None => { return None; },
    };
    let level = match level.get(e) {
        Some(v) => *v,
        None => { return None; },
    };
    let status = match status.get(e) {
        Some(v) => *v,
        None => { return None; },
    };
    let team = match team.get(e) {
        Some(v) => *v,
        None => { return None; },
    };
    let powerups = match powerups.get(e) {
        Some(v) => *v,
        None => { return None; },
    };
    let upgrade_field = ProtocolUpgrades {
        speed: upgrades.speed,
        shield: powerups.shield,
        inferno: powerups.inferno,
    };
    Some(
        LoginPlayer {
            id: e,
            status,
            level,
            name: name.0.clone(),
            ty: plane,
            team,
            pos,
            rot,
            flag,
            upgrades: upgrade_field,
        },
    )
}

/// The roster: what a newcomer is told of the players that are there.
fn roster(
    gamemode: &GameMode,
    pos: &Table<Position>,
    rot: &Table<Rotation>,
    plane: &Table<Plane>,
    team: &Table<Team>,
    status: &Table<Status>,
    flag: &Table<FlagCode>,
    upgrades: &Table<Upgrades>,
    powerups: &Table<Powerups>,
    name: &Table<Name>,
    level: &Table<Level>,
) -> (players: Vec<LoginPlayer>)
    ensures
        lobby_of(
            gamemode,
            pos,
            rot,
            plane,
            team,
            status,
            flag,
            upgrades,
            powerups,
            name,
            level,
        ).is_roster(players@),
{
    let ghost lobby = lobby_of(
        gamemode,
        pos,
        rot,
        plane,
        team,
        status,
        flag,
        upgrades,
        powerups,
        name,
        level,
    );
    let ents = pos.entities();
    let mut players: Vec<LoginPlayer> = Vec::new();
    let mut i: usize = 0;
    while i < ents.len()
        invariant
            i <= ents@.len(),
            lobby == lobby_of(
                gamemode,
                pos,
                rot,
                plane,
                team,
                status,
                flag,
                upgrades,
                powerups,
                name,
                level,
            ),
            ascending(ents@, lobby.pos),
            forall|e: Entity|
                #![trigger among(ents@, i as int, e)]
                #![trigger listed(players@, e)]
                (lobby.is_member(e) && among(ents@, i as int, e)) <==> listed(players@, e),
            forall|k: int, l: int|
                0 <= k < l < players@.len() ==> players@[k].id.id < players@[l].id.id,
            forall|k: int|
                0 <= k < players@.len() && i < ents@.len() ==> (#[trigger] players@[k]).id.id
                    < ents@[i as int].id,
            forall|k: int|
                0 <= k < players@.len() ==> (#[trigger] players@[k])@ == lobby.entry(
                    players@[k].id,
                ),
        decreases ents@.len() - i,
    {
        let e = ents[i];
        let ghost before = players@;
        match login_player(
            e,
            gamemode,
            pos,
            rot,
            plane,
            team,
            status,
            flag,
            upgrades,
            powerups,
            name,
            level,
        ) {
            Some(p) => {
                players.push(p);
            },
            None => {},
        }
        i += 1;
        proof {
            let n = before.len() as int;
            assert(lobby.is_member(e) ==> players@ == before.push(players@[n]) && players@[n].id
                == e);
            assert forall|x: Entity|
                #![trigger among(ents@, i as int, x)]
                #![trigger listed(players@, x)]
                (lobby.is_member(x) && among(ents@, i as int, x)) <==> listed(players@, x) by {
                let earlier = among(ents@, i - 1, x);
                let had = listed(before, x);
                if lobby.is_member(x) && among(ents@, i as int, x) {
                    let c = choose|k: int| 0 <= k < i && k < ents@.len() && ents@[k] == x;
                    if c < i - 1 {
                        assert(earlier);
                        let k = choose|k: int|
                            0 <= k < before.len() && (#[trigger] before[k]).id == x;
                        assert(players@[k].id == x);
                    } else {
                        assert(players@[n].id == x);
                    }
                }
                if listed(players@, x) {
                    let k = choose|k: int|
                        0 <= k < players@.len() && (#[trigger] players@[k]).id == x;
                    if k < n {
                        assert(before[k].id == x);
                        assert(had);
                        assert(earlier);
                        let c = choose|c: int| 0 <= c < i - 1 && c < ents@.len() && ents@[c] == x;
                        assert(0 <= c < i && ents@[c] == x);
                    } else {
                        assert(0 <= i - 1 < i && ents@[i - 1] == x);
                    }
                }
            }
        }
    }
    proof {
        assert forall|e: Entity| lobby.is_member(e) <==> #[trigger] listed(players@, e) by {
            if lobby.is_member(e) {
                assert(ents@.contains(e));
            }
        }
    }
    players
}

/// Queues the welcome of each of `events`.
fn send_all(
    events: &Vec<PlayerJoin>,
    conns: &mut Connections,
    gamemode: &GameMode,
    pos: &Table<Position>,
    rot: &Table<Rotation>,
    plane: &Table<Plane>,
    team: &Table<Team>,
    status: &Table<Status>,
    flag: &Table<FlagCode>,
    upgrades: &Table<Upgrades>,
    powerups: &Table<Powerups>,
    name: &Table<Name>,
    level: &Table<Level>,
)
    requires
        forall|k: int| 0 <= k < events@.len() ==> team@.contains_key((#[trigger] events@[k]).0),
    ensures
        final(conns).queued().len() == old(conns).queued().len() + events@.len(),
        final(conns).queued().take(old(conns).queued().len() as int) == old(conns).queued(),
        forall|k: int|
            0 <= k < events@.len() ==> lobby_of(
                gamemode,
                pos,
                rot,
                plane,
                team,
                status,
                flag,
                upgrades,
                powerups,
                name,
                level,
            ).welcomes(#[trigger] final(conns).queued()[old(conns).queued().len() + k], events@[k]),
        final(conns).links() == old(conns).links(),
        final(conns).wf() == old(conns).wf(),
{
    let ghost lobby = lobby_of(
        gamemode,
        pos,
        rot,
        plane,
        team,
        status,
        flag,
        upgrades,
        powerups,
        name,
        level,
    );
    let ghost queue0 = conns.queued();
    let mut i: usize = 0;
    while i < events.len()
        invariant
            i <= events@.len(),
            lobby == lobby_of(
                gamemode,
                pos,
                rot,
                plane,
                team,
                status,
                flag,
                upgrades,
                powerups,
                name,
                level,
            ),
            forall|k: int| 0 <= k < events@.len() ==> team@.contains_key((#[trigger] events@[k]).0),
            conns.queued().len() == queue0.len() + i,
            conns.queued().take(queue0.len() as int) == queue0,
            forall|k: int|
                0 <= k < i ==> lobby.welcomes(
                    #[trigger] conns.queued()[queue0.len() + k],
                    events@[k],
                ),
            conns.links() == old(conns).links(),
            conns.wf() == old(conns).wf(),
        decreases events@.len() - i,
    {
        let evt = events[i];
        let player_data = roster(
            gamemode,
            pos,
            rot,
            plane,
            team,
            status,
            flag,
            upgrades,
            powerups,
            name,
            level,
        );
        let packet = Login {
            clock: 0,
            id: evt.0,
            room: gamemode.room.clone(),
            success: true,
            token: String::from_str("none"),
            team: *team.get(evt.0).unwrap(),
            ty: gamemode.gametype,
            players: player_data,
        };
        conns.send_to_player(evt.0, ServerPacket::Login(packet));
        i += 1;
    }
}

impl<'a> SendLoginData<'a> {
    /// The events that wait for the reader filed under `key`.
    pub open spec fn waiting(&self, key: usize) -> Seq<PlayerJoin> {
        self.channel@.pending(key)
    }

    /// The channel is in order.
    pub open spec fn channel_wf(&self) -> bool {
        self.channel.wf()
    }

    /// The system whose reader is `reader` can run: it registered with
    /// this channel, and every newcomer that waits has a team.
    pub open spec fn runnable(&self, reader: Option<usize>) -> bool {
        &&& reader is Some
        &&& self.channel@.cursors.contains_key(reader.unwrap())
        &&& forall|k: int|
            0 <= k < self.waiting(reader.unwrap()).len() ==> self.team@.contains_key((#[trigger] self.waiting(reader.unwrap())[k]).0)
    }
}

impl SendLogin {
    pub fn new() -> (r: Self)
        ensures
            r.reader() is None,
    {
        Self { reader: None }
    }

    pub fn name() -> (r: &'static str)
        ensures
            r@ == "systems::handlers::game::on_join::SendLogin"@,
    {
        "systems::handlers::game::on_join::SendLogin"
    }

    /// What the system declares: it runs after the newcomer's traits are
    /// set, reads what it tells, and writes the join channel, which it
    /// reads through its cursor, and the message queue.
    pub open spec fn declared() -> DeclView {
        DeclView {
            name: "systems::handlers::game::on_join::SendLogin"@,
            dependencies: seq!["systems::handlers::game::on_join::InitTraits"@],
            reads: seq![
                Resource::Entities,
                Resource::GameMode,
                Resource::Position,
                Resource::Rotation,
                Resource::Velocity,
                Resource::Plane,
                Resource::Team,
                Resource::Status,
                Resource::Flag,
                Resource::Upgrades,
                Resource::Powerups,
                Resource::Name,
                Resource::Level,
            ],
            writes: seq![Resource::OnPlayerJoin, Resource::Connections],
        }
    }

    /// What the system declares to the scheduler.
    pub fn decl() -> (d: SystemDecl)
        ensures
            d@ == Self::declared(),
    {
        let d = SystemDecl::new(Self::name()).after(
            "systems::handlers::game::on_join::InitTraits",
        ).reading(Resource::Entities).reading(Resource::GameMode).reading(
            Resource::Position,
        ).reading(Resource::Rotation).reading(Resource::Velocity).reading(Resource::Plane).reading(
            Resource::Team,
        ).reading(Resource::Status).reading(Resource::Flag).reading(Resource::Upgrades).reading(
            Resource::Powerups,
        ).reading(Resource::Name).reading(Resource::Level).writing(Resource::OnPlayerJoin).writing(
            Resource::Connections,
        );
        proof {
            assert(d@.reads =~= Self::declared().reads);
            assert(d@.writes =~= Self::declared().writes);
        }
        d
    }

    /// The players that are there, as a newcomer is told of them: every
    /// entity that has a position, a heading, a plane, a name, a flag,
    /// upgrades, a level, a status, a team and powerups, in ascending order
    /// of slot.
    pub fn get_player_data(data: &SendLoginData<'_>) -> (players: Vec<LoginPlayer>)
        ensures
            data.lobby().is_roster(players@),
    {
        roster(
            data.gamemode,
            data.pos,
            data.rot,
            data.plane,
            data.team,
            data.status,
            data.flag,
            data.upgrades,
            data.powerups,
            data.name,
            data.level,
        )
    }

    /// Whether the system can run on `data`: whether it registered with the
    /// channel and every newcomer that waits has a team.
    pub fn ready(&self, data: &SendLoginData<'_>) -> (r: bool)
        requires
            data.channel_wf(),
        ensures
            r == data.runnable(self.reader()),
    {
        let reader = match &self.reader {
            Some(reader) => reader,
            None => { return false; },
        };
        if !data.channel.has_reader(reader) {
            return false;
        }
        let events = data.channel.peek(reader);
        let mut i: usize = 0;
        while i < events.len()
            invariant
                i <= events@.len(),
                events@ == data.waiting(reader.key()),
                self.reader() == Some(reader.key()),
                forall|k: int| 0 <= k < i ==> data.team@.contains_key((#[trigger] events@[k]).0),
            decreases events@.len() - i,
        {
            let evt = events[i];
            if !data.team.contains(evt.0) {
                return false;
            }
            i += 1;
        }
        true
    }

    /// The key of the reader that the system registered, if it has.
    pub closed spec fn reader(&self) -> Option<usize> {
        match self.reader {
            Some(r) => Some(r.key()),
            None => None,
        }
    }

    /// Registers the system as a reader of the joins.
    pub fn setup(&mut self, channel: &mut OnPlayerJoin)
        requires
            old(channel).wf(),
        ensures
            final(channel).wf(),
            final(self).reader() is Some,
            !old(channel)@.cursors.contains_key(final(self).reader().unwrap()),
            final(channel)@ == old(channel)@.register(final(self).reader().unwrap()),
    {
        self.reader = Some(channel.register_reader());
    }

    /// Welcomes each player who joined since the last run: the newcomer
    /// alone is sent its own identity and team, the room and kind of game,
    /// and the roster.
    pub fn run(&mut self, data: SendLoginData<'_>)
        requires
            old(data.channel).wf(),
            data.runnable(old(self).reader()),
        ensures
            final(self).reader() == old(self).reader(),
            final(data.channel).wf(),
            final(data.channel)@ == old(data.channel)@.read(old(self).reader().unwrap()),
            final(data.conns).queued().len() == old(data.conns).queued().len() + old(
                data.channel,
            )@.pending(old(self).reader().unwrap()).len(),
            final(data.conns).queued().take(old(data.conns).queued().len() as int) == old(
                data.conns,
            ).queued(),
            forall|k: int|
                0 <= k < old(data.channel)@.pending(old(self).reader().unwrap()).len()
                    ==> data.lobby().welcomes(
                    #[trigger] final(data.conns).queued()[old(data.conns).queued().len() + k],
                    old(data.channel)@.pending(old(self).reader().unwrap())[k],
                ),
            final(data.conns).links() == old(data.conns).links(),
            final(data.conns).wf() == old(data.conns).wf(),
    {
        let ghost waiting = data.waiting(self.reader().unwrap());
        let events = match &self.reader {
            Some(reader) => data.channel.read(reader),
            None => Vec::new(),
        };
        // what was read is what waited
        assert(events@ == waiting);
        send_all(
            &events,
            data.conns,
            data.gamemode,
            data.pos,
            data.rot,
            data.plane,
            data.team,
            data.status,
            data.flag,
            data.upgrades,
            data.powerups,
            data.name,
            data.level,
        );
    }
}

} // verus!
