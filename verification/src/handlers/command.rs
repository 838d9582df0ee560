//! Commands: a player changes nationality flag, or comes back into play in
//! a plane of a chosen kind.

use crate::dispatch::{DeclView, Resource, SystemDecl};
use crate::entity::Entity;
use crate::event::{EventChannel, ReaderId};
use crate::protocol::{
    flag_of, flag_from_str, Connections, Outbound, PlayerFlag, PlayerRespawn, PlayerType,
    ProtocolUpgrades, Recipients, ServerPacket,
};
use crate::storage::Table;
use crate::types::{
    ConnectionId, Energy, FlagCode, Health, IsDead, IsSpectating, Plane, Position, Rotation,
    Vector2, Velocity, SCALE, UNITED_NATIONS,
};
use vstd::prelude::*;
use vstd::string::StrSliceExecFns;

verus! {

/// What a player asks for.
#[derive(Clone, Copy, Debug, PartialEq, Eq, Structural)]
pub enum Command {
    /// To fly the given flag.
    Flag(FlagCode),
    /// To come back into play in the given plane.
    Respawn(Plane),
}

/// A command, with the connection it came over.
#[derive(Clone, Copy, Debug, PartialEq, Eq, Structural)]
pub struct CommandEvent {
    pub conn: ConnectionId,
    pub command: Command,
}

/// The value of a string of decimal digits; `None` for a string that is
/// empty or holds anything else.
pub open spec fn digits_value(s: Seq<char>) -> Option<nat>
    decreases s.len(),
{
    if s.len() == 0 {
        None
    } else if !('0' <= s.last() <= '9') {
        None
    } else if s.len() == 1 {
        Some((s.last() as u32 - '0' as u32) as nat)
    } else {
        match digits_value(s.drop_last()) {
            Some(v) => Some(v * 10 + (s.last() as u32 - '0' as u32) as nat),
            None => None,
        }
    }
}

/// The number below 256 that `s` writes in decimal, with or without a
/// plus sign in front.
pub open spec fn decimal_u8(s: Seq<char>) -> Option<u8> {
    let digits = if s.len() > 0 && s[0] == '+' {
        s.skip(1)
    } else {
        s
    };
    match digits_value(digits) {
        Some(v) => if v <= 255 {
            Some(v as u8)
        } else {
            None
        },
        None => None,
    }
}

/// Once a prefix of a string of digits is worth more than 255, so is the
/// string.
proof fn lemma_digits_grow(s: Seq<char>, n: int)
    requires
        0 < n <= s.len(),
        digits_value(s.take(n)) is Some,
        digits_value(s) is Some,
    ensures
        digits_value(s.take(n)).unwrap() <= digits_value(s).unwrap(),
    decreases s.len(),
{
    if n == s.len() {
        assert(s.take(n) =~= s);
    } else {
        assert(s.drop_last().take(n) =~= s.take(n));
        lemma_digits_grow(s.drop_last(), n);
    }
}

/// A string with a digit in it that is no digit has no value.
proof fn lemma_digits_bad(s: Seq<char>, k: int)
    requires
        0 <= k < s.len(),
        !('0' <= s[k] <= '9'),
    ensures
        digits_value(s) is None,
    decreases s.len(),
{
    if k < s.len() - 1 {
        lemma_digits_bad(s.drop_last(), k);
    }
}

/// A string of digits has a value.
proof fn lemma_digits_good(s: Seq<char>)
    requires
        s.len() > 0,
        forall|k: int| 0 <= k < s.len() ==> '0' <= #[trigger] s[k] <= '9',
    ensures
        digits_value(s) is Some,
    decreases s.len(),
{
    if s.len() > 1 {
        lemma_digits_good(s.drop_last());
    }
}

/// Reads a number below 256 written in decimal.
pub fn parse_u8(s: &str) -> (r: Option<u8>)
    ensures
        r == decimal_u8(s@),
{
    let n = s.unicode_len();
    let start: usize = if n > 0 && s.get_char(0) == '+' {
        1
    } else {
        0
    };
    let ghost digits = s@.skip(start as int);
    proof {
        assert(s@.skip(0) =~= s@);
        assert(decimal_u8(s@) == match digits_value(digits) {
            Some(v) => if v <= 255 {
                Some(v as u8)
            } else {
                None
            },
            None => None,
        });
    }
    if start == n {
        return None;
    }
    let mut value: u32 = 0;
    let mut i: usize = start;
    while i < n
        invariant
            start <= i <= n,
            n == s@.len(),
            start < n,
            digits == s@.skip(start as int),
            decimal_u8(s@) == match digits_value(digits) {
                Some(v) => if v <= 255 {
                    Some(v as u8)
                } else {
                    None
                },
                None => None,
            },
            value <= 255,
            forall|k: int| 0 <= k < i - start ==> '0' <= #[trigger] digits[k] <= '9',
            i > start ==> digits_value(digits.take(i - start)) == Some(value as nat),
            i == start ==> value == 0,
        decreases n - i,
    {
        let c = s.get_char(i);
        if !(c >= '0' && c <= '9') {
            proof {
                lemma_digits_bad(digits, i - start);
            }
            return None;
        }
        let d: u32 = c as u32 - '0' as u32;
        let next: u32 = value * 10 + d;
        proof {
            let upto = digits.take(i + 1 - start);
            assert(upto.drop_last() =~= digits.take(i - start));
        }
        if next > 255 {
            proof {
                if digits_value(digits) is Some {
                    lemma_digits_grow(digits, i + 1 - start);
                }
            }
            return None;
        }
        value = next;
        i += 1;
    }
    proof {
        assert(digits.take(i - start) =~= digits);
    }
    Some(value as u8)
}

/// The command that the words `com` and `data` spell, once the flag that
/// `data` names and the number that it writes are known.
///
/// `flag` flies the named flag, or that of the United Nations where `data`
/// names none. `respawn` asks for the plane whose number `data` writes; with
/// no such plane it is no command. Any other word is no command.
pub open spec fn command_of(com: Seq<char>, flag: Option<FlagCode>, number: Option<u8>) -> Option<
    Command,
> {
    if com == "flag"@ {
        Some(
            Command::Flag(
                match flag {
                    Some(code) => code,
                    None => FlagCode(UNITED_NATIONS),
                },
            ),
        )
    } else if com == "respawn"@ {
        match number {
            Some(n) => match Plane::of_code(n) {
                Some(plane) => Some(Command::Respawn(plane)),
                None => None,
            },
            None => None,
        }
    } else {
        None
    }
}

/// Whether `com` is the word `word`.
fn is_word(com: &str, word: &str) -> (r: bool)
    ensures
        r == (com@ == word@),
{
    let n = com.unicode_len();
    if n != word.unicode_len() {
        return false;
    }
    let mut i: usize = 0;
    while i < n
        invariant
            i <= n,
            n == com@.len(),
            n == word@.len(),
            forall|k: int| 0 <= k < i ==> com@[k] == word@[k],
        decreases n - i,
    {
        if com.get_char(i) != word.get_char(i) {
            return false;
        }
        i += 1;
    }
    assert(com@ =~= word@);
    true
}

/// The command that `com` and `data` spell, given what `data` was found to
/// name and to write.
pub fn command_for(com: &str, flag: Option<FlagCode>, number: Option<u8>) -> (r: Option<Command>)
    ensures
        r == command_of(com@, flag, number),
{
    if is_word(com, "flag") {
        let code = match flag {
            Some(code) => code,
            None => FlagCode(UNITED_NATIONS),
        };
        Some(Command::Flag(code))
    } else if is_word(com, "respawn") {
        match number {
            Some(n) => match Plane::try_from(n) {
                Some(p) => Some(Command::Respawn(p)),
                None => None,
            },
            None => None,
        }
    } else {
        None
    }
}

/// Reads a command from the two words a player sent.
pub fn parse_command(com: &str, data: &str) -> (r: Option<Command>)
    ensures
        r == command_of(com@, flag_of(data@), decimal_u8(data@)),
{
    command_for(com, flag_from_str(data), parse_u8(data))
}

pub struct CommandHandler {
    reader: Option<ReaderId>,
}

pub struct CommandHandlerData<'a> {
    pub channel: &'a mut EventChannel<CommandEvent>,
    pub conns: &'a mut Connections,
    pub planes: &'a mut Table<Plane>,
    pub flags: &'a mut Table<FlagCode>,
    pub isspec: &'a mut Table<IsSpectating>,
    pub isdead: &'a mut Table<IsDead>,
    pub pos: &'a mut Table<Position>,
    pub rot: &'a mut Table<Rotation>,
    pub vel: &'a mut Table<Velocity>,
    pub health: &'a mut Table<Health>,
    pub energy: &'a mut Table<Energy>,
}

/// What the handler changes.
pub struct CommandState {
    pub planes: Map<Entity, Plane>,
    pub flags: Map<Entity, FlagCode>,
    pub isspec: Map<Entity, IsSpectating>,
    pub isdead: Map<Entity, IsDead>,
    pub pos: Map<Entity, Position>,
    pub rot: Map<Entity, Rotation>,
    pub vel: Map<Entity, Velocity>,
    pub health: Map<Entity, Health>,
    pub energy: Map<Entity, Energy>,
    pub sent: Seq<Outbound>,
}

/// The player behind `conn`, where the connection is open and has one.
pub open spec fn sender(links: Map<ConnectionId, Option<Entity>>, conn: ConnectionId) -> Option<
    Entity,
> {
    if links.contains_key(conn) {
        links[conn]
    } else {
        None
    }
}

impl CommandState {
    /// `player` has what `command` overwrites.
    pub open spec fn ready(self, player: Entity, command: Command) -> bool {
        match command {
            Command::Flag(_) => self.flags.contains_key(player),
            Command::Respawn(_) => {
                &&& self.pos.contains_key(player)
                &&& self.vel.contains_key(player)
                &&& self.rot.contains_key(player)
                &&& self.health.contains_key(player)
                &&& self.energy.contains_key(player)
                &&& self.planes.contains_key(player)
            },
        }
    }

    /// Every sender among `events` has what its command overwrites.
    pub open spec fn all_ready(
        self,
        links: Map<ConnectionId, Option<Entity>>,
        events: Seq<CommandEvent>,
    ) -> bool {
        forall|k: int|
            0 <= k < events.len() ==> match sender(links, (#[trigger] events[k]).conn) {
                Some(player) => self.ready(player, events[k].command),
                None => true,
            }
    }

    /// The state after `player` was given the flag `flag`.
    pub open spec fn with_flag(self, player: Entity, flag: FlagCode) -> CommandState {
        CommandState {
            flags: self.flags.insert(player, flag),
            sent: self.sent.push(
                Outbound {
                    to: Recipients::All,
                    packet: ServerPacket::PlayerFlag(PlayerFlag { id: player, flag }),
                },
            ),
            ..self
        }
    }

    /// The state after `player` came back into play in a plane of kind
    /// `ty`: at the origin, at rest, heading up, whole and charged.
    pub open spec fn respawned(self, player: Entity, ty: Plane) -> CommandState {
        CommandState {
            pos: self.pos.insert(player, Vector2 { x: 0, y: 0 }),
            vel: self.vel.insert(player, Vector2 { x: 0, y: 0 }),
            rot: self.rot.insert(player, Rotation { sin: 0, cos: SCALE }),
            health: self.health.insert(player, SCALE),
            energy: self.energy.insert(player, SCALE),
            planes: self.planes.insert(player, ty),
            isspec: self.isspec.remove(player),
            isdead: self.isdead.remove(player),
            sent: self.sent.push(
                Outbound {
                    to: Recipients::All,
                    packet: ServerPacket::PlayerRespawn(
                        PlayerRespawn {
                            id: player,
                            pos: Vector2 { x: 0, y: 0 },
                            rot: Rotation { sin: 0, cos: SCALE },
                            upgrades: ProtocolUpgrades { speed: 0, shield: false, inferno: false },
                        },
                    ),
                },
            ).push(
                Outbound {
                    to: Recipients::All,
                    packet: ServerPacket::PlayerType(PlayerType { id: player, ty }),
                },
            ),
            flags: self.flags,
        }
    }

    /// The state after one command. A command over a connection that is
    /// not open, or has no player, changes nothing.
    pub open spec fn step(self, links: Map<ConnectionId, Option<Entity>>, ev: CommandEvent) -> CommandState {
        match sender(links, ev.conn) {
            Some(player) => match ev.command {
                Command::Flag(flag) => self.with_flag(player, flag),
                Command::Respawn(ty) => self.respawned(player, ty),
            },
            None => self,
        }
    }

    /// The state after the commands of `events`, first to last.
    pub open spec fn run(self, links: Map<ConnectionId, Option<Entity>>, events: Seq<CommandEvent>) -> CommandState
        decreases events.len(),
    {
        if events.len() == 0 {
            self
        } else {
            self.run(links, events.drop_last()).step(links, events.last())
        }
    }

    /// A command takes nothing of what later commands overwrite.
    pub proof fn lemma_step_ready(
        self,
        links: Map<ConnectionId, Option<Entity>>,
        ev: CommandEvent,
        player: Entity,
        command: Command,
    )
        requires
            self.ready(player, command),
        ensures
            self.step(links, ev).ready(player, command),
    {
    }
}

impl<'a> CommandHandlerData<'a> {
    pub open spec fn state(&self) -> CommandState {
        CommandState {
            planes: self.planes@,
            flags: self.flags@,
            isspec: self.isspec@,
            isdead: self.isdead@,
            pos: self.pos@,
            rot: self.rot@,
            vel: self.vel@,
            health: self.health@,
            energy: self.energy@,
            sent: self.conns.queued(),
        }
    }
}

impl<'a> CommandHandlerData<'a> {
    /// The commands that wait for the reader filed under `key`.
    pub open spec fn waiting(&self, key: usize) -> Seq<CommandEvent> {
        self.channel@.pending(key)
    }

    /// The channel and the connections are in order.
    pub open spec fn inputs_wf(&self) -> bool {
        self.channel.wf() && self.conns.wf()
    }

    /// Who is behind each connection.
    pub open spec fn links(&self) -> Map<ConnectionId, Option<Entity>> {
        self.conns.links()
    }

    /// The handler whose reader is `reader` can run: it registered with
    /// this channel, and every sender of a waiting command has what the
    /// command overwrites.
    pub open spec fn runnable(&self, reader: Option<usize>) -> bool {
        &&& reader is Some
        &&& self.channel@.cursors.contains_key(reader.unwrap())
        &&& self.state().all_ready(self.links(), self.waiting(reader.unwrap()))
    }

    /// Whether the sender of `evt`, if there is one, has what the command
    /// overwrites.
    fn has_what_it_takes(&self, evt: CommandEvent) -> (r: bool)
        requires
            self.inputs_wf(),
        ensures
            r == match sender(self.links(), evt.conn) {
                Some(player) => self.state().ready(player, evt.command),
                None => true,
            },
    {
        match self.conns.player(evt.conn) {
            Some(player) => match evt.command {
                Command::Flag(_) => self.flags.contains(player),
                Command::Respawn(_) => self.pos.contains(player) && self.vel.contains(player)
                    && self.rot.contains(player) && self.health.contains(player)
                    && self.energy.contains(player) && self.planes.contains(player),
            },
            None => true,
        }
    }
}

/// The tables after a handler ran, as a state.
pub open spec fn state_of(
    conns: &Connections,
    planes: &Table<Plane>,
    flags: &Table<FlagCode>,
    isspec: &Table<IsSpectating>,
    isdead: &Table<IsDead>,
    pos: &Table<Position>,
    rot: &Table<Rotation>,
    vel: &Table<Velocity>,
    health: &Table<Health>,
    energy: &Table<Energy>,
) -> CommandState {
    CommandState {
        planes: planes@,
        flags: flags@,
        isspec: isspec@,
        isdead: isdead@,
        pos: pos@,
        rot: rot@,
        vel: vel@,
        health: health@,
        energy: energy@,
        sent: conns.queued(),
    }
}

/// Carries out `events`, first to last.
fn apply_all(
    events: &Vec<CommandEvent>,
    conns: &mut Connections,
    planes: &mut Table<Plane>,
    flags: &mut Table<FlagCode>,
    isspec: &mut Table<IsSpectating>,
    isdead: &mut Table<IsDead>,
    pos: &mut Table<Position>,
    rot: &mut Table<Rotation>,
    vel: &mut Table<Velocity>,
    health: &mut Table<Health>,
    energy: &mut Table<Energy>,
)
    requires
        old(conns).wf(),
        state_of(
            old(conns),
            old(planes),
            old(flags),
            old(isspec),
            old(isdead),
            old(pos),
            old(rot),
            old(vel),
            old(health),
            old(energy),
        ).all_ready(old(conns).links(), events@),
    ensures
        final(conns).wf(),
        final(conns).links() == old(conns).links(),
        state_of(
            final(conns),
            final(planes),
            final(flags),
            final(isspec),
            final(isdead),
            final(pos),
            final(rot),
            final(vel),
            final(health),
            final(energy),
        ) == state_of(
            old(conns),
            old(planes),
            old(flags),
            old(isspec),
            old(isdead),
            old(pos),
            old(rot),
            old(vel),
            old(health),
            old(energy),
        ).run(old(conns).links(), events@),
{
    let ghost links = conns.links();
    let ghost st0 = state_of(conns, planes, flags, isspec, isdead, pos, rot, vel, health, energy);
    let mut i: usize = 0;
    while i < events.len()
        invariant
            i <= events@.len(),
            conns.wf(),
            conns.links() == links,
            st0.all_ready(links, events@),
            state_of(conns, planes, flags, isspec, isdead, pos, rot, vel, health, energy)
                == st0.run(links, events@.take(i as int)),
            forall|k: int|
                0 <= k < events@.len() ==> match sender(links, (#[trigger] events@[k]).conn) {
                    Some(player) => state_of(
                        conns,
                        planes,
                        flags,
                        isspec,
                        isdead,
                        pos,
                        rot,
                        vel,
                        health,
                        energy,
                    ).ready(player, events@[k].command),
                    None => true,
                },
        decreases events@.len() - i,
    {
        let ev = events[i];
        let ghost before = state_of(conns, planes, flags, isspec, isdead, pos, rot, vel, health, energy);
        proof {
            assert(events@.take(i + 1).drop_last() =~= events@.take(i as int));
        }
        match conns.player(ev.conn) {
            Some(player) => {
                match ev.command {
                    Command::Flag(flag) => {
                        flags.set(player, flag);
                        conns.send_to_all(ServerPacket::PlayerFlag(PlayerFlag { id: player, flag }));
                    },
                    Command::Respawn(ty) => {
                        pos.set(player, Vector2::zero());
                        vel.set(player, Vector2::zero());
                        rot.set(player, Rotation::zero());
                        health.set(player, SCALE);
                        energy.set(player, SCALE);
                        planes.set(player, ty);
                        let _ = isspec.remove(player);
                        let _ = isdead.remove(player);
                        conns.send_to_all(
                            ServerPacket::PlayerRespawn(
                                PlayerRespawn {
                                    id: player,
                                    pos: Vector2::zero(),
                                    rot: Rotation::zero(),
                                    upgrades: ProtocolUpgrades {
                                        speed: 0,
                                        shield: false,
                                        inferno: false,
                                    },
                                },
                            ),
                        );
                        conns.send_to_all(ServerPacket::PlayerType(PlayerType { id: player, ty }));
                    },
                }
            },
            None => {},
        }
        proof {
            let after = state_of(conns, planes, flags, isspec, isdead, pos, rot, vel, health, energy);
            assert forall|k: int| 0 <= k < events@.len() implies match sender(
                links,
                (#[trigger] events@[k]).conn,
            ) {
                Some(player) => after.ready(player, events@[k].command),
                None => true,
            } by {
                match sender(links, events@[k].conn) {
                    Some(player) => {
                        before.lemma_step_ready(links, ev, player, events@[k].command);
                    },
                    None => {},
                }
            }
        }
        i += 1;
    }
    proof {
        assert(events@.take(i as int) =~= events@);
    }
}

impl CommandHandler {
    pub fn new() -> (r: Self)
        ensures
            r.reader() is None,
    {
        CommandHandler { reader: None }
    }

    pub fn name() -> (r: &'static str)
        ensures
            r@ == "handlers::CommandHandler"@,
    {
        "handlers::CommandHandler"
    }

    /// What the handler declares: it runs after closed connections are
    /// dealt with.
    pub open spec fn declared() -> DeclView {
        DeclView {
            name: "handlers::CommandHandler"@,
            dependencies: seq![
                "handlers::OnCloseHandler"@,
            ],
            reads: Seq::empty(),
            writes: seq![
                Resource::OnCommand,
                Resource::Connections,
                Resource::Plane,
                Resource::Flag,
                Resource::IsSpectating,
                Resource::IsDead,
                Resource::Position,
                Resource::Rotation,
                Resource::Velocity,
                Resource::Health,
                Resource::Energy,
            ],
        }
    }

    /// What the system declares to the scheduler.
    pub fn decl() -> (d: SystemDecl)
        ensures
            d@ == Self::declared(),
    {
        let d = SystemDecl::new(Self::name()).after("handlers::OnCloseHandler").writing(Resource::OnCommand).writing(Resource::Connections).writing(Resource::Plane).writing(Resource::Flag).writing(Resource::IsSpectating).writing(Resource::IsDead).writing(Resource::Position).writing(Resource::Rotation).writing(Resource::Velocity).writing(Resource::Health).writing(Resource::Energy);
        proof {
            assert(d@.writes =~= Self::declared().writes);
        }
        d
    }

    /// Whether the handler can run on `data`: whether it registered with
    /// the channel and every sender of a waiting command has what the
    /// command overwrites.
    pub fn ready(&self, data: &CommandHandlerData<'_>) -> (r: bool)
        requires
            data.inputs_wf(),
        ensures
            r == data.runnable(self.reader()),
    {
        let reader = match &self.reader {
            Some(reader) => reader,
            None => { return false; },
        };
        if !data.channel.has_reader(reader) {
            return false;
        }
        let events = data.channel.peek(reader);
        let mut i: usize = 0;
        while i < events.len()
            invariant
                i <= events@.len(),
                data.inputs_wf(),
                events@ == data.waiting(reader.key()),
                self.reader() == Some(reader.key()),
                forall|k: int|
                    0 <= k < i ==> match sender(data.links(), (#[trigger] events@[k]).conn) {
                        Some(player) => data.state().ready(player, events@[k].command),
                        None => true,
                    },
            decreases events@.len() - i,
        {
            let evt = events[i];
            if !data.has_what_it_takes(evt) {
                return false;
            }
            i += 1;
        }
        true
    }

    /// The key of the reader that the handler registered, if it has.
    pub closed spec fn reader(&self) -> Option<usize> {
        match self.reader {
            Some(r) => Some(r.key()),
            None => None,
        }
    }

    /// Registers the handler as a reader of the command channel.
    pub fn setup(&mut self, channel: &mut EventChannel<CommandEvent>)
        requires
            old(channel).wf(),
        ensures
            final(channel).wf(),
            final(self).reader() is Some,
            !old(channel)@.cursors.contains_key(final(self).reader().unwrap()),
            final(channel)@ == old(channel)@.register(final(self).reader().unwrap()),
    {
        self.reader = Some(channel.register_reader());
    }

    /// Carries out the commands that came in since the last run, in the
    /// order in which they came.
    pub fn run(&mut self, data: CommandHandlerData<'_>)
        requires
            old(data.channel).wf(),
            old(data.conns).wf(),
            data.runnable(old(self).reader()),
        ensures
            final(self).reader() == old(self).reader(),
            final(data.channel).wf(),
            final(data.channel)@ == old(data.channel)@.read(old(self).reader().unwrap()),
            final(data.conns).wf(),
            final(data.conns).links() == old(data.conns).links(),
            state_of(
                final(data.conns),
                final(data.planes),
                final(data.flags),
                final(data.isspec),
                final(data.isdead),
                final(data.pos),
                final(data.rot),
                final(data.vel),
                final(data.health),
                final(data.energy),
            ) == data.state().run(
                old(data.conns).links(),
                old(data.channel)@.pending(old(self).reader().unwrap()),
            ),
    {
        let events = match &self.reader {
            Some(reader) => data.channel.read(reader),
            None => Vec::new(),
        };
        apply_all(
            &events,
            data.conns,
            data.planes,
            data.flags,
            data.isspec,
            data.isdead,
            data.pos,
            data.rot,
            data.vel,
            data.health,
            data.energy,
        );
    }
}

} // verus!
