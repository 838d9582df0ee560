//! Telling the others the level of a player who joined.

use crate::component::channel::{OnPlayerJoin, OnPlayerJoinReader};
use crate::component::event::PlayerJoin;
use crate::dispatch::{DeclView, Resource, SystemDecl};
use crate::entity::Entity;
use crate::protocol::{Connections, Outbound, PlayerLevel, PlayerLevelType, Recipients, ServerPacket};
use crate::storage::Table;
use crate::types::Level;
use vstd::prelude::*;

verus! {

pub struct SendPlayerLevel {
    reader: Option<OnPlayerJoinReader>,
}

pub struct SendPlayerLevelData<'a> {
    pub channel: &'a mut OnPlayerJoin,
    pub conns: &'a mut Connections,
    pub level: &'a Table<Level>,
}

/// The message that tells the others of the level of the newcomer.
pub open spec fn level_message(levels: Map<Entity, Level>, ev: PlayerJoin) -> Outbound {
    Outbound {
        to: Recipients::Others(ev.0),
        packet: ServerPacket::PlayerLevel(
            PlayerLevel { id: ev.0, ty: PlayerLevelType::Login, level: levels[ev.0] },
        ),
    }
}

/// Queues the level message of each of `events`.
fn send_all(events: &Vec<PlayerJoin>, conns: &mut Connections, level: &Table<Level>)
    requires
        forall|k: int| 0 <= k < events@.len() ==> level@.contains_key((#[trigger] events@[k]).0),
    ensures
        final(conns).queued() == old(conns).queued() + events@.map_values(
            |ev: PlayerJoin| level_message(level@, ev),
        ),
        final(conns).links() == old(conns).links(),
        final(conns).wf() == old(conns).wf(),
{
    let mut i: usize = 0;
    assert(conns.queued() =~= old(conns).queued() + events@.take(0).map_values(
        |ev: PlayerJoin| level_message(level@, ev),
    ));
    while i < events.len()
        invariant
            i <= events@.len(),
            forall|k: int| 0 <= k < events@.len() ==> level@.contains_key((#[trigger] events@[k]).0),
            conns.queued() == old(conns).queued() + events@.take(i as int).map_values(
                |ev: PlayerJoin| level_message(level@, ev),
            ),
            conns.links() == old(conns).links(),
            conns.wf() == old(conns).wf(),
        decreases events@.len() - i,
    {
        let evt = events[i];
        let packet = PlayerLevel {
            id: evt.0,
            ty: PlayerLevelType::Login,
            level: *level.get(evt.0).unwrap(),
        };
        conns.send_to_others(evt.0, ServerPacket::PlayerLevel(packet));
        proof {
            assert(conns.queued() =~= old(conns).queued() + events@.take(i + 1).map_values(
                |ev: PlayerJoin| level_message(level@, ev),
            ));
        }
        i += 1;
    }
}

impl<'a> SendPlayerLevelData<'a> {
    /// The events that wait for the reader filed under `key`.
    pub open spec fn waiting(&self, key: usize) -> Seq<PlayerJoin> {
        self.channel@.pending(key)
    }

    /// The channel is in order.
    pub open spec fn channel_wf(&self) -> bool {
        self.channel.wf()
    }

    /// The system whose reader is `reader` can run: it registered with
    /// this channel, and every newcomer that waits has a level.
    pub open spec fn runnable(&self, reader: Option<usize>) -> bool {
        &&& reader is Some
        &&& self.channel@.cursors.contains_key(reader.unwrap())
        &&& forall|k: int|
            0 <= k < self.waiting(reader.unwrap()).len() ==> self.level@.contains_key((#[trigger] self.waiting(reader.unwrap())[k]).0)
    }
}

impl SendPlayerLevel {
    pub fn new() -> (r: Self)
        ensures
            r.reader() is None,
    {
        Self { reader: None }
    }

    pub fn name() -> (r: &'static str)
        ensures
            r@ == "systems::handlers::game::on_join::SendPlayerLevel"@,
    {
        "systems::handlers::game::on_join::SendPlayerLevel"
    }

    /// What the system declares: its name, the systems it runs after, and
    /// what it reads and writes. It writes the channel that it reads
    /// through its cursor, and the message queue.
    pub open spec fn declared() -> DeclView {
        DeclView {
            name: "systems::handlers::game::on_join::SendPlayerLevel"@,
            dependencies: seq!["systems::handlers::game::on_join::InitTraits"@, "systems::handlers::game::on_join::SendLogin"@],
            reads: seq![Resource::Level],
            writes: seq![Resource::OnPlayerJoin, Resource::Connections],
        }
    }

    /// What the system declares to the scheduler.
    pub fn decl() -> (d: SystemDecl)
        ensures
            d@ == Self::declared(),
    {
        let d = SystemDecl::new(Self::name()).after("systems::handlers::game::on_join::InitTraits").after("systems::handlers::game::on_join::SendLogin").reading(Resource::Level).writing(Resource::OnPlayerJoin).writing(Resource::Connections);
        proof {
            assert(d@.dependencies =~= Self::declared().dependencies);
            assert(d@.writes =~= Self::declared().writes);
        }
        d
    }

    /// Whether the system can run on `data`: whether it registered with the
    /// channel and every newcomer that waits has a level.
    pub fn ready(&self, data: &SendPlayerLevelData<'_>) -> (r: bool)
        requires
            data.channel_wf(),
        ensures
            r == data.runnable(self.reader()),
    {
        let reader = match &self.reader {
            Some(reader) => reader,
            None => { return false; },
        };
        if !data.channel.has_reader(reader) {
            return false;
        }
        let events = data.channel.peek(reader);
        let mut i: usize = 0;
        while i < events.len()
            invariant
                i <= events@.len(),
                events@ == data.waiting(reader.key()),
                self.reader() == Some(reader.key()),
                forall|k: int| 0 <= k < i ==> data.level@.contains_key((#[trigger] events@[k]).0),
            decreases events@.len() - i,
        {
            let evt = events[i];
            if !data.level.contains(evt.0) {
                return false;
            }
            i += 1;
        }
        true
    }

    /// The key of the reader that the system registered, if it has.
    pub closed spec fn reader(&self) -> Option<usize> {
        match self.reader {
            Some(r) => Some(r.key()),
            None => None,
        }
    }

    /// Registers the system as a reader of the joins.
    pub fn setup(&mut self, channel: &mut OnPlayerJoin)
        requires
            old(channel).wf(),
        ensures
            final(channel).wf(),
            final(self).reader() is Some,
            !old(channel)@.cursors.contains_key(final(self).reader().unwrap()),
            final(channel)@ == old(channel)@.register(final(self).reader().unwrap()),
    {
        self.reader = Some(channel.register_reader());
    }

    /// Tells the other players the level of each player who joined since
    /// the last run.
    pub fn run(&mut self, data: SendPlayerLevelData<'_>)
        requires
            old(data.channel).wf(),
            data.runnable(old(self).reader()),
        ensures
            final(self).reader() == old(self).reader(),
            final(data.channel).wf(),
            final(data.channel)@ == old(data.channel)@.read(old(self).reader().unwrap()),
            final(data.conns).queued() == old(data.conns).queued() + old(data.channel)@.pending(
                old(self).reader().unwrap(),
            ).map_values(|ev: PlayerJoin| level_message(data.level@, ev)),
            final(data.conns).links() == old(data.conns).links(),
            final(data.conns).wf() == old(data.conns).wf(),
    {
        let ghost waiting = data.waiting(self.reader().unwrap());
        let events = match &self.reader {
            Some(reader) => data.channel.read(reader),
            None => Vec::new(),
        };
        // what was read is what waited
        assert(events@ == waiting);
        send_all(&events, data.conns, data.level);
    }
}

} // verus!
