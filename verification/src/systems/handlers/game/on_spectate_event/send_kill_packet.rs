//! Taking the plane of a player who goes to watch off that player's screen.

use crate::component::channel::{OnPlayerSpectate, OnPlayerSpectateReader};
use crate::component::event::PlayerSpectate;
use crate::dispatch::{DeclView, Resource, SystemDecl};
use crate::protocol::{Connections, Outbound, PlayerKill, Recipients, ServerPacket};
use crate::types::Vector2;
use vstd::prelude::*;

verus! {

pub struct SendKillPacket {
    reader: Option<OnPlayerSpectateReader>,
}

pub struct SendKillPacketData<'a> {
    pub channel: &'a mut OnPlayerSpectate,
    pub conns: &'a mut Connections,
}

/// The events of `events` whose player had a plane in play, in order.
pub open spec fn despawns(events: Seq<PlayerSpectate>) -> Seq<PlayerSpectate>
    decreases events.len(),
{
    if events.len() == 0 {
        Seq::empty()
    } else if events.last().is_dead || events.last().is_spec {
        despawns(events.drop_last())
    } else {
        despawns(events.drop_last()).push(events.last())
    }
}

/// The message that takes the plane off the screen of its player: a kill
/// by nobody at the origin, which the client reads as going to watch.
pub open spec fn kill_message(ev: PlayerSpectate) -> Outbound {
    Outbound {
        to: Recipients::Player(ev.player),
        packet: ServerPacket::PlayerKill(
            PlayerKill { id: ev.player, killer: None, pos: Vector2 { x: 0, y: 0 } },
        ),
    }
}

/// Queues the kill message of each of `events` whose player had a plane
/// in play.
fn send_all(events: &Vec<PlayerSpectate>, conns: &mut Connections)
    ensures
        final(conns).queued() == old(conns).queued() + despawns(events@).map_values(
            |ev: PlayerSpectate| kill_message(ev),
        ),
        final(conns).links() == old(conns).links(),
        final(conns).wf() == old(conns).wf(),
{
    let mut i: usize = 0;
    assert(conns.queued() =~= old(conns).queued() + despawns(events@.take(0)).map_values(
        |ev: PlayerSpectate| kill_message(ev),
    ));
    while i < events.len()
        invariant
            i <= events@.len(),
            conns.queued() == old(conns).queued() + despawns(events@.take(i as int)).map_values(
                |ev: PlayerSpectate| kill_message(ev),
            ),
            conns.links() == old(conns).links(),
            conns.wf() == old(conns).wf(),
        decreases events@.len() - i,
    {
        let evt = events[i];
        proof {
            assert(events@.take(i + 1).drop_last() =~= events@.take(i as int));
        }
        // A player who was already watching or dead has no plane to remove
        if !(evt.is_dead || evt.is_spec) {
            let packet = PlayerKill { id: evt.player, killer: None, pos: Vector2::zero() };
            conns.send_to_player(evt.player, ServerPacket::PlayerKill(packet));
            proof {
                assert(conns.queued() =~= old(conns).queued() + despawns(
                    events@.take(i + 1),
                ).map_values(|ev: PlayerSpectate| kill_message(ev)));
            }
        }
        i += 1;
    }
    proof {
        assert(events@.take(i as int) =~= events@);
    }
}

impl SendKillPacket {
    pub fn new() -> (r: Self)
        ensures
            r.reader() is None,
    {
        Self { reader: None }
    }

    pub fn name() -> (r: &'static str)
        ensures
            r@ == "systems::handlers::game::on_spectate_event::SendKillPacket"@,
    {
        "systems::handlers::game::on_spectate_event::SendKillPacket"
    }

    /// What the system declares: its name, the systems it runs after, and
    /// what it reads and writes. It writes the channel that it reads
    /// through its cursor, and the message queue.
    pub open spec fn declared() -> DeclView {
        DeclView {
            name: "systems::handlers::game::on_spectate_event::SendKillPacket"@,
            dependencies: seq!["systems::spectate::CommandHandler"@],
            reads: Seq::empty(),
            writes: seq![Resource::OnPlayerSpectate, Resource::Connections],
        }
    }

    /// What the system declares to the scheduler.
    pub fn decl() -> (d: SystemDecl)
        ensures
            d@ == Self::declared(),
    {
        let d = SystemDecl::new(Self::name()).after("systems::spectate::CommandHandler").writing(Resource::OnPlayerSpectate).writing(Resource::Connections);
        proof {
            assert(d@.writes =~= Self::declared().writes);
        }
        d
    }

    /// The key of the reader that the system registered, if it has.
    pub closed spec fn reader(&self) -> Option<usize> {
        match self.reader {
            Some(r) => Some(r.key()),
            None => None,
        }
    }

    /// Registers the system as a reader of the spectate events.
    pub fn setup(&mut self, channel: &mut OnPlayerSpectate)
        requires
            old(channel).wf(),
        ensures
            final(channel).wf(),
            final(self).reader() is Some,
            !old(channel)@.cursors.contains_key(final(self).reader().unwrap()),
            final(channel)@ == old(channel)@.register(final(self).reader().unwrap()),
    {
        self.reader = Some(channel.register_reader());
    }

    /// For each player who went to watch since the last run and had a
    /// plane in play, tells that player that the plane is gone.
    pub fn run(&mut self, data: SendKillPacketData<'_>)
        requires
            old(self).reader() is Some,
            old(data.channel).wf(),
            old(data.channel)@.cursors.contains_key(old(self).reader().unwrap()),
        ensures
            final(self).reader() == old(self).reader(),
            final(data.channel).wf(),
            final(data.channel)@ == old(data.channel)@.read(old(self).reader().unwrap()),
            final(data.conns).queued() == old(data.conns).queued() + despawns(
                old(data.channel)@.pending(old(self).reader().unwrap()),
            ).map_values(|ev: PlayerSpectate| kill_message(ev)),
            final(data.conns).links() == old(data.conns).links(),
            final(data.conns).wf() == old(data.conns).wf(),
    {
        let events = match &self.reader {
            Some(reader) => data.channel.read(reader),
            None => Vec::new(),
        };
        send_all(&events, data.conns);
    }
}

} // verus!
