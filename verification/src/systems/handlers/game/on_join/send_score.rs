//! Telling everyone the score line of a player who joined.

use crate::component::channel::{OnPlayerJoin, OnPlayerJoinReader};
use crate::component::event::PlayerJoin;
use crate::dispatch::{DeclView, Resource, SystemDecl};
use crate::entity::Entity;
use crate::protocol::{Connections, Outbound, Recipients, ScoreUpdate, ServerPacket};
use crate::storage::Table;
use crate::types::{Earnings, Score, TotalDeaths, TotalKills, Upgrades};
use vstd::prelude::*;

verus! {

pub struct SendScoreUpdate {
    reader: Option<OnPlayerJoinReader>,
}

pub struct SendScoreUpdateData<'a> {
    pub channel: &'a mut OnPlayerJoin,
    pub conns: &'a mut Connections,
    pub score: &'a Table<Score>,
    pub earnings: &'a Table<Earnings>,
    pub upgrades: &'a Table<Upgrades>,
    pub total_kills: &'a Table<TotalKills>,
    pub total_deaths: &'a Table<TotalDeaths>,
}

/// What the system reads.
pub struct Ledger {
    pub score: Map<Entity, Score>,
    pub earnings: Map<Entity, Earnings>,
    pub upgrades: Map<Entity, Upgrades>,
    pub total_kills: Map<Entity, TotalKills>,
    pub total_deaths: Map<Entity, TotalDeaths>,
}

impl Ledger {
    /// `e` has every counter of a score line.
    pub open spec fn covers(self, e: Entity) -> bool {
        &&& self.score.contains_key(e)
        &&& self.earnings.contains_key(e)
        &&& self.upgrades.contains_key(e)
        &&& self.total_kills.contains_key(e)
        &&& self.total_deaths.contains_key(e)
    }

    /// The message that tells everyone the score line of the newcomer.
    pub open spec fn score_message(self, ev: PlayerJoin) -> Outbound {
        Outbound {
            to: Recipients::All,
            packet: ServerPacket::ScoreUpdate(
                ScoreUpdate {
                    id: ev.0,
                    score: self.score[ev.0],
                    earnings: self.earnings[ev.0].0,
                    upgrades: self.upgrades[ev.0].unused,
                    total_kills: self.total_kills[ev.0].0,
                    total_deaths: self.total_deaths[ev.0].0,
                },
            ),
        }
    }
}

impl<'a> SendScoreUpdateData<'a> {
    pub open spec fn ledger(&self) -> Ledger {
        Ledger {
            score: self.score@,
            earnings: self.earnings@,
            upgrades: self.upgrades@,
            total_kills: self.total_kills@,
            total_deaths: self.total_deaths@,
        }
    }
}

/// Queues the score line of each of `events`.
fn send_all(
    events: &Vec<PlayerJoin>,
    conns: &mut Connections,
    score: &Table<Score>,
    earnings: &Table<Earnings>,
    upgrades: &Table<Upgrades>,
    total_kills: &Table<TotalKills>,
    total_deaths: &Table<TotalDeaths>,
)
    requires
        forall|k: int|
            0 <= k < events@.len() ==> (Ledger {
                score: score@,
                earnings: earnings@,
                upgrades: upgrades@,
                total_kills: total_kills@,
                total_deaths: total_deaths@,
            }).covers((#[trigger] events@[k]).0),
    ensures
        final(conns).queued() == old(conns).queued() + events@.map_values(
            |ev: PlayerJoin|
                (Ledger {
                    score: score@,
                    earnings: earnings@,
                    upgrades: upgrades@,
                    total_kills: total_kills@,
                    total_deaths: total_deaths@,
                }).score_message(ev),
        ),
        final(conns).links() == old(conns).links(),
        final(conns).wf() == old(conns).wf(),
{
    let ghost ledger = Ledger {
        score: score@,
        earnings: earnings@,
        upgrades: upgrades@,
        total_kills: total_kills@,
        total_deaths: total_deaths@,
    };
    let mut i: usize = 0;
    assert(conns.queued() =~= old(conns).queued() + events@.take(0).map_values(
        |ev: PlayerJoin| ledger.score_message(ev),
    ));
    while i < events.len()
        invariant
            i <= events@.len(),
            ledger == (Ledger {
                score: score@,
                earnings: earnings@,
                upgrades: upgrades@,
                total_kills: total_kills@,
                total_deaths: total_deaths@,
            }),
            forall|k: int| 0 <= k < events@.len() ==> ledger.covers((#[trigger] events@[k]).0),
            conns.queued() == old(conns).queued() + events@.take(i as int).map_values(
                |ev: PlayerJoin| ledger.score_message(ev),
            ),
            conns.links() == old(conns).links(),
            conns.wf() == old(conns).wf(),
        decreases events@.len() - i,
    {
        let evt = events[i];
        let score = score.get(evt.0).unwrap();
        let earnings = earnings.get(evt.0).unwrap();
        let upgrades = upgrades.get(evt.0).unwrap();
        let total_kills = total_kills.get(evt.0).unwrap();
        let total_deaths = total_deaths.get(evt.0).unwrap();
        let packet = ScoreUpdate {
            id: evt.0,
            score: *score,
            earnings: earnings.0,
            upgrades: upgrades.unused,
            total_kills: total_kills.0,
            total_deaths: total_deaths.0,
        };
        conns.send_to_all(ServerPacket::ScoreUpdate(packet));
        proof {
            assert(conns.queued() =~= old(conns).queued() + events@.take(i + 1).map_values(
                |ev: PlayerJoin| ledger.score_message(ev),
            ));
        }
        i += 1;
    }
}

impl<'a> SendScoreUpdateData<'a> {
    /// The events that wait for the reader filed under `key`.
    pub open spec fn waiting(&self, key: usize) -> Seq<PlayerJoin> {
        self.channel@.pending(key)
    }

    /// The channel is in order.
    pub open spec fn channel_wf(&self) -> bool {
        self.channel.wf()
    }

    /// The system whose reader is `reader` can run: it registered with
    /// this channel, and every newcomer that waits has every counter of a score line.
    pub open spec fn runnable(&self, reader: Option<usize>) -> bool {
        &&& reader is Some
        &&& self.channel@.cursors.contains_key(reader.unwrap())
        &&& forall|k: int|
            0 <= k < self.waiting(reader.unwrap()).len() ==> self.ledger().covers((#[trigger] self.waiting(reader.unwrap())[k]).0)
    }
}

impl SendScoreUpdate {
    pub fn new() -> (r: Self)
        ensures
            r.reader() is None,
    {
        Self { reader: None }
    }

    pub fn name() -> (r: &'static str)
        ensures
            r@ == "systems::handlers::game::on_join::SendScoreUpdate"@,
    {
        "systems::handlers::game::on_join::SendScoreUpdate"
    }

    /// What the system declares: its name, the systems it runs after, and
    /// what it reads and writes. It writes the channel that it reads
    /// through its cursor, and the message queue.
    pub open spec fn declared() -> DeclView {
        DeclView {
            name: "systems::handlers::game::on_join::SendScoreUpdate"@,
            dependencies: seq!["systems::handlers::game::on_join::InitTraits"@, "systems::handlers::game::on_join::InitEarnings"@, "systems::handlers::game::on_join::InitKillCounters"@, "systems::handlers::game::on_join::SendLogin"@],
            reads: seq![Resource::Score, Resource::Earnings, Resource::Upgrades, Resource::TotalKills, Resource::TotalDeaths],
            writes: seq![Resource::OnPlayerJoin, Resource::Connections],
        }
    }

    /// What the system declares to the scheduler.
    pub fn decl() -> (d: SystemDecl)
        ensures
            d@ == Self::declared(),
    {
        let d = SystemDecl::new(Self::name()).after("systems::handlers::game::on_join::InitTraits").after("systems::handlers::game::on_join::InitEarnings").after("systems::handlers::game::on_join::InitKillCounters").after("systems::handlers::game::on_join::SendLogin").reading(Resource::Score).reading(Resource::Earnings).reading(Resource::Upgrades).reading(Resource::TotalKills).reading(Resource::TotalDeaths).writing(Resource::OnPlayerJoin).writing(Resource::Connections);
        proof {
            assert(d@.dependencies =~= Self::declared().dependencies);
            assert(d@.reads =~= Self::declared().reads);
            assert(d@.writes =~= Self::declared().writes);
        }
        d
    }

    /// Whether the system can run on `data`: whether it registered with the
    /// channel and every newcomer that waits has every counter of a score line.
    pub fn ready(&self, data: &SendScoreUpdateData<'_>) -> (r: bool)
        requires
            data.channel_wf(),
        ensures
            r == data.runnable(self.reader()),
    {
        let reader = match &self.reader {
            Some(reader) => reader,
            None => { return false; },
        };
        if !data.channel.has_reader(reader) {
            return false;
        }
        let events = data.channel.peek(reader);
        let mut i: usize = 0;
        while i < events.len()
            invariant
                i <= events@.len(),
                events@ == data.waiting(reader.key()),
                self.reader() == Some(reader.key()),
                forall|k: int| 0 <= k < i ==> data.ledger().covers((#[trigger] events@[k]).0),
            decreases events@.len() - i,
        {
            let evt = events[i];
            if !(data.score.contains(evt.0) && data.earnings.contains(evt.0) && data.upgrades.contains(evt.0)
                && data.total_kills.contains(evt.0) && data.total_deaths.contains(evt.0)) {
                return false;
            }
            i += 1;
        }
        true
    }

    /// The key of the reader that the system registered, if it has.
    pub closed spec fn reader(&self) -> Option<usize> {
        match self.reader {
            Some(r) => Some(r.key()),
            None => None,
        }
    }

    /// Registers the system as a reader of the joins.
    pub fn setup(&mut self, channel: &mut OnPlayerJoin)
        requires
            old(channel).wf(),
        ensures
            final(channel).wf(),
            final(self).reader() is Some,
            !old(channel)@.cursors.contains_key(final(self).reader().unwrap()),
            final(channel)@ == old(channel)@.register(final(self).reader().unwrap()),
    {
        self.reader = Some(channel.register_reader());
    }

    /// Tells everyone the score line of each player who joined since the
    /// last run.
    pub fn run(&mut self, data: SendScoreUpdateData<'_>)
        requires
            old(data.channel).wf(),
            data.runnable(old(self).reader()),
        ensures
            final(self).reader() == old(self).reader(),
            final(data.channel).wf(),
            final(data.channel)@ == old(data.channel)@.read(old(self).reader().unwrap()),
            final(data.conns).queued() == old(data.conns).queued() + old(data.channel)@.pending(
                old(self).reader().unwrap(),
            ).map_values(|ev: PlayerJoin| data.ledger().score_message(ev)),
            final(data.conns).links() == old(data.conns).links(),
            final(data.conns).wf() == old(data.conns).wf(),
    {
        let ghost waiting = data.waiting(self.reader().unwrap());
        let events = match &self.reader {
            Some(reader) => data.channel.read(reader),
            None => Vec::new(),
        };
        // what was read is what waited
        assert(events@ == waiting);
        send_all(
            &events,
            data.conns,
            data.score,
            data.earnings,
            data.upgrades,
            data.total_kills,
            data.total_deaths,
        );
    }
}

} // verus!
