//! Telling the players what happens to the flags.

use crate::ctf::component::{FlagEvent, FlagEventType, OnFlag, OnFlagReader};
use crate::ctf::config::CtfConfig;
use crate::dispatch::{DeclView, Resource, SystemDecl};
use crate::entity::Entity;
use crate::protocol::{
    Connections, Outbound, Recipients, ServerMessage, ServerMessageType, ServerPacket,
};
use crate::storage::Table;
use crate::types::{Name, Team};
use vstd::prelude::*;
use vstd::string::StringExecFns;

verus! {

pub struct PickupMessageSystem {
    reader: Option<OnFlagReader>,
}

pub struct PickupMessageSystemData<'a> {
    pub channel: &'a mut OnFlag,
    pub conns: &'a mut Connections,
    pub config: &'a CtfConfig,
    pub names: &'a Table<Name>,
    pub teams: &'a Table<Team>,
}

/// What stands for `c` in text that is placed inside HTML.
pub open spec fn escaped_char(c: char) -> Seq<char> {
    if c == '"' {
        "&quot;"@
    } else if c == '&' {
        "&amp;"@
    } else if c == '\'' {
        "&#x27;"@
    } else if c == '<' {
        "&lt;"@
    } else if c == '>' {
        "&gt;"@
    } else {
        seq![c]
    }
}

/// `s` with each of `"`, `&`, `'`, `<` and `>` replaced by its entity.
pub open spec fn escaped(s: Seq<char>) -> Seq<char>
    decreases s.len(),
{
    if s.len() == 0 {
        Seq::empty()
    } else {
        escaped(s.drop_last()) + escaped_char(s.last())
    }
}

/// `htmlescape::encode_minimal`: the string with each of the five
/// characters `"`, `&`, `'`, `<` and `>` replaced by its entity and every
/// other character kept.
#[verifier::external_body]
fn encode_minimal(s: &str) -> (r: String)
    ensures
        r@ == escaped(s@),
{
    htmlescape::encode_minimal(s)
}

/// The word for what happened to a flag; none for a drop, which is not
/// announced.
pub open spec fn verb_of(ty: FlagEventType) -> Option<Seq<char>> {
    match ty {
        FlagEventType::Return => Some("Returned"@),
        FlagEventType::PickUp => Some("Taken"@),
        FlagEventType::Capture => Some("Captured"@),
        FlagEventType::Drop => None,
    }
}

/// The line that tells of something done to a flag: the flag's mark, the
/// verb, and the name of the player, made safe for HTML.
pub open spec fn message_text(class: Seq<char>, verb: Seq<char>, name: Seq<char>) -> Seq<char> {
    "<span class=\"info inline\"><span class=\""@ + class + "\"></span></span>"@ + verb + " by "@
        + escaped(name)
}

/// Builds the line that tells of something done to a flag.
pub fn flag_message(class: &str, verb: &str, name: &str) -> (text: String)
    ensures
        text@ == message_text(class@, verb@, name@),
{
    let mut text = String::from_str("<span class=\"info inline\"><span class=\"");
    text.append(class);
    text.append("\"></span></span>");
    text.append(verb);
    text.append(" by ");
    let safe = encode_minimal(name);
    text.append(safe.as_str());
    text
}

/// The events of `events` that are announced, in their order.
pub open spec fn announced(events: Seq<FlagEvent>) -> Seq<FlagEvent>
    decreases events.len(),
{
    if events.len() == 0 {
        Seq::empty()
    } else if events.last().ty == FlagEventType::Drop {
        announced(events.drop_last())
    } else {
        announced(events.drop_last()).push(events.last())
    }
}

/// What the system reads.
pub struct Notice {
    pub config: CtfConfig,
    pub names: Map<Entity, Name>,
    pub teams: Map<Entity, Team>,
}

impl Notice {
    /// Everything that the announcement of `ev` names is there: the
    /// player and its name, the flag's team and that team's mark.
    pub open spec fn speakable(self, ev: FlagEvent) -> bool {
        ev.ty != FlagEventType::Drop ==> {
            &&& self.teams.contains_key(ev.flag)
            &&& self.config.flag_message_team@.contains_key(self.teams[ev.flag].0)
            &&& ev.player is Some
            &&& self.names.contains_key(ev.player.unwrap())
        }
    }

    /// The line that announces `ev`.
    pub open spec fn text_for(self, ev: FlagEvent) -> Seq<char> {
        message_text(
            self.config.flag_message_team@[self.teams[ev.flag].0]@,
            verb_of(ev.ty).unwrap(),
            self.names[ev.player.unwrap()].0@,
        )
    }

    /// `out` announces `ev` to all players.
    pub open spec fn announces(self, out: Outbound, ev: FlagEvent) -> bool {
        &&& out.to == Recipients::All
        &&& match out.packet {
            ServerPacket::ServerMessage(m) => {
                &&& m.ty == ServerMessageType::FlagMessage
                &&& m.duration == 3000
                &&& m.text@ == self.text_for(ev)
            },
            _ => false,
        }
    }
}

/// Queues the announcement of each of `events` that is announced.
fn announce_all(
    events: &Vec<FlagEvent>,
    conns: &mut Connections,
    config: &CtfConfig,
    names: &Table<Name>,
    teams: &Table<Team>,
)
    requires
        forall|k: int|
            0 <= k < events@.len() ==> (Notice {
                config: *config,
                names: names@,
                teams: teams@,
            }).speakable(#[trigger] events@[k]),
    ensures
        final(conns).queued().len() == old(conns).queued().len() + announced(events@).len(),
        final(conns).queued().take(old(conns).queued().len() as int) == old(conns).queued(),
        forall|k: int|
            0 <= k < announced(events@).len() ==> (Notice {
                config: *config,
                names: names@,
                teams: teams@,
            }).announces(
                #[trigger] final(conns).queued()[old(conns).queued().len() + k],
                announced(events@)[k],
            ),
        final(conns).links() == old(conns).links(),
        final(conns).wf() == old(conns).wf(),
{
    let ghost notice = Notice { config: *config, names: names@, teams: teams@ };
    let ghost queue0 = conns.queued();
    let mut i: usize = 0;
    while i < events.len()
        invariant
            i <= events@.len(),
            notice == (Notice { config: *config, names: names@, teams: teams@ }),
            forall|k: int| 0 <= k < events@.len() ==> notice.speakable(#[trigger] events@[k]),
            conns.queued().len() == queue0.len() + announced(events@.take(i as int)).len(),
            conns.queued().take(queue0.len() as int) == queue0,
            forall|k: int|
                0 <= k < announced(events@.take(i as int)).len() ==> notice.announces(
                    #[trigger] conns.queued()[queue0.len() + k],
                    announced(events@.take(i as int))[k],
                ),
            conns.links() == old(conns).links(),
            conns.wf() == old(conns).wf(),
        decreases events@.len() - i,
    {
        let evt = events[i];
        let ghost queue1 = conns.queued();
        proof {
            assert(events@.take(i + 1).drop_last() =~= events@.take(i as int));
        }
        let verb = match evt.ty {
            FlagEventType::Return => Some("Returned"),
            FlagEventType::PickUp => Some("Taken"),
            FlagEventType::Capture => Some("Captured"),
            FlagEventType::Drop => None,
        };
        match verb {
            Some(verb) => {
                let flag_team = *teams.get(evt.flag).unwrap();
                let name = names.get(evt.player.unwrap()).unwrap();
                let class = config.message_team(flag_team).unwrap();
                let msg = flag_message(class.as_str(), verb, name.0.as_str());
                let packet = ServerMessage {
                    ty: ServerMessageType::FlagMessage,
                    duration: 3000,
                    text: msg,
                };
                conns.send_to_all(ServerPacket::ServerMessage(packet));
                proof {
                    assert(conns.queued().take(queue0.len() as int) =~= queue1.take(
                        queue0.len() as int,
                    ));
                }
            },
            None => {},
        }
        i += 1;
    }
    proof {
        assert(events@.take(i as int) =~= events@);
    }
}

impl<'a> PickupMessageSystemData<'a> {
    /// What the announcements are made of.
    pub open spec fn notice(&self) -> Notice {
        Notice { config: *self.config, names: self.names@, teams: self.teams@ }
    }

    /// The events that wait for the reader filed under `key`.
    pub open spec fn waiting(&self, key: usize) -> Seq<FlagEvent> {
        self.channel@.pending(key)
    }

    /// The channel is in order.
    pub open spec fn channel_wf(&self) -> bool {
        self.channel.wf()
    }

    /// The system whose reader is `reader` can run: it registered with
    /// this channel, and everything that the announcement of a waiting
    /// event names is there.
    pub open spec fn runnable(&self, reader: Option<usize>) -> bool {
        &&& reader is Some
        &&& self.channel@.cursors.contains_key(reader.unwrap())
        &&& forall|k: int|
            0 <= k < self.waiting(reader.unwrap()).len() ==> self.notice().speakable(
                #[trigger] self.waiting(reader.unwrap())[k],
            )
    }

    /// Whether everything that the announcement of `evt` names is there.
    fn speakable(&self, evt: FlagEvent) -> (r: bool)
        ensures
            r == self.notice().speakable(evt),
    {
        if evt.ty == FlagEventType::Drop {
            return true;
        }
        let team = match self.teams.get(evt.flag) {
            Some(t) => *t,
            None => { return false; },
        };
        if self.config.message_team(team).is_none() {
            return false;
        }
        match evt.player {
            Some(p) => self.names.contains(p),
            None => false,
        }
    }
}

impl PickupMessageSystem {
    pub fn new() -> (r: Self)
        ensures
            r.reader() is None,
    {
        Self { reader: None }
    }

    pub fn name() -> (r: &'static str)
        ensures
            r@ == "ctf::systems::PickupMessageSystem"@,
    {
        "ctf::systems::PickupMessageSystem"
    }

    /// What the system declares: it runs after the systems that take and
    /// return flags. It writes the channel that it reads through its cursor.
    pub open spec fn declared() -> DeclView {
        DeclView {
            name: "ctf::systems::PickupMessageSystem"@,
            dependencies: seq![
                "ctf::systems::ReturnFlagSystem"@,
                "ctf::systems::PickupFlagSystem"@,
            ],
            reads: seq![
                Resource::CtfConfig,
                Resource::Name,
                Resource::Team,
            ],
            writes: seq![
                Resource::OnFlag,
                Resource::Connections,
            ],
        }
    }

    /// What the system declares to the scheduler.
    pub fn decl() -> (d: SystemDecl)
        ensures
            d@ == Self::declared(),
    {
        let d = SystemDecl::new(Self::name()).after("ctf::systems::ReturnFlagSystem").after("ctf::systems::PickupFlagSystem").reading(Resource::CtfConfig).reading(Resource::Name).reading(Resource::Team).writing(Resource::OnFlag).writing(Resource::Connections);
        proof {
            assert(d@.dependencies =~= Self::declared().dependencies);
            assert(d@.reads =~= Self::declared().reads);
            assert(d@.writes =~= Self::declared().writes);
        }
        d
    }

    /// Whether the system can run on `data`: whether it registered with the
    /// channel and everything that the announcement of a waiting event
    /// names is there.
    pub fn ready(&self, data: &PickupMessageSystemData<'_>) -> (r: bool)
        requires
            data.channel_wf(),
        ensures
            r == data.runnable(self.reader()),
    {
        let reader = match &self.reader {
            Some(reader) => reader,
            None => { return false; },
        };
        if !data.channel.has_reader(reader) {
            return false;
        }
        let events = data.channel.peek(reader);
        let mut i: usize = 0;
        while i < events.len()
            invariant
                i <= events@.len(),
                events@ == data.waiting(reader.key()),
                self.reader() == Some(reader.key()),
                forall|k: int| 0 <= k < i ==> data.notice().speakable(#[trigger] events@[k]),
            decreases events@.len() - i,
        {
            let evt = events[i];
            if !data.speakable(evt) {
                return false;
            }
            i += 1;
        }
        true
    }

    /// The key of the reader that the system registered, if it has.
    pub closed spec fn reader(&self) -> Option<usize> {
        match self.reader {
            Some(r) => Some(r.key()),
            None => None,
        }
    }

    /// Registers the system as a reader of the flag events.
    pub fn setup(&mut self, channel: &mut OnFlag)
        requires
            old(channel).wf(),
        ensures
            final(channel).wf(),
            final(self).reader() is Some,
            !old(channel)@.cursors.contains_key(final(self).reader().unwrap()),
            final(channel)@ == old(channel)@.register(final(self).reader().unwrap()),
    {
        self.reader = Some(channel.register_reader());
    }

    /// Announces to all players the flag events written since the last
    /// run, but for the drops, in the order in which they were written.
    pub fn run(&mut self, data: PickupMessageSystemData<'_>)
        requires
            old(data.channel).wf(),
            data.runnable(old(self).reader()),
        ensures
            final(self).reader() == old(self).reader(),
            final(data.channel).wf(),
            final(data.channel)@ == old(data.channel)@.read(old(self).reader().unwrap()),
            final(data.conns).queued().len() == old(data.conns).queued().len() + announced(
                old(data.channel)@.pending(old(self).reader().unwrap()),
            ).len(),
            final(data.conns).queued().take(old(data.conns).queued().len() as int) == old(
                data.conns,
            ).queued(),
            forall|k: int|
                0 <= k < announced(
                    old(data.channel)@.pending(old(self).reader().unwrap()),
                ).len() ==> data.notice().announces(
                    #[trigger] final(data.conns).queued()[old(data.conns).queued().len() + k],
                    announced(old(data.channel)@.pending(old(self).reader().unwrap()))[k],
                ),
            final(data.conns).links() == old(data.conns).links(),
            final(data.conns).wf() == old(data.conns).wf(),
    {
        let ghost waiting = data.waiting(self.reader().unwrap());
        let events = match &self.reader {
            Some(reader) => data.channel.read(reader),
            None => Vec::new(),
        };
        // what was read is what waited
        assert(events@ == waiting);
        announce_all(&events, data.conns, data.config, data.names, data.teams);
    }
}

} // verus!
