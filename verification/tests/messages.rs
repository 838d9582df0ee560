use airmash_server::component::channel::{OnPlayerJoin, OnPlayerSpectate};
use airmash_server::component::event::{
    AFKTimerEvent, PingTimerEvent, PlayerJoin, PlayerSpectate, ScoreBoardTimerEvent, TimerEvent,
    TimerEventType,
};
use airmash_server::ctf::component::{FlagEvent, FlagEventType, OnFlag};
use airmash_server::ctf::config::CtfConfig;
use airmash_server::ctf::systems::flag_message::{
    flag_message, PickupMessageSystem, PickupMessageSystemData,
};
use airmash_server::entity::{Entities, Entity};
use airmash_server::event::EventChannel;
use airmash_server::protocol::{
    Connections, GameMode, GameType, PlayerKill, PlayerLevel, PlayerLevelType, ProtocolUpgrades,
    Recipients, ScoreUpdate, ServerMessageType, ServerPacket,
};
use airmash_server::storage::Table;
use airmash_server::systems::handlers::game::on_join::send_level::{
    SendPlayerLevel, SendPlayerLevelData,
};
use airmash_server::systems::handlers::game::on_join::send_login::{SendLogin, SendLoginData};
use airmash_server::systems::handlers::game::on_join::send_score::{
    SendScoreUpdate, SendScoreUpdateData,
};
use airmash_server::systems::handlers::game::on_spectate_event::send_kill_packet::{
    SendKillPacket, SendKillPacketData,
};
use airmash_server::systems::timer_handler::{TimerHandler, TimerHandlerData};
use airmash_server::types::{
    Earnings, FlagCode, Level, Name, Plane, Position, Powerups, Rotation, Score, Status, Team,
    TotalDeaths, TotalKills, Upgrades, Vector2, Velocity,
};

#[test]
fn a_flag_message_names_the_flag_the_deed_and_the_player() {
    assert_eq!(
        flag_message("blueflag", "Taken", "ace"),
        "<span class=\"info inline\"><span class=\"blueflag\"></span></span>Taken by ace"
    );
}

#[test]
fn a_name_is_made_safe_for_html() {
    assert_eq!(
        flag_message("redflag", "Captured", "<b>\"Tom\" & 'Jerry'</b>"),
        "<span class=\"info inline\"><span class=\"redflag\"></span></span>Captured by \
         &lt;b&gt;&quot;Tom&quot; &amp; &#x27;Jerry&#x27;&lt;/b&gt;"
    );
    assert_eq!(
        flag_message("", "", "\u{e9}t\u{e9} \u{2603}"),
        "<span class=\"info inline\"><span class=\"\"></span></span> by \u{e9}t\u{e9} \u{2603}"
    );
}

#[test]
fn flag_events_but_drops_are_announced_to_all() {
    let mut ents = Entities::new();
    let flag = ents.create();
    let player = ents.create();
    let mut channel = OnFlag::new();
    let mut conns = Connections::new();
    let config = CtfConfig::default();
    let mut names: Table<Name> = Table::new();
    let mut teams: Table<Team> = Table::new();
    names.insert(player, Name("Maverick <3".to_string()));
    teams.insert(flag, Team(2));
    teams.insert(player, Team(1));
    let mut system = PickupMessageSystem::new();
    system.setup(&mut channel);
    channel.iter_write(&vec![
        FlagEvent { ty: FlagEventType::PickUp, player: Some(player), flag },
        FlagEvent { ty: FlagEventType::Drop, player: Some(player), flag },
        FlagEvent { ty: FlagEventType::Return, player: Some(player), flag },
        FlagEvent { ty: FlagEventType::Capture, player: Some(player), flag },
    ]);
    system.run(PickupMessageSystemData {
        channel: &mut channel,
        conns: &mut conns,
        config: &config,
        names: &names,
        teams: &teams,
    });
    let sent = conns.drain();
    let texts: Vec<String> = sent
        .iter()
        .map(|out| {
            assert_eq!(out.to, Recipients::All);
            match &out.packet {
                ServerPacket::ServerMessage(m) => {
                    assert_eq!(m.ty, ServerMessageType::FlagMessage);
                    assert_eq!(m.duration, 3000);
                    m.text.clone()
                }
                _ => panic!("a flag event is announced by a server message"),
            }
        })
        .collect();
    let head = "<span class=\"info inline\"><span class=\"redflag\"></span></span>";
    assert_eq!(
        texts,
        vec![
            format!("{}Taken by Maverick &lt;3", head),
            format!("{}Returned by Maverick &lt;3", head),
            format!("{}Captured by Maverick &lt;3", head),
        ]
    );
    system.run(PickupMessageSystemData {
        channel: &mut channel,
        conns: &mut conns,
        config: &config,
        names: &names,
        teams: &teams,
    });
    assert!(conns.drain().is_empty());
}

struct Roster {
    ents: Entities,
    channel: OnPlayerJoin,
    conns: Connections,
    gamemode: GameMode,
    pos: Table<Position>,
    rot: Table<Rotation>,
    vel: Table<Velocity>,
    plane: Table<Plane>,
    team: Table<Team>,
    status: Table<Status>,
    flag: Table<FlagCode>,
    upgrades: Table<Upgrades>,
    powerups: Table<Powerups>,
    name: Table<Name>,
    level: Table<Level>,
    score: Table<Score>,
    earnings: Table<Earnings>,
    total_kills: Table<TotalKills>,
    total_deaths: Table<TotalDeaths>,
}

impl Roster {
    fn new() -> Roster {
        Roster {
            ents: Entities::new(),
            channel: OnPlayerJoin::new(),
            conns: Connections::new(),
            gamemode: GameMode { room: "matrix".to_string(), gametype: GameType::CTF },
            pos: Table::new(),
            rot: Table::new(),
            vel: Table::new(),
            plane: Table::new(),
            team: Table::new(),
            status: Table::new(),
            flag: Table::new(),
            upgrades: Table::new(),
            powerups: Table::new(),
            name: Table::new(),
            level: Table::new(),
            score: Table::new(),
            earnings: Table::new(),
            total_kills: Table::new(),
            total_deaths: Table::new(),
        }
    }

    fn player(&mut self, name: &str, n: u8) -> Entity {
        let e = self.ents.create();
        self.pos.insert(e, Vector2::new(n as i32, -(n as i32)));
        self.rot.insert(e, Rotation::zero());
        self.vel.insert(e, Vector2::new(0, 0));
        self.plane.insert(e, Plane::Tornado);
        self.team.insert(e, Team(n as u16));
        self.status.insert(e, Status::Alive);
        self.flag.insert(e, FlagCode(n as u16 + 1));
        self.upgrades.insert(
            e,
            Upgrades { speed: n, defense: 0, energy: 0, missile: 0, unused: 100 + n as u16 },
        );
        self.powerups.insert(e, Powerups { shield: n % 2 == 0, inferno: n % 2 == 1 });
        self.name.insert(e, Name(name.to_string()));
        self.level.insert(e, Level(10 + n));
        self.score.insert(e, Score(1000 + n as u32));
        self.earnings.insert(e, Earnings(2000 + n as u32));
        self.total_kills.insert(e, TotalKills(30 + n as u32));
        self.total_deaths.insert(e, TotalDeaths(40 + n as u32));
        e
    }

    fn login_data(&mut self) -> SendLoginData<'_> {
        SendLoginData {
            channel: &mut self.channel,
            conns: &mut self.conns,
            entities: &self.ents,
            gamemode: &self.gamemode,
            pos: &self.pos,
            rot: &self.rot,
            vel: &self.vel,
            plane: &self.plane,
            team: &self.team,
            status: &self.status,
            flag: &self.flag,
            upgrades: &self.upgrades,
            powerups: &self.powerups,
            name: &self.name,
            level: &self.level,
        }
    }
}

#[test]
fn the_roster_lists_every_complete_player_in_slot_order() {
    let mut roster = Roster::new();
    let a = roster.player("a", 1);
    let b = roster.player("b", 2);
    let c = roster.player("c", 3);
    roster.name.remove(b);
    let players = SendLogin::get_player_data(&roster.login_data());
    assert_eq!(players.len(), 2);
    assert_eq!(players[0].id, a);
    assert_eq!(players[1].id, c);
    let first = &players[0];
    assert_eq!(first.name, "a");
    assert_eq!(first.status, Status::Alive);
    assert_eq!(first.level, Level(11));
    assert_eq!(first.ty, Plane::Tornado);
    assert_eq!(first.team, Team(1));
    assert_eq!(first.pos, Vector2::new(1, -1));
    assert_eq!(first.rot, Rotation::zero());
    assert_eq!(first.flag, FlagCode(2));
    assert_eq!(first.upgrades, ProtocolUpgrades { speed: 1, shield: false, inferno: true });
    assert_eq!(players[1].name, "c");
    assert_eq!(players[1].upgrades, ProtocolUpgrades { speed: 3, shield: false, inferno: true });
}

#[test]
fn a_newcomer_is_welcomed_alone() {
    let mut roster = Roster::new();
    let old = roster.player("old", 1);
    let new = roster.player("new", 2);
    let mut system = SendLogin::new();
    system.setup(&mut roster.channel);
    roster.channel.single_write(PlayerJoin(new));
    system.run(roster.login_data());
    let sent = roster.conns.drain();
    assert_eq!(sent.len(), 1);
    assert_eq!(sent[0].to, Recipients::Player(new));
    match &sent[0].packet {
        ServerPacket::Login(login) => {
            assert!(login.success);
            assert_eq!(login.id, new);
            assert_eq!(login.team, Team(2));
            assert_eq!(login.clock, 0);
            assert_eq!(login.token, "none");
            assert_eq!(login.ty, GameType::CTF);
            assert_eq!(login.room, "matrix");
            assert_eq!(login.players.len(), 2);
            assert_eq!(login.players[0].id, old);
            assert_eq!(login.players[1].id, new);
            assert_eq!(login.players[1].name, "new");
        }
        _ => panic!("a newcomer is sent a login packet"),
    }
}

#[test]
fn the_others_learn_the_level_of_a_newcomer() {
    let mut roster = Roster::new();
    let a = roster.player("a", 1);
    let b = roster.player("b", 2);
    let mut system = SendPlayerLevel::new();
    system.setup(&mut roster.channel);
    roster.channel.iter_write(&vec![PlayerJoin(b), PlayerJoin(a)]);
    system.run(SendPlayerLevelData {
        channel: &mut roster.channel,
        conns: &mut roster.conns,
        level: &roster.level,
    });
    let sent = roster.conns.drain();
    assert_eq!(sent.len(), 2);
    assert_eq!(sent[0].to, Recipients::Others(b));
    assert_eq!(sent[1].to, Recipients::Others(a));
    match (&sent[0].packet, &sent[1].packet) {
        (ServerPacket::PlayerLevel(first), ServerPacket::PlayerLevel(second)) => {
            assert_eq!(*first, PlayerLevel { id: b, ty: PlayerLevelType::Login, level: Level(12) });
            assert_eq!(*second, PlayerLevel { id: a, ty: PlayerLevelType::Login, level: Level(11) });
        }
        _ => panic!("levels are sent in level packets"),
    }
}

#[test]
fn everyone_learns_the_score_line_of_a_newcomer() {
    let mut roster = Roster::new();
    let _ = roster.player("a", 1);
    let b = roster.player("b", 2);
    let mut system = SendScoreUpdate::new();
    system.setup(&mut roster.channel);
    roster.channel.single_write(PlayerJoin(b));
    system.run(SendScoreUpdateData {
        channel: &mut roster.channel,
        conns: &mut roster.conns,
        score: &roster.score,
        earnings: &roster.earnings,
        upgrades: &roster.upgrades,
        total_kills: &roster.total_kills,
        total_deaths: &roster.total_deaths,
    });
    let sent = roster.conns.drain();
    assert_eq!(sent.len(), 1);
    assert_eq!(sent[0].to, Recipients::All);
    match &sent[0].packet {
        ServerPacket::ScoreUpdate(s) => assert_eq!(
            *s,
            ScoreUpdate {
                id: b,
                score: Score(1002),
                earnings: 2002,
                upgrades: 102,
                total_kills: 32,
                total_deaths: 42,
            }
        ),
        _ => panic!("score lines are sent in score packets"),
    }
}

#[test]
fn a_player_who_goes_to_watch_is_told_that_the_plane_is_gone() {
    let mut ents = Entities::new();
    let flying = ents.create();
    let dead = ents.create();
    let watching = ents.create();
    let mut channel = OnPlayerSpectate::new();
    let mut conns = Connections::new();
    let mut system = SendKillPacket::new();
    system.setup(&mut channel);
    channel.iter_write(&vec![
        PlayerSpectate { player: dead, target: None, is_dead: true, is_spec: false },
        PlayerSpectate { player: flying, target: Some(dead), is_dead: false, is_spec: false },
        PlayerSpectate { player: watching, target: None, is_dead: false, is_spec: true },
    ]);
    system.run(SendKillPacketData { channel: &mut channel, conns: &mut conns });
    let sent = conns.drain();
    assert_eq!(sent.len(), 1);
    assert_eq!(sent[0].to, Recipients::Player(flying));
    match &sent[0].packet {
        ServerPacket::PlayerKill(k) => {
            assert_eq!(*k, PlayerKill { id: flying, killer: None, pos: Vector2::new(0, 0) })
        }
        _ => panic!("the plane is taken away by a kill packet"),
    }
}

#[test]
fn timer_events_go_to_the_channel_of_their_kind() {
    let mut scoreboard: EventChannel<ScoreBoardTimerEvent> = EventChannel::new();
    let mut afk_timer: EventChannel<AFKTimerEvent> = EventChannel::new();
    let mut ping_timer: EventChannel<PingTimerEvent> = EventChannel::new();
    let scores = scoreboard.register_reader();
    let afk = afk_timer.register_reader();
    let ping = ping_timer.register_reader();
    let mut handler = TimerHandler::new();
    handler.deliver(TimerEvent { ty: TimerEventType::PingDispatch, instant: 1 });
    handler.deliver(TimerEvent { ty: TimerEventType::ScoreBoard, instant: 2 });
    handler.deliver(TimerEvent { ty: TimerEventType::PingDispatch, instant: 3 });
    handler.deliver(TimerEvent { ty: TimerEventType::AFKTimeout, instant: 4 });
    handler.run(TimerHandlerData {
        scoreboard: &mut scoreboard,
        afk_timer: &mut afk_timer,
        ping_timer: &mut ping_timer,
    });
    assert_eq!(scoreboard.read(&scores), vec![ScoreBoardTimerEvent(2)]);
    assert_eq!(afk_timer.read(&afk), vec![AFKTimerEvent(4)]);
    assert_eq!(ping_timer.read(&ping), vec![PingTimerEvent(1), PingTimerEvent(3)]);
    handler.run(TimerHandlerData {
        scoreboard: &mut scoreboard,
        afk_timer: &mut afk_timer,
        ping_timer: &mut ping_timer,
    });
    assert!(scoreboard.read(&scores).is_empty());
    assert!(afk_timer.read(&afk).is_empty());
    assert!(ping_timer.read(&ping).is_empty());
}
