use airmash_server::component::channel::OnPlayerJoin;
use airmash_server::component::event::PlayerJoin;
use airmash_server::ctf::component::{FlagCarrier, FlagEvent, FlagEventType, LastDrop, OnFlag};
use airmash_server::ctf::config::CtfConfig;
use airmash_server::ctf::systems::dropflag::DropFlagSystemData;
use airmash_server::ctf::systems::flag_message::{PickupMessageSystem, PickupMessageSystemData};
use airmash_server::entity::{Entities, Entity};
use airmash_server::event::EventChannel;
use airmash_server::handlers::command::{Command, CommandEvent, CommandHandler, CommandHandlerData};
use airmash_server::protocol::Connections;
use airmash_server::storage::Table;
use airmash_server::systems::handlers::game::on_join::send_level::{
    SendPlayerLevel, SendPlayerLevelData,
};
use airmash_server::types::{
    ConnectionId, FlagCode, Level, Name, Plane, Team, ThisFrame, Vector2,
};

#[test]
fn peeking_leaves_the_cursor_where_it_is() {
    let mut channel: EventChannel<u32> = EventChannel::new();
    let reader = channel.register_reader();
    channel.iter_write(&vec![1, 2]);
    assert_eq!(channel.peek(&reader), vec![1, 2]);
    assert_eq!(channel.peek(&reader), vec![1, 2]);
    assert_eq!(channel.len(), 2);
    assert_eq!(channel.read(&reader), vec![1, 2]);
    assert_eq!(channel.peek(&reader), Vec::<u32>::new());
}

#[test]
fn a_table_is_covered_when_its_entities_are_alive() {
    let mut ents = Entities::new();
    let a = ents.create();
    let b = ents.create();
    let mut table: Table<Team> = Table::new();
    assert!(ents.covers_table(&table));
    table.insert(a, Team(1));
    table.insert(b, Team(2));
    assert!(ents.covers_table(&table));
    ents.destroy(a);
    assert!(!ents.covers_table(&table));
    table.remove(a);
    assert!(ents.covers_table(&table));
    table.insert(Entity { id: 9, generation: 0 }, Team(3));
    assert!(!ents.covers_table(&table));
}

#[test]
fn a_system_is_ready_once_it_is_set_up_and_its_events_are_complete() {
    let mut ents = Entities::new();
    let with_level = ents.create();
    let without = ents.create();
    let mut channel = OnPlayerJoin::new();
    let mut conns = Connections::new();
    let mut level: Table<Level> = Table::new();
    level.insert(with_level, Level(3));
    let mut system = SendPlayerLevel::new();
    assert!(!system.ready(&SendPlayerLevelData {
        channel: &mut channel,
        conns: &mut conns,
        level: &level
    }));
    let mut other = OnPlayerJoin::new();
    system.setup(&mut channel);
    assert!(!system.ready(&SendPlayerLevelData {
        channel: &mut other,
        conns: &mut conns,
        level: &level
    }));
    assert!(system.ready(&SendPlayerLevelData {
        channel: &mut channel,
        conns: &mut conns,
        level: &level
    }));
    channel.single_write(PlayerJoin(with_level));
    assert!(system.ready(&SendPlayerLevelData {
        channel: &mut channel,
        conns: &mut conns,
        level: &level
    }));
    channel.single_write(PlayerJoin(without));
    assert!(!system.ready(&SendPlayerLevelData {
        channel: &mut channel,
        conns: &mut conns,
        level: &level
    }));
    level.insert(without, Level(1));
    assert!(system.ready(&SendPlayerLevelData {
        channel: &mut channel,
        conns: &mut conns,
        level: &level
    }));
}

#[test]
fn a_command_waits_for_what_it_overwrites() {
    let mut ents = Entities::new();
    let player = ents.create();
    let mut channel: EventChannel<CommandEvent> = EventChannel::new();
    let mut conns = Connections::new();
    conns.set(ConnectionId(1), Some(player));
    let mut planes = Table::new();
    let mut flags = Table::new();
    let mut isspec = Table::new();
    let mut isdead = Table::new();
    let mut pos = Table::new();
    let mut rot = Table::new();
    let mut vel = Table::new();
    let mut health = Table::new();
    let mut energy = Table::new();
    let mut handler = CommandHandler::new();
    handler.setup(&mut channel);
    channel.iter_write(&vec![
        CommandEvent { conn: ConnectionId(7), command: Command::Respawn(Plane::Goliath) },
        CommandEvent { conn: ConnectionId(1), command: Command::Flag(FlagCode(5)) },
    ]);
    check_ready(
        &handler,
        false,
        &mut channel,
        &mut conns,
        &mut planes,
        &mut flags,
        &mut isspec,
        &mut isdead,
        &mut pos,
        &mut rot,
        &mut vel,
        &mut health,
        &mut energy,
    );
    flags.insert(player, FlagCode(1));
    check_ready(
        &handler,
        true,
        &mut channel,
        &mut conns,
        &mut planes,
        &mut flags,
        &mut isspec,
        &mut isdead,
        &mut pos,
        &mut rot,
        &mut vel,
        &mut health,
        &mut energy,
    );
    channel.single_write(CommandEvent {
        conn: ConnectionId(1),
        command: Command::Respawn(Plane::Goliath),
    });
    check_ready(
        &handler,
        false,
        &mut channel,
        &mut conns,
        &mut planes,
        &mut flags,
        &mut isspec,
        &mut isdead,
        &mut pos,
        &mut rot,
        &mut vel,
        &mut health,
        &mut energy,
    );
    pos.insert(player, Vector2::new(0, 0));
    vel.insert(player, Vector2::new(0, 0));
    rot.insert(player, airmash_server::types::Rotation::zero());
    health.insert(player, 1);
    energy.insert(player, 1);
    planes.insert(player, Plane::Predator);
    check_ready(
        &handler,
        true,
        &mut channel,
        &mut conns,
        &mut planes,
        &mut flags,
        &mut isspec,
        &mut isdead,
        &mut pos,
        &mut rot,
        &mut vel,
        &mut health,
        &mut energy,
    );
}

fn check_ready(
    handler: &CommandHandler,
    expected: bool,
    channel: &mut EventChannel<CommandEvent>,
    conns: &mut Connections,
    planes: &mut Table<Plane>,
    flags: &mut Table<FlagCode>,
    isspec: &mut Table<airmash_server::types::IsSpectating>,
    isdead: &mut Table<airmash_server::types::IsDead>,
    pos: &mut Table<Vector2>,
    rot: &mut Table<airmash_server::types::Rotation>,
    vel: &mut Table<Vector2>,
    health: &mut Table<i32>,
    energy: &mut Table<i32>,
) {
    let data = CommandHandlerData {
        channel,
        conns,
        planes,
        flags,
        isspec,
        isdead,
        pos,
        rot,
        vel,
        health,
        energy,
    };
    assert_eq!(handler.ready(&data), expected);
}

#[test]
fn a_flag_event_can_be_announced_when_all_it_names_is_there() {
    let mut ents = Entities::new();
    let flag = ents.create();
    let player = ents.create();
    let mut channel = OnFlag::new();
    let mut conns = Connections::new();
    let config = CtfConfig::default();
    let mut names: Table<Name> = Table::new();
    let mut teams: Table<Team> = Table::new();
    let mut system = PickupMessageSystem::new();
    system.setup(&mut channel);
    channel.single_write(FlagEvent { ty: FlagEventType::Drop, player: None, flag });
    assert!(system.ready(&PickupMessageSystemData {
        channel: &mut channel,
        conns: &mut conns,
        config: &config,
        names: &names,
        teams: &teams,
    }));
    channel.single_write(FlagEvent { ty: FlagEventType::PickUp, player: Some(player), flag });
    assert!(!system.ready(&PickupMessageSystemData {
        channel: &mut channel,
        conns: &mut conns,
        config: &config,
        names: &names,
        teams: &teams,
    }));
    names.insert(player, Name("p".to_string()));
    teams.insert(flag, Team(3));
    // no team 3 in the configuration
    assert!(!system.ready(&PickupMessageSystemData {
        channel: &mut channel,
        conns: &mut conns,
        config: &config,
        names: &names,
        teams: &teams,
    }));
    teams.insert(flag, Team(2));
    assert!(system.ready(&PickupMessageSystemData {
        channel: &mut channel,
        conns: &mut conns,
        config: &config,
        names: &names,
        teams: &teams,
    }));
    channel.single_write(FlagEvent { ty: FlagEventType::Capture, player: None, flag });
    assert!(!system.ready(&PickupMessageSystemData {
        channel: &mut channel,
        conns: &mut conns,
        config: &config,
        names: &names,
        teams: &teams,
    }));
}

#[test]
fn flags_are_covered_when_they_are_alive() {
    let mut ents = Entities::new();
    let flag = ents.create();
    let mut channel = OnFlag::new();
    let now = ThisFrame(0);
    let requests = Vec::new();
    let is_dead = Table::new();
    let is_spec = Table::new();
    let mut pos = Table::new();
    let mut carrier = Table::new();
    let mut lastdrop = Table::new();
    carrier.insert(flag, FlagCarrier(None));
    lastdrop.insert(flag, LastDrop { player: None, time: 0 });
    assert!(DropFlagSystemData {
        entities: &ents,
        channel: &mut channel,
        thisframe: &now,
        requests: &requests,
        is_dead: &is_dead,
        is_spec: &is_spec,
        pos: &mut pos,
        carrier: &mut carrier,
        lastdrop: &mut lastdrop,
    }
    .is_covered());
    ents.destroy(flag);
    assert!(!DropFlagSystemData {
        entities: &ents,
        channel: &mut channel,
        thisframe: &now,
        requests: &requests,
        is_dead: &is_dead,
        is_spec: &is_spec,
        pos: &mut pos,
        carrier: &mut carrier,
        lastdrop: &mut lastdrop,
    }
    .is_covered());
}
