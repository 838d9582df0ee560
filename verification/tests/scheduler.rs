use airmash_server::ctf::systems::captureflag::CaptureFlagSystem;
use airmash_server::ctf::systems::dropflag::DropFlagSystem;
use airmash_server::ctf::systems::flag_message::PickupMessageSystem;
use airmash_server::ctf::systems::pickupflag::PickupFlagSystem;
use airmash_server::handlers::command::CommandHandler;
use airmash_server::systems::collision::player_missile::PlayerMissileCollisionSystem;
use airmash_server::systems::missile::fire::MissileFireHandler;
use airmash_server::systems::handlers::game::on_join::send_login::SendLogin;
use airmash_server::dispatch::{conflict, BuildError, Builder, Resource, Schedule, SystemDecl};
use airmash_server::systems::handlers::game::register::register;

fn waves_of(schedule: &Schedule) -> Vec<Vec<usize>> {
    let mut out = Vec::new();
    for k in 0..schedule.len() {
        out.push(schedule.wave(k).clone());
    }
    out
}

fn build(decls: Vec<SystemDecl>) -> Result<Schedule, BuildError> {
    let mut builder = Builder::new();
    for d in decls {
        builder = builder.with(d);
    }
    builder.build()
}

#[test]
fn a_system_runs_after_its_predecessors() {
    let schedule = build(vec![
        SystemDecl::new("c").after("b"),
        SystemDecl::new("b").after("a"),
        SystemDecl::new("a"),
        SystemDecl::new("d").after("a").after("c"),
    ])
    .unwrap();
    assert_eq!(waves_of(&schedule), vec![vec![2], vec![1], vec![0], vec![3]]);
    assert_eq!(schedule.wave_index(2), 0);
    assert_eq!(schedule.wave_index(1), 1);
    assert_eq!(schedule.wave_index(0), 2);
    assert_eq!(schedule.wave_index(3), 3);
}

#[test]
fn independent_systems_share_a_wave() {
    let schedule = build(vec![
        SystemDecl::new("a").reading(Resource::Position),
        SystemDecl::new("b").reading(Resource::Position).writing(Resource::Velocity),
        SystemDecl::new("c").writing(Resource::Team),
    ])
    .unwrap();
    assert_eq!(waves_of(&schedule), vec![vec![0, 1, 2]]);
}

#[test]
fn conflicting_systems_run_in_the_order_of_registration() {
    let schedule = build(vec![
        SystemDecl::new("writer").writing(Resource::Position),
        SystemDecl::new("reader").reading(Resource::Position),
        SystemDecl::new("other").writing(Resource::Position),
        SystemDecl::new("free").reading(Resource::Team),
    ])
    .unwrap();
    assert_eq!(waves_of(&schedule), vec![vec![0, 3], vec![1], vec![2]]);
}

#[test]
fn a_cycle_is_rejected_when_the_schedule_is_built() {
    let r = build(vec![
        SystemDecl::new("a").after("c"),
        SystemDecl::new("b").after("a"),
        SystemDecl::new("c").after("b"),
        SystemDecl::new("d"),
    ]);
    assert!(matches!(r, Err(BuildError::Cycle)));
}

#[test]
fn a_system_that_depends_on_itself_is_a_cycle() {
    let r = build(vec![SystemDecl::new("a").after("a")]);
    assert!(matches!(r, Err(BuildError::Cycle)));
}

#[test]
fn a_duplicate_name_is_rejected() {
    let r = build(vec![SystemDecl::new("a"), SystemDecl::new("b"), SystemDecl::new("a")]);
    assert!(matches!(r, Err(BuildError::DuplicateName(2))));
}

#[test]
fn an_unknown_dependency_is_rejected() {
    let r = build(vec![SystemDecl::new("a"), SystemDecl::new("b").after("a").after("nobody")]);
    assert!(matches!(r, Err(BuildError::UnknownDependency { system: 1, dependency: 1 })));
}

#[test]
fn no_systems_have_no_waves() {
    let schedule = build(Vec::new()).unwrap();
    assert_eq!(schedule.len(), 0);
    let mut tick = schedule.begin();
    assert!(schedule.next_wave(&mut tick).is_none());
}

#[test]
fn the_same_declarations_give_the_same_schedule() {
    let decls = || {
        vec![
            SystemDecl::new("a").writing(Resource::Position),
            SystemDecl::new("b").writing(Resource::Position).after("d"),
            SystemDecl::new("c").reading(Resource::Position),
            SystemDecl::new("d").reading(Resource::Velocity),
            SystemDecl::new("e").writing(Resource::Velocity).after("a"),
        ]
    };
    let first = waves_of(&build(decls()).unwrap());
    let second = waves_of(&build(decls()).unwrap());
    assert_eq!(first, second);
    assert_eq!(first, vec![vec![0, 3], vec![1, 4], vec![2]]);
}

#[test]
fn conflicts_are_between_a_writer_and_any_other_user() {
    let w = SystemDecl::new("w").writing(Resource::Position);
    let r = SystemDecl::new("r").reading(Resource::Position);
    let r2 = SystemDecl::new("r2").reading(Resource::Position);
    let o = SystemDecl::new("o").writing(Resource::Other(3)).reading(Resource::Other(4));
    let o2 = SystemDecl::new("o2").writing(Resource::Other(4));
    assert!(conflict(&w, &r));
    assert!(conflict(&r, &w));
    assert!(conflict(&w, &w));
    assert!(!conflict(&r, &r2));
    assert!(!conflict(&w, &o));
    assert!(conflict(&o, &o2));
}

#[test]
fn the_waves_of_a_tick_are_handed_out_in_order() {
    let schedule = build(vec![SystemDecl::new("a"), SystemDecl::new("b").after("a")]).unwrap();
    let mut tick = schedule.begin();
    assert_eq!(schedule.next_wave(&mut tick), Some(&vec![0]));
    assert_eq!(schedule.next_wave(&mut tick), Some(&vec![1]));
    assert_eq!(schedule.next_wave(&mut tick), None);
    assert_eq!(schedule.next_wave(&mut tick), None);
    let mut again = schedule.begin();
    assert_eq!(schedule.next_wave(&mut again), Some(&vec![0]));
}

// Runs the waves of a schedule while counting, for every resource, who holds
// it: no wave may have a writer of a resource beside another holder, and no
// system may start before its predecessors are done.
#[test]
fn no_wave_lets_two_systems_at_the_same_data() {
    let names = ["move", "collide", "fire", "score", "flags", "messages", "cleanup"];
    let deps: Vec<Vec<usize>> =
        vec![vec![], vec![0], vec![0], vec![1], vec![0], vec![4, 3], vec![1, 2]];
    let reads: Vec<Vec<Resource>> = vec![
        vec![Resource::Velocity],
        vec![Resource::Position, Resource::Team],
        vec![Resource::Rotation, Resource::KeyState],
        vec![Resource::OnPlayerMissileCollision],
        vec![Resource::Position, Resource::Team],
        vec![Resource::Name],
        vec![Resource::Mob],
    ];
    let writes: Vec<Vec<Resource>> = vec![
        vec![Resource::Position],
        vec![Resource::OnPlayerMissileCollision],
        vec![Resource::Position, Resource::Energy, Resource::Entities],
        vec![Resource::Score],
        vec![Resource::FlagCarrier, Resource::OnFlag],
        vec![Resource::OnFlag, Resource::Connections],
        vec![Resource::Entities, Resource::Position],
    ];
    let mut decls = Vec::new();
    for s in 0..names.len() {
        let mut d = SystemDecl::new(names[s]);
        for p in &deps[s] {
            d = d.after(names[*p]);
        }
        for r in &reads[s] {
            d = d.reading(*r);
        }
        for w in &writes[s] {
            d = d.writing(*w);
        }
        decls.push(d);
    }
    let schedule = build(decls).unwrap();
    let mut done = vec![false; names.len()];
    let mut ran = 0;
    let mut tick = schedule.begin();
    while let Some(wave) = schedule.next_wave(&mut tick) {
        let mut writers: Vec<(Resource, usize)> = Vec::new();
        let mut readers: Vec<(Resource, usize)> = Vec::new();
        for s in wave {
            for p in &deps[*s] {
                assert!(done[*p], "{} started before {}", names[*s], names[*p]);
            }
            for w in &writes[*s] {
                assert!(writers.iter().all(|(r, _)| r != w));
                assert!(readers.iter().all(|(r, _)| r != w));
                writers.push((*w, *s));
            }
            for r in &reads[*s] {
                assert!(writers.iter().all(|(w, o)| w != r || o == s));
                readers.push((*r, *s));
            }
        }
        for s in wave {
            assert!(!done[*s]);
            done[*s] = true;
            ran += 1;
        }
    }
    assert_eq!(ran, names.len());
    assert!(done.iter().all(|d| *d));
}

#[test]
fn the_handlers_register_in_their_order() {
    let builder = register(Builder::new().with(SystemDecl::new("before")));
    assert_eq!(builder.len(), 19);
    // the kill packet waits for a system that is registered elsewhere
    assert!(matches!(
        builder.build(),
        Err(BuildError::UnknownDependency { system: 3, dependency: 0 })
    ));
    assert_eq!(register(Builder::new()).len(), 18);
}

#[test]
fn the_handlers_are_scheduled_once_what_they_wait_for_is_there() {
    let builder = Builder::new().with(SystemDecl::new("systems::spectate::CommandHandler"));
    let schedule = register(builder).build().unwrap();
    // 3: kill packet; 16, 17, 18: login, level and score, which share the
    // message queue with it; the rest wait for nothing and touch nothing
    assert_eq!(
        waves_of(&schedule),
        vec![
            vec![0, 1, 2, 4, 5, 6, 7, 8, 9, 10, 11, 12, 13, 14, 15],
            vec![3],
            vec![16],
            vec![17],
            vec![18],
        ]
    );
    // the traits of a newcomer are set before the login is sent, and the
    // login before the level and the score line
    assert!(schedule.wave_index(13) < schedule.wave_index(16));
    assert!(schedule.wave_index(16) < schedule.wave_index(17));
    assert!(schedule.wave_index(17) < schedule.wave_index(18));
    assert!(schedule.wave_index(10) < schedule.wave_index(18));
    assert!(schedule.wave_index(12) < schedule.wave_index(18));
}

#[test]
fn registering_the_handlers_twice_is_refused() {
    let twice = register(register(Builder::new()));
    assert_eq!(twice.len(), 36);
    assert!(matches!(twice.build(), Err(BuildError::DuplicateName(18))));
}

#[test]
fn the_systems_of_the_game_can_be_scheduled() {
    let mut builder = Builder::new();
    for name in [
        "systems::PositionUpdate",
        "handlers::OnCloseHandler",
        "systems::spectate::CommandHandler",
        "ctf::systems::LoginUpdateSystem",
        "ctf::systems::ReturnFlagSystem",
    ] {
        builder = builder.with(SystemDecl::new(name));
    }
    builder = builder
        .with(CommandHandler::decl())
        .with(MissileFireHandler::decl())
        .with(PlayerMissileCollisionSystem::decl());
    builder = register(builder)
        .with(DropFlagSystem::decl())
        .with(CaptureFlagSystem::decl())
        .with(PickupFlagSystem::decl())
        .with(PickupMessageSystem::decl());
    assert_eq!(builder.len(), 30);
    let schedule = builder.build().unwrap();
    let wave = |s: usize| schedule.wave_index(s);
    // those that wait for nothing and touch nothing run first
    for s in 0..5 {
        assert_eq!(wave(s), 0);
    }
    // 5: commands, 6: firing, 7: collisions. The commands write positions
    // and so does firing: one after the other; collisions read them
    assert_eq!(wave(5), 1);
    assert_eq!(wave(6), 2);
    assert_eq!(wave(7), 3);
    // 10: kill packet, 23: login, 24: level, 25: score. The senders share the
    // message queue with firing and with each other
    assert!(wave(10) > 0 && wave(10) != wave(6) && wave(10) != wave(5));
    assert!(wave(20) < wave(23));
    assert!(wave(23) < wave(24) && wave(24) < wave(25));
    // 26: drop, 27: capture, 28: pickup, 29: messages. A flag is dropped
    // before it is captured, and taken before it is talked of
    assert!(wave(26) < wave(27));
    assert!(wave(28) < wave(29));
    assert!(wave(28) != wave(26) && wave(28) != wave(27));
    let mut seen = vec![false; 30];
    for k in 0..schedule.len() {
        for s in schedule.wave(k) {
            assert!(!seen[*s]);
            seen[*s] = true;
            assert_eq!(schedule.wave_index(*s), k);
        }
    }
    assert!(seen.iter().all(|s| *s));
}

#[test]
fn a_declaration_lists_what_it_was_given() {
    let d = SystemDecl::new("x").after("a").after("b").reading(Resource::Team).writing(Resource::Mob);
    assert_eq!(d.name, "x");
    assert_eq!(d.dependencies, vec!["a".to_string(), "b".to_string()]);
    assert_eq!(d.reads, vec![Resource::Team]);
    assert_eq!(d.writes, vec![Resource::Mob]);
    let login = SendLogin::decl();
    assert_eq!(login.name, "systems::handlers::game::on_join::SendLogin");
    assert_eq!(login.dependencies, vec!["systems::handlers::game::on_join::InitTraits".to_string()]);
    assert_eq!(login.writes, vec![Resource::OnPlayerJoin, Resource::Connections]);
    assert_eq!(login.reads.len(), 13);
    let fire = MissileFireHandler::decl();
    assert!(fire.reads.contains(&Resource::IsDead));
    assert!(fire.reads.contains(&Resource::IsSpectating));
    assert!(fire.reads.contains(&Resource::KeyState));
    assert!(fire.writes.contains(&Resource::Energy));
}
