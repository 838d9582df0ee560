use airmash_server::config::{Config, MissileInfo};
use airmash_server::entity::{Entities, Entity};
use airmash_server::protocol::{Connections, PlayerFireProjectile, Recipients, ServerPacket};
use airmash_server::storage::Table;
use airmash_server::systems::missile::fire::{
    launch, Launch, MissileFireHandler, MissileFireHandlerData, Shot,
};
use airmash_server::types::{
    Energy, IsDead, IsMissile, IsSpectating, KeyState, LastShotTime, Mob, MobSpawnTime, Plane, PlayerRef, Position,
    Rotation, StartTime, Team, ThisFrame, Vector2, Velocity, SCALE,
};

struct Range {
    ents: Entities,
    pos: Table<Position>,
    vel: Table<Velocity>,
    rot: Table<Rotation>,
    plane: Table<Plane>,
    teams: Table<Team>,
    keystate: Table<KeyState>,
    energy: Table<Energy>,
    config: Config,
    flags: Table<IsMissile>,
    mobs: Table<Mob>,
    owner: Table<PlayerRef>,
    conns: Connections,
    starttime: StartTime,
    thisframe: ThisFrame,
    spawntime: Table<MobSpawnTime>,
    lastshot: Table<LastShotTime>,
    is_dead: Table<IsDead>,
    is_spec: Table<IsSpectating>,
}

fn keys(fire: bool) -> KeyState {
    KeyState { up: false, down: false, left: false, right: false, fire, special: false }
}

impl Range {
    fn new(now: u64) -> Range {
        Range {
            ents: Entities::new(),
            pos: Table::new(),
            vel: Table::new(),
            rot: Table::new(),
            plane: Table::new(),
            teams: Table::new(),
            keystate: Table::new(),
            energy: Table::new(),
            config: Config::default(),
            flags: Table::new(),
            mobs: Table::new(),
            owner: Table::new(),
            conns: Connections::new(),
            starttime: StartTime(500),
            thisframe: ThisFrame(now),
            spawntime: Table::new(),
            lastshot: Table::new(),
            is_dead: Table::new(),
            is_spec: Table::new(),
        }
    }

    fn player(&mut self, plane: Plane, energy: i32, fire: bool, lastshot: u64) -> Entity {
        let e = self.ents.create();
        self.pos.insert(e, Vector2::new(1_000_000, 2_000_000));
        self.vel.insert(e, Vector2::new(0, -30_000));
        self.rot.insert(e, Rotation::zero());
        self.plane.insert(e, plane);
        self.teams.insert(e, Team(2));
        self.keystate.insert(e, keys(fire));
        self.energy.insert(e, energy);
        self.lastshot.insert(e, LastShotTime(lastshot));
        e
    }

    fn run(&mut self) -> Vec<Shot> {
        MissileFireHandler::new().run(MissileFireHandlerData {
            ents: &mut self.ents,
            pos: &mut self.pos,
            vel: &mut self.vel,
            rot: &self.rot,
            plane: &self.plane,
            teams: &mut self.teams,
            keystate: &self.keystate,
            energy: &mut self.energy,
            config: &self.config,
            flags: &mut self.flags,
            mobs: &mut self.mobs,
            owner: &mut self.owner,
            conns: &mut self.conns,
            starttime: &self.starttime,
            thisframe: &self.thisframe,
            spawntime: &mut self.spawntime,
            lastshot: &mut self.lastshot,
            is_dead: &self.is_dead,
            is_spec: &self.is_spec,
        })
    }
}

#[test]
fn a_predator_fires_along_its_nose() {
    let mut range = Range::new(1_500);
    let shooter = range.player(Plane::Predator, 10_000, true, 0);
    let fired = range.run();
    assert_eq!(fired.len(), 1);
    let shot = fired[0];
    assert_eq!(shot.owner, shooter);
    assert_ne!(shot.missile, shooter);
    assert_eq!(shot.ty, Mob::PredatorMissile);
    assert_eq!(shot.team, Team(2));
    // the nose points up: 25 ahead, base speed 4.05 plus 0.3 of the 3.0 forward
    assert_eq!(shot.launch.pos, Vector2::new(1_000_000, 1_750_000));
    assert_eq!(shot.launch.vel, Vector2::new(0, -49_500));
    assert_eq!(shot.launch.accel, Vector2::new(0, -1_050));
    assert_eq!(shot.max_speed, 90_000);
    assert_eq!(shot.energy, 4_000);
    assert_eq!(shot.energy_regen, 80);

    assert!(range.ents.is_live(shot.missile));
    assert_eq!(range.pos.get(shot.missile), Some(&Vector2::new(1_000_000, 1_750_000)));
    assert_eq!(range.vel.get(shot.missile), Some(&Vector2::new(0, -49_500)));
    assert_eq!(range.mobs.get(shot.missile), Some(&Mob::PredatorMissile));
    assert_eq!(range.flags.get(shot.missile), Some(&IsMissile));
    assert_eq!(range.teams.get(shot.missile), Some(&Team(2)));
    assert_eq!(range.owner.get(shot.missile), Some(&PlayerRef(shooter)));
    assert_eq!(range.spawntime.get(shot.missile), Some(&MobSpawnTime(1_500)));
    assert_eq!(range.energy.get(shooter), Some(&4_000));
    assert_eq!(range.lastshot.get(shooter), Some(&LastShotTime(1_500)));
    assert_eq!(range.pos.get(shooter), Some(&Vector2::new(1_000_000, 2_000_000)));

    let sent = range.conns.drain();
    assert_eq!(sent.len(), 1);
    assert_eq!(sent[0].to, Recipients::All);
    match &sent[0].packet {
        ServerPacket::PlayerFire(fire) => {
            // one second after the start, in hundredths of a millisecond
            assert_eq!(fire.clock, 100_000);
            assert_eq!(fire.id, shooter);
            assert_eq!(fire.energy, 4_000);
            assert_eq!(fire.energy_regen, 80);
            assert_eq!(
                fire.projectiles,
                vec![PlayerFireProjectile {
                    id: shot.missile,
                    ty: Mob::PredatorMissile,
                    pos: Vector2::new(1_000_000, 1_750_000),
                    speed: Vector2::new(0, -49_500),
                    accel: Vector2::new(0, -1_050),
                    max_speed: 90_000,
                }]
            );
        }
        _ => panic!("a shot is announced by a fire packet"),
    }
}

#[test]
fn nobody_fires_without_the_key_the_energy_or_the_delay() {
    let mut range = Range::new(1_500);
    let no_key = range.player(Plane::Predator, 10_000, false, 0);
    let no_energy = range.player(Plane::Predator, 5_999, true, 0);
    let too_soon = range.player(Plane::Predator, 10_000, true, 1_001);
    assert!(range.run().is_empty());
    assert_eq!(range.energy.get(no_key), Some(&10_000));
    assert_eq!(range.energy.get(no_energy), Some(&5_999));
    assert_eq!(range.lastshot.get(too_soon), Some(&LastShotTime(1_001)));
    assert!(range.conns.drain().is_empty());
    assert!(range.flags.entities().is_empty());
}

#[test]
fn the_dead_and_those_who_watch_do_not_fire() {
    let mut range = Range::new(1_500);
    let dead = range.player(Plane::Predator, 10_000, true, 0);
    let watching = range.player(Plane::Predator, 10_000, true, 0);
    let flying = range.player(Plane::Predator, 10_000, true, 0);
    range.is_dead.insert(dead, IsDead);
    range.is_spec.insert(watching, IsSpectating);
    let fired = range.run();
    assert_eq!(fired.len(), 1);
    assert_eq!(fired[0].owner, flying);
    assert_eq!(range.energy.get(dead), Some(&10_000));
    assert_eq!(range.energy.get(watching), Some(&10_000));
    assert_eq!(range.lastshot.get(dead), Some(&LastShotTime(0)));
    assert_eq!(range.lastshot.get(watching), Some(&LastShotTime(0)));
    assert_eq!(range.energy.get(flying), Some(&4_000));
    assert_eq!(range.conns.drain().len(), 1);
    assert_eq!(range.flags.entities(), vec![fired[0].missile]);

    // back in play, they fire
    range.thisframe = ThisFrame(2_500);
    range.is_dead.remove(dead);
    range.is_spec.remove(watching);
    let fired = range.run();
    assert_eq!(fired.len(), 2);
    assert_eq!(fired[0].owner, dead);
    assert_eq!(fired[1].owner, watching);
}

#[test]
fn firing_takes_exactly_the_energy_and_the_delay() {
    let mut range = Range::new(1_500);
    let just_enough = range.player(Plane::Predator, 6_000, true, 0);
    let just_in_time = range.player(Plane::Predator, 10_000, true, 1_000);
    let fired = range.run();
    assert_eq!(fired.len(), 2);
    assert_eq!(fired[0].owner, just_enough);
    assert_eq!(fired[1].owner, just_in_time);
    assert_eq!(fired[0].energy, 0);
    assert_ne!(fired[0].missile, fired[1].missile);
    assert_eq!(range.energy.get(just_enough), Some(&0));
    assert_eq!(range.energy.get(just_in_time), Some(&4_000));
    assert_eq!(range.conns.drain().len(), 2);
}

#[test]
fn each_plane_fires_its_own_missile() {
    let mut range = Range::new(10_000);
    let goliath = range.player(Plane::Goliath, 10_000, true, 0);
    let mohawk = range.player(Plane::Mohawk, 10_000, true, 0);
    let fired = range.run();
    assert_eq!(fired.len(), 2);
    assert_eq!((fired[0].owner, fired[0].ty), (goliath, Mob::GoliathMissile));
    assert_eq!((fired[1].owner, fired[1].ty), (mohawk, Mob::MohawkMissile));
    assert_eq!(fired[0].energy, 1_000);
    assert_eq!(fired[1].energy, 7_000);
    // base speed 2.1 plus 0.3 of 3.0; the Goliath fires from 35 ahead
    assert_eq!(fired[0].launch.vel, Vector2::new(0, -30_000));
    assert_eq!(fired[0].launch.pos, Vector2::new(1_000_000, 1_650_000));
    // the Mohawk fires from its centre
    assert_eq!(fired[1].launch.pos, Vector2::new(1_000_000, 2_000_000));
    assert_eq!(fired[1].launch.vel, Vector2::new(0, -66_000));
}

#[test]
fn a_player_who_lacks_a_component_does_not_fire() {
    let mut range = Range::new(10_000);
    let e = range.player(Plane::Predator, 10_000, true, 0);
    range.vel.remove(e);
    assert!(range.run().is_empty());
}

fn predator_missile() -> MissileInfo {
    MissileInfo {
        max_speed: 90_000,
        accel: 1_050,
        base_speed: 40_500,
        speed_factor: 3_000,
        damage: 4_000,
    }
}

#[test]
fn a_missile_gains_nothing_from_flying_backwards() {
    let m = predator_missile();
    let at = Vector2::new(0, 0);
    // nose up, moving down
    let backwards = launch(250_000, &m, at, Vector2::new(0, 30_000), Rotation::zero());
    assert_eq!(
        backwards,
        Launch {
            pos: Vector2::new(0, -250_000),
            vel: Vector2::new(0, -40_500),
            accel: Vector2::new(0, -1_050),
        }
    );
    // nose to the right (a quarter turn), moving right at 2.0
    let right = launch(250_000, &m, at, Vector2::new(20_000, 0), Rotation { sin: SCALE, cos: 0 });
    assert_eq!(
        right,
        Launch {
            pos: Vector2::new(250_000, 0),
            vel: Vector2::new(46_500, 0),
            accel: Vector2::new(1_050, 0),
        }
    );
}

#[test]
fn a_launch_rounds_toward_zero_and_saturates() {
    let m = predator_missile();
    // sin = cos = 0.7071
    let diagonal = Rotation { sin: 7_071, cos: 7_071 };
    let l = launch(250_000, &m, Vector2::new(0, 0), Vector2::new(0, 0), diagonal);
    assert_eq!(l.vel, Vector2::new(28_637, -28_637));
    assert_eq!(l.accel, Vector2::new(742, -742));
    assert_eq!(l.pos, Vector2::new(176_775, -176_775));
    let huge = MissileInfo { base_speed: i32::MAX, ..m };
    let far = launch(
        i32::MAX,
        &huge,
        Vector2::new(i32::MAX, i32::MIN),
        Vector2::new(0, 0),
        Rotation { sin: i32::MAX, cos: i32::MAX },
    );
    assert_eq!(far.pos, Vector2::new(i32::MAX, i32::MIN));
    assert_eq!(far.vel, Vector2::new(i32::MAX, i32::MIN));
}
