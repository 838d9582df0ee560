use airmash_server::ctf::component::{
    state_of, FlagCarrier, FlagEvent, FlagEventType, FlagState, GameScores, IsFlag, LastDrop,
    OnFlag,
};
use airmash_server::ctf::config::CtfConfig;
use airmash_server::ctf::systems::captureflag::{CaptureFlagSystem, CaptureFlagSystemData};
use airmash_server::ctf::systems::dropflag::{DropFlagSystem, DropFlagSystemData};
use airmash_server::ctf::systems::pickupflag::{PickupFlagSystem, PickupFlagSystemData};
use airmash_server::entity::{Entities, Entity};
use airmash_server::storage::Table;
use airmash_server::types::{
    IsDead, IsPlayer, IsSpectating, Plane, Position, Team, ThisFrame, Vector2,
};

const BLUE: u16 = 1;
const RED: u16 = 2;
const BLUE_BASE: Vector2 = Vector2 { x: -96_700_000, y: -14_700_000 };
const RED_BASE: Vector2 = Vector2 { x: 86_000_000, y: -9_400_000 };

struct Game {
    config: CtfConfig,
    entities: Entities,
    channel: OnFlag,
    now: ThisFrame,
    scores: GameScores,
    requests: Vec<Entity>,
    plane: Table<Plane>,
    is_player: Table<IsPlayer>,
    is_spec: Table<IsSpectating>,
    is_dead: Table<IsDead>,
    pos: Table<Position>,
    team: Table<Team>,
    is_flag: Table<IsFlag>,
    carrier: Table<FlagCarrier>,
    lastdrop: Table<LastDrop>,
}

impl Game {
    fn new(now: u64) -> Game {
        Game {
            config: CtfConfig::default(),
            entities: Entities::new(),
            channel: OnFlag::new(),
            now: ThisFrame(now),
            scores: GameScores::new(),
            requests: Vec::new(),
            plane: Table::new(),
            is_player: Table::new(),
            is_spec: Table::new(),
            is_dead: Table::new(),
            pos: Table::new(),
            team: Table::new(),
            is_flag: Table::new(),
            carrier: Table::new(),
            lastdrop: Table::new(),
        }
    }

    fn flag(&mut self, team: u16, at: Vector2) -> Entity {
        let e = self.entities.create();
        self.pos.insert(e, at);
        self.team.insert(e, Team(team));
        self.is_flag.insert(e, IsFlag);
        self.carrier.insert(e, FlagCarrier(None));
        self.lastdrop.insert(e, LastDrop { player: None, time: 0 });
        e
    }

    fn player(&mut self, team: u16, at: Vector2) -> Entity {
        let e = self.entities.create();
        self.pos.insert(e, at);
        self.team.insert(e, Team(team));
        self.plane.insert(e, Plane::Predator);
        self.is_player.insert(e, IsPlayer);
        e
    }

    fn pickup(&mut self) {
        PickupFlagSystem::new().run(PickupFlagSystemData {
            config: &self.config,
            entities: &self.entities,
            channel: &mut self.channel,
            thisframe: &self.now,
            plane: &self.plane,
            is_player: &self.is_player,
            is_spec: &self.is_spec,
            is_dead: &self.is_dead,
            pos: &self.pos,
            team: &self.team,
            is_flag: &self.is_flag,
            carrier: &mut self.carrier,
            lastdrop: &self.lastdrop,
        });
    }

    fn drop_flags(&mut self) -> Vec<Entity> {
        DropFlagSystem::new().run(DropFlagSystemData {
            entities: &self.entities,
            channel: &mut self.channel,
            thisframe: &self.now,
            requests: &self.requests,
            is_dead: &self.is_dead,
            is_spec: &self.is_spec,
            pos: &mut self.pos,
            carrier: &mut self.carrier,
            lastdrop: &mut self.lastdrop,
        })
    }

    fn capture(&mut self) -> Vec<Entity> {
        CaptureFlagSystem::new().run(CaptureFlagSystemData {
            config: &self.config,
            channel: &mut self.channel,
            scores: &mut self.scores,
            team: &self.team,
            is_flag: &self.is_flag,
            pos: &mut self.pos,
            carrier: &mut self.carrier,
        })
    }

    fn carrier_of(&self, flag: Entity) -> Option<Entity> {
        self.carrier.get(flag).unwrap().0
    }
}

fn off(base: Vector2, dx: i32, dy: i32) -> Vector2 {
    Vector2 { x: base.x + dx, y: base.y + dy }
}

#[test]
fn an_enemy_in_reach_of_a_flag_at_its_base_takes_it() {
    let mut game = Game::new(10_000);
    let reader = game.channel.register_reader();
    let flag = game.flag(BLUE, BLUE_BASE);
    let enemy = game.player(RED, off(BLUE_BASE, 500_000, 0));
    assert_eq!(
        state_of(FlagCarrier(None), BLUE_BASE, LastDrop { player: None, time: 0 }, BLUE_BASE),
        FlagState::AtBase
    );
    game.pickup();
    assert_eq!(game.carrier_of(flag), Some(enemy));
    assert_eq!(
        game.channel.read(&reader),
        vec![FlagEvent { ty: FlagEventType::PickUp, player: Some(enemy), flag }]
    );
    assert_eq!(
        state_of(
            *game.carrier.get(flag).unwrap(),
            BLUE_BASE,
            *game.lastdrop.get(flag).unwrap(),
            BLUE_BASE
        ),
        FlagState::Carried(enemy)
    );
}

#[test]
fn the_reach_ends_at_the_pickup_radius() {
    let mut inside = Game::new(10_000);
    let flag = inside.flag(BLUE, BLUE_BASE);
    let at_edge = inside.player(RED, off(BLUE_BASE, 1_000_000, 0));
    inside.pickup();
    assert_eq!(inside.carrier_of(flag), Some(at_edge));

    let mut outside = Game::new(10_000);
    let reader = outside.channel.register_reader();
    let flag = outside.flag(BLUE, BLUE_BASE);
    let _ = outside.player(RED, off(BLUE_BASE, 1_000_001, 0));
    outside.pickup();
    assert_eq!(outside.carrier_of(flag), None);
    assert!(outside.channel.read(&reader).is_empty());
}

#[test]
fn a_team_mate_leaves_the_flag_at_its_base_alone() {
    let mut game = Game::new(10_000);
    let reader = game.channel.register_reader();
    let flag = game.flag(BLUE, BLUE_BASE);
    let _ = game.player(BLUE, BLUE_BASE);
    game.pickup();
    assert_eq!(game.carrier_of(flag), None);
    assert!(game.channel.read(&reader).is_empty());
}

#[test]
fn a_team_mate_who_touches_the_flag_away_from_home_returns_it() {
    let mut game = Game::new(10_000);
    let reader = game.channel.register_reader();
    let away = Vector2::new(0, 0);
    let flag = game.flag(BLUE, away);
    let mate = game.player(BLUE, Vector2::new(100_000, 0));
    game.pickup();
    assert_eq!(game.carrier_of(flag), Some(mate));
    assert_eq!(
        game.channel.read(&reader),
        vec![FlagEvent { ty: FlagEventType::Return, player: Some(mate), flag }]
    );
}

#[test]
fn a_carried_flag_is_not_taken() {
    let mut game = Game::new(10_000);
    let reader = game.channel.register_reader();
    let flag = game.flag(BLUE, BLUE_BASE);
    let first = game.player(RED, BLUE_BASE);
    let _second = game.player(RED, BLUE_BASE);
    game.carrier.insert(flag, FlagCarrier(Some(first)));
    game.pickup();
    assert_eq!(game.carrier_of(flag), Some(first));
    assert!(game.channel.read(&reader).is_empty());
}

#[test]
fn players_out_of_play_take_no_flag() {
    let mut game = Game::new(10_000);
    let flag = game.flag(BLUE, BLUE_BASE);
    let watching = game.player(RED, BLUE_BASE);
    let dead = game.player(RED, BLUE_BASE);
    game.is_spec.insert(watching, IsSpectating);
    game.is_dead.insert(dead, IsDead);
    game.pickup();
    assert_eq!(game.carrier_of(flag), None);
    let fit = game.player(RED, BLUE_BASE);
    game.pickup();
    assert_eq!(game.carrier_of(flag), Some(fit));
}

#[test]
fn the_nearest_player_takes_the_flag() {
    let mut game = Game::new(10_000);
    let flag = game.flag(BLUE, BLUE_BASE);
    let _far = game.player(RED, off(BLUE_BASE, 900_000, 0));
    let near = game.player(RED, off(BLUE_BASE, 0, -300_000));
    let _middle = game.player(RED, off(BLUE_BASE, 600_000, 0));
    game.pickup();
    assert_eq!(game.carrier_of(flag), Some(near));
}

#[test]
fn of_two_equally_near_players_the_one_in_the_lower_slot_takes_the_flag() {
    let mut game = Game::new(10_000);
    let flag = game.flag(BLUE, BLUE_BASE);
    let first = game.player(RED, off(BLUE_BASE, 300_000, 0));
    let _second = game.player(RED, off(BLUE_BASE, -300_000, 0));
    let _third = game.player(RED, off(BLUE_BASE, 0, 300_000));
    game.pickup();
    assert_eq!(game.carrier_of(flag), Some(first));
}

#[test]
fn the_dropper_waits_out_the_cooldown() {
    let dropped_at = 10_000;
    for (now, taken) in
        [(10_000, false), (14_999, false), (15_000, false), (15_001, true), (60_000, true)]
    {
        let mut game = Game::new(now);
        let flag = game.flag(BLUE, Vector2::new(0, 0));
        let dropper = game.player(RED, Vector2::new(0, 0));
        game.lastdrop.insert(flag, LastDrop { player: Some(dropper), time: dropped_at });
        game.pickup();
        assert_eq!(game.carrier_of(flag), if taken { Some(dropper) } else { None }, "at {}", now);
    }
}

#[test]
fn another_player_takes_a_dropped_flag_at_once() {
    for now in [10_000, 10_001, 14_999, 15_000, 15_001] {
        let mut game = Game::new(now);
        let flag = game.flag(BLUE, Vector2::new(0, 0));
        let dropper = game.player(RED, Vector2::new(0, 0));
        let other = game.player(RED, Vector2::new(500_000, 0));
        game.lastdrop.insert(flag, LastDrop { player: Some(dropper), time: 10_000 });
        game.pickup();
        if now > 15_000 {
            // the dropper is nearer and may take it again
            assert_eq!(game.carrier_of(flag), Some(dropper));
        } else {
            assert_eq!(game.carrier_of(flag), Some(other));
        }
    }
}

#[test]
fn a_flag_that_nobody_dropped_is_kept_from_no_one() {
    let mut fresh = Game::new(0);
    let flag = fresh.flag(BLUE, BLUE_BASE);
    let enemy = fresh.player(RED, BLUE_BASE);
    fresh.pickup();
    assert_eq!(fresh.carrier_of(flag), Some(enemy));

    let mut unrecorded = Game::new(3);
    let flag = unrecorded.flag(BLUE, BLUE_BASE);
    unrecorded.lastdrop.remove(flag);
    let enemy = unrecorded.player(RED, BLUE_BASE);
    unrecorded.pickup();
    assert_eq!(unrecorded.carrier_of(flag), Some(enemy));
}

#[test]
fn no_player_carries_two_flags() {
    let mut game = Game::new(10_000);
    let reader = game.channel.register_reader();
    let spot = Vector2::new(0, 0);
    let first = game.flag(BLUE, spot);
    let second = game.flag(3, spot);
    let near = game.player(RED, spot);
    let far = game.player(RED, Vector2::new(900_000, 0));
    game.pickup();
    assert_eq!(game.carrier_of(first), Some(near));
    assert_eq!(game.carrier_of(second), Some(far));
    assert_eq!(
        game.channel.read(&reader),
        vec![
            FlagEvent { ty: FlagEventType::PickUp, player: Some(near), flag: first },
            FlagEvent { ty: FlagEventType::PickUp, player: Some(far), flag: second },
        ]
    );
    let third = game.flag(4, spot);
    game.pickup();
    assert_eq!(game.carrier_of(third), None);
}

#[test]
fn a_carrier_who_reaches_the_own_base_captures_the_flag() {
    let mut game = Game::new(10_000);
    let reader = game.channel.register_reader();
    let blue_flag = game.flag(BLUE, off(RED_BASE, 100_000, 0));
    let red_flag = game.flag(RED, RED_BASE);
    let carrier = game.player(RED, off(RED_BASE, 300_000, 400_000));
    game.carrier.insert(blue_flag, FlagCarrier(Some(carrier)));
    assert_eq!(game.capture(), vec![blue_flag]);
    assert_eq!(game.scores, GameScores { redteam: 1, blueteam: 0 });
    assert_eq!(game.carrier_of(blue_flag), None);
    assert_eq!(game.pos.get(blue_flag), Some(&BLUE_BASE));
    assert_eq!(game.pos.get(red_flag), Some(&RED_BASE));
    assert_eq!(
        game.channel.read(&reader),
        vec![FlagEvent { ty: FlagEventType::Capture, player: Some(carrier), flag: blue_flag }]
    );
    assert_eq!(
        state_of(
            *game.carrier.get(blue_flag).unwrap(),
            *game.pos.get(blue_flag).unwrap(),
            *game.lastdrop.get(blue_flag).unwrap(),
            BLUE_BASE
        ),
        FlagState::AtBase
    );
    assert!(game.capture().is_empty());
    assert_eq!(game.scores, GameScores { redteam: 1, blueteam: 0 });
}

#[test]
fn the_capture_radius_is_fifty_units() {
    let mut game = Game::new(10_000);
    let flag = game.flag(RED, Vector2::new(0, 0));
    let carrier = game.player(BLUE, off(BLUE_BASE, 500_001, 0));
    game.carrier.insert(flag, FlagCarrier(Some(carrier)));
    assert!(game.capture().is_empty());
    assert_eq!(game.scores, GameScores { redteam: 0, blueteam: 0 });
    assert_eq!(game.carrier_of(flag), Some(carrier));
    game.pos.insert(carrier, off(BLUE_BASE, 500_000, 0));
    assert_eq!(game.capture(), vec![flag]);
    assert_eq!(game.scores, GameScores { redteam: 0, blueteam: 1 });
    assert_eq!(game.pos.get(flag), Some(&RED_BASE));
}

#[test]
fn a_flag_is_not_captured_at_the_wrong_base_or_by_its_own_team() {
    let mut game = Game::new(10_000);
    let reader = game.channel.register_reader();
    let blue_flag = game.flag(BLUE, BLUE_BASE);
    let red_flag = game.flag(RED, RED_BASE);
    let at_enemy_base = game.player(RED, BLUE_BASE);
    let own_flag = game.player(RED, RED_BASE);
    game.carrier.insert(blue_flag, FlagCarrier(Some(at_enemy_base)));
    game.carrier.insert(red_flag, FlagCarrier(Some(own_flag)));
    assert!(game.capture().is_empty());
    assert_eq!(game.scores, GameScores { redteam: 0, blueteam: 0 });
    assert_eq!(game.carrier_of(blue_flag), Some(at_enemy_base));
    assert_eq!(game.carrier_of(red_flag), Some(own_flag));
    assert!(game.channel.read(&reader).is_empty());
}

#[test]
fn a_score_stops_at_the_most_it_can_hold() {
    let mut game = Game::new(10_000);
    game.scores = GameScores { redteam: 254, blueteam: 7 };
    let flag = game.flag(BLUE, RED_BASE);
    let carrier = game.player(RED, RED_BASE);
    game.carrier.insert(flag, FlagCarrier(Some(carrier)));
    assert_eq!(game.capture(), vec![flag]);
    assert_eq!(game.scores, GameScores { redteam: 255, blueteam: 7 });
    game.carrier.insert(flag, FlagCarrier(Some(carrier)));
    assert_eq!(game.capture(), vec![flag]);
    assert_eq!(game.scores, GameScores { redteam: 255, blueteam: 7 });
}

#[test]
fn a_carrier_who_dies_drops_the_flag_where_it_is() {
    let mut game = Game::new(20_000);
    let reader = game.channel.register_reader();
    let flag = game.flag(BLUE, BLUE_BASE);
    let held = game.flag(RED, RED_BASE);
    let carrier = game.player(RED, Vector2::new(123, 456));
    let holder = game.player(BLUE, Vector2::new(7, 7));
    game.carrier.insert(flag, FlagCarrier(Some(carrier)));
    game.carrier.insert(held, FlagCarrier(Some(holder)));
    game.is_dead.insert(carrier, IsDead);
    assert_eq!(game.drop_flags(), vec![flag]);
    assert_eq!(game.carrier_of(flag), None);
    assert_eq!(game.carrier_of(held), Some(holder));
    assert_eq!(game.pos.get(flag), Some(&Vector2::new(123, 456)));
    assert_eq!(game.pos.get(held), Some(&RED_BASE));
    assert_eq!(game.lastdrop.get(flag), Some(&LastDrop { player: Some(carrier), time: 20_000 }));
    assert_eq!(
        game.channel.read(&reader),
        vec![FlagEvent { ty: FlagEventType::Drop, player: Some(carrier), flag }]
    );
    assert_eq!(
        state_of(
            *game.carrier.get(flag).unwrap(),
            *game.pos.get(flag).unwrap(),
            *game.lastdrop.get(flag).unwrap(),
            BLUE_BASE
        ),
        FlagState::Dropped { at: Vector2::new(123, 456), by: Some(carrier), since: 20_000 }
    );
}

#[test]
fn a_carrier_who_watches_leaves_or_asks_drops_the_flag() {
    let mut game = Game::new(20_000);
    let a = game.flag(BLUE, BLUE_BASE);
    let b = game.flag(RED, RED_BASE);
    let c = game.flag(3, Vector2::new(0, 0));
    let d = game.flag(4, Vector2::new(5, 5));
    let watching = game.player(RED, Vector2::new(1, 1));
    let gone = game.player(RED, Vector2::new(2, 2));
    let asking = game.player(RED, Vector2::new(3, 3));
    let keeping = game.player(RED, Vector2::new(4, 4));
    game.carrier.insert(a, FlagCarrier(Some(watching)));
    game.carrier.insert(b, FlagCarrier(Some(gone)));
    game.carrier.insert(c, FlagCarrier(Some(asking)));
    game.carrier.insert(d, FlagCarrier(Some(keeping)));
    game.is_spec.insert(watching, IsSpectating);
    game.pos.remove(gone);
    game.entities.destroy(gone);
    game.requests.push(asking);
    assert_eq!(game.drop_flags(), vec![a, b, c]);
    assert_eq!(game.carrier_of(d), Some(keeping));
    assert_eq!(game.pos.get(a), Some(&Vector2::new(1, 1)));
    // the carrier is gone and so is its position: the flag stays
    assert_eq!(game.pos.get(b), Some(&RED_BASE));
    assert_eq!(game.pos.get(c), Some(&Vector2::new(3, 3)));
    assert_eq!(game.pos.get(d), Some(&Vector2::new(5, 5)));
}

#[test]
fn a_dropped_flag_goes_to_the_next_player_but_not_back_to_the_dropper() {
    let mut game = Game::new(20_000);
    let reader = game.channel.register_reader();
    let flag = game.flag(BLUE, BLUE_BASE);
    let carrier = game.player(RED, Vector2::new(0, 0));
    game.carrier.insert(flag, FlagCarrier(Some(carrier)));
    game.requests.push(carrier);
    game.drop_flags();
    game.requests.clear();
    game.pickup();
    assert_eq!(game.carrier_of(flag), None);
    let other = game.player(RED, Vector2::new(900_000, 0));
    game.pickup();
    assert_eq!(game.carrier_of(flag), Some(other));
    assert_eq!(
        game.channel.read(&reader),
        vec![
            FlagEvent { ty: FlagEventType::Drop, player: Some(carrier), flag },
            FlagEvent { ty: FlagEventType::PickUp, player: Some(other), flag },
        ]
    );
}

#[test]
fn the_default_bases_and_radii() {
    let config = CtfConfig::default();
    assert_eq!(config.home(Team(1)), Some(BLUE_BASE));
    assert_eq!(config.home(Team(2)), Some(RED_BASE));
    assert_eq!(config.goal(Team(1)), Some(RED_BASE));
    assert_eq!(config.goal(Team(2)), Some(BLUE_BASE));
    assert_eq!(config.home(Team(3)), None);
    assert_eq!(config.goal(Team(0)), None);
    assert_eq!(config.cap_radius, 500_000);
    assert_eq!(config.flag_no_regrab_time, 5_000);
    for plane in [Plane::Predator, Plane::Goliath, Plane::Mohawk, Plane::Tornado, Plane::Prowler] {
        assert_eq!(config.radius(plane), Some(1_000_000));
    }
    assert_eq!(config.message_team(Team(1)).unwrap(), "blueflag");
    assert_eq!(config.message_team(Team(2)).unwrap(), "redflag");
    assert!(config.message_team(Team(3)).is_none());
}
