use airmash_server::collision::{
    cell_of, intersected_buckets, span, Bucket, Collision, Grid, HitCircle, Point, BUCKETS_X,
    BUCKETS_Y, MIN_X,
};
use airmash_server::component::channel::OnPlayerMissileCollision;
use airmash_server::component::event::PlayerMissileCollision;
use airmash_server::config;
use airmash_server::config::Config;
use airmash_server::entity::{Entities, Entity};
use airmash_server::storage::Table;
use airmash_server::systems::collision::player_missile::{
    distinct_pairs, sort_pairs, Colliders, PlayerMissileCollisionSystem,
    PlayerMissileCollisionSystemData,
};
use airmash_server::types::{
    IsDead, IsMissile, IsPlayer, IsSpectating, Mob, Plane, Position, Rotation, Team, Vector2,
    SCALE,
};

fn circle(x: i64, y: i64, rad: i32, layer: u16, id: usize) -> HitCircle {
    HitCircle { pos: Point { x, y }, rad, layer, ent: Entity { id, generation: 0 } }
}

#[test]
fn circles_collide_up_to_the_sum_of_their_radii() {
    let a = circle(0, 0, 30, 1, 0);
    assert!(a.overlap(circle(50, 0, 20, 2, 1)));
    assert!(!a.overlap(circle(51, 0, 20, 2, 1)));
    assert!(a.overlap(circle(49, 0, 20, 2, 1)));
    // a 3-4-5 triangle: the centres are 5 apart
    let b = circle(0, 0, 2, 1, 0);
    assert!(b.overlap(circle(3, 4, 3, 2, 1)));
    assert!(!b.overlap(circle(3, 4, 2, 2, 1)));
    assert!(b.overlap(circle(-3, -4, 3, 2, 1)));
}

#[test]
fn a_negative_radius_takes_from_the_other() {
    // 10 and -4 reach 6 together
    let a = circle(0, 0, 10, 1, 0);
    assert!(a.overlap(circle(6, 0, -4, 2, 1)));
    assert!(!a.overlap(circle(7, 0, -4, 2, 1)));
    assert!(circle(6, 0, -4, 2, 1).overlap(a));
    // together below nothing: no distance is short enough
    assert!(!a.overlap(circle(0, 0, -11, 2, 1)));
    assert!(a.overlap(circle(0, 0, -10, 2, 1)));
    assert!(!circle(0, 0, i32::MIN, 1, 0).overlap(circle(0, 0, i32::MIN, 2, 1)));
    // the grid files such a circle by the size of its radius
    assert_eq!(
        intersected_buckets(Point { x: 0, y: 0 }, -10),
        intersected_buckets(Point { x: 0, y: 0 }, 10)
    );
    let mut grid = Grid::new();
    let small = circle(3, 0, -4, 2, 1);
    grid.insert(small);
    let mut out = Vec::new();
    grid.query(a, &mut out);
    assert!(!out.is_empty());
    assert!(out.iter().all(|x| *x == Collision(a, small)));
}

#[test]
fn points_collide_only_where_they_coincide() {
    let a = circle(7, 7, 0, 1, 0);
    assert!(a.overlap(circle(7, 7, 0, 2, 1)));
    assert!(!a.overlap(circle(7, 8, 0, 2, 1)));
}

#[test]
fn far_apart_circles_are_compared_without_overflow() {
    let limit: i64 = 0x1000_0000_0000_0000;
    let a = circle(-limit, -limit, i32::MAX, 1, 0);
    let b = circle(limit, limit, i32::MAX, 2, 1);
    assert!(!a.overlap(b));
    assert!(a.overlap(a));
}

#[test]
fn a_bucket_reports_what_overlaps_on_another_layer() {
    let mut bucket = Bucket::new();
    let near_foe = circle(10, 0, 5, 2, 1);
    let far_foe = circle(100, 0, 5, 2, 2);
    let near_friend = circle(0, 0, 5, 1, 3);
    bucket.push(near_foe);
    bucket.push(far_foe);
    bucket.push(near_friend);
    let probe = circle(0, 0, 5, 1, 9);
    let mut out = Vec::new();
    bucket.collide(probe, &mut out);
    assert_eq!(out, vec![Collision(probe, near_foe)]);
}

#[test]
fn a_coordinate_falls_in_the_bucket_that_holds_it() {
    assert_eq!(cell_of(0, MIN_X, BUCKETS_X), 32);
    assert_eq!(cell_of(MIN_X, MIN_X, BUCKETS_X), 0);
    assert_eq!(cell_of(MIN_X + 5_119_999, MIN_X, BUCKETS_X), 0);
    assert_eq!(cell_of(MIN_X + 5_120_000, MIN_X, BUCKETS_X), 1);
    assert_eq!(cell_of(-1, MIN_X, BUCKETS_X), 31);
    // off the grid: the nearest bucket
    assert_eq!(cell_of(MIN_X - 1, MIN_X, BUCKETS_X), 0);
    assert_eq!(cell_of(-1_000_000_000_000, MIN_X, BUCKETS_X), 0);
    assert_eq!(cell_of(1_000_000_000_000, MIN_X, BUCKETS_X), 63);
    assert_eq!(cell_of(163_840_000, MIN_X, BUCKETS_X), 63);
}

#[test]
fn a_circle_is_filed_in_every_bucket_its_box_touches() {
    assert_eq!(intersected_buckets(Point { x: 100, y: 100 }, 10), vec![(32, 16)]);
    assert_eq!(
        intersected_buckets(Point { x: 0, y: 0 }, 10),
        vec![(31, 15), (32, 15), (31, 16), (32, 16)]
    );
    let wide = intersected_buckets(Point { x: 0, y: 100 }, 5_120_000);
    assert_eq!(wide, vec![(31, 15), (32, 15), (33, 15), (31, 16), (32, 16), (33, 16), (31, 17), (32, 17), (33, 17)]);
    let s = span(Point { x: 0, y: 0 }, 10);
    assert_eq!((s.lo_x, s.hi_x, s.lo_y, s.hi_y), (31, 32, 15, 16));
    let corner = intersected_buckets(Point { x: 1_000_000_000_000, y: 1_000_000_000_000 }, 5);
    assert_eq!(corner, vec![(BUCKETS_X - 1, BUCKETS_Y - 1)]);
}

#[test]
fn the_grid_finds_what_a_probe_hits() {
    let mut grid = Grid::new();
    let a = circle(0, 0, 1_000, 1, 0);
    let b = circle(50_000_000, 0, 1_000, 1, 1);
    let c = circle(1_500, 0, 400, 2, 2);
    grid.insert(a);
    grid.insert(b);
    grid.insert(c);
    let probe = circle(1_500, 0, 500, 2, 7);
    let mut out = Vec::new();
    grid.query(probe, &mut out);
    // `a` straddles four buckets and the probe lies in two of them
    assert!(!out.is_empty());
    assert!(out.iter().all(|x| *x == Collision(probe, a)));
    let mut none = Vec::new();
    grid.query(circle(1_501, 0, 500, 2, 7), &mut none);
    assert!(none.is_empty());
    assert!(grid.get((32, 16)).circles.contains(&a));
    assert!(grid.get((31, 15)).circles.contains(&a));
    assert!(!grid.get((32, 16)).circles.contains(&b));
}

#[test]
fn pairs_are_reported_once_in_the_order_found() {
    let one = circle(0, 0, 1, 2, 10);
    let two = circle(0, 0, 1, 2, 11);
    let first = circle(0, 0, 1, 1, 1);
    let first_again = circle(1, 0, 1, 1, 1);
    let second = circle(0, 0, 1, 1, 2);
    let pairs = distinct_pairs(&vec![
        Collision(one, first),
        Collision(one, first_again),
        Collision(two, first),
        Collision(one, first),
        Collision(one, second),
        Collision(two, first_again),
    ]);
    assert_eq!(
        pairs,
        vec![
            PlayerMissileCollision { missile: one.ent, player: first.ent },
            PlayerMissileCollision { missile: two.ent, player: first.ent },
            PlayerMissileCollision { missile: one.ent, player: second.ent },
        ]
    );
    assert!(distinct_pairs(&Vec::new()).is_empty());
}

struct Scene {
    channel: OnPlayerMissileCollision,
    config: Config,
    colliders: Colliders,
    ent: Entities,
    pos: Table<Position>,
    rot: Table<Rotation>,
    team: Table<Team>,
    plane: Table<Plane>,
    player_flag: Table<IsPlayer>,
    isspec: Table<IsSpectating>,
    isdead: Table<IsDead>,
    mob: Table<Mob>,
    missile_flag: Table<IsMissile>,
}

impl Scene {
    fn new() -> Scene {
        let mut colliders = Colliders::new();
        colliders.set(Mob::PredatorMissile, vec![config::hit_circle(0, 0, 1)]);
        Scene {
            channel: OnPlayerMissileCollision::new(),
            config: Config::default(),
            colliders,
            ent: Entities::new(),
            pos: Table::new(),
            rot: Table::new(),
            team: Table::new(),
            plane: Table::new(),
            player_flag: Table::new(),
            isspec: Table::new(),
            isdead: Table::new(),
            mob: Table::new(),
            missile_flag: Table::new(),
        }
    }

    fn player(&mut self, x: i32, y: i32, team: u16, rot: Rotation) -> Entity {
        let e = self.ent.create();
        self.pos.insert(e, Vector2::new(x, y));
        self.rot.insert(e, rot);
        self.team.insert(e, Team(team));
        self.plane.insert(e, Plane::Predator);
        self.player_flag.insert(e, IsPlayer);
        e
    }

    fn missile(&mut self, x: i32, y: i32, team: u16) -> Entity {
        let e = self.ent.create();
        self.pos.insert(e, Vector2::new(x, y));
        self.team.insert(e, Team(team));
        self.mob.insert(e, Mob::PredatorMissile);
        self.missile_flag.insert(e, IsMissile);
        e
    }

    fn run(&mut self) -> Vec<PlayerMissileCollision> {
        PlayerMissileCollisionSystem::new().run(PlayerMissileCollisionSystemData {
            channel: &mut self.channel,
            config: &self.config,
            colliders: &self.colliders,
            ent: &self.ent,
            pos: &self.pos,
            rot: &self.rot,
            team: &self.team,
            plane: &self.plane,
            player_flag: &self.player_flag,
            isspec: &self.isspec,
            isdead: &self.isdead,
            mob: &self.mob,
            missile_flag: &self.missile_flag,
        })
    }
}

// The Predator's first circle has radius 23 and lies 5 below the centre; the
// missile's circle has radius 1.
#[test]
fn of_two_missiles_only_the_one_that_touches_is_reported() {
    let mut scene = Scene::new();
    let reader = scene.channel.register_reader();
    let player = scene.player(0, 0, 1, Rotation::zero());
    let touching = scene.missile(0, 290_000, 2);
    let _clear = scene.missile(0, 290_001, 2);
    let hits = scene.run();
    assert_eq!(hits, vec![PlayerMissileCollision { missile: touching, player }]);
    assert_eq!(scene.channel.read(&reader), hits);
}

#[test]
fn a_missile_of_the_players_own_team_never_hits() {
    let mut scene = Scene::new();
    let _player = scene.player(0, 0, 1, Rotation::zero());
    let _friendly = scene.missile(0, 0, 1);
    assert!(scene.run().is_empty());
}

#[test]
fn a_missile_over_several_circles_of_a_player_hits_once() {
    let mut scene = Scene::new();
    let player = scene.player(0, 0, 1, Rotation::zero());
    // within the second circle (15 about (0, -15)) and the third (12 about (0, -25))
    let missile = scene.missile(0, -200_000, 2);
    assert_eq!(scene.run(), vec![PlayerMissileCollision { missile, player }]);
}

#[test]
fn players_who_watch_or_are_dead_are_not_hit() {
    let mut scene = Scene::new();
    let watching = scene.player(0, 0, 1, Rotation::zero());
    let dead = scene.player(10_000_000, 0, 1, Rotation::zero());
    let alive = scene.player(20_000_000, 0, 1, Rotation::zero());
    scene.isspec.insert(watching, IsSpectating);
    scene.isdead.insert(dead, IsDead);
    let _m1 = scene.missile(0, 0, 2);
    let _m2 = scene.missile(10_000_000, 0, 2);
    let three = scene.missile(20_000_000, 0, 2);
    assert_eq!(scene.run(), vec![PlayerMissileCollision { missile: three, player: alive }]);
}

#[test]
fn the_shape_of_a_player_turns_with_its_heading() {
    // a quarter turn takes the offset (0, -25) of the third circle to (25, 0)
    let quarter = Rotation { sin: SCALE, cos: 0 };
    let at = 250_000 + 120_000 + 10_000;
    let mut turned = Scene::new();
    let player = turned.player(0, 0, 1, quarter);
    let missile = turned.missile(at, 0, 2);
    assert_eq!(turned.run(), vec![PlayerMissileCollision { missile, player }]);
    let mut beyond = Scene::new();
    let _ = beyond.player(0, 0, 1, quarter);
    let _ = beyond.missile(at + 1, 0, 2);
    assert!(beyond.run().is_empty());
    let mut upright = Scene::new();
    let _ = upright.player(0, 0, 1, Rotation::zero());
    let _ = upright.missile(at, 0, 2);
    assert!(upright.run().is_empty());
}

#[test]
fn every_missile_that_hits_is_paired_with_every_player_it_hits() {
    let mut scene = Scene::new();
    let first = scene.player(0, 0, 1, Rotation::zero());
    let second = scene.player(100_000, 0, 3, Rotation::zero());
    let one = scene.missile(50_000, 0, 2);
    let two = scene.missile(0, 0, 3);
    let hits = scene.run();
    assert_eq!(hits.len(), 3);
    assert!(hits.contains(&PlayerMissileCollision { missile: one, player: first }));
    assert!(hits.contains(&PlayerMissileCollision { missile: one, player: second }));
    assert!(hits.contains(&PlayerMissileCollision { missile: two, player: first }));
    assert!(!hits.contains(&PlayerMissileCollision { missile: two, player: second }));
}

#[test]
fn a_mob_without_a_shape_hits_nothing() {
    let mut scene = Scene::new();
    let _ = scene.player(0, 0, 1, Rotation::zero());
    let e = scene.missile(0, 0, 2);
    scene.mob.insert(e, Mob::GoliathMissile);
    assert!(scene.run().is_empty());
}

#[test]
fn hits_are_listed_by_missile_and_then_by_player() {
    let pair = |m: usize, p: usize| PlayerMissileCollision {
        missile: Entity { id: m, generation: 0 },
        player: Entity { id: p, generation: 0 },
    };
    assert_eq!(
        sort_pairs(&vec![pair(5, 1), pair(2, 9), pair(5, 0), pair(2, 3), pair(7, 7)]),
        vec![pair(2, 3), pair(2, 9), pair(5, 0), pair(5, 1), pair(7, 7)]
    );
    assert!(sort_pairs(&Vec::new()).is_empty());

    let mut scene = Scene::new();
    let low = scene.missile(100_000, 0, 3);
    let first = scene.player(0, 0, 1, Rotation::zero());
    let high = scene.missile(50_000, 0, 2);
    let second = scene.player(100_000, 0, 3, Rotation::zero());
    assert_eq!(
        scene.run(),
        vec![
            PlayerMissileCollision { missile: low, player: first },
            PlayerMissileCollision { missile: high, player: first },
            PlayerMissileCollision { missile: high, player: second },
        ]
    );
}
