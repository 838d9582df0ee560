use airmash_server::config::{hit_circle, Config, HitCircle, MissileInfo, MobInfo, PlaneInfos};
use airmash_server::types::{
    int_sqrt, saturate, time_since, to_clock, unscale, Mob, Plane, Rotation, Vector2, SCALE,
};

fn circle(x: i32, y: i32, r: i32) -> HitCircle {
    HitCircle { radius: r * 10_000, offset: Vector2::new(x * 10_000, y * 10_000) }
}

#[test]
fn a_hit_circle_is_given_in_whole_units() {
    assert_eq!(
        hit_circle(0, 5, 23),
        HitCircle { radius: 230_000, offset: Vector2::new(0, 50_000) }
    );
    assert_eq!(
        hit_circle(-74, 26, 14),
        HitCircle { radius: 140_000, offset: Vector2::new(-740_000, 260_000) }
    );
    assert_eq!(
        hit_circle(i16::MIN, i16::MAX, i16::MAX),
        HitCircle { radius: 327_670_000, offset: Vector2::new(-327_680_000, 327_670_000) }
    );
    assert_eq!(
        hit_circle(1, -1, i16::MIN),
        HitCircle { radius: -327_680_000, offset: Vector2::new(10_000, -10_000) }
    );
}

#[test]
fn the_predator_as_shipped() {
    let config = Config::default();
    let p = config.planes.index(Plane::Predator);
    assert_eq!(p.turn_factor, 650);
    assert_eq!(p.accel_factor, 2_250);
    assert_eq!(p.brake_factor, 250);
    assert_eq!(p.boost_factor, 15_000);
    assert_eq!(p.max_speed, 55_000);
    assert_eq!(p.min_speed, 10);
    assert_eq!(p.flag_speed, 50_000);
    assert_eq!(p.inferno_factor, 7_500);
    assert_eq!(p.health_regen, 10);
    assert_eq!(p.energy_regen, 80);
    assert_eq!(p.damage_factor, 20_000);
    assert_eq!(p.fire_energy, 6_000);
    assert_eq!(p.special_energy, 0);
    assert_eq!(p.fire_delay, 500);
    assert_eq!(p.missile_type, Mob::PredatorMissile);
    assert_eq!(p.missile_offset, 250_000);
    assert_eq!(p.hit_circles, vec![circle(0, 5, 23), circle(0, -15, 15), circle(0, -25, 12)]);
}

#[test]
fn the_other_planes_as_shipped() {
    let planes = PlaneInfos::default();
    let g = planes.get(Plane::Goliath).unwrap();
    assert_eq!((g.turn_factor, g.accel_factor, g.brake_factor), (400, 1_500, 150));
    assert_eq!((g.max_speed, g.health_regen, g.energy_regen), (35_000, 5, 50));
    assert_eq!((g.fire_energy, g.special_energy, g.fire_delay), (9_000, 5_000, 300));
    assert_eq!((g.missile_type, g.missile_offset), (Mob::GoliathMissile, 350_000));
    assert_eq!(g.damage_factor, 10_000);
    assert_eq!(g.hit_circles.len(), 9);
    assert_eq!(g.hit_circles[0], circle(0, 0, 35));
    assert_eq!(g.hit_circles[8], circle(-63, 22, 15));

    let m = planes.get(Plane::Mohawk).unwrap();
    assert_eq!((m.turn_factor, m.accel_factor, m.max_speed), (700, 2_750, 60_000));
    assert_eq!((m.energy_regen, m.damage_factor, m.fire_energy), (100, 26_375, 3_000));
    assert_eq!((m.missile_type, m.missile_offset, m.fire_delay), (Mob::MohawkMissile, 0, 300));
    assert_eq!(
        m.hit_circles,
        vec![circle(0, -12, 15), circle(0, 0, 17), circle(0, 13, 15), circle(0, 26, 15)]
    );

    let t = planes.get(Plane::Tornado).unwrap();
    assert_eq!((t.turn_factor, t.accel_factor, t.max_speed), (550, 2_000, 60_000));
    assert_eq!((t.damage_factor, t.fire_energy, t.special_energy), (16_667, 5_000, 9_000));
    assert_eq!((t.missile_type, t.missile_offset, t.fire_delay), (Mob::TornadoSingleMissile, 400_000, 500));
    assert_eq!(t.hit_circles.len(), 6);
    assert_eq!(t.hit_circles[5], circle(0, -35, 12));

    let w = planes.get(Plane::Prowler).unwrap();
    assert_eq!((w.max_speed, w.fire_energy, w.special_energy), (45_000, 7_500, 6_000));
    assert_eq!((w.missile_type, w.missile_offset, w.fire_delay), (Mob::ProwlerMissile, 350_000, 300));
    assert_eq!(
        w.hit_circles,
        vec![
            circle(0, 11, 25),
            circle(0, -8, 18),
            circle(19, 20, 10),
            circle(-19, 20, 10),
            circle(0, -20, 14)
        ]
    );
    for plane in [Plane::Predator, Plane::Goliath, Plane::Mohawk, Plane::Tornado, Plane::Prowler] {
        let info = planes.index(plane);
        assert_eq!(info.min_speed, 10);
        assert_eq!(info.flag_speed, 50_000);
        assert_eq!(info.inferno_factor, 7_500);
    }
}

fn missile(max_speed: i32, accel: i32, base_speed: i32, damage: i32) -> MobInfo {
    MobInfo {
        lifetime: 10_000,
        missile: Some(MissileInfo { max_speed, accel, base_speed, speed_factor: 3_000, damage }),
    }
}

#[test]
fn the_mobs_as_shipped() {
    let config = Config::default();
    let mobs = &config.mobs;
    assert_eq!(*mobs.index(Mob::PredatorMissile), missile(90_000, 1_050, 40_500, 4_000));
    assert_eq!(*mobs.index(Mob::GoliathMissile), missile(60_000, 375, 21_000, 12_000));
    assert_eq!(*mobs.index(Mob::MohawkMissile), missile(90_000, 1_400, 57_000, 2_000));
    assert_eq!(*mobs.index(Mob::TornadoSingleMissile), missile(70_000, 875, 35_000, 4_000));
    assert_eq!(*mobs.index(Mob::TornadoTripleMissile), missile(70_000, 875, 35_000, 3_000));
    assert_eq!(*mobs.index(Mob::ProwlerMissile), missile(70_000, 700, 28_000, 4_500));
    assert_eq!(*mobs.index(Mob::Inferno), MobInfo { lifetime: 60_000, missile: None });
    assert_eq!(*mobs.index(Mob::Shield), MobInfo { lifetime: 60_000, missile: None });
    assert!(mobs.get(Mob::Upgrade).is_none());
}

#[test]
fn the_upgrades_as_shipped() {
    let config = Config::default();
    for info in [
        config.upgrades.speed,
        config.upgrades.defense,
        config.upgrades.energy,
        config.upgrades.missile,
    ] {
        assert_eq!(info.cost, [0, 1, 1, 1, 1, 1]);
        assert_eq!(info.factor, [10_000, 10_500, 11_000, 11_500, 12_000, 12_500]);
    }
}

#[test]
fn square_roots_are_rounded_down() {
    assert_eq!(int_sqrt(0), 0);
    assert_eq!(int_sqrt(1), 1);
    assert_eq!(int_sqrt(3), 1);
    assert_eq!(int_sqrt(4), 2);
    assert_eq!(int_sqrt(24), 4);
    assert_eq!(int_sqrt(25), 5);
    assert_eq!(int_sqrt(1_000_000_000_000), 1_000_000);
    assert_eq!(int_sqrt(999_999_999_999), 999_999);
    assert_eq!(int_sqrt(u128::MAX), u64::MAX);
    assert_eq!(int_sqrt((u64::MAX as u128) * (u64::MAX as u128)), u64::MAX);
    assert_eq!(int_sqrt((u64::MAX as u128) * (u64::MAX as u128) - 1), u64::MAX - 1);
}

#[test]
fn fixed_point_numbers_round_toward_zero_and_saturate() {
    assert_eq!(unscale(25_000), 2);
    assert_eq!(unscale(-25_000), -2);
    assert_eq!(unscale(9_999), 0);
    assert_eq!(unscale(-9_999), 0);
    assert_eq!(unscale(-10_000), -1);
    assert_eq!(saturate(5), 5);
    assert_eq!(saturate(i32::MAX as i128 + 1), i32::MAX);
    assert_eq!(saturate(i32::MIN as i128 - 1), i32::MIN);
    assert_eq!(saturate(i128::MAX), i32::MAX);
    assert_eq!(saturate(i128::MIN), i32::MIN);
}

#[test]
fn the_clock_counts_hundredths_of_a_millisecond_and_wraps() {
    assert_eq!(to_clock(0), 0);
    assert_eq!(to_clock(1), 100);
    assert_eq!(to_clock(1_000), 100_000);
    assert_eq!(to_clock(42_949_672), 4_294_967_200);
    assert_eq!(to_clock(42_949_673), 4);
    assert_eq!(to_clock(u64::MAX), ((u64::MAX as u128 * 100) % (1u128 << 32)) as u32);
    assert_eq!(time_since(10, 3), 7);
    assert_eq!(time_since(3, 10), 0);
    assert_eq!(time_since(3, 3), 0);
}

#[test]
fn a_heading_turns_a_vector() {
    let v = Vector2::new(30_000, 40_000);
    assert_eq!(Rotation::zero().rotate(v), (30_000, 40_000));
    assert_eq!(Rotation { sin: SCALE, cos: 0 }.rotate(v), (-40_000, 30_000));
    assert_eq!(Rotation { sin: 0, cos: -SCALE }.rotate(v), (-30_000, -40_000));
    assert_eq!(Rotation { sin: -SCALE, cos: 0 }.rotate(v), (40_000, -30_000));
    // 0.6 and 0.8: (3*0.8 - 4*0.6, 3*0.6 + 4*0.8) = (0, 5)
    assert_eq!(Rotation { sin: 6_000, cos: 8_000 }.rotate(v), (0, 50_000));
    assert_eq!(v.distance_squared(Vector2::new(0, 0)), 2_500_000_000);
    assert_eq!(
        Vector2::new(i32::MIN, i32::MIN).distance_squared(Vector2::new(i32::MAX, i32::MAX)),
        2 * (u32::MAX as u128) * (u32::MAX as u128)
    );
}
