//! Static configuration: the parameters of each plane and mob.
//!
//! A configuration is built once at startup and handed to the systems by
//! reference; nothing in the crate changes it. The defaults are the figures
//! the game ships with, in fixed point (see [`crate::types`]).

use crate::hashing::{map_get, map_insert, map_new, CodeMap};
use crate::types::{
    AccelScalar, Distance, Duration, Energy, EnergyRegen, Health, HealthRegen, Mob, Plane, Position,
    RotationRate, Speed, Vector2, SCALE,
};
use vstd::prelude::*;

verus! {

/// One circle of a plane's or a mob's collision shape, relative to its
/// centre.
#[derive(Copy, Clone, Debug, PartialEq, Eq, Structural)]
pub struct HitCircle {
    pub radius: Distance,
    pub offset: Position,
}

#[derive(Debug, Clone)]
pub struct PlaneInfo {
    // Rotation
    pub turn_factor: RotationRate,
    // Acceleration
    pub accel_factor: AccelScalar,
    pub brake_factor: AccelScalar,
    pub boost_factor: i32,
    // Speeds
    pub max_speed: Speed,
    pub min_speed: Speed,
    pub flag_speed: Speed,
    pub inferno_factor: i32,
    // Regen
    pub health_regen: HealthRegen,
    pub energy_regen: EnergyRegen,
    // Health
    pub damage_factor: i32,
    // Energy requirement
    pub fire_energy: Energy,
    pub special_energy: Energy,
    pub fire_delay: Duration,
    // Type of missile that the plane fires
    pub missile_type: Mob,
    // Offset of missile (in the Y dir) when fired
    pub missile_offset: Distance,
    // Collisions
    pub hit_circles: Vec<HitCircle>,
}

/// A [`PlaneInfo`] as a value: its numbers, and its circles as a sequence.
pub struct PlaneInfoView {
    pub turn_factor: RotationRate,
    pub accel_factor: AccelScalar,
    pub brake_factor: AccelScalar,
    pub boost_factor: i32,
    pub max_speed: Speed,
    pub min_speed: Speed,
    pub flag_speed: Speed,
    pub inferno_factor: i32,
    pub health_regen: HealthRegen,
    pub energy_regen: EnergyRegen,
    pub damage_factor: i32,
    pub fire_energy: Energy,
    pub special_energy: Energy,
    pub fire_delay: Duration,
    pub missile_type: Mob,
    pub missile_offset: Distance,
    pub hit_circles: Seq<HitCircle>,
}

impl View for PlaneInfo {
    type V = PlaneInfoView;

    open spec fn view(&self) -> PlaneInfoView {
        PlaneInfoView {
            turn_factor: self.turn_factor,
            accel_factor: self.accel_factor,
            brake_factor: self.brake_factor,
            boost_factor: self.boost_factor,
            max_speed: self.max_speed,
            min_speed: self.min_speed,
            flag_speed: self.flag_speed,
            inferno_factor: self.inferno_factor,
            health_regen: self.health_regen,
            energy_regen: self.energy_regen,
            damage_factor: self.damage_factor,
            fire_energy: self.fire_energy,
            special_energy: self.special_energy,
            fire_delay: self.fire_delay,
            missile_type: self.missile_type,
            missile_offset: self.missile_offset,
            hit_circles: self.hit_circles@,
        }
    }
}

#[derive(Copy, Clone, Debug, PartialEq, Eq, Structural)]
pub struct MissileInfo {
    pub max_speed: Speed,
    pub accel: AccelScalar,
    pub base_speed: Speed,
    pub speed_factor: i32,
    pub damage: Health,
}

#[derive(Copy, Clone, Debug, PartialEq, Eq, Structural)]
pub struct MobInfo {
    pub lifetime: Duration,
    pub missile: Option<MissileInfo>,
}

/// What each level of an upgrade costs and by what factor it scales.
#[derive(Copy, Clone, Debug)]
pub struct UpgradeInfo {
    pub cost: [u16; 6],
    pub factor: [i32; 6],
}

#[derive(Clone, Debug)]
pub struct PlaneInfos(pub CodeMap<PlaneInfo>);

#[derive(Clone, Debug)]
pub struct MobInfos(pub CodeMap<MobInfo>);

#[derive(Copy, Clone, Debug)]
pub struct UpgradeInfos {
    pub speed: UpgradeInfo,
    pub missile: UpgradeInfo,
    pub energy: UpgradeInfo,
    pub defense: UpgradeInfo,
}

pub struct Config {
    pub planes: PlaneInfos,
    pub mobs: MobInfos,
    pub upgrades: UpgradeInfos,
}

impl PlaneInfos {
    /// The parameters filed for `plane`, if any.
    pub open spec fn lookup(&self, plane: Plane) -> Option<PlaneInfo> {
        if self.0@.contains_key(plane.spec_code() as u16) {
            Some(self.0@[plane.spec_code() as u16])
        } else {
            None
        }
    }

    pub fn get(&self, plane: Plane) -> (r: Option<&PlaneInfo>)
        ensures
            match r {
                Some(info) => self.lookup(plane) == Some(*info),
                None => self.lookup(plane) is None,
            },
    {
        map_get(&self.0, plane.code() as u16)
    }

    pub fn index(&self, idx: Plane) -> (r: &PlaneInfo)
        requires
            self.lookup(idx) is Some,
        ensures
            Some(*r) == self.lookup(idx),
    {
        map_get(&self.0, idx.code() as u16).unwrap()
    }
}

impl MobInfos {
    /// The parameters filed for `mob`, if any.
    pub open spec fn lookup(&self, mob: Mob) -> Option<MobInfo> {
        if self.0@.contains_key(mob.spec_code() as u16) {
            Some(self.0@[mob.spec_code() as u16])
        } else {
            None
        }
    }

    pub fn get(&self, mob: Mob) -> (r: Option<&MobInfo>)
        ensures
            match r {
                Some(info) => self.lookup(mob) == Some(*info),
                None => self.lookup(mob) is None,
            },
    {
        map_get(&self.0, mob.code() as u16)
    }

    pub fn index(&self, idx: Mob) -> (r: &MobInfo)
        requires
            self.lookup(idx) is Some,
        ensures
            Some(*r) == self.lookup(idx),
    {
        map_get(&self.0, idx.code() as u16).unwrap()
    }
}

/// The circle of radius `r` whose centre lies `(x, y)` whole units off.
pub open spec fn circle(x: int, y: int, r: int) -> HitCircle {
    HitCircle {
        radius: (r * SCALE) as i32,
        offset: Vector2 { x: (x * SCALE) as i32, y: (y * SCALE) as i32 },
    }
}

pub fn hit_circle(x: i16, y: i16, r: i16) -> (c: HitCircle)
    ensures
        c == circle(x as int, y as int, r as int),
        c.radius == r * SCALE,
        c.offset.x == x * SCALE,
        c.offset.y == y * SCALE,
{
    HitCircle {
        radius: r as i32 * 10_000,
        offset: Vector2 { x: x as i32 * 10_000, y: y as i32 * 10_000 },
    }
}

/// The shipped collision shape of `plane`.
pub open spec fn default_hit_circles(plane: Plane) -> Seq<HitCircle> {
    match plane {
        Plane::Predator => seq![circle(0, 5, 23), circle(0, -15, 15), circle(0, -25, 12)],
        Plane::Goliath => seq![
            circle(0, 0, 35),
            circle(50, 14, 16),
            circle(74, 26, 14),
            circle(30, 8, 23),
            circle(63, 22, 15),
            circle(-50, 14, 16),
            circle(-74, 26, 14),
            circle(-30, 8, 23),
            circle(-63, 22, 15),
        ],
        Plane::Mohawk => seq![
            circle(0, -12, 15),
            circle(0, 0, 17),
            circle(0, 13, 15),
            circle(0, 26, 15),
        ],
        Plane::Tornado => seq![
            circle(0, 8, 18),
            circle(14, 12, 13),
            circle(-14, 12, 13),
            circle(0, -12, 16),
            circle(0, -26, 14),
            circle(0, -35, 12),
        ],
        Plane::Prowler => seq![
            circle(0, 11, 25),
            circle(0, -8, 18),
            circle(19, 20, 10),
            circle(-19, 20, 10),
            circle(0, -20, 14),
        ],
    }
}

/// The shipped parameters of `plane`.
pub open spec fn default_plane(plane: Plane) -> PlaneInfoView {
    match plane {
        Plane::Predator => PlaneInfoView {
            turn_factor: 650,
            accel_factor: 2_250,
            brake_factor: 250,
            boost_factor: 15_000,
            max_speed: 55_000,
            min_speed: 10,
            flag_speed: 50_000,
            inferno_factor: 7_500,
            health_regen: 10,
            energy_regen: 80,
            damage_factor: 20_000,
            fire_energy: 6_000,
            special_energy: 0,
            fire_delay: 500,
            missile_type: Mob::PredatorMissile,
            missile_offset: 250_000,
            hit_circles: default_hit_circles(plane),
        },
        Plane::Goliath => PlaneInfoView {
            turn_factor: 400,
            accel_factor: 1_500,
            brake_factor: 150,
            boost_factor: 10_000,
            max_speed: 35_000,
            min_speed: 10,
            flag_speed: 50_000,
            inferno_factor: 7_500,
            health_regen: 5,
            energy_regen: 50,
            damage_factor: 10_000,
            fire_energy: 9_000,
            special_energy: 5_000,
            fire_delay: 300,
            missile_type: Mob::GoliathMissile,
            missile_offset: 350_000,
            hit_circles: default_hit_circles(plane),
        },
        Plane::Mohawk => PlaneInfoView {
            turn_factor: 700,
            accel_factor: 2_750,
            brake_factor: 250,
            boost_factor: 10_000,
            max_speed: 60_000,
            min_speed: 10,
            flag_speed: 50_000,
            inferno_factor: 7_500,
            health_regen: 10,
            energy_regen: 100,
            damage_factor: 26_375,
            fire_energy: 3_000,
            special_energy: 0,
            fire_delay: 300,
            missile_type: Mob::MohawkMissile,
            missile_offset: 0,
            hit_circles: default_hit_circles(plane),
        },
        Plane::Tornado => PlaneInfoView {
            turn_factor: 550,
            accel_factor: 2_000,
            brake_factor: 250,
            boost_factor: 10_000,
            max_speed: 60_000,
            min_speed: 10,
            flag_speed: 50_000,
            inferno_factor: 7_500,
            health_regen: 10,
            energy_regen: 60,
            damage_factor: 16_667,
            fire_energy: 5_000,
            special_energy: 9_000,
            fire_delay: 500,
            missile_type: Mob::TornadoSingleMissile,
            missile_offset: 400_000,
            hit_circles: default_hit_circles(plane),
        },
        Plane::Prowler => PlaneInfoView {
            turn_factor: 550,
            accel_factor: 2_000,
            brake_factor: 250,
            boost_factor: 10_000,
            max_speed: 45_000,
            min_speed: 10,
            flag_speed: 50_000,
            inferno_factor: 7_500,
            health_regen: 10,
            energy_regen: 60,
            damage_factor: 16_667,
            fire_energy: 7_500,
            special_energy: 6_000,
            fire_delay: 300,
            missile_type: Mob::ProwlerMissile,
            missile_offset: 350_000,
            hit_circles: default_hit_circles(plane),
        },
    }
}

fn predator() -> (info: PlaneInfo)
    ensures
        info@ == default_plane(Plane::Predator),
{
    let mut hit_circles: Vec<HitCircle> = Vec::new();
    hit_circles.push(hit_circle(0, 5, 23));
    hit_circles.push(hit_circle(0, -15, 15));
    hit_circles.push(hit_circle(0, -25, 12));
    assert(hit_circles@ =~= default_hit_circles(Plane::Predator));
    PlaneInfo {
        turn_factor: 650,
        accel_factor: 2_250,
        brake_factor: 250,
        boost_factor: 15_000,
        max_speed: 55_000,
        min_speed: 10,
        flag_speed: 50_000,
        inferno_factor: 7_500,
        health_regen: 10,
        energy_regen: 80,
        fire_delay: 500,
        damage_factor: 20_000,
        fire_energy: 6_000,
        special_energy: 0,
        missile_type: Mob::PredatorMissile,
        missile_offset: 250_000,
        hit_circles,
    }
}

fn goliath() -> (info: PlaneInfo)
    ensures
        info@ == default_plane(Plane::Goliath),
{
    let mut hit_circles: Vec<HitCircle> = Vec::new();
    hit_circles.push(hit_circle(0, 0, 35));
    hit_circles.push(hit_circle(50, 14, 16));
    hit_circles.push(hit_circle(74, 26, 14));
    hit_circles.push(hit_circle(30, 8, 23));
    hit_circles.push(hit_circle(63, 22, 15));
    hit_circles.push(hit_circle(-50, 14, 16));
    hit_circles.push(hit_circle(-74, 26, 14));
    hit_circles.push(hit_circle(-30, 8, 23));
    hit_circles.push(hit_circle(-63, 22, 15));
    assert(hit_circles@ =~= default_hit_circles(Plane::Goliath));
    PlaneInfo {
        turn_factor: 400,
        accel_factor: 1_500,
        brake_factor: 150,
        boost_factor: 10_000,
        max_speed: 35_000,
        min_speed: 10,
        flag_speed: 50_000,
        inferno_factor: 7_500,
        health_regen: 5,
        energy_regen: 50,
        fire_delay: 300,
        damage_factor: 10_000,
        fire_energy: 9_000,
        special_energy: 5_000,
        missile_type: Mob::GoliathMissile,
        missile_offset: 350_000,
        hit_circles,
    }
}

fn mohawk() -> (info: PlaneInfo)
    ensures
        info@ == default_plane(Plane::Mohawk),
{
    let mut hit_circles: Vec<HitCircle> = Vec::new();
    hit_circles.push(hit_circle(0, -12, 15));
    hit_circles.push(hit_circle(0, 0, 17));
    hit_circles.push(hit_circle(0, 13, 15));
    hit_circles.push(hit_circle(0, 26, 15));
    assert(hit_circles@ =~= default_hit_circles(Plane::Mohawk));
    PlaneInfo {
        turn_factor: 700,
        accel_factor: 2_750,
        brake_factor: 250,
        boost_factor: 10_000,
        max_speed: 60_000,
        min_speed: 10,
        flag_speed: 50_000,
        inferno_factor: 7_500,
        health_regen: 10,
        energy_regen: 100,
        fire_delay: 300,
        damage_factor: 26_375,
        fire_energy: 3_000,
        special_energy: 0,
        missile_type: Mob::MohawkMissile,
        // The Mohawk fires from its centre.
        missile_offset: 0,
        hit_circles,
    }
}

fn tornado() -> (info: PlaneInfo)
    ensures
        info@ == default_plane(Plane::Tornado),
{
    let mut hit_circles: Vec<HitCircle> = Vec::new();
    hit_circles.push(hit_circle(0, 8, 18));
    hit_circles.push(hit_circle(14, 12, 13));
    hit_circles.push(hit_circle(-14, 12, 13));
    hit_circles.push(hit_circle(0, -12, 16));
    hit_circles.push(hit_circle(0, -26, 14));
    hit_circles.push(hit_circle(0, -35, 12));
    assert(hit_circles@ =~= default_hit_circles(Plane::Tornado));
    PlaneInfo {
        turn_factor: 550,
        accel_factor: 2_000,
        brake_factor: 250,
        boost_factor: 10_000,
        max_speed: 60_000,
        min_speed: 10,
        flag_speed: 50_000,
        inferno_factor: 7_500,
        health_regen: 10,
        energy_regen: 60,
        fire_delay: 500,
        damage_factor: 16_667,
        fire_energy: 5_000,
        special_energy: 9_000,
        missile_type: Mob::TornadoSingleMissile,
        missile_offset: 400_000,
        hit_circles,
    }
}

fn prowler() -> (info: PlaneInfo)
    ensures
        info@ == default_plane(Plane::Prowler),
{
    let mut hit_circles: Vec<HitCircle> = Vec::new();
    hit_circles.push(hit_circle(0, 11, 25));
    hit_circles.push(hit_circle(0, -8, 18));
    hit_circles.push(hit_circle(19, 20, 10));
    hit_circles.push(hit_circle(-19, 20, 10));
    hit_circles.push(hit_circle(0, -20, 14));
    assert(hit_circles@ =~= default_hit_circles(Plane::Prowler));
    PlaneInfo {
        turn_factor: 550,
        accel_factor: 2_000,
        brake_factor: 250,
        boost_factor: 10_000,
        max_speed: 45_000,
        min_speed: 10,
        flag_speed: 50_000,
        inferno_factor: 7_500,
        health_regen: 10,
        energy_regen: 60,
        fire_delay: 300,
        damage_factor: 16_667,
        fire_energy: 7_500,
        special_energy: 6_000,
        missile_type: Mob::ProwlerMissile,
        missile_offset: 350_000,
        hit_circles,
    }
}

impl Default for PlaneInfos {
    /// The five planes, each with its shipped parameters.
    fn default() -> (r: Self)
        ensures
            forall|p: Plane|
                (#[trigger] r.lookup(p)) is Some && r.lookup(p).unwrap()@ == default_plane(p),
            forall|k: u16| r.0@.contains_key(k) ==> 1 <= k <= 5,
    {
        let mut map: CodeMap<PlaneInfo> = map_new();
        map_insert(&mut map, Plane::Predator.code() as u16, predator());
        map_insert(&mut map, Plane::Goliath.code() as u16, goliath());
        map_insert(&mut map, Plane::Mohawk.code() as u16, mohawk());
        map_insert(&mut map, Plane::Tornado.code() as u16, tornado());
        map_insert(&mut map, Plane::Prowler.code() as u16, prowler());
        PlaneInfos(map)
    }
}

/// A missile that lives ten seconds.
pub open spec fn missile(
    max_speed: Speed,
    accel: AccelScalar,
    base_speed: Speed,
    damage: Health,
) -> MobInfo {
    MobInfo {
        lifetime: 10_000,
        missile: Some(MissileInfo { max_speed, accel, base_speed, speed_factor: 3_000, damage }),
    }
}

/// The shipped parameters of `mob`, for the mobs that have any.
///
/// Damage is what the missile does to a Goliath; the plane hit scales it by
/// its own damage factor.
pub open spec fn default_mob(mob: Mob) -> Option<MobInfo> {
    match mob {
        Mob::PredatorMissile => Some(missile(90_000, 1_050, 40_500, 4_000)),
        Mob::GoliathMissile => Some(missile(60_000, 375, 21_000, 12_000)),
        Mob::MohawkMissile => Some(missile(90_000, 1_400, 57_000, 2_000)),
        Mob::TornadoSingleMissile => Some(missile(70_000, 875, 35_000, 4_000)),
        Mob::TornadoTripleMissile => Some(missile(70_000, 875, 35_000, 3_000)),
        Mob::ProwlerMissile => Some(missile(70_000, 700, 28_000, 4_500)),
        Mob::Inferno => Some(MobInfo { lifetime: 60_000, missile: None }),
        Mob::Shield => Some(MobInfo { lifetime: 60_000, missile: None }),
        Mob::Upgrade => None,
    }
}

fn missile_info(max_speed: Speed, accel: AccelScalar, base_speed: Speed, damage: Health) -> (r:
    MobInfo)
    ensures
        r == missile(max_speed, accel, base_speed, damage),
{
    MobInfo {
        lifetime: 10_000,
        missile: Some(MissileInfo { max_speed, accel, base_speed, speed_factor: 3_000, damage }),
    }
}

impl Default for MobInfos {
    /// The six missiles and the two powerups, each with its shipped
    /// parameters.
    fn default() -> (r: Self)
        ensures
            forall|m: Mob| #[trigger] r.lookup(m) == default_mob(m),
            forall|k: u16| r.0@.contains_key(k) ==> 1 <= k <= 9 && k != 4,
    {
        let mut map: CodeMap<MobInfo> = map_new();
        map_insert(
            &mut map,
            Mob::PredatorMissile.code() as u16,
            missile_info(90_000, 1_050, 40_500, 4_000),
        );
        map_insert(
            &mut map,
            Mob::GoliathMissile.code() as u16,
            missile_info(60_000, 375, 21_000, 12_000),
        );
        map_insert(
            &mut map,
            Mob::MohawkMissile.code() as u16,
            missile_info(90_000, 1_400, 57_000, 2_000),
        );
        map_insert(
            &mut map,
            Mob::TornadoSingleMissile.code() as u16,
            missile_info(70_000, 875, 35_000, 4_000),
        );
        map_insert(
            &mut map,
            Mob::TornadoTripleMissile.code() as u16,
            missile_info(70_000, 875, 35_000, 3_000),
        );
        map_insert(
            &mut map,
            Mob::ProwlerMissile.code() as u16,
            missile_info(70_000, 700, 28_000, 4_500),
        );
        map_insert(&mut map, Mob::Inferno.code() as u16, MobInfo { lifetime: 60_000, missile: None });
        map_insert(&mut map, Mob::Shield.code() as u16, MobInfo { lifetime: 60_000, missile: None });
        MobInfos(map)
    }
}

/// The shipped cost of each level of an upgrade.
pub open spec fn default_upgrade_cost() -> Seq<u16> {
    seq![0u16, 1u16, 1u16, 1u16, 1u16, 1u16]
}

/// The shipped factor of each level of an upgrade.
pub open spec fn default_upgrade_factor() -> Seq<i32> {
    seq![10_000i32, 10_500i32, 11_000i32, 11_500i32, 12_000i32, 12_500i32]
}

impl UpgradeInfo {
    /// Whether this is the shipped cost and factor table.
    pub open spec fn is_default(&self) -> bool {
        self.cost@ == default_upgrade_cost() && self.factor@ == default_upgrade_factor()
    }
}

fn upgrade_info() -> (r: UpgradeInfo)
    ensures
        r.is_default(),
{
    let r = UpgradeInfo {
        cost: [0, 1, 1, 1, 1, 1],
        factor: [10_000, 10_500, 11_000, 11_500, 12_000, 12_500],
    };
    r
}

impl Default for UpgradeInfos {
    fn default() -> (r: Self)
        ensures
            r.speed.is_default(),
            r.defense.is_default(),
            r.energy.is_default(),
            r.missile.is_default(),
    {
        UpgradeInfos {
            speed: upgrade_info(),
            defense: upgrade_info(),
            energy: upgrade_info(),
            missile: upgrade_info(),
        }
    }
}

impl Default for Config {
    fn default() -> (r: Self)
        ensures
            forall|p: Plane|
                (#[trigger] r.planes.lookup(p)) is Some && r.planes.lookup(p).unwrap()@
                    == default_plane(p),
            forall|m: Mob| #[trigger] r.mobs.lookup(m) == default_mob(m),
            r.upgrades.speed.is_default(),
            r.upgrades.defense.is_default(),
            r.upgrades.energy.is_default(),
            r.upgrades.missile.is_default(),
    {
        Config {
            planes: PlaneInfos::default(),
            mobs: MobInfos::default(),
            upgrades: UpgradeInfos::default(),
        }
    }
}

} // verus!
