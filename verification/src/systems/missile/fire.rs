//! Firing. A player who holds the fire key, has the energy and is past the
//! plane's fire delay launches one missile of the plane's type.

use crate::config::{Config, MissileInfo, PlaneInfo};
use crate::dispatch::{DeclView, Resource, SystemDecl};
use crate::entity::{Entities, Entity};
use crate::protocol::{Connections, Outbound, PlayerFire, PlayerFireProjectile, Recipients, ServerPacket};
use crate::storage::{among, distinct_slots, overlaid, Table};
use crate::types::{
    clock_of, elapsed, fx_mul, lemma_mul_bound, lemma_trunc_div_bound, saturate, saturated,
    time_since, to_clock, trunc_div, unscale, Accel, Distance, Energy, EnergyRegen, Instant,
    IsDead, IsMissile, IsSpectating, KeyState, LastShotTime, Mob, MobSpawnTime, Plane, PlayerRef,
    Position, Rotation, SCALE, Speed, StartTime, Team, ThisFrame, Vector2, Velocity,
};
use vstd::prelude::*;

verus! {

pub struct MissileFireHandler;

pub struct MissileFireHandlerData<'a> {
    pub ents: &'a mut Entities,
    pub pos: &'a mut Table<Position>,
    pub vel: &'a mut Table<Velocity>,
    pub rot: &'a Table<Rotation>,
    pub plane: &'a Table<Plane>,
    pub teams: &'a mut Table<Team>,
    pub keystate: &'a Table<KeyState>,
    pub energy: &'a mut Table<Energy>,
    pub config: &'a Config,
    pub flags: &'a mut Table<IsMissile>,
    pub mobs: &'a mut Table<Mob>,
    pub owner: &'a mut Table<PlayerRef>,
    pub conns: &'a mut Connections,
    pub starttime: &'a StartTime,
    pub thisframe: &'a ThisFrame,
    pub spawntime: &'a mut Table<MobSpawnTime>,
    pub lastshot: &'a mut Table<LastShotTime>,
    pub is_dead: &'a Table<IsDead>,
    pub is_spec: &'a Table<IsSpectating>,
}

/// Where a missile starts, how fast, and how it accelerates.
#[derive(Clone, Copy, Debug, PartialEq, Eq, Structural)]
pub struct Launch {
    pub pos: Position,
    pub vel: Velocity,
    pub accel: Accel,
}

/// One missile fired in a tick.
#[derive(Clone, Copy, Debug, PartialEq, Eq, Structural)]
pub struct Shot {
    pub missile: Entity,
    pub ty: Mob,
    pub launch: Launch,
    pub max_speed: Speed,
    pub team: Team,
    pub owner: Entity,
    /// The energy the owner is left with.
    pub energy: Energy,
    pub energy_regen: EnergyRegen,
}

/// The launch of a missile by a plane at `pos`, moving at `vel` and headed
/// along `rot`.
///
/// The missile flies along the plane's nose, `(sin, -cos)`. It starts
/// `offset` ahead of the plane. Its speed is its base speed plus the
/// missile's share of the plane's own speed along the nose, where that is
/// forward.
#[verifier::opaque]
pub open spec fn launch_of(
    offset: Distance,
    missile: MissileInfo,
    pos: Position,
    vel: Velocity,
    rot: Rotation,
) -> Launch {
    let dx = rot.sin as int;
    let dy = -(rot.cos as int);
    let along = trunc_div(dx * vel.x + dy * vel.y, SCALE as int);
    let forward = if along < 0 {
        0
    } else {
        along
    };
    let speed = fx_mul(forward, missile.speed_factor as int) + missile.base_speed;
    Launch {
        pos: Vector2 {
            x: saturated(pos.x + fx_mul(dx, offset as int)) as i32,
            y: saturated(pos.y + fx_mul(dy, offset as int)) as i32,
        },
        vel: Vector2 {
            x: saturated(fx_mul(dx, speed)) as i32,
            y: saturated(fx_mul(dy, speed)) as i32,
        },
        accel: Vector2 {
            x: saturated(fx_mul(dx, missile.accel as int)) as i32,
            y: saturated(fx_mul(dy, missile.accel as int)) as i32,
        },
    }
}

pub fn launch(offset: Distance, missile: &MissileInfo, pos: Position, vel: Velocity, rot: Rotation) -> (r:
    Launch)
    ensures
        r == launch_of(offset, *missile, pos, vel, rot),
{
    reveal(launch_of);
    let dx: i128 = rot.sin as i128;
    let dy: i128 = -(rot.cos as i128);
    let ghost b31: int = 0x8000_0000;
    let ghost b62: int = 0x4000_0000_0000_0000;
    proof {
        lemma_mul_bound(dx as int, vel.x as int, b31, b31);
        lemma_mul_bound(dy as int, vel.y as int, b31, b31);
        assert(b31 * b31 == b62) by (nonlinear_arith)
            requires
                b31 == 0x8000_0000,
                b62 == 0x4000_0000_0000_0000,
        ;
    }
    let along: i128 = unscale(dx * vel.x as i128 + dy * vel.y as i128);
    let forward: i128 = if along < 0 {
        0
    } else {
        along
    };
    proof {
        lemma_trunc_div_bound(dx * vel.x + dy * vel.y, 2 * b62);
        lemma_mul_bound(forward as int, missile.speed_factor as int, 2 * b62, b31);
        assert((2 * b62) * b31 == 0x4000_0000_0000_0000_0000_0000) by (nonlinear_arith)
            requires
                b31 == 0x8000_0000,
                b62 == 0x4000_0000_0000_0000,
        ;
    }
    let ghost b94: int = 0x4000_0000_0000_0000_0000_0000;
    let share: i128 = unscale(forward * missile.speed_factor as i128);
    proof {
        lemma_trunc_div_bound(forward * missile.speed_factor, b94);
    }
    let speed: i128 = share + missile.base_speed as i128;
    proof {
        lemma_mul_bound(dx as int, speed as int, b31, 2 * b94);
        lemma_mul_bound(dy as int, speed as int, b31, 2 * b94);
        assert(b31 * (2 * b94) == 0x4000_0000_0000_0000_0000_0000_0000_0000) by (nonlinear_arith)
            requires
                b31 == 0x8000_0000,
                b94 == 0x4000_0000_0000_0000_0000_0000,
        ;
        lemma_mul_bound(dx as int, missile.accel as int, b31, b31);
        lemma_mul_bound(dy as int, missile.accel as int, b31, b31);
        lemma_mul_bound(dx as int, offset as int, b31, b31);
        lemma_mul_bound(dy as int, offset as int, b31, b31);
        lemma_trunc_div_bound(dx * offset, b62);
        lemma_trunc_div_bound(dy * offset, b62);
    }
    Launch {
        pos: Vector2 {
            x: saturate(pos.x as i128 + unscale(dx * offset as i128)),
            y: saturate(pos.y as i128 + unscale(dy * offset as i128)),
        },
        vel: Vector2 { x: saturate(unscale(dx * speed)), y: saturate(unscale(dy * speed)) },
        accel: Vector2 {
            x: saturate(unscale(dx * missile.accel as i128)),
            y: saturate(unscale(dy * missile.accel as i128)),
        },
    }
}

/// What the handler reads: the tables as they stand when it starts.
pub struct FireState {
    pub pos: Map<Entity, Position>,
    pub vel: Map<Entity, Velocity>,
    pub rot: Map<Entity, Rotation>,
    pub plane: Map<Entity, Plane>,
    pub teams: Map<Entity, Team>,
    pub keystate: Map<Entity, KeyState>,
    pub energy: Map<Entity, Energy>,
    pub lastshot: Map<Entity, LastShotTime>,
    pub is_dead: Map<Entity, IsDead>,
    pub is_spec: Map<Entity, IsSpectating>,
    pub config: Config,
    pub now: Instant,
}

impl FireState {
    /// `e` has every component that firing reads.
    pub open spec fn equipped(self, e: Entity) -> bool {
        &&& self.pos.contains_key(e)
        &&& self.vel.contains_key(e)
        &&& self.rot.contains_key(e)
        &&& self.plane.contains_key(e)
        &&& self.teams.contains_key(e)
        &&& self.keystate.contains_key(e)
        &&& self.energy.contains_key(e)
        &&& self.lastshot.contains_key(e)
    }

    /// The parameters of the plane of `e` and of the missile it fires,
    /// where the configuration has both.
    pub open spec fn armament(self, e: Entity) -> Option<(PlaneInfo, MissileInfo)> {
        match self.config.planes.lookup(self.plane[e]) {
            Some(info) => match self.config.mobs.lookup(info.missile_type) {
                Some(mob) => match mob.missile {
                    Some(missile) => Some((info, missile)),
                    None => None,
                },
                None => None,
            },
            None => None,
        }
    }

    /// The plane of `e` is in play: `e` is neither dead nor watching.
    pub open spec fn in_play(self, e: Entity) -> bool {
        !self.is_dead.contains_key(e) && !self.is_spec.contains_key(e)
    }

    /// `e` fires this tick: its plane is in play, it is past its fire
    /// delay, holds the fire key and has the energy.
    pub open spec fn fires(self, e: Entity) -> bool {
        &&& self.equipped(e)
        &&& self.in_play(e)
        &&& match self.armament(e) {
            Some((info, _)) => {
                &&& elapsed(self.now, self.lastshot[e].0) >= info.fire_delay
                &&& self.keystate[e].fire
                &&& self.energy[e] >= info.fire_energy
            },
            None => false,
        }
    }

    /// The shot of `e`, with `missile` the entity made for it.
    pub open spec fn shot(self, e: Entity, missile: Entity) -> Shot {
        let (info, m) = self.armament(e).unwrap();
        Shot {
            missile,
            ty: info.missile_type,
            launch: launch_of(info.missile_offset, m, self.pos[e], self.vel[e], self.rot[e]),
            max_speed: m.max_speed,
            team: self.teams[e],
            owner: e,
            energy: saturated(self.energy[e] - info.fire_energy) as i32,
            energy_regen: info.energy_regen,
        }
    }
}

/// Only planes in play fire. A player who is dead or watching fires
/// nothing, whatever keys it holds and whatever energy it has.
pub proof fn law_out_of_play_holds_fire(st: FireState, e: Entity)
    requires
        st.is_dead.contains_key(e) || st.is_spec.contains_key(e),
    ensures
        !st.fires(e),
{
}

/// One of `shots` is owned by `e`.
pub open spec fn fired_by(shots: Seq<Shot>, e: Entity) -> bool {
    exists|i: int| 0 <= i < shots.len() && (#[trigger] shots[i]).owner == e
}

/// One of `shots` made the entity `e`.
pub open spec fn made_by(shots: Seq<Shot>, e: Entity) -> bool {
    exists|i: int| 0 <= i < shots.len() && (#[trigger] shots[i]).missile == e
}

/// The message that announces `shot` at wire time `clock`.
pub open spec fn announces(out: Outbound, shot: Shot, clock: u32) -> bool {
    &&& out.to == Recipients::All
    &&& match out.packet {
        ServerPacket::PlayerFire(f) => {
            &&& f.clock == clock
            &&& f.id == shot.owner
            &&& f.energy == shot.energy
            &&& f.energy_regen == shot.energy_regen
            &&& f.projectiles@ == seq![
                PlayerFireProjectile {
                    id: shot.missile,
                    ty: shot.ty,
                    pos: shot.launch.pos,
                    speed: shot.launch.vel,
                    accel: shot.launch.accel,
                    max_speed: shot.max_speed,
                },
            ]
        },
        _ => false,
    }
}

impl<'a> MissileFireHandlerData<'a> {
    pub open spec fn state(&self) -> FireState {
        FireState {
            pos: self.pos@,
            vel: self.vel@,
            rot: self.rot@,
            plane: self.plane@,
            teams: self.teams@,
            keystate: self.keystate@,
            energy: self.energy@,
            lastshot: self.lastshot@,
            is_dead: self.is_dead@,
            is_spec: self.is_spec@,
            config: *self.config,
            now: self.thisframe.0,
        }
    }

    /// The allocator of entities is in order.
    pub open spec fn allocator_wf(&self) -> bool {
        self.ents.wf()
    }

    /// Every component of the tables that receive the missiles belongs to
    /// a live entity.
    pub open spec fn covered(&self) -> bool {
        &&& self.ents.covers(self.pos@)
        &&& self.ents.covers(self.vel@)
        &&& self.ents.covers(self.mobs@)
        &&& self.ents.covers(self.flags@)
        &&& self.ents.covers(self.teams@)
        &&& self.ents.covers(self.owner@)
        &&& self.ents.covers(self.spawntime@)
    }

    /// Whether the tables that receive the missiles hold components of
    /// live entities only.
    pub fn is_covered(&self) -> (r: bool)
        requires
            self.allocator_wf(),
        ensures
            r == self.covered(),
    {
        self.ents.covers_table(&*self.pos) && self.ents.covers_table(&*self.vel)
            && self.ents.covers_table(&*self.mobs) && self.ents.covers_table(&*self.flags)
            && self.ents.covers_table(&*self.teams) && self.ents.covers_table(&*self.owner)
            && self.ents.covers_table(&*self.spawntime)
    }

    /// The shot of `e`, if `e` fires; the entity of the missile is yet to
    /// be made and stands as `e` itself.
    fn aim(&self, e: Entity) -> (r: Option<Shot>)
        ensures
            r is Some <==> self.state().fires(e),
            r is Some ==> r.unwrap() == self.state().shot(e, e),
    {
        let pos = match self.pos.get(e) {
            Some(v) => *v,
            None => { return None; },
        };
        let vel = match self.vel.get(e) {
            Some(v) => *v,
            None => { return None; },
        };
        let rot = match self.rot.get(e) {
            Some(v) => *v,
            None => { return None; },
        };
        let plane = match self.plane.get(e) {
            Some(v) => *v,
            None => { return None; },
        };
        let team = match self.teams.get(e) {
            Some(v) => *v,
            None => { return None; },
        };
        let keystate = match self.keystate.get(e) {
            Some(v) => *v,
            None => { return None; },
        };
        let energy = match self.energy.get(e) {
            Some(v) => *v,
            None => { return None; },
        };
        let lastshot = match self.lastshot.get(e) {
            Some(v) => *v,
            None => { return None; },
        };
        if self.is_dead.contains(e) || self.is_spec.contains(e) {
            return None;
        }
        let info = match self.config.planes.get(plane) {
            Some(v) => v,
            None => { return None; },
        };
        let mob = match self.config.mobs.get(info.missile_type) {
            Some(v) => v,
            None => { return None; },
        };
        let missile = match mob.missile {
            Some(v) => v,
            None => { return None; },
        };
        if time_since(self.thisframe.0, lastshot.0) < info.fire_delay || !keystate.fire || energy
            < info.fire_energy {
            return None;
        }
        Some(
            Shot {
                missile: e,
                ty: info.missile_type,
                launch: launch(info.missile_offset, &missile, pos, vel, rot),
                max_speed: missile.max_speed,
                team,
                owner: e,
                energy: saturate(energy as i128 - info.fire_energy as i128),
                energy_regen: info.energy_regen,
            },
        )
    }
}

/// The columns of a volley: one vector per component, in the order of the
/// shots.
struct Columns {
    missiles: Vec<Entity>,
    owners: Vec<Entity>,
    positions: Vec<Position>,
    velocities: Vec<Velocity>,
    kinds: Vec<Mob>,
    marks: Vec<IsMissile>,
    sides: Vec<Team>,
    refs: Vec<PlayerRef>,
    births: Vec<MobSpawnTime>,
    energies: Vec<Energy>,
    stamps: Vec<LastShotTime>,
}

impl Columns {
    spec fn of(self, fired: Seq<Shot>, now: Instant) -> bool {
        &&& self.missiles@ == fired.map_values(|s: Shot| s.missile)
        &&& self.owners@ == fired.map_values(|s: Shot| s.owner)
        &&& self.positions@ == fired.map_values(|s: Shot| s.launch.pos)
        &&& self.velocities@ == fired.map_values(|s: Shot| s.launch.vel)
        &&& self.kinds@ == fired.map_values(|s: Shot| s.ty)
        &&& self.marks@ == fired.map_values(|s: Shot| IsMissile)
        &&& self.sides@ == fired.map_values(|s: Shot| s.team)
        &&& self.refs@ == fired.map_values(|s: Shot| PlayerRef(s.owner))
        &&& self.births@ == fired.map_values(|s: Shot| MobSpawnTime(now))
        &&& self.energies@ == fired.map_values(|s: Shot| s.energy)
        &&& self.stamps@ == fired.map_values(|s: Shot| LastShotTime(now))
    }

    fn split(fired: &Vec<Shot>, now: Instant) -> (r: Columns)
        ensures
            r.of(fired@, now),
    {
        let mut r = Columns {
            missiles: Vec::new(),
            owners: Vec::new(),
            positions: Vec::new(),
            velocities: Vec::new(),
            kinds: Vec::new(),
            marks: Vec::new(),
            sides: Vec::new(),
            refs: Vec::new(),
            births: Vec::new(),
            energies: Vec::new(),
            stamps: Vec::new(),
        };
        let mut i: usize = 0;
        proof {
            let none = fired@.take(0);
            assert(r.missiles@ =~= none.map_values(|s: Shot| s.missile));
            assert(r.owners@ =~= none.map_values(|s: Shot| s.owner));
            assert(r.positions@ =~= none.map_values(|s: Shot| s.launch.pos));
            assert(r.velocities@ =~= none.map_values(|s: Shot| s.launch.vel));
            assert(r.kinds@ =~= none.map_values(|s: Shot| s.ty));
            assert(r.marks@ =~= none.map_values(|s: Shot| IsMissile));
            assert(r.sides@ =~= none.map_values(|s: Shot| s.team));
            assert(r.refs@ =~= none.map_values(|s: Shot| PlayerRef(s.owner)));
            assert(r.births@ =~= none.map_values(|s: Shot| MobSpawnTime(now)));
            assert(r.energies@ =~= none.map_values(|s: Shot| s.energy));
            assert(r.stamps@ =~= none.map_values(|s: Shot| LastShotTime(now)));
        }
        while i < fired.len()
            invariant
                i <= fired@.len(),
                r.of(fired@.take(i as int), now),
            decreases fired@.len() - i,
        {
            let shot = fired[i];
            r.missiles.push(shot.missile);
            r.owners.push(shot.owner);
            r.positions.push(shot.launch.pos);
            r.velocities.push(shot.launch.vel);
            r.kinds.push(shot.ty);
            r.marks.push(IsMissile);
            r.sides.push(shot.team);
            r.refs.push(PlayerRef(shot.owner));
            r.births.push(MobSpawnTime(now));
            r.energies.push(shot.energy);
            r.stamps.push(LastShotTime(now));
            proof {
                let next = fired@.take(i + 1);
                assert(r.missiles@ =~= next.map_values(|s: Shot| s.missile));
                assert(r.owners@ =~= next.map_values(|s: Shot| s.owner));
                assert(r.positions@ =~= next.map_values(|s: Shot| s.launch.pos));
                assert(r.velocities@ =~= next.map_values(|s: Shot| s.launch.vel));
                assert(r.kinds@ =~= next.map_values(|s: Shot| s.ty));
                assert(r.marks@ =~= next.map_values(|s: Shot| IsMissile));
                assert(r.sides@ =~= next.map_values(|s: Shot| s.team));
                assert(r.refs@ =~= next.map_values(|s: Shot| PlayerRef(s.owner)));
                assert(r.births@ =~= next.map_values(|s: Shot| MobSpawnTime(now)));
                assert(r.energies@ =~= next.map_values(|s: Shot| s.energy));
                assert(r.stamps@ =~= next.map_values(|s: Shot| LastShotTime(now)));
            }
            i += 1;
        }
        proof {
            assert(fired@.take(i as int) =~= fired@);
        }
        r
    }
}

impl<'a> MissileFireHandlerData<'a> {
    /// The shots of all who fire, in ascending order of the owner's slot;
    /// the missiles' entities are yet to be made.
    fn aim_all(&self) -> (aimed: Vec<Shot>)
        ensures
            forall|e: Entity| self.state().fires(e) <==> #[trigger] fired_by(aimed@, e),
            forall|i: int, j: int|
                0 <= i < j < aimed@.len() ==> aimed@[i].owner.id < aimed@[j].owner.id,
            forall|i: int|
                0 <= i < aimed@.len() ==> #[trigger] aimed@[i] == self.state().shot(
                    aimed@[i].owner,
                    aimed@[i].owner,
                ),
    {
        let ghost st = self.state();
        let candidates: Vec<Entity> = self.pos.entities();
        let mut aimed: Vec<Shot> = Vec::new();
        let mut i: usize = 0;
        while i < candidates.len()
            invariant
                i <= candidates@.len(),
                self.state() == st,
                forall|e: Entity| candidates@.contains(e) <==> st.pos.contains_key(e),
                forall|k: int, l: int|
                    0 <= k < l < candidates@.len() ==> candidates@[k].id < candidates@[l].id,
                forall|e: Entity|
                    #![trigger among(candidates@, i as int, e)]
                    #![trigger fired_by(aimed@, e)]
                    (st.fires(e) && among(candidates@, i as int, e)) <==> fired_by(aimed@, e),
                forall|k: int, l: int|
                    0 <= k < l < aimed@.len() ==> aimed@[k].owner.id < aimed@[l].owner.id,
                forall|k: int|
                    0 <= k < aimed@.len() && i < candidates@.len() ==> (#[trigger] aimed@[k]).owner.id
                        < candidates@[i as int].id,
                forall|k: int|
                    0 <= k < aimed@.len() ==> #[trigger] aimed@[k] == st.shot(
                        aimed@[k].owner,
                        aimed@[k].owner,
                    ),
            decreases candidates@.len() - i,
        {
            let e = candidates[i];
            let ghost before = aimed@;
            match self.aim(e) {
                Some(shot) => {
                    aimed.push(shot);
                },
                None => {},
            }
            i += 1;
            proof {
                let n = before.len() as int;
                assert(st.fires(e) ==> aimed@ == before.push(aimed@[n]) && aimed@[n].owner == e);
                assert forall|x: Entity|
                    #![trigger among(candidates@, i as int, x)]
                    #![trigger fired_by(aimed@, x)]
                    (st.fires(x) && among(candidates@, i as int, x)) <==> fired_by(aimed@, x) by {
                    let earlier = among(candidates@, i - 1, x);
                    let had = fired_by(before, x);
                    if st.fires(x) && among(candidates@, i as int, x) {
                        let c = choose|k: int|
                            0 <= k < i && k < candidates@.len() && candidates@[k] == x;
                        if c < i - 1 {
                            assert(earlier);
                            let k = choose|k: int|
                                0 <= k < before.len() && (#[trigger] before[k]).owner == x;
                            assert(aimed@[k].owner == x);
                        } else {
                            assert(x == e);
                            assert(aimed@[n].owner == x);
                        }
                    }
                    if fired_by(aimed@, x) {
                        let k = choose|k: int|
                            0 <= k < aimed@.len() && (#[trigger] aimed@[k]).owner == x;
                        if k < n {
                            assert(before[k].owner == x);
                            assert(had);
                            assert(earlier);
                            let c = choose|c: int|
                                0 <= c < i - 1 && c < candidates@.len() && candidates@[c] == x;
                            assert(0 <= c < i && candidates@[c] == x);
                        } else {
                            assert(x == e);
                            assert(0 <= i - 1 < i && candidates@[i - 1] == x);
                        }
                    }
                }
            }
        }
        proof {
            assert forall|e: Entity| st.fires(e) <==> #[trigger] fired_by(aimed@, e) by {
                if st.fires(e) {
                    assert(candidates@.contains(e));
                }
            }
        }
        aimed
    }
}

/// Makes the entity of each aimed shot and queues the shot's message.
fn release(ents: &mut Entities, conns: &mut Connections, aimed: &Vec<Shot>, clock: u32) -> (fired:
    Vec<Shot>)
    requires
        old(ents).wf(),
    ensures
        final(ents).wf(),
        fired@.len() == aimed@.len(),
        forall|i: int|
            0 <= i < fired@.len() ==> #[trigger] fired@[i] == (Shot {
                missile: fired@[i].missile,
                ..aimed@[i]
            }),
        forall|e: Entity| old(ents).is_alive(e) ==> final(ents).is_alive(e),
        forall|e: Entity| old(ents).is_retired(e) == final(ents).is_retired(e),
        forall|e: Entity|
            final(ents).is_alive(e) <==> old(ents).is_alive(e) || #[trigger] made_by(fired@, e),
        forall|i: int|
            0 <= i < fired@.len() ==> !old(ents).is_alive((#[trigger] fired@[i]).missile) && !old(
                ents,
            ).is_retired(fired@[i].missile),
        forall|i: int, j: int|
            0 <= i < j < fired@.len() ==> fired@[i].missile.id != fired@[j].missile.id,
        final(conns).queued().len() == old(conns).queued().len() + fired@.len(),
        final(conns).queued().take(old(conns).queued().len() as int) == old(conns).queued(),
        forall|i: int|
            0 <= i < fired@.len() ==> announces(
                #[trigger] final(conns).queued()[old(conns).queued().len() + i],
                fired@[i],
                clock,
            ),
        final(conns).links() == old(conns).links(),
        final(conns).wf() == old(conns).wf(),
{
    let ghost queue0 = conns.queued();
    let mut fired: Vec<Shot> = Vec::new();
    let mut i: usize = 0;
    while i < aimed.len()
        invariant
            i <= aimed@.len(),
            fired@.len() == i,
            ents.wf(),
            forall|k: int|
                0 <= k < fired@.len() ==> #[trigger] fired@[k] == (Shot {
                    missile: fired@[k].missile,
                    ..aimed@[k]
                }),
            forall|e: Entity| old(ents).is_alive(e) ==> ents.is_alive(e),
            forall|e: Entity| old(ents).is_retired(e) == ents.is_retired(e),
            forall|e: Entity|
                ents.is_alive(e) <==> old(ents).is_alive(e) || #[trigger] made_by(fired@, e),
            forall|k: int|
                0 <= k < fired@.len() ==> !old(ents).is_alive((#[trigger] fired@[k]).missile)
                    && !old(ents).is_retired(fired@[k].missile),
            forall|k: int, l: int|
                0 <= k < l < fired@.len() ==> fired@[k].missile.id != fired@[l].missile.id,
            conns.queued().len() == queue0.len() + fired@.len(),
            conns.queued().take(queue0.len() as int) == queue0,
            forall|k: int|
                0 <= k < fired@.len() ==> announces(
                    #[trigger] conns.queued()[queue0.len() + k],
                    fired@[k],
                    clock,
                ),
            conns.links() == old(conns).links(),
            conns.wf() == old(conns).wf(),
        decreases aimed@.len() - i,
    {
        let ghost before = fired@;
        let ghost ents1 = *ents;
        let m_ent = ents.create();
        let shot = Shot { missile: m_ent, ..aimed[i] };
        let mut projectiles: Vec<PlayerFireProjectile> = Vec::new();
        projectiles.push(
            PlayerFireProjectile {
                id: m_ent,
                ty: shot.ty,
                pos: shot.launch.pos,
                speed: shot.launch.vel,
                accel: shot.launch.accel,
                max_speed: shot.max_speed,
            },
        );
        let packet = PlayerFire {
            clock,
            id: shot.owner,
            energy: shot.energy,
            energy_regen: shot.energy_regen,
            projectiles,
        };
        conns.send_to_all(ServerPacket::PlayerFire(packet));
        fired.push(shot);
        proof {
            let n = before.len() as int;
            assert(fired@[n] == shot);
            ents.lemma_alive_not_retired(m_ent);
            assert forall|k: int| 0 <= k < n implies before[k].missile.id != m_ent.id by {
                let o = before[k].missile;
                assert(made_by(before, o));
                if o.id == m_ent.id {
                    ents.lemma_one_generation_alive(o, m_ent);
                }
            }
            assert forall|x: Entity|
                ents.is_alive(x) <==> old(ents).is_alive(x) || #[trigger] made_by(fired@, x) by {
                // what held before this shot
                assert(ents1.is_alive(x) <==> old(ents).is_alive(x) || made_by(before, x));
                if x != m_ent && ents1.is_alive(x) && !old(ents).is_alive(x) {
                    let k = choose|k: int|
                        0 <= k < before.len() && (#[trigger] before[k]).missile == x;
                    assert(fired@[k].missile == x);
                }
            }
        }
        i += 1;
    }
    fired
}

impl MissileFireHandler {
    pub fn new() -> (r: Self) {
        MissileFireHandler
    }

    pub fn name() -> (r: &'static str)
        ensures
            r@ == "systems::missile::MissileFireHandler"@,
    {
        "systems::missile::MissileFireHandler"
    }

    /// What the system declares: it runs after positions are updated.
    pub open spec fn declared() -> DeclView {
        DeclView {
            name: "systems::missile::MissileFireHandler"@,
            dependencies: seq![
                "systems::PositionUpdate"@,
            ],
            reads: seq![
                Resource::Rotation,
                Resource::Plane,
                Resource::KeyState,
                Resource::Config,
                Resource::StartTime,
                Resource::ThisFrame,
                Resource::IsDead,
                Resource::IsSpectating,
            ],
            writes: seq![
                Resource::Entities,
                Resource::Position,
                Resource::Velocity,
                Resource::Team,
                Resource::Energy,
                Resource::IsMissile,
                Resource::Mob,
                Resource::PlayerRef,
                Resource::Connections,
                Resource::MobSpawnTime,
                Resource::LastShotTime,
            ],
        }
    }

    /// What the system declares to the scheduler.
    pub fn decl() -> (d: SystemDecl)
        ensures
            d@ == Self::declared(),
    {
        let d = SystemDecl::new(Self::name()).after("systems::PositionUpdate").reading(Resource::Rotation).reading(Resource::Plane).reading(Resource::KeyState).reading(Resource::Config).reading(Resource::StartTime).reading(Resource::ThisFrame).reading(Resource::IsDead).reading(Resource::IsSpectating).writing(Resource::Entities).writing(Resource::Position).writing(Resource::Velocity).writing(Resource::Team).writing(Resource::Energy).writing(Resource::IsMissile).writing(Resource::Mob).writing(Resource::PlayerRef).writing(Resource::Connections).writing(Resource::MobSpawnTime).writing(Resource::LastShotTime);
        proof {
            assert(d@.reads =~= Self::declared().reads);
            assert(d@.writes =~= Self::declared().writes);
        }
        d
    }

    /// Fires for every player that can, in ascending order of slot, and
    /// returns the shots.
    ///
    /// Each shot makes one new entity, files the missile's components under
    /// it, takes the fire energy from its owner, restarts the owner's fire
    /// delay and queues one message for all players.
    pub fn run(&mut self, data: MissileFireHandlerData<'_>) -> (fired: Vec<Shot>)
        requires
            data.allocator_wf(),
            data.covered(),
        ensures
            final(data.ents).wf(),
            forall|e: Entity| old(data.ents).is_alive(e) ==> final(data.ents).is_alive(e),
            forall|e: Entity| old(data.ents).is_retired(e) == final(data.ents).is_retired(e),
            forall|e: Entity|
                final(data.ents).is_alive(e) <==> old(data.ents).is_alive(e) || #[trigger] made_by(
                    fired@,
                    e,
                ),
            // who fires
            forall|e: Entity| data.state().fires(e) <==> #[trigger] fired_by(fired@, e),
            forall|i: int, j: int|
                0 <= i < j < fired@.len() ==> fired@[i].owner.id < fired@[j].owner.id,
            // what is fired
            forall|i: int|
                0 <= i < fired@.len() ==> #[trigger] fired@[i] == data.state().shot(
                    fired@[i].owner,
                    fired@[i].missile,
                ),
            forall|i: int|
                0 <= i < fired@.len() ==> !old(data.ents).is_alive((#[trigger] fired@[i]).missile)
                    && !old(data.ents).is_retired(fired@[i].missile),
            distinct_slots(fired@.map_values(|s: Shot| s.missile)),
            // the missiles' components
            overlaid(
                old(data.pos)@,
                final(data.pos)@,
                fired@.map_values(|s: Shot| s.missile),
                fired@.map_values(|s: Shot| s.launch.pos),
            ),
            overlaid(
                old(data.vel)@,
                final(data.vel)@,
                fired@.map_values(|s: Shot| s.missile),
                fired@.map_values(|s: Shot| s.launch.vel),
            ),
            overlaid(
                old(data.mobs)@,
                final(data.mobs)@,
                fired@.map_values(|s: Shot| s.missile),
                fired@.map_values(|s: Shot| s.ty),
            ),
            overlaid(
                old(data.flags)@,
                final(data.flags)@,
                fired@.map_values(|s: Shot| s.missile),
                fired@.map_values(|s: Shot| IsMissile),
            ),
            overlaid(
                old(data.teams)@,
                final(data.teams)@,
                fired@.map_values(|s: Shot| s.missile),
                fired@.map_values(|s: Shot| s.team),
            ),
            overlaid(
                old(data.owner)@,
                final(data.owner)@,
                fired@.map_values(|s: Shot| s.missile),
                fired@.map_values(|s: Shot| PlayerRef(s.owner)),
            ),
            overlaid(
                old(data.spawntime)@,
                final(data.spawntime)@,
                fired@.map_values(|s: Shot| s.missile),
                fired@.map_values(|s: Shot| MobSpawnTime(data.thisframe.0)),
            ),
            // the owners' energy and fire delay
            overlaid(
                old(data.energy)@,
                final(data.energy)@,
                fired@.map_values(|s: Shot| s.owner),
                fired@.map_values(|s: Shot| s.energy),
            ),
            overlaid(
                old(data.lastshot)@,
                final(data.lastshot)@,
                fired@.map_values(|s: Shot| s.owner),
                fired@.map_values(|s: Shot| LastShotTime(data.thisframe.0)),
            ),
            // the messages
            final(data.conns).queued().len() == old(data.conns).queued().len() + fired@.len(),
            final(data.conns).queued().take(old(data.conns).queued().len() as int)
                == old(data.conns).queued(),
            forall|i: int|
                0 <= i < fired@.len() ==> announces(
                    #[trigger] final(data.conns).queued()[old(data.conns).queued().len() + i],
                    fired@[i],
                    clock_of(elapsed(data.thisframe.0, data.starttime.0)),
                ),
            final(data.conns).links() == old(data.conns).links(),
            final(data.conns).wf() == old(data.conns).wf(),
    {
        let ghost st = data.state();
        let ghost ents0 = *data.ents;
        let now: Instant = data.thisframe.0;
        let clock: u32 = to_clock(time_since(now, data.starttime.0));
        let aimed = data.aim_all();
        let fired = release(data.ents, data.conns, &aimed, clock);
        let cols = Columns::split(&fired, now);
        proof {
            assert forall|e: Entity| st.fires(e) <==> #[trigger] fired_by(fired@, e) by {
                assert(st.fires(e) <==> fired_by(aimed@, e));
                if st.fires(e) {
                    let i = choose|i: int|
                        0 <= i < aimed@.len() && (#[trigger] aimed@[i]).owner == e;
                    assert(fired@[i].owner == e);
                }
            }
            assert forall|e: Entity, k: int|
                0 <= k < cols.missiles@.len() && e.id == cols.missiles@[k].id implies !ents0.is_alive(
                e,
            ) by {
                let m = fired@[k].missile;
                assert(made_by(fired@, m));
                if ents0.is_alive(e) {
                    data.ents.lemma_one_generation_alive(e, m);
                }
            }
            assert forall|e: Entity, k: int|
                data.energy@.contains_key(e) && 0 <= k < cols.owners@.len() && e.id
                    == cols.owners@[k].id implies e == cols.owners@[k] by {
                assert(fired_by(aimed@, aimed@[k].owner));
                data.energy.lemma_one_per_slot(e, cols.owners@[k]);
            }
            assert forall|e: Entity, k: int|
                data.lastshot@.contains_key(e) && 0 <= k < cols.owners@.len() && e.id
                    == cols.owners@[k].id implies e == cols.owners@[k] by {
                assert(fired_by(aimed@, aimed@[k].owner));
                data.lastshot.lemma_one_per_slot(e, cols.owners@[k]);
            }
        }
        data.pos.insert_all(&cols.missiles, &cols.positions);
        data.vel.insert_all(&cols.missiles, &cols.velocities);
        data.mobs.insert_all(&cols.missiles, &cols.kinds);
        data.flags.insert_all(&cols.missiles, &cols.marks);
        data.teams.insert_all(&cols.missiles, &cols.sides);
        data.owner.insert_all(&cols.missiles, &cols.refs);
        data.spawntime.insert_all(&cols.missiles, &cols.births);
        data.energy.insert_all(&cols.owners, &cols.energies);
        data.lastshot.insert_all(&cols.owners, &cols.stamps);
        fired
    }
}

} // verus!
