//! The component store: the entities and, for every component type, the
//! table of the entities that have it.
//!
//! A component exists for an entity from the insert that attaches it to the
//! remove that detaches it, or to the destruction of the entity, which
//! detaches everything.

use crate::ctf::component::{FlagCarrier, IsFlag, LastDrop};
use crate::entity::{Entities, Entity};
use crate::storage::Table;
use crate::types::{
    Earnings, Energy, FlagCode, Health, IsDead, IsMissile,
    IsPlayer, IsSpectating, KeyState, LastShotTime, Level, Mob,
    MobSpawnTime, Name, Plane, PlayerRef, Position, Powerups,
    Rotation, Score, Status, Team, TotalDeaths, TotalKills,
    Upgrades, Velocity,
};
use vstd::prelude::*;

verus! {

pub struct World {
    pub entities: Entities,
    pub pos: Table<Position>,
    pub rot: Table<Rotation>,
    pub vel: Table<Velocity>,
    pub team: Table<Team>,
    pub plane: Table<Plane>,
    pub is_player: Table<IsPlayer>,
    pub is_spec: Table<IsSpectating>,
    pub is_dead: Table<IsDead>,
    pub mob: Table<Mob>,
    pub is_missile: Table<IsMissile>,
    pub keystate: Table<KeyState>,
    pub energy: Table<Energy>,
    pub health: Table<Health>,
    pub owner: Table<PlayerRef>,
    pub spawntime: Table<MobSpawnTime>,
    pub lastshot: Table<LastShotTime>,
    pub name: Table<Name>,
    pub level: Table<Level>,
    pub score: Table<Score>,
    pub earnings: Table<Earnings>,
    pub upgrades: Table<Upgrades>,
    pub powerups: Table<Powerups>,
    pub status: Table<Status>,
    pub flag: Table<FlagCode>,
    pub total_kills: Table<TotalKills>,
    pub total_deaths: Table<TotalDeaths>,
    pub is_flag: Table<IsFlag>,
    pub carrier: Table<FlagCarrier>,
    pub lastdrop: Table<LastDrop>,
}

impl World {
    /// The allocator is in order and every component belongs to a live
    /// entity.
    pub open spec fn wf(&self) -> bool {
        &&& self.entities.wf()
        &&& self.entities.covers(self.pos@)
        &&& self.entities.covers(self.rot@)
        &&& self.entities.covers(self.vel@)
        &&& self.entities.covers(self.team@)
        &&& self.entities.covers(self.plane@)
        &&& self.entities.covers(self.is_player@)
        &&& self.entities.covers(self.is_spec@)
        &&& self.entities.covers(self.is_dead@)
        &&& self.entities.covers(self.mob@)
        &&& self.entities.covers(self.is_missile@)
        &&& self.entities.covers(self.keystate@)
        &&& self.entities.covers(self.energy@)
        &&& self.entities.covers(self.health@)
        &&& self.entities.covers(self.owner@)
        &&& self.entities.covers(self.spawntime@)
        &&& self.entities.covers(self.lastshot@)
        &&& self.entities.covers(self.name@)
        &&& self.entities.covers(self.level@)
        &&& self.entities.covers(self.score@)
        &&& self.entities.covers(self.earnings@)
        &&& self.entities.covers(self.upgrades@)
        &&& self.entities.covers(self.powerups@)
        &&& self.entities.covers(self.status@)
        &&& self.entities.covers(self.flag@)
        &&& self.entities.covers(self.total_kills@)
        &&& self.entities.covers(self.total_deaths@)
        &&& self.entities.covers(self.is_flag@)
        &&& self.entities.covers(self.carrier@)
        &&& self.entities.covers(self.lastdrop@)
    }

    /// `e` has no component.
    pub open spec fn bare(&self, e: Entity) -> bool {
        &&& !self.pos@.contains_key(e)
        &&& !self.rot@.contains_key(e)
        &&& !self.vel@.contains_key(e)
        &&& !self.team@.contains_key(e)
        &&& !self.plane@.contains_key(e)
        &&& !self.is_player@.contains_key(e)
        &&& !self.is_spec@.contains_key(e)
        &&& !self.is_dead@.contains_key(e)
        &&& !self.mob@.contains_key(e)
        &&& !self.is_missile@.contains_key(e)
        &&& !self.keystate@.contains_key(e)
        &&& !self.energy@.contains_key(e)
        &&& !self.health@.contains_key(e)
        &&& !self.owner@.contains_key(e)
        &&& !self.spawntime@.contains_key(e)
        &&& !self.lastshot@.contains_key(e)
        &&& !self.name@.contains_key(e)
        &&& !self.level@.contains_key(e)
        &&& !self.score@.contains_key(e)
        &&& !self.earnings@.contains_key(e)
        &&& !self.upgrades@.contains_key(e)
        &&& !self.powerups@.contains_key(e)
        &&& !self.status@.contains_key(e)
        &&& !self.flag@.contains_key(e)
        &&& !self.total_kills@.contains_key(e)
        &&& !self.total_deaths@.contains_key(e)
        &&& !self.is_flag@.contains_key(e)
        &&& !self.carrier@.contains_key(e)
        &&& !self.lastdrop@.contains_key(e)
    }

    /// Every table is that of `before` without what `e` had.
    pub open spec fn detached(&self, before: &World, e: Entity) -> bool {
        &&& self.pos@ == before.pos@.remove(e)
        &&& self.rot@ == before.rot@.remove(e)
        &&& self.vel@ == before.vel@.remove(e)
        &&& self.team@ == before.team@.remove(e)
        &&& self.plane@ == before.plane@.remove(e)
        &&& self.is_player@ == before.is_player@.remove(e)
        &&& self.is_spec@ == before.is_spec@.remove(e)
        &&& self.is_dead@ == before.is_dead@.remove(e)
        &&& self.mob@ == before.mob@.remove(e)
        &&& self.is_missile@ == before.is_missile@.remove(e)
        &&& self.keystate@ == before.keystate@.remove(e)
        &&& self.energy@ == before.energy@.remove(e)
        &&& self.health@ == before.health@.remove(e)
        &&& self.owner@ == before.owner@.remove(e)
        &&& self.spawntime@ == before.spawntime@.remove(e)
        &&& self.lastshot@ == before.lastshot@.remove(e)
        &&& self.name@ == before.name@.remove(e)
        &&& self.level@ == before.level@.remove(e)
        &&& self.score@ == before.score@.remove(e)
        &&& self.earnings@ == before.earnings@.remove(e)
        &&& self.upgrades@ == before.upgrades@.remove(e)
        &&& self.powerups@ == before.powerups@.remove(e)
        &&& self.status@ == before.status@.remove(e)
        &&& self.flag@ == before.flag@.remove(e)
        &&& self.total_kills@ == before.total_kills@.remove(e)
        &&& self.total_deaths@ == before.total_deaths@.remove(e)
        &&& self.is_flag@ == before.is_flag@.remove(e)
        &&& self.carrier@ == before.carrier@.remove(e)
        &&& self.lastdrop@ == before.lastdrop@.remove(e)
    }

    /// A store with no entity.
    pub fn new() -> (r: Self)
        ensures
            r.wf(),
            forall|e: Entity| !r.entities.is_alive(e) && !r.entities.is_retired(e),
            forall|e: Entity| r.bare(e),
    {
        World {
            entities: Entities::new(),
            pos: Table::new(),
            rot: Table::new(),
            vel: Table::new(),
            team: Table::new(),
            plane: Table::new(),
            is_player: Table::new(),
            is_spec: Table::new(),
            is_dead: Table::new(),
            mob: Table::new(),
            is_missile: Table::new(),
            keystate: Table::new(),
            energy: Table::new(),
            health: Table::new(),
            owner: Table::new(),
            spawntime: Table::new(),
            lastshot: Table::new(),
            name: Table::new(),
            level: Table::new(),
            score: Table::new(),
            earnings: Table::new(),
            upgrades: Table::new(),
            powerups: Table::new(),
            status: Table::new(),
            flag: Table::new(),
            total_kills: Table::new(),
            total_deaths: Table::new(),
            is_flag: Table::new(),
            carrier: Table::new(),
            lastdrop: Table::new(),
        }
    }

    /// Makes an entity. It is distinct from every entity that is alive and
    /// from every entity that ever was destroyed, and it has no component.
    pub fn create(&mut self) -> (e: Entity)
        requires
            old(self).wf(),
        ensures
            final(self).wf(),
            !old(self).entities.is_alive(e),
            !old(self).entities.is_retired(e),
            final(self).entities.is_alive(e),
            final(self).bare(e),
            forall|o: Entity|
                o != e ==> (final(self).entities.is_alive(o) == old(self).entities.is_alive(o)
                    && final(self).entities.is_retired(o) == old(self).entities.is_retired(o)),
            final(self).pos == old(self).pos,
            final(self).rot == old(self).rot,
            final(self).vel == old(self).vel,
            final(self).team == old(self).team,
            final(self).plane == old(self).plane,
            final(self).is_player == old(self).is_player,
            final(self).is_spec == old(self).is_spec,
            final(self).is_dead == old(self).is_dead,
            final(self).mob == old(self).mob,
            final(self).is_missile == old(self).is_missile,
            final(self).keystate == old(self).keystate,
            final(self).energy == old(self).energy,
            final(self).health == old(self).health,
            final(self).owner == old(self).owner,
            final(self).spawntime == old(self).spawntime,
            final(self).lastshot == old(self).lastshot,
            final(self).name == old(self).name,
            final(self).level == old(self).level,
            final(self).score == old(self).score,
            final(self).earnings == old(self).earnings,
            final(self).upgrades == old(self).upgrades,
            final(self).powerups == old(self).powerups,
            final(self).status == old(self).status,
            final(self).flag == old(self).flag,
            final(self).total_kills == old(self).total_kills,
            final(self).total_deaths == old(self).total_deaths,
            final(self).is_flag == old(self).is_flag,
            final(self).carrier == old(self).carrier,
            final(self).lastdrop == old(self).lastdrop,
    {
        let e = self.entities.create();
        e
    }

    /// Destroys `e` and detaches every component that it has, so that no
    /// table is left with a component of a dead entity. An entity that is
    /// not alive is left alone.
    pub fn destroy(&mut self, e: Entity) -> (was_alive: bool)
        requires
            old(self).wf(),
        ensures
            final(self).wf(),
            was_alive == old(self).entities.is_alive(e),
            !final(self).entities.is_alive(e),
            was_alive ==> final(self).entities.is_retired(e),
            final(self).bare(e),
            final(self).detached(old(self), e),
            forall|o: Entity|
                o != e ==> (final(self).entities.is_alive(o) == old(self).entities.is_alive(o)
                    && final(self).entities.is_retired(o) == old(self).entities.is_retired(o)),
    {
        let was_alive = self.entities.destroy(e);
        let _ = self.pos.remove(e);
        let _ = self.rot.remove(e);
        let _ = self.vel.remove(e);
        let _ = self.team.remove(e);
        let _ = self.plane.remove(e);
        let _ = self.is_player.remove(e);
        let _ = self.is_spec.remove(e);
        let _ = self.is_dead.remove(e);
        let _ = self.mob.remove(e);
        let _ = self.is_missile.remove(e);
        let _ = self.keystate.remove(e);
        let _ = self.energy.remove(e);
        let _ = self.health.remove(e);
        let _ = self.owner.remove(e);
        let _ = self.spawntime.remove(e);
        let _ = self.lastshot.remove(e);
        let _ = self.name.remove(e);
        let _ = self.level.remove(e);
        let _ = self.score.remove(e);
        let _ = self.earnings.remove(e);
        let _ = self.upgrades.remove(e);
        let _ = self.powerups.remove(e);
        let _ = self.status.remove(e);
        let _ = self.flag.remove(e);
        let _ = self.total_kills.remove(e);
        let _ = self.total_deaths.remove(e);
        let _ = self.is_flag.remove(e);
        let _ = self.carrier.remove(e);
        let _ = self.lastdrop.remove(e);
        was_alive
    }

    /// Whether `e` is alive.
    pub fn is_alive(&self, e: Entity) -> (r: bool)
        requires
            self.wf(),
        ensures
            r == self.entities.is_alive(e),
    {
        self.entities.is_live(e)
    }
}

} // verus!
