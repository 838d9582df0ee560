//! Taking a flag. A flag that nobody carries goes to the nearest player in
//! reach who may take it.

use crate::ctf::component::{
    carries_any, one_flag_each, FlagCarrier, FlagEvent, FlagEventType, IsFlag, LastDrop, OnFlag,
};
use crate::ctf::config::CtfConfig;
use crate::dispatch::{DeclView, Resource, SystemDecl};
use crate::entity::{Entities, Entity};
use crate::storage::{among, ascending, Table};
use crate::types::{
    elapsed, int_sqrt, isqrt, lemma_isqrt_monotone, lemma_isqrt_unique, time_since, Duration,
    Instant, IsDead, IsPlayer, IsSpectating, Plane, Position, Team, ThisFrame,
};
use vstd::prelude::*;

verus! {

pub struct PickupFlagSystem;

pub struct PickupFlagSystemData<'a> {
    pub config: &'a CtfConfig,
    pub entities: &'a Entities,
    pub channel: &'a mut OnFlag,
    pub thisframe: &'a ThisFrame,
    // Player data
    pub plane: &'a Table<Plane>,
    pub is_player: &'a Table<IsPlayer>,
    pub is_spec: &'a Table<IsSpectating>,
    pub is_dead: &'a Table<IsDead>,
    // These ones are for both
    pub pos: &'a Table<Position>,
    pub team: &'a Table<Team>,
    // Flag Data
    pub is_flag: &'a Table<IsFlag>,
    pub carrier: &'a mut Table<FlagCarrier>,
    pub lastdrop: &'a Table<LastDrop>,
}

/// Whether the regrab cooldown keeps `p` off a flag whose last drop is
/// recorded as `last`: it does where `p` is the player who dropped the
/// flag and no more than `cooldown` has passed since. A flag with no record
/// of a drop, or dropped by nobody, is kept from no one.
pub open spec fn kept_off(last: Option<LastDrop>, now: Instant, cooldown: Duration, p: Entity) -> bool {
    match last {
        Some(drop) => drop.player == Some(p) && elapsed(now, drop.time) <= cooldown,
        None => false,
    }
}

/// Regrab cooldown. The player who dropped a flag is kept from it until
/// the cooldown is over and let at it again after; no other player is kept
/// from it at any time.
pub proof fn law_regrab_cooldown(
    dropper: Entity,
    other: Entity,
    dropped: Instant,
    now: Instant,
    cooldown: Duration,
)
    requires
        other != dropper,
        now >= dropped,
    ensures
        now - dropped <= cooldown ==> kept_off(
            Some(LastDrop { player: Some(dropper), time: dropped }),
            now,
            cooldown,
            dropper,
        ),
        now - dropped > cooldown ==> !kept_off(
            Some(LastDrop { player: Some(dropper), time: dropped }),
            now,
            cooldown,
            dropper,
        ),
        !kept_off(Some(LastDrop { player: Some(dropper), time: dropped }), now, cooldown, other),
{
}

/// What the pickup rule reads: the tables as they stand when the system
/// starts, the configuration and the time.
pub struct Field {
    pub config: CtfConfig,
    pub now: Instant,
    pub plane: Map<Entity, Plane>,
    pub is_player: Map<Entity, IsPlayer>,
    pub is_spec: Map<Entity, IsSpectating>,
    pub is_dead: Map<Entity, IsDead>,
    pub pos: Map<Entity, Position>,
    pub team: Map<Entity, Team>,
    pub is_flag: Map<Entity, IsFlag>,
    pub lastdrop: Map<Entity, LastDrop>,
}

impl Field {
    /// `f` is a flag that nobody carries.
    pub open spec fn open_flag(self, carrier: Map<Entity, FlagCarrier>, f: Entity) -> bool {
        &&& self.pos.contains_key(f)
        &&& self.team.contains_key(f)
        &&& self.is_flag.contains_key(f)
        &&& carrier.contains_key(f)
        &&& carrier[f].0 is None
    }

    /// `p` is a player whose plane is in play and has a pickup radius.
    pub open spec fn in_play(self, p: Entity) -> bool {
        &&& self.pos.contains_key(p)
        &&& self.team.contains_key(p)
        &&& self.is_player.contains_key(p)
        &&& self.plane.contains_key(p)
        &&& !self.is_spec.contains_key(p)
        &&& !self.is_dead.contains_key(p)
        &&& self.config.radius_of(self.plane[p]) is Some
    }

    /// The record of the last drop of `f`, if there is one.
    pub open spec fn last_drop(self, f: Entity) -> Option<LastDrop> {
        if self.lastdrop.contains_key(f) {
            Some(self.lastdrop[f])
        } else {
            None
        }
    }

    /// The flag `f` lies away from its home.
    pub open spec fn away(self, f: Entity) -> bool {
        match self.config.home_of(self.team[f]) {
            Some(home) => self.pos[f] != home,
            None => false,
        }
    }

    /// The pickup radius of the plane of `p`.
    pub open spec fn reach(self, p: Entity) -> int {
        self.config.radius_of(self.plane[p]).unwrap() as int
    }

    /// The centre of `p` is within its pickup radius of `f`.
    pub open spec fn in_reach(self, f: Entity, p: Entity) -> bool {
        self.pos[p].dist2(self.pos[f]) <= self.reach(p) * self.reach(p)
    }

    /// How far the pickup circle of `p` is from `f`: the distance between
    /// the two, less the radius.
    pub open spec fn surface(self, f: Entity, p: Entity) -> int {
        isqrt(self.pos[p].dist2(self.pos[f]) as nat) - self.reach(p)
    }

    /// `p` may take `f` now: it is in play and in reach, holds no flag, is
    /// not kept off by the regrab cooldown, and is either an opponent or a
    /// team mate coming for a flag that lies away from home.
    pub open spec fn eligible(self, carrier: Map<Entity, FlagCarrier>, f: Entity, p: Entity) -> bool {
        &&& self.in_play(p)
        &&& (self.team[p] != self.team[f] || self.away(f))
        &&& !kept_off(self.last_drop(f), self.now, self.config.flag_no_regrab_time, p)
        &&& self.in_reach(f, p)
        &&& !carries_any(carrier, p)
    }

    /// `w` is at least as near to `f` as `p`; of two equally near, the one
    /// in the lower slot.
    pub open spec fn beats(self, f: Entity, w: Entity, p: Entity) -> bool {
        self.surface(f, w) < self.surface(f, p) || (self.surface(f, w) == self.surface(f, p)
            && w.id <= p.id)
    }

    /// `w` is the one who takes `f`.
    pub open spec fn wins(self, carrier: Map<Entity, FlagCarrier>, f: Entity, w: Entity) -> bool {
        &&& self.eligible(carrier, f, w)
        &&& forall|p: Entity| #[trigger] self.eligible(carrier, f, p) ==> self.beats(f, w, p)
    }

    /// Somebody takes `f`.
    pub open spec fn taken(self, carrier: Map<Entity, FlagCarrier>, f: Entity) -> bool {
        self.open_flag(carrier, f) && exists|w: Entity| #[trigger] self.wins(carrier, f, w)
    }

    /// The one who takes `f`.
    pub open spec fn taker(self, carrier: Map<Entity, FlagCarrier>, f: Entity) -> Entity {
        choose|w: Entity| #[trigger] self.wins(carrier, f, w)
    }

    /// The event that tells of `w` taking `f`: a return where `w` is on the
    /// flag's own team, a pickup otherwise.
    pub open spec fn event_for(self, f: Entity, w: Entity) -> FlagEvent {
        FlagEvent {
            ty: if self.team[w] == self.team[f] {
                FlagEventType::Return
            } else {
                FlagEventType::PickUp
            },
            player: Some(w),
            flag: f,
        }
    }

    /// The carriers after the rule was applied to `f`.
    pub open spec fn step(self, carrier: Map<Entity, FlagCarrier>, f: Entity) -> Map<
        Entity,
        FlagCarrier,
    > {
        if self.taken(carrier, f) {
            carrier.insert(f, FlagCarrier(Some(self.taker(carrier, f))))
        } else {
            carrier
        }
    }

    /// The carriers after the rule was applied to each of `flags` in turn.
    pub open spec fn settle(self, carrier: Map<Entity, FlagCarrier>, flags: Seq<Entity>) -> Map<
        Entity,
        FlagCarrier,
    >
        decreases flags.len(),
    {
        if flags.len() == 0 {
            carrier
        } else {
            self.step(self.settle(carrier, flags.drop_last()), flags.last())
        }
    }

    /// The events of applying the rule to each of `flags` in turn.
    pub open spec fn events(self, carrier: Map<Entity, FlagCarrier>, flags: Seq<Entity>) -> Seq<
        FlagEvent,
    >
        decreases flags.len(),
    {
        if flags.len() == 0 {
            Seq::empty()
        } else {
            let before = self.settle(carrier, flags.drop_last());
            let earlier = self.events(carrier, flags.drop_last());
            if self.taken(before, flags.last()) {
                earlier.push(self.event_for(flags.last(), self.taker(before, flags.last())))
            } else {
                earlier
            }
        }
    }

    /// Only one player takes a flag.
    pub proof fn lemma_one_winner(self, carrier: Map<Entity, FlagCarrier>, f: Entity, a: Entity, b: Entity)
        requires
            self.wins(carrier, f, a),
            self.wins(carrier, f, b),
            forall|x: Entity, y: Entity|
                self.pos.contains_key(x) && self.pos.contains_key(y) && x.id == y.id ==> x == y,
        ensures
            a == b,
    {
    }

    /// Applying the rule to a flag leaves no player with two flags.
    pub proof fn law_one_flag_each(self, carrier: Map<Entity, FlagCarrier>, f: Entity)
        requires
            one_flag_each(carrier),
        ensures
            one_flag_each(self.step(carrier, f)),
    {
        if self.taken(carrier, f) {
            let w = self.taker(carrier, f);
            let after = self.step(carrier, f);
            assert(self.wins(carrier, f, w));
            assert forall|a: Entity, b: Entity|
                #![trigger after[a], after[b]]
                after.contains_key(a) && after.contains_key(b) && a != b && after[a].0 is Some implies after[a].0
                != after[b].0 by {
                if a == f {
                    if after[b].0 == Some(w) {
                        assert(carrier.contains_key(b) && carrier[b].0 == Some(w));
                        assert(carries_any(carrier, w));
                    }
                } else if b == f {
                    if after[a].0 == Some(w) {
                        assert(carrier.contains_key(a) && carrier[a].0 == Some(w));
                        assert(carries_any(carrier, w));
                    }
                } else {
                    assert(after[a] == carrier[a]);
                    assert(after[b] == carrier[b]);
                }
            }
        }
    }

    /// A flag changes hands only from nobody to its taker; a carried flag
    /// stays with its carrier.
    pub proof fn law_carried_stays(self, carrier: Map<Entity, FlagCarrier>, f: Entity, g: Entity)
        requires
            carrier.contains_key(g),
            carrier[g].0 is Some,
        ensures
            self.step(carrier, f)[g] == carrier[g],
    {
    }
}

impl<'a> PickupFlagSystemData<'a> {
    pub open spec fn field(&self) -> Field {
        Field {
            config: *self.config,
            now: self.thisframe.0,
            plane: self.plane@,
            is_player: self.is_player@,
            is_spec: self.is_spec@,
            is_dead: self.is_dead@,
            pos: self.pos@,
            team: self.team@,
            is_flag: self.is_flag@,
            lastdrop: self.lastdrop@,
        }
    }

    /// Who carries each flag.
    pub open spec fn carriers(&self) -> Map<Entity, FlagCarrier> {
        self.carrier@
    }

    /// Whether some flag is carried by `p`.
    fn carrying(&self, p: Entity) -> (r: bool)
        ensures
            r == carries_any(self.carriers(), p),
    {
        let flags = self.carrier.entities();
        let mut i: usize = 0;
        while i < flags.len()
            invariant
                i <= flags@.len(),
                forall|e: Entity| flags@.contains(e) <==> self.carrier@.contains_key(e),
                forall|k: int|
                    0 <= k < i ==> self.carrier@[#[trigger] flags@[k]].0 != Some(p),
            decreases flags@.len() - i,
        {
            let f = flags[i];
            assert(flags@.contains(f));
            match self.carrier.get(f) {
                Some(c) => {
                    if c.0 == Some(p) {
                        return true;
                    }
                },
                None => {},
            }
            i += 1;
        }
        proof {
            if carries_any(self.carrier@, p) {
                let f = choose|f: Entity| #[trigger]
                    self.carrier@.contains_key(f) && self.carrier@[f].0 == Some(p);
                assert(flags@.contains(f));
            }
        }
        false
    }

    /// How far `p` is from taking `f`, if `p` may take it at all.
    fn approach(&self, f: Entity, p: Entity) -> (r: Option<i64>)
        requires
            self.field().open_flag(self.carriers(), f),
        ensures
            r is Some <==> self.field().eligible(self.carriers(), f, p),
            r is Some ==> r.unwrap() == self.field().surface(f, p),
    {
        let f_pos = *self.pos.get(f).unwrap();
        let f_team = *self.team.get(f).unwrap();
        let last = match self.lastdrop.get(f) {
            Some(l) => Some(*l),
            None => None,
        };
        let p_pos = match self.pos.get(p) {
            Some(v) => *v,
            None => { return None; },
        };
        let p_team = match self.team.get(p) {
            Some(v) => *v,
            None => { return None; },
        };
        let p_plane = match self.plane.get(p) {
            Some(v) => *v,
            None => { return None; },
        };
        if !self.is_player.contains(p) || self.is_spec.contains(p) || self.is_dead.contains(p) {
            return None;
        }
        let rad = match self.config.radius(p_plane) {
            Some(v) => v,
            None => { return None; },
        };
        if p_team == f_team {
            let away = match self.config.home(f_team) {
                Some(home) => f_pos != home,
                None => false,
            };
            if !away {
                return None;
            }
        }
        // The dropper waits out the cooldown
        match last {
            Some(drop) => {
                let dropped_it = match drop.player {
                    Some(x) => x == p,
                    None => false,
                };
                if dropped_it && time_since(self.thisframe.0, drop.time)
                    <= self.config.flag_no_regrab_time {
                    return None;
                }
            },
            None => {},
        }
        let dst: u128 = p_pos.distance_squared(f_pos);
        let wide: i64 = rad as i64;
        assert(wide * wide <= 0x8000_0000 * 0x8000_0000 && wide * wide >= 0) by (nonlinear_arith)
            requires
                -0x8000_0000 <= wide <= 0x8000_0000,
        ;
        let rad2: u128 = (wide * wide) as u128;
        // Out of reach: no root needed
        if dst > rad2 {
            return None;
        }
        if self.carrying(p) {
            return None;
        }
        let root: u64 = int_sqrt(dst);
        proof {
            let size: nat = if wide < 0 {
                (-wide) as nat
            } else {
                wide as nat
            };
            assert(size * size == wide * wide) by (nonlinear_arith)
                requires
                    size == wide || size == -wide,
            ;
            assert(size * size < (size + 1) * (size + 1)) by (nonlinear_arith);
            lemma_isqrt_unique(rad2 as nat, size);
            lemma_isqrt_monotone(dst as nat, rad2 as nat);
        }
        Some(root as i64 - wide)
    }

    /// The player who takes `f`, if any.
    fn nearest(&self, f: Entity) -> (r: Option<Entity>)
        requires
            self.field().open_flag(self.carriers(), f),
        ensures
            match r {
                Some(w) => self.field().wins(self.carriers(), f, w),
                None => forall|p: Entity| !#[trigger] self.field().eligible(self.carriers(), f, p),
            },
    {
        let ghost field = self.field();
        let ghost carrier = self.carrier@;
        let players = self.pos.entities();
        let mut best: Option<(Entity, i64)> = None;
        let mut i: usize = 0;
        while i < players.len()
            invariant
                i <= players@.len(),
                self.field() == field,
                self.carrier@ == carrier,
                field.open_flag(carrier, f),
                ascending(players@, field.pos),
                match best {
                    Some((w, s)) => {
                        &&& field.eligible(carrier, f, w)
                        &&& s == field.surface(f, w)
                        &&& among(players@, i as int, w)
                        &&& forall|p: Entity|
                            #![trigger among(players@, i as int, p)]
                            field.eligible(carrier, f, p) && among(players@, i as int, p)
                                ==> field.beats(f, w, p)
                    },
                    None => forall|p: Entity|
                        #![trigger among(players@, i as int, p)]
                        among(players@, i as int, p) ==> !field.eligible(carrier, f, p),
                },
            decreases players@.len() - i,
        {
            let p = players[i];
            match self.approach(f, p) {
                Some(d) => {
                    match best {
                        Some((w, s)) => {
                            if d < s {
                                best = Some((p, d));
                            }
                        },
                        None => {
                            best = Some((p, d));
                        },
                    }
                },
                None => {},
            }
            i += 1;
            proof {
                assert(among(players@, i as int, p));
                assert forall|x: Entity| among(players@, i as int, x) implies x == p || among(
                    players@,
                    i - 1,
                    x,
                ) by {}
                match best {
                    Some((w, s)) => {},
                    None => {},
                }
            }
        }
        proof {
            assert forall|x: Entity| field.pos.contains_key(x) implies among(
                players@,
                i as int,
                x,
            ) by {
                assert(players@.contains(x));
            }
        }
        match best {
            Some((w, _)) => Some(w),
            None => None,
        }
    }
}

impl PickupFlagSystem {
    pub fn new() -> (r: Self) {
        PickupFlagSystem
    }

    pub fn name() -> (r: &'static str)
        ensures
            r@ == "ctf::systems::PickupFlagSystem"@,
    {
        "ctf::systems::PickupFlagSystem"
    }

    /// What the system declares: it runs after positions are updated and
    /// newcomers are given their teams.
    pub open spec fn declared() -> DeclView {
        DeclView {
            name: "ctf::systems::PickupFlagSystem"@,
            dependencies: seq![
                "systems::PositionUpdate"@,
                "ctf::systems::LoginUpdateSystem"@,
            ],
            reads: seq![
                Resource::CtfConfig,
                Resource::Entities,
                Resource::ThisFrame,
                Resource::Plane,
                Resource::IsPlayer,
                Resource::IsSpectating,
                Resource::IsDead,
                Resource::Position,
                Resource::Team,
                Resource::IsFlag,
                Resource::LastDrop,
            ],
            writes: seq![
                Resource::OnFlag,
                Resource::FlagCarrier,
            ],
        }
    }

    /// What the system declares to the scheduler.
    pub fn decl() -> (d: SystemDecl)
        ensures
            d@ == Self::declared(),
    {
        let d = SystemDecl::new(Self::name()).after("systems::PositionUpdate").after("ctf::systems::LoginUpdateSystem").reading(Resource::CtfConfig).reading(Resource::Entities).reading(Resource::ThisFrame).reading(Resource::Plane).reading(Resource::IsPlayer).reading(Resource::IsSpectating).reading(Resource::IsDead).reading(Resource::Position).reading(Resource::Team).reading(Resource::IsFlag).reading(Resource::LastDrop).writing(Resource::OnFlag).writing(Resource::FlagCarrier);
        proof {
            assert(d@.dependencies =~= Self::declared().dependencies);
            assert(d@.reads =~= Self::declared().reads);
            assert(d@.writes =~= Self::declared().writes);
        }
        d
    }

    /// Applies the pickup rule to every flag, in ascending order of slot:
    /// a flag that nobody carries goes to the nearest eligible player, and
    /// an event tells of it.
    pub fn run(&mut self, data: PickupFlagSystemData<'_>)
        requires
            old(data.channel).wf(),
        ensures
            final(data.channel).wf(),
            exists|order: Seq<Entity>|
                {
                    &&& #[trigger] ascending(order, old(data.carrier)@)
                    &&& final(data.carrier)@ == data.field().settle(old(data.carrier)@, order)
                    &&& final(data.channel)@ == old(data.channel)@.write_all(
                        data.field().events(old(data.carrier)@, order),
                    )
                },
            final(data.carrier)@.dom() == old(data.carrier)@.dom(),
            one_flag_each(old(data.carrier)@) ==> one_flag_each(final(data.carrier)@),
    {
        let ghost field = data.field();
        let ghost carrier0 = data.carrier@;
        let ghost carrier_end = *final(data.carrier);
        let ghost channel_end = *final(data.channel);
        let flags = data.carrier.entities();
        let mut events: Vec<FlagEvent> = Vec::new();
        let mut i: usize = 0;
        while i < flags.len()
            invariant
                i <= flags@.len(),
                data.field() == field,
                ascending(flags@, carrier0),
                data.carrier@ == field.settle(carrier0, flags@.take(i as int)),
                events@ == field.events(carrier0, flags@.take(i as int)),
                data.carrier@.dom() == carrier0.dom(),
                one_flag_each(carrier0) ==> one_flag_each(data.carrier@),
                data.channel.wf(),
                data.channel@ == old(data.channel)@,
                *final(data.carrier) == carrier_end,
                *final(data.channel) == channel_end,
            decreases flags@.len() - i,
        {
            let f = flags[i];
            let ghost before = data.carrier@;
            proof {
                assert(flags@.take(i + 1).drop_last() =~= flags@.take(i as int));
                if one_flag_each(before) {
                    field.law_one_flag_each(before, f);
                }
            }
            let open = match data.carrier.get(f) {
                Some(c) => c.0.is_none(),
                None => false,
            };
            if open && data.pos.contains(f) && data.team.contains(f) && data.is_flag.contains(f) {
                match data.nearest(f) {
                    Some(w) => {
                        let f_team = *data.team.get(f).unwrap();
                        let w_team = *data.team.get(w).unwrap();
                        proof {
                            let t = field.taker(before, f);
                            assert forall|x: Entity, y: Entity|
                                field.pos.contains_key(x) && field.pos.contains_key(y) && x.id
                                    == y.id implies x == y by {
                                data.pos.lemma_one_per_slot(x, y);
                            }
                            field.lemma_one_winner(before, f, w, t);
                            assert forall|x: Entity| before.contains_key(x) && x.id == f.id implies x
                                == f by {
                                data.carrier.lemma_one_per_slot(x, f);
                            }
                        }
                        data.carrier.insert(f, FlagCarrier(Some(w)));
                        let ty = if w_team == f_team {
                            FlagEventType::Return
                        } else {
                            FlagEventType::PickUp
                        };
                        events.push(FlagEvent { ty, player: Some(w), flag: f });
                    },
                    None => {
                        proof {
                            assert(data.carriers() == before);
                        }
                    },
                }
            }
            i += 1;
        }
        proof {
            assert(flags@.take(i as int) =~= flags@);
        }
        data.channel.iter_write(&events);
    }
}

} // verus!
