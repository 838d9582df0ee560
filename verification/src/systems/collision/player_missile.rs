//! Missiles against players. Once per tick every circle of every player in
//! play is filed in the grid, every circle of every missile is looked up in
//! it, and each pair of a missile and a player of another team whose circles
//! overlap is reported once.

use crate::collision::{lemma_push_contains, Collision, Grid, HitCircle, Point};
use crate::component::channel::OnPlayerMissileCollision;
use crate::component::event::PlayerMissileCollision;
use crate::config;
use crate::config::Config;
use crate::dispatch::{DeclView, Resource, SystemDecl};
use crate::entity::{Entities, Entity};
use crate::hashing::{map_get, map_insert, map_new, pair_key, set_insert, set_new, CodeMap, PairSet};
use crate::storage::{among, ascending, Table};
use crate::types::{IsDead, IsMissile, IsPlayer, IsSpectating, Mob, Plane, Position, Rotation, Team};
use vstd::prelude::*;

verus! {

/// The collision shape of each kind of mob: circles about the mob's
/// position. A mob does not turn its shape with its heading.
pub struct Colliders(pub CodeMap<Vec<config::HitCircle>>);

impl Colliders {
    /// No mob has a shape.
    pub fn new() -> (r: Self)
        ensures
            forall|m: Mob| #[trigger] r.shape(m) == Seq::<config::HitCircle>::empty(),
    {
        let r = Colliders(map_new());
        r
    }

    /// The shape of `mob`; no circles where none were set.
    pub open spec fn shape(&self, mob: Mob) -> Seq<config::HitCircle> {
        if self.0@.contains_key(mob.spec_code() as u16) {
            self.0@[mob.spec_code() as u16]@
        } else {
            Seq::empty()
        }
    }

    /// Sets the shape of `mob`.
    pub fn set(&mut self, mob: Mob, circles: Vec<config::HitCircle>)
        ensures
            final(self).shape(mob) == circles@,
            forall|m: Mob| m != mob ==> #[trigger] final(self).shape(m) == old(self).shape(m),
    {
        map_insert(&mut self.0, mob.code() as u16, circles);
    }
}

pub struct PlayerMissileCollisionSystem;

pub struct PlayerMissileCollisionSystemData<'a> {
    pub channel: &'a mut OnPlayerMissileCollision,
    pub config: &'a Config,
    pub colliders: &'a Colliders,
    pub ent: &'a Entities,
    pub pos: &'a Table<Position>,
    pub rot: &'a Table<Rotation>,
    pub team: &'a Table<Team>,
    pub plane: &'a Table<Plane>,
    pub player_flag: &'a Table<IsPlayer>,
    pub isspec: &'a Table<IsSpectating>,
    pub isdead: &'a Table<IsDead>,
    pub mob: &'a Table<Mob>,
    pub missile_flag: &'a Table<IsMissile>,
}

/// What the system reads.
pub struct Arena {
    pub config: Config,
    pub colliders: Colliders,
    pub pos: Map<Entity, Position>,
    pub rot: Map<Entity, Rotation>,
    pub team: Map<Entity, Team>,
    pub plane: Map<Entity, Plane>,
    pub player_flag: Map<Entity, IsPlayer>,
    pub isspec: Map<Entity, IsSpectating>,
    pub isdead: Map<Entity, IsDead>,
    pub mob: Map<Entity, Mob>,
    pub missile_flag: Map<Entity, IsMissile>,
}

impl Arena {
    /// `p` is a player whose plane is in play.
    pub open spec fn is_target(self, p: Entity) -> bool {
        &&& self.pos.contains_key(p)
        &&& self.rot.contains_key(p)
        &&& self.team.contains_key(p)
        &&& self.plane.contains_key(p)
        &&& self.player_flag.contains_key(p)
        &&& !self.isspec.contains_key(p)
        &&& !self.isdead.contains_key(p)
    }

    /// The shape of the plane of `p`; no circles for a plane that the
    /// configuration does not know.
    pub open spec fn shape(self, p: Entity) -> Seq<config::HitCircle> {
        match self.config.planes.lookup(self.plane[p]) {
            Some(info) => info.hit_circles@,
            None => Seq::empty(),
        }
    }

    /// The `j`th circle of the player `p`: that circle of its plane's
    /// shape, turned by the player's heading and moved to its position.
    pub open spec fn player_circle(self, p: Entity, j: int) -> HitCircle {
        let c = self.shape(p)[j];
        let offset = self.rot[p].turned(c.offset);
        HitCircle {
            pos: Point {
                x: (self.pos[p].x + offset.0) as i64,
                y: (self.pos[p].y + offset.1) as i64,
            },
            rad: c.radius,
            layer: self.team[p].0,
            ent: p,
        }
    }

    /// `c` is one of the first `n` circles of the player it belongs to.
    pub open spec fn target_circle_upto(self, c: HitCircle, n: int) -> bool {
        exists|j: int|
            0 <= j < n && j < self.shape(c.ent).len() && c == #[trigger] self.player_circle(c.ent, j)
    }

    /// `c` is a circle of a player in play.
    pub open spec fn target_circle(self, c: HitCircle) -> bool {
        self.is_target(c.ent) && self.target_circle_upto(c, self.shape(c.ent).len() as int)
    }

    /// `m` is a missile.
    pub open spec fn is_missile(self, m: Entity) -> bool {
        &&& self.pos.contains_key(m)
        &&& self.team.contains_key(m)
        &&& self.mob.contains_key(m)
        &&& self.missile_flag.contains_key(m)
    }

    /// The `i`th circle of the missile `m`.
    pub open spec fn missile_circle(self, m: Entity, i: int) -> HitCircle {
        let c = self.colliders.shape(self.mob[m])[i];
        HitCircle {
            pos: Point {
                x: (self.pos[m].x + c.offset.x) as i64,
                y: (self.pos[m].y + c.offset.y) as i64,
            },
            rad: c.radius,
            layer: self.team[m].0,
            ent: m,
        }
    }

    /// `c` is one of the first `n` circles of the missile it belongs to.
    pub open spec fn missile_circle_upto(self, c: HitCircle, n: int) -> bool {
        exists|i: int|
            0 <= i < n && i < self.colliders.shape(self.mob[c.ent]).len() && c
                == #[trigger] self.missile_circle(c.ent, i)
    }

    /// `c` is a circle of a missile.
    pub open spec fn missile_circle_of(self, c: HitCircle) -> bool {
        self.is_missile(c.ent) && self.missile_circle_upto(
            c,
            self.colliders.shape(self.mob[c.ent]).len() as int,
        )
    }

    /// `a` is a circle of a missile and `b` one of a player in play, the
    /// two overlap, and missile and player are on different teams.
    pub open spec fn clash(self, a: HitCircle, b: HitCircle) -> bool {
        self.missile_circle_of(a) && self.target_circle(b) && a.hits(b)
    }

    /// The missile `m` hits the player `p`: some circle of the one
    /// overlaps some circle of the other, and the two are on different
    /// teams.
    pub open spec fn collides(self, m: Entity, p: Entity) -> bool {
        exists|a: HitCircle, b: HitCircle| #[trigger] self.clash(a, b) && a.ent == m && b.ent == p
    }
}

/// Collision correctness. Two circles are reported as colliding exactly
/// where they lie on different layers, the sum of their radii is not
/// negative, and the square of the distance of their centres is at most the
/// square of that sum; circles of one layer never are.
pub proof fn law_collision(a: HitCircle, b: HitCircle)
    ensures
        a.hits(b) <==> a.layer != b.layer && a.rad + b.rad >= 0 && (a.pos.x - b.pos.x) * (a.pos.x
            - b.pos.x) + (a.pos.y - b.pos.y) * (a.pos.y - b.pos.y) <= (a.rad + b.rad) * (a.rad
            + b.rad),
        a.layer == b.layer ==> !a.hits(b),
{
}

/// No friendly fire. A missile hits only players of another team than
/// its own.
pub proof fn law_no_friendly_fire(arena: Arena, m: Entity, p: Entity)
    requires
        arena.collides(m, p),
    ensures
        arena.is_missile(m),
        arena.is_target(p),
        arena.team[m] != arena.team[p],
{
    let (a, b) = choose|a: HitCircle, b: HitCircle| #[trigger]
        arena.clash(a, b) && a.ent == m && b.ent == p;
}

/// One of `collisions` is between a circle of `ev.missile` and one of
/// `ev.player`.
pub open spec fn witnessed(collisions: Seq<Collision>, n: int, ev: PlayerMissileCollision) -> bool {
    exists|k: int|
        0 <= k < n && k < collisions.len() && (#[trigger] collisions[k]).0.ent == ev.missile
            && collisions[k].1.ent == ev.player
}

/// The pairs of entities that `collisions` are between, each once.
pub fn distinct_pairs(collisions: &Vec<Collision>) -> (out: Vec<PlayerMissileCollision>)
    ensures
        forall|i: int, j: int| 0 <= i < j < out@.len() ==> out@[i] != out@[j],
        forall|ev: PlayerMissileCollision|
            out@.contains(ev) <==> #[trigger] witnessed(collisions@, collisions@.len() as int, ev),
{
    let mut seen: PairSet = set_new();
    let mut out: Vec<PlayerMissileCollision> = Vec::new();
    let mut i: usize = 0;
    while i < collisions.len()
        invariant
            i <= collisions@.len(),
            forall|k: int, l: int| 0 <= k < l < out@.len() ==> out@[k] != out@[l],
            forall|ev: PlayerMissileCollision|
                #![trigger out@.contains(ev)]
                #![trigger seen@.contains(pair_key(ev.missile, ev.player))]
                out@.contains(ev) <==> seen@.contains(pair_key(ev.missile, ev.player)),
            forall|ev: PlayerMissileCollision|
                seen@.contains(pair_key(ev.missile, ev.player)) <==> #[trigger] witnessed(
                    collisions@,
                    i as int,
                    ev,
                ),
        decreases collisions@.len() - i,
    {
        let c = collisions[i];
        let ev = PlayerMissileCollision { missile: c.0.ent, player: c.1.ent };
        let ghost before = out@;
        let fresh = set_insert(
            &mut seen,
            (c.0.ent.id, c.0.ent.generation, c.1.ent.id, c.1.ent.generation),
        );
        if fresh {
            out.push(ev);
        }
        i += 1;
        proof {
            assert forall|x: PlayerMissileCollision|
                #![trigger out@.contains(x)]
                #![trigger seen@.contains(pair_key(x.missile, x.player))]
                out@.contains(x) <==> seen@.contains(pair_key(x.missile, x.player)) by {
                if fresh {
                    lemma_push_contains(before, ev, x);
                }
            }
            assert forall|x: PlayerMissileCollision|
                seen@.contains(pair_key(x.missile, x.player)) <==> #[trigger] witnessed(
                    collisions@,
                    i as int,
                    x,
                ) by {
                let was = witnessed(collisions@, i - 1, x);
                if pair_key(x.missile, x.player) == pair_key(ev.missile, ev.player) {
                    assert(x == ev);
                    assert(collisions@[i - 1].0.ent == x.missile);
                }
                if witnessed(collisions@, i as int, x) {
                    let k = choose|k: int|
                        0 <= k < i && k < collisions@.len() && (#[trigger] collisions@[k]).0.ent
                            == x.missile && collisions@[k].1.ent == x.player;
                    if k < i - 1 {
                        assert(was);
                    }
                }
                if was {
                    let k = choose|k: int|
                        0 <= k < i - 1 && k < collisions@.len() && (
                        #[trigger] collisions@[k]).0.ent == x.missile && collisions@[k].1.ent
                            == x.player;
                    assert(0 <= k < i);
                }
            }
            assert forall|k: int, l: int| 0 <= k < l < out@.len() implies out@[k] != out@[l] by {
                if fresh && l == before.len() {
                    assert(before.contains(before[k]));
                }
            }
        }
    }
    out
}

/// `a` comes no later than `b` where hits are listed by the slot of the
/// missile and then by the slot of the player.
pub open spec fn in_order(a: PlayerMissileCollision, b: PlayerMissileCollision) -> bool {
    a.missile.id < b.missile.id || (a.missile.id == b.missile.id && a.player.id <= b.player.id)
}

/// `a` comes before `b` in that order.
pub open spec fn strictly_in_order(a: PlayerMissileCollision, b: PlayerMissileCollision) -> bool {
    a.missile.id < b.missile.id || (a.missile.id == b.missile.id && a.player.id < b.player.id)
}

/// What a sequence holds after an insertion.
proof fn lemma_insert_contains<T>(s: Seq<T>, k: int, v: T, x: T)
    requires
        0 <= k <= s.len(),
    ensures
        s.insert(k, v).contains(x) <==> s.contains(x) || x == v,
{
    let t = s.insert(k, v);
    if t.contains(x) {
        let i = choose|i: int| 0 <= i < t.len() && t[i] == x;
        if i < k {
            assert(s[i] == x);
        } else if i > k {
            assert(s[i - 1] == x);
        }
    }
    if s.contains(x) {
        let i = choose|i: int| 0 <= i < s.len() && s[i] == x;
        if i < k {
            assert(t[i] == x);
        } else {
            assert(t[i + 1] == x);
        }
    }
    assert(t[k] == v);
}

/// `pairs`, listed by the slot of the missile and then by the slot of the
/// player.
pub fn sort_pairs(pairs: &Vec<PlayerMissileCollision>) -> (out: Vec<PlayerMissileCollision>)
    ensures
        out@.len() == pairs@.len(),
        forall|ev: PlayerMissileCollision| out@.contains(ev) <==> pairs@.contains(ev),
        forall|i: int, j: int| 0 <= i < j < out@.len() ==> in_order(out@[i], out@[j]),
        (forall|i: int, j: int| 0 <= i < j < pairs@.len() ==> pairs@[i] != pairs@[j]) ==> (forall|
            i: int,
            j: int,
        | 0 <= i < j < out@.len() ==> out@[i] != out@[j]),
{
    let mut out: Vec<PlayerMissileCollision> = Vec::new();
    let mut i: usize = 0;
    while i < pairs.len()
        invariant
            i <= pairs@.len(),
            out@.len() == i,
            forall|ev: PlayerMissileCollision|
                out@.contains(ev) <==> pairs@.take(i as int).contains(ev),
            forall|k: int, l: int| 0 <= k < l < out@.len() ==> in_order(out@[k], out@[l]),
            (forall|a: int, b: int| 0 <= a < b < pairs@.len() ==> pairs@[a] != pairs@[b]) ==> (
            forall|k: int, l: int| 0 <= k < l < out@.len() ==> out@[k] != out@[l]),
        decreases pairs@.len() - i,
    {
        let x = pairs[i];
        let ghost before = out@;
        let mut k: usize = 0;
        while k < out.len() && (out[k].missile.id < x.missile.id || (out[k].missile.id
            == x.missile.id && out[k].player.id <= x.player.id))
            invariant
                k <= out@.len(),
                out@ == before,
                forall|l: int| 0 <= l < k ==> in_order(out@[l], x),
            decreases out@.len() - k,
        {
            k += 1;
        }
        out.insert(k, x);
        proof {
            assert(pairs@.take(i + 1) =~= pairs@.take(i as int).push(x));
            assert forall|ev: PlayerMissileCollision|
                out@.contains(ev) <==> pairs@.take(i + 1).contains(ev) by {
                lemma_insert_contains(before, k as int, x, ev);
                lemma_push_contains(pairs@.take(i as int), x, ev);
            }
            assert forall|a: int, b: int| 0 <= a < b < out@.len() implies in_order(
                out@[a],
                out@[b],
            ) by {
                if b < k {
                } else if b == k {
                } else if a < k {
                } else if a == k {
                    if k < before.len() {
                        assert(in_order(before[k as int], before[b - 1]) || b - 1 == k);
                    }
                }
            }
            if forall|a: int, b: int| 0 <= a < b < pairs@.len() ==> pairs@[a] != pairs@[b] {
                assert(!before.contains(x)) by {
                    if pairs@.take(i as int).contains(x) {
                    }
                }
            }
        }
        i += 1;
    }
    proof {
        assert(pairs@.take(i as int) =~= pairs@);
    }
    out
}

impl<'a> PlayerMissileCollisionSystemData<'a> {
    pub open spec fn arena(&self) -> Arena {
        Arena {
            config: *self.config,
            colliders: *self.colliders,
            pos: self.pos@,
            rot: self.rot@,
            team: self.team@,
            plane: self.plane@,
            player_flag: self.player_flag@,
            isspec: self.isspec@,
            isdead: self.isdead@,
            mob: self.mob@,
            missile_flag: self.missile_flag@,
        }
    }

    /// The circles of the players in play.
    fn targets(&self) -> (out: Vec<HitCircle>)
        ensures
            forall|c: HitCircle| out@.contains(c) <==> #[trigger] self.arena().target_circle(c),
            forall|k: int| 0 <= k < out@.len() ==> (#[trigger] out@[k]).wf(),
    {
        let ghost arena = self.arena();
        let ents = self.pos.entities();
        let mut out: Vec<HitCircle> = Vec::new();
        let mut i: usize = 0;
        while i < ents.len()
            invariant
                i <= ents@.len(),
                self.arena() == arena,
                ascending(ents@, arena.pos),
                forall|c: HitCircle|
                    #![trigger out@.contains(c)]
                    #![trigger arena.target_circle(c)]
                    out@.contains(c) <==> arena.target_circle(c) && among(ents@, i as int, c.ent),
                forall|k: int| 0 <= k < out@.len() ==> (#[trigger] out@[k]).wf(),
            decreases ents@.len() - i,
        {
            let p = ents[i];
            let ghost outer = out@;
            proof {
                assert(!among(ents@, i as int, p));
            }
            let here = match (self.pos.get(p), self.rot.get(p), self.team.get(p), self.plane.get(p)) {
                (Some(pos), Some(rot), Some(team), Some(plane)) => {
                    if self.player_flag.contains(p) && !self.isspec.contains(p)
                        && !self.isdead.contains(p) {
                        Some((*pos, *rot, *team, *plane))
                    } else {
                        None
                    }
                },
                _ => None,
            };
            match here {
                Some((pos, rot, team, plane)) => {
                    match self.config.planes.get(plane) {
                        Some(cfg) => {
                            let mut j: usize = 0;
                            while j < cfg.hit_circles.len()
                                invariant
                                    j <= cfg.hit_circles@.len(),
                                    self.arena() == arena,
                                    arena.is_target(p),
                                    arena.shape(p) == cfg.hit_circles@,
                                    pos == arena.pos[p],
                                    rot == arena.rot[p],
                                    team == arena.team[p],
                                    forall|c: HitCircle|
                                        #![trigger out@.contains(c)]
                                        #![trigger arena.target_circle_upto(c, j as int)]
                                        out@.contains(c) <==> outer.contains(c) || (c.ent == p
                                            && arena.target_circle_upto(c, j as int)),
                                    forall|k: int| 0 <= k < out@.len() ==> (#[trigger] out@[k]).wf(),
                                decreases cfg.hit_circles@.len() - j,
                            {
                                let hc = cfg.hit_circles[j];
                                let offset = rot.rotate(hc.offset);
                                let circle = HitCircle {
                                    pos: Point {
                                        x: pos.x as i64 + offset.0,
                                        y: pos.y as i64 + offset.1,
                                    },
                                    rad: hc.radius,
                                    layer: team.0,
                                    ent: p,
                                };
                                let ghost inner = out@;
                                out.push(circle);
                                j += 1;
                                proof {
                                    assert(circle == arena.player_circle(p, j - 1));
                                    assert forall|c: HitCircle|
                                        #![trigger out@.contains(c)]
                                        #![trigger arena.target_circle_upto(c, j as int)]
                                        out@.contains(c) <==> outer.contains(c) || (c.ent == p
                                            && arena.target_circle_upto(c, j as int)) by {
                                        lemma_push_contains(inner, circle, c);
                                        let was = arena.target_circle_upto(c, j - 1);
                                        if c.ent == p && arena.target_circle_upto(c, j as int) {
                                            let k = choose|k: int|
                                                0 <= k < j && k < arena.shape(c.ent).len() && c
                                                    == #[trigger] arena.player_circle(c.ent, k);
                                            if k < j - 1 {
                                                assert(was);
                                            }
                                        }
                                        if c.ent == p && was {
                                            let k = choose|k: int|
                                                0 <= k < j - 1 && k < arena.shape(c.ent).len() && c
                                                    == #[trigger] arena.player_circle(c.ent, k);
                                            assert(0 <= k < j);
                                        }
                                    }
                                }
                            }
                        },
                        None => {},
                    }
                },
                None => {},
            }
            i += 1;
        }
        proof {
            assert forall|c: HitCircle| out@.contains(c) <==> #[trigger] arena.target_circle(c) by {
                if arena.target_circle(c) {
                    assert(ents@.contains(c.ent));
                }
            }
        }
        out
    }

    /// The circles of the missiles.
    fn missiles(&self) -> (out: Vec<HitCircle>)
        ensures
            forall|c: HitCircle| out@.contains(c) <==> #[trigger] self.arena().missile_circle_of(c),
            forall|k: int| 0 <= k < out@.len() ==> (#[trigger] out@[k]).wf(),
    {
        let ghost arena = self.arena();
        let ents = self.pos.entities();
        let mut out: Vec<HitCircle> = Vec::new();
        let mut i: usize = 0;
        while i < ents.len()
            invariant
                i <= ents@.len(),
                self.arena() == arena,
                ascending(ents@, arena.pos),
                forall|c: HitCircle|
                    #![trigger out@.contains(c)]
                    #![trigger arena.missile_circle_of(c)]
                    out@.contains(c) <==> arena.missile_circle_of(c) && among(ents@, i as int, c.ent),
                forall|k: int| 0 <= k < out@.len() ==> (#[trigger] out@[k]).wf(),
            decreases ents@.len() - i,
        {
            let m = ents[i];
            let ghost outer = out@;
            proof {
                assert(!among(ents@, i as int, m));
            }
            let here = match (self.pos.get(m), self.team.get(m), self.mob.get(m)) {
                (Some(pos), Some(team), Some(mob)) => {
                    if self.missile_flag.contains(m) {
                        Some((*pos, *team, *mob))
                    } else {
                        None
                    }
                },
                _ => None,
            };
            match here {
                Some((pos, team, mob)) => {
                    match map_get(&self.colliders.0, mob.code() as u16) {
                        Some(shape) => {
                            let mut j: usize = 0;
                            while j < shape.len()
                                invariant
                                    j <= shape@.len(),
                                    self.arena() == arena,
                                    arena.is_missile(m),
                                    arena.colliders.shape(arena.mob[m]) == shape@,
                                    pos == arena.pos[m],
                                    team == arena.team[m],
                                    forall|c: HitCircle|
                                        #![trigger out@.contains(c)]
                                        #![trigger arena.missile_circle_upto(c, j as int)]
                                        out@.contains(c) <==> outer.contains(c) || (c.ent == m
                                            && arena.missile_circle_upto(c, j as int)),
                                    forall|k: int| 0 <= k < out@.len() ==> (#[trigger] out@[k]).wf(),
                                decreases shape@.len() - j,
                            {
                                let hc = shape[j];
                                let circle = HitCircle {
                                    pos: Point {
                                        x: pos.x as i64 + hc.offset.x as i64,
                                        y: pos.y as i64 + hc.offset.y as i64,
                                    },
                                    rad: hc.radius,
                                    layer: team.0,
                                    ent: m,
                                };
                                let ghost inner = out@;
                                out.push(circle);
                                j += 1;
                                proof {
                                    assert(circle == arena.missile_circle(m, j - 1));
                                    assert forall|c: HitCircle|
                                        #![trigger out@.contains(c)]
                                        #![trigger arena.missile_circle_upto(c, j as int)]
                                        out@.contains(c) <==> outer.contains(c) || (c.ent == m
                                            && arena.missile_circle_upto(c, j as int)) by {
                                        lemma_push_contains(inner, circle, c);
                                        let was = arena.missile_circle_upto(c, j - 1);
                                        if c.ent == m && arena.missile_circle_upto(c, j as int) {
                                            let k = choose|k: int|
                                                0 <= k < j && k < arena.colliders.shape(
                                                    arena.mob[c.ent],
                                                ).len() && c == #[trigger] arena.missile_circle(
                                                    c.ent,
                                                    k,
                                                );
                                            if k < j - 1 {
                                                assert(was);
                                            }
                                        }
                                        if c.ent == m && was {
                                            let k = choose|k: int|
                                                0 <= k < j - 1 && k < arena.colliders.shape(
                                                    arena.mob[c.ent],
                                                ).len() && c == #[trigger] arena.missile_circle(
                                                    c.ent,
                                                    k,
                                                );
                                            assert(0 <= k < j);
                                        }
                                    }
                                }
                            }
                        },
                        None => {},
                    }
                },
                None => {},
            }
            i += 1;
        }
        proof {
            assert forall|c: HitCircle| out@.contains(c) <==> #[trigger] arena.missile_circle_of(
                c,
            ) by {
                if arena.missile_circle_of(c) {
                    assert(ents@.contains(c.ent));
                }
            }
        }
        out
    }
}

/// Files `circles` in a new grid.
fn file_all(circles: &Vec<HitCircle>) -> (grid: Grid)
    requires
        forall|k: int| 0 <= k < circles@.len() ==> (#[trigger] circles@[k]).wf(),
    ensures
        grid.wf(),
        grid.filed() == circles@,
{
    let mut grid = Grid::new();
    let mut i: usize = 0;
    while i < circles.len()
        invariant
            i <= circles@.len(),
            grid.wf(),
            grid.filed() == circles@.take(i as int),
            forall|k: int| 0 <= k < circles@.len() ==> (#[trigger] circles@[k]).wf(),
        decreases circles@.len() - i,
    {
        grid.insert(circles[i]);
        i += 1;
    }
    grid
}

/// Looks each of `probes` up in `grid`: a collision is found for every
/// probe and every filed circle that it hits, and for nothing else.
fn query_all(grid: &Grid, probes: &Vec<HitCircle>) -> (out: Vec<Collision>)
    requires
        grid.wf(),
        forall|k: int| 0 <= k < probes@.len() ==> (#[trigger] probes@[k]).wf(),
    ensures
        forall|x: Collision| #[trigger]
            out@.contains(x) <==> probes@.contains(x.0) && grid.filed().contains(x.1) && x.0.hits(
                x.1,
            ),
{
    let mut out: Vec<Collision> = Vec::new();
    let mut i: usize = 0;
    while i < probes.len()
        invariant
            i <= probes@.len(),
            grid.wf(),
            forall|k: int| 0 <= k < probes@.len() ==> (#[trigger] probes@[k]).wf(),
            forall|x: Collision| #[trigger]
                out@.contains(x) <==> probes@.take(i as int).contains(x.0) && grid.filed().contains(
                    x.1,
                ) && x.0.hits(x.1),
        decreases probes@.len() - i,
    {
        grid.query(probes[i], &mut out);
        proof {
            assert(probes@.take(i + 1) =~= probes@.take(i as int).push(probes@[i as int]));
            assert forall|x: Collision| #[trigger]
                out@.contains(x) <==> probes@.take(i + 1).contains(x.0) && grid.filed().contains(
                    x.1,
                ) && x.0.hits(x.1) by {
                lemma_push_contains(probes@.take(i as int), probes@[i as int], x.0);
            }
        }
        i += 1;
    }
    assert(probes@.take(i as int) =~= probes@);
    out
}

impl PlayerMissileCollisionSystem {
    pub fn new() -> (r: Self) {
        PlayerMissileCollisionSystem
    }

    pub fn name() -> (r: &'static str)
        ensures
            r@ == "systems::collision::PlayerMissileCollisionSystem"@,
    {
        "systems::collision::PlayerMissileCollisionSystem"
    }

    /// What the system declares: it runs after positions are updated.
    pub open spec fn declared() -> DeclView {
        DeclView {
            name: "systems::collision::PlayerMissileCollisionSystem"@,
            dependencies: seq![
                "systems::PositionUpdate"@,
            ],
            reads: seq![
                Resource::Config,
                Resource::Colliders,
                Resource::Entities,
                Resource::Position,
                Resource::Rotation,
                Resource::Team,
                Resource::Plane,
                Resource::IsPlayer,
                Resource::IsSpectating,
                Resource::IsDead,
                Resource::Mob,
                Resource::IsMissile,
            ],
            writes: seq![
                Resource::OnPlayerMissileCollision,
            ],
        }
    }

    /// What the system declares to the scheduler.
    pub fn decl() -> (d: SystemDecl)
        ensures
            d@ == Self::declared(),
    {
        let d = SystemDecl::new(Self::name()).after("systems::PositionUpdate").reading(Resource::Config).reading(Resource::Colliders).reading(Resource::Entities).reading(Resource::Position).reading(Resource::Rotation).reading(Resource::Team).reading(Resource::Plane).reading(Resource::IsPlayer).reading(Resource::IsSpectating).reading(Resource::IsDead).reading(Resource::Mob).reading(Resource::IsMissile).writing(Resource::OnPlayerMissileCollision);
        proof {
            assert(d@.reads =~= Self::declared().reads);
        }
        d
    }

    /// Finds the missiles that hit players this tick and writes one event
    /// for each pair of a missile and a player, however many of their
    /// circles overlap. The events are listed by the slot of the missile and
    /// then by the slot of the player, and are returned as well.
    pub fn run(&mut self, data: PlayerMissileCollisionSystemData<'_>) -> (hits: Vec<
        PlayerMissileCollision,
    >)
        requires
            old(data.channel).wf(),
        ensures
            final(data.channel).wf(),
            final(data.channel)@ == old(data.channel)@.write_all(hits@),
            forall|i: int, j: int| 0 <= i < j < hits@.len() ==> strictly_in_order(hits@[i], hits@[j]),
            forall|m: Entity, p: Entity|
                hits@.contains(PlayerMissileCollision { missile: m, player: p })
                    <==> #[trigger] data.arena().collides(m, p),
    {
        let ghost arena = data.arena();
        let targets = data.targets();
        let missiles = data.missiles();
        let grid = file_all(&targets);
        let collisions = query_all(&grid, &missiles);
        let found = distinct_pairs(&collisions);
        let hits = sort_pairs(&found);
        proof {
            assert forall|m: Entity, p: Entity|
                hits@.contains(PlayerMissileCollision { missile: m, player: p })
                    <==> #[trigger] arena.collides(m, p) by {
                let ev = PlayerMissileCollision { missile: m, player: p };
                let seen = witnessed(collisions@, collisions@.len() as int, ev);
                if seen {
                    let k = choose|k: int|
                        0 <= k < collisions@.len() && (#[trigger] collisions@[k]).0.ent == m
                            && collisions@[k].1.ent == p;
                    let x = collisions@[k];
                    assert(collisions@.contains(x));
                    assert(arena.clash(x.0, x.1));
                }
                if arena.collides(m, p) {
                    let (a, b) = choose|a: HitCircle, b: HitCircle| #[trigger]
                        arena.clash(a, b) && a.ent == m && b.ent == p;
                    let x = Collision(a, b);
                    assert(collisions@.contains(x));
                }
            }
        }
        proof {
            assert forall|i: int, j: int| 0 <= i < j < hits@.len() implies strictly_in_order(
                hits@[i],
                hits@[j],
            ) by {
                let a = hits@[i];
                let b = hits@[j];
                assert(in_order(a, b));
                law_no_friendly_fire(arena, a.missile, a.player);
                law_no_friendly_fire(arena, b.missile, b.player);
                if a.missile.id == b.missile.id && a.player.id == b.player.id {
                    data.pos.lemma_one_per_slot(a.missile, b.missile);
                    data.pos.lemma_one_per_slot(a.player, b.player);
                }
            }
        }
        data.channel.iter_write(&hits);
        hits
    }
}

} // verus!
