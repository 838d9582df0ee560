//! Letting go of a flag. A carrier who dies, goes to watch, leaves, or asks
//! to let go drops the flag where it is.

use crate::ctf::component::{one_flag_each, FlagCarrier, FlagEvent, FlagEventType, LastDrop, OnFlag};
use crate::dispatch::{DeclView, Resource, SystemDecl};
use crate::entity::{Entities, Entity};
use crate::storage::{among, ascending, distinct_slots, overlaid, Table};
use crate::types::{Instant, IsDead, IsSpectating, Position, ThisFrame};
use vstd::prelude::*;

verus! {

pub struct DropFlagSystem;

pub struct DropFlagSystemData<'a> {
    pub entities: &'a Entities,
    pub channel: &'a mut OnFlag,
    pub thisframe: &'a ThisFrame,
    /// The players who ask to let go of what they carry.
    pub requests: &'a Vec<Entity>,
    pub is_dead: &'a Table<IsDead>,
    pub is_spec: &'a Table<IsSpectating>,
    pub pos: &'a mut Table<Position>,
    pub carrier: &'a mut Table<FlagCarrier>,
    pub lastdrop: &'a mut Table<LastDrop>,
}

/// What the rule reads: the tables as they stand when the system starts.
pub struct Grip {
    pub entities: Entities,
    pub now: Instant,
    pub requests: Seq<Entity>,
    pub is_dead: Map<Entity, IsDead>,
    pub is_spec: Map<Entity, IsSpectating>,
    pub pos: Map<Entity, Position>,
    pub carrier: Map<Entity, FlagCarrier>,
    pub lastdrop: Map<Entity, LastDrop>,
}

impl Grip {
    /// `p` lets go of what it carries: it is gone, dead or watching, or
    /// asks to.
    pub open spec fn lets_go(self, p: Entity) -> bool {
        ||| !self.entities.is_alive(p)
        ||| self.is_dead.contains_key(p)
        ||| self.is_spec.contains_key(p)
        ||| self.requests.contains(p)
    }

    /// The flag `f` is dropped this tick.
    pub open spec fn drops(self, f: Entity) -> bool {
        &&& self.carrier.contains_key(f)
        &&& self.carrier[f].0 is Some
        &&& self.lets_go(self.carrier[f].0.unwrap())
    }

    /// The flag `f` is dropped and comes to lie where its carrier is.
    pub open spec fn moves(self, f: Entity) -> bool {
        &&& self.drops(f)
        &&& self.pos.contains_key(f)
        &&& self.pos.contains_key(self.carrier[f].0.unwrap())
    }

    /// The record of the drop of `f`.
    pub open spec fn record(self, f: Entity) -> LastDrop {
        LastDrop { player: self.carrier[f].0, time: self.now }
    }

    /// The event that tells of the drop of `f`.
    pub open spec fn event(self, f: Entity) -> FlagEvent {
        FlagEvent { ty: FlagEventType::Drop, player: self.carrier[f].0, flag: f }
    }
}

impl<'a> DropFlagSystemData<'a> {
    pub open spec fn grip(&self) -> Grip {
        Grip {
            entities: *self.entities,
            now: self.thisframe.0,
            requests: self.requests@,
            is_dead: self.is_dead@,
            is_spec: self.is_spec@,
            pos: self.pos@,
            carrier: self.carrier@,
            lastdrop: self.lastdrop@,
        }
    }

    /// Every flag, and every entity with a record of a drop, is alive.
    pub open spec fn covered(&self) -> bool {
        self.entities.covers(self.carrier@) && self.entities.covers(self.lastdrop@)
    }

    /// Whether every flag, and every entity with a record of a drop, is
    /// alive.
    pub fn is_covered(&self) -> (r: bool)
        requires
            self.entities.wf(),
        ensures
            r == self.covered(),
    {
        self.entities.covers_table(&*self.carrier) && self.entities.covers_table(&*self.lastdrop)
    }

    /// Whether `p` lets go of what it carries.
    fn lets_go(&self, p: Entity) -> (r: bool)
        requires
            self.entities.wf(),
        ensures
            r == self.grip().lets_go(p),
    {
        if !self.entities.is_live(p) || self.is_dead.contains(p) || self.is_spec.contains(p) {
            return true;
        }
        let mut i: usize = 0;
        while i < self.requests.len()
            invariant
                i <= self.requests@.len(),
                forall|k: int| 0 <= k < i ==> self.requests@[k] != p,
            decreases self.requests@.len() - i,
        {
            if self.requests[i] == p {
                return true;
            }
            i += 1;
        }
        false
    }

    /// The flags that are dropped, in ascending order of slot.
    fn dropping(&self) -> (dropped: Vec<Entity>)
        requires
            self.entities.wf(),
        ensures
            forall|e: Entity| dropped@.contains(e) <==> #[trigger] self.grip().drops(e),
            forall|i: int, j: int| 0 <= i < j < dropped@.len() ==> dropped@[i].id < dropped@[j].id,
    {
        let ghost grip = self.grip();
        let flags = self.carrier.entities();
        let mut dropped: Vec<Entity> = Vec::new();
        let mut i: usize = 0;
        while i < flags.len()
            invariant
                i <= flags@.len(),
                self.grip() == grip,
                self.entities.wf(),
                ascending(flags@, grip.carrier),
                forall|e: Entity|
                    #![trigger dropped@.contains(e)]
                    #![trigger among(flags@, i as int, e)]
                    dropped@.contains(e) <==> grip.drops(e) && among(flags@, i as int, e),
                forall|k: int, l: int|
                    0 <= k < l < dropped@.len() ==> dropped@[k].id < dropped@[l].id,
                forall|k: int|
                    0 <= k < dropped@.len() && i < flags@.len() ==> (#[trigger] dropped@[k]).id
                        < flags@[i as int].id,
            decreases flags@.len() - i,
        {
            let f = flags[i];
            let ghost before = dropped@;
            let goes = match self.carrier.get(f) {
                Some(c) => match c.0 {
                    Some(p) => self.lets_go(p),
                    None => false,
                },
                None => false,
            };
            if goes {
                dropped.push(f);
            }
            i += 1;
            proof {
                assert forall|x: Entity|
                    #![trigger dropped@.contains(x)]
                    #![trigger among(flags@, i as int, x)]
                    dropped@.contains(x) <==> grip.drops(x) && among(flags@, i as int, x) by {
                    if goes {
                        crate::collision::lemma_push_contains(before, f, x);
                    }
                }
            }
        }
        proof {
            assert forall|e: Entity| dropped@.contains(e) <==> #[trigger] grip.drops(e) by {
                if grip.drops(e) {
                    assert(flags@.contains(e));
                }
            }
        }
        dropped
    }
}

/// What is written for the flags of `dropped`.
struct Columns {
    loose: Vec<FlagCarrier>,
    records: Vec<LastDrop>,
    events: Vec<FlagEvent>,
    moved: Vec<Entity>,
    places: Vec<Position>,
}

impl Columns {
    spec fn of(self, grip: Grip, dropped: Seq<Entity>) -> bool {
        &&& self.loose@ == dropped.map_values(|f: Entity| FlagCarrier(None))
        &&& self.records@ == dropped.map_values(|f: Entity| grip.record(f))
        &&& self.events@ == dropped.map_values(|f: Entity| grip.event(f))
        &&& self.moved@.len() == self.places@.len()
        &&& forall|e: Entity|
            #![trigger self.moved@.contains(e)]
            #![trigger grip.moves(e)]
            self.moved@.contains(e) <==> dropped.contains(e) && grip.moves(e)
        &&& forall|k: int, l: int|
            0 <= k < l < self.moved@.len() ==> self.moved@[k].id < self.moved@[l].id
        &&& forall|k: int|
            0 <= k < self.moved@.len() ==> self.places@[k] == grip.pos[grip.carrier[(
            #[trigger] self.moved@[k])].0.unwrap()]
    }
}

impl<'a> DropFlagSystemData<'a> {
    fn columns(&self, dropped: &Vec<Entity>) -> (cols: Columns)
        requires
            forall|k: int| 0 <= k < dropped@.len() ==> self.grip().drops(#[trigger] dropped@[k]),
            forall|i: int, j: int| 0 <= i < j < dropped@.len() ==> dropped@[i].id < dropped@[j].id,
        ensures
            cols.of(self.grip(), dropped@),
    {
        let ghost grip = self.grip();
        let now = self.thisframe.0;
        let mut cols = Columns {
            loose: Vec::new(),
            records: Vec::new(),
            events: Vec::new(),
            moved: Vec::new(),
            places: Vec::new(),
        };
        let mut i: usize = 0;
        proof {
            let none = dropped@.take(0);
            assert(cols.loose@ =~= none.map_values(|f: Entity| FlagCarrier(None)));
            assert(cols.records@ =~= none.map_values(|f: Entity| grip.record(f)));
            assert(cols.events@ =~= none.map_values(|f: Entity| grip.event(f)));
        }
        while i < dropped.len()
            invariant
                i <= dropped@.len(),
                self.grip() == grip,
                now == grip.now,
                forall|k: int| 0 <= k < dropped@.len() ==> grip.drops(#[trigger] dropped@[k]),
                forall|k: int, l: int|
                    0 <= k < l < dropped@.len() ==> dropped@[k].id < dropped@[l].id,
                cols.of(grip, dropped@.take(i as int)),
                forall|k: int|
                    0 <= k < cols.moved@.len() && i < dropped@.len() ==> (
                    #[trigger] cols.moved@[k]).id < dropped@[i as int].id,
            decreases dropped@.len() - i,
        {
            let f = dropped[i];
            let ghost done = dropped@.take(i as int);
            let ghost moved0 = cols.moved@;
            let p = self.carrier.get(f).unwrap().0.unwrap();
            cols.loose.push(FlagCarrier(None));
            cols.records.push(LastDrop { player: Some(p), time: now });
            cols.events.push(FlagEvent { ty: FlagEventType::Drop, player: Some(p), flag: f });
            let mut grew = false;
            if self.pos.contains(f) {
                match self.pos.get(p) {
                    Some(at) => {
                        cols.moved.push(f);
                        cols.places.push(*at);
                        grew = true;
                    },
                    None => {},
                }
            }
            i += 1;
            proof {
                let next = dropped@.take(i as int);
                assert(next =~= done.push(f));
                assert(cols.loose@ =~= next.map_values(|f: Entity| FlagCarrier(None)));
                assert(cols.records@ =~= next.map_values(|f: Entity| grip.record(f)));
                assert(cols.events@ =~= next.map_values(|f: Entity| grip.event(f)));
                assert forall|e: Entity|
                    #![trigger cols.moved@.contains(e)]
                    #![trigger grip.moves(e)]
                    cols.moved@.contains(e) <==> next.contains(e) && grip.moves(e) by {
                    crate::collision::lemma_push_contains(done, f, e);
                    if grew {
                        crate::collision::lemma_push_contains(moved0, f, e);
                    }
                }
            }
        }
        proof {
            assert(dropped@.take(i as int) =~= dropped@);
        }
        cols
    }
}

impl DropFlagSystem {
    pub fn new() -> (r: Self) {
        DropFlagSystem
    }

    pub fn name() -> (r: &'static str)
        ensures
            r@ == "ctf::systems::DropFlagSystem"@,
    {
        "ctf::systems::DropFlagSystem"
    }

    /// What the system declares: it runs after positions are updated.
    pub open spec fn declared() -> DeclView {
        DeclView {
            name: "ctf::systems::DropFlagSystem"@,
            dependencies: seq![
                "systems::PositionUpdate"@,
            ],
            reads: seq![
                Resource::Entities,
                Resource::ThisFrame,
                Resource::IsDead,
                Resource::IsSpectating,
            ],
            writes: seq![
                Resource::OnFlag,
                Resource::Position,
                Resource::FlagCarrier,
                Resource::LastDrop,
            ],
        }
    }

    /// What the system declares to the scheduler.
    pub fn decl() -> (d: SystemDecl)
        ensures
            d@ == Self::declared(),
    {
        let d = SystemDecl::new(Self::name()).after("systems::PositionUpdate").reading(Resource::Entities).reading(Resource::ThisFrame).reading(Resource::IsDead).reading(Resource::IsSpectating).writing(Resource::OnFlag).writing(Resource::Position).writing(Resource::FlagCarrier).writing(Resource::LastDrop);
        proof {
            assert(d@.reads =~= Self::declared().reads);
            assert(d@.writes =~= Self::declared().writes);
        }
        d
    }

    /// Drops every flag whose carrier lets go, and returns the flags
    /// dropped, in ascending order of slot.
    ///
    /// A dropped flag has no carrier, lies where its carrier was, and
    /// records who dropped it and when; an event tells of each drop.
    pub fn run(&mut self, data: DropFlagSystemData<'_>) -> (dropped: Vec<Entity>)
        requires
            data.entities.wf(),
            old(data.channel).wf(),
            data.covered(),
        ensures
            final(data.channel).wf(),
            forall|e: Entity| dropped@.contains(e) <==> #[trigger] data.grip().drops(e),
            forall|i: int, j: int| 0 <= i < j < dropped@.len() ==> dropped@[i].id < dropped@[j].id,
            // the carriers
            one_flag_each(old(data.carrier)@) ==> one_flag_each(final(data.carrier)@),
            forall|e: Entity|
                final(data.carrier)@.contains_key(e) == old(data.carrier)@.contains_key(e),
            forall|e: Entity|
                old(data.carrier)@.contains_key(e) ==> #[trigger] final(data.carrier)@[e] == (
                if data.grip().drops(e) {
                    FlagCarrier(None)
                } else {
                    old(data.carrier)@[e]
                }),
            // the records
            overlaid(
                old(data.lastdrop)@,
                final(data.lastdrop)@,
                dropped@,
                dropped@.map_values(|f: Entity| data.grip().record(f)),
            ),
            // the positions
            forall|e: Entity| final(data.pos)@.contains_key(e) == old(data.pos)@.contains_key(e),
            forall|e: Entity|
                old(data.pos)@.contains_key(e) ==> #[trigger] final(data.pos)@[e] == (
                if data.grip().moves(e) {
                    old(data.pos)@[old(data.carrier)@[e].0.unwrap()]
                } else {
                    old(data.pos)@[e]
                }),
            // the events
            final(data.channel)@ == old(data.channel)@.write_all(
                dropped@.map_values(|f: Entity| data.grip().event(f)),
            ),
    {
        let ghost grip = data.grip();
        let dropped = data.dropping();
        proof {
            assert forall|k: int| 0 <= k < dropped@.len() implies grip.drops(
                #[trigger] dropped@[k],
            ) by {}
        }
        let cols = data.columns(&dropped);
        proof {
            assert forall|e: Entity, k: int|
                grip.carrier.contains_key(e) && 0 <= k < dropped@.len() && e.id
                    == dropped@[k].id implies e == dropped@[k] by {
                data.carrier.lemma_one_per_slot(e, dropped@[k]);
            }
            assert forall|e: Entity, k: int|
                grip.lastdrop.contains_key(e) && 0 <= k < dropped@.len() && e.id
                    == dropped@[k].id implies e == dropped@[k] by {
                data.entities.lemma_one_generation_alive(e, dropped@[k]);
            }
            assert forall|e: Entity, k: int|
                grip.pos.contains_key(e) && 0 <= k < cols.moved@.len() && e.id
                    == cols.moved@[k].id implies e == cols.moved@[k] by {
                assert(cols.moved@.contains(cols.moved@[k]));
                data.pos.lemma_one_per_slot(e, cols.moved@[k]);
            }
        }
        data.carrier.insert_all(&dropped, &cols.loose);
        proof {
            assert forall|e: Entity, k: int|
                data.lastdrop@.contains_key(e) && 0 <= k < dropped@.len() && e.id
                    == dropped@[k].id implies e == dropped@[k] by {
                data.entities.lemma_one_generation_alive(e, dropped@[k]);
            }
        }
        data.lastdrop.insert_all(&dropped, &cols.records);
        data.pos.insert_all(&cols.moved, &cols.places);
        data.channel.iter_write(&cols.events);
        dropped
    }
}

} // verus!
