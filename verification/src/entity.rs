//! Entity handles and their allocator.
//!
//! An [`Entity`] is a slot index stamped with a generation. A slot whose
//! entity is destroyed may be handed out again, but only under a larger
//! generation, so a handle that outlived its entity never aliases a new one.

use crate::storage::Table;
use vstd::prelude::*;

verus! {

/// A generation-stamped handle. Components are attached to it in the tables
/// of the store; the handle itself carries no state.
#[derive(Clone, Copy, Debug, PartialEq, Eq, Hash, Structural)]
pub struct Entity {
    pub id: usize,
    pub generation: u32,
}

/// The allocator of entity handles.
pub struct Entities {
    generations: Vec<u32>,
    alive: Vec<bool>,
    free: Vec<usize>,
}

impl Entities {
    /// Structural invariant: every free-list entry names a dead slot whose
    /// generation can still grow, and no slot is listed twice.
    pub closed spec fn wf(&self) -> bool {
        &&& self.generations@.len() == self.alive@.len()
        &&& forall|k: int|
            0 <= k < self.free@.len() ==> {
                &&& (#[trigger] self.free@[k]) < self.alive@.len()
                &&& !self.alive@[self.free@[k] as int]
                &&& self.generations@[self.free@[k] as int] < u32::MAX
            }
        &&& forall|k: int, l: int|
            0 <= k < l < self.free@.len() ==> self.free@[k] != self.free@[l]
    }

    /// `e` is a handle that was created and not destroyed since.
    pub closed spec fn is_alive(&self, e: Entity) -> bool {
        &&& e.id < self.alive@.len()
        &&& self.alive@[e.id as int]
        &&& self.generations@[e.id as int] == e.generation
    }

    /// `e` is a handle that was created and then destroyed.
    pub closed spec fn is_retired(&self, e: Entity) -> bool {
        &&& e.id < self.alive@.len()
        &&& (e.generation < self.generations@[e.id as int] || (e.generation
            == self.generations@[e.id as int] && !self.alive@[e.id as int]))
    }

    /// The set of live entities.
    pub open spec fn live(&self) -> Set<Entity> {
        Set::new(|e: Entity| self.is_alive(e))
    }

    /// Every key of `table` is a live entity.
    pub open spec fn covers<T>(&self, table: Map<Entity, T>) -> bool {
        forall|e: Entity| #[trigger] table.contains_key(e) ==> self.is_alive(e)
    }

    /// A live handle is not a retired one.
    pub proof fn lemma_alive_not_retired(&self, e: Entity)
        ensures
            !(self.is_alive(e) && self.is_retired(e)),
    {
    }

    /// At most one generation of a slot is alive.
    pub proof fn lemma_one_generation_alive(&self, a: Entity, b: Entity)
        requires
            self.is_alive(a),
            self.is_alive(b),
            a.id == b.id,
        ensures
            a == b,
    {
    }

    pub fn new() -> (r: Self)
        ensures
            r.wf(),
            forall|e: Entity| !r.is_alive(e) && !r.is_retired(e),
    {
        Entities { generations: Vec::new(), alive: Vec::new(), free: Vec::new() }
    }

    /// Hands out a handle that is neither alive nor retired at the time of
    /// the call. Every other handle keeps its status.
    pub fn create(&mut self) -> (e: Entity)
        requires
            old(self).wf(),
        ensures
            final(self).wf(),
            !old(self).is_alive(e),
            !old(self).is_retired(e),
            final(self).is_alive(e),
            forall|o: Entity|
                o != e ==> (final(self).is_alive(o) == old(self).is_alive(o)
                    && final(self).is_retired(o) == old(self).is_retired(o)),
    {
        match self.free.pop() {
            Some(id) => {
                let g: u32 = self.generations[id] + 1;
                self.generations.set(id, g);
                self.alive.set(id, true);
                Entity { id, generation: g }
            },
            None => {
                let id: usize = self.generations.len();
                self.generations.push(0);
                self.alive.push(true);
                Entity { id, generation: 0 }
            },
        }
    }

    /// Retires `e` if it is alive and reports whether it was. A handle that
    /// is not alive is left alone.
    pub fn destroy(&mut self, e: Entity) -> (was_alive: bool)
        requires
            old(self).wf(),
        ensures
            final(self).wf(),
            was_alive == old(self).is_alive(e),
            !final(self).is_alive(e),
            was_alive ==> final(self).is_retired(e),
            forall|o: Entity|
                o != e ==> (final(self).is_alive(o) == old(self).is_alive(o)
                    && final(self).is_retired(o) == old(self).is_retired(o)),
            !was_alive ==> final(self).is_retired(e) == old(self).is_retired(e),
    {
        if !self.is_live(e) {
            return false;
        }
        self.alive.set(e.id, false);
        if e.generation < u32::MAX {
            self.free.push(e.id);
        }
        true
    }

    /// Whether every component of `table` belongs to a live entity.
    pub fn covers_table<T>(&self, table: &Table<T>) -> (r: bool)
        requires
            self.wf(),
        ensures
            r == self.covers(table@),
    {
        let keys = table.entities();
        let mut i: usize = 0;
        while i < keys.len()
            invariant
                i <= keys@.len(),
                self.wf(),
                forall|e: Entity| keys@.contains(e) <==> table@.contains_key(e),
                forall|k: int| 0 <= k < i ==> self.is_alive(#[trigger] keys@[k]),
            decreases keys@.len() - i,
        {
            if !self.is_live(keys[i]) {
                assert(keys@.contains(keys@[i as int]));
                return false;
            }
            i += 1;
        }
        proof {
            assert forall|e: Entity| #[trigger] table@.contains_key(e) implies self.is_alive(e) by {
                assert(keys@.contains(e));
            }
        }
        true
    }

    /// Whether `e` is alive.
    pub fn is_live(&self, e: Entity) -> (r: bool)
        requires
            self.wf(),
        ensures
            r == self.is_alive(e),
    {
        e.id < self.alive.len() && self.alive[e.id] && self.generations[e.id] == e.generation
    }
}

} // verus!
