//! Component tables: one table per component type, keyed by entity.

use crate::entity::Entity;
use vstd::prelude::*;

verus! {

/// What a table holds once every component filed under slot `id` is taken out.
pub open spec fn without_slot<T>(m: Map<Entity, T>, id: usize) -> Map<Entity, T> {
    m.remove_keys(Set::new(|e: Entity| e.id == id))
}

/// `after` is `before` with `values[i]` filed under `keys[i]` for every `i`,
/// and nothing else changed.
pub open spec fn overlaid<T>(
    before: Map<Entity, T>,
    after: Map<Entity, T>,
    keys: Seq<Entity>,
    values: Seq<T>,
) -> bool {
    &&& keys.len() == values.len()
    &&& forall|e: Entity| #[trigger]
        after.contains_key(e) <==> before.contains_key(e) || keys.contains(e)
    &&& forall|i: int| 0 <= i < keys.len() ==> after[#[trigger] keys[i]] == values[i]
    &&& forall|e: Entity|
        before.contains_key(e) && !keys.contains(e) ==> #[trigger] after[e] == before[e]
}

/// `e` is one of the first `n` entities of `list`.
pub open spec fn among(list: Seq<Entity>, n: int, e: Entity) -> bool {
    exists|k: int| 0 <= k < n && k < list.len() && list[k] == e
}

/// `order` lists the keys of `map`, each once, in ascending order of slot.
pub open spec fn ascending<T>(order: Seq<Entity>, map: Map<Entity, T>) -> bool {
    &&& forall|e: Entity| order.contains(e) <==> map.contains_key(e)
    &&& forall|i: int, j: int| 0 <= i < j < order.len() ==> order[i].id < order[j].id
}

/// No two entities of `keys` share a slot.
pub open spec fn distinct_slots(keys: Seq<Entity>) -> bool {
    forall|i: int, j: int| 0 <= i < j < keys.len() ==> keys[i].id != keys[j].id
}

/// A table from entities to values of one component type.
///
/// A read for an entity without the component answers `None`; it never
/// makes up a value. A slot holds the component of at most one generation.
pub struct Table<T> {
    slots: Vec<Option<(u32, T)>>,
}

impl<T> View for Table<T> {
    type V = Map<Entity, T>;

    closed spec fn view(&self) -> Map<Entity, T> {
        Map::new(
            |e: Entity|
                e.id < self.slots@.len() && match self.slots@[e.id as int] {
                    Some(entry) => entry.0 == e.generation,
                    None => false,
                },
            |e: Entity| self.slots@[e.id as int].unwrap().1,
        )
    }
}

impl<T> Table<T> {
    /// Two entities that both have the component differ in their slot.
    pub proof fn lemma_one_per_slot(&self, a: Entity, b: Entity)
        requires
            self@.contains_key(a),
            self@.contains_key(b),
            a.id == b.id,
        ensures
            a == b,
    {
    }

    pub fn new() -> (r: Self)
        ensures
            r@ == Map::<Entity, T>::empty(),
    {
        let r = Table { slots: Vec::new() };
        r
    }

    /// Whether `e` has the component.
    pub fn contains(&self, e: Entity) -> (r: bool)
        ensures
            r == self@.contains_key(e),
    {
        if e.id >= self.slots.len() {
            return false;
        }
        match &self.slots[e.id] {
            Some(entry) => entry.0 == e.generation,
            None => false,
        }
    }

    /// The component of `e`, or `None` where `e` has none.
    pub fn get(&self, e: Entity) -> (r: Option<&T>)
        ensures
            r == (if self@.contains_key(e) {
                Some(&self@[e])
            } else {
                None
            }),
    {
        if e.id >= self.slots.len() {
            return None;
        }
        match &self.slots[e.id] {
            Some(entry) => {
                if entry.0 == e.generation {
                    Some(&entry.1)
                } else {
                    None
                }
            },
            None => None,
        }
    }

    /// Attaches `value` to `e`, in place of whatever was filed under the
    /// slot of `e`, and returns the value that `e` itself had before.
    pub fn insert(&mut self, e: Entity, value: T) -> (prev: Option<T>)
        ensures
            final(self)@ == without_slot(old(self)@, e.id).insert(e, value),
            prev == (if old(self)@.contains_key(e) {
                Some(old(self)@[e])
            } else {
                None
            }),
    {
        while self.slots.len() <= e.id
            invariant
                self@ == old(self)@,
            decreases e.id + 1 - self.slots.len(),
        {
            self.slots.push(None);
        }
        let mut entry: Option<(u32, T)> = Some((e.generation, value));
        std::mem::swap(&mut self.slots[e.id], &mut entry);
        match entry {
            Some(pair) => {
                if pair.0 == e.generation {
                    Some(pair.1)
                } else {
                    None
                }
            },
            None => None,
        }
    }

    /// Overwrites the component that `e` has.
    pub fn set(&mut self, e: Entity, value: T)
        requires
            old(self)@.contains_key(e),
        ensures
            final(self)@ == old(self)@.insert(e, value),
    {
        proof {
            assert forall|x: Entity| old(self)@.contains_key(x) && x.id == e.id implies x == e by {
                self.lemma_one_per_slot(x, e);
            }
        }
        let _ = self.insert(e, value);
    }

    /// Detaches the component of `e` and returns it. Where `e` has none,
    /// nothing changes.
    pub fn remove(&mut self, e: Entity) -> (prev: Option<T>)
        ensures
            final(self)@ == old(self)@.remove(e),
            prev == (if old(self)@.contains_key(e) {
                Some(old(self)@[e])
            } else {
                None
            }),
    {
        if !self.contains(e) {
            return None;
        }
        let mut entry: Option<(u32, T)> = None;
        std::mem::swap(&mut self.slots[e.id], &mut entry);
        match entry {
            Some(pair) => Some(pair.1),
            None => None,
        }
    }

    /// A mutable reference to the component of `e`, or `None` where `e` has
    /// none. Writing through the reference changes the component of `e` and
    /// nothing else.
    pub fn get_mut(&mut self, e: Entity) -> (r: Option<&mut T>)
        ensures
            match r {
                Some(slot) => old(self)@.contains_key(e) && *slot == old(self)@[e] && final(self)@
                    == old(self)@.insert(e, *final(slot)),
                None => !old(self)@.contains_key(e) && final(self)@ == old(self)@,
            },
    {
        if !self.contains(e) {
            return None;
        }
        match &mut self.slots[e.id] {
            Some(entry) => Some(&mut entry.1),
            None => None,
        }
    }

    /// Files `values[i]` under `keys[i]` for every `i`. The keys lie in
    /// different slots, and none of those slots holds the component of
    /// another entity.
    pub fn insert_all(&mut self, keys: &Vec<Entity>, values: &Vec<T>) where T: Copy
        requires
            keys@.len() == values@.len(),
            distinct_slots(keys@),
            forall|e: Entity, i: int|
                old(self)@.contains_key(e) && 0 <= i < keys@.len() && e.id == keys@[i].id ==> e
                    == keys@[i],
        ensures
            overlaid(old(self)@, final(self)@, keys@, values@),
    {
        let mut n: usize = 0;
        while n < keys.len()
            invariant
                n <= keys@.len(),
                keys@.len() == values@.len(),
                distinct_slots(keys@),
                forall|e: Entity, i: int|
                    old(self)@.contains_key(e) && 0 <= i < keys@.len() && e.id == keys@[i].id ==> e
                        == keys@[i],
                overlaid(old(self)@, self@, keys@.take(n as int), values@.take(n as int)),
            decreases keys@.len() - n,
        {
            let k = keys[n];
            self.insert(k, values[n]);
            proof {
                let next = keys@.take(n + 1);
                assert forall|e: Entity| #[trigger]
                    self@.contains_key(e) <==> old(self)@.contains_key(e) || next.contains(e) by {
                    assert(next[n as int] == k);
                }
                assert forall|e: Entity|
                    old(self)@.contains_key(e) && !next.contains(e) implies #[trigger] self@[e]
                    == old(self)@[e] by {
                    assert(next[n as int] == k);
                }
            }
            n += 1;
        }
        proof {
            assert(keys@.take(n as int) =~= keys@);
        }
    }

    /// The entities that have the component, in ascending order of slot.
    pub fn entities(&self) -> (r: Vec<Entity>)
        ensures
            ascending(r@, self@),
            forall|e: Entity| r@.contains(e) <==> self@.contains_key(e),
            forall|i: int, j: int| 0 <= i < j < r@.len() ==> r@[i].id < r@[j].id,
    {
        let mut out: Vec<Entity> = Vec::new();
        let mut i: usize = 0;
        while i < self.slots.len()
            invariant
                i <= self.slots@.len(),
                forall|e: Entity| out@.contains(e) <==> (self@.contains_key(e) && e.id < i),
                forall|k: int| 0 <= k < out@.len() ==> (#[trigger] out@[k]).id < i,
                forall|k: int, l: int| 0 <= k < l < out@.len() ==> out@[k].id < out@[l].id,
            decreases self.slots@.len() - i,
        {
            let ghost prev = out@;
            match &self.slots[i] {
                Some(entry) => {
                    let e = Entity { id: i, generation: entry.0 };
                    out.push(e);
                    assert(out@[prev.len() as int] == e);
                    assert forall|x: Entity| out@.contains(x) implies (self@.contains_key(x) && x.id
                        < i + 1) by {
                        let k = choose|k: int| 0 <= k < out@.len() && out@[k] == x;
                        if k < prev.len() {
                            assert(prev.contains(x));
                        }
                    }
                    assert forall|x: Entity| (self@.contains_key(x) && x.id < i + 1) implies out@.contains(
                        x,
                    ) by {
                        if x.id < i {
                            assert(prev.contains(x));
                            let k = choose|k: int| 0 <= k < prev.len() && prev[k] == x;
                            assert(out@[k] == x);
                        }
                    }
                },
                None => {},
            }
            i += 1;
        }
        out
    }
}

/// The entities that have a component in both tables, in ascending order
/// of slot. A query over more tables follows from the queries over pairs.
pub fn join<A, B>(left: &Table<A>, right: &Table<B>) -> (r: Vec<Entity>)
    ensures
        forall|e: Entity| r@.contains(e) <==> left@.contains_key(e) && right@.contains_key(e),
        forall|i: int, j: int| 0 <= i < j < r@.len() ==> r@[i].id < r@[j].id,
{
    let keys = left.entities();
    let mut out: Vec<Entity> = Vec::new();
    let mut i: usize = 0;
    while i < keys.len()
        invariant
            i <= keys@.len(),
            ascending(keys@, left@),
            forall|e: Entity|
                #![trigger out@.contains(e)]
                #![trigger among(keys@, i as int, e)]
                out@.contains(e) <==> right@.contains_key(e) && among(keys@, i as int, e),
            forall|k: int, l: int| 0 <= k < l < out@.len() ==> out@[k].id < out@[l].id,
            forall|k: int|
                0 <= k < out@.len() && i < keys@.len() ==> (#[trigger] out@[k]).id
                    < keys@[i as int].id,
        decreases keys@.len() - i,
    {
        let e = keys[i];
        let ghost before = out@;
        let both = right.contains(e);
        if both {
            out.push(e);
        }
        i += 1;
        proof {
            assert forall|x: Entity|
                #![trigger out@.contains(x)]
                #![trigger among(keys@, i as int, x)]
                out@.contains(x) <==> right@.contains_key(x) && among(keys@, i as int, x) by {
                let had = before.contains(x);
                if had {
                    let k = choose|k: int| 0 <= k < before.len() && before[k] == x;
                    assert(out@[k] == x);
                }
                if both {
                    assert(out@[before.len() as int] == e);
                }
            }
        }
    }
    proof {
        assert forall|e: Entity|
            out@.contains(e) <==> left@.contains_key(e) && right@.contains_key(e) by {
            let all = among(keys@, i as int, e);
            if left@.contains_key(e) {
                assert(keys@.contains(e));
            }
            if all {
                assert(keys@.contains(e));
            }
        }
    }
    out
}

} // verus!
