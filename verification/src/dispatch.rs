//! The dependency scheduler.
//!
//! Every system declares a name, the names of the systems it must run
//! after, and what it reads and writes. From the declarations the builder
//! computes, once, the waves in which the systems run each tick: a system
//! runs in a later wave than each of its predecessors, no two systems of a
//! wave touch the same thing unless both only read it, and every system
//! runs in the earliest wave that this allows, systems registered earlier
//! going first. A cycle among the declarations is found when the schedule
//! is built.

use vstd::prelude::*;
use vstd::string::StringExecFns;

verus! {

/// What a system may read or write in a tick: a component table, a
/// channel or a resource.
#[derive(Clone, Copy, Debug, PartialEq, Eq, Hash, Structural)]
pub enum Resource {
    Entities,
    Config,
    Colliders,
    Connections,
    ThisFrame,
    StartTime,
    GameMode,
    Position,
    Rotation,
    Velocity,
    Team,
    Plane,
    IsPlayer,
    IsSpectating,
    IsDead,
    Mob,
    IsMissile,
    KeyState,
    Energy,
    Health,
    PlayerRef,
    MobSpawnTime,
    LastShotTime,
    Name,
    Level,
    Score,
    Earnings,
    Upgrades,
    Powerups,
    Status,
    Flag,
    Session,
    TotalKills,
    TotalDeaths,
    IsFlag,
    FlagCarrier,
    LastDrop,
    GameScores,
    CtfConfig,
    OnFlag,
    OnPlayerJoin,
    OnPlayerSpectate,
    OnPlayerMissileCollision,
    OnCommand,
    OnScoreBoardTimer,
    OnAfkTimer,
    OnPingTimer,
    /// Anything else, by a number of the caller's choosing.
    Other(u32),
}

/// The declaration of one system.
pub struct SystemDecl {
    pub name: String,
    pub dependencies: Vec<String>,
    pub reads: Vec<Resource>,
    pub writes: Vec<Resource>,
}

/// A declaration as a value.
pub struct DeclView {
    pub name: Seq<char>,
    pub dependencies: Seq<Seq<char>>,
    pub reads: Seq<Resource>,
    pub writes: Seq<Resource>,
}

impl View for SystemDecl {
    type V = DeclView;

    open spec fn view(&self) -> DeclView {
        DeclView {
            name: self.name@,
            dependencies: Seq::new(self.dependencies@.len(), |i: int| self.dependencies@[i]@),
            reads: self.reads@,
            writes: self.writes@,
        }
    }
}

impl SystemDecl {
    /// The declaration of a system called `name` that depends on nothing
    /// and touches nothing.
    pub fn new(name: &str) -> (r: Self)
        ensures
            r@ == (DeclView {
                name: name@,
                dependencies: Seq::empty(),
                reads: Seq::empty(),
                writes: Seq::empty(),
            }),
    {
        let r = SystemDecl {
            name: String::from_str(name),
            dependencies: Vec::new(),
            reads: Vec::new(),
            writes: Vec::new(),
        };
        assert(r@.dependencies =~= Seq::empty());
        r
    }

    /// Adds the system called `name` to the predecessors.
    pub fn after(self, name: &str) -> (r: Self)
        ensures
            r@ == (DeclView { dependencies: self@.dependencies.push(name@), ..self@ }),
    {
        let mut dependencies = self.dependencies;
        dependencies.push(String::from_str(name));
        let r = SystemDecl { name: self.name, dependencies, reads: self.reads, writes: self.writes };
        assert(r@.dependencies =~= self@.dependencies.push(name@));
        r
    }

    /// Adds `resource` to what the system reads.
    pub fn reading(self, resource: Resource) -> (r: Self)
        ensures
            r@ == (DeclView { reads: self@.reads.push(resource), ..self@ }),
    {
        let mut reads = self.reads;
        reads.push(resource);
        let r = SystemDecl {
            name: self.name,
            dependencies: self.dependencies,
            reads,
            writes: self.writes,
        };
        r
    }

    /// Adds `resource` to what the system writes.
    pub fn writing(self, resource: Resource) -> (r: Self)
        ensures
            r@ == (DeclView { writes: self@.writes.push(resource), ..self@ }),
    {
        let mut writes = self.writes;
        writes.push(resource);
        let r = SystemDecl {
            name: self.name,
            dependencies: self.dependencies,
            reads: self.reads,
            writes,
        };
        r
    }
}

/// The declarations of `systems`, in the order of registration.
pub open spec fn decls_of(systems: Seq<SystemDecl>) -> Seq<DeclView> {
    Seq::new(systems.len(), |i: int| systems[i]@)
}

/// No two systems have the same name.
pub open spec fn names_distinct(decls: Seq<DeclView>) -> bool {
    forall|i: int, j: int| 0 <= i < j < decls.len() ==> decls[i].name != decls[j].name
}

/// Some system is called `name`.
pub open spec fn is_name(decls: Seq<DeclView>, name: Seq<char>) -> bool {
    exists|p: int| 0 <= p < decls.len() && (#[trigger] decls[p]).name == name
}

/// Every dependency names a system.
pub open spec fn deps_known(decls: Seq<DeclView>) -> bool {
    forall|s: int, d: int|
        0 <= s < decls.len() && 0 <= d < decls[s].dependencies.len() ==> is_name(
            decls,
            #[trigger] decls[s].dependencies[d],
        )
}

/// Every dependency that comes before the one at place `d` of the system
/// `s`, in the order of registration and then of listing, names a system.
pub open spec fn first_unknown(decls: Seq<DeclView>, s: int, d: int) -> bool {
    &&& forall|x: int, k: int|
        0 <= x < s && 0 <= k < decls[x].dependencies.len() ==> is_name(
            decls,
            #[trigger] decls[x].dependencies[k],
        )
    &&& forall|k: int| 0 <= k < d ==> is_name(decls, #[trigger] decls[s].dependencies[k])
}

/// The system `s` declares the system `p` as a predecessor.
pub open spec fn depends(decls: Seq<DeclView>, s: int, p: int) -> bool {
    &&& 0 <= s < decls.len()
    &&& 0 <= p < decls.len()
    &&& decls[s].dependencies.contains(decls[p].name)
}

/// `a` writes something that `b` reads or writes.
pub open spec fn writes_into(a: DeclView, b: DeclView) -> bool {
    exists|r: Resource| #[trigger] a.writes.contains(r) && (b.reads.contains(r) || b.writes.contains(r))
}

/// One of the two writes something that the other reads or writes.
pub open spec fn conflicts(a: DeclView, b: DeclView) -> bool {
    writes_into(a, b) || writes_into(b, a)
}

/// `rank` gives every system a number larger than that of each of its
/// predecessors.
pub open spec fn is_ranking(decls: Seq<DeclView>, rank: Seq<nat>) -> bool {
    &&& rank.len() == decls.len()
    &&& forall|s: int, p: int| #[trigger] depends(decls, s, p) ==> rank[p] < rank[s]
}

/// The declared dependencies have no cycle: the systems can be numbered so
/// that every system comes after its predecessors.
pub open spec fn acyclic(decls: Seq<DeclView>) -> bool {
    exists|rank: Seq<nat>| #[trigger] is_ranking(decls, rank)
}

/// `path` leads from a system back to itself along declared dependencies.
pub open spec fn is_cycle(decls: Seq<DeclView>, path: Seq<int>) -> bool {
    &&& path.len() >= 2
    &&& path.first() == path.last()
    &&& forall|k: int| 0 <= k < path.len() - 1 ==> #[trigger] depends(decls, path[k], path[k + 1])
}

/// Some path leads from a system back to itself.
pub open spec fn has_cycle(decls: Seq<DeclView>) -> bool {
    exists|path: Seq<int>| #[trigger] is_cycle(decls, path)
}

/// Declarations with a cycle among them are not acyclic.
pub proof fn law_cycle_is_not_acyclic(decls: Seq<DeclView>, path: Seq<int>)
    requires
        is_cycle(decls, path),
    ensures
        !acyclic(decls),
{
    if acyclic(decls) {
        let rank = choose|rank: Seq<nat>| #[trigger] is_ranking(decls, rank);
        lemma_rank_falls(decls, rank, path, path.len() - 1);
    }
}

/// Along dependencies the rank falls.
proof fn lemma_rank_falls(decls: Seq<DeclView>, rank: Seq<nat>, path: Seq<int>, k: int)
    requires
        is_ranking(decls, rank),
        forall|i: int| 0 <= i < path.len() - 1 ==> #[trigger] depends(decls, path[i], path[i + 1]),
        1 <= k < path.len(),
    ensures
        rank[path[k]] < rank[path[0]],
    decreases k,
{
    assert(depends(decls, path[k - 1], path[k - 1 + 1]));
    if k > 1 {
        lemma_rank_falls(decls, rank, path, k - 1);
    }
}

/// Why a schedule could not be built.
#[derive(Clone, Copy, Debug, PartialEq, Eq, Structural)]
pub enum BuildError {
    /// The system at this place has the name of one registered before it.
    DuplicateName(usize),
    /// A dependency of the system at `system`, the one at place
    /// `dependency` of its list, names no system.
    UnknownDependency { system: usize, dependency: usize },
    /// The dependencies form a cycle.
    Cycle,
}

/// The waves of a tick. Systems are known by their place in the order of
/// registration.
pub struct Schedule {
    waves: Vec<Vec<usize>>,
    wave_of: Vec<usize>,
}

/// The system `s` cannot run in wave `j` or before: a predecessor of its
/// runs in wave `j` or later, or a system registered before it runs in
/// wave `j` and conflicts with it.
pub open spec fn held_back(decls: Seq<DeclView>, wave_of: Seq<usize>, s: int, j: int) -> bool {
    ||| exists|p: int| #[trigger] depends(decls, s, p) && wave_of[p] >= j
    ||| exists|c: int|
        0 <= c < s && (#[trigger] wave_of[c]) == j && conflicts(decls[s], decls[c])
}

/// `waves` is the schedule of `decls`, and `wave_of` tells the wave of each
/// system.
pub open spec fn is_schedule(
    decls: Seq<DeclView>,
    waves: Seq<Seq<usize>>,
    wave_of: Seq<usize>,
) -> bool {
    // every system runs once
    &&& wave_of.len() == decls.len()
    &&& forall|s: int|
        0 <= s < decls.len() ==> (#[trigger] wave_of[s]) < waves.len()
            && waves[wave_of[s] as int].contains(s as usize)
    &&& forall|k: int, i: int|
        0 <= k < waves.len() && 0 <= i < waves[k].len() ==> (#[trigger] waves[k][i]) < decls.len()
            && wave_of[waves[k][i] as int] == k
    &&& forall|k: int, i: int, j: int|
        0 <= k < waves.len() && 0 <= i < j < waves[k].len() ==> waves[k][i] < waves[k][j]
    &&& forall|k: int| 0 <= k < waves.len() ==> (#[trigger] waves[k]).len() > 0
    // after its predecessors
    &&& forall|s: int, p: int| #[trigger] depends(decls, s, p) ==> wave_of[p] < wave_of[s]
    // never beside a system it conflicts with
    &&& forall|a: int, b: int|
        0 <= a < decls.len() && 0 <= b < decls.len() && a != b && (#[trigger] wave_of[a]) == (
        #[trigger] wave_of[b]) ==> !conflicts(decls[a], decls[b])
    // as early as that allows
    &&& forall|s: int, j: int|
        0 <= s < decls.len() && 0 <= j < wave_of[s] ==> #[trigger] held_back(decls, wave_of, s, j)
}

impl Schedule {
    /// The waves, in the order in which they run; each lists its systems
    /// in the order of registration.
    pub closed spec fn waves(&self) -> Seq<Seq<usize>> {
        Seq::new(self.waves@.len(), |k: int| self.waves@[k]@)
    }

    /// The wave of each system.
    pub closed spec fn wave_of(&self) -> Seq<usize> {
        self.wave_of@
    }

    /// This is the schedule of `decls`.
    pub open spec fn schedules(&self, decls: Seq<DeclView>) -> bool {
        is_schedule(decls, self.waves(), self.wave_of())
    }

    /// How many waves a tick has.
    pub fn len(&self) -> (n: usize)
        ensures
            n == self.waves().len(),
    {
        self.waves.len()
    }

    /// The systems of wave `k`.
    pub fn wave(&self, k: usize) -> (w: &Vec<usize>)
        requires
            k < self.waves().len(),
        ensures
            w@ == self.waves()[k as int],
    {
        &self.waves[k]
    }

    /// The wave in which the system `s` runs.
    pub fn wave_index(&self, s: usize) -> (k: usize)
        requires
            s < self.wave_of().len(),
        ensures
            k == self.wave_of()[s as int],
    {
        self.wave_of[s]
    }
}

/// Scheduler ordering. In a schedule every system runs in a later wave
/// than each of its declared predecessors, so the declarations that have a
/// schedule are acyclic.
pub proof fn law_runs_after_predecessors(
    decls: Seq<DeclView>,
    waves: Seq<Seq<usize>>,
    wave_of: Seq<usize>,
)
    requires
        is_schedule(decls, waves, wave_of),
    ensures
        forall|s: int, p: int| #[trigger] depends(decls, s, p) ==> wave_of[p] < wave_of[s],
        acyclic(decls),
{
    let rank = Seq::new(decls.len(), |s: int| wave_of[s] as nat);
    assert(is_ranking(decls, rank));
}

/// Conflict safety. Two systems of one wave do not conflict: neither
/// writes anything that the other reads or writes.
pub proof fn law_wave_is_conflict_free(
    decls: Seq<DeclView>,
    waves: Seq<Seq<usize>>,
    wave_of: Seq<usize>,
    k: int,
    i: int,
    j: int,
)
    requires
        is_schedule(decls, waves, wave_of),
        0 <= k < waves.len(),
        0 <= i < waves[k].len(),
        0 <= j < waves[k].len(),
        i != j,
    ensures
        waves[k][i] != waves[k][j],
        !conflicts(decls[waves[k][i] as int], decls[waves[k][j] as int]),
{
}

/// How many entries of `assigned` are empty.
spec fn count_none(assigned: Seq<Option<usize>>) -> nat
    decreases assigned.len(),
{
    if assigned.len() == 0 {
        0
    } else {
        count_none(assigned.drop_last()) + if assigned.last() is None {
            1nat
        } else {
            0nat
        }
    }
}

proof fn lemma_count_fill(assigned: Seq<Option<usize>>, i: int, k: usize)
    requires
        0 <= i < assigned.len(),
        assigned[i] is None,
    ensures
        count_none(assigned.update(i, Some(k))) + 1 == count_none(assigned),
    decreases assigned.len(),
{
    let after = assigned.update(i, Some(k));
    if i == assigned.len() - 1 {
        assert(after.drop_last() =~= assigned.drop_last());
    } else {
        assert(after.drop_last() =~= assigned.drop_last().update(i, Some(k)));
        lemma_count_fill(assigned.drop_last(), i, k);
    }
}

proof fn lemma_count_zero(assigned: Seq<Option<usize>>, i: int)
    requires
        count_none(assigned) == 0,
        0 <= i < assigned.len(),
    ensures
        assigned[i] is Some,
    decreases assigned.len(),
{
    if i < assigned.len() - 1 {
        lemma_count_zero(assigned.drop_last(), i);
    }
}

proof fn lemma_count_bound(assigned: Seq<Option<usize>>)
    ensures
        count_none(assigned) <= assigned.len(),
    decreases assigned.len(),
{
    if assigned.len() > 0 {
        lemma_count_bound(assigned.drop_last());
    }
}

/// `preds` lists, for every system, the places of its predecessors.
spec fn lists_preds(preds: Seq<Vec<usize>>, decls: Seq<DeclView>) -> bool {
    &&& preds.len() == decls.len()
    &&& forall|s: int, k: int|
        0 <= s < preds.len() && 0 <= k < preds[s]@.len() ==> (#[trigger] preds[s]@[k])
            < decls.len() && depends(decls, s, preds[s]@[k] as int)
    &&& forall|s: int, p: int| #[trigger]
        depends(decls, s, p) ==> preds[s]@.contains(p as usize)
}

/// `clash` tells of every two systems whether they conflict.
spec fn lists_clashes(clash: Seq<Vec<bool>>, decls: Seq<DeclView>) -> bool {
    &&& clash.len() == decls.len()
    &&& forall|a: int| 0 <= a < clash.len() ==> (#[trigger] clash[a])@.len() == decls.len()
    &&& forall|a: int, b: int|
        0 <= a < decls.len() && 0 <= b < decls.len() ==> (#[trigger] clash[a]@[b]) == conflicts(
            decls[a],
            decls[b],
        )
}

/// A predecessor of `s` has no wave yet.
spec fn waits(decls: Seq<DeclView>, assigned: Seq<Option<usize>>, s: int) -> bool {
    exists|p: int| #[trigger] depends(decls, s, p) && assigned[p] is None
}

/// A system of `wave` that was registered before `s` conflicts with `s`.
spec fn crowded(decls: Seq<DeclView>, wave: Seq<usize>, s: int) -> bool {
    exists|i: int|
        0 <= i < wave.len() && (#[trigger] wave[i]) < s && conflicts(decls[s], decls[wave[i] as int])
}

/// As `held_back`, while some systems have no wave yet: those count as
/// running later than any wave.
spec fn held_now(decls: Seq<DeclView>, assigned: Seq<Option<usize>>, s: int, j: int) -> bool {
    ||| exists|p: int|
        #[trigger] depends(decls, s, p) && (assigned[p] is None || assigned[p].unwrap() >= j)
    ||| exists|c: int|
        0 <= c < s && (#[trigger] assigned[c]) == Some(j as usize) && conflicts(decls[s], decls[c])
}

/// The waves so far are as a schedule has them.
spec fn partial(
    decls: Seq<DeclView>,
    waves: Seq<Vec<usize>>,
    assigned: Seq<Option<usize>>,
) -> bool {
    &&& assigned.len() == decls.len()
    &&& forall|s: int|
        0 <= s < decls.len() && (#[trigger] assigned[s]) is Some ==> assigned[s].unwrap()
            < waves.len() && waves[assigned[s].unwrap() as int]@.contains(s as usize)
    &&& forall|k: int, i: int|
        0 <= k < waves.len() && 0 <= i < waves[k]@.len() ==> (#[trigger] waves[k]@[i])
            < decls.len() && assigned[waves[k]@[i] as int] == Some(k as usize)
    &&& forall|k: int, i: int, j: int|
        0 <= k < waves.len() && 0 <= i < j < waves[k]@.len() ==> waves[k]@[i] < waves[k]@[j]
    &&& forall|k: int| 0 <= k < waves.len() ==> (#[trigger] waves[k])@.len() > 0
    &&& forall|s: int, p: int|
        #[trigger] depends(decls, s, p) && assigned[s] is Some ==> assigned[p] is Some
            && assigned[p].unwrap() < assigned[s].unwrap()
    &&& forall|a: int, b: int|
        0 <= a < decls.len() && 0 <= b < decls.len() && a != b && (#[trigger] assigned[a]) is Some
            && assigned[a] == (#[trigger] assigned[b]) ==> !conflicts(decls[a], decls[b])
    &&& forall|s: int, j: int|
        0 <= s < decls.len() && 0 <= j < waves.len() && (assigned[s] is None
            || assigned[s].unwrap() > j) ==> #[trigger] held_now(decls, assigned, s, j)
}

/// With nothing ready to run, the dependencies have a cycle.
proof fn lemma_stuck(decls: Seq<DeclView>, assigned: Seq<Option<usize>>, rank: Seq<nat>, s: int)
    requires
        rank.len() == decls.len(),
        assigned.len() == decls.len(),
        forall|x: int|
            0 <= x < decls.len() && assigned[x] is None ==> #[trigger] waits(decls, assigned, x),
        0 <= s < decls.len(),
        assigned[s] is None,
    ensures
        !is_ranking(decls, rank),
    decreases rank[s],
{
    if is_ranking(decls, rank) {
        assert(waits(decls, assigned, s));
        let p = choose|p: int| #[trigger] depends(decls, s, p) && assigned[p] is None;
        lemma_stuck(decls, assigned, rank, p);
    }
}

/// Where `start` has no wave, the system reached from it in `k` steps, each
/// from a system to a predecessor of its that has no wave either.
spec fn walk(decls: Seq<DeclView>, assigned: Seq<Option<usize>>, start: int, k: nat) -> int
    decreases k,
{
    if k == 0 {
        start
    } else {
        let from = walk(decls, assigned, start, (k - 1) as nat);
        choose|p: int| #[trigger] depends(decls, from, p) && assigned[p] is None
    }
}

/// With nothing ready to run, every step of the walk is to a predecessor
/// without a wave.
proof fn lemma_walk(decls: Seq<DeclView>, assigned: Seq<Option<usize>>, start: int, k: nat)
    requires
        assigned.len() == decls.len(),
        forall|x: int|
            0 <= x < decls.len() && assigned[x] is None ==> #[trigger] waits(decls, assigned, x),
        0 <= start < decls.len(),
        assigned[start] is None,
    ensures
        0 <= walk(decls, assigned, start, k) < decls.len(),
        assigned[walk(decls, assigned, start, k)] is None,
        k > 0 ==> depends(
            decls,
            walk(decls, assigned, start, (k - 1) as nat),
            walk(decls, assigned, start, k),
        ),
    decreases k,
{
    if k > 0 {
        lemma_walk(decls, assigned, start, (k - 1) as nat);
        let from = walk(decls, assigned, start, (k - 1) as nat);
        assert(waits(decls, assigned, from));
    }
}

/// Of more than `n` numbers below `n`, two are the same.
proof fn lemma_pigeonhole(s: Seq<int>, n: nat) -> (at: (int, int))
    requires
        s.len() > n,
        forall|i: int| 0 <= i < s.len() ==> 0 <= #[trigger] s[i] < n,
    ensures
        0 <= at.0 < at.1 < s.len(),
        s[at.0] == s[at.1],
    decreases n,
{
    if n == 0 {
        // no number is below zero, so there is none to begin with
        let first = s[0];
        assert(0 <= first < n);
        (0, 0)
    } else {
        let top = n - 1;
        if exists|i: int, j: int| 0 <= i < j < s.len() && s[i] == top && s[j] == top {
            let (i, j) = choose|i: int, j: int| 0 <= i < j < s.len() && s[i] == top && s[j] == top;
            (i, j)
        } else {
            // the largest number occurs once at most: without it the
            // others are below `n - 1`
            let k = if exists|i: int| 0 <= i < s.len() && s[i] == top {
                choose|i: int| 0 <= i < s.len() && s[i] == top
            } else {
                0
            };
            let rest = s.remove(k);
            let (i, j) = lemma_pigeonhole(rest, top as nat);
            let oi = if i < k {
                i
            } else {
                i + 1
            };
            let oj = if j < k {
                j
            } else {
                j + 1
            };
            (oi, oj)
        }
    }
}

/// With nothing ready to run, the dependencies have a cycle.
proof fn lemma_stuck_has_cycle(decls: Seq<DeclView>, assigned: Seq<Option<usize>>, start: int)
    requires
        assigned.len() == decls.len(),
        forall|x: int|
            0 <= x < decls.len() && assigned[x] is None ==> #[trigger] waits(decls, assigned, x),
        0 <= start < decls.len(),
        assigned[start] is None,
    ensures
        has_cycle(decls),
{
    let n = decls.len();
    let steps = Seq::new(n + 1, |k: int| walk(decls, assigned, start, k as nat));
    assert forall|k: int| 0 <= k < steps.len() implies 0 <= #[trigger] steps[k] < n by {
        lemma_walk(decls, assigned, start, k as nat);
    }
    let (i, j) = lemma_pigeonhole(steps, n);
    let path = steps.subrange(i, j + 1);
    assert forall|k: int| 0 <= k < path.len() - 1 implies #[trigger] depends(
        decls,
        path[k],
        path[k + 1],
    ) by {
        lemma_walk(decls, assigned, start, (i + k + 1) as nat);
    }
    assert(is_cycle(decls, path));
}

/// Whether every one of `preds` has a wave.
fn all_assigned(preds: &Vec<usize>, assigned: &Vec<Option<usize>>) -> (r: bool)
    requires
        forall|k: int| 0 <= k < preds@.len() ==> (#[trigger] preds@[k]) < assigned@.len(),
    ensures
        r == forall|k: int| 0 <= k < preds@.len() ==> assigned@[(#[trigger] preds@[k]) as int] is Some,
{
    let mut k: usize = 0;
    while k < preds.len()
        invariant
            k <= preds@.len(),
            forall|i: int| 0 <= i < preds@.len() ==> (#[trigger] preds@[i]) < assigned@.len(),
            forall|i: int| 0 <= i < k ==> assigned@[(#[trigger] preds@[i]) as int] is Some,
        decreases preds@.len() - k,
    {
        if assigned[preds[k]].is_none() {
            return false;
        }
        k += 1;
    }
    true
}

/// Whether `row` marks one of `wave`.
fn any_marked(row: &Vec<bool>, wave: &Vec<usize>) -> (r: bool)
    requires
        forall|i: int| 0 <= i < wave@.len() ==> (#[trigger] wave@[i]) < row@.len(),
    ensures
        r == exists|i: int| 0 <= i < wave@.len() && row@[(#[trigger] wave@[i]) as int],
{
    let mut i: usize = 0;
    while i < wave.len()
        invariant
            i <= wave@.len(),
            forall|k: int| 0 <= k < wave@.len() ==> (#[trigger] wave@[k]) < row@.len(),
            forall|k: int| 0 <= k < i ==> !row@[(#[trigger] wave@[k]) as int],
        decreases wave@.len() - i,
    {
        if row[wave[i]] {
            return true;
        }
        i += 1;
    }
    false
}

/// Picks the systems of the next wave: of those without a wave, in the
/// order of registration, each whose predecessors all have a wave and
/// that conflicts with none picked before it.
fn pick_wave(
    preds: &Vec<Vec<usize>>,
    clash: &Vec<Vec<bool>>,
    assigned: &Vec<Option<usize>>,
    Ghost(decls): Ghost<Seq<DeclView>>,
) -> (wave: Vec<usize>)
    requires
        lists_preds(preds@, decls),
        lists_clashes(clash@, decls),
        assigned@.len() == decls.len(),
    ensures
        forall|i: int|
            0 <= i < wave@.len() ==> (#[trigger] wave@[i]) < decls.len()
                && assigned@[wave@[i] as int] is None,
        forall|i: int, j: int| 0 <= i < j < wave@.len() ==> wave@[i] < wave@[j],
        forall|i: int, p: int|
            0 <= i < wave@.len() && #[trigger] depends(decls, wave@[i] as int, p)
                ==> assigned@[p] is Some,
        forall|i: int, j: int|
            0 <= i < j < wave@.len() ==> !conflicts(
                decls[(#[trigger] wave@[i]) as int],
                decls[(#[trigger] wave@[j]) as int],
            ),
        forall|x: int|
            0 <= x < decls.len() && assigned@[x] is None && !wave@.contains(x as usize) ==> waits(
                decls,
                assigned@,
                x,
            ) || #[trigger] crowded(decls, wave@, x),
{
    let n = assigned.len();
    let mut wave: Vec<usize> = Vec::new();
    let mut s: usize = 0;
    while s < n
        invariant
            s <= n,
            n == decls.len(),
            lists_preds(preds@, decls),
            lists_clashes(clash@, decls),
            assigned@.len() == decls.len(),
            forall|i: int|
                0 <= i < wave@.len() ==> (#[trigger] wave@[i]) < s && assigned@[wave@[i] as int] is None,
            forall|i: int, j: int| 0 <= i < j < wave@.len() ==> wave@[i] < wave@[j],
            forall|i: int, p: int|
                0 <= i < wave@.len() && #[trigger] depends(decls, wave@[i] as int, p)
                    ==> assigned@[p] is Some,
            forall|i: int, j: int|
                0 <= i < j < wave@.len() ==> !conflicts(
                    decls[(#[trigger] wave@[i]) as int],
                    decls[(#[trigger] wave@[j]) as int],
                ),
            forall|x: int|
                0 <= x < s && assigned@[x] is None && !wave@.contains(x as usize) ==> waits(
                    decls,
                    assigned@,
                    x,
                ) || #[trigger] crowded(decls, wave@, x),
        decreases n - s,
    {
        let ghost before = wave@;
        let mut joins = false;
        if assigned[s].is_none() {
            let ready = all_assigned(&preds[s], assigned);
            if ready {
                let blocked = any_marked(&clash[s], &wave);
                if !blocked {
                    wave.push(s);
                    joins = true;
                }
            }
        }
        proof {
            assert forall|x: int|
                0 <= x < s + 1 && assigned@[x] is None && !wave@.contains(x as usize) implies waits(
                decls,
                assigned@,
                x,
            ) || #[trigger] crowded(decls, wave@, x) by {
                if x < s {
                    if joins {
                        assert(!before.contains(x as usize)) by {
                            if before.contains(x as usize) {
                                let i = choose|i: int| 0 <= i < before.len() && before[i] == x as usize;
                                assert(wave@[i] == x as usize);
                            }
                        }
                    }
                    if crowded(decls, before, x) {
                        let i = choose|i: int|
                            0 <= i < before.len() && (#[trigger] before[i]) < x && conflicts(
                                decls[x],
                                decls[before[i] as int],
                            );
                        assert(wave@[i] == before[i]);
                    }
                } else {
                    assert(!joins) by {
                        if joins {
                            assert(wave@[before.len() as int] == s);
                        }
                    }
                }
            }
        }
        s += 1;
    }
    wave
}

/// Gives the wave number `j` to each system of `wave`.
fn settle_wave(
    assigned: &mut Vec<Option<usize>>,
    remaining: &mut usize,
    wave: &Vec<usize>,
    j: usize,
)
    requires
        *old(remaining) == count_none(old(assigned)@),
        forall|i: int|
            0 <= i < wave@.len() ==> (#[trigger] wave@[i]) < old(assigned)@.len() && old(
                assigned,
            )@[wave@[i] as int] is None,
        forall|i: int, k: int| 0 <= i < k < wave@.len() ==> wave@[i] < wave@[k],
    ensures
        final(assigned)@.len() == old(assigned)@.len(),
        *final(remaining) == count_none(final(assigned)@),
        *final(remaining) + wave@.len() == *old(remaining),
        forall|x: usize|
            x < old(assigned)@.len() ==> #[trigger] final(assigned)@[x as int] == (if wave@.contains(
                x,
            ) {
                Some(j)
            } else {
                old(assigned)@[x as int]
            }),
{
    let mut i: usize = 0;
    while i < wave.len()
        invariant
            i <= wave@.len(),
            assigned@.len() == old(assigned)@.len(),
            *remaining == count_none(assigned@),
            *remaining + i == *old(remaining),
            forall|k: int|
                0 <= k < wave@.len() ==> (#[trigger] wave@[k]) < old(assigned)@.len() && old(
                    assigned,
                )@[wave@[k] as int] is None,
            forall|k: int, l: int| 0 <= k < l < wave@.len() ==> wave@[k] < wave@[l],
            forall|x: usize|
                x < assigned@.len() ==> #[trigger] assigned@[x as int] == (if wave@.take(
                    i as int,
                ).contains(x) {
                    Some(j)
                } else {
                    old(assigned)@[x as int]
                }),
        decreases wave@.len() - i,
    {
        let w = wave[i];
        proof {
            assert(!wave@.take(i as int).contains(w));
            lemma_count_fill(assigned@, w as int, j);
            lemma_count_bound(assigned@.update(w as int, Some(j)));
        }
        let ghost mid = assigned@;
        assigned.set(w, Some(j));
        *remaining = *remaining - 1;
        proof {
            assert(wave@.take(i + 1) =~= wave@.take(i as int).push(w));
            assert forall|x: usize| x < assigned@.len() implies #[trigger] assigned@[x as int] == (
            if wave@.take(i + 1).contains(x) {
                Some(j)
            } else {
                old(assigned)@[x as int]
            }) by {
                crate::collision::lemma_push_contains(wave@.take(i as int), w, x);
                assert(mid[x as int] == (if wave@.take(i as int).contains(x) {
                    Some(j)
                } else {
                    old(assigned)@[x as int]
                }));
            }
        }
        i += 1;
    }
    proof {
        assert(wave@.take(i as int) =~= wave@);
    }
}

proof fn lemma_count_some(assigned: Seq<Option<usize>>)
    requires
        forall|i: int| 0 <= i < assigned.len() ==> assigned[i] is Some,
    ensures
        count_none(assigned) == 0,
    decreases assigned.len(),
{
    if assigned.len() > 0 {
        lemma_count_some(assigned.drop_last());
    }
}

/// What a round of picking and settling keeps.
proof fn lemma_round(
    decls: Seq<DeclView>,
    waves: Seq<Vec<usize>>,
    before: Seq<Option<usize>>,
    wave: Vec<usize>,
    after: Seq<Option<usize>>,
)
    requires
        partial(decls, waves, before),
        decls.len() <= usize::MAX,
        waves.len() <= usize::MAX,
        after.len() == before.len(),
        wave@.len() > 0,
        forall|x: usize|
            x < before.len() ==> #[trigger] after[x as int] == (if wave@.contains(x) {
                Some(waves.len() as usize)
            } else {
                before[x as int]
            }),
        forall|i: int|
            0 <= i < wave@.len() ==> (#[trigger] wave@[i]) < decls.len()
                && before[wave@[i] as int] is None,
        forall|i: int, j: int| 0 <= i < j < wave@.len() ==> wave@[i] < wave@[j],
        forall|i: int, p: int|
            0 <= i < wave@.len() && #[trigger] depends(decls, wave@[i] as int, p)
                ==> before[p] is Some,
        forall|i: int, j: int|
            0 <= i < j < wave@.len() ==> !conflicts(
                decls[(#[trigger] wave@[i]) as int],
                decls[(#[trigger] wave@[j]) as int],
            ),
        forall|x: int|
            0 <= x < decls.len() && before[x] is None && !wave@.contains(x as usize) ==> waits(
                decls,
                before,
                x,
            ) || #[trigger] crowded(decls, wave@, x),
    ensures
        partial(decls, waves.push(wave), after),
{
    let j = waves.len() as usize;
    let next = waves.push(wave);
    let n = decls.len();
    assert forall|s: int| 0 <= s < n implies #[trigger] after[s] == (if wave@.contains(s as usize) {
        Some(j)
    } else {
        before[s]
    }) by {
        assert(after[(s as usize) as int] == (if wave@.contains(s as usize) {
            Some(j)
        } else {
            before[(s as usize) as int]
        }));
    }
    assert forall|s: int, jj: int|
        0 <= s < n && 0 <= jj < next.len() && (after[s] is None || after[s].unwrap()
            > jj) implies #[trigger] held_now(decls, after, s, jj) by {
        if jj < waves.len() {
            assert(held_now(decls, before, s, jj));
            if !(exists|p: int|
                #[trigger] depends(decls, s, p) && (before[p] is None || before[p].unwrap() >= jj)) {
                let c = choose|c: int|
                    0 <= c < s && (#[trigger] before[c]) == Some(jj as usize) && conflicts(
                        decls[s],
                        decls[c],
                    );
                assert(after[c] == Some(jj as usize));
            }
        } else {
            if !waits(decls, before, s) {
                assert(crowded(decls, wave@, s));
                let i = choose|i: int|
                    0 <= i < wave@.len() && (#[trigger] wave@[i]) < s && conflicts(
                        decls[s],
                        decls[wave@[i] as int],
                    );
                let c = wave@[i] as int;
                assert(after[c] == Some(jj as usize));
            }
        }
    }
}

/// Computes the waves from the predecessors and conflicts of each system.
fn plan(preds: &Vec<Vec<usize>>, clash: &Vec<Vec<bool>>, Ghost(decls): Ghost<Seq<DeclView>>) -> (r:
    Option<Schedule>)
    requires
        lists_preds(preds@, decls),
        lists_clashes(clash@, decls),
    ensures
        match r {
            Some(schedule) => schedule.schedules(decls),
            None => !acyclic(decls) && has_cycle(decls),
        },
{
    let n = preds.len();
    let mut assigned: Vec<Option<usize>> = Vec::new();
    let mut i: usize = 0;
    while i < n
        invariant
            i <= n,
            assigned@.len() == i,
            count_none(assigned@) == i,
            forall|k: int| 0 <= k < i ==> assigned@[k] is None,
        decreases n - i,
    {
        let ghost shorter = assigned@;
        assigned.push(None);
        assert(assigned@.drop_last() =~= shorter);
        i += 1;
    }
    let mut waves: Vec<Vec<usize>> = Vec::new();
    let mut remaining: usize = n;
    while remaining > 0
        invariant
            n == decls.len(),
            lists_preds(preds@, decls),
            lists_clashes(clash@, decls),
            partial(decls, waves@, assigned@),
            remaining == count_none(assigned@),
        decreases remaining,
    {
        let wave = pick_wave(preds, clash, &assigned, Ghost(decls));
        if wave.len() == 0 {
            proof {
                assert forall|x: int|
                    0 <= x < decls.len() && assigned@[x] is None implies #[trigger] waits(
                    decls,
                    assigned@,
                    x,
                ) by {
                    assert(!crowded(decls, wave@, x));
                }
                if forall|k: int| 0 <= k < assigned@.len() ==> assigned@[k] is Some {
                    lemma_count_some(assigned@);
                }
                let s = choose|s: int| 0 <= s < assigned@.len() && !(assigned@[s] is Some);
                assert forall|rank: Seq<nat>| !#[trigger] is_ranking(decls, rank) by {
                    if rank.len() == decls.len() {
                        lemma_stuck(decls, assigned@, rank, s);
                    }
                }
                lemma_stuck_has_cycle(decls, assigned@, s);
            }
            return None;
        }
        let ghost before = assigned@;
        let j = waves.len();
        settle_wave(&mut assigned, &mut remaining, &wave, j);
        proof {
            lemma_round(decls, waves@, before, wave, assigned@);
        }
        waves.push(wave);
    }
    let mut wave_of: Vec<usize> = Vec::new();
    let mut s: usize = 0;
    while s < n
        invariant
            s <= n,
            n == assigned@.len(),
            count_none(assigned@) == 0,
            wave_of@.len() == s,
            forall|k: int| 0 <= k < s ==> assigned@[k] == Some(#[trigger] wave_of@[k]),
        decreases n - s,
    {
        proof {
            lemma_count_zero(assigned@, s as int);
        }
        match assigned[s] {
            Some(k) => {
                wave_of.push(k);
            },
            None => {},
        }
        s += 1;
    }
    let total = waves.len();
    let schedule = Schedule { waves, wave_of };
    proof {
        // the number of waves fits a machine word
        assert(schedule.waves@.len() == total);
        let of = schedule.wave_of();
        assert forall|x: int, j: int|
            0 <= x < decls.len() && 0 <= j < of[x] implies #[trigger] held_back(decls, of, x, j) by {
            assert(held_now(decls, assigned@, x, j));
            if !(exists|p: int|
                #[trigger] depends(decls, x, p) && (assigned@[p] is None || assigned@[p].unwrap()
                    >= j)) {
                let c = choose|c: int|
                    0 <= c < x && (#[trigger] assigned@[c]) == Some(j as usize) && conflicts(
                        decls[x],
                        decls[c],
                    );
                assert(assigned@[c] == Some(of[c]));
            }
        }
    }
    Some(schedule)
}

/// Whether `list` holds `r`.
fn touches(list: &Vec<Resource>, r: Resource) -> (found: bool)
    ensures
        found == list@.contains(r),
{
    let mut i: usize = 0;
    while i < list.len()
        invariant
            i <= list@.len(),
            forall|k: int| 0 <= k < i ==> list@[k] != r,
        decreases list@.len() - i,
    {
        if list[i] == r {
            return true;
        }
        i += 1;
    }
    false
}

/// Whether `a` writes something that `b` reads or writes.
fn writes_to(a: &SystemDecl, b: &SystemDecl) -> (r: bool)
    ensures
        r == writes_into(a@, b@),
{
    let mut i: usize = 0;
    while i < a.writes.len()
        invariant
            i <= a.writes@.len(),
            forall|k: int|
                0 <= k < i ==> !(b@.reads.contains(#[trigger] a.writes@[k]) || b@.writes.contains(
                    a.writes@[k],
                )),
        decreases a.writes@.len() - i,
    {
        let r = a.writes[i];
        if touches(&b.reads, r) || touches(&b.writes, r) {
            assert(a@.writes.contains(r));
            return true;
        }
        i += 1;
    }
    false
}

/// Whether the two systems conflict.
pub fn conflict(a: &SystemDecl, b: &SystemDecl) -> (r: bool)
    ensures
        r == conflicts(a@, b@),
{
    writes_to(a, b) || writes_to(b, a)
}

/// The table of conflicts of `systems`.
fn clash_table(systems: &Vec<SystemDecl>) -> (clash: Vec<Vec<bool>>)
    ensures
        lists_clashes(clash@, decls_of(systems@)),
{
    let ghost decls = decls_of(systems@);
    let n = systems.len();
    let mut clash: Vec<Vec<bool>> = Vec::new();
    let mut a: usize = 0;
    while a < n
        invariant
            a <= n,
            n == systems@.len(),
            decls == decls_of(systems@),
            clash@.len() == a,
            forall|x: int| 0 <= x < a ==> (#[trigger] clash@[x])@.len() == n,
            forall|x: int, y: int|
                0 <= x < a && 0 <= y < n ==> (#[trigger] clash@[x]@[y]) == conflicts(
                    decls[x],
                    decls[y],
                ),
        decreases n - a,
    {
        let mut row: Vec<bool> = Vec::new();
        let mut b: usize = 0;
        while b < n
            invariant
                b <= n,
                a < n,
                n == systems@.len(),
                decls == decls_of(systems@),
                row@.len() == b,
                forall|y: int|
                    0 <= y < b ==> (#[trigger] row@[y]) == conflicts(decls[a as int], decls[y]),
            decreases n - b,
        {
            row.push(conflict(&systems[a], &systems[b]));
            b += 1;
        }
        clash.push(row);
        a += 1;
    }
    clash
}

/// The place of the system called `name`.
fn find(systems: &Vec<SystemDecl>, name: &String) -> (r: Option<usize>)
    ensures
        match r {
            Some(p) => p < systems@.len() && systems@[p as int].name@ == name@,
            None => !is_name(decls_of(systems@), name@),
        },
{
    let mut p: usize = 0;
    while p < systems.len()
        invariant
            p <= systems@.len(),
            forall|q: int| 0 <= q < p ==> systems@[q].name@ != name@,
        decreases systems@.len() - p,
    {
        if systems[p].name == *name {
            return Some(p);
        }
        p += 1;
    }
    None
}

/// The place of a system that has the name of an earlier one.
fn first_duplicate(systems: &Vec<SystemDecl>) -> (r: Option<usize>)
    ensures
        match r {
            Some(j) => j < systems@.len() && names_distinct(decls_of(systems@).take(j as int))
                && exists|i: int|
                0 <= i < j && (#[trigger] systems@[i]).name@ == systems@[j as int].name@,
            None => names_distinct(decls_of(systems@)),
        },
{
    let mut j: usize = 0;
    while j < systems.len()
        invariant
            j <= systems@.len(),
            forall|a: int, b: int| 0 <= a < b < j ==> systems@[a].name@ != systems@[b].name@,
        decreases systems@.len() - j,
    {
        let mut i: usize = 0;
        while i < j
            invariant
                i <= j,
                j < systems@.len(),
                forall|a: int, b: int| 0 <= a < b < j ==> systems@[a].name@ != systems@[b].name@,
                forall|a: int| 0 <= a < i ==> systems@[a].name@ != systems@[j as int].name@,
            decreases j - i,
        {
            if systems[i].name == systems[j].name {
                return Some(j);
            }
            i += 1;
        }
        j += 1;
    }
    None
}

/// The places of the predecessors of each system.
fn resolve(systems: &Vec<SystemDecl>) -> (r: Result<Vec<Vec<usize>>, BuildError>)
    requires
        names_distinct(decls_of(systems@)),
    ensures
        match r {
            Ok(preds) => deps_known(decls_of(systems@)) && lists_preds(preds@, decls_of(systems@)),
            Err(BuildError::UnknownDependency { system, dependency }) => system < systems@.len()
                && dependency < systems@[system as int].dependencies@.len() && !is_name(
                decls_of(systems@),
                systems@[system as int].dependencies@[dependency as int]@,
            ) && first_unknown(decls_of(systems@), system as int, dependency as int),
            Err(_) => false,
        },
{
    let ghost decls = decls_of(systems@);
    let n = systems.len();
    let mut preds: Vec<Vec<usize>> = Vec::new();
    let mut s: usize = 0;
    while s < n
        invariant
            s <= n,
            n == systems@.len(),
            decls == decls_of(systems@),
            names_distinct(decls),
            preds@.len() == s,
            forall|x: int, d: int|
                0 <= x < s && 0 <= d < decls[x].dependencies.len() ==> is_name(
                    decls,
                    #[trigger] decls[x].dependencies[d],
                ),
            forall|x: int, k: int|
                0 <= x < s && 0 <= k < preds@[x]@.len() ==> (#[trigger] preds@[x]@[k]) < n
                    && depends(decls, x, preds@[x]@[k] as int),
            forall|x: int, p: int|
                0 <= x < s && #[trigger] depends(decls, x, p) ==> preds@[x]@.contains(p as usize),
        decreases n - s,
    {
        let deps = &systems[s].dependencies;
        let mut row: Vec<usize> = Vec::new();
        let mut d: usize = 0;
        while d < deps.len()
            invariant
                d <= deps@.len(),
                s < n,
                n == systems@.len(),
                decls == decls_of(systems@),
                deps == &systems@[s as int].dependencies,
                forall|x: int, k: int|
                    0 <= x < s && 0 <= k < decls[x].dependencies.len() ==> is_name(
                        decls,
                        #[trigger] decls[x].dependencies[k],
                    ),
                row@.len() == d,
                forall|k: int|
                    0 <= k < d ==> (#[trigger] row@[k]) < n && decls[row@[k] as int].name
                        == deps@[k]@,
            decreases deps@.len() - d,
        {
            match find(systems, &deps[d]) {
                Some(p) => {
                    row.push(p);
                },
                None => {
                    proof {
                        let me = s as int;
                        assert forall|k: int| 0 <= k < d implies is_name(
                            decls,
                            #[trigger] decls[me].dependencies[k],
                        ) by {
                            assert(decls[row@[k] as int].name == decls[me].dependencies[k]);
                        }
                    }
                    return Err(BuildError::UnknownDependency { system: s, dependency: d });
                },
            }
            d += 1;
        }
        proof {
            let me = s as int;
            assert forall|k: int| 0 <= k < decls[me].dependencies.len() implies is_name(
                decls,
                #[trigger] decls[me].dependencies[k],
            ) by {
                assert(decls[row@[k] as int].name == decls[me].dependencies[k]);
            }
            assert forall|k: int| 0 <= k < row@.len() implies (#[trigger] row@[k]) < n && depends(
                decls,
                me,
                row@[k] as int,
            ) by {
                assert(decls[me].dependencies[k] == decls[row@[k] as int].name);
            }
            assert forall|p: int| #[trigger] depends(decls, me, p) implies row@.contains(
                p as usize,
            ) by {
                let k = choose|k: int|
                    0 <= k < decls[me].dependencies.len() && decls[me].dependencies[k]
                        == decls[p].name;
                let q = row@[k] as int;
                assert(decls[q].name == decls[p].name);
                if q < p {
                    assert(decls[q].name != decls[p].name);
                }
                if p < q {
                    assert(decls[p].name != decls[q].name);
                }
                assert(row@[k] == p as usize);
            }
        }
        preds.push(row);
        s += 1;
    }
    Ok(preds)
}

/// Collects the declarations of the systems and builds their schedule.
pub struct Builder {
    systems: Vec<SystemDecl>,
}

impl Builder {
    /// The declarations registered so far, in order.
    pub closed spec fn decls(&self) -> Seq<DeclView> {
        decls_of(self.systems@)
    }

    pub fn new() -> (r: Self)
        ensures
            r.decls() == Seq::<DeclView>::empty(),
    {
        let r = Builder { systems: Vec::new() };
        r
    }

    /// Registers a system.
    pub fn with(self, decl: SystemDecl) -> (r: Self)
        ensures
            r.decls() == self.decls().push(decl@),
    {
        let mut systems = self.systems;
        systems.push(decl);
        let r = Builder { systems };
        r
    }

    /// How many systems are registered.
    pub fn len(&self) -> (n: usize)
        ensures
            n == self.decls().len(),
    {
        self.systems.len()
    }

    /// Builds the schedule of the registered systems.
    ///
    /// It fails where two systems share a name, where a dependency names
    /// no system, and where some path of dependencies leads from a system
    /// back to itself; otherwise it gives the one schedule that the
    /// declarations have.
    pub fn build(self) -> (r: Result<Schedule, BuildError>)
        ensures
            match r {
                Ok(schedule) => {
                    &&& names_distinct(self.decls())
                    &&& deps_known(self.decls())
                    &&& acyclic(self.decls())
                    &&& schedule.schedules(self.decls())
                },
                Err(BuildError::DuplicateName(j)) => {
                    &&& j < self.decls().len()
                    &&& names_distinct(self.decls().take(j as int))
                    &&& exists|i: int|
                        0 <= i < j && (#[trigger] self.decls()[i]).name == self.decls()[j as int].name
                },
                Err(BuildError::UnknownDependency { system, dependency }) => {
                    &&& names_distinct(self.decls())
                    &&& system < self.decls().len()
                    &&& dependency < self.decls()[system as int].dependencies.len()
                    &&& !is_name(
                        self.decls(),
                        self.decls()[system as int].dependencies[dependency as int],
                    )
                    &&& first_unknown(self.decls(), system as int, dependency as int)
                },
                Err(BuildError::Cycle) => {
                    &&& names_distinct(self.decls())
                    &&& deps_known(self.decls())
                    &&& !acyclic(self.decls())
                    &&& has_cycle(self.decls())
                },
            },
    {
        let ghost decls = self.decls();
        match first_duplicate(&self.systems) {
            Some(j) => {
                proof {
                    let i = choose|i: int|
                        0 <= i < j && (#[trigger] self.systems@[i]).name@
                            == self.systems@[j as int].name@;
                    assert(decls[i].name == decls[j as int].name);
                }
                return Err(BuildError::DuplicateName(j));
            },
            None => {},
        }
        let preds = match resolve(&self.systems) {
            Ok(preds) => preds,
            Err(e) => {
                return Err(e);
            },
        };
        let clash = clash_table(&self.systems);
        match plan(&preds, &clash, Ghost(decls)) {
            Some(schedule) => {
                proof {
                    law_runs_after_predecessors(decls, schedule.waves(), schedule.wave_of());
                }
                Ok(schedule)
            },
            None => Err(BuildError::Cycle),
        }
    }
}

/// The smaller of two wave numbers.
pub open spec fn earlier(a: usize, b: usize) -> nat {
    if a <= b {
        a as nat
    } else {
        b as nat
    }
}

/// Determinism. Declarations have one schedule only: two schedules of the
/// same declarations run every system in the same wave.
pub proof fn law_schedule_is_unique(
    decls: Seq<DeclView>,
    waves: Seq<Seq<usize>>,
    wave_of: Seq<usize>,
    other_waves: Seq<Seq<usize>>,
    other_of: Seq<usize>,
    s: int,
)
    requires
        is_schedule(decls, waves, wave_of),
        is_schedule(decls, other_waves, other_of),
        0 <= s < decls.len(),
    ensures
        wave_of[s] == other_of[s],
    decreases earlier(wave_of[s], other_of[s]), s, 1nat,
{
    if wave_of[s] < other_of[s] {
        lemma_not_held(decls, waves, wave_of, other_waves, other_of, s);
    } else if other_of[s] < wave_of[s] {
        lemma_not_held(decls, other_waves, other_of, waves, wave_of, s);
    }
}

/// No schedule runs a system later than another schedule does.
proof fn lemma_not_held(
    decls: Seq<DeclView>,
    waves: Seq<Seq<usize>>,
    wave_of: Seq<usize>,
    other_waves: Seq<Seq<usize>>,
    other_of: Seq<usize>,
    s: int,
)
    requires
        is_schedule(decls, waves, wave_of),
        is_schedule(decls, other_waves, other_of),
        0 <= s < decls.len(),
        wave_of[s] < other_of[s],
    ensures
        wave_of[s] == other_of[s],
    decreases earlier(wave_of[s], other_of[s]), s, 0nat,
{
    let j = wave_of[s] as int;
    assert(held_back(decls, other_of, s, j));
    if exists|p: int| #[trigger] depends(decls, s, p) && other_of[p] >= j {
        let p = choose|p: int| #[trigger] depends(decls, s, p) && other_of[p] >= j;
        law_schedule_is_unique(decls, waves, wave_of, other_waves, other_of, p);
    } else {
        let c = choose|c: int|
            0 <= c < s && (#[trigger] other_of[c]) == j && conflicts(decls[s], decls[c]);
        law_schedule_is_unique(decls, waves, wave_of, other_waves, other_of, c);
    }
}

/// Where a tick stands: how many of its waves were handed out.
pub struct Tick {
    next: usize,
}

impl Tick {
    /// The number of waves handed out.
    pub closed spec fn done(&self) -> nat {
        self.next as nat
    }
}

impl Schedule {
    /// Starts a tick.
    pub fn begin(&self) -> (tick: Tick)
        ensures
            tick.done() == 0,
    {
        Tick { next: 0 }
    }

    /// Hands out the next wave of the tick, or `None` once all were handed
    /// out. The systems of a wave are run, in any order or at once, before
    /// the next wave is asked for; every predecessor of theirs is in a wave
    /// handed out before.
    pub fn next_wave<'a>(&'a self, tick: &mut Tick) -> (wave: Option<&'a Vec<usize>>)
        ensures
            match wave {
                Some(w) => {
                    &&& old(tick).done() < self.waves().len()
                    &&& w@ == self.waves()[old(tick).done() as int]
                    &&& final(tick).done() == old(tick).done() + 1
                },
                None => old(tick).done() >= self.waves().len() && final(tick).done() == old(
                    tick,
                ).done(),
            },
    {
        if tick.next < self.waves.len() {
            let w = &self.waves[tick.next];
            tick.next = tick.next + 1;
            Some(w)
        } else {
            None
        }
    }
}

} // verus!
