//! Capturing a flag. A player who brings the other team's flag to the base
//! of its own team captures it: the flag goes home and the team scores.

use crate::ctf::component::{one_flag_each, 
    FlagCarrier, FlagEvent, FlagEventType, GameScores, IsFlag, OnFlag, BLUE_TEAM, RED_TEAM,
};
use crate::ctf::config::CtfConfig;
use crate::dispatch::{DeclView, Resource, SystemDecl};
use crate::entity::Entity;
use crate::storage::{among, ascending, distinct_slots, Table};
use crate::types::{Position, Team};
use vstd::prelude::*;

verus! {

pub struct CaptureFlagSystem;

pub struct CaptureFlagSystemData<'a> {
    pub config: &'a CtfConfig,
    pub channel: &'a mut OnFlag,
    pub scores: &'a mut GameScores,
    pub team: &'a Table<Team>,
    pub is_flag: &'a Table<IsFlag>,
    pub pos: &'a mut Table<Position>,
    pub carrier: &'a mut Table<FlagCarrier>,
}

/// What the rule reads: the tables as they stand when the system starts.
pub struct Court {
    pub config: CtfConfig,
    pub team: Map<Entity, Team>,
    pub is_flag: Map<Entity, IsFlag>,
    pub pos: Map<Entity, Position>,
    pub carrier: Map<Entity, FlagCarrier>,
}

/// `v` and one more, but no more than a score can hold.
pub open spec fn bumped(v: u8) -> u8 {
    if v < 255 {
        (v + 1) as u8
    } else {
        v
    }
}

impl Court {
    /// The flag `f` is carried by `p`, and `p` captures it: `p` is of
    /// another team than the flag, its team keeps a score and is at home
    /// where this flag is delivered, and `p` is within the capture radius of
    /// that place.
    pub open spec fn captured_by(self, f: Entity, p: Entity) -> bool {
        &&& self.carrier.contains_key(f)
        &&& self.carrier[f].0 == Some(p)
        &&& self.is_flag.contains_key(f)
        &&& self.team.contains_key(f)
        &&& self.pos.contains_key(f)
        &&& self.team.contains_key(p)
        &&& self.pos.contains_key(p)
        &&& self.team[p] != self.team[f]
        &&& (self.team[p].0 == RED_TEAM || self.team[p].0 == BLUE_TEAM)
        &&& self.config.home_of(self.team[f]) is Some
        &&& self.config.goal_of(self.team[f]) is Some
        &&& self.config.home_of(self.team[p]) == self.config.goal_of(self.team[f])
        &&& self.pos[p].dist2(self.config.goal_of(self.team[f]).unwrap())
            <= self.config.cap_radius * self.config.cap_radius
    }

    /// The flag `f` is captured this tick.
    pub open spec fn captures(self, f: Entity) -> bool {
        self.carrier.contains_key(f) && self.carrier[f].0 is Some && self.captured_by(
            f,
            self.carrier[f].0.unwrap(),
        )
    }

    /// Where the flag `f` is at home.
    pub open spec fn home(self, f: Entity) -> Position {
        self.config.home_of(self.team[f]).unwrap()
    }

    /// The event that tells of the capture of `f`.
    pub open spec fn event(self, f: Entity) -> FlagEvent {
        FlagEvent { ty: FlagEventType::Capture, player: self.carrier[f].0, flag: f }
    }

    /// The score of the team numbered `team` after the captures of
    /// `flags`, counted one by one from `score`.
    pub open spec fn tally(self, flags: Seq<Entity>, team: u16, score: u8) -> u8
        decreases flags.len(),
    {
        if flags.len() == 0 {
            score
        } else {
            let before = self.tally(flags.drop_last(), team, score);
            if self.team[self.carrier[flags.last()].0.unwrap()].0 == team {
                bumped(before)
            } else {
                before
            }
        }
    }
}

/// A capture is only of a flag in the hands of a player of the other team,
/// whose own team is at home where the flag is delivered.
pub proof fn law_capture(court: Court, f: Entity)
    requires
        court.captures(f),
    ensures
        court.carrier[f].0 is Some,
        court.team[court.carrier[f].0.unwrap()] != court.team[f],
        court.config.home_of(court.team[court.carrier[f].0.unwrap()]) == court.config.goal_of(
            court.team[f],
        ),
{
}

impl<'a> CaptureFlagSystemData<'a> {
    pub open spec fn court(&self) -> Court {
        Court {
            config: *self.config,
            team: self.team@,
            is_flag: self.is_flag@,
            pos: self.pos@,
            carrier: self.carrier@,
        }
    }

    /// Whether `f` is captured.
    fn is_captured(&self, f: Entity) -> (r: bool)
        ensures
            r == self.court().captures(f),
    {
        let p = match self.carrier.get(f) {
            Some(c) => match c.0 {
                Some(p) => p,
                None => { return false; },
            },
            None => { return false; },
        };
        if !self.is_flag.contains(f) || !self.pos.contains(f) {
            return false;
        }
        let f_team = match self.team.get(f) {
            Some(t) => *t,
            None => { return false; },
        };
        let p_team = match self.team.get(p) {
            Some(t) => *t,
            None => { return false; },
        };
        let p_pos = match self.pos.get(p) {
            Some(v) => *v,
            None => { return false; },
        };
        if p_team == f_team || !(p_team.0 == RED_TEAM || p_team.0 == BLUE_TEAM) {
            return false;
        }
        if self.config.home(f_team).is_none() {
            return false;
        }
        let goal = match self.config.goal(f_team) {
            Some(g) => g,
            None => { return false; },
        };
        match self.config.home(p_team) {
            Some(own) => {
                if own != goal {
                    return false;
                }
            },
            None => { return false; },
        }
        let wide: i64 = self.config.cap_radius as i64;
        assert(wide * wide <= 0x8000_0000 * 0x8000_0000 && wide * wide >= 0) by (nonlinear_arith)
            requires
                -0x8000_0000 <= wide <= 0x8000_0000,
        ;
        p_pos.distance_squared(goal) <= (wide * wide) as u128
    }

    /// The flags that are captured, in ascending order of slot.
    fn capturing(&self) -> (captured: Vec<Entity>)
        ensures
            forall|e: Entity| captured@.contains(e) <==> #[trigger] self.court().captures(e),
            forall|i: int, j: int|
                0 <= i < j < captured@.len() ==> captured@[i].id < captured@[j].id,
    {
        let ghost court = self.court();
        let flags = self.carrier.entities();
        let mut captured: Vec<Entity> = Vec::new();
        let mut i: usize = 0;
        while i < flags.len()
            invariant
                i <= flags@.len(),
                self.court() == court,
                ascending(flags@, court.carrier),
                forall|e: Entity|
                    #![trigger captured@.contains(e)]
                    #![trigger among(flags@, i as int, e)]
                    captured@.contains(e) <==> court.captures(e) && among(flags@, i as int, e),
                forall|k: int, l: int|
                    0 <= k < l < captured@.len() ==> captured@[k].id < captured@[l].id,
                forall|k: int|
                    0 <= k < captured@.len() && i < flags@.len() ==> (#[trigger] captured@[k]).id
                        < flags@[i as int].id,
            decreases flags@.len() - i,
        {
            let f = flags[i];
            let ghost before = captured@;
            let goes = self.is_captured(f);
            if goes {
                captured.push(f);
            }
            i += 1;
            proof {
                assert forall|x: Entity|
                    #![trigger captured@.contains(x)]
                    #![trigger among(flags@, i as int, x)]
                    captured@.contains(x) <==> court.captures(x) && among(flags@, i as int, x) by {
                    if goes {
                        crate::collision::lemma_push_contains(before, f, x);
                    }
                }
            }
        }
        proof {
            assert forall|e: Entity| captured@.contains(e) <==> #[trigger] court.captures(e) by {
                if court.captures(e) {
                    assert(flags@.contains(e));
                }
            }
        }
        captured
    }
}

/// What is written for the flags of `captured`.
struct Columns {
    loose: Vec<FlagCarrier>,
    homes: Vec<Position>,
    events: Vec<FlagEvent>,
    scores: GameScores,
}

impl<'a> CaptureFlagSystemData<'a> {
    fn columns(&self, captured: &Vec<Entity>) -> (cols: Columns)
        requires
            forall|k: int| 0 <= k < captured@.len() ==> self.court().captures(#[trigger] captured@[k]),
        ensures
            cols.loose@ == captured@.map_values(|f: Entity| FlagCarrier(None)),
            cols.homes@ == captured@.map_values(|f: Entity| self.court().home(f)),
            cols.events@ == captured@.map_values(|f: Entity| self.court().event(f)),
            cols.scores.redteam == self.court().tally(captured@, RED_TEAM, self.tallied().redteam),
            cols.scores.blueteam == self.court().tally(
                captured@,
                BLUE_TEAM,
                self.tallied().blueteam,
            ),
    {
        let ghost court = self.court();
        let ghost start = self.tallied();
        let mut cols = Columns {
            loose: Vec::new(),
            homes: Vec::new(),
            events: Vec::new(),
            scores: *self.scores,
        };
        let mut i: usize = 0;
        while i < captured.len()
            invariant
                i <= captured@.len(),
                self.court() == court,
                self.tallied() == start,
                forall|k: int|
                    0 <= k < captured@.len() ==> court.captures(#[trigger] captured@[k]),
                cols.loose@ == captured@.take(i as int).map_values(|f: Entity| FlagCarrier(None)),
                cols.homes@ == captured@.take(i as int).map_values(|f: Entity| court.home(f)),
                cols.events@ == captured@.take(i as int).map_values(|f: Entity| court.event(f)),
                cols.scores.redteam == court.tally(
                    captured@.take(i as int),
                    RED_TEAM,
                    start.redteam,
                ),
                cols.scores.blueteam == court.tally(
                    captured@.take(i as int),
                    BLUE_TEAM,
                    start.blueteam,
                ),
            decreases captured@.len() - i,
        {
            let f = captured[i];
            let p = self.carrier.get(f).unwrap().0.unwrap();
            let f_team = *self.team.get(f).unwrap();
            let p_team = *self.team.get(p).unwrap();
            let home = self.config.home(f_team).unwrap();
            cols.loose.push(FlagCarrier(None));
            cols.homes.push(home);
            cols.events.push(FlagEvent { ty: FlagEventType::Capture, player: Some(p), flag: f });
            if p_team.0 == RED_TEAM {
                if cols.scores.redteam < 255 {
                    cols.scores.redteam = cols.scores.redteam + 1;
                }
            } else if p_team.0 == BLUE_TEAM {
                if cols.scores.blueteam < 255 {
                    cols.scores.blueteam = cols.scores.blueteam + 1;
                }
            }
            i += 1;
            proof {
                let next = captured@.take(i as int);
                assert(next.drop_last() =~= captured@.take(i - 1));
            }
        }
        proof {
            assert(captured@.take(i as int) =~= captured@);
        }
        cols
    }

    /// The scores as they stand.
    pub open spec fn tallied(&self) -> GameScores {
        *self.scores
    }
}

impl CaptureFlagSystem {
    pub fn new() -> (r: Self) {
        CaptureFlagSystem
    }

    pub fn name() -> (r: &'static str)
        ensures
            r@ == "ctf::systems::CaptureFlagSystem"@,
    {
        "ctf::systems::CaptureFlagSystem"
    }

    /// What the system declares: it runs after positions are updated and
    /// flags are dropped.
    pub open spec fn declared() -> DeclView {
        DeclView {
            name: "ctf::systems::CaptureFlagSystem"@,
            dependencies: seq![
                "systems::PositionUpdate"@,
                "ctf::systems::DropFlagSystem"@,
            ],
            reads: seq![
                Resource::CtfConfig,
                Resource::Team,
                Resource::IsFlag,
            ],
            writes: seq![
                Resource::OnFlag,
                Resource::GameScores,
                Resource::Position,
                Resource::FlagCarrier,
            ],
        }
    }

    /// What the system declares to the scheduler.
    pub fn decl() -> (d: SystemDecl)
        ensures
            d@ == Self::declared(),
    {
        let d = SystemDecl::new(Self::name()).after("systems::PositionUpdate").after("ctf::systems::DropFlagSystem").reading(Resource::CtfConfig).reading(Resource::Team).reading(Resource::IsFlag).writing(Resource::OnFlag).writing(Resource::GameScores).writing(Resource::Position).writing(Resource::FlagCarrier);
        proof {
            assert(d@.dependencies =~= Self::declared().dependencies);
            assert(d@.reads =~= Self::declared().reads);
            assert(d@.writes =~= Self::declared().writes);
        }
        d
    }

    /// Captures every flag whose carrier has brought it to the base of its
    /// own team, and returns the flags captured, in ascending order of slot.
    ///
    /// A captured flag has no carrier and stands at its home; the team of
    /// the player who brought it scores one, up to the most a score can
    /// hold; an event tells of each capture.
    pub fn run(&mut self, data: CaptureFlagSystemData<'_>) -> (captured: Vec<Entity>)
        requires
            old(data.channel).wf(),
        ensures
            final(data.channel).wf(),
            forall|e: Entity| captured@.contains(e) <==> #[trigger] data.court().captures(e),
            forall|i: int, j: int|
                0 <= i < j < captured@.len() ==> captured@[i].id < captured@[j].id,
            // the carriers
            one_flag_each(old(data.carrier)@) ==> one_flag_each(final(data.carrier)@),
            forall|e: Entity|
                final(data.carrier)@.contains_key(e) == old(data.carrier)@.contains_key(e),
            forall|e: Entity|
                old(data.carrier)@.contains_key(e) ==> #[trigger] final(data.carrier)@[e] == (
                if data.court().captures(e) {
                    FlagCarrier(None)
                } else {
                    old(data.carrier)@[e]
                }),
            // the positions
            forall|e: Entity| final(data.pos)@.contains_key(e) == old(data.pos)@.contains_key(e),
            forall|e: Entity|
                old(data.pos)@.contains_key(e) ==> #[trigger] final(data.pos)@[e] == (
                if data.court().captures(e) {
                    data.court().home(e)
                } else {
                    old(data.pos)@[e]
                }),
            // the scores
            final(data.scores).redteam == data.court().tally(
                captured@,
                RED_TEAM,
                old(data.scores).redteam,
            ),
            final(data.scores).blueteam == data.court().tally(
                captured@,
                BLUE_TEAM,
                old(data.scores).blueteam,
            ),
            // the events
            final(data.channel)@ == old(data.channel)@.write_all(
                captured@.map_values(|f: Entity| data.court().event(f)),
            ),
    {
        let ghost court = data.court();
        let captured = data.capturing();
        proof {
            assert forall|k: int| 0 <= k < captured@.len() implies court.captures(
                #[trigger] captured@[k],
            ) by {}
        }
        let cols = data.columns(&captured);
        proof {
            assert forall|e: Entity, k: int|
                court.carrier.contains_key(e) && 0 <= k < captured@.len() && e.id
                    == captured@[k].id implies e == captured@[k] by {
                data.carrier.lemma_one_per_slot(e, captured@[k]);
            }
            assert forall|e: Entity, k: int|
                court.pos.contains_key(e) && 0 <= k < captured@.len() && e.id
                    == captured@[k].id implies e == captured@[k] by {
                data.pos.lemma_one_per_slot(e, captured@[k]);
            }
        }
        data.carrier.insert_all(&captured, &cols.loose);
        data.pos.insert_all(&captured, &cols.homes);
        *data.scores = cols.scores;
        data.channel.iter_write(&cols.events);
        captured
    }
}

} // verus!
