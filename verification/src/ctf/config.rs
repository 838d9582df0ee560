//! The tunables of the game mode.

use crate::hashing::{map_get, map_insert, map_new, CodeMap};
use crate::types::{Distance, Duration, Plane, Position, Team, Vector2};
use vstd::prelude::*;
use vstd::string::StringExecFns;

verus! {

pub struct CtfConfig {
    /// How close the centre of a plane of each kind must come to a flag to
    /// take it, by the plane's code.
    pub flag_radius: CodeMap<Distance>,
    /// Distance that the player must be within to cap
    pub cap_radius: Distance,
    /// Where each team's flag is at home, by the team's number.
    pub flag_pos: CodeMap<Position>,
    /// Where each team's flag is delivered to be captured.
    pub flag_return_pos: CodeMap<Position>,
    /// How long the player who dropped a flag must wait to take it again.
    pub flag_no_regrab_time: Duration,
    /// The style class that names each team's flag in messages.
    pub flag_message_team: CodeMap<String>,
}

/// The home of the blue flag.
pub open spec fn blue_base() -> Position {
    Vector2 { x: (-96_700_000) as i32, y: (-14_700_000) as i32 }
}

/// The home of the red flag.
pub open spec fn red_base() -> Position {
    Vector2 { x: 86_000_000, y: (-9_400_000) as i32 }
}

impl CtfConfig {
    /// The pickup radius for `plane`, where one is configured.
    pub open spec fn radius_of(&self, plane: Plane) -> Option<Distance> {
        if self.flag_radius@.contains_key(plane.spec_code() as u16) {
            Some(self.flag_radius@[plane.spec_code() as u16])
        } else {
            None
        }
    }

    /// The home position of the flag of `team`, where one is configured.
    pub open spec fn home_of(&self, team: Team) -> Option<Position> {
        if self.flag_pos@.contains_key(team.0) {
            Some(self.flag_pos@[team.0])
        } else {
            None
        }
    }

    /// Where the flag of `team` is captured, where that is configured.
    pub open spec fn goal_of(&self, team: Team) -> Option<Position> {
        if self.flag_return_pos@.contains_key(team.0) {
            Some(self.flag_return_pos@[team.0])
        } else {
            None
        }
    }

    pub fn radius(&self, plane: Plane) -> (r: Option<Distance>)
        ensures
            r == self.radius_of(plane),
    {
        match map_get(&self.flag_radius, plane.code() as u16) {
            Some(d) => Some(*d),
            None => None,
        }
    }

    pub fn home(&self, team: Team) -> (r: Option<Position>)
        ensures
            r == self.home_of(team),
    {
        match map_get(&self.flag_pos, team.0) {
            Some(p) => Some(*p),
            None => None,
        }
    }

    pub fn goal(&self, team: Team) -> (r: Option<Position>)
        ensures
            r == self.goal_of(team),
    {
        match map_get(&self.flag_return_pos, team.0) {
            Some(p) => Some(*p),
            None => None,
        }
    }

    /// The style class of the flag of `team`, where one is configured.
    pub fn message_team(&self, team: Team) -> (r: Option<&String>)
        ensures
            match r {
                Some(s) => self.flag_message_team@.contains_key(team.0) && *s
                    == self.flag_message_team@[team.0],
                None => !self.flag_message_team@.contains_key(team.0),
            },
    {
        map_get(&self.flag_message_team, team.0)
    }
}

impl Default for CtfConfig {
    /// Every plane takes a flag from 100 units and captures from 50; the
    /// bases lie where the map has them; each team's flag is captured at the
    /// other team's base; a dropped flag stays out of its dropper's reach
    /// for five seconds.
    fn default() -> (r: Self)
        ensures
            forall|p: Plane| #[trigger] r.radius_of(p) == Some(1_000_000i32),
            r.cap_radius == 500_000,
            r.home_of(Team(1)) == Some(blue_base()),
            r.home_of(Team(2)) == Some(red_base()),
            r.goal_of(Team(1)) == Some(red_base()),
            r.goal_of(Team(2)) == Some(blue_base()),
            forall|t: Team| t.0 != 1 && t.0 != 2 ==> #[trigger] r.home_of(t) is None,
            forall|t: Team| t.0 != 1 && t.0 != 2 ==> #[trigger] r.goal_of(t) is None,
            r.flag_no_regrab_time == 5_000,
            r.flag_message_team@.dom() == set![1u16, 2u16],
            r.flag_message_team@[1u16]@ == "blueflag"@,
            r.flag_message_team@[2u16]@ == "redflag"@,
    {
        let mut flag_radius: CodeMap<Distance> = map_new();
        map_insert(&mut flag_radius, Plane::Predator.code() as u16, 1_000_000);
        map_insert(&mut flag_radius, Plane::Goliath.code() as u16, 1_000_000);
        map_insert(&mut flag_radius, Plane::Tornado.code() as u16, 1_000_000);
        map_insert(&mut flag_radius, Plane::Prowler.code() as u16, 1_000_000);
        map_insert(&mut flag_radius, Plane::Mohawk.code() as u16, 1_000_000);
        let blue = Vector2 { x: -96_700_000, y: -14_700_000 };
        let red = Vector2 { x: 86_000_000, y: -9_400_000 };
        let mut flag_pos: CodeMap<Position> = map_new();
        map_insert(&mut flag_pos, 1, blue);
        map_insert(&mut flag_pos, 2, red);
        // Flags get returned at the opposite base
        let mut flag_return_pos: CodeMap<Position> = map_new();
        map_insert(&mut flag_return_pos, 2, blue);
        map_insert(&mut flag_return_pos, 1, red);
        let mut flag_message_team: CodeMap<String> = map_new();
        map_insert(&mut flag_message_team, 1, String::from_str("blueflag"));
        map_insert(&mut flag_message_team, 2, String::from_str("redflag"));
        CtfConfig {
            flag_radius,
            cap_radius: 500_000,
            flag_pos,
            flag_return_pos,
            flag_no_regrab_time: 5_000,
            flag_message_team,
        }
    }
}

} // verus!
