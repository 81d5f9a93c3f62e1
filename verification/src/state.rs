//! Plain data shared with overlays: colours, per-player statistics, rounds,
//! caster-entered team and match information.
use vstd::prelude::*;

verus! {

/// The score of one round: goals of the home team and of the away team.
#[derive(Clone, Copy, Debug, PartialEq, Eq, Structural)]
pub struct Round {
    pub home: i32,
    pub away: i32,
}

impl Default for Round {
    fn default() -> (r: Self)
        ensures
            r == (Round { home: 0, away: 0 }),
    {
        Round { home: 0, away: 0 }
    }
}


/// A colour with alpha.
#[derive(Clone, Copy, Debug, PartialEq, Eq, Structural)]
pub struct Color {
    pub r: u8,
    pub g: u8,
    pub b: u8,
    pub a: u8,
}

/// The two colours of a team.
#[derive(Clone, Copy, Debug, PartialEq, Eq, Structural)]
pub struct TeamColor {
    pub primary: Color,
    pub secondary: Color,
}

impl TeamColor {
    /// The home team's colours: red (223, 45, 82), opaque, twice.
    pub fn home_team() -> (c: Self)
        ensures
            c.primary == (Color { r: 223, g: 45, b: 82, a: 255 }),
            c.secondary == (Color { r: 223, g: 45, b: 82, a: 255 }),
    {
        TeamColor {
            primary: Color { r: 223, g: 45, b: 82, a: 255 },
            secondary: Color { r: 223, g: 45, b: 82, a: 255 },
        }
    }

    /// The away team's colours: blue (9, 114, 213), opaque, twice.
    pub fn away_team() -> (c: Self)
        ensures
            c.primary == (Color { r: 9, g: 114, b: 213, a: 255 }),
            c.secondary == (Color { r: 9, g: 114, b: 213, a: 255 }),
    {
        TeamColor {
            primary: Color { r: 9, g: 114, b: 213, a: 255 },
            secondary: Color { r: 9, g: 114, b: 213, a: 255 },
        }
    }
}

/// A player's statistics in the match.
#[derive(Clone, Copy, Debug, PartialEq, Eq, Structural)]
pub struct Stats {
    pub goals: i32,
    pub saves: i32,
    pub assists: i32,
}

impl Default for Stats {
    fn default() -> (s: Self)
        ensures
            s == (Stats { goals: 0, saves: 0, assists: 0 }),
    {
        Stats { goals: 0, saves: 0, assists: 0 }
    }
}

/// A team as the caster presents it: its name and the address of its logo.
#[derive(Clone, Debug)]
pub struct CasterTeam {
    pub name: String,
    pub logo_url: String,
}

impl Default for CasterTeam {
    fn default() -> (t: Self)
        ensures
            t.name@ == Seq::<char>::empty(),
            t.logo_url@ == Seq::<char>::empty(),
    {
        CasterTeam { name: String::new(), logo_url: String::new() }
    }
}

/// The home and the away team as the caster presents them.
#[derive(Clone, Debug)]
pub struct CasterTeams {
    pub home: CasterTeam,
    pub away: CasterTeam,
}

impl Default for CasterTeams {
    fn default() -> (t: Self)
        ensures
            t.home.name@ == Seq::<char>::empty(),
            t.home.logo_url@ == Seq::<char>::empty(),
            t.away.name@ == Seq::<char>::empty(),
            t.away.logo_url@ == Seq::<char>::empty(),
    {
        CasterTeams { home: CasterTeam::default(), away: CasterTeam::default() }
    }
}

/// Who hosts the match, its name, and its stage.
#[derive(Clone, Debug)]
pub struct MatchData {
    pub host: String,
    pub name: String,
    pub stage: String,
}

impl Default for MatchData {
    fn default() -> (m: Self)
        ensures
            m.host@ == Seq::<char>::empty(),
            m.name@ == Seq::<char>::empty(),
            m.stage@ == Seq::<char>::empty(),
    {
        MatchData { host: String::new(), name: String::new(), stage: String::new() }
    }
}

} // verus!
