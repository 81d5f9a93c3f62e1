//! Fetching match data from the league site (oriondriftcompetitive.com): the
//! match link the caster pastes, the requests it leads to, and what the
//! answers change; and the dialog in which this happens.
use vstd::prelude::*;
use vstd::string::StringExecFns;
use regex::Regex;
use crate::endpoints::{odc_match_url, odc_team_url, ODC_API_PREFIX};
use crate::modal::ODCMatchModalState;
use crate::state::{CasterTeams, MatchData};
use crate::text::{push_signed_decimal, signed_decimal};

verus! {

/// What a match link looks like: the match id after `/matches/`, the league
/// id after a later `league=`, both lower-case hexadecimal.
pub const ODC_MATCH_LINK_PATTERN: &'static str =
    "/matches/(?P<match_id>[a-f0-9]+).*?league=(?P<league_id>[a-f0-9]+)";

/// The two named groups `first` and `second` of the first match of the
/// regular expression `pattern` in `text`; none when the pattern does not
/// compile, does not match, or a group took no part in the match.
pub uninterp spec fn regex_named_pair(
    pattern: Seq<char>,
    text: Seq<char>,
    first: Seq<char>,
    second: Seq<char>,
) -> Option<(Seq<char>, Seq<char>)>;

/// Compiles `pattern` with `regex::Regex::new` and reads the groups `first`
/// and `second` of the first match (`Regex::captures`, `Captures::name`).
/// Claimed: the result is `regex_named_pair` of the arguments; what that
/// is for given arguments is not stated here.
#[verifier::external_body]
fn capture_named_pair(pattern: &str, text: &str, first: &str, second: &str) -> (r: Option<(String, String)>)
    ensures
        match r {
            Some((a, b)) => regex_named_pair(pattern@, text@, first@, second@) == Some((a@, b@)),
            None => regex_named_pair(pattern@, text@, first@, second@) is None,
        },
{
    match Regex::new(pattern) {
        Ok(re) => match re.captures(text) {
            Some(caps) => match (caps.name(first), caps.name(second)) {
                (Some(a), Some(b)) => Some((a.as_str().to_string(), b.as_str().to_string())),
                _ => None,
            },
            None => None,
        },
        Err(_) => None,
    }
}

/// The match id and the league id of a match link.
pub open spec fn odc_link_ids(link: Seq<char>) -> Option<(Seq<char>, Seq<char>)> {
    regex_named_pair(ODC_MATCH_LINK_PATTERN@, link, "match_id"@, "league_id"@)
}

/// Reads the match id and the league id out of a match link.
pub fn parse_odc_match_link(link: &str) -> (r: Option<(String, String)>)
    ensures
        match r {
            Some((m, l)) => odc_link_ids(link@) == Some((m@, l@)),
            None => odc_link_ids(link@) is None,
        },
{
    capture_named_pair(ODC_MATCH_LINK_PATTERN, link, "match_id", "league_id")
}

/// A match as the league site describes it.
pub struct MatchJson {
    pub team1_id: String,
    pub team2_id: String,
    pub week_number: i16,
}

/// A team as the league site describes it.
pub struct TeamJson {
    pub name: String,
    pub profile_picture: String,
}

/// The next thing to do while fetching match data.
pub enum OdcStep {
    /// Request the match at this address.
    FetchMatch(String),
    /// Request the home team and the away team at these addresses; the match
    /// is in this week.
    FetchTeams(String, String, i16),
    /// Stop; the dialog goes to this state.
    Finished(ODCMatchModalState),
}

/// The first step, given the ids read out of the link: without them the
/// link is bad; with them, request the match.
pub fn odc_first_step(ids: Option<(String, String)>) -> (step: OdcStep)
    ensures
        match ids {
            None => step == OdcStep::Finished(ODCMatchModalState::Error),
            Some((m, l)) => step matches OdcStep::FetchMatch(url) && url@ == ODC_API_PREFIX@
                + "/leagues/"@ + l@ + "/matches/"@ + m@,
        },
{
    match ids {
        None => OdcStep::Finished(ODCMatchModalState::Error),
        Some((m, l)) => OdcStep::FetchMatch(odc_match_url(l.as_str(), m.as_str())),
    }
}

/// The first step for a pasted match link.
pub fn odc_start(link: &str) -> (step: OdcStep)
    ensures
        match odc_link_ids(link@) {
            None => step == OdcStep::Finished(ODCMatchModalState::Error),
            Some((m, l)) => step matches OdcStep::FetchMatch(url) && url@ == ODC_API_PREFIX@
                + "/leagues/"@ + l + "/matches/"@ + m,
        },
{
    odc_first_step(parse_odc_match_link(link))
}

/// The step after the match was requested: without an answer, fail; with
/// one, request both teams.
pub fn odc_on_match(answer: Option<MatchJson>) -> (step: OdcStep)
    ensures
        match answer {
            None => step == OdcStep::Finished(ODCMatchModalState::Error),
            Some(j) => step matches OdcStep::FetchTeams(home, away, week) && home@ == ODC_API_PREFIX@
                + "/teams/"@ + j.team1_id@ && away@ == ODC_API_PREFIX@ + "/teams/"@ + j.team2_id@
                && week == j.week_number,
        },
{
    match answer {
        None => OdcStep::Finished(ODCMatchModalState::Error),
        Some(j) => OdcStep::FetchTeams(
            odc_team_url(j.team1_id.as_str()),
            odc_team_url(j.team2_id.as_str()),
            j.week_number,
        ),
    }
}

/// The last step, once both teams were requested: if either answer is
/// missing, fail and change nothing; otherwise the host becomes `ODC`, the
/// stage `Week <n>`, and each team takes the site's name and picture.
pub fn odc_on_teams(
    home: Option<TeamJson>,
    away: Option<TeamJson>,
    week_number: i16,
    match_data: &mut MatchData,
    teams: &mut CasterTeams,
) -> (state: ODCMatchModalState)
    ensures
        match (home, away) {
            (Some(h), Some(a)) => {
                &&& state == ODCMatchModalState::Success
                &&& final(match_data).host@ == "ODC"@
                &&& final(match_data).stage@ == "Week "@ + signed_decimal(week_number as int)
                &&& final(match_data).name == old(match_data).name
                &&& final(teams).home.name@ == h.name@
                &&& final(teams).home.logo_url@ == h.profile_picture@
                &&& final(teams).away.name@ == a.name@
                &&& final(teams).away.logo_url@ == a.profile_picture@
            },
            _ => {
                &&& state == ODCMatchModalState::Error
                &&& *final(match_data) == *old(match_data)
                &&& *final(teams) == *old(teams)
            },
        },
{
    match (home, away) {
        (Some(h), Some(a)) => {
            match_data.host = String::from_str("ODC");
            let mut stage = String::from_str("Week ");
            push_signed_decimal(&mut stage, week_number as i64);
            match_data.stage = stage;
            teams.home.name = h.name;
            teams.home.logo_url = h.profile_picture;
            teams.away.name = a.name;
            teams.away.logo_url = a.profile_picture;
            ODCMatchModalState::Success
        },
        _ => ODCMatchModalState::Error,
    }
}

/// One frame of the dialog. While it is shown (any state after `Closed`),
/// `Cancel` closes it and clears the link, and so does a finished fetch;
/// the `ODC Match` button then opens it.
pub fn odc_modal_frame(
    state: &mut ODCMatchModalState,
    link: &mut String,
    cancel_clicked: bool,
    open_clicked: bool,
)
    ensures
        ({
            let shown = *old(state) != ODCMatchModalState::Closed;
            let closes = shown && (cancel_clicked || *old(state) == ODCMatchModalState::Success);
            &&& closes ==> final(link)@ == Seq::<char>::empty()
            &&& !closes ==> final(link)@ == old(link)@
            &&& *final(state) == if open_clicked {
                ODCMatchModalState::Open
            } else if closes {
                ODCMatchModalState::Closed
            } else {
                *old(state)
            }
        }),
{
    if *state > ODCMatchModalState::Closed {
        if cancel_clicked {
            *link = String::new();
            *state = ODCMatchModalState::Closed;
        }
        if *state == ODCMatchModalState::Success {
            *link = String::new();
            *state = ODCMatchModalState::Closed;
        }
    }
    if open_clicked {
        *state = ODCMatchModalState::Open;
    }
}

} // verus!
