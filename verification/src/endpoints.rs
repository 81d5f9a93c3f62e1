//! Addresses of the spectator API that the bridge polls, and of the league
//! site that match data comes from.
use vstd::prelude::*;
use vstd::string::StringExecFns;

verus! {

/// The live game state (players, spectators, balls).
pub const GAME_STATE_URL: &'static str = "http://localhost:5420/state/";

/// The list of gamemodes running in the arena.
pub const GAMEMODES_URL: &'static str = "http://localhost:5420/state/gamemodes";

/// The list of cameras of the spectator client.
pub const CAMERAS_URL: &'static str = "http://localhost:5420/cameras";

/// The root of the league site's API.
pub const ODC_API_PREFIX: &'static str = "https://oriondriftcompetitive.com/api/v1";

/// The address of one gamemode's state.
pub fn gamemode_url(slot_id: &str) -> (url: String)
    ensures
        url@ == "http://localhost:5420/state/gamemodes/"@ + slot_id@,
{
    let mut url = String::from_str("http://localhost:5420/state/gamemodes/");
    url.append(slot_id);
    url
}

/// The address of one camera's configuration, read by polling and written
/// when the caster edits rounds.
pub fn camera_config_url(camera_api_id: &str) -> (url: String)
    ensures
        url@ == "http://localhost:5420/cameras/"@ + camera_api_id@ + "/config"@,
{
    let mut url = String::from_str("http://localhost:5420/cameras/");
    url.append(camera_api_id);
    url.append("/config");
    url
}

/// The league site's address of a match.
pub fn odc_match_url(league_id: &str, match_id: &str) -> (url: String)
    ensures
        url@ == ODC_API_PREFIX@ + "/leagues/"@ + league_id@ + "/matches/"@ + match_id@,
{
    let mut url = String::from_str(ODC_API_PREFIX);
    url.append("/leagues/");
    url.append(league_id);
    url.append("/matches/");
    url.append(match_id);
    url
}

/// The league site's address of a team.
pub fn odc_team_url(team_id: &str) -> (url: String)
    ensures
        url@ == ODC_API_PREFIX@ + "/teams/"@ + team_id@,
{
    let mut url = String::from_str(ODC_API_PREFIX);
    url.append("/teams/");
    url.append(team_id);
    url
}

} // verus!
