use caster_bridge::appdata::{AppData, DataDir, DATA_FOLDER_NAME};
use caster_bridge::overlay::OverlayTeam;
use caster_bridge::state::{
    CasterTeam, CasterTeams, Color, MatchData, Round, Stats, TeamColor,
};
use caster_bridge::widgets::PlayerList;

#[test]
fn defaults() {
    assert_eq!(Round::default(), Round { home: 0, away: 0 });
    assert_eq!(Stats::default(), Stats { goals: 0, saves: 0, assists: 0 });
    let t = CasterTeam::default();
    assert_eq!(t.name, "");
    assert_eq!(t.logo_url, "");
    let ts = CasterTeams::default();
    assert_eq!(ts.home.name, "");
    assert_eq!(ts.away.logo_url, "");
    let m = MatchData::default();
    assert_eq!((m.host.as_str(), m.name.as_str(), m.stage.as_str()), ("", "", ""));
}

#[test]
fn team_colours() {
    let red = Color { r: 223, g: 45, b: 82, a: 255 };
    let blue = Color { r: 9, g: 114, b: 213, a: 255 };
    assert_eq!(TeamColor::home_team(), TeamColor { primary: red, secondary: red });
    assert_eq!(TeamColor::away_team(), TeamColor { primary: blue, secondary: blue });
}

#[test]
fn overlay_placeholder_teams() {
    assert_eq!(
        OverlayTeam::home_team().player_names(),
        vec!["Player1", "Player2", "Player3", "Player4"]
    );
    assert_eq!(
        OverlayTeam::away_team().player_names(),
        vec!["PlayerWithLongNameAsh", "Player6", "Player7", "Player8"]
    );
    let home = OverlayTeam::home_team();
    assert_eq!(home.players.get("Player3"), Some(&Stats::default()));
    assert!(OverlayTeam::without_players().player_names().is_empty());
}

#[test]
fn player_names_follow_map_order() {
    let mut team = OverlayTeam::without_players();
    team.players.insert("b".to_string(), Stats::default());
    team.players.insert("a".to_string(), Stats { goals: 1, saves: 0, assists: 0 });
    assert_eq!(team.player_names(), vec!["b", "a"]);
}

#[test]
fn data_folders() {
    assert_eq!(DATA_FOLDER_NAME, "ODCasterBridge");
    assert_eq!(
        AppData::data_dirs(),
        vec![DataDir::Root, DataDir::Logos, DataDir::HomeLogos, DataDir::AwayLogos]
    );
    assert!(DataDir::Root.components().is_empty());
    assert_eq!(DataDir::Logos.components(), vec!["logos"]);
    assert_eq!(DataDir::HomeLogos.components(), vec!["logos", "home"]);
    assert_eq!(DataDir::AwayLogos.components(), vec!["logos", "away"]);
    assert!(DataDir::Root.creates_parents());
    assert!(!DataDir::HomeLogos.creates_parents());
    let _data: AppData = AppData::get_or_init(true);
}

#[test]
fn player_list_shows_names() {
    let names = vec!["x".to_string(), "y".to_string()];
    let list = PlayerList::list(&names);
    assert_eq!(list.players(), &names);
}
