use caster_bridge::endpoints::{
    camera_config_url, gamemode_url, odc_match_url, odc_team_url, CAMERAS_URL, GAMEMODES_URL,
    GAME_STATE_URL,
};
use caster_bridge::logos::{
    is_logo_request, is_safe_file_name, logo_content_type, logo_request_target, logo_file_name, logo_url, set_uploaded_logo, Team,
    FILE_NOT_FOUND_BODY, NOT_FOUND_BODY,
};
use caster_bridge::appdata::DataDir;
use caster_bridge::state::{CasterTeam, CasterTeams};

#[test]
fn spectator_api_addresses() {
    assert_eq!(GAME_STATE_URL, "http://localhost:5420/state/");
    assert_eq!(GAMEMODES_URL, "http://localhost:5420/state/gamemodes");
    assert_eq!(CAMERAS_URL, "http://localhost:5420/cameras");
    assert_eq!(gamemode_url("gamma01"), "http://localhost:5420/state/gamemodes/gamma01");
    assert_eq!(camera_config_url("cam7"), "http://localhost:5420/cameras/cam7/config");
}

#[test]
fn league_site_addresses() {
    assert_eq!(
        odc_match_url("lea9", "ab12"),
        "https://oriondriftcompetitive.com/api/v1/leagues/lea9/matches/ab12"
    );
    assert_eq!(odc_team_url("t1"), "https://oriondriftcompetitive.com/api/v1/teams/t1");
}

#[test]
fn logo_names_and_addresses() {
    let home = Team::Home("Rockets".to_string());
    let away = Team::Away(String::new());
    assert_eq!(logo_file_name(&home, 1725029869, "png"), "home_1725029869.png");
    assert_eq!(logo_file_name(&away, 0, "jpeg"), "away_0.jpeg");
    assert_eq!(
        logo_url(&home, "home_5.png"),
        "http://127.0.0.1:8081/logos/home/home_5.png"
    );
    assert_eq!(logo_url(&away, "a.jpg"), "http://127.0.0.1:8081/logos/away/a.jpg");
}

#[test]
fn logo_dialog_titles() {
    assert_eq!(Team::Home("Rockets".to_string()).dialog_title(), "Pick Rockets logo");
    assert_eq!(Team::Home(String::new()).dialog_title(), "Pick home logo");
    assert_eq!(Team::Away(String::new()).dialog_title(), "Pick away logo");
    assert_eq!(Team::Away("Comets".to_string()).label(), "Comets");
    assert_eq!(Team::Away("Comets".to_string()).side(), "away");
    assert_eq!(Team::Away("Comets".to_string()).logo_dir(), DataDir::AwayLogos);
    assert_eq!(Team::Home(String::new()).logo_dir(), DataDir::HomeLogos);
}

#[test]
fn uploaded_logo_goes_to_its_team() {
    let mut teams = CasterTeams {
        home: CasterTeam { name: "H".to_string(), logo_url: "old-h".to_string() },
        away: CasterTeam { name: "A".to_string(), logo_url: "old-a".to_string() },
    };
    set_uploaded_logo(&mut teams, &Team::Away("A".to_string()), "away_3.png");
    assert_eq!(teams.away.logo_url, "http://127.0.0.1:8081/logos/away/away_3.png");
    assert_eq!(teams.away.name, "A");
    assert_eq!(teams.home.logo_url, "old-h");
    set_uploaded_logo(&mut teams, &Team::Home("H".to_string()), "home_4.jpg");
    assert_eq!(teams.home.logo_url, "http://127.0.0.1:8081/logos/home/home_4.jpg");
}

#[test]
fn served_logos() {
    assert!(is_logo_request("/logos/home_1.png"));
    assert!(!is_logo_request("/favicon.ico"));
    assert_eq!(logo_content_type("a.png"), "image/png");
    assert_eq!(logo_content_type("a.jpg"), "image/jpeg");
    assert_eq!(logo_content_type("a.jpeg"), "image/jpeg");
    assert_eq!(logo_content_type("a.gif"), "application/octet-stream");
    assert_eq!(logo_content_type("png"), "application/octet-stream");
    assert_eq!(FILE_NOT_FOUND_BODY, "404 - File not found");
    assert_eq!(NOT_FOUND_BODY, "404 - Not found");
}

#[test]
fn request_targets() {
    assert_eq!(
        logo_request_target("/logos/home/home_5.png"),
        Some((DataDir::HomeLogos, "home_5.png".to_string()))
    );
    assert_eq!(
        logo_request_target("/logos/away/a.jpg"),
        Some((DataDir::AwayLogos, "a.jpg".to_string()))
    );
    assert_eq!(logo_request_target("/logos/a.png"), Some((DataDir::Logos, "a.png".to_string())));
    assert_eq!(logo_request_target("/logos/home"), Some((DataDir::Logos, "home".to_string())));
    assert_eq!(logo_request_target("/logos/..\\x"), None);
    assert_eq!(logo_request_target("/logos/C:\\x"), None);
    assert_eq!(logo_request_target("/logos/C:x"), None);
    assert_eq!(logo_request_target("/logos/home/../x"), None);
    assert_eq!(logo_request_target("/logos/.."), None);
    assert_eq!(logo_request_target("/logos/home/."), None);
    assert_eq!(logo_request_target("/logos/"), None);
    assert_eq!(logo_request_target("/logos/a/b.png"), None);
    assert_eq!(logo_request_target("/other/a.png"), None);
    assert_eq!(logo_request_target(""), None);
    assert!(is_safe_file_name("..."));
    assert!(!is_safe_file_name("a\\b"));
}

#[test]
fn uploaded_logo_request_leads_to_its_file() {
    let team = Team::Away("A".to_string());
    let file = logo_file_name(&team, 1725029869, "png");
    let url = logo_url(&team, &file);
    let path = url.strip_prefix("http://127.0.0.1:8081").unwrap();
    assert!(is_logo_request(path));
    assert_eq!(logo_request_target(path), Some((team.logo_dir(), file)));
}
