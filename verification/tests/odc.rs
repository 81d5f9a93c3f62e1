use caster_bridge::modal::ODCMatchModalState;
use caster_bridge::odc::{
    odc_first_step, odc_modal_frame, odc_on_match, odc_on_teams, odc_start, parse_odc_match_link,
    MatchJson, OdcStep, TeamJson,
};
use caster_bridge::state::{CasterTeam, CasterTeams, MatchData};

fn teams() -> CasterTeams {
    CasterTeams {
        home: CasterTeam { name: "h".to_string(), logo_url: "hl".to_string() },
        away: CasterTeam { name: "a".to_string(), logo_url: "al".to_string() },
    }
}

fn match_data() -> MatchData {
    MatchData { host: "x".to_string(), name: "Final".to_string(), stage: "y".to_string() }
}

#[test]
fn match_link_ids() {
    let ids = parse_odc_match_link(
        "https://oriondriftcompetitive.com/matches/66f1a2b3c4?tab=games&league=abc123",
    );
    assert_eq!(ids, Some(("66f1a2b3c4".to_string(), "abc123".to_string())));
    assert_eq!(parse_odc_match_link("https://example.com/teams/abc"), None);
    assert_eq!(parse_odc_match_link("/matches/XYZ?league=abc"), None);
    assert_eq!(parse_odc_match_link("/matches/abcZ?league=9f"), Some(("abc".to_string(), "9f".to_string())));
}

#[test]
fn first_step_requests_match() {
    match odc_start("https://x/matches/ab12?league=cd34") {
        OdcStep::FetchMatch(url) => assert_eq!(
            url,
            "https://oriondriftcompetitive.com/api/v1/leagues/cd34/matches/ab12"
        ),
        _ => panic!("expected a match request"),
    }
    assert!(matches!(
        odc_start("not a link"),
        OdcStep::Finished(ODCMatchModalState::Error)
    ));
    assert!(matches!(odc_first_step(None), OdcStep::Finished(ODCMatchModalState::Error)));
}

#[test]
fn match_answer_requests_teams() {
    let step = odc_on_match(Some(MatchJson {
        team1_id: "t1".to_string(),
        team2_id: "t2".to_string(),
        week_number: 4,
    }));
    match step {
        OdcStep::FetchTeams(home, away, week) => {
            assert_eq!(home, "https://oriondriftcompetitive.com/api/v1/teams/t1");
            assert_eq!(away, "https://oriondriftcompetitive.com/api/v1/teams/t2");
            assert_eq!(week, 4);
        }
        _ => panic!("expected team requests"),
    }
    assert!(matches!(odc_on_match(None), OdcStep::Finished(ODCMatchModalState::Error)));
}

#[test]
fn team_answers_fill_match_data() {
    let mut md = match_data();
    let mut t = teams();
    let state = odc_on_teams(
        Some(TeamJson { name: "Rockets".to_string(), profile_picture: "r.png".to_string() }),
        Some(TeamJson { name: "Comets".to_string(), profile_picture: "c.png".to_string() }),
        12,
        &mut md,
        &mut t,
    );
    assert_eq!(state, ODCMatchModalState::Success);
    assert_eq!(md.host, "ODC");
    assert_eq!(md.stage, "Week 12");
    assert_eq!(md.name, "Final");
    assert_eq!(t.home.name, "Rockets");
    assert_eq!(t.home.logo_url, "r.png");
    assert_eq!(t.away.name, "Comets");
    assert_eq!(t.away.logo_url, "c.png");
}

#[test]
fn missing_team_answer_fails_without_change() {
    let mut md = match_data();
    let mut t = teams();
    let state = odc_on_teams(
        Some(TeamJson { name: "Rockets".to_string(), profile_picture: "r.png".to_string() }),
        None,
        -1,
        &mut md,
        &mut t,
    );
    assert_eq!(state, ODCMatchModalState::Error);
    assert_eq!(md.host, "x");
    assert_eq!(md.stage, "y");
    assert_eq!(t.home.name, "h");
    assert_eq!(t.away.logo_url, "al");
}

#[test]
fn negative_week_numbers() {
    let mut md = match_data();
    let mut t = teams();
    let jt = || Some(TeamJson { name: "n".to_string(), profile_picture: "p".to_string() });
    odc_on_teams(jt(), jt(), -3, &mut md, &mut t);
    assert_eq!(md.stage, "Week -3");
}

#[test]
fn dialog_states_are_ordered() {
    let order = [
        ODCMatchModalState::Closed,
        ODCMatchModalState::Open,
        ODCMatchModalState::Loading,
        ODCMatchModalState::Success,
        ODCMatchModalState::Error,
    ];
    for i in 0..order.len() {
        for j in 0..order.len() {
            assert_eq!(order[i] < order[j], i < j);
            assert_eq!(order[i].partial_cmp(&order[j]), i.partial_cmp(&j));
        }
    }
    assert!(ODCMatchModalState::Error > ODCMatchModalState::Closed);
}

#[test]
fn dialog_frames() {
    let mut link = "https://x/matches/1?league=2".to_string();
    let mut state = ODCMatchModalState::Closed;
    odc_modal_frame(&mut state, &mut link, false, true);
    assert_eq!(state, ODCMatchModalState::Open);
    assert_eq!(link, "https://x/matches/1?league=2");

    odc_modal_frame(&mut state, &mut link, true, false);
    assert_eq!(state, ODCMatchModalState::Closed);
    assert_eq!(link, "");

    let mut link = "l".to_string();
    let mut state = ODCMatchModalState::Success;
    odc_modal_frame(&mut state, &mut link, false, false);
    assert_eq!(state, ODCMatchModalState::Closed);
    assert_eq!(link, "");

    let mut link = "l".to_string();
    let mut state = ODCMatchModalState::Error;
    odc_modal_frame(&mut state, &mut link, false, false);
    assert_eq!(state, ODCMatchModalState::Error);
    assert_eq!(link, "l");

    let mut state = ODCMatchModalState::Closed;
    odc_modal_frame(&mut state, &mut link, true, false);
    assert_eq!(state, ODCMatchModalState::Closed);
    assert_eq!(link, "l");
}
