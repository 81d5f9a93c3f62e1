use caster_bridge::session::{
    client_connected, client_disconnected, connected_count_text, connection_status, handle_message,
    handle_query, is_subscribed, lookup, on_client_message, poll_interval_ms,
    spectator_connection_after, subscribed_camera_request, subscribed_gamemode_request,
    ClientMessage, ClientReply, ConnectionStatus, PollOutcome,
};

fn strings(v: &[&str]) -> Vec<String> {
    v.iter().map(|s| s.to_string()).collect()
}

#[test]
fn poll_intervals() {
    assert_eq!(poll_interval_ms(1), 1000);
    assert_eq!(poll_interval_ms(30), 33);
    assert_eq!(poll_interval_ms(60), 16);
    assert_eq!(poll_interval_ms(2000), 0);
}

#[test]
fn spectator_connection_follows_polls() {
    assert!(!spectator_connection_after(true, PollOutcome::Unreachable));
    assert!(spectator_connection_after(false, PollOutcome::Received));
    assert!(spectator_connection_after(true, PollOutcome::Unreadable));
    assert!(!spectator_connection_after(false, PollOutcome::Unreadable));
}

#[test]
fn subscriptions() {
    let ids = strings(&["alpha01", "gamma01"]);
    assert!(is_subscribed(&ids, &"gamma01".to_string()));
    assert!(!is_subscribed(&ids, &"gamma".to_string()));
    assert!(!is_subscribed(&vec![], &String::new()));
    assert_eq!(
        subscribed_gamemode_request(&ids, &"gamma01".to_string()),
        Some("http://localhost:5420/state/gamemodes/gamma01".to_string())
    );
    assert_eq!(subscribed_gamemode_request(&ids, &"beta".to_string()), None);
    let cams = strings(&["cam1"]);
    assert_eq!(
        subscribed_camera_request(&cams, &"cam1".to_string()),
        Some("http://localhost:5420/cameras/cam1/config".to_string())
    );
    assert_eq!(subscribed_camera_request(&cams, &"cam2".to_string()), None);
}

#[test]
fn client_counting() {
    assert_eq!(client_connected(0), 1);
    assert_eq!(client_disconnected(client_connected(4)), 4);
    assert_eq!(client_disconnected(0), 0);
    assert_eq!(client_disconnected(1), 0);
}

#[test]
fn status_line() {
    assert_eq!(connection_status(2, true), ConnectionStatus::Connected);
    assert_eq!(connection_status(0, false), ConnectionStatus::Disconnected);
    assert_eq!(connection_status(0, true), ConnectionStatus::NoOverlays);
    assert_eq!(connection_status(3, false), ConnectionStatus::NoSpectator);
    assert_eq!(ConnectionStatus::Connected.label(), "Connected");
    assert_eq!(ConnectionStatus::Disconnected.label(), "Disconnected");
    assert_eq!(ConnectionStatus::NoOverlays.label(), "Connecting");
    assert_eq!(ConnectionStatus::NoOverlays.hint(), Some("No overlays active."));
    assert_eq!(
        ConnectionStatus::NoSpectator.hint(),
        Some("Missing spectator API. Open the spectator client and join a server.")
    );
    assert_eq!(ConnectionStatus::Connected.hint(), None);
    assert_eq!(connected_count_text(12), "12");
}

#[test]
fn query_pairs() {
    let q = vec![
        ("slotId".to_string(), "gamma01".to_string()),
        ("action".to_string(), "setSubscribedGamemode".to_string()),
    ];
    assert_eq!(lookup(&q, "slotId"), Some(&"gamma01".to_string()));
    assert_eq!(lookup(&q, "other"), None);
    let mut sub = "old".to_string();
    handle_query(&mut sub, &q);
    assert_eq!(sub, "gamma01");
    let mut sub = "old".to_string();
    handle_query(&mut sub, &vec![("action".to_string(), "setSubscribedGamemode".to_string())]);
    assert_eq!(sub, "old");
}

#[test]
fn overlay_messages() {
    let mut sub = String::new();
    handle_message(&mut sub, r#"{"action":"setSubscribedGamemode","slotId":"gamma01"}"#);
    assert_eq!(sub, "gamma01");
    handle_message(&mut sub, r#"{"action":"somethingElse","slotId":"x"}"#);
    assert_eq!(sub, "gamma01");
    handle_message(&mut sub, r#"{"action":"setSubscribedGamemode","slotId":7}"#);
    assert_eq!(sub, "gamma01");
    handle_message(&mut sub, "not json");
    assert_eq!(sub, "gamma01");
    handle_message(&mut sub, r#"{"action":"setSubscribedGamemode","slotId":"a","slotId":"b"}"#);
    assert_eq!(sub, "b");
}

#[test]
fn overlay_message_kinds() {
    let mut sub = String::new();
    let reply = on_client_message(
        &mut sub,
        ClientMessage::Text(r#"{"action":"setSubscribedGamemode","slotId":"s1"}"#.to_string()),
    );
    assert!(matches!(reply, ClientReply::Continue));
    assert_eq!(sub, "s1");
    match on_client_message(&mut sub, ClientMessage::Ping(vec![1, 2])) {
        ClientReply::Pong(bytes) => assert_eq!(bytes, vec![1, 2]),
        _ => panic!("expected a pong"),
    }
    assert!(matches!(on_client_message(&mut sub, ClientMessage::Close), ClientReply::Disconnect));
    assert!(matches!(on_client_message(&mut sub, ClientMessage::Failed), ClientReply::Disconnect));
    assert!(matches!(on_client_message(&mut sub, ClientMessage::Other), ClientReply::Continue));
    assert_eq!(sub, "s1");
}
