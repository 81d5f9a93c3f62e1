//! The decisions the bridge takes while it runs: how often to poll the
//! spectator API and what the answers change, which subscribed gamemode or
//! camera to fetch, how many overlays are connected and what overlays ask
//! for, what the status line says, and how the caster's round edits apply.
use vstd::prelude::*;
use vstd::string::StringExecFns;
use std::collections::HashMap;
use indexmap::IndexMap;
use crate::endpoints::{camera_config_url, gamemode_url};
use crate::round_map::{
    entries_get, entries_insert, entries_remove, round_entries, round_map_get, round_map_insert,
    round_map_shift_remove,
};
use crate::state::Round;
use crate::text::decimal;

verus! {

/// Milliseconds between two polls at `poll_interval_fps` polls a second
/// (integer division).
pub fn poll_interval_ms(poll_interval_fps: u64) -> (ms: u64)
    requires
        poll_interval_fps > 0,
    ensures
        ms == 1000u64 / poll_interval_fps,
{
    1000 / poll_interval_fps
}

/// How a poll of the spectator API went.
#[derive(Clone, Copy, Debug, PartialEq, Eq, Structural)]
pub enum PollOutcome {
    /// The request failed: the spectator client is not there.
    Unreachable,
    /// An answer came whose body could not be read.
    Unreadable,
    /// An answer came and was read.
    Received,
}

/// Whether the spectator client counts as connected after a poll of the game
/// state: a failed request says no, a read answer says yes, an unreadable
/// answer changes nothing.
pub fn spectator_connection_after(connected: bool, outcome: PollOutcome) -> (c: bool)
    ensures
        c == match outcome {
            PollOutcome::Unreachable => false,
            PollOutcome::Unreadable => connected,
            PollOutcome::Received => true,
        },
{
    match outcome {
        PollOutcome::Unreachable => false,
        PollOutcome::Unreadable => connected,
        PollOutcome::Received => true,
    }
}

/// `wanted` is one of `ids`.
pub open spec fn listed(ids: Seq<String>, wanted: Seq<char>) -> bool {
    exists|i: int| 0 <= i < ids.len() && ids[i]@ == wanted
}

/// An id counts as listed wherever it stands in the list, and only an id
/// that stands somewhere in it counts.
pub proof fn law_listed_at_any_position(ids: Seq<String>, wanted: Seq<char>)
    ensures
        listed(ids, wanted) <==> (exists|i: int| 0 <= i < ids.len() && ids[i]@ == wanted),
        forall|i: int| 0 <= i < ids.len() ==> listed(ids, #[trigger] ids[i]@),
        ids.len() == 0 ==> !listed(ids, wanted),
{
    assert forall|i: int| 0 <= i < ids.len() implies listed(ids, #[trigger] ids[i]@) by {
        assert(ids[i]@ == ids[i]@);
    }
}

/// Whether `wanted` is one of `ids`.
pub fn is_subscribed(ids: &Vec<String>, wanted: &String) -> (b: bool)
    ensures
        b == listed(ids@, wanted@),
{
    let n = ids.len();
    let mut i: usize = 0;
    while i < n
        invariant
            n == ids@.len(),
            i <= n,
            forall|j: int| 0 <= j < i ==> ids@[j]@ != wanted@,
        decreases n - i,
    {
        if ids[i] == *wanted {
            return true;
        }
        i = i + 1;
    }
    false
}

/// The address to fetch the subscribed gamemode from, if the arena runs it.
pub fn subscribed_gamemode_request(slot_ids: &Vec<String>, subscribed_slot_id: &String) -> (r: Option<String>)
    ensures
        match r {
            Some(url) => listed(slot_ids@, subscribed_slot_id@) && url@ == "http://localhost:5420/state/gamemodes/"@
                + subscribed_slot_id@,
            None => !listed(slot_ids@, subscribed_slot_id@),
        },
{
    if is_subscribed(slot_ids, subscribed_slot_id) {
        Some(gamemode_url(subscribed_slot_id.as_str()))
    } else {
        None
    }
}

/// The address to fetch the subscribed camera's configuration from, if the
/// spectator client has that camera.
pub fn subscribed_camera_request(cameras: &Vec<String>, camera_api_id: &String) -> (r: Option<String>)
    ensures
        match r {
            Some(url) => listed(cameras@, camera_api_id@) && url@ == "http://localhost:5420/cameras/"@
                + camera_api_id@ + "/config"@,
            None => !listed(cameras@, camera_api_id@),
        },
{
    if is_subscribed(cameras, camera_api_id) {
        Some(camera_config_url(camera_api_id.as_str()))
    } else {
        None
    }
}

/// The overlay count after one more overlay connects.
pub open spec fn count_after_connect(connected_clients: int) -> int {
    connected_clients + 1
}

/// The overlay count after an overlay leaves; it never goes below zero.
pub open spec fn count_after_leave(connected_clients: int) -> int {
    if connected_clients > 0 {
        connected_clients - 1
    } else {
        0
    }
}

/// The overlay count after an overlay connects.
pub fn client_connected(connected_clients: usize) -> (n: usize)
    requires
        connected_clients < usize::MAX,
    ensures
        n == count_after_connect(connected_clients as int),
{
    connected_clients + 1
}

/// The overlay count after an overlay leaves; it never goes below zero.
pub fn client_disconnected(connected_clients: usize) -> (n: usize)
    ensures
        n == count_after_leave(connected_clients as int),
{
    if connected_clients > 0 {
        connected_clients - 1
    } else {
        connected_clients
    }
}

/// Connecting adds one overlay; leaving removes one, but never below zero.
pub proof fn law_count_steps(connected_clients: int)
    requires
        connected_clients >= 0,
    ensures
        count_after_connect(connected_clients) == connected_clients + 1,
        connected_clients > 0 ==> count_after_leave(connected_clients) == connected_clients - 1,
        count_after_leave(0) == 0,
        count_after_leave(connected_clients) >= 0,
{
}

/// An overlay that connects and leaves again leaves the count as it was:
/// `client_disconnected(client_connected(c)) == c`.
pub proof fn law_connect_then_leave(connected_clients: usize)
    requires
        connected_clients < usize::MAX,
    ensures
        count_after_leave(count_after_connect(connected_clients as int)) == connected_clients,
{
}

/// What the status line shows.
#[derive(Clone, Copy, Debug, PartialEq, Eq, Structural)]
pub enum ConnectionStatus {
    /// Overlays and the spectator client are both there.
    Connected,
    /// Neither is there.
    Disconnected,
    /// The spectator client is there, no overlay is.
    NoOverlays,
    /// Overlays are there, the spectator client is not.
    NoSpectator,
}

/// The status for a number of overlays and the spectator client's presence.
pub fn connection_status(connected_clients: usize, spectator_connection: bool) -> (s: ConnectionStatus)
    ensures
        s == if connected_clients > 0 && spectator_connection {
            ConnectionStatus::Connected
        } else if connected_clients == 0 && !spectator_connection {
            ConnectionStatus::Disconnected
        } else if connected_clients == 0 {
            ConnectionStatus::NoOverlays
        } else {
            ConnectionStatus::NoSpectator
        },
{
    if connected_clients > 0 && spectator_connection {
        ConnectionStatus::Connected
    } else if connected_clients == 0 && !spectator_connection {
        ConnectionStatus::Disconnected
    } else if connected_clients == 0 {
        ConnectionStatus::NoOverlays
    } else {
        ConnectionStatus::NoSpectator
    }
}

impl ConnectionStatus {
    /// The word next to the status light.
    pub fn label(&self) -> (s: &'static str)
        ensures
            s@ == match *self {
                ConnectionStatus::Connected => "Connected"@,
                ConnectionStatus::Disconnected => "Disconnected"@,
                _ => "Connecting"@,
            },
    {
        match self {
            ConnectionStatus::Connected => "Connected",
            ConnectionStatus::Disconnected => "Disconnected",
            _ => "Connecting",
        }
    }

    /// The line that says what is missing while connecting.
    pub fn hint(&self) -> (s: Option<&'static str>)
        ensures
            match *self {
                ConnectionStatus::NoOverlays => s matches Some(t) && t@ == "No overlays active."@,
                ConnectionStatus::NoSpectator => s matches Some(t) && t@
                    == "Missing spectator API. Open the spectator client and join a server."@,
                _ => s is None,
            },
    {
        match self {
            ConnectionStatus::NoOverlays => Some("No overlays active."),
            ConnectionStatus::NoSpectator => Some(
                "Missing spectator API. Open the spectator client and join a server.",
            ),
            _ => None,
        }
    }
}

/// The number shown next to `Connected`: the overlay count in decimal.
pub fn connected_count_text(connected_clients: usize) -> (s: String)
    ensures
        s@ == decimal(connected_clients as nat),
{
    let mut s = String::new();
    crate::text::push_decimal(&mut s, connected_clients as u64);
    s
}

/// The JSON object of strings that `text` holds; none when `text` is not
/// such an object.
pub uninterp spec fn json_string_map(text: Seq<char>) -> Option<Map<Seq<char>, Seq<char>>>;

/// Parses an overlay's message with `serde_json::from_str` into a
/// `HashMap<String, String>` and hands its pairs out in a `Vec`. Claimed:
/// the pairs are those of `json_string_map(text)`, each key once; the order
/// of the pairs (a hash map's order) is not stated.
#[verifier::external_body]
fn parse_string_map(text: &str) -> (r: Option<Vec<(String, String)>>)
    ensures
        match r {
            None => json_string_map(text@) is None,
            Some(pairs) => json_string_map(text@) matches Some(m) && (forall|i: int|
                0 <= i < pairs@.len() ==> m.contains_key(#[trigger] pairs@[i].0@) && m[pairs@[i].0@]
                    == pairs@[i].1@) && (forall|k: Seq<char>|
                m.contains_key(k) ==> exists|i: int| 0 <= i < pairs@.len() && #[trigger] pairs@[i].0@ == k)
                && (forall|i: int, j: int|
                0 <= i < j < pairs@.len() ==> pairs@[i].0@ != pairs@[j].0@),
        },
{
    match serde_json::from_str::<HashMap<String, String>>(text) {
        Ok(m) => Some(m.into_iter().collect()),
        Err(_) => None,
    }
}

/// The value of the first pair with key `key`.
pub open spec fn pairs_lookup(pairs: Seq<(String, String)>, key: Seq<char>) -> Option<Seq<char>>
    decreases pairs.len(),
{
    if pairs.len() == 0 {
        None
    } else if pairs[0].0@ == key {
        Some(pairs[0].1@)
    } else {
        pairs_lookup(pairs.drop_first(), key)
    }
}

/// A lookup finds the value of the first pair with the key, and nothing
/// when no pair has the key.
pub proof fn law_pairs_lookup(pairs: Seq<(String, String)>, key: Seq<char>)
    ensures
        pairs_lookup(pairs, key) is None <==> (forall|i: int| 0 <= i < pairs.len() ==> pairs[i].0@ != key),
        forall|i: int|
            0 <= i < pairs.len() && pairs[i].0@ == key && (forall|j: int| 0 <= j < i ==> pairs[j].0@ != key)
                ==> pairs_lookup(pairs, key) == Some(#[trigger] pairs[i].1@),
    decreases pairs.len(),
{
    if pairs.len() > 0 {
        let rest = pairs.drop_first();
        law_pairs_lookup(rest, key);
        assert forall|i: int| 0 <= i < rest.len() implies rest[i] == pairs[i + 1] by {}
        if pairs[0].0@ != key {
            assert forall|i: int|
                0 <= i < pairs.len() && pairs[i].0@ == key && (forall|j: int| 0 <= j < i ==> pairs[j].0@ != key)
                    implies pairs_lookup(pairs, key) == Some(#[trigger] pairs[i].1@) by {
                assert(i > 0);
                assert(rest[i - 1] == pairs[i]);
                assert forall|j: int| 0 <= j < i - 1 implies rest[j].0@ != key by {
                    assert(rest[j] == pairs[j + 1]);
                }
            }
            if forall|i: int| 0 <= i < rest.len() ==> rest[i].0@ != key {
                assert forall|i: int| 0 <= i < pairs.len() implies pairs[i].0@ != key by {
                    if i > 0 {
                        assert(rest[i - 1] == pairs[i]);
                    }
                }
            }
        } else {
            assert forall|i: int|
                0 <= i < pairs.len() && pairs[i].0@ == key && (forall|j: int| 0 <= j < i ==> pairs[j].0@ != key)
                    implies pairs_lookup(pairs, key) == Some(#[trigger] pairs[i].1@) by {
                if i > 0 {
                    assert(pairs[0].0@ != key);
                }
            }
        }
    }
}

/// The value of the first pair with key `key`.
pub fn lookup<'a>(pairs: &'a Vec<(String, String)>, key: &str) -> (r: Option<&'a String>)
    ensures
        match r {
            Some(v) => pairs_lookup(pairs@, key@) == Some(v@),
            None => pairs_lookup(pairs@, key@) is None,
        },
{
    let k = String::from_str(key);
    let n = pairs.len();
    let mut i: usize = 0;
    assert(pairs@.skip(0) =~= pairs@);
    while i < n
        invariant
            n == pairs@.len(),
            i <= n,
            k@ == key@,
            pairs_lookup(pairs@, key@) == pairs_lookup(pairs@.skip(i as int), key@),
        decreases n - i,
    {
        assert(pairs@.skip(i as int).drop_first() =~= pairs@.skip(i + 1));
        if pairs[i].0 == k {
            return Some(&pairs[i].1);
        }
        i = i + 1;
    }
    None
}

/// Looking up a key among the pairs of a map, each key once, finds the
/// map's value.
proof fn lemma_lookup_distinct(pairs: Seq<(String, String)>, m: Map<Seq<char>, Seq<char>>, key: Seq<char>)
    requires
        forall|i: int|
            0 <= i < pairs.len() ==> m.contains_key(#[trigger] pairs[i].0@) && m[pairs[i].0@] == pairs[i].1@,
        forall|k: Seq<char>|
            m.contains_key(k) ==> exists|i: int| 0 <= i < pairs.len() && #[trigger] pairs[i].0@ == k,
    ensures
        pairs_lookup(pairs, key) == if m.contains_key(key) {
            Some(m[key])
        } else {
            None
        },
    decreases pairs.len(),
{
    if pairs.len() > 0 {
        if pairs[0].0@ != key {
            let rest = pairs.drop_first();
            assert forall|i: int|
                0 <= i < rest.len() implies m.contains_key(#[trigger] rest[i].0@) && m[rest[i].0@]
                == rest[i].1@ by {
                assert(rest[i] == pairs[i + 1]);
            }
            let mk = Map::new(
                |k: Seq<char>| m.contains_key(k) && exists|i: int| 0 <= i < rest.len() && #[trigger] rest[i].0@ == k,
                |k: Seq<char>| m[k],
            );
            assert forall|i: int|
                0 <= i < rest.len() implies mk.contains_key(#[trigger] rest[i].0@) && mk[rest[i].0@]
                == rest[i].1@ by {
                assert(m.contains_key(rest[i].0@));
            }
            lemma_lookup_distinct(rest, mk, key);
            if m.contains_key(key) {
                let i = choose|i: int| 0 <= i < pairs.len() && #[trigger] pairs[i].0@ == key;
                assert(i > 0);
                assert(rest[i - 1].0@ == key);
                assert(mk.contains_key(key));
            }
        } else {
            assert(m.contains_key(pairs[0].0@));
        }
    } else {
        if m.contains_key(key) {
            let i = choose|i: int| 0 <= i < pairs.len() && #[trigger] pairs[i].0@ == key;
        }
    }
}

/// An overlay's query subscribes to a gamemode: its `action` is
/// `setSubscribedGamemode` and it names a `slotId`.
pub open spec fn subscription_request(query: Map<Seq<char>, Seq<char>>) -> Option<Seq<char>> {
    if query.contains_key("action"@) && query["action"@] == "setSubscribedGamemode"@
        && query.contains_key("slotId"@) {
        Some(query["slotId"@])
    } else {
        None
    }
}

/// A query with action `setSubscribedGamemode` and a `slotId` subscribes to
/// that slot; a query without that action, or without a `slotId`,
/// subscribes to nothing.
pub proof fn law_subscription_request(query: Map<Seq<char>, Seq<char>>)
    ensures
        (query.contains_key("action"@) && query["action"@] == "setSubscribedGamemode"@
            && query.contains_key("slotId"@)) ==> subscription_request(query) == Some(
            query["slotId"@],
        ),
        !query.contains_key("action"@) ==> subscription_request(query) is None,
        !query.contains_key("slotId"@) ==> subscription_request(query) is None,
        (query.contains_key("action"@) && query["action"@] != "setSubscribedGamemode"@)
            ==> subscription_request(query) is None,
{
}

/// Applies an overlay's query, given as its pairs: `setSubscribedGamemode`
/// with a `slotId` subscribes to that gamemode; anything else is ignored.
pub fn handle_query(subscribed_gamemode_slot_id: &mut String, query: &Vec<(String, String)>)
    ensures
        (pairs_lookup(query@, "action"@) == Some("setSubscribedGamemode"@) && pairs_lookup(
            query@,
            "slotId"@,
        ) is Some) ==> Some(final(subscribed_gamemode_slot_id)@) == pairs_lookup(query@, "slotId"@),
        !(pairs_lookup(query@, "action"@) == Some("setSubscribedGamemode"@) && pairs_lookup(
            query@,
            "slotId"@,
        ) is Some) ==> *final(subscribed_gamemode_slot_id) == *old(subscribed_gamemode_slot_id),
{
    if let Some(action) = lookup(query, "action") {
        if *action == String::from_str("setSubscribedGamemode") {
            if let Some(slot_id) = lookup(query, "slotId") {
                *subscribed_gamemode_slot_id = slot_id.clone();
            }
        }
    }
}

/// Applies an overlay's text message: a JSON object of strings is handled
/// as a query; anything else is ignored.
pub fn handle_message(subscribed_gamemode_slot_id: &mut String, text: &str)
    ensures
        match json_string_map(text@) {
            Some(m) => match subscription_request(m) {
                Some(slot) => final(subscribed_gamemode_slot_id)@ == slot,
                None => *final(subscribed_gamemode_slot_id) == *old(subscribed_gamemode_slot_id),
            },
            None => *final(subscribed_gamemode_slot_id) == *old(subscribed_gamemode_slot_id),
        },
{
    if let Some(query) = parse_string_map(text) {
        proof {
            let m = json_string_map(text@).unwrap();
            lemma_lookup_distinct(query@, m, "action"@);
            lemma_lookup_distinct(query@, m, "slotId"@);
        }
        handle_query(subscribed_gamemode_slot_id, &query);
    }
}

/// A message from an overlay, as far as the bridge tells them apart.
pub enum ClientMessage {
    Text(String),
    Ping(Vec<u8>),
    Close,
    /// Reading from the overlay failed.
    Failed,
    /// Anything else (binary data, pongs).
    Other,
}

/// What the bridge does after a message from an overlay.
pub enum ClientReply {
    /// Answer a ping with these bytes.
    Pong(Vec<u8>),
    /// Stop serving this overlay.
    Disconnect,
    /// Go on.
    Continue,
}

/// Handles a message from an overlay: text is a query, a ping is answered,
/// a close or a failure ends the connection, anything else is ignored.
pub fn on_client_message(subscribed_gamemode_slot_id: &mut String, message: ClientMessage) -> (reply: ClientReply)
    ensures
        match message {
            ClientMessage::Text(text) => reply is Continue && match json_string_map(text@) {
                Some(m) => match subscription_request(m) {
                    Some(slot) => final(subscribed_gamemode_slot_id)@ == slot,
                    None => *final(subscribed_gamemode_slot_id) == *old(subscribed_gamemode_slot_id),
                },
                None => *final(subscribed_gamemode_slot_id) == *old(subscribed_gamemode_slot_id),
            },
            ClientMessage::Ping(bytes) => reply == ClientReply::Pong(bytes)
                && *final(subscribed_gamemode_slot_id) == *old(subscribed_gamemode_slot_id),
            ClientMessage::Close | ClientMessage::Failed => reply is Disconnect
                && *final(subscribed_gamemode_slot_id) == *old(subscribed_gamemode_slot_id),
            ClientMessage::Other => reply is Continue && *final(subscribed_gamemode_slot_id) == *old(
                subscribed_gamemode_slot_id,
            ),
        },
{
    match message {
        ClientMessage::Text(text) => {
            handle_message(subscribed_gamemode_slot_id, text.as_str());
            ClientReply::Continue
        },
        ClientMessage::Ping(bytes) => ClientReply::Pong(bytes),
        ClientMessage::Close => ClientReply::Disconnect,
        ClientMessage::Failed => ClientReply::Disconnect,
        ClientMessage::Other => ClientReply::Continue,
    }
}

/// What the caster did to the selected round in one frame.
#[derive(Clone, Copy, Debug, PartialEq, Eq, Structural)]
pub enum RoundEdit {
    /// Nothing.
    Unchanged,
    /// Changed its score to this.
    Changed(Round),
    /// Pressed `Delete`.
    Delete,
}

/// Applies the caster's edit of the selected round; tells whether the
/// rounds are to be sent to the camera. A selected round that is missing is
/// created with no goals; a deleted round is removed (the rounds after it
/// move up) and the selection moves to the round before, or to none.
pub fn edit_selected_round(
    rounds: &mut IndexMap<usize, Round>,
    selected_round: &mut Option<usize>,
    edit: RoundEdit,
) -> (post: bool)
    ensures
        match *old(selected_round) {
            None => !post && round_entries(*final(rounds)) == round_entries(*old(rounds))
                && *final(selected_round) == *old(selected_round),
            Some(i) => if entries_get(round_entries(*old(rounds)), i) is None {
                &&& post
                &&& round_entries(*final(rounds)) == entries_insert(
                    round_entries(*old(rounds)),
                    i,
                    Round { home: 0, away: 0 },
                )
                &&& *final(selected_round) == *old(selected_round)
            } else {
                match edit {
                    RoundEdit::Unchanged => !post && round_entries(*final(rounds)) == round_entries(
                        *old(rounds),
                    ) && *final(selected_round) == *old(selected_round),
                    RoundEdit::Changed(r) => post && round_entries(*final(rounds)) == entries_insert(
                        round_entries(*old(rounds)),
                        i,
                        r,
                    ) && *final(selected_round) == *old(selected_round),
                    RoundEdit::Delete => post && round_entries(*final(rounds)) == entries_remove(
                        round_entries(*old(rounds)),
                        i,
                    ) && *final(selected_round) == if i > 0 {
                        Some((i - 1) as usize)
                    } else {
                        None
                    },
                }
            },
        },
{
    match *selected_round {
        None => false,
        Some(i) => {
            if round_map_get(rounds, i).is_none() {
                round_map_insert(rounds, i, Round::default());
                return true;
            }
            match edit {
                RoundEdit::Unchanged => false,
                RoundEdit::Changed(r) => {
                    round_map_insert(rounds, i, r);
                    true
                },
                RoundEdit::Delete => {
                    round_map_shift_remove(rounds, i);
                    if i > 0 {
                        *selected_round = Some(i - 1);
                    } else {
                        *selected_round = None;
                    }
                    true
                },
            }
        },
    }
}

} // verus!
