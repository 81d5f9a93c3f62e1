//! The players of a team as the overlay lists them, with their statistics,
//! in an `indexmap::IndexMap` keyed by player name.
use vstd::prelude::*;
use vstd::string::StringExecFns;
use indexmap::IndexMap;
use crate::round_map::{entries_insert, key_index, lemma_key_index};
use crate::state::Stats;

verus! {

/// The name-statistics pairs that a map of players holds, in the map's order.
pub uninterp spec fn player_entries(m: IndexMap<String, Stats>) -> Seq<(Seq<char>, Stats)>;

/// `IndexMap::new`: a map with no players.
#[verifier::external_body]
fn player_map_new() -> (m: IndexMap<String, Stats>)
    ensures
        player_entries(m) == Seq::<(Seq<char>, Stats)>::empty(),
{
    IndexMap::new()
}

/// `IndexMap::insert`: an existing name keeps its place and takes the new
/// statistics; a new name goes last.
#[verifier::external_body]
fn player_map_insert(m: &mut IndexMap<String, Stats>, name: String, stats: Stats)
    ensures
        player_entries(*final(m)) == entries_insert(player_entries(*old(m)), name@, stats),
{
    m.insert(name, stats);
}

/// `IndexMap::len`: the number of players.
#[verifier::external_body]
fn player_map_len(m: &IndexMap<String, Stats>) -> (n: usize)
    ensures
        n == player_entries(*m).len(),
{
    m.len()
}

/// `IndexMap::get_index`: the name at a position, cloned.
#[verifier::external_body]
fn player_map_name(m: &IndexMap<String, Stats>, i: usize) -> (r: Option<String>)
    ensures
        i < player_entries(*m).len() ==> r is Some && r.unwrap()@ == player_entries(*m)[i as int].0,
        i >= player_entries(*m).len() ==> r is None,
{
    match m.get_index(i) {
        Some((k, _)) => Some(k.clone()),
        None => None,
    }
}

/// A team's players as the overlay lists them.
pub struct OverlayTeam {
    pub players: IndexMap<String, Stats>,
}

/// Four players with no goals, saves or assists, in order.
pub open spec fn fresh_players(a: Seq<char>, b: Seq<char>, c: Seq<char>, d: Seq<char>) -> Seq<(Seq<char>, Stats)> {
    let z = Stats { goals: 0, saves: 0, assists: 0 };
    seq![(a, z), (b, z), (c, z), (d, z)]
}

fn four_players(a: &str, b: &str, c: &str, d: &str) -> (m: IndexMap<String, Stats>)
    requires
        a@ != b@ && a@ != c@ && a@ != d@ && b@ != c@ && b@ != d@ && c@ != d@,
    ensures
        player_entries(m) == fresh_players(a@, b@, c@, d@),
{
    let mut m = player_map_new();
    let ghost z = Stats { goals: 0, saves: 0, assists: 0 };
    player_map_insert(&mut m, String::from_str(a), Stats::default());
    assert(player_entries(m) =~= seq![(a@, z)]);
    proof {
        lemma_key_index(player_entries(m), b@);
    }
    player_map_insert(&mut m, String::from_str(b), Stats::default());
    assert(player_entries(m) =~= seq![(a@, z), (b@, z)]);
    proof {
        lemma_key_index(player_entries(m), c@);
    }
    player_map_insert(&mut m, String::from_str(c), Stats::default());
    assert(player_entries(m) =~= seq![(a@, z), (b@, z), (c@, z)]);
    proof {
        lemma_key_index(player_entries(m), d@);
    }
    player_map_insert(&mut m, String::from_str(d), Stats::default());
    assert(player_entries(m) =~= fresh_players(a@, b@, c@, d@));
    m
}

impl OverlayTeam {
    /// The home team the overlay shows before the game reports one:
    /// `Player1` to `Player4`, without statistics.
    pub fn home_team() -> (t: Self)
        ensures
            player_entries(t.players) == fresh_players("Player1"@, "Player2"@, "Player3"@, "Player4"@),
    {
        proof {
            reveal_strlit("Player1");
            reveal_strlit("Player2");
            reveal_strlit("Player3");
            reveal_strlit("Player4");
            assert("Player1"@[6] != "Player2"@[6]);
            assert("Player1"@[6] != "Player3"@[6]);
            assert("Player1"@[6] != "Player4"@[6]);
            assert("Player2"@[6] != "Player3"@[6]);
            assert("Player2"@[6] != "Player4"@[6]);
            assert("Player3"@[6] != "Player4"@[6]);
        }
        OverlayTeam { players: four_players("Player1", "Player2", "Player3", "Player4") }
    }

    /// The away team the overlay shows before the game reports one:
    /// `PlayerWithLongNameAsh` and `Player6` to `Player8`, without
    /// statistics.
    pub fn away_team() -> (t: Self)
        ensures
            player_entries(t.players) == fresh_players(
                "PlayerWithLongNameAsh"@,
                "Player6"@,
                "Player7"@,
                "Player8"@,
            ),
    {
        proof {
            reveal_strlit("PlayerWithLongNameAsh");
            reveal_strlit("Player6");
            reveal_strlit("Player7");
            reveal_strlit("Player8");
            assert("PlayerWithLongNameAsh"@.len() != "Player6"@.len());
            assert("PlayerWithLongNameAsh"@.len() != "Player7"@.len());
            assert("PlayerWithLongNameAsh"@.len() != "Player8"@.len());
            assert("Player6"@[6] != "Player7"@[6]);
            assert("Player6"@[6] != "Player8"@[6]);
            assert("Player7"@[6] != "Player8"@[6]);
        }
        OverlayTeam {
            players: four_players("PlayerWithLongNameAsh", "Player6", "Player7", "Player8"),
        }
    }

    /// A team without players, as the game reports an empty team.
    pub fn without_players() -> (t: Self)
        ensures
            player_entries(t.players) == Seq::<(Seq<char>, Stats)>::empty(),
    {
        OverlayTeam { players: player_map_new() }
    }

    /// The names of the players, in the team's order.
    pub fn player_names(&self) -> (names: Vec<String>)
        ensures
            names@.len() == player_entries(self.players).len(),
            forall|i: int| 0 <= i < names@.len() ==> #[trigger] names@[i]@ == player_entries(self.players)[i].0,
    {
        let n = player_map_len(&self.players);
        let mut names: Vec<String> = Vec::new();
        let mut i: usize = 0;
        while i < n
            invariant
                n == player_entries(self.players).len(),
                i <= n,
                names@.len() == i,
                forall|j: int| 0 <= j < i ==> #[trigger] names@[j]@ == player_entries(self.players)[j].0,
            decreases n - i,
        {
            match player_map_name(&self.players, i) {
                Some(name) => names.push(name),
                None => {},
            }
            i = i + 1;
        }
        names
    }
}

} // verus!
