//! Bookkeeping of the rounds of a match: rounds archived from earlier
//! sessions, the rounds the game currently reports, and the caster's
//! corrections (deleting or replacing a round).
use vstd::prelude::*;
use vstd::multiset::Multiset;
use std::collections::HashMap;
use indexmap::IndexMap;
use crate::state::Round;
use crate::round_map::{
    entries_get, entries_insert, key_index, keys_distinct, lemma_key_index, round_entries, round_map_clear, round_map_clone, round_map_get_index, round_map_insert,
    round_map_len, round_map_new,
};

verus! {

broadcast use vstd::std_specs::hash::group_hash_axioms;

/// A caster's correction of one round.
#[derive(Clone, Copy, Debug, PartialEq, Eq, Structural)]
pub enum RoundOverride {
    /// Leave the round out.
    Delete,
    /// Show this score in place of the reported one.
    Replace(Round),
}

/// Archived rounds, corrections, and the last rounds reported by the game.
pub struct RoundManager {
    pub best_of: i32,
    archived_rounds: IndexMap<usize, Round>,
    overrides: HashMap<usize, RoundOverride>,
    pre_converted_rounds: IndexMap<usize, Round>,
}

/// `pairs` inserted one after the other into `base`.
pub open spec fn insert_all(base: Seq<(usize, Round)>, pairs: Seq<(usize, Round)>) -> Seq<(usize, Round)>
    decreases pairs.len(),
{
    if pairs.len() == 0 {
        base
    } else {
        let rest = insert_all(base, pairs.drop_last());
        entries_insert(rest, pairs.last().0, pairs.last().1)
    }
}

/// The rounds of `rounds` renumbered by position from `offset` on.
pub open spec fn shifted_by_position(rounds: Seq<(usize, Round)>, offset: int) -> Seq<(usize, Round)> {
    Seq::new(rounds.len(), |i: int| ((offset + i) as usize, rounds[i].1))
}

/// The rounds of `rounds` with `offset` added to each key.
pub open spec fn shifted_by_key(rounds: Seq<(usize, Round)>, offset: int) -> Seq<(usize, Round)> {
    rounds.map_values(|e: (usize, Round)| ((offset + e.0) as usize, e.1))
}

/// The archived rounds followed by `rounds`, numbered on from the number of
/// archived rounds.
pub open spec fn extend_entries(archived: Seq<(usize, Round)>, rounds: Seq<(usize, Round)>) -> Seq<(usize, Round)> {
    insert_all(archived, shifted_by_position(rounds, archived.len() as int))
}

/// The rounds with the corrections applied: a deleted round is left out, a
/// replaced one takes the caster's score, the others are kept, in order.
pub open spec fn apply_overrides(all: Seq<(usize, Round)>, ov: Map<usize, RoundOverride>) -> Seq<(usize, Round)>
    decreases all.len(),
{
    if all.len() == 0 {
        Seq::empty()
    } else {
        let rest = apply_overrides(all.drop_last(), ov);
        let e = all.last();
        if ov.contains_key(e.0) {
            match ov[e.0] {
                RoundOverride::Delete => rest,
                RoundOverride::Replace(r) => rest.push((e.0, r)),
            }
        } else {
            rest.push(e)
        }
    }
}

/// What `convert_rounds` gives: the corrected rounds put into a new map.
pub open spec fn convert_entries(
    archived: Seq<(usize, Round)>,
    ov: Map<usize, RoundOverride>,
    rounds: Seq<(usize, Round)>,
) -> Seq<(usize, Round)> {
    insert_all(Seq::empty(), apply_overrides(extend_entries(archived, rounds), ov))
}

/// Rounds needed to win a best-of-`best_of` match: `(best_of + 1) / 2`,
/// rounded toward zero.
pub open spec fn wins_needed(best_of: i32) -> int {
    let x = best_of + 1;
    if x >= 0 {
        x / 2
    } else {
        -((-x) / 2)
    }
}

/// The win condition converted to `usize` as Rust's `as` does: a negative
/// value wraps around.
pub open spec fn length_threshold(w: int) -> int {
    if w >= 0 {
        w
    } else {
        usize::MAX + 1 + w
    }
}

/// Number of rounds the home team won.
pub open spec fn home_win_count(s: Seq<(usize, Round)>) -> int
    decreases s.len(),
{
    if s.len() == 0 {
        0
    } else {
        home_win_count(s.drop_last()) + if s.last().1.home > s.last().1.away {
            1int
        } else {
            0int
        }
    }
}

/// Number of rounds the away team won.
pub open spec fn away_win_count(s: Seq<(usize, Round)>) -> int
    decreases s.len(),
{
    if s.len() == 0 {
        0
    } else {
        away_win_count(s.drop_last()) + if s.last().1.away > s.last().1.home {
            1int
        } else {
            0int
        }
    }
}

/// A team has won: there are at least as many rounds as a win needs, and one
/// team won that many.
pub open spec fn has_winner(best_of: i32, s: Seq<(usize, Round)>) -> bool {
    let w = wins_needed(best_of);
    if (s.len() as int) < length_threshold(w) {
        false
    } else {
        home_win_count(s) >= w || away_win_count(s) >= w
    }
}

/// A team never won more rounds than there are.
pub proof fn lemma_wins_bounded(s: Seq<(usize, Round)>)
    ensures
        0 <= home_win_count(s) <= s.len(),
        0 <= away_win_count(s) <= s.len(),
    decreases s.len(),
{
    if s.len() > 0 {
        lemma_wins_bounded(s.drop_last());
    }
}

/// Every pair sits under its position: keys 0, 1, 2, ... in order.
pub open spec fn numbered(s: Seq<(usize, Round)>) -> bool {
    forall|i: int| 0 <= i < s.len() ==> s[i].0 == i
}

/// The keys of `s`, as a set.
pub open spec fn key_set(s: Seq<(usize, Round)>) -> Set<usize> {
    Set::new(|k: usize| exists|i: int| 0 <= i < s.len() && s[i].0 == k)
}

proof fn lemma_push_unfold(s: Seq<(usize, Round)>, e: (usize, Round), k: usize)
    ensures
        key_index(s.push(e), k) == if key_index(s, k) >= 0 {
            key_index(s, k)
        } else if e.0 == k {
            s.len() as int
        } else {
            -1
        },
{
    assert(s.push(e).drop_last() =~= s);
}

proof fn lemma_get_push(s: Seq<(usize, Round)>, x: (usize, Round))
    ensures
        forall|k: usize| #[trigger]
            entries_get(s.push(x), k) == if key_index(s, k) >= 0 {
                entries_get(s, k)
            } else if x.0 == k {
                Some(x.1)
            } else {
                None
            },
{
    assert forall|k: usize| #[trigger]
        entries_get(s.push(x), k) == if key_index(s, k) >= 0 {
            entries_get(s, k)
        } else if x.0 == k {
            Some(x.1)
        } else {
            None
        } by {
        lemma_push_unfold(s, x, k);
        lemma_key_index(s, k);
        if key_index(s, k) >= 0 {
            assert(s.push(x)[key_index(s, k)] == s[key_index(s, k)]);
        }
    }
}

proof fn lemma_insert_fresh(s: Seq<(usize, Round)>, k: usize, v: Round)
    requires
        !key_set(s).contains(k),
    ensures
        entries_insert(s, k, v) == s.push((k, v)),
{
    lemma_key_index(s, k);
    if key_index(s, k) >= 0 {
        assert(key_set(s).contains(k));
    }
}

/// Inserting one pair keeps the keys of a map distinct, and adds its key to
/// the map's keys.
pub proof fn law_insert_keeps_keys_distinct(s: Seq<(usize, Round)>, k: usize, v: Round)
    requires
        keys_distinct(s),
    ensures
        keys_distinct(entries_insert(s, k, v)),
        key_set(entries_insert(s, k, v)) == key_set(s).insert(k),
{
    lemma_key_index(s, k);
    let t = entries_insert(s, k, v);
    if key_index(s, k) >= 0 {
        let p = key_index(s, k);
        assert(forall|i: int| 0 <= i < s.len() ==> #[trigger] t[i].0 == s[i].0);
        assert(key_set(t) =~= key_set(s).insert(k)) by {
            assert forall|x: usize| key_set(t).contains(x) <==> key_set(s).insert(k).contains(x) by {
                if key_set(t).contains(x) {
                    let i = choose|i: int| 0 <= i < t.len() && t[i].0 == x;
                    assert(s[i].0 == x);
                }
                if key_set(s).contains(x) {
                    let i = choose|i: int| 0 <= i < s.len() && s[i].0 == x;
                    assert(t[i].0 == x);
                }
                if x == k {
                    assert(s[p].0 == k);
                }
            }
        }
    } else {
        assert forall|i: int, j: int| 0 <= i < j < t.len() implies t[i].0 != t[j].0 by {
            if j == s.len() {
                assert(s[i].0 != k);
            }
        }
        assert(key_set(t) =~= key_set(s).insert(k)) by {
            assert forall|x: usize| key_set(t).contains(x) <==> key_set(s).insert(k).contains(x) by {
                if key_set(t).contains(x) {
                    let i = choose|i: int| 0 <= i < t.len() && t[i].0 == x;
                    if i < s.len() {
                        assert(s[i].0 == x);
                    }
                }
                if key_set(s).contains(x) {
                    let i = choose|i: int| 0 <= i < s.len() && s[i].0 == x;
                    assert(t[i].0 == x);
                }
                if x == k {
                    assert(t[s.len() as int].0 == k);
                }
            }
        }
    }
}

/// Inserting pairs keeps the keys of a map distinct.
pub proof fn law_insert_all_keeps_keys_distinct(base: Seq<(usize, Round)>, pairs: Seq<(usize, Round)>)
    requires
        keys_distinct(base),
    ensures
        keys_distinct(insert_all(base, pairs)),
    decreases pairs.len(),
{
    if pairs.len() > 0 {
        law_insert_all_keeps_keys_distinct(base, pairs.drop_last());
        law_insert_keeps_keys_distinct(insert_all(base, pairs.drop_last()), pairs.last().0, pairs.last().1);
    }
}

/// Inserting pairs whose keys are new and distinct appends them.
proof fn lemma_insert_all_fresh(base: Seq<(usize, Round)>, pairs: Seq<(usize, Round)>)
    requires
        keys_distinct(base + pairs),
    ensures
        insert_all(base, pairs) == base + pairs,
    decreases pairs.len(),
{
    if pairs.len() > 0 {
        let front = pairs.drop_last();
        assert(base + front =~= (base + pairs).drop_last());
        assert(keys_distinct(base + front)) by {
            assert forall|i: int, j: int| 0 <= i < j < (base + front).len() implies (base + front)[i].0
                != (base + front)[j].0 by {
                assert((base + front)[i] == (base + pairs)[i]);
                assert((base + front)[j] == (base + pairs)[j]);
            }
        }
        lemma_insert_all_fresh(base, front);
        let last = pairs.last();
        assert(!key_set(base + front).contains(last.0)) by {
            if key_set(base + front).contains(last.0) {
                let i = choose|i: int| 0 <= i < (base + front).len() && (base + front)[i].0 == last.0;
                assert((base + pairs)[i] == (base + front)[i]);
                assert((base + pairs)[(base + pairs).len() - 1] == last);
            }
        }
        lemma_insert_fresh(base + front, last.0, last.1);
        assert((base + front).push(last) =~= base + pairs);
    }
}

/// A numbered sequence has distinct keys.
proof fn lemma_numbered_distinct(s: Seq<(usize, Round)>)
    requires
        numbered(s),
    ensures
        keys_distinct(s),
{
}

/// Archiving one round into contiguously numbered archives appends it under
/// the next number, and the archives stay contiguously numbered.
pub proof fn law_add_round_appends(archived: Seq<(usize, Round)>, round: Round)
    requires
        numbered(archived),
        archived.len() <= usize::MAX,
    ensures
        entries_insert(archived, archived.len() as usize, round) == archived.push(
            (archived.len() as usize, round),
        ),
        numbered(entries_insert(archived, archived.len() as usize, round)),
{
    assert(!key_set(archived).contains(archived.len() as usize)) by {
        if key_set(archived).contains(archived.len() as usize) {
            let i = choose|i: int| 0 <= i < archived.len() && archived[i].0 == archived.len() as usize;
        }
    }
    lemma_insert_fresh(archived, archived.len() as usize, round);
}

/// With contiguously numbered archives, the extended rounds are the
/// archived rounds followed by the new ones numbered on; there are exactly
/// `get_total_rounds_amount` of them.
pub proof fn law_extend_appends(archived: Seq<(usize, Round)>, rounds: Seq<(usize, Round)>)
    requires
        numbered(archived),
        archived.len() + rounds.len() <= usize::MAX,
    ensures
        extend_entries(archived, rounds) == archived + shifted_by_position(rounds, archived.len() as int),
        numbered(extend_entries(archived, rounds)),
        extend_entries(archived, rounds).len() == archived.len() + rounds.len(),
{
    let pairs = shifted_by_position(rounds, archived.len() as int);
    assert(numbered(archived + pairs));
    lemma_numbered_distinct(archived + pairs);
    lemma_insert_all_fresh(archived, pairs);
}

/// Archiving contiguously numbered saved rounds into contiguously numbered
/// archives appends them, numbered on.
pub proof fn law_archive_appends(archived: Seq<(usize, Round)>, saved: Seq<(usize, Round)>)
    requires
        numbered(archived),
        numbered(saved),
        archived.len() + saved.len() <= usize::MAX,
    ensures
        insert_all(archived, shifted_by_key(saved, archived.len() as int)) == archived
            + shifted_by_key(saved, archived.len() as int),
        numbered(insert_all(archived, shifted_by_key(saved, archived.len() as int))),
{
    let pairs = shifted_by_key(saved, archived.len() as int);
    assert(numbered(archived + pairs));
    lemma_numbered_distinct(archived + pairs);
    lemma_insert_all_fresh(archived, pairs);
}

proof fn lemma_apply_overrides_keys(all: Seq<(usize, Round)>, ov: Map<usize, RoundOverride>)
    requires
        keys_distinct(all),
    ensures
        keys_distinct(apply_overrides(all, ov)),
        key_set(apply_overrides(all, ov)).subset_of(key_set(all)),
        forall|k: usize| #[trigger]
            entries_get(apply_overrides(all, ov), k) == if ov.contains_key(k) {
                match ov[k] {
                    RoundOverride::Delete => None,
                    RoundOverride::Replace(r) => if entries_get(all, k) is Some {
                        Some(r)
                    } else {
                        None
                    },
                }
            } else {
                entries_get(all, k)
            },
    decreases all.len(),
{
    if all.len() > 0 {
        let front = all.drop_last();
        let e = all.last();
        assert(keys_distinct(front));
        lemma_apply_overrides_keys(front, ov);
        let rest = apply_overrides(front, ov);
        assert(!key_set(front).contains(e.0)) by {
            if key_set(front).contains(e.0) {
                let i = choose|i: int| 0 <= i < front.len() && front[i].0 == e.0;
                assert(all[i].0 == e.0);
            }
        }
        assert(key_set(all) =~= key_set(front).insert(e.0)) by {
            assert forall|x: usize| key_set(all).contains(x) <==> key_set(front).insert(e.0).contains(x) by {
                if key_set(all).contains(x) {
                    let i = choose|i: int| 0 <= i < all.len() && all[i].0 == x;
                    if i < front.len() {
                        assert(front[i].0 == x);
                    }
                }
                if key_set(front).contains(x) {
                    let i = choose|i: int| 0 <= i < front.len() && front[i].0 == x;
                    assert(all[i].0 == x);
                }
                if x == e.0 {
                    assert(all[all.len() - 1].0 == x);
                }
            }
        }
        assert(!key_set(rest).contains(e.0));
        assert forall|k: usize| #[trigger] entries_get(all, k) == if key_index(front, k) >= 0 {
            entries_get(front, k)
        } else if e.0 == k {
            Some(e.1)
        } else {
            None
        } by {
            assert(all =~= front.push(e));
            lemma_push_unfold(front, e, k);
            lemma_key_index(front, k);
            if key_index(front, k) >= 0 {
                assert(all[key_index(front, k)] == front[key_index(front, k)]);
            }
        }
        assert forall|k: usize| key_index(front, k) >= 0 <==> key_set(front).contains(k) by {
            lemma_key_index(front, k);
            if key_set(front).contains(k) {
                let i = choose|i: int| 0 <= i < front.len() && front[i].0 == k;
            }
        }
        assert forall|k: usize| key_index(rest, k) >= 0 <==> key_set(rest).contains(k) by {
            lemma_key_index(rest, k);
            if key_set(rest).contains(k) {
                let i = choose|i: int| 0 <= i < rest.len() && rest[i].0 == k;
            }
        }
        if ov.contains_key(e.0) {
            match ov[e.0] {
                RoundOverride::Delete => {},
                RoundOverride::Replace(r) => {
                    law_insert_keeps_keys_distinct(rest, e.0, r);
                    lemma_insert_fresh(rest, e.0, r);
                    lemma_get_push(rest, (e.0, r));
                },
            }
        } else {
            law_insert_keeps_keys_distinct(rest, e.0, e.1);
            lemma_insert_fresh(rest, e.0, e.1);
            lemma_get_push(rest, e);
        }
    }
}

/// With distinct archived keys, the shown rounds are the extended rounds with
/// the corrections applied key by key: a deleted round is absent, a replaced
/// round shows the caster's score, any other round shows what was extended;
/// and no round number appears twice.
pub proof fn law_convert_applies_overrides(
    archived: Seq<(usize, Round)>,
    ov: Map<usize, RoundOverride>,
    rounds: Seq<(usize, Round)>,
    k: usize,
)
    requires
        keys_distinct(archived),
    ensures
        keys_distinct(convert_entries(archived, ov, rounds)),
        entries_get(convert_entries(archived, ov, rounds), k) == if ov.contains_key(k) {
            match ov[k] {
                RoundOverride::Delete => None,
                RoundOverride::Replace(r) => if entries_get(extend_entries(archived, rounds), k) is Some {
                    Some(r)
                } else {
                    None
                },
            }
        } else {
            entries_get(extend_entries(archived, rounds), k)
        },
{
    let all = extend_entries(archived, rounds);
    law_insert_all_keeps_keys_distinct(archived, shifted_by_position(rounds, archived.len() as int));
    lemma_apply_overrides_keys(all, ov);
    let p = apply_overrides(all, ov);
    assert(Seq::<(usize, Round)>::empty() + p =~= p);
    lemma_insert_all_fresh(Seq::empty(), p);
}

proof fn lemma_apply_no_overrides(all: Seq<(usize, Round)>)
    ensures
        apply_overrides(all, Map::empty()) == all,
    decreases all.len(),
{
    if all.len() > 0 {
        lemma_apply_no_overrides(all.drop_last());
        assert(all.drop_last().push(all.last()) =~= all);
    }
}

/// Without corrections, the shown rounds are exactly the extended rounds.
pub proof fn law_no_overrides_shows_all(archived: Seq<(usize, Round)>, rounds: Seq<(usize, Round)>)
    requires
        keys_distinct(archived),
    ensures
        convert_entries(archived, Map::empty(), rounds) == extend_entries(archived, rounds),
{
    let all = extend_entries(archived, rounds);
    law_insert_all_keeps_keys_distinct(archived, shifted_by_position(rounds, archived.len() as int));
    lemma_apply_no_overrides(all);
    assert(Seq::<(usize, Round)>::empty() + all =~= all);
    lemma_insert_all_fresh(Seq::empty(), all);
}

/// The game's round list was reset: it reports fewer rounds than were saved.
pub open spec fn wiped(saved: Seq<(usize, Round)>, reported: Seq<(usize, Round)>) -> bool {
    reported.len() < saved.len()
}

/// The game's round list counts as reset exactly when it reports fewer rounds
/// than were saved; in particular a reset to no rounds at all, after some
/// were saved, is one.
pub proof fn law_wipe_is_fewer_rounds(saved: Seq<(usize, Round)>, reported: Seq<(usize, Round)>)
    ensures
        wiped(saved, reported) == (reported.len() < saved.len()),
        saved.len() > 0 ==> wiped(saved, Seq::empty()),
        reported.len() >= saved.len() ==> !wiped(saved, reported),
{
}

/// Rounds just saved are never reported as wiped: `has_wiped` on the rounds
/// that `save_rounds` saved gives false.
pub proof fn law_saved_rounds_not_wiped(m: RoundManager, rounds: IndexMap<usize, Round>)
    requires
        m.saved() == round_entries(rounds),
    ensures
        !wiped(m.saved(), round_entries(rounds)),
{
}

proof fn lemma_wins_concat(a: Seq<(usize, Round)>, b: Seq<(usize, Round)>)
    ensures
        home_win_count(a + b) == home_win_count(a) + home_win_count(b),
        away_win_count(a + b) == away_win_count(a) + away_win_count(b),
    decreases b.len(),
{
    if b.len() == 0 {
        assert(a + b =~= a);
    } else {
        lemma_wins_concat(a, b.drop_last());
        assert((a + b).drop_last() =~= a + b.drop_last());
        assert((a + b).last() == b.last());
    }
}

proof fn lemma_prefix_wins(s: Seq<(usize, Round)>, i: int)
    requires
        0 <= i <= s.len(),
    ensures
        home_win_count(s.take(i)) <= home_win_count(s),
        away_win_count(s.take(i)) <= away_win_count(s),
{
    lemma_wins_concat(s.take(i), s.skip(i));
    lemma_wins_bounded(s.skip(i));
    assert(s.take(i) + s.skip(i) =~= s);
}

/// A best-of-`n` match needs `(n + 1) / 2` wins for `n` of zero or more: 1
/// for a best of 1 or 2, 2 for 3 or 4, 4 for 7; for a negative `n`, Rust's
/// division rounds toward zero.
pub proof fn law_wins_needed(best_of: i32)
    ensures
        best_of >= 0 ==> wins_needed(best_of) == (best_of + 1) / 2,
        best_of >= 0 ==> 2 * wins_needed(best_of) <= best_of + 1 < 2 * wins_needed(best_of) + 2,
        best_of < 0 ==> wins_needed(best_of) == -((-(best_of + 1)) / 2),
        wins_needed(0) == 0,
        wins_needed(1) == 1,
        wins_needed(3) == 2,
        wins_needed(5) == 3,
        wins_needed(7) == 4,
{
}

/// Counting wins: no rounds, no wins; each further round adds one win to the
/// team that scored more in it, and none on a tie.
pub proof fn law_win_counts(s: Seq<(usize, Round)>, e: (usize, Round))
    ensures
        home_win_count(Seq::empty()) == 0,
        away_win_count(Seq::empty()) == 0,
        home_win_count(s.push(e)) == home_win_count(s) + if e.1.home > e.1.away {
            1int
        } else {
            0int
        },
        away_win_count(s.push(e)) == away_win_count(s) + if e.1.away > e.1.home {
            1int
        } else {
            0int
        },
{
    assert(s.push(e).drop_last() =~= s);
}

/// With a best-of `n` of zero or more, a team has won exactly when it won at
/// least `(n + 1) / 2` rounds.
pub proof fn law_winner_needs_half(best_of: i32, s: Seq<(usize, Round)>)
    requires
        0 <= best_of,
    ensures
        has_winner(best_of, s) == (home_win_count(s) >= (best_of + 1) / 2 || away_win_count(s) >= (
        best_of + 1) / 2),
{
    lemma_wins_bounded(s);
}

/// With a best-of of zero or more, a team has won exactly when it won as
/// many rounds as a win needs; the number of rounds plays no other part.
pub proof fn law_winner_by_wins(best_of: i32, s: Seq<(usize, Round)>)
    requires
        0 <= best_of,
    ensures
        has_winner(best_of, s) == (home_win_count(s) >= wins_needed(best_of) || away_win_count(s)
            >= wins_needed(best_of)),
{
    lemma_wins_bounded(s);
}

/// Adding rounds, before or after, never takes a win away.
pub proof fn law_added_rounds_keep_winner(best_of: i32, s: Seq<(usize, Round)>, t: Seq<(usize, Round)>)
    requires
        0 <= best_of,
    ensures
        has_winner(best_of, s) ==> has_winner(best_of, s + t),
        has_winner(best_of, s) ==> has_winner(best_of, t + s),
{
    law_winner_by_wins(best_of, s);
    law_winner_by_wins(best_of, s + t);
    law_winner_by_wins(best_of, t + s);
    lemma_wins_concat(s, t);
    lemma_wins_concat(t, s);
    lemma_wins_bounded(t);
}

/// A tied round, added anywhere, changes nothing about who has won.
pub proof fn law_tied_round_changes_nothing(
    best_of: i32,
    s: Seq<(usize, Round)>,
    t: Seq<(usize, Round)>,
    k: usize,
    r: Round,
)
    requires
        0 <= best_of,
        r.home == r.away,
    ensures
        has_winner(best_of, s + seq![(k, r)] + t) == has_winner(best_of, s + t),
{
    let one = seq![(k, r)];
    assert(one.drop_last() =~= Seq::<(usize, Round)>::empty());
    assert(one.last() == (k, r));
    assert(one.len() == 1);
    assert(home_win_count(one.drop_last()) == 0);
    assert(away_win_count(one.drop_last()) == 0);
    assert(home_win_count(one) == 0);
    assert(away_win_count(one) == 0);
    law_winner_by_wins(best_of, s + one + t);
    law_winner_by_wins(best_of, s + t);
    lemma_wins_concat(s + one, t);
    lemma_wins_concat(s, one);
    lemma_wins_concat(s, t);
}

/// A fresh manager (nothing archived, saved or corrected; best-of 0) shows
/// the game's rounds numbered 0, 1, 2, ..., counts exactly them, never
/// reports them wiped, and counts every round list as won.
pub proof fn law_fresh_manager(m: RoundManager, rounds: Seq<(usize, Round)>)
    requires
        m.archived() == Seq::<(usize, Round)>::empty(),
        m.overrides() == Map::<usize, RoundOverride>::empty(),
        m.saved() == Seq::<(usize, Round)>::empty(),
        m.best_of_setting() == 0,
        rounds.len() <= usize::MAX,
    ensures
        convert_entries(m.archived(), m.overrides(), rounds) == shifted_by_position(rounds, 0),
        m.archived().len() + rounds.len() == rounds.len(),
        !wiped(m.saved(), rounds),
        has_winner(m.best_of_setting(), rounds),
{
    law_no_overrides_shows_all(m.archived(), rounds);
    law_extend_appends(m.archived(), rounds);
    assert(m.archived() + shifted_by_position(rounds, 0) =~= shifted_by_position(rounds, 0));
    law_winner_by_wins(0, rounds);
    lemma_wins_bounded(rounds);
}



proof fn lemma_wins_remove(s: Seq<(usize, Round)>, i: int)
    requires
        0 <= i < s.len(),
    ensures
        home_win_count(s) == home_win_count(s.remove(i)) + if s[i].1.home > s[i].1.away {
            1int
        } else {
            0int
        },
        away_win_count(s) == away_win_count(s.remove(i)) + if s[i].1.away > s[i].1.home {
            1int
        } else {
            0int
        },
{
    let one = seq![s[i]];
    assert(one.drop_last() =~= Seq::<(usize, Round)>::empty());
    assert(one.len() == 1);
    assert(home_win_count(one.drop_last()) == 0);
    assert(away_win_count(one.drop_last()) == 0);
    lemma_wins_concat(s.take(i), one);
    lemma_wins_concat(s.take(i) + one, s.skip(i + 1));
    lemma_wins_concat(s.take(i), s.skip(i + 1));
    assert(s.take(i) + one + s.skip(i + 1) =~= s);
    assert(s.take(i) + s.skip(i + 1) =~= s.remove(i));
}

proof fn lemma_wins_sub_multiset(s: Seq<(usize, Round)>, t: Seq<(usize, Round)>)
    requires
        s.to_multiset().subset_of(t.to_multiset()),
    ensures
        home_win_count(s) <= home_win_count(t),
        away_win_count(s) <= away_win_count(t),
    decreases t.len(),
{
    broadcast use vstd::seq_lib::group_to_multiset_ensures;
    broadcast use vstd::multiset::group_multiset_axioms;

    if t.len() == 0 {
        assert(s.to_multiset() =~= Multiset::empty()) by {
            assert forall|v| s.to_multiset().count(v) == 0 by {
                assert(s.to_multiset().count(v) <= t.to_multiset().count(v));
            }
        }
        vstd::multiset::lemma_multiset_empty_len(s.to_multiset());
        assert(s.len() == 0);
    } else {
        let x = t.last();
        let t2 = t.drop_last();
        assert(t2.push(x) =~= t);
        assert(t.to_multiset() =~= t2.to_multiset().insert(x));
        lemma_wins_bounded(t2);
        if s.contains(x) {
            let i = choose|i: int| 0 <= i < s.len() && s[i] == x;
            let s2 = s.remove(i);
            assert(s2.to_multiset() =~= s.to_multiset().remove(x));
            assert forall|v| s2.to_multiset().count(v) <= t2.to_multiset().count(v) by {
                assert(s.to_multiset().count(v) <= t.to_multiset().count(v));
            }
            assert(s2.to_multiset().subset_of(t2.to_multiset()));
            lemma_wins_sub_multiset(s2, t2);
            lemma_wins_remove(s, i);
        } else {
            assert(s.to_multiset().count(x) == 0);
            assert forall|v| s.to_multiset().count(v) <= t2.to_multiset().count(v) by {
                assert(s.to_multiset().count(v) <= t.to_multiset().count(v));
            }
            assert(s.to_multiset().subset_of(t2.to_multiset()));
            lemma_wins_sub_multiset(s, t2);
        }
    }
}

/// Rounds holding every round of a won list (and others, in any order)
/// are won too: more rounds never take a win away.
pub proof fn law_more_rounds_keep_winner(best_of: i32, s: Seq<(usize, Round)>, t: Seq<(usize, Round)>)
    requires
        0 <= best_of,
        s.to_multiset().subset_of(t.to_multiset()),
    ensures
        has_winner(best_of, s) ==> has_winner(best_of, t),
{
    law_winner_by_wins(best_of, s);
    law_winner_by_wins(best_of, t);
    lemma_wins_sub_multiset(s, t);
}

/// With contiguously numbered archives and no correction for the next
/// number, archiving a round shows it last under that number: the shown
/// rounds (with no current rounds) are those shown before, followed by it.
pub proof fn law_add_round_shows_round(
    archived: Seq<(usize, Round)>,
    ov: Map<usize, RoundOverride>,
    round: Round,
)
    requires
        numbered(archived),
        archived.len() < usize::MAX,
        !ov.contains_key(archived.len() as usize),
    ensures
        convert_entries(
            entries_insert(archived, archived.len() as usize, round),
            ov,
            Seq::empty(),
        ) == convert_entries(archived, ov, Seq::empty()).push((archived.len() as usize, round)),
{
    let k = archived.len() as usize;
    law_add_round_appends(archived, round);
    let bigger = archived.push((k, round));
    law_extend_appends(archived, Seq::empty());
    law_extend_appends(bigger, Seq::empty());
    assert(archived + shifted_by_position(Seq::<(usize, Round)>::empty(), archived.len() as int)
        =~= archived);
    assert(bigger + shifted_by_position(Seq::<(usize, Round)>::empty(), bigger.len() as int)
        =~= bigger);
    assert(bigger.drop_last() =~= archived);
    let p = apply_overrides(archived, ov);
    assert(apply_overrides(bigger, ov) == p.push((k, round)));
    lemma_numbered_distinct(archived);
    lemma_apply_overrides_keys(archived, ov);
    assert(Seq::<(usize, Round)>::empty() + p =~= p);
    lemma_insert_all_fresh(Seq::empty(), p);
    assert(p.push((k, round)).drop_last() =~= p);
    assert(!key_set(p).contains(k)) by {
        if key_set(p).contains(k) {
            assert(key_set(archived).contains(k));
            let i = choose|i: int| 0 <= i < archived.len() && archived[i].0 == k;
        }
    }
    lemma_insert_fresh(p, k, round);
}

impl RoundManager {
    /// The match length setting, `best_of`.
    pub closed spec fn best_of_setting(&self) -> i32 {
        self.best_of
    }

    /// The archived rounds.
    pub closed spec fn archived(&self) -> Seq<(usize, Round)> {
        round_entries(self.archived_rounds)
    }

    /// The caster's corrections, by round number.
    pub closed spec fn overrides(&self) -> Map<usize, RoundOverride> {
        self.overrides@
    }

    /// The rounds last saved from the game.
    pub closed spec fn saved(&self) -> Seq<(usize, Round)> {
        round_entries(self.pre_converted_rounds)
    }

    /// A manager with nothing archived, saved or corrected, and `best_of` 0.
    pub fn new() -> (m: Self)
        ensures
            m.best_of_setting() == 0,
            m.archived() == Seq::<(usize, Round)>::empty(),
            keys_distinct(m.archived()),
            m.overrides() == Map::<usize, RoundOverride>::empty(),
            m.saved() == Seq::<(usize, Round)>::empty(),
    {
        Self {
            best_of: 0,
            archived_rounds: round_map_new(),
            overrides: HashMap::new(),
            pre_converted_rounds: round_map_new(),
        }
    }

    /// The match length setting.
    pub fn best_of(&self) -> (b: i32)
        ensures
            b == self.best_of_setting(),
    {
        self.best_of
    }

    /// Sets the match length; nothing else changes.
    pub fn set_best_of(&mut self, best_of: i32)
        ensures
            final(self).best_of_setting() == best_of,
            final(self).archived() == old(self).archived(),
            final(self).overrides() == old(self).overrides(),
            final(self).saved() == old(self).saved(),
    {
        self.best_of = best_of;
    }

    /// Archives one round under the next number, the number of archived
    /// rounds.
    pub fn add_round(&mut self, round: Round)
        ensures
            final(self).archived() == entries_insert(
                old(self).archived(),
                old(self).archived().len() as usize,
                round,
            ),
            keys_distinct(old(self).archived()) ==> keys_distinct(final(self).archived()),
            final(self).overrides() == old(self).overrides(),
            final(self).saved() == old(self).saved(),
            final(self).best_of_setting() == old(self).best_of_setting(),
    {
        let index = round_map_len(&self.archived_rounds);
        proof {
            if keys_distinct(self.archived()) {
                law_insert_keeps_keys_distinct(self.archived(), index, round);
            }
        }
        round_map_insert(&mut self.archived_rounds, index, round);
    }

    /// Records a correction for round `index`, in place of any earlier one.
    pub fn add_override(&mut self, index: usize, round_override: RoundOverride)
        ensures
            final(self).overrides() == old(self).overrides().insert(index, round_override),
            final(self).archived() == old(self).archived(),
            final(self).saved() == old(self).saved(),
            final(self).best_of_setting() == old(self).best_of_setting(),
    {
        self.overrides.insert(index, round_override);
    }

    /// Drops every correction.
    pub fn clear_overrides(&mut self)
        ensures
            final(self).overrides() == Map::<usize, RoundOverride>::empty(),
            final(self).archived() == old(self).archived(),
            final(self).saved() == old(self).saved(),
            final(self).best_of_setting() == old(self).best_of_setting(),
    {
        self.overrides.clear();
    }

    /// Archives the saved rounds: each goes in under its own number plus the
    /// number of rounds archived before.
    pub fn archive_rounds(&mut self)
        requires
            forall|i: int|
                0 <= i < old(self).saved().len() ==> old(self).archived().len() + old(
                    self,
                ).saved()[i].0 <= usize::MAX,
        ensures
            final(self).archived() == insert_all(
                old(self).archived(),
                shifted_by_key(old(self).saved(), old(self).archived().len() as int),
            ),
            keys_distinct(old(self).archived()) ==> keys_distinct(final(self).archived()),
            final(self).overrides() == old(self).overrides(),
            final(self).saved() == old(self).saved(),
            final(self).best_of_setting() == old(self).best_of_setting(),
    {
        let offset = round_map_len(&self.archived_rounds);
        let n = round_map_len(&self.pre_converted_rounds);
        let ghost base = self.archived();
        let ghost saved = self.saved();
        let ghost pairs = shifted_by_key(saved, offset as int);
        let mut i: usize = 0;
        while i < n
            invariant
                n == saved.len(),
                i <= n,
                offset == base.len(),
                saved == self.saved(),
                pairs == shifted_by_key(saved, offset as int),
                forall|j: int| 0 <= j < saved.len() ==> offset + saved[j].0 <= usize::MAX,
                self.archived() == insert_all(base, pairs.take(i as int)),
                self.overrides() == old(self).overrides(),
                self.best_of == old(self).best_of,
            decreases n - i,
        {
            let e = round_map_get_index(&self.pre_converted_rounds, i);
            match e {
                Some((key, round)) => {
                    round_map_insert(&mut self.archived_rounds, offset + key, round);
                },
                None => {},
            }
            assert(pairs.take(i + 1).drop_last() =~= pairs.take(i as int));
            i = i + 1;
        }
        assert(pairs.take(n as int) =~= pairs);
        proof {
            if keys_distinct(base) {
                law_insert_all_keeps_keys_distinct(base, pairs);
            }
        }
    }

    /// Drops every archived round.
    pub fn clear_archives(&mut self)
        ensures
            final(self).archived() == Seq::<(usize, Round)>::empty(),
            keys_distinct(final(self).archived()),
            final(self).overrides() == old(self).overrides(),
            final(self).saved() == old(self).saved(),
            final(self).best_of_setting() == old(self).best_of_setting(),
    {
        round_map_clear(&mut self.archived_rounds);
    }

    /// The archived rounds followed by `rounds`, numbered on from the number
    /// of archived rounds.
    fn extend_archived_rounds(&self, rounds: &IndexMap<usize, Round>) -> (r: IndexMap<usize, Round>)
        requires
            self.archived().len() + round_entries(*rounds).len() <= usize::MAX,
        ensures
            round_entries(r) == extend_entries(self.archived(), round_entries(*rounds)),
    {
        let mut extended = round_map_clone(&self.archived_rounds);
        let offset = round_map_len(&extended);
        let n = round_map_len(rounds);
        let ghost base = self.archived();
        let ghost pairs = shifted_by_position(round_entries(*rounds), offset as int);
        let mut i: usize = 0;
        while i < n
            invariant
                n == round_entries(*rounds).len(),
                i <= n,
                offset == base.len(),
                offset + n <= usize::MAX,
                base == self.archived(),
                pairs == shifted_by_position(round_entries(*rounds), offset as int),
                round_entries(extended) == insert_all(base, pairs.take(i as int)),
            decreases n - i,
        {
            let e = round_map_get_index(rounds, i);
            match e {
                Some((_, round)) => {
                    round_map_insert(&mut extended, offset + i, round);
                },
                None => {},
            }
            assert(pairs.take(i + 1).drop_last() =~= pairs.take(i as int));
            i = i + 1;
        }
        assert(pairs.take(n as int) =~= pairs);
        extended
    }

    /// Saves the rounds the game reports, for a later `archive_rounds`.
    pub fn save_rounds(&mut self, rounds: &IndexMap<usize, Round>)
        ensures
            final(self).saved() == round_entries(*rounds),
            final(self).archived() == old(self).archived(),
            final(self).overrides() == old(self).overrides(),
            final(self).best_of_setting() == old(self).best_of_setting(),
    {
        self.pre_converted_rounds = round_map_clone(rounds);
    }

    /// The rounds to show: the archived rounds followed by `rounds`, with the
    /// caster's corrections applied.
    pub fn convert_rounds(&self, rounds: &IndexMap<usize, Round>) -> (r: IndexMap<usize, Round>)
        requires
            self.archived().len() + round_entries(*rounds).len() <= usize::MAX,
        ensures
            round_entries(r) == convert_entries(self.archived(), self.overrides(), round_entries(*rounds)),
    {
        let mut converted = round_map_new();
        let all = self.extend_archived_rounds(rounds);
        let n = round_map_len(&all);
        let ghost pairs = apply_overrides(round_entries(all), self.overrides());
        let mut i: usize = 0;
        while i < n
            invariant
                n == round_entries(all).len(),
                i <= n,
                round_entries(converted) == insert_all(
                    Seq::empty(),
                    apply_overrides(round_entries(all).take(i as int), self.overrides()),
                ),
            decreases n - i,
        {
            let ghost prefix = round_entries(all).take(i as int);
            let ghost next = round_entries(all).take(i + 1);
            assert(next.drop_last() =~= prefix);
            let e = round_map_get_index(&all, i);
            match e {
                Some((key, round)) => {
                    match self.overrides.get(&key) {
                        Some(round_override) => {
                            match round_override {
                                RoundOverride::Delete => {},
                                RoundOverride::Replace(override_round) => {
                                    let ghost rest = apply_overrides(prefix, self.overrides());
                                    assert(rest.push((key, *override_round)).drop_last() =~= rest);
                                    round_map_insert(&mut converted, key, *override_round);
                                },
                            }
                        },
                        None => {
                            let ghost rest = apply_overrides(prefix, self.overrides());
                            assert(rest.push((key, round)).drop_last() =~= rest);
                            round_map_insert(&mut converted, key, round);
                        },
                    }
                },
                None => {},
            }
            i = i + 1;
        }
        assert(round_entries(all).take(n as int) =~= round_entries(all));
        converted
    }

    /// Number of archived rounds plus number of rounds in `rounds`.
    pub fn get_total_rounds_amount(&self, rounds: &IndexMap<usize, Round>) -> (n: usize)
        requires
            self.archived().len() + round_entries(*rounds).len() <= usize::MAX,
        ensures
            n == self.archived().len() + round_entries(*rounds).len(),
    {
        round_map_len(&self.archived_rounds) + round_map_len(rounds)
    }

    /// The game reports fewer rounds than were last saved: its round list
    /// was reset.
    pub fn has_wiped(&self, new_rounds: &IndexMap<usize, Round>) -> (b: bool)
        ensures
            b == wiped(self.saved(), round_entries(*new_rounds)),
    {
        round_map_len(new_rounds) < round_map_len(&self.pre_converted_rounds)
    }

    /// The rounds should be archived: there are some, and no team has won
    /// yet.
    pub fn should_archive(&self, rounds: &IndexMap<usize, Round>) -> (b: bool)
        requires
            self.best_of_setting() < i32::MAX,
            home_win_count(round_entries(*rounds)) <= i32::MAX,
            away_win_count(round_entries(*rounds)) <= i32::MAX,
        ensures
            b == (round_entries(*rounds).len() > 0 && !has_winner(self.best_of_setting(), round_entries(*rounds))),
    {
        if round_map_len(rounds) == 0 {
            return false;
        }
        !self.has_a_winner(rounds)
    }

    /// A team has won the match: there are at least `(best_of + 1) / 2`
    /// rounds (the bound converted to `usize`), and one team won that many.
    pub fn has_a_winner(&self, rounds: &IndexMap<usize, Round>) -> (b: bool)
        requires
            self.best_of_setting() < i32::MAX,
            home_win_count(round_entries(*rounds)) <= i32::MAX,
            away_win_count(round_entries(*rounds)) <= i32::MAX,
        ensures
            b == has_winner(self.best_of_setting(), round_entries(*rounds)),
    {
        let win_condition: i32 = (self.best_of + 1) / 2;
        assert(win_condition == wins_needed(self.best_of));
        let len = round_map_len(rounds);
        let too_few = if win_condition >= 0 {
            len < win_condition as usize
        } else {
            let missing: usize = (0i64 - win_condition as i64) as usize;
            len <= usize::MAX - missing
        };
        if too_few {
            return false;
        }
        let ghost s = round_entries(*rounds);
        let mut home_wins: i32 = 0;
        let mut away_wins: i32 = 0;
        let mut i: usize = 0;
        while i < len
            invariant
                len == s.len(),
                home_win_count(s) <= i32::MAX,
                away_win_count(s) <= i32::MAX,
                s == round_entries(*rounds),
                i <= len,
                home_wins == home_win_count(s.take(i as int)),
                away_wins == away_win_count(s.take(i as int)),
            decreases len - i,
        {
            proof {
                assert(s.take(i + 1).drop_last() =~= s.take(i as int));
                lemma_prefix_wins(s, i + 1);
            }
            let e = round_map_get_index(rounds, i);
            match e {
                Some((_, round)) => {
                    if round.home > round.away {
                        home_wins += 1;
                    } else if round.away > round.home {
                        away_wins += 1;
                    }
                },
                None => {},
            }
            i = i + 1;
        }
        assert(s.take(len as int) =~= s);
        home_wins >= win_condition || away_wins >= win_condition
    }
}

} // verus!
