use caster_bridge::round_map::{rounds_from_list, rounds_to_list};
use caster_bridge::rounds::{RoundManager, RoundOverride};
use caster_bridge::session::{edit_selected_round, RoundEdit};
use caster_bridge::state::Round;
use indexmap::IndexMap;

fn r(home: i32, away: i32) -> Round {
    Round { home, away }
}

fn pairs(m: &IndexMap<usize, Round>) -> Vec<(usize, Round)> {
    m.iter().map(|(k, v)| (*k, *v)).collect()
}

#[test]
fn rounds_list_roundtrip() {
    let list = vec![r(1, 0), r(2, 3), r(0, 0)];
    let map = rounds_from_list(&list);
    assert_eq!(pairs(&map), vec![(0, r(1, 0)), (1, r(2, 3)), (2, r(0, 0))]);
    assert_eq!(rounds_to_list(&map), list);
}

#[test]
fn rounds_from_empty_list() {
    let map = rounds_from_list(&vec![]);
    assert!(map.is_empty());
    assert!(rounds_to_list(&map).is_empty());
}

#[test]
fn rounds_to_list_keeps_map_order() {
    let mut map = IndexMap::new();
    map.insert(5, r(1, 1));
    map.insert(2, r(4, 0));
    assert_eq!(rounds_to_list(&map), vec![r(1, 1), r(4, 0)]);
}

#[test]
fn new_manager_is_empty() {
    let m = RoundManager::new();
    assert_eq!(m.best_of, 0);
    let none = IndexMap::new();
    assert_eq!(m.get_total_rounds_amount(&none), 0);
    assert!(m.convert_rounds(&none).is_empty());
}

#[test]
fn add_round_numbers_archive() {
    let mut m = RoundManager::new();
    m.add_round(r(3, 1));
    m.add_round(r(0, 2));
    let current = rounds_from_list(&vec![r(5, 5)]);
    assert_eq!(m.get_total_rounds_amount(&current), 3);
    assert_eq!(
        pairs(&m.convert_rounds(&current)),
        vec![(0, r(3, 1)), (1, r(0, 2)), (2, r(5, 5))]
    );
}

#[test]
fn archive_saved_rounds_appends_them() {
    let mut m = RoundManager::new();
    m.add_round(r(1, 0));
    m.save_rounds(&rounds_from_list(&vec![r(2, 0), r(0, 3)]));
    m.archive_rounds();
    let none = IndexMap::new();
    assert_eq!(m.get_total_rounds_amount(&none), 3);
    assert_eq!(
        pairs(&m.convert_rounds(&none)),
        vec![(0, r(1, 0)), (1, r(2, 0)), (2, r(0, 3))]
    );
}

#[test]
fn archive_with_colliding_keys_replaces() {
    // Saved keys that are not numbered from 0 can land on an archived number.
    let mut m = RoundManager::new();
    m.add_round(r(1, 0));
    let mut saved = IndexMap::new();
    saved.insert(4, r(9, 9));
    m.save_rounds(&saved);
    m.archive_rounds();
    let none = IndexMap::new();
    assert_eq!(pairs(&m.convert_rounds(&none)), vec![(0, r(1, 0)), (5, r(9, 9))]);
    let mut saved = IndexMap::new();
    saved.insert(3, r(7, 7));
    m.save_rounds(&saved);
    m.archive_rounds();
    assert_eq!(pairs(&m.convert_rounds(&none)), vec![(0, r(1, 0)), (5, r(7, 7))]);
    assert_eq!(m.get_total_rounds_amount(&none), 2);
}

#[test]
fn clear_archives_drops_archive() {
    let mut m = RoundManager::new();
    m.add_round(r(1, 0));
    m.clear_archives();
    let current = rounds_from_list(&vec![r(0, 1)]);
    assert_eq!(m.get_total_rounds_amount(&current), 1);
    assert_eq!(pairs(&m.convert_rounds(&current)), vec![(0, r(0, 1))]);
}

#[test]
fn overrides_delete_and_replace() {
    let mut m = RoundManager::new();
    m.add_round(r(1, 0));
    let current = rounds_from_list(&vec![r(2, 2), r(0, 4)]);
    m.add_override(1, RoundOverride::Delete);
    m.add_override(2, RoundOverride::Replace(r(6, 1)));
    m.add_override(9, RoundOverride::Delete);
    assert_eq!(pairs(&m.convert_rounds(&current)), vec![(0, r(1, 0)), (2, r(6, 1))]);
    m.clear_overrides();
    assert_eq!(
        pairs(&m.convert_rounds(&current)),
        vec![(0, r(1, 0)), (1, r(2, 2)), (2, r(0, 4))]
    );
}

#[test]
fn later_override_wins() {
    let mut m = RoundManager::new();
    let current = rounds_from_list(&vec![r(2, 2)]);
    m.add_override(0, RoundOverride::Delete);
    m.add_override(0, RoundOverride::Replace(r(1, 1)));
    assert_eq!(pairs(&m.convert_rounds(&current)), vec![(0, r(1, 1))]);
}

#[test]
fn wiped_when_fewer_rounds_reported() {
    let mut m = RoundManager::new();
    let saved = rounds_from_list(&vec![r(1, 0), r(0, 1)]);
    m.save_rounds(&saved);
    assert!(!m.has_wiped(&saved));
    assert!(m.has_wiped(&rounds_from_list(&vec![r(1, 0)])));
    assert!(!m.has_wiped(&rounds_from_list(&vec![r(1, 0), r(0, 1), r(2, 2)])));
}

#[test]
fn winner_best_of_three() {
    let mut m = RoundManager::new();
    m.best_of = 3;
    assert!(!m.has_a_winner(&rounds_from_list(&vec![r(1, 0)])));
    assert!(m.has_a_winner(&rounds_from_list(&vec![r(1, 0), r(3, 2)])));
    assert!(!m.has_a_winner(&rounds_from_list(&vec![r(1, 0), r(2, 3)])));
    assert!(m.has_a_winner(&rounds_from_list(&vec![r(1, 0), r(2, 3), r(0, 1)])));
    assert!(!m.has_a_winner(&rounds_from_list(&vec![r(1, 1), r(2, 2), r(0, 1)])));
}

#[test]
fn winner_best_of_five_with_draws() {
    let mut m = RoundManager::new();
    m.best_of = 5;
    let rounds = rounds_from_list(&vec![r(1, 1), r(2, 0), r(3, 0), r(1, 2)]);
    assert!(!m.has_a_winner(&rounds));
    let rounds = rounds_from_list(&vec![r(1, 1), r(2, 0), r(3, 0), r(4, 2)]);
    assert!(m.has_a_winner(&rounds));
}

#[test]
fn winner_best_of_zero_always() {
    let m = RoundManager::new();
    assert!(m.has_a_winner(&IndexMap::new()));
    assert!(!m.should_archive(&IndexMap::new()));
    assert!(!m.should_archive(&rounds_from_list(&vec![r(0, 0)])));
}

#[test]
fn winner_negative_best_of() {
    let mut m = RoundManager::new();
    m.best_of = -5;
    assert!(!m.has_a_winner(&rounds_from_list(&vec![r(1, 0)])));
    m.best_of = -2;
    assert!(m.has_a_winner(&rounds_from_list(&vec![r(0, 0)])));
}

#[test]
fn should_archive_unfinished_match() {
    let mut m = RoundManager::new();
    m.best_of = 3;
    assert!(!m.should_archive(&IndexMap::new()));
    assert!(m.should_archive(&rounds_from_list(&vec![r(1, 0)])));
    assert!(!m.should_archive(&rounds_from_list(&vec![r(1, 0), r(1, 0)])));
}

#[test]
fn edit_missing_round_creates_it() {
    let mut rounds = rounds_from_list(&vec![r(1, 0)]);
    let mut selected = Some(3);
    assert!(edit_selected_round(&mut rounds, &mut selected, RoundEdit::Delete));
    assert_eq!(pairs(&rounds), vec![(0, r(1, 0)), (3, r(0, 0))]);
    assert_eq!(selected, Some(3));
}

#[test]
fn edit_without_selection_does_nothing() {
    let mut rounds = rounds_from_list(&vec![r(1, 0)]);
    let mut selected = None;
    assert!(!edit_selected_round(&mut rounds, &mut selected, RoundEdit::Changed(r(5, 5))));
    assert_eq!(pairs(&rounds), vec![(0, r(1, 0))]);
    assert_eq!(selected, None);
}

#[test]
fn edit_changes_score_in_place() {
    let mut rounds = rounds_from_list(&vec![r(1, 0), r(2, 2)]);
    let mut selected = Some(0);
    assert!(edit_selected_round(&mut rounds, &mut selected, RoundEdit::Changed(r(4, 4))));
    assert_eq!(pairs(&rounds), vec![(0, r(4, 4)), (1, r(2, 2))]);
    assert!(!edit_selected_round(&mut rounds, &mut selected, RoundEdit::Unchanged));
    assert_eq!(pairs(&rounds), vec![(0, r(4, 4)), (1, r(2, 2))]);
}

#[test]
fn edit_delete_moves_selection_back() {
    let mut rounds = rounds_from_list(&vec![r(1, 0), r(2, 2), r(3, 1)]);
    let mut selected = Some(1);
    assert!(edit_selected_round(&mut rounds, &mut selected, RoundEdit::Delete));
    assert_eq!(pairs(&rounds), vec![(0, r(1, 0)), (2, r(3, 1))]);
    assert_eq!(selected, Some(0));
    assert!(edit_selected_round(&mut rounds, &mut selected, RoundEdit::Delete));
    assert_eq!(pairs(&rounds), vec![(2, r(3, 1))]);
    assert_eq!(selected, None);
}

#[test]
fn best_of_accessors() {
    let mut m = RoundManager::new();
    assert_eq!(m.best_of(), 0);
    m.set_best_of(5);
    assert_eq!(m.best_of(), 5);
    assert_eq!(m.best_of, 5);
}

#[test]
fn fresh_manager_shows_rounds_numbered() {
    let m = RoundManager::new();
    let mut current = IndexMap::new();
    current.insert(7, r(1, 0));
    current.insert(3, r(0, 2));
    assert_eq!(m.get_total_rounds_amount(&current), 2);
    assert!(!m.has_wiped(&current));
    assert!(m.has_a_winner(&current));
    assert_eq!(pairs(&m.convert_rounds(&current)), vec![(0, r(1, 0)), (1, r(0, 2))]);
}

#[test]
fn added_rounds_keep_a_win() {
    let mut m = RoundManager::new();
    m.set_best_of(3);
    let won = vec![r(2, 0), r(3, 1)];
    assert!(m.has_a_winner(&rounds_from_list(&won)));
    let mut more = vec![r(0, 4)];
    more.extend(won.clone());
    more.push(r(0, 1));
    assert!(m.has_a_winner(&rounds_from_list(&more)));
}

#[test]
fn tied_rounds_change_nothing() {
    let mut m = RoundManager::new();
    m.set_best_of(5);
    let base = vec![r(2, 0), r(3, 1)];
    let with_ties = vec![r(1, 1), r(2, 0), r(0, 0), r(3, 1), r(4, 4)];
    assert_eq!(
        m.has_a_winner(&rounds_from_list(&base)),
        m.has_a_winner(&rounds_from_list(&with_ties))
    );
    assert!(!m.has_a_winner(&rounds_from_list(&with_ties)));
}

#[test]
fn interleaved_rounds_keep_a_win() {
    let mut m = RoundManager::new();
    m.set_best_of(3);
    assert!(m.has_a_winner(&rounds_from_list(&vec![r(2, 0), r(3, 1)])));
    assert!(m.has_a_winner(&rounds_from_list(&vec![r(0, 1), r(2, 0), r(1, 2), r(3, 1)])));
}

#[test]
fn archived_round_is_shown_last() {
    let mut m = RoundManager::new();
    m.add_round(r(1, 0));
    m.add_override(0, RoundOverride::Replace(r(9, 9)));
    let none = IndexMap::new();
    let before = pairs(&m.convert_rounds(&none));
    m.add_round(r(0, 3));
    let mut expected = before.clone();
    expected.push((1, r(0, 3)));
    assert_eq!(pairs(&m.convert_rounds(&none)), expected);
}
