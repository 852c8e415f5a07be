//! Search-mode and copy-mode key handling.

use emux::keys::{KeyCode, KeyMods, KeyPress};
use emux::modes::{
    search_key_effect, CopyModeState, CopyOutcome, SearchInput, SearchKeyEffect, Selection,
    SelectionPoint,
};

fn key(c: char) -> KeyPress {
    KeyPress::new(KeyCode::Char(c), KeyMods::empty())
}

fn ctrl(c: char) -> KeyPress {
    KeyPress::new(KeyCode::Char(c), KeyMods::control())
}

#[test]
fn search_key_effects() {
    assert_eq!(search_key_effect(&KeyPress::new(KeyCode::Esc, KeyMods::empty()), true, false), SearchKeyEffect::Leave);
    assert_eq!(search_key_effect(&KeyPress::new(KeyCode::Enter, KeyMods::empty()), false, true), SearchKeyEffect::Leave);
    assert_eq!(search_key_effect(&key('n'), false, true), SearchKeyEffect::Next);
    assert_eq!(search_key_effect(&key('n'), true, true), SearchKeyEffect::Type('n'));
    assert_eq!(search_key_effect(&key('n'), false, false), SearchKeyEffect::Type('n'));
    assert_eq!(search_key_effect(&ctrl('n'), false, true), SearchKeyEffect::Type('n'));
    let shift_n = KeyPress::new(KeyCode::Char('N'), KeyMods::shift());
    assert_eq!(search_key_effect(&shift_n, false, true), SearchKeyEffect::Previous);
    assert_eq!(search_key_effect(&key('N'), false, true), SearchKeyEffect::Type('N'));
    assert_eq!(search_key_effect(&KeyPress::new(KeyCode::Tab, KeyMods::empty()), false, true), SearchKeyEffect::Ignore);
}

#[test]
fn typing_a_query_searches_the_rows() {
    let rows = vec!["error one".to_string(), "all fine".to_string(), "ERROR two".to_string()];
    let mut input = SearchInput::new();
    for c in "err".chars() {
        assert!(!input.handle_key(&key(c), Some(&rows)));
    }
    assert_eq!(input.query, vec!['e', 'r', 'r']);
    assert!(input.direction_active);
    assert_eq!(input.state.query, "err");
    assert_eq!(input.state.matches.len(), 2);
    assert_eq!(input.state.current, Some(0));
    assert!(!input.handle_key(&key('n'), Some(&rows)));
    assert_eq!(input.state.current, Some(1));
    assert!(!input.handle_key(&key('n'), Some(&rows)));
    assert_eq!(input.state.current, Some(0));
    assert!(!input.handle_key(&KeyPress::new(KeyCode::Char('N'), KeyMods::shift()), Some(&rows)));
    assert_eq!(input.state.current, Some(1));
    // Erasing everything clears the search.
    for _ in 0..3 {
        input.handle_key(&KeyPress::new(KeyCode::Backspace, KeyMods::empty()), Some(&rows));
    }
    assert!(input.query.is_empty());
    assert!(input.state.matches.is_empty());
    assert_eq!(input.state.current, None);
    // Backspace on an empty query leaves it empty.
    input.handle_key(&KeyPress::new(KeyCode::Backspace, KeyMods::empty()), Some(&rows));
    assert!(input.query.is_empty());
    assert!(input.handle_key(&KeyPress::new(KeyCode::Esc, KeyMods::empty()), Some(&rows)));
}

#[test]
fn search_without_a_pane_keeps_the_old_result() {
    let rows = vec!["abc".to_string()];
    let mut input = SearchInput::new();
    input.handle_key(&key('b'), Some(&rows));
    assert_eq!(input.state.matches.len(), 1);
    input.handle_key(&key('z'), None);
    assert_eq!(input.query, vec!['b', 'z']);
    assert_eq!(input.state.query, "b");
    assert_eq!(input.state.matches.len(), 1);
}

#[test]
fn copy_mode_moves_within_the_pane() {
    let dims = Some((10, 20));
    let mut cm = CopyModeState::new(5, 5, 100);
    assert_eq!(cm.handle_key(&key('h'), dims), CopyOutcome::Stay);
    assert_eq!((cm.row, cm.col), (5, 4));
    cm.handle_key(&key('l'), dims);
    cm.handle_key(&KeyPress::new(KeyCode::Down, KeyMods::empty()), dims);
    assert_eq!((cm.row, cm.col), (6, 5));
    cm.handle_key(&key('$'), dims);
    assert_eq!(cm.col, 19);
    cm.handle_key(&key('l'), dims);
    assert_eq!(cm.col, 19);
    cm.handle_key(&key('0'), dims);
    assert_eq!(cm.col, 0);
    cm.handle_key(&key('h'), dims);
    assert_eq!(cm.col, 0);
    cm.handle_key(&key('G'), dims);
    assert_eq!(cm.row, 9);
    cm.handle_key(&key('j'), dims);
    assert_eq!(cm.row, 9);
    cm.handle_key(&ctrl('u'), dims);
    assert_eq!(cm.row, 4);
    cm.handle_key(&ctrl('d'), dims);
    assert_eq!(cm.row, 9);
    cm.handle_key(&key('g'), dims);
    assert_eq!(cm.row, 0);
    cm.handle_key(&key('k'), dims);
    assert_eq!(cm.row, 0);
    // 'u' and 'd' without Ctrl do nothing.
    assert_eq!(cm.handle_key(&key('d'), dims), CopyOutcome::Stay);
    assert_eq!(cm.row, 0);
    // With the pane gone, bounded moves stay put.
    cm.handle_key(&key('j'), None);
    assert_eq!(cm.row, 0);
}

#[test]
fn copy_mode_selects_and_yanks() {
    let dims = Some((10, 20));
    let mut cm = CopyModeState::new(3, 4, 50);
    assert_eq!(cm.handle_key(&key('y'), dims), CopyOutcome::Exit);
    cm.handle_key(&key('v'), dims);
    assert_eq!(cm.selection, Some(Selection::start(SelectionPoint::new(53, 4))));
    cm.handle_key(&key('k'), dims);
    cm.handle_key(&key('h'), dims);
    assert_eq!(cm.selection.unwrap().head, SelectionPoint::new(52, 3));
    assert_eq!(
        cm.handle_key(&key('y'), dims),
        CopyOutcome::Yank(SelectionPoint::new(52, 3), SelectionPoint::new(53, 4))
    );
    cm.handle_key(&key('v'), dims);
    assert_eq!(cm.selection, None);
    assert_eq!(cm.handle_key(&key('q'), dims), CopyOutcome::Exit);
    assert_eq!(cm.handle_key(&KeyPress::new(KeyCode::Esc, KeyMods::empty()), dims), CopyOutcome::Exit);
}

#[test]
fn copy_cursor_clamps_to_a_smaller_pane() {
    let mut cm = CopyModeState::new(30, 70, 0);
    cm.clamp_to(24, 80);
    assert_eq!((cm.row, cm.col), (23, 70));
    cm.clamp_to(0, 0);
    assert_eq!((cm.row, cm.col), (0, 0));
}

#[test]
fn beginning_a_search_keeps_navigation_mode() {
    let rows = vec!["abc".to_string()];
    let mut input = SearchInput::new();
    input.handle_key(&key('a'), Some(&rows));
    assert!(input.direction_active);
    input.begin();
    assert!(input.query.is_empty());
    assert!(input.state.matches.is_empty());
    assert!(input.direction_active);
}
