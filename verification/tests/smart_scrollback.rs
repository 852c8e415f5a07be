//! Smart scrollback search: forward/backward through scrollback and
//! on-screen content, with match highlighting and navigation.

use emux::screen::Screen;

/// Helper: write a string to the screen character by character.
fn write_str(screen: &mut Screen, s: &str) {
    for c in s.chars() {
        if c == '\n' {
            screen.carriage_return();
            screen.linefeed();
        } else {
            screen.write_char(c);
        }
    }
}

/// Helper: create a screen and fill it with lines that overflow into scrollback.
fn setup_screen_with_scrollback() -> Screen {
    let mut screen = Screen::new(40, 5);
    // Write 10 lines so that the first 5 go into scrollback
    for i in 0..10 {
        write_str(&mut screen, &format!("line {i}: hello world"));
        if i < 9 {
            screen.carriage_return();
            screen.linefeed();
        }
    }
    screen
}

#[test]
fn search_forward_finds_first_match() {
    let mut screen = setup_screen_with_scrollback();
    let matches = screen.search_forward("hello", false);
    assert!(!matches.is_empty(), "should find at least one match");

    let current = screen.current_match().expect("should have a current match");
    let sb_len = screen.grid.scrollback_len();
    assert!(current.row >= sb_len, "current match should be in viewport");
    assert_eq!(current.col, 8); // "line N: " is 8 chars, then "hello"
}

#[test]
fn search_backward_finds_previous_match() {
    let mut screen = setup_screen_with_scrollback();
    let matches = screen.search_backward("hello", false);
    assert!(!matches.is_empty());

    let current = screen.current_match().expect("should have a current match");
    let sb_len = screen.grid.scrollback_len();
    assert!(current.row < sb_len, "current match should be in scrollback");
}

#[test]
fn search_no_match_returns_none() {
    let mut screen = setup_screen_with_scrollback();
    let matches = screen.search_forward("zzz_nonexistent", false);
    assert!(matches.is_empty());
    assert!(screen.current_match().is_none());
}

#[test]
fn search_wraps_around_forward() {
    let mut screen = setup_screen_with_scrollback();
    let matches = screen.search_forward("hello", false);
    let total = matches.len();
    assert!(total >= 2);

    let initial_idx = screen.search_state().as_ref().unwrap().current.unwrap();
    for _ in 0..total {
        screen.search_next();
    }
    let idx = screen.search_state().as_ref().unwrap().current.unwrap();
    assert_eq!(idx, initial_idx, "should wrap back to the starting index");
}

#[test]
fn search_wraps_around_backward() {
    let mut screen = setup_screen_with_scrollback();
    screen.search_forward("hello", false);
    let state = screen.search_state().as_ref().unwrap();
    let total = state.matches.len();

    let first = screen.search_state().as_ref().unwrap().matches[0].clone();
    while screen.current_match().unwrap() != &first {
        screen.search_next();
    }
    let prev = screen.search_prev().cloned().unwrap();
    let last_match = &screen.search_state().as_ref().unwrap().matches[total - 1];
    assert_eq!(&prev, last_match, "backward from first should wrap to last");
}

#[test]
fn search_case_insensitive() {
    let mut screen = Screen::new(40, 5);
    write_str(&mut screen, "error on line 1");
    screen.carriage_return();
    screen.linefeed();
    write_str(&mut screen, "ERROR on line 2");
    screen.carriage_return();
    screen.linefeed();
    write_str(&mut screen, "Error on line 3");

    let matches = screen.search_forward("Error", false);
    assert_eq!(matches.len(), 3, "case-insensitive should find all 3 variants");
}

#[test]
fn search_case_sensitive() {
    let mut screen = Screen::new(40, 5);
    write_str(&mut screen, "error on line 1");
    screen.carriage_return();
    screen.linefeed();
    write_str(&mut screen, "ERROR on line 2");
    screen.carriage_return();
    screen.linefeed();
    write_str(&mut screen, "Error on line 3");

    let matches = screen.search_forward("Error", true);
    assert_eq!(matches.len(), 1, "case-sensitive should find only exact match");
    assert_eq!(matches[0].row, 2);
    assert_eq!(matches[0].col, 0);
}

#[test]
fn search_highlights_all_visible_matches() {
    let mut screen = Screen::new(40, 5);
    write_str(&mut screen, "hello world");
    screen.carriage_return();
    screen.linefeed();
    write_str(&mut screen, "hello again");
    screen.carriage_return();
    screen.linefeed();
    write_str(&mut screen, "goodbye");

    screen.search_forward("hello", false);
    let visible = screen.visible_matches();
    assert_eq!(visible.len(), 2, "both hello matches should be visible");
}

#[test]
fn search_highlights_current_match_distinctly() {
    let mut screen = Screen::new(40, 5);
    write_str(&mut screen, "aaa bbb aaa");
    screen.carriage_return();
    screen.linefeed();
    write_str(&mut screen, "aaa ccc");

    screen.search_forward("aaa", false);
    let state = screen.search_state().as_ref().unwrap();
    let current_idx = state.current.unwrap();

    assert!(current_idx < state.matches.len());
    let _ = screen.search_next();
    let new_idx = screen.search_state().as_ref().unwrap().current.unwrap();
    assert_ne!(current_idx, new_idx, "current match index should change on navigation");
}

#[test]
fn navigate_next_match() {
    let mut screen = setup_screen_with_scrollback();
    screen.search_forward("hello", false);
    let first = screen.current_match().cloned().unwrap();
    let next = screen.search_next().cloned().unwrap();
    assert_ne!(first, next, "next match should differ from first");
    let state = screen.search_state().as_ref().unwrap();
    let first_idx = state.matches.iter().position(|m| m == &first).unwrap();
    let next_idx = state.matches.iter().position(|m| m == &next).unwrap();
    assert_eq!(next_idx, first_idx + 1);
}

#[test]
fn navigate_prev_match() {
    let mut screen = setup_screen_with_scrollback();
    screen.search_forward("hello", false);
    let _ = screen.search_next();
    let second = screen.current_match().cloned().unwrap();
    let _ = screen.search_next();
    let prev = screen.search_prev().cloned().unwrap();
    assert_eq!(prev, second, "prev should go back to second match");
}

#[test]
fn search_across_screen_and_scrollback_boundary() {
    let mut screen = setup_screen_with_scrollback();
    let matches = screen.search_forward("hello", false);
    let sb_len = screen.grid.scrollback_len();

    let in_scrollback = matches.iter().any(|m| m.row < sb_len);
    let in_viewport = matches.iter().any(|m| m.row >= sb_len);
    assert!(in_scrollback, "should find matches in scrollback");
    assert!(in_viewport, "should find matches in viewport");
}

#[test]
fn clear_search_removes_highlights() {
    let mut screen = setup_screen_with_scrollback();
    screen.search_forward("hello", false);
    assert!(screen.current_match().is_some());

    screen.clear_search();
    assert!(screen.current_match().is_none());
    assert!(screen.search_state().is_none());
    assert!(screen.visible_matches().is_empty());
}

#[test]
fn search_performance_large_scrollback() {
    let mut screen = Screen::new(80, 24);
    for i in 0..100_000 {
        write_str(&mut screen, &format!("log line {i}: some data here"));
        screen.carriage_return();
        screen.linefeed();
    }

    let start = std::time::Instant::now();
    let matches = screen.search_forward("some data", false);
    let elapsed = start.elapsed();

    assert!(!matches.is_empty(), "should find matches");
    assert!(
        elapsed.as_millis() < 5000,
        "search took too long: {:?}",
        elapsed
    );
}

#[test]
fn search_regex_pattern() {
    // Searching with regex r"\d{4}-\d{2}-\d{2}" should match date-like
    // strings such as "2026-03-18".
    let mut screen = Screen::new(40, 5);
    write_str(&mut screen, "today is 2026-03-18 ok");
    screen.carriage_return();
    screen.linefeed();
    write_str(&mut screen, "no date here");
    screen.carriage_return();
    screen.linefeed();
    write_str(&mut screen, "another 2025-12-01 date");

    let matches = screen.search_regex(r"\d{4}-\d{2}-\d{2}", true).unwrap();
    assert_eq!(matches.len(), 2);
    assert_eq!(matches[0].col, 9); // "today is " = 9 chars
    assert_eq!(matches[0].len, 10); // "2026-03-18" = 10 chars
}

#[test]
fn search_invalid_regex_returns_error() {
    // An invalid regex like "[unclosed" should return an error rather than
    // panic.
    let mut screen = Screen::new(40, 5);
    write_str(&mut screen, "some text");
    let result = screen.search_regex("[unclosed", true);
    assert!(result.is_err());
}

#[test]
fn search_regex_counts_columns_in_characters() {
    let mut screen = Screen::new(40, 5);
    write_str(&mut screen, "héllo wörld 42");
    let matches = screen.search_regex(r"\d+", true).unwrap();
    assert_eq!(matches.len(), 1);
    assert_eq!(matches[0].row, 0);
    assert_eq!(matches[0].col, 12);
    assert_eq!(matches[0].len, 2);
    let words = screen.search_regex("W\\w+", false).unwrap();
    assert_eq!(words.len(), 1);
    assert_eq!(words[0].col, 6);
    assert_eq!(words[0].len, 5);
    let none = screen.search_regex("W\\w+", true).unwrap();
    assert!(none.is_empty());
    let state = screen.search_state().as_ref().unwrap();
    assert!(state.regex);
    assert_eq!(state.query, "W\\w+");
}
