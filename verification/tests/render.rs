//! Damage tracking, the renderer, and the bottom bar text.

use emux::render::{DamageTracker, Renderer};
use emux::statusbar::{fit_bar, search_bar_text, status_bar_text};

fn text(v: Vec<char>) -> String {
    v.into_iter().collect()
}

#[test]
fn damage_tracker_marks_and_clears_rows() {
    let mut d = DamageTracker::new(3);
    assert_eq!(d.rows(), 3);
    assert_eq!(d.dirty_rows(), vec![0, 1, 2]);
    d.clear();
    assert!(!d.needs_redraw());
    assert!(d.dirty_rows().is_empty());
    d.mark_row(1);
    d.mark_row(7);
    assert!(d.needs_redraw());
    assert!(d.is_dirty(1));
    assert!(!d.is_dirty(0));
    assert!(!d.is_dirty(7));
    assert_eq!(d.dirty_rows(), vec![1]);
    d.mark_all();
    assert_eq!(d.dirty_rows(), vec![0, 1, 2]);
    d.resize(5);
    assert_eq!(d.dirty_rows(), vec![0, 1, 2, 3, 4]);
}

#[test]
fn renderer_redraws_after_force_and_resize() {
    let mut r = Renderer::new(80, 3);
    assert_eq!(r.rows_to_draw(80, 3), vec![0, 1, 2]);
    r.finish_frame();
    assert!(r.rows_to_draw(80, 3).is_empty());
    r.force_redraw();
    assert_eq!(r.rows_to_draw(80, 3), vec![0, 1, 2]);
    r.finish_frame();
    // A new size means a full redraw of the new rows.
    assert_eq!(r.rows_to_draw(80, 2), vec![0, 1]);
    r.finish_frame();
    r.resize(10, 4);
    assert_eq!(r.rows_to_draw(10, 4), vec![0, 1, 2, 3]);
}

#[test]
fn fit_bar_pads_or_cuts() {
    let l: Vec<char> = "ab".chars().collect();
    let r: Vec<char> = "cd".chars().collect();
    assert_eq!(text(fit_bar(&l, &r, 6)), "ab  cd");
    assert_eq!(text(fit_bar(&l, &r, 4)), "abcd");
    assert_eq!(text(fit_bar(&l, &r, 3)), "ab ");
    assert_eq!(text(fit_bar(&l, &r, 1)), "a");
    // Widths count UTF-8 bytes: 'é' takes two.
    let e: Vec<char> = "é".chars().collect();
    assert_eq!(text(fit_bar(&e, &r, 5)), "é cd");
    assert_eq!(text(fit_bar(&e, &r, 3)), "é ");
    assert_eq!(text(fit_bar(&e, &r, 2)), "é");
}

#[test]
fn status_bar_lists_tabs_and_panes() {
    let tabs = vec!["Tab 0".to_string(), "Tab 1".to_string()];
    let bar = text(status_bar_text("main", &tabs, 1, 2, 60));
    let left = " [main] Tab 0 | Tab 1* ";
    let right = "2 panes | emux 0.1.0 ";
    assert_eq!(bar, format!("{}{}{}", left, " ".repeat(60 - left.len() - right.len()), right));
    let one = text(status_bar_text("s", &["t".to_string()], 0, 1, 10));
    // Both parts do not fit: the left one is padded to the width.
    assert_eq!(one, " [s] t*   ");
    assert_eq!(one.len(), 10);
    let wide = text(status_bar_text("s", &["t".to_string()], 0, 1, 40));
    assert_eq!(wide, format!(" [s] t* {}1 pane | emux 0.1.0 ", " ".repeat(40 - 8 - 20)));
    let cut = text(status_bar_text("main", &tabs, 0, 2, 5));
    assert_eq!(cut, " [mai");
}

#[test]
fn search_bar_shows_query_and_counts() {
    let empty = text(search_bar_text(&[], None, 0, 40));
    assert_eq!(empty, " /_ ".to_string() + &" ".repeat(40 - 4 - 31) + " type to search, Esc to cancel ");
    let q: Vec<char> = "err".chars().collect();
    let bar = text(search_bar_text(&q, Some(1), 5, 30));
    assert_eq!(bar, " /err_ ".to_string() + &" ".repeat(30 - 7 - 13) + " 2/5 matches ");
    let none = text(search_bar_text(&q, None, 0, 30));
    assert!(none.ends_with(" 0/0 matches "));
}

#[test]
fn pane_regions_redraw_dirty_rows_or_all() {
    let mut d = DamageTracker::new(4);
    d.clear();
    d.mark_row(2);
    assert_eq!(emux::render::region_rows_to_draw(&d, 4, false), vec![2]);
    assert_eq!(emux::render::region_rows_to_draw(&d, 2, false), Vec::<usize>::new());
    assert_eq!(emux::render::region_rows_to_draw(&d, 3, true), vec![0, 1, 2]);
}
