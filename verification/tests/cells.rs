//! Cell styles and row rendering, and event-loop timing.

use emux::cells::{cell_style, plain, render_row, Cell, CellAttrs, Color, TextStyle, UnderlineStyle};
use emux::schedule::{
    auto_save_due, config_check_due, daemon_pause, kill_stops_daemon, on_pane_exit, pane_area_rows,
    poll_timeout, render_due, PaneExit,
};

fn attrs() -> CellAttrs {
    CellAttrs {
        bold: false,
        italic: false,
        underline: UnderlineStyle::NoUnderline,
        blink: false,
        reverse: false,
        invisible: false,
        strikethrough: false,
    }
}

fn cell(c: char, fg: Color) -> Cell {
    Cell { c, width: 1, fg, bg: Color::Default, attrs: attrs() }
}

#[test]
fn cell_style_sets_colors_and_attributes() {
    let mut c = cell('a', Color::Indexed(3));
    c.attrs.bold = true;
    c.attrs.underline = UnderlineStyle::Curly;
    c.attrs.invisible = true;
    let s = cell_style(&c);
    assert_eq!(s.foreground, Some(Color::Indexed(3)));
    assert_eq!(s.background, Some(Color::Default));
    assert!(s.attributes.bold);
    assert!(s.attributes.undercurled);
    assert!(!s.attributes.underlined);
    assert!(s.attributes.hidden);
    assert!(!s.attributes.crossed_out);
    assert_ne!(s, plain());
}

#[test]
fn render_row_coalesces_and_pads() {
    let red = Color::Rgb(255, 0, 0);
    let cells = vec![cell('a', red), cell('b', red), cell('c', Color::Default), cell('\u{7}', Color::Default)];
    let spans = render_row(&cells, 6);
    let texts: Vec<(TextStyle, String)> = spans.clone();
    assert_eq!(texts.len(), 3);
    assert_eq!(texts[0].1, "ab");
    assert_eq!(texts[0].0.foreground, Some(red));
    assert_eq!(texts[1].1, "c ");
    assert_eq!(texts[2].1, "  ");
    assert_eq!(texts[2].0, plain());
    // Only `width` cells are drawn.
    let short = render_row(&cells, 1);
    assert_eq!(short.len(), 1);
    assert_eq!(short[0].1, "a");
    assert!(render_row(&[], 0).is_empty());
}

#[test]
fn render_row_skips_wide_continuations() {
    let mut wide = cell('漢', Color::Default);
    wide.width = 2;
    let mut cont = cell(' ', Color::Default);
    cont.width = 0;
    let spans = render_row(&[wide, cont, cell('x', Color::Default)], 5);
    // The wide character counts its two columns and its continuation none,
    // so two plain spaces pad the row to five columns.
    assert_eq!(spans.len(), 2);
    assert_eq!(spans[0].1, "漢x");
    assert_eq!(spans[1].1, "  ");
    // One wide character at width 4: two more columns of padding.
    let spans = render_row(&[wide, cont], 4);
    assert_eq!(spans.len(), 2);
    assert_eq!(spans[0].1, "漢");
    assert_eq!(spans[1].1, "  ");
}

#[test]
fn event_loop_timing() {
    assert!(!render_due(false, 20_000_000));
    assert!(!render_due(true, 15_999_999));
    assert!(render_due(true, 16_000_000));
    assert_eq!(poll_timeout(true, 0), 0);
    assert_eq!(poll_timeout(false, 6_000_000), 10_000_000);
    assert_eq!(poll_timeout(false, 30_000_000), 0);
    assert!(!config_check_due(4_999_999_999));
    assert!(config_check_due(5_000_000_000));
    assert!(!auto_save_due(false, u64::MAX));
    assert!(!auto_save_due(true, 29_000_000_000));
    assert!(auto_save_due(true, 30_000_000_000));
    assert_eq!(daemon_pause(true), 1_000_000);
    assert_eq!(daemon_pause(false), 16_000_000);
    assert_eq!(pane_area_rows(24), 23);
    assert_eq!(pane_area_rows(0), 0);
    assert_eq!(on_pane_exit(2), PaneExit::ClosePane);
    assert_eq!(on_pane_exit(1), PaneExit::Quit);
    assert!(kill_stops_daemon("main", "main"));
    assert!(!kill_stops_daemon("Main", "main"));
}

#[test]
fn pane_operation_rules() {
    use_operations();
}

fn use_operations() {
    let p = emux::geometry::PanePosition { col: 40, row: 11, cols: 40, rows: 12 };
    assert!(!emux::operations::may_close_pane(1));
    assert!(emux::operations::may_close_pane(2));
    assert_eq!(emux::operations::new_tab_name(3), "Tab 3");
    assert_eq!(emux::operations::new_pane_size(Some(p)), (40, 12));
    assert_eq!(emux::operations::new_pane_size(None), (80, 24));
    assert!(emux::operations::needs_resize(80, 12, &p));
    assert!(!emux::operations::needs_resize(40, 12, &p));
    assert_eq!(emux::operations::drawn_region(&p, 30, 24), (30, 12));
    assert_eq!(emux::operations::terminal_cursor(&p, 2, 5), (45, 13));
}
