//! Configuration defaults.

use emux::config::{KeyBindings, Theme};
use emux::pty::PtySize;

#[test]
fn default_key_bindings_use_the_leader_chord() {
    let k = KeyBindings::default();
    assert_eq!(k.split_down, "Leader+D");
    assert_eq!(k.split_right, "Leader+R");
    assert_eq!(k.focus_left, "Leader+Left");
    assert_eq!(k.search, "Leader+/");
    assert_eq!(k.copy_mode, "Leader+[");
    assert_eq!(k.detach, "Leader+Q");
}

#[test]
fn default_theme_colors() {
    let t = Theme::default();
    assert_eq!(t.background, "#282C34");
    assert_eq!(t.foreground, "#ABB2BF");
    assert_eq!(t.cursor, "#528BFF");
    assert_eq!(t.selection_bg, "#3E4451");
    assert_eq!(t.colors[0], "#1D1F21");
    assert_eq!(t.colors[8], "#666666");
    assert_eq!(t.colors[15], "#EAEAEA");
}

#[test]
fn pty_size_for_cells() {
    let s = PtySize::for_cells(120, 40);
    assert_eq!((s.cols, s.rows, s.pixel_width, s.pixel_height), (120, 40, 0, 0));
    let w = PtySize::for_cells(65536 + 5, 3);
    assert_eq!(w.cols, 5);
}
