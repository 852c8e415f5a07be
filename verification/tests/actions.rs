//! Actions recorded from the parser for given input.

use emux::parser::{Action, ActionLog, Parser};

fn actions_of(bytes: &[u8]) -> Vec<Action> {
    let mut parser = Parser::new();
    let mut log = ActionLog::new();
    parser.advance(&mut log, bytes);
    log.actions().clone()
}

#[test]
fn osc_ended_by_esc_backslash_is_dispatched() {
    let a = actions_of(b"\x1b]2;hi\x1b\\x");
    assert_eq!(a, vec![Action::OscDispatch(vec![b"2".to_vec(), b"hi".to_vec()]), Action::Print('x')]);
}

#[test]
fn osc_ended_by_bel_is_dispatched() {
    let a = actions_of(b"\x1b]0;title\x07x");
    assert_eq!(a, vec![Action::OscDispatch(vec![b"0".to_vec(), b"title".to_vec()]), Action::Print('x')]);
}

#[test]
fn printable_utf8_text_prints_each_char_once() {
    let s = "h\u{e9}llo \u{2192} \u{6f22}\u{1f600}~";
    let expected: Vec<Action> = s.chars().map(Action::Print).collect();
    assert_eq!(actions_of(s.as_bytes()), expected);
}

#[test]
fn log_starts_empty() {
    assert!(ActionLog::new().actions().is_empty());
}

#[test]
fn dcs_unhooks_only_at_the_8_bit_st() {
    let a = actions_of(b"\x1bP1qab\x1b\\");
    assert_eq!(a.len(), 4);
    assert!(matches!(a[0], Action::DcsHook { byte: b'q', .. }));
    assert_eq!(a[1], Action::DcsPut(b'a'));
    assert_eq!(a[2], Action::DcsPut(b'b'));
    assert!(matches!(a[3], Action::EscDispatch { byte: b'\\', .. }));
    let b = actions_of(b"\x1bP1qa\x9c");
    assert_eq!(b.len(), 3);
    assert_eq!(b[2], Action::DcsUnhook);
}

#[test]
fn osc_interrupted_by_another_escape_is_dropped() {
    let a = actions_of(b"\x1b]2;hi\x1b7y");
    assert_eq!(a.len(), 2);
    assert!(matches!(a[0], Action::EscDispatch { byte: b'7', .. }));
    assert_eq!(a[1], Action::Print('y'));
}
