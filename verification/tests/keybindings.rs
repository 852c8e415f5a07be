//! Key binding parsing and matching, and the dispatch of key presses.

use emux::config::KeyBindings;
use emux::keys::{
    binding_command, matches_binding, parse_keybinding, FocusDirection, KeyCode, KeyCommand,
    KeyMods, KeyPress, ParsedBindings,
};

fn leader() -> KeyMods {
    KeyMods::control().union(KeyMods::shift())
}

#[test]
fn parse_leader_d() {
    let (mods, code) = parse_keybinding("Leader+D").unwrap();
    assert!(mods.contains(KeyMods::control()));
    assert!(mods.contains(KeyMods::shift()));
    assert_eq!(code, KeyCode::Char('D'));
}

#[test]
fn parse_ctrl_q() {
    let (mods, code) = parse_keybinding("Ctrl+Q").unwrap();
    assert!(mods.contains(KeyMods::control()));
    assert!(!mods.contains(KeyMods::shift()));
    // 'Q' preserves the case from the binding string.
    assert_eq!(code, KeyCode::Char('Q'));
}

#[test]
fn parse_alt_tab() {
    let (mods, code) = parse_keybinding("Alt+Tab").unwrap();
    assert!(mods.contains(KeyMods::alt()));
    assert_eq!(code, KeyCode::Tab);
}

#[test]
fn parse_f_keys() {
    let (_, code) = parse_keybinding("F1").unwrap();
    assert_eq!(code, KeyCode::F(1));
    let (_, code) = parse_keybinding("F12").unwrap();
    assert_eq!(code, KeyCode::F(12));
}

#[test]
fn parse_special_keys() {
    assert_eq!(parse_keybinding("Up").unwrap().1, KeyCode::Up);
    assert_eq!(parse_keybinding("PageUp").unwrap().1, KeyCode::PageUp);
    assert_eq!(parse_keybinding("Enter").unwrap().1, KeyCode::Enter);
    assert_eq!(parse_keybinding("Backspace").unwrap().1, KeyCode::Backspace);
    assert_eq!(parse_keybinding("Esc").unwrap().1, KeyCode::Esc);
}

#[test]
fn parse_leader_pageup() {
    let (mods, code) = parse_keybinding("Leader+PageUp").unwrap();
    assert!(mods.contains(KeyMods::control()));
    assert!(mods.contains(KeyMods::shift()));
    assert_eq!(code, KeyCode::PageUp);
}

#[test]
fn parse_invalid_returns_none() {
    assert!(parse_keybinding("").is_none());
    assert!(parse_keybinding("Leader+").is_none());
}

#[test]
fn matches_binding_case_insensitive() {
    let binding = Some((leader(), KeyCode::Char('D')));
    // Shift+Ctrl+d should match Leader+D
    let key = KeyPress::new(KeyCode::Char('d'), leader());
    assert!(matches_binding(&key, &binding));
}

#[test]
fn matches_binding_none_returns_false() {
    let key = KeyPress::new(KeyCode::Char('a'), KeyMods::empty());
    assert!(!matches_binding(&key, &None));
}

#[test]
fn matches_binding_wrong_key_returns_false() {
    let binding = Some((KeyMods::control(), KeyCode::Char('q')));
    let key = KeyPress::new(KeyCode::Char('x'), KeyMods::control());
    assert!(!matches_binding(&key, &binding));
}

#[test]
fn matches_binding_missing_modifier_returns_false() {
    let binding = Some((KeyMods::control(), KeyCode::Char('q')));
    let key = KeyPress::new(KeyCode::Char('q'), KeyMods::empty());
    assert!(!matches_binding(&key, &binding));
}

#[test]
fn parse_trims_parts_and_ignores_case_of_names() {
    let (mods, code) = parse_keybinding(" ctrl + shift + pagedown ").unwrap();
    assert_eq!(mods, leader());
    assert_eq!(code, KeyCode::PageDown);
    let (mods, code) = parse_keybinding("META+x").unwrap();
    assert_eq!(mods, KeyMods::alt());
    assert_eq!(code, KeyCode::Char('x'));
    assert_eq!(parse_keybinding("Option+Del").unwrap().1, KeyCode::Delete);
    assert_eq!(parse_keybinding("return").unwrap().1, KeyCode::Enter);
    assert_eq!(parse_keybinding("ESCAPE").unwrap().1, KeyCode::Esc);
    assert_eq!(parse_keybinding("Ins").unwrap().1, KeyCode::Insert);
    assert_eq!(parse_keybinding("Home").unwrap().1, KeyCode::Home);
    assert_eq!(parse_keybinding("End").unwrap().1, KeyCode::End);
}

#[test]
fn parse_function_key_edges() {
    assert_eq!(parse_keybinding("F255").unwrap().1, KeyCode::F(255));
    assert_eq!(parse_keybinding("f+7").unwrap(), (KeyMods::empty(), KeyCode::Char('7')));
    assert_eq!(parse_keybinding("F+7"), Some((KeyMods::empty(), KeyCode::Char('7'))));
    assert!(parse_keybinding("F256").is_none());
    assert!(parse_keybinding("Foo").is_none());
    assert_eq!(parse_keybinding("F").unwrap().1, KeyCode::Char('F'));
    assert_eq!(parse_keybinding("F05").unwrap().1, KeyCode::F(5));
}

#[test]
fn parse_last_key_part_wins() {
    // The last part that is not a modifier names the key.
    let (mods, code) = parse_keybinding("A+Ctrl+B").unwrap();
    assert_eq!(mods, KeyMods::control());
    assert_eq!(code, KeyCode::Char('B'));
    // Only modifiers: no key.
    assert!(parse_keybinding("Ctrl+Shift").is_none());
    // A multi-character unknown name is refused.
    assert!(parse_keybinding("Leader+Spacebar").is_none());
    // "Leader+" ends with an empty key part; "+" alone splits into two empty parts.
    assert!(parse_keybinding("+").is_none());
}

#[test]
fn parse_uses_unicode_lowercase_for_names() {
    // U+212A KELVIN SIGN lowercases to an ASCII 'k'.
    assert_eq!(parse_keybinding("Bac\u{212A}space").unwrap().1, KeyCode::Backspace);
}

#[test]
fn matches_binding_with_extra_modifiers_and_non_char_keys() {
    let binding = parse_keybinding("Ctrl+Tab");
    let mut mods = KeyMods::control();
    mods.alt = true;
    assert!(matches_binding(&KeyPress::new(KeyCode::Tab, mods), &binding));
    assert!(!matches_binding(&KeyPress::new(KeyCode::BackTab, mods), &binding));
    // Non-ASCII letters are compared exactly.
    let b = Some((KeyMods::empty(), KeyCode::Char('é')));
    assert!(!matches_binding(&KeyPress::new(KeyCode::Char('É'), KeyMods::empty()), &b));
    assert!(matches_binding(&KeyPress::new(KeyCode::Char('é'), KeyMods::empty()), &b));
}

#[test]
fn default_bindings_dispatch_in_order() {
    let parsed = ParsedBindings::from_config(&KeyBindings::default());
    assert_eq!(parsed.split_down, Some((leader(), KeyCode::Char('D'))));
    assert_eq!(parsed.search, Some((leader(), KeyCode::Char('/'))));
    assert_eq!(parsed.copy_mode, Some((leader(), KeyCode::Char('['))));
    let press = |code: KeyCode| KeyPress::new(code, leader());
    assert_eq!(binding_command(&parsed, &press(KeyCode::Char('q')), true), KeyCommand::Detach);
    assert_eq!(binding_command(&parsed, &press(KeyCode::Char('Q')), false), KeyCommand::Quit);
    assert_eq!(binding_command(&parsed, &press(KeyCode::Char('/')), false), KeyCommand::EnterSearch);
    assert_eq!(binding_command(&parsed, &press(KeyCode::Char('d')), false), KeyCommand::SplitDown);
    assert_eq!(binding_command(&parsed, &press(KeyCode::Char('r')), false), KeyCommand::SplitRight);
    assert_eq!(binding_command(&parsed, &press(KeyCode::Char('x')), false), KeyCommand::ClosePane);
    assert_eq!(
        binding_command(&parsed, &press(KeyCode::Left), false),
        KeyCommand::Focus(FocusDirection::Left)
    );
    assert_eq!(binding_command(&parsed, &press(KeyCode::Char('t')), false), KeyCommand::NewTab);
    assert_eq!(binding_command(&parsed, &press(KeyCode::Char('w')), false), KeyCommand::CloseTab);
    assert_eq!(binding_command(&parsed, &press(KeyCode::Char('n')), false), KeyCommand::NextTab);
    assert_eq!(binding_command(&parsed, &press(KeyCode::Char('p')), false), KeyCommand::PrevTab);
    assert_eq!(
        binding_command(&parsed, &press(KeyCode::Char('f')), false),
        KeyCommand::ToggleFullscreen
    );
    assert_eq!(binding_command(&parsed, &press(KeyCode::Char('g')), false), KeyCommand::ToggleFloat);
    assert_eq!(binding_command(&parsed, &press(KeyCode::Char('[')), false), KeyCommand::EnterCopyMode);
    // Without the leader chord the key goes to the program.
    let plain = KeyPress::new(KeyCode::Char('d'), KeyMods::empty());
    assert_eq!(binding_command(&parsed, &plain, false), KeyCommand::Forward);
    let ctrl_only = KeyPress::new(KeyCode::Char('d'), KeyMods::control());
    assert_eq!(binding_command(&parsed, &ctrl_only, false), KeyCommand::Forward);
}

#[test]
fn earlier_binding_wins_when_two_match() {
    let mut keys = KeyBindings::default();
    keys.split_down = "Ctrl+A".to_string();
    keys.close_pane = "Ctrl+A".to_string();
    let parsed = ParsedBindings::from_config(&keys);
    let key = KeyPress::new(KeyCode::Char('a'), KeyMods::control());
    assert_eq!(binding_command(&parsed, &key, false), KeyCommand::SplitDown);
}

#[test]
fn documented_examples_of_parsing() {
    // "Leader+Shift+D": Shift is already part of the leader.
    assert_eq!(parse_keybinding("Leader+Shift+D"), parse_keybinding("Leader+D"));
    assert_eq!(parse_keybinding("Ctrl+Tab"), Some((KeyMods::control(), KeyCode::Tab)));
}

#[test]
fn a_binding_matches_its_own_press_in_either_case() {
    for s in ["Leader+D", "Ctrl+q", "Alt+F4", "Shift+PageDown", "Leader+/"] {
        let (mods, code) = parse_keybinding(s).unwrap();
        assert!(matches_binding(&KeyPress::new(code, mods), &Some((mods, code))));
        if let KeyCode::Char(c) = code {
            let other = if c.is_ascii_uppercase() { c.to_ascii_lowercase() } else { c.to_ascii_uppercase() };
            assert!(matches_binding(&KeyPress::new(KeyCode::Char(other), mods), &Some((mods, code))));
        }
    }
}
