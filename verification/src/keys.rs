//! Key bindings: the configured binding strings, their parsed form, and the
//! matching of key presses against them.
//!
//! A binding string is a `+`-separated list of parts such as `"Leader+D"` or
//! `"Ctrl+Tab"`. Each part is trimmed and compared case-insensitively with
//! the modifier names; "Leader" stands for Ctrl+Shift. The last part that is
//! not a modifier names the key.

use vstd::prelude::*;
use crate::text::{
    chars_of, decimal, law_decimal_parses_back, parse_unsigned, parse_unsigned_chars, spells,
    split_chars, split_on, trim, trim_chars,
};

verus! {

/// Modifier keys held with a key press.
#[derive(Debug, Clone, Copy, PartialEq, Eq, Structural)]
pub struct KeyMods {
    pub shift: bool,
    pub control: bool,
    pub alt: bool,
    pub super_key: bool,
    pub hyper: bool,
    pub meta: bool,
}

/// No modifier.
pub open spec fn no_mods() -> KeyMods {
    KeyMods { shift: false, control: false, alt: false, super_key: false, hyper: false, meta: false }
}

/// Control alone.
pub open spec fn control_mods() -> KeyMods {
    KeyMods { control: true, ..no_mods() }
}

/// Shift alone.
pub open spec fn shift_mods() -> KeyMods {
    KeyMods { shift: true, ..no_mods() }
}

/// Alt alone.
pub open spec fn alt_mods() -> KeyMods {
    KeyMods { alt: true, ..no_mods() }
}

/// The leader chord: Control and Shift together.
pub open spec fn leader_mods() -> KeyMods {
    KeyMods { control: true, shift: true, ..no_mods() }
}

impl KeyMods {
    /// Every modifier held in either set.
    pub open spec fn joined(self, other: KeyMods) -> KeyMods {
        KeyMods {
            shift: self.shift || other.shift,
            control: self.control || other.control,
            alt: self.alt || other.alt,
            super_key: self.super_key || other.super_key,
            hyper: self.hyper || other.hyper,
            meta: self.meta || other.meta,
        }
    }

    /// Whether every modifier of `other` is held in `self`.
    pub open spec fn includes(self, other: KeyMods) -> bool {
        &&& other.shift ==> self.shift
        &&& other.control ==> self.control
        &&& other.alt ==> self.alt
        &&& other.super_key ==> self.super_key
        &&& other.hyper ==> self.hyper
        &&& other.meta ==> self.meta
    }

    /// The empty set of modifiers.
    pub fn empty() -> (r: Self)
        ensures
            r == no_mods(),
    {
        KeyMods { shift: false, control: false, alt: false, super_key: false, hyper: false, meta: false }
    }

    /// Control alone.
    pub fn control() -> (r: Self)
        ensures
            r == control_mods(),
    {
        KeyMods { control: true, ..KeyMods::empty() }
    }

    /// Shift alone.
    pub fn shift() -> (r: Self)
        ensures
            r == shift_mods(),
    {
        KeyMods { shift: true, ..KeyMods::empty() }
    }

    /// Alt alone.
    pub fn alt() -> (r: Self)
        ensures
            r == alt_mods(),
    {
        KeyMods { alt: true, ..KeyMods::empty() }
    }

    /// The union of two sets of modifiers.
    pub fn union(self, other: KeyMods) -> (r: Self)
        ensures
            r == self.joined(other),
    {
        KeyMods {
            shift: self.shift || other.shift,
            control: self.control || other.control,
            alt: self.alt || other.alt,
            super_key: self.super_key || other.super_key,
            hyper: self.hyper || other.hyper,
            meta: self.meta || other.meta,
        }
    }

    /// Whether all modifiers of `other` are held in `self`.
    pub fn contains(self, other: KeyMods) -> (r: bool)
        ensures
            r == self.includes(other),
    {
        (!other.shift || self.shift) && (!other.control || self.control) && (!other.alt
            || self.alt) && (!other.super_key || self.super_key) && (!other.hyper || self.hyper)
            && (!other.meta || self.meta)
    }

    /// Whether no modifier is held.
    pub fn is_empty(self) -> (r: bool)
        ensures
            r == (self == no_mods()),
    {
        !self.shift && !self.control && !self.alt && !self.super_key && !self.hyper && !self.meta
    }
}

/// A key, as a key press reports it.
#[derive(Debug, Clone, Copy, PartialEq, Eq, Structural)]
pub enum KeyCode {
    Backspace,
    Enter,
    Left,
    Right,
    Up,
    Down,
    Home,
    End,
    PageUp,
    PageDown,
    Tab,
    BackTab,
    Delete,
    Insert,
    F(u8),
    Char(char),
    Null,
    Esc,
    /// Any other key (lock keys, media keys, lone modifiers); no binding names one.
    Other,
}

/// A key press: the key and the modifiers held with it.
#[derive(Debug, Clone, Copy, PartialEq, Eq, Structural)]
pub struct KeyPress {
    pub code: KeyCode,
    pub modifiers: KeyMods,
}

impl KeyPress {
    pub fn new(code: KeyCode, modifiers: KeyMods) -> (r: Self)
        ensures
            r.code == code,
            r.modifiers == modifiers,
    {
        KeyPress { code, modifiers }
    }
}

/// A parsed binding: the modifiers it requires and its key.
pub type Binding = Option<(KeyMods, KeyCode)>;

/// What `str::to_lowercase` gives for a string (the Unicode lowercase mapping).
pub uninterp spec fn lowercase(s: Seq<char>) -> Seq<char>;

/// Calls `str::to_lowercase` on the string made of `s`; the result is named
/// [`lowercase`] of the characters.
#[verifier::external_body]
fn lowercase_chars(s: &[char]) -> (r: Vec<char>)
    ensures
        r@ == lowercase(s@),
{
    let text: String = s.iter().collect();
    text.to_lowercase().chars().collect()
}

/// The modifier a lowercased binding part names, if it names one.
pub open spec fn modifier_named(lowered: Seq<char>) -> Option<KeyMods> {
    if lowered == "leader"@ {
        Some(leader_mods())
    } else if lowered == "ctrl"@ || lowered == "control"@ {
        Some(control_mods())
    } else if lowered == "shift"@ {
        Some(shift_mods())
    } else if lowered == "alt"@ || lowered == "meta"@ || lowered == "opt"@ || lowered
        == "option"@ {
        Some(alt_mods())
    } else {
        None
    }
}

/// The modifier named by the lowercased part `lowered`, if any.
pub fn modifier_of(lowered: &[char]) -> (r: Option<KeyMods>)
    ensures
        r == modifier_named(lowered@),
{
    if spells(lowered, "leader") {
        Some(KeyMods::control().union(KeyMods::shift()))
    } else if spells(lowered, "ctrl") || spells(lowered, "control") {
        Some(KeyMods::control())
    } else if spells(lowered, "shift") {
        Some(KeyMods::shift())
    } else if spells(lowered, "alt") || spells(lowered, "meta") || spells(lowered, "opt")
        || spells(lowered, "option") {
        Some(KeyMods::alt())
    } else {
        None
    }
}

/// The key that a binding's key part names: `key` as written (trimmed) and
/// `lowered`, its lowercase form. Key names are matched in lowercase; `F`
/// followed by a `u8` is a function key; any other single character is that
/// character, with its case as written.
pub open spec fn key_named(key: Seq<char>, lowered: Seq<char>) -> Option<KeyCode> {
    if lowered == "up"@ {
        Some(KeyCode::Up)
    } else if lowered == "down"@ {
        Some(KeyCode::Down)
    } else if lowered == "left"@ {
        Some(KeyCode::Left)
    } else if lowered == "right"@ {
        Some(KeyCode::Right)
    } else if lowered == "tab"@ {
        Some(KeyCode::Tab)
    } else if lowered == "enter"@ || lowered == "return"@ {
        Some(KeyCode::Enter)
    } else if lowered == "esc"@ || lowered == "escape"@ {
        Some(KeyCode::Esc)
    } else if lowered == "backspace"@ {
        Some(KeyCode::Backspace)
    } else if lowered == "delete"@ || lowered == "del"@ {
        Some(KeyCode::Delete)
    } else if lowered == "insert"@ || lowered == "ins"@ {
        Some(KeyCode::Insert)
    } else if lowered == "home"@ {
        Some(KeyCode::Home)
    } else if lowered == "end"@ {
        Some(KeyCode::End)
    } else if lowered == "pageup"@ {
        Some(KeyCode::PageUp)
    } else if lowered == "pagedown"@ {
        Some(KeyCode::PageDown)
    } else if lowered.len() > 1 && lowered[0] == 'f' {
        match parse_unsigned(lowered.drop_first(), 255) {
            Some(n) => Some(KeyCode::F(n as u8)),
            None => None,
        }
    } else if key.len() == 1 {
        Some(KeyCode::Char(key[0]))
    } else {
        None
    }
}

/// The key named by a binding's key part `key`, whose lowercase form is
/// `lowered`.
pub fn key_code_of(key: &[char], lowered: &[char]) -> (r: Option<KeyCode>)
    ensures
        r == key_named(key@, lowered@),
{
    if spells(lowered, "up") {
        Some(KeyCode::Up)
    } else if spells(lowered, "down") {
        Some(KeyCode::Down)
    } else if spells(lowered, "left") {
        Some(KeyCode::Left)
    } else if spells(lowered, "right") {
        Some(KeyCode::Right)
    } else if spells(lowered, "tab") {
        Some(KeyCode::Tab)
    } else if spells(lowered, "enter") || spells(lowered, "return") {
        Some(KeyCode::Enter)
    } else if spells(lowered, "esc") || spells(lowered, "escape") {
        Some(KeyCode::Esc)
    } else if spells(lowered, "backspace") {
        Some(KeyCode::Backspace)
    } else if spells(lowered, "delete") || spells(lowered, "del") {
        Some(KeyCode::Delete)
    } else if spells(lowered, "insert") || spells(lowered, "ins") {
        Some(KeyCode::Insert)
    } else if spells(lowered, "home") {
        Some(KeyCode::Home)
    } else if spells(lowered, "end") {
        Some(KeyCode::End)
    } else if spells(lowered, "pageup") {
        Some(KeyCode::PageUp)
    } else if spells(lowered, "pagedown") {
        Some(KeyCode::PageDown)
    } else if lowered.len() > 1 && lowered[0] == 'f' {
        let digits = &lowered[1..lowered.len()];
        proof {
            assert(digits@ =~= lowered@.drop_first());
        }
        match parse_unsigned_chars(digits, 255) {
            Some(n) => Some(KeyCode::F(n as u8)),
            None => None,
        }
    } else if key.len() == 1 {
        Some(KeyCode::Char(key[0]))
    } else {
        None
    }
}

/// The trimmed parts of a binding string.
pub open spec fn binding_parts(binding: Seq<char>) -> Seq<Seq<char>> {
    split_on(binding, '+').map_values(|p: Seq<char>| trim(p))
}

/// The modifiers named by the parts, all together.
pub open spec fn parts_mods(parts: Seq<Seq<char>>) -> KeyMods
    decreases parts.len(),
{
    if parts.len() == 0 {
        no_mods()
    } else {
        let before = parts_mods(parts.drop_last());
        match modifier_named(lowercase(parts.last())) {
            Some(m) => before.joined(m),
            None => before,
        }
    }
}

/// The last part that names no modifier.
pub open spec fn parts_key(parts: Seq<Seq<char>>) -> Option<Seq<char>>
    decreases parts.len(),
{
    if parts.len() == 0 {
        None
    } else if modifier_named(lowercase(parts.last())) is None {
        Some(parts.last())
    } else {
        parts_key(parts.drop_last())
    }
}

/// The binding a string describes: the modifiers of all its parts and the
/// key of its last non-modifier part; none where no part names a key or the
/// key is unknown.
pub open spec fn parsed_binding(binding: Seq<char>) -> Binding {
    let parts = binding_parts(binding);
    match parts_key(parts) {
        None => None,
        Some(k) => match key_named(k, lowercase(k)) {
            None => None,
            Some(code) => Some((parts_mods(parts), code)),
        },
    }
}

/// Parse a keybinding string like `"Leader+D"` into its modifiers and key.
///
/// "Leader" is Ctrl+Shift; Ctrl (or Control), Shift and Alt (or Meta, Opt,
/// Option) add their modifier. The last other part names the key: Up, Down,
/// Left, Right, Tab, Enter, Esc, Backspace, Delete, Insert, Home, End,
/// PageUp, PageDown, `F` followed by a number up to 255, or a single character.
pub fn parse_keybinding(binding: &str) -> (r: Binding)
    ensures
        r == parsed_binding(binding@),
{
    let chars = chars_of(binding);
    let raw = split_chars(chars.as_slice(), '+');
    let ghost parts = binding_parts(binding@);
    let mut mods = KeyMods::empty();
    let mut key_part: Option<Vec<char>> = None;
    let mut i: usize = 0;
    while i < raw.len()
        invariant
            0 <= i <= raw@.len(),
            raw@.map_values(|p: Vec<char>| p@) == split_on(binding@, '+'),
            parts == binding_parts(binding@),
            parts.len() == raw@.len(),
            mods == parts_mods(parts.take(i as int)),
            match key_part {
                Some(k) => parts_key(parts.take(i as int)) == Some(k@),
                None => parts_key(parts.take(i as int)) is None,
            },
        decreases raw@.len() - i,
    {
        let normalized = trim_chars(raw[i].as_slice());
        let lowered = lowercase_chars(normalized.as_slice());
        proof {
            assert(raw@[i as int]@ == split_on(binding@, '+')[i as int]);
            assert(normalized@ == parts[i as int]);
            assert(parts.take(i + 1).drop_last() =~= parts.take(i as int));
            assert(parts.take(i + 1).last() == parts[i as int]);
        }
        match modifier_of(lowered.as_slice()) {
            Some(m) => {
                mods = mods.union(m);
            },
            None => {
                key_part = Some(normalized);
            },
        }
        i = i + 1;
    }
    proof {
        assert(parts.take(raw@.len() as int) =~= parts);
    }
    let key = match key_part {
        Some(k) => k,
        None => return None,
    };
    let lowered_key = lowercase_chars(key.as_slice());
    match key_code_of(key.as_slice(), lowered_key.as_slice()) {
        Some(code) => Some((mods, code)),
        None => None,
    }
}

/// Whether two characters are equal up to ASCII case, as
/// `char::eq_ignore_ascii_case` decides.
pub open spec fn same_ignoring_ascii_case(a: char, b: char) -> bool {
    crate::search::fold_char(a, false) == crate::search::fold_char(b, false)
}

/// Whether a key press triggers a binding: the press holds at least the
/// binding's modifiers, and its key is the binding's key (a character key
/// compared without regard to ASCII case).
pub open spec fn binding_matches(key: KeyPress, binding: Binding) -> bool {
    match binding {
        None => false,
        Some((mods, code)) => {
            &&& key.modifiers.includes(mods)
            &&& match (code, key.code) {
                (KeyCode::Char(b), KeyCode::Char(k)) => same_ignoring_ascii_case(b, k),
                _ => code == key.code,
            }
        },
    }
}

/// Check whether a key press matches a parsed binding. For `Char` bindings
/// the comparison ignores ASCII case, so `Leader+D` matches both `D` and `d`.
pub fn matches_binding(key: &KeyPress, binding: &Binding) -> (r: bool)
    ensures
        r == binding_matches(*key, *binding),
{
    match binding {
        None => false,
        Some((mods, code)) => {
            if !key.modifiers.contains(*mods) {
                return false;
            }
            match (code, key.code) {
                (KeyCode::Char(b), KeyCode::Char(k)) => crate::search::fold_char_exec(*b, false)
                    == crate::search::fold_char_exec(k, false),
                _ => *code == key.code,
            }
        },
    }
}

/// Every configured binding, parsed once so that key presses need no parsing.
#[derive(Debug, Clone, Copy, PartialEq, Eq)]
pub struct ParsedBindings {
    pub split_down: Binding,
    pub split_right: Binding,
    pub close_pane: Binding,
    pub focus_up: Binding,
    pub focus_down: Binding,
    pub focus_left: Binding,
    pub focus_right: Binding,
    pub new_tab: Binding,
    pub close_tab: Binding,
    pub next_tab: Binding,
    pub prev_tab: Binding,
    pub detach: Binding,
    pub search: Binding,
    pub toggle_fullscreen: Binding,
    pub toggle_float: Binding,
    pub copy_mode: Binding,
}

impl ParsedBindings {
    /// Parse every binding string of the configuration.
    pub fn from_config(keys: &crate::config::KeyBindings) -> (r: Self)
        ensures
            r.split_down == parsed_binding(keys.split_down@),
            r.split_right == parsed_binding(keys.split_right@),
            r.close_pane == parsed_binding(keys.close_pane@),
            r.focus_up == parsed_binding(keys.focus_up@),
            r.focus_down == parsed_binding(keys.focus_down@),
            r.focus_left == parsed_binding(keys.focus_left@),
            r.focus_right == parsed_binding(keys.focus_right@),
            r.new_tab == parsed_binding(keys.new_tab@),
            r.close_tab == parsed_binding(keys.close_tab@),
            r.next_tab == parsed_binding(keys.next_tab@),
            r.prev_tab == parsed_binding(keys.prev_tab@),
            r.detach == parsed_binding(keys.detach@),
            r.search == parsed_binding(keys.search@),
            r.toggle_fullscreen == parsed_binding(keys.toggle_fullscreen@),
            r.toggle_float == parsed_binding(keys.toggle_float@),
            r.copy_mode == parsed_binding(keys.copy_mode@),
    {
        Self {
            split_down: parse_keybinding(keys.split_down.as_str()),
            split_right: parse_keybinding(keys.split_right.as_str()),
            close_pane: parse_keybinding(keys.close_pane.as_str()),
            focus_up: parse_keybinding(keys.focus_up.as_str()),
            focus_down: parse_keybinding(keys.focus_down.as_str()),
            focus_left: parse_keybinding(keys.focus_left.as_str()),
            focus_right: parse_keybinding(keys.focus_right.as_str()),
            new_tab: parse_keybinding(keys.new_tab.as_str()),
            close_tab: parse_keybinding(keys.close_tab.as_str()),
            next_tab: parse_keybinding(keys.next_tab.as_str()),
            prev_tab: parse_keybinding(keys.prev_tab.as_str()),
            detach: parse_keybinding(keys.detach.as_str()),
            search: parse_keybinding(keys.search.as_str()),
            toggle_fullscreen: parse_keybinding(keys.toggle_fullscreen.as_str()),
            toggle_float: parse_keybinding(keys.toggle_float.as_str()),
            copy_mode: parse_keybinding(keys.copy_mode.as_str()),
        }
    }
}

/// A direction to move the focus in.
#[derive(Debug, Clone, Copy, PartialEq, Eq, Structural)]
pub enum FocusDirection {
    Up,
    Down,
    Left,
    Right,
}

/// What a key press asks of the multiplexer in normal input mode.
#[derive(Debug, Clone, Copy, PartialEq, Eq, Structural)]
pub enum KeyCommand {
    /// Leave the session running and detach from it.
    Detach,
    /// Quit emux.
    Quit,
    /// Start typing a search query.
    EnterSearch,
    /// Split the active pane, the new one below.
    SplitDown,
    /// Split the active pane, the new one to the right.
    SplitRight,
    ClosePane,
    Focus(FocusDirection),
    NewTab,
    NextTab,
    PrevTab,
    CloseTab,
    ToggleFullscreen,
    ToggleFloat,
    EnterCopyMode,
    /// No binding matched: the key goes to the active pane's program.
    Forward,
}

/// The command of the first binding, in a fixed order, that the key press
/// matches. The detach binding quits instead when emux runs standalone.
pub open spec fn command_for(b: ParsedBindings, key: KeyPress, daemon_mode: bool) -> KeyCommand {
    if binding_matches(key, b.detach) {
        if daemon_mode {
            KeyCommand::Detach
        } else {
            KeyCommand::Quit
        }
    } else if binding_matches(key, b.search) {
        KeyCommand::EnterSearch
    } else if binding_matches(key, b.split_down) {
        KeyCommand::SplitDown
    } else if binding_matches(key, b.split_right) {
        KeyCommand::SplitRight
    } else if binding_matches(key, b.close_pane) {
        KeyCommand::ClosePane
    } else if binding_matches(key, b.focus_up) {
        KeyCommand::Focus(FocusDirection::Up)
    } else if binding_matches(key, b.focus_down) {
        KeyCommand::Focus(FocusDirection::Down)
    } else if binding_matches(key, b.focus_left) {
        KeyCommand::Focus(FocusDirection::Left)
    } else if binding_matches(key, b.focus_right) {
        KeyCommand::Focus(FocusDirection::Right)
    } else if binding_matches(key, b.new_tab) {
        KeyCommand::NewTab
    } else if binding_matches(key, b.next_tab) {
        KeyCommand::NextTab
    } else if binding_matches(key, b.prev_tab) {
        KeyCommand::PrevTab
    } else if binding_matches(key, b.close_tab) {
        KeyCommand::CloseTab
    } else if binding_matches(key, b.toggle_fullscreen) {
        KeyCommand::ToggleFullscreen
    } else if binding_matches(key, b.toggle_float) {
        KeyCommand::ToggleFloat
    } else if binding_matches(key, b.copy_mode) {
        KeyCommand::EnterCopyMode
    } else {
        KeyCommand::Forward
    }
}

/// Decide what a key press in normal input mode asks for.
pub fn binding_command(bindings: &ParsedBindings, key: &KeyPress, daemon_mode: bool) -> (r: KeyCommand)
    ensures
        r == command_for(*bindings, *key, daemon_mode),
{
    if matches_binding(key, &bindings.detach) {
        if daemon_mode {
            KeyCommand::Detach
        } else {
            KeyCommand::Quit
        }
    } else if matches_binding(key, &bindings.search) {
        KeyCommand::EnterSearch
    } else if matches_binding(key, &bindings.split_down) {
        KeyCommand::SplitDown
    } else if matches_binding(key, &bindings.split_right) {
        KeyCommand::SplitRight
    } else if matches_binding(key, &bindings.close_pane) {
        KeyCommand::ClosePane
    } else if matches_binding(key, &bindings.focus_up) {
        KeyCommand::Focus(FocusDirection::Up)
    } else if matches_binding(key, &bindings.focus_down) {
        KeyCommand::Focus(FocusDirection::Down)
    } else if matches_binding(key, &bindings.focus_left) {
        KeyCommand::Focus(FocusDirection::Left)
    } else if matches_binding(key, &bindings.focus_right) {
        KeyCommand::Focus(FocusDirection::Right)
    } else if matches_binding(key, &bindings.new_tab) {
        KeyCommand::NewTab
    } else if matches_binding(key, &bindings.next_tab) {
        KeyCommand::NextTab
    } else if matches_binding(key, &bindings.prev_tab) {
        KeyCommand::PrevTab
    } else if matches_binding(key, &bindings.close_tab) {
        KeyCommand::CloseTab
    } else if matches_binding(key, &bindings.toggle_fullscreen) {
        KeyCommand::ToggleFullscreen
    } else if matches_binding(key, &bindings.toggle_float) {
        KeyCommand::ToggleFloat
    } else if matches_binding(key, &bindings.copy_mode) {
        KeyCommand::EnterCopyMode
    } else {
        KeyCommand::Forward
    }
}

/// A binding matches the very key press it describes.
pub proof fn law_binding_matches_its_own_press(mods: KeyMods, code: KeyCode)
    ensures
        binding_matches(KeyPress { code, modifiers: mods }, Some((mods, code))),
{
}

/// Holding more modifiers than a binding asks for does not stop it matching.
pub proof fn law_extra_modifiers_still_match(key: KeyPress, extra: KeyMods, binding: Binding)
    requires
        binding_matches(key, binding),
    ensures
        binding_matches(KeyPress { modifiers: key.modifiers.joined(extra), ..key }, binding),
{
}

/// A character binding matches its key in either ASCII case.
pub proof fn law_char_binding_ignores_ascii_case(mods: KeyMods, c: char)
    requires
        'a' <= c <= 'z',
    ensures
        binding_matches(
            KeyPress { code: KeyCode::Char(((c as u32) - 32) as char), modifiers: mods },
            Some((mods, KeyCode::Char(c))),
        ),
        binding_matches(
            KeyPress { code: KeyCode::Char(c), modifiers: mods },
            Some((mods, KeyCode::Char(((c as u32) - 32) as char))),
        ),
{
    let upper = ((c as u32) - 32) as char;
    assert(upper as u32 == (c as u32) - 32);
    assert(crate::search::fold_char(upper, false) == c);
}


/// The names a binding may give each named key, in lower case.
pub open spec fn key_names(code: KeyCode) -> Seq<Seq<char>> {
    match code {
        KeyCode::Up => seq!["up"@],
        KeyCode::Down => seq!["down"@],
        KeyCode::Left => seq!["left"@],
        KeyCode::Right => seq!["right"@],
        KeyCode::Tab => seq!["tab"@],
        KeyCode::Enter => seq!["enter"@, "return"@],
        KeyCode::Esc => seq!["esc"@, "escape"@],
        KeyCode::Backspace => seq!["backspace"@],
        KeyCode::Delete => seq!["delete"@, "del"@],
        KeyCode::Insert => seq!["insert"@, "ins"@],
        KeyCode::Home => seq!["home"@],
        KeyCode::End => seq!["end"@],
        KeyCode::PageUp => seq!["pageup"@],
        KeyCode::PageDown => seq!["pagedown"@],
        _ => Seq::empty(),
    }
}

/// Every named key is the key its names give: a binding's key part that
/// lowercases to one of the names of `code` (Up, Down, Left, Right, Tab,
/// Enter or Return, Esc or Escape, Backspace, Delete or Del, Insert or Ins,
/// Home, End, PageUp, PageDown) gives exactly `code`, however it was
/// written; so distinct keys never share a name.
pub proof fn law_named_keys_parse_to_themselves(code: KeyCode, i: int, key: Seq<char>)
    requires
        0 <= i < key_names(code).len(),
    ensures
        key_named(key, key_names(code)[i]) == Some(code),
{
    reveal_strlit("up");
    reveal_strlit("down");
    reveal_strlit("left");
    reveal_strlit("right");
    reveal_strlit("tab");
    reveal_strlit("enter");
    reveal_strlit("return");
    reveal_strlit("esc");
    reveal_strlit("escape");
    reveal_strlit("backspace");
    reveal_strlit("delete");
    reveal_strlit("del");
    reveal_strlit("insert");
    reveal_strlit("ins");
    reveal_strlit("home");
    reveal_strlit("end");
    reveal_strlit("pageup");
    reveal_strlit("pagedown");
    let name = key_names(code)[i];
    // No name is a function key's: none starts with `f`.
    assert(name[0] != 'f');
}


/// No key name is a modifier name.
proof fn lemma_key_names_are_no_modifiers(code: KeyCode, i: int)
    requires
        0 <= i < key_names(code).len(),
    ensures
        modifier_named(key_names(code)[i]) is None,
{
    reveal_strlit("leader");
    reveal_strlit("ctrl");
    reveal_strlit("control");
    reveal_strlit("shift");
    reveal_strlit("alt");
    reveal_strlit("meta");
    reveal_strlit("opt");
    reveal_strlit("option");
    let name = key_names(code)[i];
    match code {
        KeyCode::Up => reveal_strlit("up"),
        KeyCode::Down => reveal_strlit("down"),
        KeyCode::Left => {
            reveal_strlit("left");
            assert(name.len() == 4);
        },
        KeyCode::Right => reveal_strlit("right"),
        KeyCode::Tab => reveal_strlit("tab"),
        KeyCode::Enter => {
            reveal_strlit("enter");
            reveal_strlit("return");
        },
        KeyCode::Esc => {
            reveal_strlit("esc");
            reveal_strlit("escape");
        },
        KeyCode::Backspace => reveal_strlit("backspace"),
        KeyCode::Delete => {
            reveal_strlit("delete");
            reveal_strlit("del");
        },
        KeyCode::Insert => {
            reveal_strlit("insert");
            reveal_strlit("ins");
        },
        KeyCode::Home => reveal_strlit("home"),
        KeyCode::End => reveal_strlit("end"),
        KeyCode::PageUp => reveal_strlit("pageup"),
        KeyCode::PageDown => reveal_strlit("pagedown"),
        _ => {},
    }
    assert(name[0] != 'c' && name[0] != 's' && name[0] != 'a' && name[0] != 'm' && name[0] != 'o');
    assert(name[0] == 'l' ==> name.len() == 4);
}

/// The modifier names, each with the modifiers it holds: "leader" is Control
/// and Shift together; "ctrl" and "control" are Control; "shift" is Shift;
/// "alt", "meta", "opt" and "option" are Alt. No key name names a modifier.
pub proof fn law_modifier_names(code: KeyCode, i: int)
    requires
        0 <= i < key_names(code).len(),
    ensures
        modifier_named("leader"@) matches Some(m) && m.control && m.shift && !m.alt && !m.super_key
            && !m.hyper && !m.meta,
        modifier_named("ctrl"@) == modifier_named("control"@),
        modifier_named("ctrl"@) matches Some(m) && m.control && !m.shift && !m.alt && !m.super_key
            && !m.hyper && !m.meta,
        modifier_named("shift"@) matches Some(m) && m.shift && !m.control && !m.alt && !m.super_key
            && !m.hyper && !m.meta,
        modifier_named("alt"@) == modifier_named("meta"@),
        modifier_named("alt"@) == modifier_named("opt"@),
        modifier_named("alt"@) == modifier_named("option"@),
        modifier_named("alt"@) matches Some(m) && m.alt && !m.shift && !m.control && !m.super_key
            && !m.hyper && !m.meta,
        modifier_named(key_names(code)[i]) is None,
{
    lemma_key_names_are_no_modifiers(code, i);
    reveal_strlit("leader");
    reveal_strlit("ctrl");
    reveal_strlit("control");
    reveal_strlit("shift");
    reveal_strlit("alt");
    reveal_strlit("meta");
    reveal_strlit("opt");
    reveal_strlit("option");
    assert("leader"@.len() == 6 && "ctrl"@.len() == 4 && "control"@.len() == 7);
    assert("shift"@.len() == 5 && "alt"@.len() == 3 && "meta"@.len() == 4);
    assert("opt"@.len() == 3 && "option"@.len() == 6);
    assert("meta"@[0] == 'm' && "ctrl"@[0] == 'c' && "option"@[0] == 'o' && "leader"@[0] == 'l');
    assert("opt"@[0] == 'o' && "alt"@[0] == 'a');
    assert("ctrl"@ != "leader"@ && "control"@ != "leader"@);
    assert("shift"@ != "leader"@ && "shift"@ != "ctrl"@ && "shift"@ != "control"@);
    assert("alt"@ != "leader"@ && "alt"@ != "ctrl"@ && "alt"@ != "control"@ && "alt"@ != "shift"@);
    assert("meta"@ != "leader"@ && "meta"@ != "ctrl"@ && "meta"@ != "control"@ && "meta"@ != "shift"@);
    assert("opt"@ != "leader"@ && "opt"@ != "ctrl"@ && "opt"@ != "control"@ && "opt"@ != "shift"@);
    assert("option"@ != "leader"@ && "option"@ != "ctrl"@ && "option"@ != "control"@ && "option"@ != "shift"@);
}

/// `F` followed by a number up to 255 in decimal is that function key.
pub proof fn law_function_keys(n: u8, key: Seq<char>)
    ensures
        key_named(key, seq!['f'] + decimal(n as nat)) == Some(KeyCode::F(n)),
{
    let lowered = seq!['f'] + decimal(n as nat);
    law_decimal_parses_back(n as nat, 255);
    assert(lowered.drop_first() =~= decimal(n as nat));
    assert(lowered[0] == 'f');
    assert(lowered.len() > 1) by {
        reveal_with_fuel(decimal, 2);
    }
    reveal_strlit("up");
    reveal_strlit("down");
    reveal_strlit("left");
    reveal_strlit("right");
    reveal_strlit("tab");
    reveal_strlit("enter");
    reveal_strlit("return");
    reveal_strlit("esc");
    reveal_strlit("escape");
    reveal_strlit("backspace");
    reveal_strlit("delete");
    reveal_strlit("del");
    reveal_strlit("insert");
    reveal_strlit("ins");
    reveal_strlit("home");
    reveal_strlit("end");
    reveal_strlit("pageup");
    reveal_strlit("pagedown");
}

} // verus!
