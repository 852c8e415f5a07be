//! VT state machine parser.
//!
//! Based on the Paul Williams VT parser state machine.
//! Reference: <https://vt100.net/emu/dec_ansi_parser>

use vstd::prelude::*;
use vstd::utf8::*;

use crate::params::{Params, ParamsModel};
use crate::text::char_from_u32;

verus! {

/// At most this many intermediate bytes are kept per sequence.
pub const MAX_INTERMEDIATES: usize = 4;

/// At most this many bytes of OSC payload are kept.
pub const MAX_OSC_DATA: usize = 65536;

/// Actions emitted by the parser.
#[derive(Debug, Clone, PartialEq)]
pub enum Action {
    /// Regular printable character.
    Print(char),
    /// C0 or C1 control character.
    Execute(u8),
    /// CSI sequence dispatched.
    CsiDispatch { params: Params, intermediates: Vec<u8>, ignore: bool, action: u8 },
    /// ESC sequence dispatched.
    EscDispatch { intermediates: Vec<u8>, ignore: bool, byte: u8 },
    /// OSC sequence (terminated by BEL or ST).
    OscDispatch(Vec<Vec<u8>>),
    /// DCS sequence hook.
    DcsHook { params: Params, intermediates: Vec<u8>, ignore: bool, byte: u8 },
    /// DCS data byte.
    DcsPut(u8),
    /// DCS sequence unhook.
    DcsUnhook,
    /// APC sequence data.
    ApcDispatch(Vec<u8>),
}

/// An action as a mathematical value.
pub ghost enum ActionModel {
    Print(char),
    Execute(u8),
    CsiDispatch { params: ParamsModel, intermediates: Seq<u8>, ignore: bool, action: u8 },
    EscDispatch { intermediates: Seq<u8>, ignore: bool, byte: u8 },
    OscDispatch(Seq<Seq<u8>>),
    DcsHook { params: ParamsModel, intermediates: Seq<u8>, ignore: bool, byte: u8 },
    DcsPut(u8),
    DcsUnhook,
    ApcDispatch(Seq<u8>),
}

impl View for Action {
    type V = ActionModel;

    open spec fn view(&self) -> ActionModel {
        match self {
            Action::Print(c) => ActionModel::Print(*c),
            Action::Execute(b) => ActionModel::Execute(*b),
            Action::CsiDispatch { params, intermediates, ignore, action } => ActionModel::CsiDispatch {
                params: params@,
                intermediates: intermediates@,
                ignore: *ignore,
                action: *action,
            },
            Action::EscDispatch { intermediates, ignore, byte } => ActionModel::EscDispatch {
                intermediates: intermediates@,
                ignore: *ignore,
                byte: *byte,
            },
            Action::OscDispatch(parts) => ActionModel::OscDispatch(
                parts@.map_values(|p: Vec<u8>| p@),
            ),
            Action::DcsHook { params, intermediates, ignore, byte } => ActionModel::DcsHook {
                params: params@,
                intermediates: intermediates@,
                ignore: *ignore,
                byte: *byte,
            },
            Action::DcsPut(b) => ActionModel::DcsPut(*b),
            Action::DcsUnhook => ActionModel::DcsUnhook,
            Action::ApcDispatch(data) => ActionModel::ApcDispatch(data@),
        }
    }
}

/// The view of an optional action.
pub open spec fn opt_action(a: Option<Action>) -> Option<ActionModel> {
    match a {
        Some(a) => Some(a@),
        None => None,
    }
}

/// Receives the actions of a parser.
///
/// A performer is a state machine of its own: `after` says what taking an
/// action does to it, and `ready` is the invariant it keeps.
pub trait Performer: View + Sized {
    /// The invariant of the performer's state.
    spec fn ready(v: Self::V) -> bool;

    /// The performer's state after it took `action`.
    spec fn after(v: Self::V, action: ActionModel) -> Self::V;

    fn perform(&mut self, action: Action)
        requires
            Self::ready(old(self)@),
        ensures
            Self::ready(final(self)@),
            final(self)@ == Self::after(old(self)@, action@),
    ;
}

/// A performer's state after a sequence of actions, taken in order.
pub open spec fn perform_all<P: Performer>(v: P::V, actions: Seq<ActionModel>) -> P::V
    decreases actions.len(),
{
    if actions.len() == 0 {
        v
    } else {
        P::after(perform_all::<P>(v, actions.drop_last()), actions.last())
    }
}

/// The views of a list of actions, in order.
pub open spec fn action_models(actions: Seq<Action>) -> Seq<ActionModel> {
    actions.map_values(|a: Action| a@)
}

/// A performer that keeps every action it is given, in order.
#[derive(Debug, Clone)]
pub struct ActionLog {
    actions: Vec<Action>,
}

impl View for ActionLog {
    type V = Seq<ActionModel>;

    closed spec fn view(&self) -> Seq<ActionModel> {
        action_models(self.actions@)
    }
}

impl ActionLog {
    /// An empty log.
    pub fn new() -> (r: Self)
        ensures
            r@ == Seq::<ActionModel>::empty(),
    {
        let r = ActionLog { actions: Vec::new() };
        proof {
            assert(action_models(r.actions@) =~= Seq::<ActionModel>::empty());
        }
        r
    }

    /// The actions taken so far, in order.
    pub fn actions(&self) -> (r: &Vec<Action>)
        ensures
            action_models(r@) == self@,
    {
        &self.actions
    }
}

impl Performer for ActionLog {
    open spec fn ready(v: Seq<ActionModel>) -> bool {
        true
    }

    open spec fn after(v: Seq<ActionModel>, action: ActionModel) -> Seq<ActionModel> {
        v.push(action)
    }

    fn perform(&mut self, action: Action) {
        let ghost before = self.actions@;
        let ghost taken = action@;
        self.actions.push(action);
        proof {
            assert(action_models(self.actions@) =~= action_models(before).push(taken));
        }
    }
}

/// VT parser states.
#[derive(Debug, Clone, Copy, PartialEq, Eq, Structural)]
pub enum State {
    Ground,
    Escape,
    EscapeIntermediate,
    CsiEntry,
    CsiParam,
    CsiIntermediate,
    CsiIgnore,
    OscString,
    /// An ESC inside an OSC string: a `\` next completes the string
    /// terminator (ESC \); any other byte starts an escape sequence instead.
    OscStringEscape,
    DcsEntry,
    DcsParam,
    DcsIntermediate,
    DcsPassthrough,
    DcsIgnore,
    SosPmApcString,
    Utf8,
}

/// What the parser holds between two bytes.
pub ghost struct ParserModel {
    pub state: State,
    pub params: ParamsModel,
    pub intermediates: Seq<u8>,
    pub osc: Seq<u8>,
    pub dcs: Seq<u8>,
    /// The bytes of the UTF-8 sequence being collected.
    pub utf8: Seq<u8>,
    /// The length the UTF-8 sequence being collected will have.
    pub utf8_len: nat,
}

/// The width of a UTF-8 sequence that starts with `b`, where it starts one.
pub open spec fn utf8_width(b: u8) -> nat {
    if 0xc0 <= b <= 0xdf {
        2
    } else if 0xe0 <= b <= 0xef {
        3
    } else if 0xf0 <= b <= 0xf7 {
        4
    } else {
        0
    }
}

/// C0 controls that are executed inside escape, CSI and DCS-passthrough states.
pub open spec fn is_exec_c0(b: u8) -> bool {
    b <= 0x17 || b == 0x19 || (0x1c <= b && b <= 0x1f)
}

/// Keep an intermediate byte while there is room for it.
pub open spec fn add_intermediate(s: Seq<u8>, b: u8) -> Seq<u8> {
    if s.len() < MAX_INTERMEDIATES { s.push(b) } else { s }
}

/// The parts of `s` between `;` separators, in order (one part where there is
/// no separator, an empty one at either end where `s` starts or ends with one).
pub open spec fn split_semicolon(s: Seq<u8>) -> Seq<Seq<u8>>
    decreases s.len(),
{
    if s.len() == 0 {
        seq![Seq::<u8>::empty()]
    } else {
        let init = split_semicolon(s.drop_last());
        if s.last() == 0x3b {
            init.push(Seq::<u8>::empty())
        } else {
            init.update(init.len() - 1, init.last().push(s.last()))
        }
    }
}

/// The character that a complete UTF-8 sequence decodes to, if it is valid.
pub open spec fn utf8_char(buf: Seq<u8>) -> Option<char> {
    if valid_utf8(buf) && buf.len() > 0 {
        Some(decode_utf8(buf)[0])
    } else {
        None
    }
}

impl ParserModel {
    /// The state of a fresh parser.
    pub open spec fn initial() -> ParserModel {
        ParserModel {
            state: State::Ground,
            params: ParamsModel::empty(),
            intermediates: Seq::empty(),
            osc: Seq::empty(),
            dcs: Seq::empty(),
            utf8: Seq::empty(),
            utf8_len: 0,
        }
    }

    /// The invariant every reachable parser keeps.
    pub open spec fn wf(self) -> bool {
        &&& self.params.wf()
        &&& self.intermediates.len() <= MAX_INTERMEDIATES
        &&& self.osc.len() <= MAX_OSC_DATA
        &&& self.state == State::Utf8 ==> {
            &&& 1 <= self.utf8.len() < self.utf8_len
            &&& self.utf8_len == utf8_width(self.utf8[0])
        }
    }

    pub open spec fn goto(self, s: State) -> ParserModel {
        ParserModel { state: s, ..self }
    }

    /// Enter a CSI or DCS sequence: parameters and intermediates start empty.
    pub open spec fn enter_sequence(self, s: State) -> ParserModel {
        ParserModel { state: s, params: ParamsModel::empty(), intermediates: Seq::empty(), ..self }
    }

    pub open spec fn with_intermediate(self, b: u8) -> ParserModel {
        ParserModel { intermediates: add_intermediate(self.intermediates, b), ..self }
    }

    pub open spec fn with_param(self, b: u8) -> ParserModel {
        ParserModel { params: self.params.push(b), ..self }
    }

    pub open spec fn csi_dispatch(self, b: u8) -> ActionModel {
        ActionModel::CsiDispatch {
            params: self.params,
            intermediates: self.intermediates,
            ignore: false,
            action: b,
        }
    }

    pub open spec fn esc_dispatch(self, b: u8) -> ActionModel {
        ActionModel::EscDispatch { intermediates: self.intermediates, ignore: false, byte: b }
    }

    pub open spec fn dcs_hook(self, b: u8) -> ActionModel {
        ActionModel::DcsHook {
            params: self.params,
            intermediates: self.intermediates,
            ignore: false,
            byte: b,
        }
    }

    /// The ground state: print, execute, or start a sequence.
    pub open spec fn ground(self, b: u8) -> (ParserModel, Option<ActionModel>) {
        if b <= 0x1f {
            (self, Some(ActionModel::Execute(b)))
        } else if b <= 0x7e {
            (self, Some(ActionModel::Print(b as char)))
        } else if (0x80 <= b <= 0x8f) || (0x91 <= b <= 0x97) || b == 0x99 || b == 0x9a {
            (self, Some(ActionModel::Execute(b)))
        } else if b == 0x90 {
            (self.enter_sequence(State::DcsEntry), None)
        } else if b == 0x98 || b == 0x9e || b == 0x9f {
            (self.goto(State::SosPmApcString), None)
        } else if b == 0x9b {
            (self.enter_sequence(State::CsiEntry), None)
        } else if b == 0x9d {
            (ParserModel { state: State::OscString, osc: Seq::empty(), ..self }, None)
        } else if utf8_width(b) > 0 {
            (ParserModel { state: State::Utf8, utf8: seq![b], utf8_len: utf8_width(b), ..self }, None)
        } else {
            (self, None)
        }
    }

    pub open spec fn escape(self, b: u8) -> (ParserModel, Option<ActionModel>) {
        if is_exec_c0(b) {
            (self, Some(ActionModel::Execute(b)))
        } else if 0x20 <= b <= 0x2f {
            (self.with_intermediate(b).goto(State::EscapeIntermediate), None)
        } else if b == 0x50 {
            (self.enter_sequence(State::DcsEntry), None)
        } else if b == 0x58 || b == 0x5e || b == 0x5f {
            (self.goto(State::SosPmApcString), None)
        } else if b == 0x5b {
            (self.enter_sequence(State::CsiEntry), None)
        } else if b == 0x5d {
            (ParserModel { state: State::OscString, osc: Seq::empty(), ..self }, None)
        } else if 0x30 <= b <= 0x7e {
            (self.goto(State::Ground), Some(self.esc_dispatch(b)))
        } else if b == 0x7f {
            (self, None)
        } else {
            (self.goto(State::Ground), None)
        }
    }

    pub open spec fn escape_intermediate(self, b: u8) -> (ParserModel, Option<ActionModel>) {
        if is_exec_c0(b) {
            (self, Some(ActionModel::Execute(b)))
        } else if 0x20 <= b <= 0x2f {
            (self.with_intermediate(b), None)
        } else if 0x30 <= b <= 0x7e {
            (self.goto(State::Ground), Some(self.esc_dispatch(b)))
        } else if b == 0x7f {
            (self, None)
        } else {
            (self.goto(State::Ground), None)
        }
    }

    pub open spec fn csi_entry(self, b: u8) -> (ParserModel, Option<ActionModel>) {
        if is_exec_c0(b) {
            (self, Some(ActionModel::Execute(b)))
        } else if 0x20 <= b <= 0x2f {
            (self.with_intermediate(b).goto(State::CsiIntermediate), None)
        } else if 0x30 <= b <= 0x3b {
            (self.with_param(b).goto(State::CsiParam), None)
        } else if 0x3c <= b <= 0x3f {
            (self.with_intermediate(b).goto(State::CsiParam), None)
        } else if 0x40 <= b <= 0x7e {
            (self.goto(State::Ground), Some(self.csi_dispatch(b)))
        } else if b == 0x7f {
            (self, None)
        } else {
            (self.goto(State::Ground), None)
        }
    }

    pub open spec fn csi_param(self, b: u8) -> (ParserModel, Option<ActionModel>) {
        if is_exec_c0(b) {
            (self, Some(ActionModel::Execute(b)))
        } else if 0x20 <= b <= 0x2f {
            (self.with_intermediate(b).goto(State::CsiIntermediate), None)
        } else if 0x30 <= b <= 0x3b {
            (self.with_param(b), None)
        } else if 0x3c <= b <= 0x3f {
            (self.goto(State::CsiIgnore), None)
        } else if 0x40 <= b <= 0x7e {
            (self.goto(State::Ground), Some(self.csi_dispatch(b)))
        } else if b == 0x7f {
            (self, None)
        } else {
            (self.goto(State::Ground), None)
        }
    }

    pub open spec fn csi_intermediate(self, b: u8) -> (ParserModel, Option<ActionModel>) {
        if is_exec_c0(b) {
            (self, Some(ActionModel::Execute(b)))
        } else if 0x20 <= b <= 0x2f {
            (self.with_intermediate(b), None)
        } else if 0x30 <= b <= 0x3f {
            (self.goto(State::CsiIgnore), None)
        } else if 0x40 <= b <= 0x7e {
            (self.goto(State::Ground), Some(self.csi_dispatch(b)))
        } else if b == 0x7f {
            (self, None)
        } else {
            (self.goto(State::Ground), None)
        }
    }

    pub open spec fn csi_ignore(self, b: u8) -> (ParserModel, Option<ActionModel>) {
        if is_exec_c0(b) {
            (self, Some(ActionModel::Execute(b)))
        } else if 0x40 <= b <= 0x7e {
            (self.goto(State::Ground), None)
        } else {
            (self, None)
        }
    }

    pub open spec fn osc_string(self, b: u8) -> (ParserModel, Option<ActionModel>) {
        if b == 0x07 || b == 0x9c {
            (self.goto(State::Ground), Some(ActionModel::OscDispatch(split_semicolon(self.osc))))
        } else if b <= 0x1f {
            (self, None)
        } else if self.osc.len() < MAX_OSC_DATA {
            (ParserModel { osc: self.osc.push(b), ..self }, None)
        } else {
            (self, None)
        }
    }

    /// The byte after an ESC inside an OSC string: `\` completes the string
    /// terminator and dispatches the string; any other byte is taken as the
    /// escape sequence that the ESC began, and the string is dropped.
    pub open spec fn osc_string_escape(self, b: u8) -> (ParserModel, Option<ActionModel>) {
        if b == 0x5c {
            (self.goto(State::Ground), Some(ActionModel::OscDispatch(split_semicolon(self.osc))))
        } else {
            self.goto(State::Escape).escape(b)
        }
    }

    pub open spec fn dcs_entry(self, b: u8) -> (ParserModel, Option<ActionModel>) {
        if 0x20 <= b <= 0x2f {
            (self.with_intermediate(b).goto(State::DcsIntermediate), None)
        } else if (0x30 <= b <= 0x39) || b == 0x3b {
            (self.with_param(b).goto(State::DcsParam), None)
        } else if 0x3c <= b <= 0x3f {
            (self.with_intermediate(b).goto(State::DcsParam), None)
        } else if 0x40 <= b <= 0x7e {
            (self.goto(State::DcsPassthrough), None)
        } else {
            (self.goto(State::DcsIgnore), None)
        }
    }

    pub open spec fn dcs_param(self, b: u8) -> (ParserModel, Option<ActionModel>) {
        if (0x30 <= b <= 0x39) || b == 0x3b {
            (self.with_param(b), None)
        } else if 0x20 <= b <= 0x2f {
            (self.with_intermediate(b).goto(State::DcsIntermediate), None)
        } else if 0x40 <= b <= 0x7e {
            (
                ParserModel { state: State::DcsPassthrough, dcs: Seq::empty(), ..self },
                Some(self.dcs_hook(b)),
            )
        } else if b == 0x3a || (0x3c <= b <= 0x3f) {
            (self.goto(State::DcsIgnore), None)
        } else {
            (self, None)
        }
    }

    pub open spec fn dcs_intermediate(self, b: u8) -> (ParserModel, Option<ActionModel>) {
        if 0x20 <= b <= 0x2f {
            (self.with_intermediate(b), None)
        } else if 0x40 <= b <= 0x7e {
            (
                ParserModel { state: State::DcsPassthrough, dcs: Seq::empty(), ..self },
                Some(self.dcs_hook(b)),
            )
        } else if 0x30 <= b <= 0x3f {
            (self.goto(State::DcsIgnore), None)
        } else {
            (self, None)
        }
    }

    pub open spec fn dcs_passthrough(self, b: u8) -> (ParserModel, Option<ActionModel>) {
        if b == 0x9c {
            (self.goto(State::Ground), Some(ActionModel::DcsUnhook))
        } else if is_exec_c0(b) || (0x20 <= b <= 0x7e) {
            (self, Some(ActionModel::DcsPut(b)))
        } else {
            (self, None)
        }
    }

    /// DCS-ignore and SOS/PM/APC strings: everything up to ST is dropped.
    pub open spec fn until_st(self, b: u8) -> (ParserModel, Option<ActionModel>) {
        if b == 0x9c {
            (self.goto(State::Ground), None)
        } else {
            (self, None)
        }
    }

    /// One more byte of a UTF-8 sequence; the last one prints the character
    /// it completes, where the sequence is valid.
    pub open spec fn utf8_continue(self, b: u8) -> (ParserModel, Option<ActionModel>) {
        let buf = self.utf8.push(b);
        if buf.len() == self.utf8_len {
            (
                ParserModel { state: State::Ground, utf8: buf, ..self },
                match utf8_char(buf) {
                    Some(c) => Some(ActionModel::Print(c)),
                    None => None,
                },
            )
        } else {
            (ParserModel { utf8: buf, ..self }, None)
        }
    }

    /// The parser after one byte, and the action that byte produced.
    pub open spec fn step(self, b: u8) -> (ParserModel, Option<ActionModel>) {
        if self.state == State::Utf8 {
            self.utf8_continue(b)
        } else if b == 0x18 || b == 0x1a {
            (self.goto(State::Ground), Some(ActionModel::Execute(b)))
        } else if b == 0x1b {
            (
                ParserModel {
                    state: if self.state == State::OscString {
                        State::OscStringEscape
                    } else {
                        State::Escape
                    },
                    intermediates: Seq::empty(),
                    ..self
                },
                None,
            )
        } else {
            match self.state {
                State::Ground => self.ground(b),
                State::Escape => self.escape(b),
                State::EscapeIntermediate => self.escape_intermediate(b),
                State::CsiEntry => self.csi_entry(b),
                State::CsiParam => self.csi_param(b),
                State::CsiIntermediate => self.csi_intermediate(b),
                State::CsiIgnore => self.csi_ignore(b),
                State::OscString => self.osc_string(b),
                State::OscStringEscape => self.osc_string_escape(b),
                State::DcsEntry => self.dcs_entry(b),
                State::DcsParam => self.dcs_param(b),
                State::DcsIntermediate => self.dcs_intermediate(b),
                State::DcsPassthrough => self.dcs_passthrough(b),
                State::DcsIgnore => self.until_st(b),
                State::SosPmApcString => self.until_st(b),
                State::Utf8 => (self, None),
            }
        }
    }

    /// The parser after a sequence of bytes, and the actions they produced,
    /// in order.
    pub open spec fn run(self, bytes: Seq<u8>) -> (ParserModel, Seq<ActionModel>)
        decreases bytes.len(),
    {
        if bytes.len() == 0 {
            (self, Seq::empty())
        } else {
            let (mid, acts) = self.run(bytes.drop_last());
            let (next, act) = mid.step(bytes.last());
            (
                next,
                match act {
                    Some(a) => acts.push(a),
                    None => acts,
                },
            )
        }
    }
}

} // verus!

verus! {

/// Decode a complete UTF-8 sequence of two to four bytes whose first byte
/// announces its length.
fn decode_utf8_char(buf: &Vec<u8>) -> (r: Option<char>)
    requires
        2 <= buf@.len() <= 4,
        buf@.len() == utf8_width(buf@[0]),
    ensures
        r == utf8_char(buf@),
{
    let b0 = buf[0];
    let n = buf.len();
    let b1 = buf[1];
    let cont1 = 0x80 <= b1 && b1 <= 0xbf;
    let (cp, cont_ok, not_overlong) = if n == 2 {
        let cp: u32 = (((b0 & 0x1f) as u32) << 6u32) | ((b1 & 0x3f) as u32);
        assert(cp <= 0x7ff) by (bit_vector)
            requires
                cp == (((b0 & 0x1f) as u32) << 6u32) | ((b1 & 0x3f) as u32),
        ;
        (cp, cont1, 0x80 <= cp)
    } else if n == 3 {
        let b2 = buf[2];
        let cp: u32 = (((b0 & 0x0f) as u32) << 12u32) | (((b1 & 0x3f) as u32) << 6u32) | ((b2
            & 0x3f) as u32);
        assert(cp <= 0xffff) by (bit_vector)
            requires
                cp == (((b0 & 0x0f) as u32) << 12u32) | (((b1 & 0x3f) as u32) << 6u32) | ((b2
                    & 0x3f) as u32),
        ;
        (cp, cont1 && 0x80 <= b2 && b2 <= 0xbf, 0x800 <= cp)
    } else {
        let b2 = buf[2];
        let b3 = buf[3];
        let cp: u32 = (((b0 & 0x07) as u32) << 18u32) | (((b1 & 0x3f) as u32) << 12u32) | (((b2
            & 0x3f) as u32) << 6u32) | ((b3 & 0x3f) as u32);
        (
            cp,
            cont1 && 0x80 <= b2 && b2 <= 0xbf && 0x80 <= b3 && b3 <= 0xbf,
            0x10000 <= cp && cp <= 0x10ffff,
        )
    };
    proof {
        let s = buf@;
        assert(length_of_first_codepoint(s) == n);
        assert(pop_first_scalar(s) =~= Seq::<u8>::empty());
        assert(valid_utf8(Seq::<u8>::empty()));
        assert(cont_ok == valid_leading_and_continuation_bytes_first_codepoint(s));
        if cont_ok {
            assert(cp == decode_first_codepoint(s));
            assert(not_overlong == not_overlong_encoding(decode_first_codepoint(s), n as int));
        }
        if valid_utf8(s) {
            assert(decode_utf8(Seq::<u8>::empty()) =~= Seq::<char>::empty());
            assert(decode_utf8(s) =~= seq![decode_first_scalar(s) as char]);
        }
    }
    if cont_ok && not_overlong && !(0xd800 <= cp && cp <= 0xdfff) {
        char_from_u32(cp)
    } else {
        None
    }
}

/// The VT escape sequence parser.
pub struct Parser {
    state: State,
    params: Params,
    intermediates: Vec<u8>,
    osc_data: Vec<u8>,
    dcs_data: Vec<u8>,
    utf8_buf: Vec<u8>,
    utf8_len: u8,
}

impl View for Parser {
    type V = ParserModel;

    closed spec fn view(&self) -> ParserModel {
        ParserModel {
            state: self.state,
            params: self.params@,
            intermediates: self.intermediates@,
            osc: self.osc_data@,
            dcs: self.dcs_data@,
            utf8: self.utf8_buf@,
            utf8_len: self.utf8_len as nat,
        }
    }
}

impl Default for Parser {
    /// A parser in the ground state with nothing collected.
    fn default() -> (p: Self)
        ensures
            p@ == ParserModel::initial(),
            p@.wf(),
    {
        Parser::new()
    }
}

impl Parser {
    pub fn new() -> (p: Self)
        ensures
            p@ == ParserModel::initial(),
            p@.wf(),
    {
        Self {
            state: State::Ground,
            params: Params::new(),
            intermediates: Vec::new(),
            osc_data: Vec::new(),
            dcs_data: Vec::new(),
            utf8_buf: Vec::new(),
            utf8_len: 0,
        }
    }

    /// Feed a slice of bytes to the parser, handing each action it produces
    /// to `performer` in order.
    pub fn advance<P: Performer>(&mut self, performer: &mut P, bytes: &[u8])
        requires
            old(self)@.wf(),
            P::ready(old(performer)@),
        ensures
            final(self)@.wf(),
            final(self)@ == old(self)@.run(bytes@).0,
            P::ready(final(performer)@),
            final(performer)@ == perform_all::<P>(old(performer)@, old(self)@.run(bytes@).1),
    {
        let ghost m0 = self@;
        let ghost v0 = performer@;
        let mut i: usize = 0;
        while i < bytes.len()
            invariant
                0 <= i <= bytes@.len(),
                self@.wf(),
                self@ == m0.run(bytes@.take(i as int)).0,
                P::ready(performer@),
                performer@ == perform_all::<P>(v0, m0.run(bytes@.take(i as int)).1),
            decreases bytes@.len() - i,
        {
            proof {
                assert(bytes@.take(i + 1).drop_last() =~= bytes@.take(i as int));
            }
            let ghost acts = m0.run(bytes@.take(i as int)).1;
            let action = self.advance_byte(bytes[i]);
            match action {
                Some(a) => {
                    proof {
                        assert(acts.push(a@).drop_last() =~= acts);
                    }
                    performer.perform(a);
                },
                None => {},
            }
            i = i + 1;
        }
        proof {
            assert(bytes@.take(bytes@.len() as int) =~= bytes@);
        }
    }

    fn goto(&mut self, s: State)
        ensures
            final(self)@ == old(self)@.goto(s),
    {
        self.state = s;
    }

    fn enter_sequence(&mut self, s: State)
        ensures
            final(self)@ == old(self)@.enter_sequence(s),
    {
        self.state = s;
        self.params.clear();
        self.intermediates.clear();
    }

    fn add_intermediate(&mut self, b: u8)
        ensures
            final(self)@ == old(self)@.with_intermediate(b),
    {
        if self.intermediates.len() < MAX_INTERMEDIATES {
            self.intermediates.push(b);
        }
    }

    fn add_param(&mut self, b: u8)
        requires
            old(self)@.wf(),
        ensures
            final(self)@ == old(self)@.with_param(b),
    {
        self.params.push(b);
    }

    fn enter_osc(&mut self)
        ensures
            final(self)@ == (ParserModel { state: State::OscString, osc: Seq::empty(), ..old(self)@ }),
    {
        self.state = State::OscString;
        self.osc_data.clear();
    }

    fn csi_dispatch(&self, b: u8) -> (a: Action)
        ensures
            a@ == self@.csi_dispatch(b),
    {
        Action::CsiDispatch {
            params: self.params.duplicate(),
            intermediates: self.intermediates.clone(),
            ignore: false,
            action: b,
        }
    }

    fn esc_dispatch(&self, b: u8) -> (a: Action)
        ensures
            a@ == self@.esc_dispatch(b),
    {
        Action::EscDispatch { intermediates: self.intermediates.clone(), ignore: false, byte: b }
    }

    fn dcs_hook(&mut self, b: u8) -> (a: Option<Action>)
        ensures
            final(self)@ == (ParserModel { state: State::DcsPassthrough, dcs: Seq::empty(), ..old(self)@ }),
            opt_action(a) == Some(old(self)@.dcs_hook(b)),
    {
        let a = Action::DcsHook {
            params: self.params.duplicate(),
            intermediates: self.intermediates.clone(),
            ignore: false,
            byte: b,
        };
        self.dcs_data.clear();
        self.state = State::DcsPassthrough;
        Some(a)
    }

    fn advance_byte(&mut self, byte: u8) -> (r: Option<Action>)
        requires
            old(self)@.wf(),
        ensures
            final(self)@.wf(),
            (final(self)@, opt_action(r)) == old(self)@.step(byte),
    {
        proof {
            lemma_step_wf(self@, byte);
        }
        if self.state == State::Utf8 {
            return self.utf8_continue(byte);
        }
        if byte == 0x18 || byte == 0x1a {
            self.state = State::Ground;
            return Some(Action::Execute(byte));
        }
        if byte == 0x1b {
            self.state = if self.state == State::OscString {
                State::OscStringEscape
            } else {
                State::Escape
            };
            self.intermediates.clear();
            return None;
        }
        match self.state {
            State::Ground => self.ground(byte),
            State::Escape => self.escape(byte),
            State::EscapeIntermediate => self.escape_intermediate(byte),
            State::CsiEntry => self.csi_entry(byte),
            State::CsiParam => self.csi_param(byte),
            State::CsiIntermediate => self.csi_intermediate(byte),
            State::CsiIgnore => self.csi_ignore(byte),
            State::OscString => self.osc_string(byte),
            State::OscStringEscape => self.osc_string_escape(byte),
            State::DcsEntry => self.dcs_entry(byte),
            State::DcsParam => self.dcs_param(byte),
            State::DcsIntermediate => self.dcs_intermediate(byte),
            State::DcsPassthrough => self.dcs_passthrough(byte),
            State::DcsIgnore => self.until_st(byte),
            State::SosPmApcString => self.until_st(byte),
            State::Utf8 => None,
        }
    }

    fn utf8_continue(&mut self, b: u8) -> (r: Option<Action>)
        requires
            old(self)@.wf(),
            old(self)@.state == State::Utf8,
        ensures
            (final(self)@, opt_action(r)) == old(self)@.utf8_continue(b),
    {
        self.utf8_buf.push(b);
        if self.utf8_buf.len() == self.utf8_len as usize {
            self.state = State::Ground;
            match decode_utf8_char(&self.utf8_buf) {
                Some(c) => Some(Action::Print(c)),
                None => None,
            }
        } else {
            None
        }
    }

    fn ground(&mut self, b: u8) -> (r: Option<Action>)
        ensures
            (final(self)@, opt_action(r)) == old(self)@.ground(b),
    {
        if b <= 0x1f {
            Some(Action::Execute(b))
        } else if b <= 0x7e {
            Some(Action::Print(b as char))
        } else if (0x80 <= b && b <= 0x8f) || (0x91 <= b && b <= 0x97) || b == 0x99 || b == 0x9a {
            Some(Action::Execute(b))
        } else if b == 0x90 {
            self.enter_sequence(State::DcsEntry);
            None
        } else if b == 0x98 || b == 0x9e || b == 0x9f {
            self.goto(State::SosPmApcString);
            None
        } else if b == 0x9b {
            self.enter_sequence(State::CsiEntry);
            None
        } else if b == 0x9d {
            self.enter_osc();
            None
        } else if 0xc0 <= b && b <= 0xf7 {
            self.utf8_buf.clear();
            self.utf8_buf.push(b);
            self.utf8_len = if b <= 0xdf { 2 } else if b <= 0xef { 3 } else { 4 };
            self.state = State::Utf8;
            proof {
                assert(self.utf8_buf@ =~= seq![b]);
            }
            None
        } else {
            None
        }
    }

    fn escape(&mut self, b: u8) -> (r: Option<Action>)
        ensures
            (final(self)@, opt_action(r)) == old(self)@.escape(b),
    {
        if b <= 0x17 || b == 0x19 || (0x1c <= b && b <= 0x1f) {
            Some(Action::Execute(b))
        } else if 0x20 <= b && b <= 0x2f {
            self.add_intermediate(b);
            self.goto(State::EscapeIntermediate);
            None
        } else if b == 0x50 {
            self.enter_sequence(State::DcsEntry);
            None
        } else if b == 0x58 || b == 0x5e || b == 0x5f {
            self.goto(State::SosPmApcString);
            None
        } else if b == 0x5b {
            self.enter_sequence(State::CsiEntry);
            None
        } else if b == 0x5d {
            self.enter_osc();
            None
        } else if 0x30 <= b && b <= 0x7e {
            let a = self.esc_dispatch(b);
            self.goto(State::Ground);
            Some(a)
        } else if b == 0x7f {
            None
        } else {
            self.goto(State::Ground);
            None
        }
    }

    fn escape_intermediate(&mut self, b: u8) -> (r: Option<Action>)
        ensures
            (final(self)@, opt_action(r)) == old(self)@.escape_intermediate(b),
    {
        if b <= 0x17 || b == 0x19 || (0x1c <= b && b <= 0x1f) {
            Some(Action::Execute(b))
        } else if 0x20 <= b && b <= 0x2f {
            self.add_intermediate(b);
            None
        } else if 0x30 <= b && b <= 0x7e {
            let a = self.esc_dispatch(b);
            self.goto(State::Ground);
            Some(a)
        } else if b == 0x7f {
            None
        } else {
            self.goto(State::Ground);
            None
        }
    }

    fn csi_entry(&mut self, b: u8) -> (r: Option<Action>)
        requires
            old(self)@.wf(),
        ensures
            (final(self)@, opt_action(r)) == old(self)@.csi_entry(b),
    {
        if b <= 0x17 || b == 0x19 || (0x1c <= b && b <= 0x1f) {
            Some(Action::Execute(b))
        } else if 0x20 <= b && b <= 0x2f {
            self.add_intermediate(b);
            self.goto(State::CsiIntermediate);
            None
        } else if 0x30 <= b && b <= 0x3b {
            self.add_param(b);
            self.goto(State::CsiParam);
            None
        } else if 0x3c <= b && b <= 0x3f {
            self.add_intermediate(b);
            self.goto(State::CsiParam);
            None
        } else if 0x40 <= b && b <= 0x7e {
            let a = self.csi_dispatch(b);
            self.goto(State::Ground);
            Some(a)
        } else if b == 0x7f {
            None
        } else {
            self.goto(State::Ground);
            None
        }
    }

    fn csi_param(&mut self, b: u8) -> (r: Option<Action>)
        requires
            old(self)@.wf(),
        ensures
            (final(self)@, opt_action(r)) == old(self)@.csi_param(b),
    {
        if b <= 0x17 || b == 0x19 || (0x1c <= b && b <= 0x1f) {
            Some(Action::Execute(b))
        } else if 0x20 <= b && b <= 0x2f {
            self.add_intermediate(b);
            self.goto(State::CsiIntermediate);
            None
        } else if 0x30 <= b && b <= 0x3b {
            self.add_param(b);
            None
        } else if 0x3c <= b && b <= 0x3f {
            self.goto(State::CsiIgnore);
            None
        } else if 0x40 <= b && b <= 0x7e {
            let a = self.csi_dispatch(b);
            self.goto(State::Ground);
            Some(a)
        } else if b == 0x7f {
            None
        } else {
            self.goto(State::Ground);
            None
        }
    }

    fn csi_intermediate(&mut self, b: u8) -> (r: Option<Action>)
        ensures
            (final(self)@, opt_action(r)) == old(self)@.csi_intermediate(b),
    {
        if b <= 0x17 || b == 0x19 || (0x1c <= b && b <= 0x1f) {
            Some(Action::Execute(b))
        } else if 0x20 <= b && b <= 0x2f {
            self.add_intermediate(b);
            None
        } else if 0x30 <= b && b <= 0x3f {
            self.goto(State::CsiIgnore);
            None
        } else if 0x40 <= b && b <= 0x7e {
            let a = self.csi_dispatch(b);
            self.goto(State::Ground);
            Some(a)
        } else if b == 0x7f {
            None
        } else {
            self.goto(State::Ground);
            None
        }
    }

    fn csi_ignore(&mut self, b: u8) -> (r: Option<Action>)
        ensures
            (final(self)@, opt_action(r)) == old(self)@.csi_ignore(b),
    {
        if b <= 0x17 || b == 0x19 || (0x1c <= b && b <= 0x1f) {
            Some(Action::Execute(b))
        } else if 0x40 <= b && b <= 0x7e {
            self.goto(State::Ground);
            None
        } else {
            None
        }
    }

    fn osc_string(&mut self, b: u8) -> (r: Option<Action>)
        ensures
            (final(self)@, opt_action(r)) == old(self)@.osc_string(b),
    {
        if b == 0x07 || b == 0x9c {
            let parts = split_on_semicolon(&self.osc_data);
            self.goto(State::Ground);
            Some(Action::OscDispatch(parts))
        } else if b <= 0x1f {
            None
        } else {
            if self.osc_data.len() < MAX_OSC_DATA {
                self.osc_data.push(b);
            }
            None
        }
    }

    fn osc_string_escape(&mut self, b: u8) -> (r: Option<Action>)
        requires
            old(self)@.wf(),
        ensures
            (final(self)@, opt_action(r)) == old(self)@.osc_string_escape(b),
    {
        if b == 0x5c {
            let parts = split_on_semicolon(&self.osc_data);
            self.goto(State::Ground);
            Some(Action::OscDispatch(parts))
        } else {
            self.goto(State::Escape);
            self.escape(b)
        }
    }

    fn dcs_entry(&mut self, b: u8) -> (r: Option<Action>)
        requires
            old(self)@.wf(),
        ensures
            (final(self)@, opt_action(r)) == old(self)@.dcs_entry(b),
    {
        if 0x20 <= b && b <= 0x2f {
            self.add_intermediate(b);
            self.goto(State::DcsIntermediate);
        } else if (0x30 <= b && b <= 0x39) || b == 0x3b {
            self.add_param(b);
            self.goto(State::DcsParam);
        } else if 0x3c <= b && b <= 0x3f {
            self.add_intermediate(b);
            self.goto(State::DcsParam);
        } else if 0x40 <= b && b <= 0x7e {
            self.goto(State::DcsPassthrough);
        } else {
            self.goto(State::DcsIgnore);
        }
        None
    }

    fn dcs_param(&mut self, b: u8) -> (r: Option<Action>)
        requires
            old(self)@.wf(),
        ensures
            (final(self)@, opt_action(r)) == old(self)@.dcs_param(b),
    {
        if (0x30 <= b && b <= 0x39) || b == 0x3b {
            self.add_param(b);
            None
        } else if 0x20 <= b && b <= 0x2f {
            self.add_intermediate(b);
            self.goto(State::DcsIntermediate);
            None
        } else if 0x40 <= b && b <= 0x7e {
            self.dcs_hook(b)
        } else if b == 0x3a || (0x3c <= b && b <= 0x3f) {
            self.goto(State::DcsIgnore);
            None
        } else {
            None
        }
    }

    fn dcs_intermediate(&mut self, b: u8) -> (r: Option<Action>)
        ensures
            (final(self)@, opt_action(r)) == old(self)@.dcs_intermediate(b),
    {
        if 0x20 <= b && b <= 0x2f {
            self.add_intermediate(b);
            None
        } else if 0x40 <= b && b <= 0x7e {
            self.dcs_hook(b)
        } else if 0x30 <= b && b <= 0x3f {
            self.goto(State::DcsIgnore);
            None
        } else {
            None
        }
    }

    fn dcs_passthrough(&mut self, b: u8) -> (r: Option<Action>)
        ensures
            (final(self)@, opt_action(r)) == old(self)@.dcs_passthrough(b),
    {
        if b == 0x9c {
            self.goto(State::Ground);
            Some(Action::DcsUnhook)
        } else if (b <= 0x17 || b == 0x19 || (0x1c <= b && b <= 0x1f)) || (0x20 <= b && b <= 0x7e) {
            Some(Action::DcsPut(b))
        } else {
            None
        }
    }

    fn until_st(&mut self, b: u8) -> (r: Option<Action>)
        ensures
            (final(self)@, opt_action(r)) == old(self)@.until_st(b),
    {
        if b == 0x9c {
            self.goto(State::Ground);
        }
        None
    }
}

/// Split OSC data into its `;`-separated parts.
fn split_on_semicolon(data: &Vec<u8>) -> (parts: Vec<Vec<u8>>)
    ensures
        parts@.map_values(|p: Vec<u8>| p@) == split_semicolon(data@),
{
    let mut parts: Vec<Vec<u8>> = Vec::new();
    let mut cur: Vec<u8> = Vec::new();
    let mut i: usize = 0;
    while i < data.len()
        invariant
            0 <= i <= data@.len(),
            parts@.map_values(|p: Vec<u8>| p@).push(cur@) == split_semicolon(data@.take(i as int)),
        decreases data@.len() - i,
    {
        proof {
            assert(data@.take(i + 1).drop_last() =~= data@.take(i as int));
            lemma_split_nonempty(data@.take(i as int));
        }
        let b = data[i];
        if b == 0x3b {
            let done = cur;
            parts.push(done);
            cur = Vec::new();
            proof {
                assert(parts@.map_values(|p: Vec<u8>| p@).push(cur@) =~= split_semicolon(
                    data@.take(i as int),
                ).push(Seq::<u8>::empty()));
            }
        } else {
            cur.push(b);
            proof {
                let prev = split_semicolon(data@.take(i as int));
                assert(parts@.map_values(|p: Vec<u8>| p@).push(cur@) =~= prev.update(
                    prev.len() - 1,
                    prev.last().push(b),
                ));
            }
        }
        i = i + 1;
    }
    parts.push(cur);
    proof {
        assert(data@.take(data@.len() as int) =~= data@);
    }
    parts
}

/// The `;`-separated parts of any data are at least one.
pub proof fn lemma_split_nonempty(s: Seq<u8>)
    ensures
        split_semicolon(s).len() >= 1,
    decreases s.len(),
{
    if s.len() > 0 {
        lemma_split_nonempty(s.drop_last());
    }
}

/// Every step keeps the parser's invariant.
pub proof fn lemma_step_wf(m: ParserModel, b: u8)
    requires
        m.wf(),
    ensures
        m.step(b).0.wf(),
{
    crate::params::lemma_push_wf(m.params, b);
    assert(ParamsModel::empty().wf());
    if m.state == State::Ground && utf8_width(b) > 0 {
        assert(seq![b][0] == b);
    }
}

} // verus!

verus! {

/// Running the parser keeps its invariant, whatever the bytes.
pub proof fn law_run_keeps_wf(m: ParserModel, bytes: Seq<u8>)
    requires
        m.wf(),
    ensures
        m.run(bytes).0.wf(),
    decreases bytes.len(),
{
    if bytes.len() > 0 {
        law_run_keeps_wf(m, bytes.drop_last());
        lemma_step_wf(m.run(bytes.drop_last()).0, bytes.last());
    }
}

/// Each byte produces at most one action.
pub proof fn law_at_most_one_action_per_byte(m: ParserModel, bytes: Seq<u8>)
    ensures
        m.run(bytes).1.len() <= bytes.len(),
    decreases bytes.len(),
{
    if bytes.len() > 0 {
        law_at_most_one_action_per_byte(m, bytes.drop_last());
    }
}

/// Streaming: parsing `a` and then `b` leaves the parser where parsing `a + b`
/// at once does, and produces the same actions in the same order.
pub proof fn lemma_run_concat(m: ParserModel, a: Seq<u8>, b: Seq<u8>)
    ensures
        m.run(a + b).0 == m.run(a).0.run(b).0,
        m.run(a + b).1 == m.run(a).1 + m.run(a).0.run(b).1,
    decreases b.len(),
{
    if b.len() == 0 {
        assert(a + b =~= a);
        assert(m.run(a).1 + Seq::<ActionModel>::empty() =~= m.run(a).1);
    } else {
        lemma_run_concat(m, a, b.drop_last());
        assert((a + b).drop_last() =~= a + b.drop_last());
        assert((a + b).last() == b.last());
        let mid = m.run(a).0;
        let (x, xs) = mid.run(b.drop_last());
        let (y, act) = x.step(b.last());
        match act {
            Some(ac) => {
                assert(m.run(a).1 + xs.push(ac) =~= (m.run(a).1 + xs).push(ac));
            },
            None => {},
        }
    }
}

/// A performer that takes the actions of `a` and then those of `b` ends where
/// it ends after taking all of them at once.
pub proof fn lemma_perform_all_concat<P: Performer>(
    v: P::V,
    a: Seq<ActionModel>,
    b: Seq<ActionModel>,
)
    ensures
        perform_all::<P>(v, a + b) == perform_all::<P>(perform_all::<P>(v, a), b),
    decreases b.len(),
{
    if b.len() == 0 {
        assert(a + b =~= a);
    } else {
        lemma_perform_all_concat::<P>(v, a, b.drop_last());
        assert((a + b).drop_last() =~= a + b.drop_last());
    }
}

/// Feeding a byte stream to `advance` in two chunks has the same effect on
/// the parser and on the performer as feeding it in one.
pub proof fn law_advance_chunks<P: Performer>(m: ParserModel, v: P::V, a: Seq<u8>, b: Seq<u8>)
    ensures
        m.run(a).0.run(b).0 == m.run(a + b).0,
        perform_all::<P>(perform_all::<P>(v, m.run(a).1), m.run(a).0.run(b).1)
            == perform_all::<P>(v, m.run(a + b).1),
{
    lemma_run_concat(m, a, b);
    lemma_perform_all_concat::<P>(v, m.run(a).1, m.run(a).0.run(b).1);
}

/// CAN and SUB abort whatever sequence is in progress (outside a UTF-8
/// sequence): the parser returns to ground and executes the byte.
pub proof fn law_cancel(m: ParserModel, b: u8)
    requires
        m.state != State::Utf8,
        b == 0x18 || b == 0x1a,
    ensures
        m.step(b).0.state == State::Ground,
        m.step(b).1 == Some(ActionModel::Execute(b)),
{
}

/// ESC starts a new escape sequence from any state outside a UTF-8 sequence,
/// with no intermediates and no action. Inside an OSC string it may instead
/// begin the 7-bit string terminator (ESC \), so the string is kept until
/// the next byte decides.
pub proof fn law_escape_restarts(m: ParserModel)
    requires
        m.state != State::Utf8,
    ensures
        m.step(0x1b).0.state == (if m.state == State::OscString {
            State::OscStringEscape
        } else {
            State::Escape
        }),
        m.step(0x1b).0.intermediates.len() == 0,
        m.step(0x1b).0.osc == m.osc,
        m.step(0x1b).1 is None,
{
}

/// An OSC string ends with BEL, with the 8-bit ST, or with the 7-bit ST
/// (ESC \): each of them dispatches the string collected so far, split at
/// `;`, as the one action, and the parser is back in the ground state. An
/// ESC followed by any other byte drops the string: that byte is taken as
/// the escape sequence the ESC began.
pub proof fn law_osc_terminators(m: ParserModel, b: u8)
    requires
        m.state == State::OscString,
        b != 0x5c && b != 0x18 && b != 0x1a && b != 0x1b,
    ensures
        m.step(0x07) == (m.goto(State::Ground), Some(ActionModel::OscDispatch(split_semicolon(m.osc)))),
        m.step(0x9c) == (m.goto(State::Ground), Some(ActionModel::OscDispatch(split_semicolon(m.osc)))),
        m.run(seq![0x1bu8, 0x5cu8]).0.state == State::Ground,
        m.run(seq![0x1bu8, 0x5cu8]).1 == seq![ActionModel::OscDispatch(split_semicolon(m.osc))],
        ({
            let (e, act) = (ParserModel { state: State::Escape, intermediates: Seq::empty(), ..m }).escape(b);
            &&& m.run(seq![0x1bu8, b]).0 == e
            &&& m.run(seq![0x1bu8, b]).1 == match act {
                Some(a) => seq![a],
                None => Seq::<ActionModel>::empty(),
            }
        }),
{
    let one = seq![0x1bu8];
    assert(one.drop_last() =~= Seq::<u8>::empty());
    assert(m.run(Seq::<u8>::empty()) == (m, Seq::<ActionModel>::empty()));
    assert(m.run(one).1 =~= Seq::<ActionModel>::empty());
    let mid = m.run(one).0;
    let d = ActionModel::OscDispatch(split_semicolon(m.osc));
    let st = seq![0x1bu8, 0x5cu8];
    assert(st.drop_last() =~= one);
    assert(Seq::<ActionModel>::empty().push(d) =~= seq![d]);
    let other = seq![0x1bu8, b];
    assert(other.drop_last() =~= one);
    assert(mid.goto(State::Escape) == ParserModel { state: State::Escape, intermediates: Seq::empty(), ..m });
    let (e, act) = mid.goto(State::Escape).escape(b);
    match act {
        Some(a) => assert(Seq::<ActionModel>::empty().push(a) =~= seq![a]),
        None => {},
    }
}

/// Printable ASCII in the ground state is printed as it is, one character per
/// byte, and the parser stays where it was.
pub proof fn law_ascii_text_prints(m: ParserModel, text: Seq<u8>)
    requires
        m.state == State::Ground,
        forall|i: int| 0 <= i < text.len() ==> 0x20 <= #[trigger] text[i] <= 0x7e,
    ensures
        m.run(text).0 == m,
        m.run(text).1 == text.map_values(|b: u8| ActionModel::Print(b as char)),
    decreases text.len(),
{
    if text.len() > 0 {
        law_ascii_text_prints(m, text.drop_last());
        assert(text.map_values(|b: u8| ActionModel::Print(b as char)) =~= text.drop_last().map_values(
            |b: u8| ActionModel::Print(b as char),
        ).push(ActionModel::Print(text.last() as char)));
    } else {
        assert(text.map_values(|b: u8| ActionModel::Print(b as char)) =~= Seq::<ActionModel>::empty());
    }
}


/// A character that the ground state prints: neither a C0 control nor DEL.
pub open spec fn printable(c: char) -> bool {
    0x20 <= c as u32 && c as u32 != 0x7f
}

/// One `Print` per character, in order.
pub open spec fn prints(chars: Seq<char>) -> Seq<ActionModel>
    decreases chars.len(),
{
    if chars.len() == 0 {
        Seq::empty()
    } else {
        seq![ActionModel::Print(chars[0])] + prints(chars.drop_first())
    }
}

/// The UTF-8 encoding of one character is valid and decodes back to it.
proof fn lemma_scalar_round_trip(c: char)
    ensures
        valid_utf8(encode_scalar(c as u32)),
        decode_utf8(encode_scalar(c as u32)) == seq![c],
{
    let one = seq![c];
    assert(one.drop_first() =~= Seq::<char>::empty());
    assert(encode_utf8(one.drop_first()) =~= Seq::<u8>::empty());
    assert(encode_utf8(one) == encode_scalar(one[0] as u32) + encode_utf8(one.drop_first()));
    assert(encode_utf8(one) =~= encode_scalar(c as u32));
    encode_utf8_valid_utf8(one);
    encode_utf8_decode_utf8(one);
}

/// The UTF-8 encoding of a printable character, fed to the parser in the
/// ground state, prints that character and nothing else, and the parser is
/// back in the ground state.
proof fn lemma_char_prints(m: ParserModel, c: char)
    requires
        m.state == State::Ground,
        printable(c),
    ensures
        m.run(encode_scalar(c as u32)).0.state == State::Ground,
        m.run(encode_scalar(c as u32)).1 == seq![ActionModel::Print(c)],
{
    let u = c as u32;
    char_is_scalar(c);
    char_u32_cast(c, u);
    lemma_scalar_round_trip(c);
    let bytes = encode_scalar(u);
    let empty = Seq::<u8>::empty();
    assert(m.run(empty) == (m, Seq::<ActionModel>::empty()));
    if has_width_1_encoding(u) {
        let b = bytes[0];
        assert(b == (u & 0x7f) as u8);
        assert((u & 0x7f) as u8 == u) by (bit_vector)
            requires
                u <= 0x7f,
        ;
        assert(bytes.drop_last() =~= empty);
        assert(m.step(b) == (m, Some(ActionModel::Print(c))));
    } else if has_width_2_encoding(u) {
        let l = bytes[0];
        let t = bytes[1];
        assert(0xc2 <= l <= 0xdf) by (bit_vector)
            requires
                l == 0xC0 | ((u >> 6) & 0x1F) as u8,
                0x80 <= u <= 0x7ff,
        ;
        let m1 = m.step(l).0;
        assert(seq![l].drop_last() =~= empty);
        assert(m.run(seq![l]) == (m1, Seq::<ActionModel>::empty()));
        assert(bytes.drop_last() =~= seq![l]);
        assert(m1.utf8.push(t) =~= bytes);
    } else if has_width_3_encoding(u) {
        let l = bytes[0];
        let t1 = bytes[1];
        let t2 = bytes[2];
        assert(0xe0 <= l <= 0xef) by (bit_vector)
            requires
                l == 0xE0 | ((u >> 12) & 0x0F) as u8,
        ;
        let m1 = m.step(l).0;
        assert(seq![l].drop_last() =~= empty);
        assert(m.run(seq![l]) == (m1, Seq::<ActionModel>::empty()));
        let m2 = m1.step(t1).0;
        assert(m1.utf8.push(t1) =~= seq![l, t1]);
        assert(seq![l, t1].drop_last() =~= seq![l]);
        assert(m.run(seq![l, t1]) == (m2, Seq::<ActionModel>::empty()));
        assert(bytes.drop_last() =~= seq![l, t1]);
        assert(m2.utf8.push(t2) =~= bytes);
    } else {
        let l = bytes[0];
        let t1 = bytes[1];
        let t2 = bytes[2];
        let t3 = bytes[3];
        assert(0xf0 <= l <= 0xf7) by (bit_vector)
            requires
                l == 0xF0 | ((u >> 18) & 0x7) as u8,
        ;
        let m1 = m.step(l).0;
        assert(seq![l].drop_last() =~= empty);
        assert(m.run(seq![l]) == (m1, Seq::<ActionModel>::empty()));
        let m2 = m1.step(t1).0;
        assert(m1.utf8.push(t1) =~= seq![l, t1]);
        assert(seq![l, t1].drop_last() =~= seq![l]);
        assert(m.run(seq![l, t1]) == (m2, Seq::<ActionModel>::empty()));
        let m3 = m2.step(t2).0;
        assert(m2.utf8.push(t2) =~= seq![l, t1, t2]);
        assert(seq![l, t1, t2].drop_last() =~= seq![l, t1]);
        assert(m.run(seq![l, t1, t2]) == (m3, Seq::<ActionModel>::empty()));
        assert(bytes.drop_last() =~= seq![l, t1, t2]);
        assert(m3.utf8.push(t3) =~= bytes);
    }
}

/// Printable text, UTF-8 encoded and fed to the parser in the ground state,
/// is printed one character at a time: one `Print` per character, each
/// multi-byte sequence decoded to its character, and nothing else; the parser
/// ends in the ground state.
pub proof fn law_text_prints(m: ParserModel, text: Seq<char>)
    requires
        m.state == State::Ground,
        forall|i: int| 0 <= i < text.len() ==> printable(#[trigger] text[i]),
    ensures
        m.run(encode_utf8(text)).0.state == State::Ground,
        m.run(encode_utf8(text)).1 == prints(text),
    decreases text.len(),
{
    if text.len() == 0 {
        assert(m.run(encode_utf8(text)) == (m, Seq::<ActionModel>::empty()));

    } else {
        let first = encode_scalar(text[0] as u32);
        let rest = text.drop_first();
        assert(encode_utf8(text) == first + encode_utf8(rest));
        assert(printable(text[0]));
        lemma_char_prints(m, text[0]);
        lemma_run_concat(m, first, encode_utf8(rest));
        assert forall|i: int| 0 <= i < rest.len() implies printable(#[trigger] rest[i]) by {
            assert(rest[i] == text[i + 1]);
        }
        law_text_prints(m.run(first).0, rest);

    }
}


/// The total length of some parts.
pub open spec fn parts_len(parts: Seq<Seq<u8>>) -> int
    decreases parts.len(),
{
    if parts.len() == 0 {
        0
    } else {
        parts_len(parts.drop_last()) + parts.last().len()
    }
}

/// The length of the parts joined again with one `;` between neighbours.
pub open spec fn joined_len(parts: Seq<Seq<u8>>) -> int {
    parts_len(parts) + parts.len() - 1
}

/// Splitting at `;` and joining again gives back as many bytes as were split.
proof fn lemma_split_joined_len(s: Seq<u8>)
    ensures
        joined_len(split_semicolon(s)) == s.len(),
    decreases s.len(),
{
    if s.len() == 0 {
        let one = seq![Seq::<u8>::empty()];
        assert(one.drop_last() =~= Seq::<Seq<u8>>::empty());
        assert(parts_len(one) == parts_len(one.drop_last()) + one.last().len());
    } else {
        let init = split_semicolon(s.drop_last());
        lemma_split_joined_len(s.drop_last());
        lemma_split_nonempty(s.drop_last());
        assert(parts_len(init) == parts_len(init.drop_last()) + init.last().len());
        if s.last() == 0x3b {
            let more = init.push(Seq::<u8>::empty());
            assert(more.drop_last() =~= init);
            assert(parts_len(more) == parts_len(more.drop_last()) + more.last().len());
        } else {
            let grown = init.update(init.len() - 1, init.last().push(s.last()));
            assert(grown.drop_last() =~= init.drop_last());
            assert(parts_len(grown) == parts_len(grown.drop_last()) + grown.last().len());
        }
    }
}

/// What every action promises of its size: at most `MAX_INTERMEDIATES`
/// intermediates, at most `MAX_PARAMS` parameters, and OSC data of at most
/// `MAX_OSC_DATA` bytes.
pub open spec fn action_bounded(a: ActionModel) -> bool {
    match a {
        ActionModel::CsiDispatch { params, intermediates, .. } => {
            &&& intermediates.len() <= MAX_INTERMEDIATES
            &&& params.finished().len() <= crate::params::MAX_PARAMS
        },
        ActionModel::EscDispatch { intermediates, .. } => intermediates.len() <= MAX_INTERMEDIATES,
        ActionModel::DcsHook { params, intermediates, .. } => {
            &&& intermediates.len() <= MAX_INTERMEDIATES
            &&& params.finished().len() <= crate::params::MAX_PARAMS
        },
        ActionModel::OscDispatch(parts) => joined_len(parts) <= MAX_OSC_DATA,
        _ => true,
    }
}

/// The action of one step of a well-formed parser keeps to the bounds.
proof fn lemma_step_bounded(m: ParserModel, b: u8)
    requires
        m.wf(),
    ensures
        m.step(b).1 matches Some(a) ==> action_bounded(a),
{
    crate::params::law_finished_shape(m.params);
    lemma_split_joined_len(m.osc);
    if m.state != State::Utf8 && b != 0x18 && b != 0x1a && b != 0x1b {
        assert(add_intermediate(m.intermediates, b).len() <= MAX_INTERMEDIATES);
    }
}

/// Whatever bytes a parser reached from a fresh one is given, every action it
/// produces has at most `MAX_INTERMEDIATES` intermediates and at most
/// `MAX_PARAMS` parameters, and each OSC dispatch carries at most
/// `MAX_OSC_DATA` bytes of data.
pub proof fn law_actions_bounded(m: ParserModel, bytes: Seq<u8>)
    requires
        m.wf(),
    ensures
        forall|i: int| 0 <= i < m.run(bytes).1.len() ==> action_bounded(#[trigger] m.run(bytes).1[i]),
    decreases bytes.len(),
{
    if bytes.len() > 0 {
        let (mid, acts) = m.run(bytes.drop_last());
        law_actions_bounded(m, bytes.drop_last());
        law_run_keeps_wf(m, bytes.drop_last());
        lemma_step_bounded(mid, bytes.last());
        let all = m.run(bytes).1;
        assert forall|i: int| 0 <= i < all.len() implies action_bounded(#[trigger] all[i]) by {
            if i < acts.len() {
                assert(all[i] == acts[i]);
            }
        }
    }
}


/// The bytes of a Rust string (what `str::as_bytes` gives), fed to the parser
/// in the ground state, print the string's characters one by one, each once
/// and in order, when none of them is a C0 control or DEL; nothing else is
/// produced and the parser ends in the ground state.
pub proof fn law_str_prints(m: ParserModel, s: &str)
    requires
        m.state == State::Ground,
        forall|i: int| 0 <= i < s@.len() ==> printable(#[trigger] s@[i]),
    ensures
        m.run(vstd::string::StringSliceAdditionalSpecFns::spec_bytes(s)).0.state == State::Ground,
        m.run(vstd::string::StringSliceAdditionalSpecFns::spec_bytes(s)).1 == prints(s@),
{
    law_text_prints(m, s@);
}


/// Parameter bytes (digits, `:` and `;`) inside a CSI sequence are collected
/// into its parameters, and nothing else changes.
proof fn lemma_csi_params_run(m: ParserModel, p: Seq<u8>)
    requires
        m.state == State::CsiParam,
        forall|i: int| 0 <= i < p.len() ==> 0x30 <= #[trigger] p[i] <= 0x3b,
    ensures
        m.run(p).0 == (ParserModel { params: m.params.push_all(p), ..m }),
        m.run(p).1 == Seq::<ActionModel>::empty(),
    decreases p.len(),
{
    if p.len() == 0 {
        assert(m.params.push_all(p) == m.params);
    } else {
        let init = p.drop_last();
        assert forall|i: int| 0 <= i < init.len() implies 0x30 <= #[trigger] init[i] <= 0x3b by {
            assert(init[i] == p[i]);
        }
        lemma_csi_params_run(m, init);
        assert(0x30 <= p[p.len() - 1] <= 0x3b);
        crate::params::lemma_push_all_snoc(m.params, init, p.last());
        assert(init.push(p.last()) =~= p);
    }
}

/// A CSI sequence with a private marker, `ESC [ m p f` where the marker `m`
/// is one of `< = > ?`, the parameters `p` are digits and separators and the
/// final byte `f` is in `0x40..=0x7e`, fed to a parser in the ground state,
/// gives exactly one action: a CSI dispatch of `f` whose intermediates are
/// just the marker and whose parameters are those `p` spells; the parser is
/// back in the ground state.
pub proof fn law_private_csi_dispatches(m: ParserModel, marker: u8, p: Seq<u8>, f: u8)
    requires
        m.state == State::Ground,
        0x3c <= marker <= 0x3f,
        forall|i: int| 0 <= i < p.len() ==> 0x30 <= #[trigger] p[i] <= 0x3b,
        0x40 <= f <= 0x7e,
    ensures
        m.run(seq![0x1bu8, 0x5bu8, marker] + p + seq![f]).0.state == State::Ground,
        m.run(seq![0x1bu8, 0x5bu8, marker] + p + seq![f]).1 == seq![
            ActionModel::CsiDispatch {
                params: ParamsModel::empty().push_all(p),
                intermediates: seq![marker],
                ignore: false,
                action: f,
            },
        ],
{
    let head = seq![0x1bu8, 0x5bu8, marker];
    let e = Seq::<ActionModel>::empty();
    assert(head.drop_last() =~= seq![0x1bu8, 0x5bu8]);
    assert(seq![0x1bu8, 0x5bu8].drop_last() =~= seq![0x1bu8]);
    assert(seq![0x1bu8].drop_last() =~= Seq::<u8>::empty());
    assert(m.run(Seq::<u8>::empty()) == (m, e));
    let m1 = ParserModel { state: State::Escape, intermediates: Seq::empty(), ..m };
    assert(m.run(seq![0x1bu8]) == (m1, e));
    let m2 = m1.enter_sequence(State::CsiEntry);
    assert(m.run(seq![0x1bu8, 0x5bu8]) == (m2, e));
    let m3 = m2.with_intermediate(marker).goto(State::CsiParam);
    assert(add_intermediate(Seq::<u8>::empty(), marker) =~= seq![marker]);
    assert(m.run(head) == (m3, e));
    lemma_csi_params_run(m3, p);
    lemma_run_concat(m, head, p);
    let m4 = m3.run(p).0;
    assert(e + e =~= e);
    lemma_run_concat(m, head + p, seq![f]);
    assert(seq![f].drop_last() =~= Seq::<u8>::empty());
    assert(m4.run(Seq::<u8>::empty()) == (m4, e));
    assert(e.push(m4.csi_dispatch(f)) =~= seq![m4.csi_dispatch(f)]);
    assert(e + seq![m4.csi_dispatch(f)] =~= seq![m4.csi_dispatch(f)]);
}


/// A CSI sequence without a private marker, `ESC [ p f` where the parameters
/// `p` are digits and separators and the final byte `f` is in
/// `0x40..=0x7e`, fed to a parser in the ground state, gives exactly one
/// action: a CSI dispatch of `f` with no intermediates and the parameters
/// that `p` spells; the parser is back in the ground state.
pub proof fn law_csi_dispatches(m: ParserModel, p: Seq<u8>, f: u8)
    requires
        m.state == State::Ground,
        forall|i: int| 0 <= i < p.len() ==> 0x30 <= #[trigger] p[i] <= 0x3b,
        0x40 <= f <= 0x7e,
    ensures
        m.run(seq![0x1bu8, 0x5bu8] + p + seq![f]).0.state == State::Ground,
        m.run(seq![0x1bu8, 0x5bu8] + p + seq![f]).1 == seq![
            ActionModel::CsiDispatch {
                params: ParamsModel::empty().push_all(p),
                intermediates: Seq::empty(),
                ignore: false,
                action: f,
            },
        ],
{
    let e = Seq::<ActionModel>::empty();
    let csi = seq![0x1bu8, 0x5bu8];
    assert(csi.drop_last() =~= seq![0x1bu8]);
    assert(seq![0x1bu8].drop_last() =~= Seq::<u8>::empty());
    assert(m.run(Seq::<u8>::empty()) == (m, e));
    let m1 = ParserModel { state: State::Escape, intermediates: Seq::empty(), ..m };
    assert(m.run(seq![0x1bu8]) == (m1, e));
    let m2 = m1.enter_sequence(State::CsiEntry);
    assert(m.run(csi) == (m2, e));
    assert(e + e =~= e);
    if p.len() == 0 {
        assert(csi + p =~= csi);
        lemma_run_concat(m, csi, seq![f]);
        assert(seq![f].drop_last() =~= Seq::<u8>::empty());
        assert(m2.run(Seq::<u8>::empty()) == (m2, e));
        assert(e + seq![m2.csi_dispatch(f)] =~= seq![m2.csi_dispatch(f)]);
        assert(e.push(m2.csi_dispatch(f)) =~= seq![m2.csi_dispatch(f)]);
        assert(ParamsModel::empty().push_all(p) == ParamsModel::empty());
    } else {
        let rest = p.drop_first();
        let head = csi.push(p[0]);
        assert(head.drop_last() =~= csi);
        let m3 = m2.with_param(p[0]).goto(State::CsiParam);
        assert(m.run(head) == (m3, e));
        assert forall|i: int| 0 <= i < rest.len() implies 0x30 <= #[trigger] rest[i] <= 0x3b by {
            assert(rest[i] == p[i + 1]);
        }
        lemma_csi_params_run(m3, rest);
        assert(m3.params.push_all(rest) == ParamsModel::empty().push_all(p));
        lemma_run_concat(m, head, rest);
        assert(head + rest =~= csi + p);
        let m4 = m3.run(rest).0;
        lemma_run_concat(m, csi + p, seq![f]);
        assert(seq![f].drop_last() =~= Seq::<u8>::empty());
        assert(m4.run(Seq::<u8>::empty()) == (m4, e));
        assert(e.push(m4.csi_dispatch(f)) =~= seq![m4.csi_dispatch(f)]);
        assert(e + seq![m4.csi_dispatch(f)] =~= seq![m4.csi_dispatch(f)]);
    }
}

} // verus!
