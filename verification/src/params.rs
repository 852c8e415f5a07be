//! CSI/DCS parameter accumulation and parsing.

use vstd::prelude::*;

verus! {

/// Maximum number of parameters in a CSI/DCS sequence.
pub const MAX_PARAMS: usize = 32;

/// The largest value a single parameter can hold.
pub open spec fn clamp_u16(v: u32) -> u16 {
    if v > 0xffff { 0xffffu16 } else { v as u16 }
}

/// What the accumulator holds: the values pushed so far, the digits of the
/// value being read, and how each value was separated from the one before.
pub ghost struct ParamsModel {
    pub values: Seq<u16>,
    pub current: u32,
    pub has_current: bool,
    pub trailing_sep: bool,
    pub flags: Seq<bool>,
    pub pending_colon: bool,
}

impl ParamsModel {
    /// The state of a fresh (or cleared) accumulator.
    pub open spec fn empty() -> ParamsModel {
        ParamsModel {
            values: Seq::empty(),
            current: 0,
            has_current: false,
            trailing_sep: false,
            flags: Seq::empty(),
            pending_colon: false,
        }
    }

    /// The invariant every reachable accumulator keeps.
    pub open spec fn wf(self) -> bool {
        &&& self.values.len() <= MAX_PARAMS
        &&& self.flags.len() == self.values.len()
        &&& self.pending_colon ==> self.values.len() > 0
        &&& self.values.len() > 0 ==> !self.flags[0]
    }

    /// The value being read, clamped to `u16`.
    pub open spec fn pending_value(self) -> u16 {
        if self.has_current { clamp_u16(self.current) } else { 0 }
    }

    /// The accumulator after one byte.
    pub open spec fn push(self, byte: u8) -> ParamsModel {
        if 0x30 <= byte <= 0x39 {
            let d = (byte - 0x30) as int;
            let next = self.current * 10 + d;
            ParamsModel {
                has_current: true,
                trailing_sep: false,
                current: if next > u32::MAX { u32::MAX } else { next as u32 },
                ..self
            }
        } else if byte == 0x3b || byte == 0x3a {
            let full = self.values.len() >= MAX_PARAMS;
            ParamsModel {
                values: if full { self.values } else { self.values.push(self.pending_value()) },
                flags: if full { self.flags } else { self.flags.push(self.pending_colon) },
                current: 0,
                has_current: false,
                trailing_sep: if byte == 0x3b { true } else { self.trailing_sep },
                pending_colon: byte == 0x3a,
            }
        } else {
            self
        }
    }

    /// The accumulator after a sequence of bytes.
    pub open spec fn push_all(self, bytes: Seq<u8>) -> ParamsModel
        decreases bytes.len(),
    {
        if bytes.len() == 0 {
            self
        } else {
            self.push(bytes[0]).push_all(bytes.drop_first())
        }
    }

    /// Whether the value being read (or an empty one after a trailing `;`)
    /// is appended when the parameters are finished.
    pub open spec fn appends_pending(self) -> bool {
        self.values.len() < MAX_PARAMS && (self.has_current || self.trailing_sep)
    }

    /// All parameter values, the pending one included.
    pub open spec fn finished(self) -> Seq<u16> {
        if self.appends_pending() {
            self.values.push(self.pending_value())
        } else {
            self.values
        }
    }

    /// The separator flag of every value: `true` where a colon came before it.
    pub open spec fn finished_flags(self) -> Seq<bool> {
        if self.appends_pending() {
            self.flags.push(self.has_current && self.pending_colon)
        } else {
            self.flags
        }
    }

    /// The value at `index`, or `default` where there is none.
    pub open spec fn get(self, index: int, default: u16) -> u16 {
        if 0 <= index < self.finished().len() { self.finished()[index] } else { default }
    }
}

/// Pushing a byte keeps the accumulator's invariant.
pub proof fn lemma_push_wf(m: ParamsModel, byte: u8)
    requires
        m.wf(),
    ensures
        m.push(byte).wf(),
{
}

/// Accumulated parameters from a CSI or DCS sequence.
#[derive(Debug, Clone, PartialEq)]
pub struct Params {
    values: Vec<u16>,
    current: u32,
    has_current: bool,
    trailing_sep: bool,
    /// `subparam_flags[i]` is true if parameter `i` was separated from the
    /// one before it by a colon (':') rather than a semicolon (';').
    subparam_flags: Vec<bool>,
    /// Whether the next pushed value is a subparam (colon-separated).
    pending_colon: bool,
}

impl View for Params {
    type V = ParamsModel;

    closed spec fn view(&self) -> ParamsModel {
        ParamsModel {
            values: self.values@,
            current: self.current,
            has_current: self.has_current,
            trailing_sep: self.trailing_sep,
            flags: self.subparam_flags@,
            pending_colon: self.pending_colon,
        }
    }
}

/// Clamp an accumulated value into the `u16` range.
fn clamp(v: u32) -> (r: u16)
    ensures
        r == clamp_u16(v),
{
    if v > 0xffff { 0xffff } else { v as u16 }
}

impl Default for Params {
    /// No parameters.
    fn default() -> (p: Self)
        ensures
            p@ == ParamsModel::empty(),
    {
        Params::new()
    }
}

impl Params {
    pub fn new() -> (p: Self)
        ensures
            p@ == ParamsModel::empty(),
    {
        Self {
            values: Vec::with_capacity(8),
            current: 0,
            has_current: false,
            trailing_sep: false,
            subparam_flags: Vec::with_capacity(8),
            pending_colon: false,
        }
    }

    /// A copy of the accumulator.
    pub(crate) fn duplicate(&self) -> (r: Params)
        ensures
            r@ == self@,
    {
        Params {
            values: self.values.clone(),
            current: self.current,
            has_current: self.has_current,
            trailing_sep: self.trailing_sep,
            subparam_flags: self.subparam_flags.clone(),
            pending_colon: self.pending_colon,
        }
    }

    pub fn clear(&mut self)
        ensures
            final(self)@ == ParamsModel::empty(),
    {
        self.values.clear();
        self.current = 0;
        self.has_current = false;
        self.trailing_sep = false;
        self.subparam_flags.clear();
        self.pending_colon = false;
    }

    /// Feed one byte: a digit extends the current value (saturating), `;` or
    /// `:` closes it; every other byte is ignored.
    pub fn push(&mut self, byte: u8)
        requires
            old(self)@.wf(),
        ensures
            final(self)@ == old(self)@.push(byte),
            final(self)@.wf(),
    {
        if 0x30 <= byte && byte <= 0x39 {
            self.has_current = true;
            self.trailing_sep = false;
            let d = (byte - 0x30) as u32;
            self.current = if self.current > (u32::MAX - d) / 10 {
                u32::MAX
            } else {
                self.current * 10 + d
            };
        } else if byte == 0x3b || byte == 0x3a {
            if self.values.len() < MAX_PARAMS {
                let val = if self.has_current { clamp(self.current) } else { 0 };
                self.values.push(val);
                self.subparam_flags.push(self.pending_colon);
            }
            self.current = 0;
            self.has_current = false;
            if byte == 0x3b {
                self.trailing_sep = true;
            }
            self.pending_colon = byte == 0x3a;
        }
    }

    /// Finalize and return all parameter values.
    pub fn finished(&self) -> (r: Vec<u16>)
        ensures
            r@ == self@.finished(),
    {
        let mut result = self.values.clone();
        if self.values.len() < MAX_PARAMS && (self.has_current || self.trailing_sep) {
            let val = if self.has_current { clamp(self.current) } else { 0 };
            result.push(val);
        }
        result
    }

    /// Get parameter at index with a default value.
    pub fn get(&self, index: usize, default: u16) -> (r: u16)
        ensures
            r == self@.get(index as int, default),
    {
        let finished = self.finished();
        if index < finished.len() { finished[index] } else { default }
    }

    /// Get parameter treating 0 as default (standard CSI behavior).
    pub fn get_or(&self, index: usize, default: u16) -> (r: u16)
        ensures
            r == (if self@.get(index as int, 0) == 0 { default } else { self@.get(index as int, 0) }),
    {
        let val = self.get(index, 0);
        if val == 0 { default } else { val }
    }

    /// Number of parameters (including the pending one).
    pub fn len(&self) -> (r: usize)
        ensures
            r == self@.finished().len(),
    {
        let n = self.values.len();
        if n < MAX_PARAMS && (self.has_current || self.trailing_sep) { n + 1 } else { n }
    }

    /// Return finished subparam flags. `flags[i]` is true if parameter `i` was
    /// separated from the previous parameter by a colon (`:`) rather than a
    /// semicolon (`;`). The first parameter always has flag `false`.
    pub fn finished_subparam_flags(&self) -> (r: Vec<bool>)
        ensures
            r@ == self@.finished_flags(),
    {
        let mut result = self.subparam_flags.clone();
        if self.values.len() < MAX_PARAMS && (self.has_current || self.trailing_sep) {
            result.push(self.has_current && self.pending_colon);
        }
        result
    }

    pub fn is_empty(&self) -> (r: bool)
        ensures
            r == (self@.finished().len() == 0),
    {
        self.len() == 0
    }
}

} // verus!

verus! {

/// A well-formed accumulator never yields more than `MAX_PARAMS` values, and
/// yields exactly one separator flag per value, the first of them `false`
/// (a first parameter has no separator before it).
pub proof fn law_finished_shape(m: ParamsModel)
    requires
        m.wf(),
    ensures
        m.finished().len() <= MAX_PARAMS,
        m.finished_flags().len() == m.finished().len(),
        m.finished().len() > 0 ==> !m.finished_flags()[0],
{
}

/// Whatever bytes are pushed, the accumulator stays well formed.
pub proof fn law_push_all_keeps_wf(m: ParamsModel, bytes: Seq<u8>)
    requires
        m.wf(),
    ensures
        m.push_all(bytes).wf(),
    decreases bytes.len(),
{
    if bytes.len() > 0 {
        lemma_push_wf(m, bytes[0]);
        law_push_all_keeps_wf(m.push(bytes[0]), bytes.drop_first());
    }
}

/// Clearing forgets everything that was pushed: a cleared accumulator has no
/// parameters.
pub proof fn law_cleared_params_are_empty()
    ensures
        ParamsModel::empty().wf(),
        ParamsModel::empty().finished().len() == 0,
        forall|i: int, d: u16| #[trigger] ParamsModel::empty().get(i, d) == d,
{
}


/// A byte that closes a parameter: `;`, or `:` before a subparameter.
pub open spec fn is_separator(b: u8) -> bool {
    b == 0x3b || b == 0x3a
}

/// The bytes a parameter string is made of: digits and separators.
pub open spec fn is_param_byte(b: u8) -> bool {
    (0x30 <= b <= 0x39) || is_separator(b)
}

/// The fields of a parameter string between separators, in order (one field
/// where there is no separator, an empty one at either end where the string
/// starts or ends with one); bytes other than digits and separators are
/// left out.
pub open spec fn param_fields(s: Seq<u8>) -> Seq<Seq<u8>>
    decreases s.len(),
{
    if s.len() == 0 {
        seq![Seq::<u8>::empty()]
    } else {
        let init = param_fields(s.drop_last());
        if is_separator(s.last()) {
            init.push(Seq::<u8>::empty())
        } else if is_param_byte(s.last()) {
            init.update(init.len() - 1, init.last().push(s.last()))
        } else {
            init
        }
    }
}

/// The last digit or separator of a string, if it has one.
pub open spec fn last_param_byte(s: Seq<u8>) -> Option<u8>
    decreases s.len(),
{
    if s.len() == 0 {
        None
    } else if is_param_byte(s.last()) {
        Some(s.last())
    } else {
        last_param_byte(s.drop_last())
    }
}

/// A sequence of accumulators, each the one before after one more byte of
/// `bytes`: what a run of `push` calls goes through.
pub open spec fn push_chain(states: Seq<ParamsModel>, bytes: Seq<u8>) -> bool {
    &&& states.len() == bytes.len() + 1
    &&& forall|i: int| 0 <= i < bytes.len() ==> #[trigger] states[i + 1] == states[i].push(bytes[i])
}

/// For each field of a parameter string, whether a `:` came right before it.
pub open spec fn colon_flags(s: Seq<u8>) -> Seq<bool>
    decreases s.len(),
{
    if s.len() == 0 {
        seq![false]
    } else if is_separator(s.last()) {
        colon_flags(s.drop_last()).push(s.last() == 0x3a)
    } else {
        colon_flags(s.drop_last())
    }
}

/// The decimal value of a string of digits.
pub open spec fn digits_value(f: Seq<u8>) -> int
    decreases f.len(),
{
    if f.len() == 0 {
        0
    } else {
        digits_value(f.drop_last()) * 10 + (f.last() - 0x30)
    }
}

/// The value a field stands for: 0 where it is empty, else its decimal value
/// clamped to `u16`.
pub open spec fn field_value(f: Seq<u8>) -> u16 {
    if digits_value(f) > 0xffff { 0xffffu16 } else { digits_value(f) as u16 }
}

/// The value of each field, in order.
pub open spec fn field_values(fields: Seq<Seq<u8>>) -> Seq<u16>
    decreases fields.len(),
{
    if fields.len() == 0 {
        Seq::empty()
    } else {
        field_values(fields.drop_last()).push(field_value(fields.last()))
    }
}

/// At most `MAX_PARAMS` of `n`.
pub open spec fn capped(n: int) -> int {
    if n < MAX_PARAMS { n } else { MAX_PARAMS as int }
}

/// Pushing some bytes and then one more is pushing them all at once.
pub proof fn lemma_push_all_snoc(m: ParamsModel, bytes: Seq<u8>, b: u8)
    ensures
        m.push_all(bytes.push(b)) == m.push_all(bytes).push(b),
    decreases bytes.len(),
{
    if bytes.len() == 0 {
        assert(seq![b].drop_first() =~= Seq::<u8>::empty());
        assert(bytes.push(b) =~= seq![b]);
        assert(m.push(b).push_all(Seq::<u8>::empty()) == m.push(b));
        assert(m.push_all(seq![b]) == m.push(b).push_all(seq![b].drop_first()));
    } else {
        assert(bytes.push(b)[0] == bytes[0]);
        assert(bytes.push(b).drop_first() =~= bytes.drop_first().push(b));
        lemma_push_all_snoc(m.push(bytes[0]), bytes.drop_first(), b);
    }
}

/// A parameter string has at least one field, one colon flag per field, the
/// first of them `false`, and one value per field.
proof fn lemma_fields_shape(s: Seq<u8>)
    ensures
        param_fields(s).len() >= 1,
        colon_flags(s).len() == param_fields(s).len(),
        colon_flags(s)[0] == false,
        field_values(param_fields(s)).len() == param_fields(s).len(),
    decreases s.len(),
{
    if s.len() > 0 {
        lemma_fields_shape(s.drop_last());
    }
    lemma_field_values_len(param_fields(s));
}

/// One value per field.
proof fn lemma_field_values_len(fields: Seq<Seq<u8>>)
    ensures
        field_values(fields).len() == fields.len(),
    decreases fields.len(),
{
    if fields.len() > 0 {
        lemma_field_values_len(fields.drop_last());
    }
}

/// What an accumulator fed a string of parameter bytes holds: the values and
/// flags of the fields closed so far (the first `MAX_PARAMS` of them), and
/// the field being read.
pub open spec fn holds_fields(st: ParamsModel, bs: Seq<u8>) -> bool {
    let fields = param_fields(bs);
    let k = fields.len() as int;
    &&& st.values == field_values(fields.drop_last()).take(capped(k - 1))
    &&& st.flags == colon_flags(bs).drop_last().take(capped(k - 1))
    &&& st.has_current == (fields.last().len() > 0)
    &&& st.current == (if digits_value(fields.last()) > u32::MAX { u32::MAX as int } else { digits_value(fields.last()) })
    &&& st.pending_colon == colon_flags(bs).last()
    &&& (last_param_byte(bs) == Some(0x3bu8) ==> st.trailing_sep && !colon_flags(bs).last())
    &&& (last_param_byte(bs) matches Some(x) && !is_separator(x) ==> fields.last().len() > 0)
}

/// An empty accumulator fed any bytes holds the fields they make.
proof fn lemma_holds_fields(bs: Seq<u8>)
    ensures
        holds_fields(ParamsModel::empty().push_all(bs), bs),
        ParamsModel::empty().push_all(bs).wf(),
    decreases bs.len(),
{
    let empty = ParamsModel::empty();
    if bs.len() == 0 {
        assert(seq![Seq::<u8>::empty()].drop_last() =~= Seq::<Seq<u8>>::empty());
        assert(seq![false].drop_last() =~= Seq::<bool>::empty());
        assert(empty.push_all(bs) == empty);
        assert(field_values(Seq::<Seq<u8>>::empty()) =~= Seq::<u16>::empty());
        assert(Seq::<u16>::empty().take(0) =~= Seq::<u16>::empty());
        assert(Seq::<bool>::empty().take(0) =~= Seq::<bool>::empty());
        assert(digits_value(Seq::<u8>::empty()) == 0);
    } else {
        let pre = bs.drop_last();
        let b = bs.last();
        assert(pre.push(b) =~= bs);
        lemma_holds_fields(pre);
        lemma_fields_shape(pre);
        lemma_push_all_snoc(empty, pre, b);
        let st = empty.push_all(pre);
        lemma_push_wf(st, b);
        let fields = param_fields(pre);
        let k = fields.len() as int;
        let last = fields.last();
        if !is_param_byte(b) {
            assert(param_fields(bs) == fields);
            assert(colon_flags(bs) == colon_flags(pre));
            assert(last_param_byte(bs) == last_param_byte(pre));
        } else if is_separator(b) {
            let nf = fields.push(Seq::<u8>::empty());
            assert(param_fields(bs) == nf);
            assert(nf.drop_last() =~= fields);
            assert(fields =~= fields.drop_last().push(last));
            assert(field_values(fields) == field_values(fields.drop_last()).push(field_value(last)));
            lemma_field_values_len(fields.drop_last());
            let cf = colon_flags(pre);
            assert(colon_flags(bs) == cf.push(b == 0x3a));
            assert(colon_flags(bs).drop_last() =~= cf);
            assert(cf =~= cf.drop_last().push(cf.last()));
            assert(st.pending_value() == field_value(last));
            if k - 1 < MAX_PARAMS {
                assert(field_values(fields.drop_last()).take(capped(k - 1)) =~= field_values(fields.drop_last()));
                assert(field_values(fields).take(capped(k)) =~= field_values(fields));
                assert(cf.drop_last().take(capped(k - 1)) =~= cf.drop_last());
                assert(cf.take(capped(k)) =~= cf);
            } else {
                assert(field_values(fields).take(capped(k)) =~= field_values(fields.drop_last()).take(capped(k - 1)));
                assert(cf.take(capped(k)) =~= cf.drop_last().take(capped(k - 1)));
            }
            assert(digits_value(Seq::<u8>::empty()) == 0);
            let st2 = empty.push_all(bs);
            let f2 = param_fields(bs);
            assert(st2.values == field_values(f2.drop_last()).take(capped(f2.len() - 1)));
            assert(st2.flags == colon_flags(bs).drop_last().take(capped(f2.len() - 1)));
            assert(st2.has_current == (f2.last().len() > 0));
            assert(st2.pending_colon == colon_flags(bs).last());
            assert(st2.current == 0);
            assert(f2.last() =~= Seq::<u8>::empty());
        } else {
            let grown = last.push(b);
            let nf = fields.update(k - 1, grown);
            assert(param_fields(bs) == nf);
            assert(nf.drop_last() =~= fields.drop_last());
            assert(colon_flags(bs) == colon_flags(pre));
            assert(grown.drop_last() =~= last);
            assert(digits_value(grown) == digits_value(last) * 10 + (b - 0x30));
            let st2 = empty.push_all(bs);
            let f2 = param_fields(bs);
            assert(st2.values == field_values(f2.drop_last()).take(capped(f2.len() - 1)));
            assert(st2.flags == colon_flags(bs).drop_last().take(capped(f2.len() - 1)));
            assert(st2.has_current == (f2.last().len() > 0));
            assert(st2.pending_colon == colon_flags(bs).last());
            assert(st2.current == (if digits_value(f2.last()) > u32::MAX { u32::MAX as int } else { digits_value(f2.last()) }));
        }
    }
}

/// Any bytes pushed into an empty accumulator, among them at least one digit
/// or separator and the last of these not `:`, finish to the value of each
/// field between separators (0 where it is empty, else its decimal value
/// clamped to `u16`), the first `MAX_PARAMS` of them, other bytes being
/// ignored; and the subparameter flag of each value says exactly whether a
/// `:` came right before it, so the first is `false`.
pub proof fn law_params_from_fields(bs: Seq<u8>)
    requires
        last_param_byte(bs) matches Some(x) && x != 0x3a,
    ensures
        ParamsModel::empty().push_all(bs).finished() == field_values(param_fields(bs)).take(
            capped(param_fields(bs).len() as int),
        ),
        ParamsModel::empty().push_all(bs).finished_flags() == colon_flags(bs).take(
            capped(param_fields(bs).len() as int),
        ),
{
    lemma_holds_fields(bs);
    lemma_fields_shape(bs);
    let st = ParamsModel::empty().push_all(bs);
    let fields = param_fields(bs);
    let k = fields.len() as int;
    let last = fields.last();
    let cf = colon_flags(bs);
    assert(fields =~= fields.drop_last().push(last));
    assert(field_values(fields) == field_values(fields.drop_last()).push(field_value(last)));
    lemma_field_values_len(fields.drop_last());
    assert(cf =~= cf.drop_last().push(cf.last()));
    if last.len() == 0 {
        assert(digits_value(last) == 0);
        assert(last_param_byte(bs) == Some(0x3bu8));
    }
    assert(st.has_current || st.trailing_sep);
    assert(st.pending_value() == field_value(last));
    if k - 1 < MAX_PARAMS {
        assert(field_values(fields).take(capped(k)) =~= field_values(fields));
        assert(cf.take(capped(k)) =~= cf);
        assert(field_values(fields.drop_last()).take(capped(k - 1)) =~= field_values(fields.drop_last()));
        assert(cf.drop_last().take(capped(k - 1)) =~= cf.drop_last());
    } else {
        assert(field_values(fields).take(capped(k)) =~= field_values(fields.drop_last()).take(capped(k - 1)));
        assert(cf.take(capped(k)) =~= cf.drop_last().take(capped(k - 1)));
    }
}


/// A run of `push` calls, one per byte, takes an accumulator to where
/// `push_all` of those bytes takes it; so the law above holds of an
/// accumulator made by `Params::new()` and a `push` of each byte in turn.
pub proof fn law_push_calls_push_all(states: Seq<ParamsModel>, bytes: Seq<u8>)
    requires
        push_chain(states, bytes),
    ensures
        states.last() == states[0].push_all(bytes),
    decreases bytes.len(),
{
    if bytes.len() > 0 {
        let rest = states.drop_first();
        assert forall|i: int| 0 <= i < bytes.drop_first().len() implies #[trigger] rest[i + 1] == rest[i].push(
            bytes.drop_first()[i],
        ) by {
            let j = i + 1;
            assert(states[j + 1] == states[j].push(bytes[j]));
            assert(rest[i + 1] == states[j + 1] && rest[i] == states[j]);
            assert(bytes.drop_first()[i] == bytes[j]);
        }
        law_push_calls_push_all(rest, bytes.drop_first());
        assert(states[1] == states[0].push(bytes[0]));
    }
}

} // verus!
