//! Styled cells and their rendering into runs of text: each cell's colors
//! and attributes become a text style, and a row of cells becomes spans of
//! text that share a style.

use vstd::prelude::*;
use crate::text::string_from_chars;

verus! {

/// A cell color.
#[derive(Debug, Clone, Copy, PartialEq, Eq, Structural)]
pub enum Color {
    /// The terminal's default color.
    Default,
    /// A color of the 256-color palette.
    Indexed(u8),
    /// A true color.
    Rgb(u8, u8, u8),
}

/// How a cell is underlined.
#[derive(Debug, Clone, Copy, PartialEq, Eq, Structural)]
pub enum UnderlineStyle {
    NoUnderline,
    Single,
    Double,
    Curly,
}

/// The attributes of a cell.
#[derive(Debug, Clone, Copy, PartialEq, Eq, Structural)]
pub struct CellAttrs {
    pub bold: bool,
    pub italic: bool,
    pub underline: UnderlineStyle,
    pub blink: bool,
    pub reverse: bool,
    pub invisible: bool,
    pub strikethrough: bool,
}

/// One cell of a row: its character, its width in columns (0 for the cell
/// that continues a wide character), its colors and attributes.
#[derive(Debug, Clone, Copy, PartialEq, Eq, Structural)]
pub struct Cell {
    pub c: char,
    pub width: u8,
    pub fg: Color,
    pub bg: Color,
    pub attrs: CellAttrs,
}

/// The text attributes a style turns on.
#[derive(Debug, Clone, Copy, PartialEq, Eq, Structural)]
pub struct StyleAttributes {
    pub bold: bool,
    pub italic: bool,
    pub underlined: bool,
    pub double_underlined: bool,
    pub undercurled: bool,
    pub slow_blink: bool,
    pub reverse: bool,
    pub hidden: bool,
    pub crossed_out: bool,
}

/// The style of a run of text: colors, where set, and attributes.
#[derive(Debug, Clone, Copy, PartialEq, Eq, Structural)]
pub struct TextStyle {
    pub foreground: Option<Color>,
    pub background: Option<Color>,
    pub attributes: StyleAttributes,
}

/// The plain style: no color set and no attribute.
pub open spec fn plain_style() -> TextStyle {
    TextStyle {
        foreground: None,
        background: None,
        attributes: StyleAttributes {
            bold: false,
            italic: false,
            underlined: false,
            double_underlined: false,
            undercurled: false,
            slow_blink: false,
            reverse: false,
            hidden: false,
            crossed_out: false,
        },
    }
}

/// The style of a cell: both its colors, and the attributes it has.
pub open spec fn style_of(cell: Cell) -> TextStyle {
    TextStyle {
        foreground: Some(cell.fg),
        background: Some(cell.bg),
        attributes: StyleAttributes {
            bold: cell.attrs.bold,
            italic: cell.attrs.italic,
            underlined: cell.attrs.underline == UnderlineStyle::Single,
            double_underlined: cell.attrs.underline == UnderlineStyle::Double,
            undercurled: cell.attrs.underline == UnderlineStyle::Curly,
            slow_blink: cell.attrs.blink,
            reverse: cell.attrs.reverse,
            hidden: cell.attrs.invisible,
            crossed_out: cell.attrs.strikethrough,
        },
    }
}

/// The plain style.
pub fn plain() -> (r: TextStyle)
    ensures
        r == plain_style(),
{
    TextStyle {
        foreground: None,
        background: None,
        attributes: StyleAttributes {
            bold: false,
            italic: false,
            underlined: false,
            double_underlined: false,
            undercurled: false,
            slow_blink: false,
            reverse: false,
            hidden: false,
            crossed_out: false,
        },
    }
}

/// Build the text style of a cell from its attributes and colors.
pub fn cell_style(cell: &Cell) -> (r: TextStyle)
    ensures
        r == style_of(*cell),
{
    TextStyle {
        foreground: Some(cell.fg),
        background: Some(cell.bg),
        attributes: StyleAttributes {
            bold: cell.attrs.bold,
            italic: cell.attrs.italic,
            underlined: cell.attrs.underline == UnderlineStyle::Single,
            double_underlined: cell.attrs.underline == UnderlineStyle::Double,
            undercurled: cell.attrs.underline == UnderlineStyle::Curly,
            slow_blink: cell.attrs.blink,
            reverse: cell.attrs.reverse,
            hidden: cell.attrs.invisible,
            crossed_out: cell.attrs.strikethrough,
        },
    }
}

/// Spans after one more character: it joins the last span when the style
/// is the same, else starts a new one.
pub open spec fn with_char(spans: Seq<(TextStyle, Seq<char>)>, style: TextStyle, ch: char) -> Seq<(TextStyle, Seq<char>)> {
    if spans.len() > 0 && spans.last().0 == style {
        spans.update(spans.len() - 1, (style, spans.last().1.push(ch)))
    } else {
        spans.push((style, seq![ch]))
    }
}

/// The character a cell shows: control characters (below U+0020) show as
/// a space.
pub open spec fn shown_char(c: char) -> char {
    if (c as u32) < 32 {
        ' '
    } else {
        c
    }
}

/// The spans and the column reached after the first `upto` cells: a cell
/// continuing a wide character adds nothing (the wide character's own width
/// already counts both of its columns); any other cell adds its character in
/// its style and counts its width.
pub open spec fn cell_spans(cells: Seq<Cell>, upto: int) -> (Seq<(TextStyle, Seq<char>)>, nat)
    decreases upto,
{
    if upto <= 0 {
        (Seq::empty(), 0)
    } else {
        let (spans, col) = cell_spans(cells, upto - 1);
        let cell = cells[upto - 1];
        if cell.width == 0 {
            (spans, col)
        } else {
            (with_char(spans, style_of(cell), shown_char(cell.c)), (col + cell.width) as nat)
        }
    }
}

/// The spans with `n` plain spaces added.
pub open spec fn padded(spans: Seq<(TextStyle, Seq<char>)>, n: nat) -> Seq<(TextStyle, Seq<char>)>
    decreases n,
{
    if n == 0 {
        spans
    } else {
        with_char(padded(spans, (n - 1) as nat), plain_style(), ' ')
    }
}

/// A row of cells as spans: the first `width` cells, then plain spaces up to
/// `width` columns.
pub open spec fn row_spans(cells: Seq<Cell>, width: nat) -> Seq<(TextStyle, Seq<char>)> {
    let n = if cells.len() < width {
        cells.len() as int
    } else {
        width as int
    };
    let (spans, col) = cell_spans(cells, n);
    padded(spans, if col < width { (width - col) as nat } else { 0 })
}

/// Spans being built: those finished, and the open one, if any.
fn push_char(
    done: &mut Vec<(TextStyle, Vec<char>)>,
    open: &mut Option<(TextStyle, Vec<char>)>,
    style: TextStyle,
    ch: char,
)
    requires
        (*old(open)) is None ==> old(done)@.len() == 0,
    ensures
        spans_of(final(done)@, *final(open)) == with_char(spans_of(old(done)@, *old(open)), style, ch),
        (*final(open)) is Some,
{
    let ghost before = spans_of(done@, *open);
    let same = match open {
        Some((s, _)) => *s == style,
        None => false,
    };
    if same {
        let (s, mut text) = open.take().unwrap();
        text.push(ch);
        *open = Some((s, text));
        proof {
            assert(spans_of(done@, *open) =~= before.update(before.len() - 1, (style, before.last().1.push(ch))));
        }
    } else {
        match open.take() {
            Some(prev) => done.push(prev),
            None => {},
        }
        let mut text: Vec<char> = Vec::new();
        text.push(ch);
        *open = Some((style, text));
        proof {
            assert(text@ =~= seq![ch]);
            assert(spans_of(done@, *open) =~= before.push((style, seq![ch])));
        }
    }
}

/// The spans of finished runs and the open one.
pub open spec fn spans_of(done: Seq<(TextStyle, Vec<char>)>, open: Option<(TextStyle, Vec<char>)>) -> Seq<(TextStyle, Seq<char>)> {
    let finished = done.map_values(|p: (TextStyle, Vec<char>)| (p.0, p.1@));
    match open {
        Some(p) => finished.push((p.0, p.1@)),
        None => finished,
    }
}

/// Convert a row of cells into styled text spans: adjacent cells with the
/// same style make one span, cells continuing a wide character are skipped,
/// and plain spaces pad the text to exactly `width` columns (where the cells
/// themselves take no more).
pub fn render_row(cells: &[Cell], width: usize) -> (r: Vec<(TextStyle, String)>)
    ensures
        r@.len() == row_spans(cells@, width as nat).len(),
        forall|i: int|
            0 <= i < r@.len() ==> (#[trigger] r@[i]).0 == row_spans(cells@, width as nat)[i].0
                && r@[i].1@ == row_spans(cells@, width as nat)[i].1,
{
    let mut done: Vec<(TextStyle, Vec<char>)> = Vec::new();
    let mut open: Option<(TextStyle, Vec<char>)> = None;
    let n = if cells.len() < width { cells.len() } else { width };
    let mut col: u128 = 0;
    let mut i: usize = 0;
    while i < n
        invariant
            0 <= i <= n,
            n <= cells@.len(),
            n == (if cells@.len() < width { cells@.len() as int } else { width as int }),
            col <= 255 * i,
            (open is None) ==> done@.len() == 0,
            spans_of(done@, open) == cell_spans(cells@, i as int).0,
            col == cell_spans(cells@, i as int).1,
        decreases n - i,
    {
        let cell = cells[i];
        if cell.width != 0 {
            let style = cell_style(&cell);
            let ch = if (cell.c as u32) < 32 { ' ' } else { cell.c };
            push_char(&mut done, &mut open, style, ch);
            col = col + cell.width as u128;
        }
        i = i + 1;
    }
    let ghost cells_done = cell_spans(cells@, n as int).0;
    let pad: usize = if col < width as u128 { width - (col as usize) } else { 0 };
    let mut k: usize = 0;
    while k < pad
        invariant
            0 <= k <= pad,
            (open is None) ==> done@.len() == 0,
            spans_of(done@, open) == padded(cells_done, k as nat),
        decreases pad - k,
    {
        push_char(&mut done, &mut open, plain(), ' ');
        k = k + 1;
    }
    match open.take() {
        Some(last) => done.push(last),
        None => {},
    }
    let ghost all = spans_of(done@, open);
    let mut out: Vec<(TextStyle, String)> = Vec::new();
    let mut j: usize = 0;
    while j < done.len()
        invariant
            0 <= j <= done@.len(),
            open is None,
            all == spans_of(done@, open),
            all.len() == done@.len(),
            out@.len() == j,
            forall|m: int|
                0 <= m < j ==> (#[trigger] out@[m]).0 == all[m].0 && out@[m].1@ == all[m].1,
        decreases done@.len() - j,
    {
        let text = string_from_chars(done[j].1.as_slice());
        proof {
            assert(all[j as int] == (done@[j as int].0, done@[j as int].1@));
        }
        out.push((done[j].0, text));
        j = j + 1;
    }
    out
}

/// Whether no two neighbouring spans share a style.
pub open spec fn neighbours_differ(spans: Seq<(TextStyle, Seq<char>)>) -> bool {
    forall|i: int| 0 <= i < spans.len() - 1 ==> (#[trigger] spans[i]).0 != spans[i + 1].0
}

proof fn lemma_with_char_keeps_neighbours_differ(spans: Seq<(TextStyle, Seq<char>)>, style: TextStyle, ch: char)
    requires
        neighbours_differ(spans),
    ensures
        neighbours_differ(with_char(spans, style, ch)),
{
    let r = with_char(spans, style, ch);
    assert forall|i: int| 0 <= i < r.len() - 1 implies (#[trigger] r[i]).0 != r[i + 1].0 by {
        if spans.len() > 0 && spans.last().0 == style {
            assert(r[i].0 == spans[i].0);
            assert(r[i + 1].0 == spans[i + 1].0);
        } else {
            assert(r[i] == spans[i]);
            if i + 1 < spans.len() {
                assert(r[i + 1] == spans[i + 1]);
            }
        }
    }
}

proof fn lemma_cell_spans_neighbours_differ(cells: Seq<Cell>, upto: int)
    requires
        upto <= cells.len(),
    ensures
        neighbours_differ(cell_spans(cells, upto).0),
    decreases upto,
{
    if upto > 0 {
        lemma_cell_spans_neighbours_differ(cells, upto - 1);
        let (spans, col) = cell_spans(cells, upto - 1);
        let cell = cells[upto - 1];
        if cell.width != 0 {
            lemma_with_char_keeps_neighbours_differ(spans, style_of(cell), shown_char(cell.c));
        }
    }
}

proof fn lemma_padded_neighbours_differ(spans: Seq<(TextStyle, Seq<char>)>, n: nat)
    requires
        neighbours_differ(spans),
    ensures
        neighbours_differ(padded(spans, n)),
    decreases n,
{
    if n > 0 {
        lemma_padded_neighbours_differ(spans, (n - 1) as nat);
        lemma_with_char_keeps_neighbours_differ(padded(spans, (n - 1) as nat), plain_style(), ' ');
    }
}

/// A rendered row never has two neighbouring spans of the same style: runs
/// of one style are always joined.
pub proof fn law_row_spans_are_maximal(cells: Seq<Cell>, width: nat)
    ensures
        neighbours_differ(row_spans(cells, width)),
{
    let n = if cells.len() < width { cells.len() as int } else { width as int };
    lemma_cell_spans_neighbours_differ(cells, n);
    let (spans, col) = cell_spans(cells, n);
    lemma_padded_neighbours_differ(spans, if col < width { (width - col) as nat } else { 0 });
}

/// The number of characters `padded` adds is the padding asked for.
proof fn lemma_padded_chars(spans: Seq<(TextStyle, Seq<char>)>, n: nat)
    ensures
        span_chars(padded(spans, n)) == span_chars(spans) + n,
    decreases n,
{
    if n > 0 {
        lemma_padded_chars(spans, (n - 1) as nat);
        lemma_with_char_adds_one(padded(spans, (n - 1) as nat), plain_style(), ' ');
    }
}

/// The number of characters in all spans.
pub open spec fn span_chars(spans: Seq<(TextStyle, Seq<char>)>) -> nat
    decreases spans.len(),
{
    if spans.len() == 0 {
        0
    } else {
        span_chars(spans.drop_last()) + spans.last().1.len()
    }
}

proof fn lemma_with_char_adds_one(spans: Seq<(TextStyle, Seq<char>)>, style: TextStyle, ch: char)
    ensures
        span_chars(with_char(spans, style, ch)) == span_chars(spans) + 1,
{
    let r = with_char(spans, style, ch);
    if spans.len() > 0 && spans.last().0 == style {
        assert(r.drop_last() =~= spans.drop_last());
    } else {
        assert(r.drop_last() =~= spans);
    }
}

/// The columns the cells of a row take: the widths of all but the cells
/// that continue a wide character.
pub open spec fn cells_columns(cells: Seq<Cell>, upto: int) -> nat {
    cell_spans(cells, upto).1
}

/// A rendered row takes exactly `width` columns wherever its cells fit:
/// the cells' own columns, plus one column for each padding space.
pub proof fn law_row_fills_width(cells: Seq<Cell>, width: nat)
    requires
        cells_columns(cells, if cells.len() < width { cells.len() as int } else { width as int })
            <= width,
    ensures
        ({
            let n = if cells.len() < width { cells.len() as int } else { width as int };
            let (spans, col) = cell_spans(cells, n);
            &&& row_spans(cells, width) == padded(spans, (width - col) as nat)
            &&& span_chars(row_spans(cells, width)) == span_chars(spans) + (width - col)
            &&& col + (width - col) == width
        }),
{
    let n = if cells.len() < width { cells.len() as int } else { width as int };
    let (spans, col) = cell_spans(cells, n);
    lemma_padded_chars(spans, (width - col) as nat);
}


/// A cell's style carries its colors and every one of its attributes: bold,
/// italic, blink, reverse video, invisible and struck-through each become the
/// style's attribute of the same meaning, and the underline becomes exactly
/// one of the three underline attributes, or none. So two cells share a style
/// only when their colors and attributes all agree.
pub proof fn law_cell_style_carries_attributes(cell: Cell, other: Cell)
    ensures
        style_of(cell).foreground == Some(cell.fg),
        style_of(cell).background == Some(cell.bg),
        style_of(cell).attributes.bold == cell.attrs.bold,
        style_of(cell).attributes.italic == cell.attrs.italic,
        style_of(cell).attributes.slow_blink == cell.attrs.blink,
        style_of(cell).attributes.reverse == cell.attrs.reverse,
        style_of(cell).attributes.hidden == cell.attrs.invisible,
        style_of(cell).attributes.crossed_out == cell.attrs.strikethrough,
        style_of(cell).attributes.underlined <==> cell.attrs.underline == UnderlineStyle::Single,
        style_of(cell).attributes.double_underlined <==> cell.attrs.underline == UnderlineStyle::Double,
        style_of(cell).attributes.undercurled <==> cell.attrs.underline == UnderlineStyle::Curly,
        style_of(cell) == style_of(other) ==> cell.fg == other.fg && cell.bg == other.bg && cell.attrs
            == other.attrs,
{
}

} // verus!
