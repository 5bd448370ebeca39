//! What is drawn: coloured text in places on the screen, as plain values.

use vstd::prelude::*;

use crate::config::Icons;
use crate::layout::Rect;
use crate::screen::{CellLook, ScreenCell, TermColor};

verus! {

broadcast use vstd::string::group_string_axioms;

// ---- styles --------------------------------------------------------------

/// A colour of the real terminal.
#[derive(Debug, Clone, Copy, PartialEq, Eq, Structural)]
pub enum Tone {
    Reset,
    Black,
    Red,
    Green,
    Yellow,
    Blue,
    DarkGray,
    Indexed(u8),
    Rgb(u8, u8, u8),
}

/// What is added to text.
#[derive(Debug, Clone, Copy, PartialEq, Eq, Structural)]
pub struct Modifier {
    pub bold: bool,
    pub dim: bool,
    pub italic: bool,
    pub underlined: bool,
    pub reversed: bool,
}

/// How text is drawn; a colour that is not given stays as it is.
#[derive(Debug, Clone, Copy, PartialEq, Eq, Structural)]
pub struct Style {
    pub fg: Option<Tone>,
    pub bg: Option<Tone>,
    pub add_modifier: Modifier,
}

/// The one colour that marks what is focused or active.
pub const ACCENT: Tone = Tone::Blue;

/// What lies behind the selected row of the sidebar.
pub const SELECT_BG: Tone = Tone::DarkGray;

/// The shade of the bars and the panels.
pub open spec fn bar_shade() -> Tone {
    Tone::Rgb(30, 34, 42)
}

/// The shade of the sidebar.
pub open spec fn panel_shade() -> Tone {
    Tone::Rgb(22, 26, 34)
}

/// Nothing added.
pub open spec fn unmodified() -> Modifier {
    Modifier { bold: false, dim: false, italic: false, underlined: false, reversed: false }
}

/// Text as it is.
pub open spec fn plain_style() -> Style {
    Style { fg: None, bg: None, add_modifier: unmodified() }
}

/// Dim text: nearly everything that is not the accent.
pub open spec fn dim_style() -> Style {
    Style { add_modifier: Modifier { dim: true, ..unmodified() }, ..plain_style() }
}

/// Bold text.
pub open spec fn bold_style() -> Style {
    Style { add_modifier: Modifier { bold: true, ..unmodified() }, ..plain_style() }
}

/// Dim italic text.
pub open spec fn faint_style() -> Style {
    Style { add_modifier: Modifier { dim: true, italic: true, ..unmodified() }, ..plain_style() }
}

/// Text in a colour.
pub open spec fn tinted(color: Tone) -> Style {
    Style { fg: Some(color), ..plain_style() }
}

/// Bold text in a colour.
pub open spec fn bold_tinted(color: Tone) -> Style {
    Style { fg: Some(color), ..bold_style() }
}

/// Black text on the accent.
pub open spec fn chip_style() -> Style {
    Style { fg: Some(Tone::Black), bg: Some(ACCENT), ..plain_style() }
}

/// The style with the selection behind it, unless something else is.
pub open spec fn lit(style: Style) -> Style {
    if style.bg is None {
        Style { bg: Some(SELECT_BG), ..style }
    } else {
        style
    }
}

/// The shade of the bars and the panels.
pub fn chrome_bar() -> (r: Tone)
    ensures
        r == bar_shade(),
{
    Tone::Rgb(30, 34, 42)
}

/// The shade of the sidebar.
pub fn chrome_panel() -> (r: Tone)
    ensures
        r == panel_shade(),
{
    Tone::Rgb(22, 26, 34)
}

pub(crate) fn modifier() -> (r: Modifier)
    ensures
        r == unmodified(),
{
    Modifier { bold: false, dim: false, italic: false, underlined: false, reversed: false }
}

/// Text as it is.
pub fn plain() -> (r: Style)
    ensures
        r == plain_style(),
{
    Style { fg: None, bg: None, add_modifier: modifier() }
}

/// Dim text.
pub fn dim() -> (r: Style)
    ensures
        r == dim_style(),
{
    Style { fg: None, bg: None, add_modifier: Modifier { dim: true, ..modifier() } }
}

/// Bold text.
pub fn bold() -> (r: Style)
    ensures
        r == bold_style(),
{
    Style { fg: None, bg: None, add_modifier: Modifier { bold: true, ..modifier() } }
}

/// Dim italic text.
pub fn faint() -> (r: Style)
    ensures
        r == faint_style(),
{
    Style { fg: None, bg: None, add_modifier: Modifier { dim: true, italic: true, ..modifier() } }
}

/// Text in a colour.
pub fn tint(color: Tone) -> (r: Style)
    ensures
        r == tinted(color),
{
    Style { fg: Some(color), bg: None, add_modifier: modifier() }
}

/// Bold text in a colour.
pub fn bold_tint(color: Tone) -> (r: Style)
    ensures
        r == bold_tinted(color),
{
    Style { fg: Some(color), bg: None, add_modifier: Modifier { bold: true, ..modifier() } }
}

/// Black text on the accent.
pub fn chip() -> (r: Style)
    ensures
        r == chip_style(),
{
    Style { fg: Some(Tone::Black), bg: Some(ACCENT), add_modifier: modifier() }
}

pub(crate) fn light(style: Style) -> (r: Style)
    ensures
        r == lit(style),
{
    if style.bg.is_none() {
        Style { fg: style.fg, bg: Some(SELECT_BG), add_modifier: style.add_modifier }
    } else {
        style
    }
}

// ---- text ----------------------------------------------------------------

/// A piece of text in one style.
#[derive(Debug, Clone, PartialEq)]
pub struct Span {
    pub content: String,
    pub style: Style,
}

/// A piece of text, over characters.
#[verifier::ext_equal]
pub struct SpanLook {
    pub content: Seq<char>,
    pub style: Style,
}

impl View for Span {
    type V = SpanLook;

    open spec fn view(&self) -> SpanLook {
        SpanLook { content: self.content@, style: self.style }
    }
}

/// A line of text.
#[derive(Debug, Clone, PartialEq)]
pub struct Line {
    pub spans: Vec<Span>,
}

/// The pieces of a line, over characters.
pub open spec fn looks(s: Seq<Span>) -> Seq<SpanLook> {
    Seq::new(s.len(), |i: int| s[i]@)
}

impl View for Line {
    type V = Seq<SpanLook>;

    open spec fn view(&self) -> Seq<SpanLook> {
        looks(self.spans@)
    }
}

/// The lines, over characters.
pub open spec fn line_looks(s: Seq<Line>) -> Seq<Seq<SpanLook>> {
    Seq::new(s.len(), |i: int| s[i]@)
}

/// A piece of text.
pub open spec fn piece(content: Seq<char>, style: Style) -> SpanLook {
    SpanLook { content, style }
}

/// A line of one piece of text as it is.
pub open spec fn plain_line(content: Seq<char>) -> Seq<SpanLook> {
    seq![piece(content, plain_style())]
}

/// Add a piece of text.
pub(crate) fn add_span(spans: &mut Vec<Span>, content: String, style: Style)
    ensures
        looks(final(spans)@) == looks(old(spans)@).push(piece(content@, style)),
{
    let ghost had = looks(spans@);
    let ghost look = piece(content@, style);
    let span: Span = Span { content, style };
    spans.push(span);
    assert(looks(spans@) =~= had.push(look));
}

/// Add a piece of text.
pub(crate) fn add_text(spans: &mut Vec<Span>, content: &str, style: Style)
    ensures
        looks(final(spans)@) == looks(old(spans)@).push(piece(content@, style)),
{
    add_span(spans, content.to_owned(), style);
}

/// Add all pieces of `more`.
pub(crate) fn add_spans(spans: &mut Vec<Span>, more: Vec<Span>)
    ensures
        looks(final(spans)@) == looks(old(spans)@) + looks(more@),
{
    let ghost had = looks(spans@);
    for i in 0..more.len()
        invariant
            looks(spans@) == had + looks(more@).take(i as int),
    {
        add_text(spans, more[i].content.as_str(), more[i].style);
        assert(looks(more@).take(i + 1) == looks(more@).take(i as int).push(looks(more@)[i as int]));
    }
    assert(looks(more@).take(more@.len() as int) == looks(more@));
}

/// Add a line.
pub(crate) fn add_line(lines: &mut Vec<Line>, spans: Vec<Span>)
    ensures
        line_looks(final(lines)@) == line_looks(old(lines)@).push(looks(spans@)),
{
    let ghost had = line_looks(lines@);
    let ghost look = looks(spans@);
    lines.push(Line { spans });
    assert(line_looks(lines@) =~= had.push(look));
}

/// Add a line of one piece of text as it is.
pub(crate) fn add_plain(lines: &mut Vec<Line>, content: String)
    ensures
        line_looks(final(lines)@) == line_looks(old(lines)@).push(plain_line(content@)),
{
    let mut spans: Vec<Span> = no_spans();
    let ghost text = content@;
    add_span(&mut spans, content, plain());
    assert(looks(spans@) =~= plain_line(text));
    add_line(lines, spans);
}

/// No pieces yet.
pub(crate) fn no_spans() -> (r: Vec<Span>)
    ensures
        looks(r@) == Seq::<SpanLook>::empty(),
{
    let r: Vec<Span> = Vec::new();
    assert(looks(r@) =~= Seq::empty());
    r
}

/// No lines yet.
pub(crate) fn no_lines() -> (r: Vec<Line>)
    ensures
        line_looks(r@) == Seq::<Seq<SpanLook>>::empty(),
{
    let r: Vec<Line> = Vec::new();
    assert(line_looks(r@) =~= Seq::empty());
    r
}

// ---- widths --------------------------------------------------------------

/// `ratatui::text::Span::width` of a text: the columns that it takes.
pub uninterp spec fn columns(text: Seq<char>) -> usize;

/// `ratatui::text::Span::width`: how many columns a text takes, decided by the
/// text.
#[verifier::external_body]
fn text_width(text: &str) -> (r: usize)
    ensures
        r == columns(text@),
{
    ratatui::text::Span::raw(text).width()
}

/// How many columns the first `n` pieces of a line take together.
pub open spec fn line_columns(line: Seq<SpanLook>, n: int) -> int
    decreases n,
{
    if n <= 0 {
        0
    } else {
        line_columns(line, n - 1) + columns(line[n - 1].content)
    }
}

/// As far as a `usize` counts.
pub open spec fn capped(n: int) -> usize {
    if n > usize::MAX {
        usize::MAX
    } else {
        n as usize
    }
}

/// How many columns a line takes.
pub open spec fn width_of(line: Seq<SpanLook>) -> usize {
    capped(line_columns(line, line.len() as int))
}

proof fn columns_add_up(line: Seq<SpanLook>, n: int)
    ensures
        line_columns(line, n) >= 0,
    decreases n,
{
    if n > 0 {
        columns_add_up(line, n - 1);
    }
}

/// How many columns a line takes.
pub fn line_width(spans: &Vec<Span>) -> (r: usize)
    ensures
        r == width_of(looks(spans@)),
{
    let ghost line = looks(spans@);
    let mut total: usize = 0;
    for i in 0..spans.len()
        invariant
            line == looks(spans@),
            total == capped(line_columns(line, i as int)),
    {
        proof {
            columns_add_up(line, i as int);
        }
        assert(line[i as int].content == spans@[i as int].content@);
        total = total.saturating_add(text_width(spans[i].content.as_str()));
    }
    total
}

/// The columns of the widest of the first `n` lines.
pub open spec fn widest(lines: Seq<Seq<SpanLook>>, n: int) -> usize
    decreases n,
{
    if n <= 0 {
        0
    } else {
        let w = width_of(lines[n - 1]);
        if w > widest(lines, n - 1) {
            w
        } else {
            widest(lines, n - 1)
        }
    }
}

/// The columns of the widest line.
pub(crate) fn widest_line(lines: &Vec<Line>) -> (r: usize)
    ensures
        r == widest(line_looks(lines@), lines@.len() as int),
{
    let ghost all = line_looks(lines@);
    let mut most: usize = 0;
    for i in 0..lines.len()
        invariant
            all == line_looks(lines@),
            most == widest(all, i as int),
    {
        assert(all[i as int] == looks(lines@[i as int].spans@));
        let w: usize = line_width(&lines[i].spans);
        if w > most {
            most = w;
        }
    }
    most
}

// ---- glyphs --------------------------------------------------------------

/// The characters of the sidebar's dots and markers.
#[derive(Debug, Clone, Copy, PartialEq, Eq, Structural)]
pub struct Glyphs {
    /// The dot of a workspace that owns the active tab, and of another.
    pub ws_active: char,
    pub ws_inactive: char,
    /// The dots of agents that are blocked, done and idle.
    pub blocked: char,
    pub done: char,
    pub idle: char,
    /// The markers before a branch and before a stale tag.
    pub branch: char,
    pub fork: char,
}

/// The characters of an icon set: those that every terminal shows, or those of
/// a patched font.
pub open spec fn glyphs_of(icons: Icons) -> Glyphs {
    match icons {
        Icons::Unicode => Glyphs {
            ws_active: '●',
            ws_inactive: '○',
            blocked: '●',
            done: '●',
            idle: '○',
            branch: '⎇',
            fork: '⑂',
        },
        Icons::Nerdfont => Glyphs {
            ws_active: '\u{f07c}',
            ws_inactive: '\u{f07b}',
            blocked: '\u{f057}',
            done: '\u{f058}',
            idle: '\u{f111}',
            branch: '\u{e0a0}',
            fork: '\u{f126}',
        },
    }
}

/// The characters of an icon set.
pub fn glyphs(icons: Icons) -> (r: Glyphs)
    ensures
        r == glyphs_of(icons),
{
    match icons {
        Icons::Unicode => Glyphs {
            ws_active: '●',
            ws_inactive: '○',
            blocked: '●',
            done: '●',
            idle: '○',
            branch: '⎇',
            fork: '⑂',
        },
        Icons::Nerdfont => Glyphs {
            ws_active: '\u{f07c}',
            ws_inactive: '\u{f07b}',
            blocked: '\u{f057}',
            done: '\u{f058}',
            idle: '\u{f111}',
            branch: '\u{e0a0}',
            fork: '\u{f126}',
        },
    }
}

// ---- cells ---------------------------------------------------------------

/// The colour that a colour of a pane's screen is drawn in.
pub open spec fn mapped(color: TermColor) -> Tone {
    match color {
        TermColor::Default => Tone::Reset,
        TermColor::Idx(i) => Tone::Indexed(i),
        TermColor::Rgb(r, g, b) => Tone::Rgb(r, g, b),
    }
}

/// The style that a cell of a pane's screen is drawn in.
pub open spec fn styled(cell: CellLook) -> Style {
    Style {
        fg: Some(mapped(cell.2)),
        bg: Some(mapped(cell.3)),
        add_modifier: Modifier {
            bold: cell.4.0,
            dim: cell.4.1,
            italic: cell.4.2,
            underlined: cell.4.3,
            reversed: cell.4.4,
        },
    }
}

/// The colour that a colour of a pane's screen is drawn in.
pub fn map_color(color: TermColor) -> (r: Tone)
    ensures
        r == mapped(color),
{
    match color {
        TermColor::Default => Tone::Reset,
        TermColor::Idx(i) => Tone::Indexed(i),
        TermColor::Rgb(r, g, b) => Tone::Rgb(r, g, b),
    }
}

/// The style that a cell of a pane's screen is drawn in: its own.
pub fn cell_style(cell: &ScreenCell) -> (r: Style)
    ensures
        r == styled(cell@),
{
    Style {
        fg: Some(map_color(cell.fg)),
        bg: Some(map_color(cell.bg)),
        add_modifier: Modifier {
            bold: cell.bold,
            dim: cell.dim,
            italic: cell.italic,
            underlined: cell.underline,
            reversed: cell.inverse,
        },
    }
}

/// What is drawn of one cell: the text, and the style, where the cell has one
/// of its own.
#[derive(Debug, Clone, PartialEq)]
pub struct CellPaint {
    pub symbol: String,
    pub style: Option<Style>,
}

/// What is drawn of one cell, over characters.
#[verifier::ext_equal]
pub struct CellStroke {
    pub symbol: Seq<char>,
    pub style: Option<Style>,
}

impl View for CellPaint {
    type V = CellStroke;

    open spec fn view(&self) -> CellStroke {
        CellStroke { symbol: self.symbol@, style: self.style }
    }
}

/// What is drawn of a cell: nothing of the second half of a wide character, a
/// blank where there is no text, and the text in the cell's style.
pub open spec fn cell_stroke(cell: Option<CellLook>) -> CellStroke {
    match cell {
        Some(c) => if c.1 {
            CellStroke { symbol: Seq::empty(), style: None }
        } else if c.0.len() == 0 {
            CellStroke { symbol: seq![' '], style: Some(styled(c)) }
        } else {
            CellStroke { symbol: c.0, style: Some(styled(c)) }
        },
        None => CellStroke { symbol: seq![' '], style: None },
    }
}

fn blank() -> (r: String)
    ensures
        r@ == seq![' '],
{
    let mut s: String = String::new();
    s.push(' ');
    assert(s@ =~= seq![' ']);
    s
}

/// What is drawn of a cell.
pub fn paint_cell(cell: &Option<ScreenCell>) -> (r: CellPaint)
    ensures
        r@ == cell_stroke(
            match *cell {
                Some(c) => Some(c@),
                None => None,
            },
        ),
{
    match cell {
        Some(c) => if c.continuation {
            let symbol: String = String::new();
            assert(symbol@ =~= Seq::<char>::empty());
            CellPaint { symbol, style: None }
        } else if c.text.as_str().is_empty() {
            CellPaint { symbol: blank(), style: Some(cell_style(c)) }
        } else {
            CellPaint { symbol: c.text.clone(), style: Some(cell_style(c)) }
        },
        None => CellPaint { symbol: blank(), style: None },
    }
}

// ---- strokes -------------------------------------------------------------

/// One thing that is drawn.
#[allow(inconsistent_fields)]
#[derive(Debug, Clone, PartialEq)]
pub enum Paint {
    /// A background.
    Shade { area: Rect, bg: Tone },
    /// Nothing: what was there goes away.
    Wipe { area: Rect },
    /// Lines from the top of `area`, cut off at its edges, on `base`.
    Text { area: Rect, lines: Vec<Line>, centred: bool, base: Style },
    /// A rounded frame along the inner edge of `area`, with a title in its top
    /// and `bg` inside.
    Frame { area: Rect, style: Style, title: String, bg: Option<Tone> },
    /// Cells from the top left of `area`, row by row.
    Cells { area: Rect, rows: Vec<Vec<CellPaint>> },
    /// The cursor.
    Cursor { x: u16, y: u16 },
}

/// One thing that is drawn, over characters.
#[allow(inconsistent_fields)]
pub enum Stroke {
    Shade { area: Rect, bg: Tone },
    Wipe { area: Rect },
    Text { area: Rect, lines: Seq<Seq<SpanLook>>, centred: bool, base: Style },
    Frame { area: Rect, style: Style, title: Seq<char>, bg: Option<Tone> },
    Cells { area: Rect, rows: Seq<Seq<CellStroke>> },
    Cursor { x: u16, y: u16 },
}

/// The cells of a row, over characters.
pub open spec fn row_strokes(row: Seq<CellPaint>) -> Seq<CellStroke> {
    Seq::new(row.len(), |i: int| row[i]@)
}

/// The rows of cells, over characters.
pub open spec fn grid_strokes(rows: Seq<Vec<CellPaint>>) -> Seq<Seq<CellStroke>> {
    Seq::new(rows.len(), |i: int| row_strokes(rows[i]@))
}

impl View for Paint {
    type V = Stroke;

    open spec fn view(&self) -> Stroke {
        match self {
            Paint::Shade { area, bg } => Stroke::Shade { area: *area, bg: *bg },
            Paint::Wipe { area } => Stroke::Wipe { area: *area },
            Paint::Text { area, lines, centred, base } => Stroke::Text {
                area: *area,
                lines: line_looks(lines@),
                centred: *centred,
                base: *base,
            },
            Paint::Frame { area, style, title, bg } => Stroke::Frame {
                area: *area,
                style: *style,
                title: title@,
                bg: *bg,
            },
            Paint::Cells { area, rows } => Stroke::Cells {
                area: *area,
                rows: grid_strokes(rows@),
            },
            Paint::Cursor { x, y } => Stroke::Cursor { x: *x, y: *y },
        }
    }
}

/// What is drawn, over characters.
pub open spec fn strokes(s: Seq<Paint>) -> Seq<Stroke> {
    Seq::new(s.len(), |i: int| s[i]@)
}

/// Draw one more thing.
pub(crate) fn put(out: &mut Vec<Paint>, paint: Paint)
    ensures
        strokes(final(out)@) == strokes(old(out)@).push(paint@),
{
    let ghost had = strokes(out@);
    let ghost stroke = paint@;
    out.push(paint);
    assert(strokes(out@) =~= had.push(stroke));
}

/// Nothing drawn.
pub open spec fn no_strokes() -> Seq<Stroke> {
    Seq::empty()
}

/// Lines from the top of an area.
pub open spec fn text_in(area: Rect, lines: Seq<Seq<SpanLook>>) -> Stroke {
    Stroke::Text { area, lines, centred: false, base: plain_style() }
}

/// Draw one line at the top of an area.
pub(crate) fn put_line(out: &mut Vec<Paint>, area: Rect, spans: Vec<Span>)
    ensures
        strokes(final(out)@) == strokes(old(out)@).push(text_in(area, seq![looks(spans@)])),
{
    let ghost look = looks(spans@);
    let mut lines: Vec<Line> = no_lines();
    add_line(&mut lines, spans);
    assert(line_looks(lines@) =~= seq![look]);
    put(out, Paint::Text { area, lines, centred: false, base: plain() });
}

/// A background, if there is one.
pub open spec fn shaded(area: Rect, bg: Option<Tone>) -> Seq<Stroke> {
    match bg {
        Some(bg) => seq![Stroke::Shade { area, bg }],
        None => no_strokes(),
    }
}

/// Draw a background, if there is one.
pub(crate) fn put_shade(out: &mut Vec<Paint>, area: Rect, bg: Option<Tone>)
    ensures
        strokes(final(out)@) == strokes(old(out)@) + shaded(area, bg),
{
    match bg {
        Some(bg) => {
            put(out, Paint::Shade { area, bg });
        },
        None => {},
    }
    assert(strokes(out@) =~= strokes(old(out)@) + shaded(area, bg));
}

// ---- laws ----------------------------------------------------------------

/// A pane is drawn in its program's own colours: what a cell is drawn in tells its
/// text colour and its background, a palette colour keeps its number and a true
/// colour its parts, and a colour looks the same before and behind the text.
pub proof fn colours_pass_through(a: ScreenCell, b: ScreenCell)
    ensures
        (styled(a@).fg == styled(b@).fg) == (a.fg == b.fg),
        (styled(a@).bg == styled(b@).bg) == (a.bg == b.bg),
        (styled(a@).fg == styled(b@).bg) == (a.fg == b.bg),
        a.fg matches TermColor::Idx(i) ==> styled(a@).fg == Some(Tone::Indexed(i)),
        a.bg matches TermColor::Idx(i) ==> styled(a@).bg == Some(Tone::Indexed(i)),
        a.fg matches TermColor::Rgb(x, y, z) ==> styled(a@).fg == Some(Tone::Rgb(x, y, z)),
        a.bg matches TermColor::Rgb(x, y, z) ==> styled(a@).bg == Some(Tone::Rgb(x, y, z)),
        a.fg == TermColor::Default ==> styled(a@).fg == Some(Tone::Reset),
        a.bg == TermColor::Default ==> styled(a@).bg == Some(Tone::Reset),
{
}

/// A pane is drawn with its program's own attributes, each as the program set it.
pub proof fn attributes_pass_through(c: ScreenCell)
    ensures
        styled(c@).add_modifier.bold == c.bold,
        styled(c@).add_modifier.dim == c.dim,
        styled(c@).add_modifier.italic == c.italic,
        styled(c@).add_modifier.underlined == c.underline,
        styled(c@).add_modifier.reversed == c.inverse,
{
}

/// Every cell that is drawn at all is drawn in its own style, with its own text
/// where it has one; the second half of a wide character is covered by the first.
pub proof fn cells_show_their_text(c: ScreenCell)
    ensures
        c.continuation ==> cell_stroke(Some(c@)).symbol.len() == 0,
        !c.continuation ==> cell_stroke(Some(c@)).style == Some(styled(c@)),
        !c.continuation && c.text@.len() > 0 ==> cell_stroke(Some(c@)).symbol == c.text@,
        !c.continuation && c.text@.len() == 0 ==> cell_stroke(Some(c@)).symbol == seq![' '],
        cell_stroke(None).symbol == seq![' '] && cell_stroke(None).style is None,
{
}

/// The dots and markers of an icon set tell apart what stands in the same place: a
/// workspace that is active, an agent that waits from one that idles, and a branch
/// from a fork.
pub proof fn glyphs_tell_apart(icons: Icons)
    ensures
        glyphs_of(icons).ws_active != glyphs_of(icons).ws_inactive,
        glyphs_of(icons).idle != glyphs_of(icons).blocked,
        glyphs_of(icons).idle != glyphs_of(icons).done,
        glyphs_of(icons).branch != glyphs_of(icons).fork,
{
}

/// The looks of text differ in what they are named for: dim is dim, bold is bold,
/// what is tinted has that colour and nothing else, and a lit row keeps its text
/// while its background becomes the selection's.
pub proof fn looks_are_what_they_are_named(color: Tone, style: Style)
    ensures
        dim_style().add_modifier.dim && !dim_style().add_modifier.bold,
        bold_style().add_modifier.bold && !bold_style().add_modifier.dim,
        faint_style().add_modifier.dim && faint_style().add_modifier.italic,
        tinted(color).fg == Some(color) && tinted(color).bg is None,
        tinted(color).add_modifier == plain_style().add_modifier,
        bold_tinted(color).fg == Some(color) && bold_tinted(color).add_modifier
            == bold_style().add_modifier,
        plain_style().fg is None && plain_style().bg is None,
        chip_style().bg == Some(ACCENT) && chip_style().fg is Some && chip_style().fg
            != chip_style().bg,
        lit(style).fg == style.fg && lit(style).add_modifier == style.add_modifier,
        style.bg is None ==> lit(style).bg == Some(SELECT_BG),
        style.bg is Some ==> lit(style) == style,
{
}

} // verus!
