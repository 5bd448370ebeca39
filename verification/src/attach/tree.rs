//! The sidebar: one frame around the tree of projects and the queue of agents
//! that wait, and the prompt at its foot.

use vstd::prelude::*;

use crate::attach::app::{App, Mode};
use crate::attach::bars::{add_census, agent_dot, census_chips, dot_of, state_look};
use crate::attach::geometry::{least, less};
use crate::attach::look::{
    add_line, add_span, add_spans, add_text, bold, bold_style, chip_style, chrome_panel, dim,
    dim_style, faint, faint_style, glyphs, glyphs_of, light, line_looks, lit, looks, modifier,
    no_lines, no_spans, no_strokes, panel_shade, piece, plain, plain_style, put, put_line,
    put_shade, shaded, strokes, text_in, tint, tinted, unmodified, Glyphs, Line, Modifier, Paint,
    Span, SpanLook, Stroke, Style, Tone, ACCENT,
};
use crate::config::Icons;
use crate::layout::Rect;
use crate::model::SubagentInfo;
use crate::sidebar::{
    divider_row, heights, ordered, queue_holds_who_waits, top_row, waiting_lines,
    workspaces_among, AgentLine, AgentRow, EntryLine, Section, Sidebar, SidebarEntry,
    WorkspaceLine, WorkspaceRow,
};
use crate::table::{state_label, state_word};
use crate::text::{decimal, glue, length, number, repeat, texts, times};

verus! {

broadcast use {vstd::string::group_string_axioms, vstd::std_specs::hash::group_hash_axioms};

// ---- rows ----------------------------------------------------------------

/// How many characters the first `n` pieces have.
pub open spec fn used(spans: Seq<SpanLook>, n: int) -> nat
    decreases n,
{
    if n <= 0 {
        0
    } else {
        used(spans, n - 1) + spans[n - 1].content.len()
    }
}

/// How many characters a row has.
pub open spec fn row_len(spans: Seq<SpanLook>) -> nat {
    used(spans, spans.len() as int)
}

/// The row with the selection behind it, where it is selected.
pub open spec fn lit_row(spans: Seq<SpanLook>, sel: bool) -> Seq<SpanLook> {
    Seq::new(
        spans.len(),
        |i: int|
            if sel {
                piece(spans[i].content, lit(spans[i].style))
            } else {
                spans[i]
            },
    )
}

/// Blanks, with the selection behind them where the row is selected.
pub open spec fn blank_style(sel: bool) -> Style {
    if sel {
        lit(plain_style())
    } else {
        plain_style()
    }
}

/// The row filled up to `width` columns.
pub open spec fn padded(spans: Seq<SpanLook>, sel: bool, width: u16) -> Seq<SpanLook> {
    lit_row(spans, sel) + (if row_len(spans) < width {
        seq![piece(times(' ', width - row_len(spans)), blank_style(sel))]
    } else {
        Seq::empty()
    })
}

/// The row with `tag` at its right end, or filled up where there is no room.
pub open spec fn tagged(
    left: Seq<SpanLook>,
    tag: Seq<SpanLook>,
    sel: bool,
    width: u16,
) -> Seq<SpanLook> {
    if tag.len() > 0 && row_len(left) + 1 + row_len(tag) <= width {
        lit_row(
            left + seq![
                piece(times(' ', width - row_len(left) - row_len(tag)), plain_style()),
            ] + tag,
            sel,
        )
    } else {
        padded(left, sel, width)
    }
}

fn measure(spans: &Vec<Span>, limit: usize) -> (r: Option<usize>)
    ensures
        match r {
            Some(n) => n == row_len(looks(spans@)) && n <= limit,
            None => row_len(looks(spans@)) > limit,
        },
{
    let ghost all = looks(spans@);
    let mut total: usize = 0;
    for i in 0..spans.len()
        invariant
            all == looks(spans@),
            total == used(all, i as int),
            total <= limit,
    {
        assert(all[i as int].content == spans@[i as int].content@);
        let n: usize = length(spans[i].content.as_str());
        if n > limit - total {
            proof {
                used_grows(all, i + 1, all.len() as int);
            }
            return None;
        }
        total = total + n;
    }
    Some(total)
}

proof fn used_grows(spans: Seq<SpanLook>, i: int, j: int)
    requires
        0 <= i <= j,
    ensures
        used(spans, i) <= used(spans, j),
    decreases j,
{
    if i < j {
        used_grows(spans, i, j - 1);
    }
}

fn light_row(spans: Vec<Span>, sel: bool) -> (r: Vec<Span>)
    ensures
        looks(r@) == lit_row(looks(spans@), sel),
{
    if !sel {
        assert(lit_row(looks(spans@), sel) =~= looks(spans@));
        return spans;
    }
    let ghost all = looks(spans@);
    let mut out: Vec<Span> = no_spans();
    for i in 0..spans.len()
        invariant
            sel,
            all == looks(spans@),
            looks(out@) == lit_row(all, sel).take(i as int),
    {
        assert(all[i as int] == spans@[i as int]@);
        add_text(&mut out, spans[i].content.as_str(), light(spans[i].style));
        assert(looks(out@) =~= lit_row(all, sel).take(i + 1));
    }
    assert(looks(out@) =~= lit_row(all, sel));
    out
}

/// The row filled up to `width` columns.
pub fn pad_inner(spans: Vec<Span>, sel: bool, width: u16) -> (r: Vec<Span>)
    ensures
        looks(r@) == padded(looks(spans@), sel, width),
{
    let n: Option<usize> = measure(&spans, width as usize);
    let ghost all = looks(spans@);
    let mut out: Vec<Span> = light_row(spans, sel);
    match n {
        Some(n) => {
            if n < width as usize {
                let style: Style = if sel {
                    light(plain())
                } else {
                    plain()
                };
                add_span(&mut out, repeat(' ', width as usize - n), style);
            }
        },
        None => {},
    }
    assert(looks(out@) =~= padded(all, sel, width));
    out
}

/// The row with `tag` at its right end, or filled up where there is no room.
pub fn right_tagged(left: Vec<Span>, tag: Vec<Span>, sel: bool, width: u16) -> (r: Vec<Span>)
    ensures
        looks(r@) == tagged(looks(left@), looks(tag@), sel, width),
{
    if tag.len() > 0 {
        let a: Option<usize> = measure(&left, width as usize);
        let b: Option<usize> = measure(&tag, width as usize);
        match (a, b) {
            (Some(lw), Some(tw)) => {
                if lw + 1 + tw <= width as usize {
                    let ghost l = looks(left@);
                    let ghost t = looks(tag@);
                    let mut spans: Vec<Span> = left;
                    add_span(&mut spans, repeat(' ', width as usize - lw - tw), plain());
                    add_spans(&mut spans, tag);
                    assert(looks(spans@) =~= l + seq![
                        piece(times(' ', width - row_len(l) - row_len(t)), plain_style()),
                    ] + t);
                    return light_row(spans, sel);
                }
            },
            _ => {},
        }
    }
    pad_inner(left, sel, width)
}

/// A name: an accent chip where it is selected, else dim.
pub open spec fn name_piece(text: Seq<char>, sel: bool, bold: bool) -> SpanLook {
    piece(
        text,
        if sel {
            Style { add_modifier: Modifier { bold, ..unmodified() }, ..chip_style() }
        } else {
            Style { add_modifier: Modifier { bold, dim: true, ..unmodified() }, ..plain_style() }
        },
    )
}

fn add_name(spans: &mut Vec<Span>, text: &str, sel: bool, bold: bool)
    ensures
        looks(final(spans)@) == looks(old(spans)@).push(name_piece(text@, sel, bold)),
{
    let style: Style = if sel {
        Style {
            fg: Some(Tone::Black),
            bg: Some(ACCENT),
            add_modifier: Modifier { bold, ..modifier() },
        }
    } else {
        Style { fg: None, bg: None, add_modifier: Modifier { bold, dim: true, ..modifier() } }
    };
    add_text(spans, text, style);
}

/// The guide of a row `depth` levels deep.
pub open spec fn guide_of(guide: Option<char>, depth: u8) -> Seq<char> {
    match guide {
        Some(g) => times(' ', if depth > 1 {
            2 * (depth - 1)
        } else {
            0
        }) + seq![g, ' '],
        None => Seq::empty(),
    }
}

fn guide_text(guide: Option<char>, depth: u8) -> (r: String)
    ensures
        r@ == guide_of(guide, depth),
{
    match guide {
        Some(g) => {
            let n: usize = if depth > 1 {
                2 * (depth as usize - 1)
            } else {
                0
            };
            let mut text: String = repeat(' ', n);
            text.push(g);
            text.push(' ');
            assert(text@ =~= guide_of(guide, depth));
            text
        },
        None => {
            let text: String = String::new();
            assert(text@ =~= guide_of(guide, depth));
            text
        },
    }
}

/// The first line of a workspace: its dot, its name, and how many of its agents
/// need attention.
pub open spec fn workspace_row(
    w: WorkspaceLine,
    sel: bool,
    width: u16,
    spinner: char,
    g: Glyphs,
) -> Seq<SpanLook> {
    tagged(
        seq![
            piece(guide_of(w.guide, 1), dim_style()),
            if w.active {
                piece(seq![g.ws_active, ' '], tinted(ACCENT))
            } else {
                piece(seq![g.ws_inactive, ' '], dim_style())
            },
            name_piece(w.name, sel, true),
        ],
        census_chips(w.census, spinner, g),
        sel,
        width,
    )
}

/// The second line of a workspace: its branch, and at the right that it is
/// stale or what changed.
pub open spec fn workspace_subtitle(w: WorkspaceLine, sel: bool, width: u16, g: Glyphs) -> Seq<
    SpanLook,
> {
    let left = seq![
        piece(
            times(' ', guide_of(w.guide, 1).len() as int) + (match w.subtitle {
                Some(s) => seq![' ', ' ', g.branch, ' '] + s,
                None => Seq::empty(),
            }),
            dim_style(),
        ),
    ];
    if w.stale {
        tagged(
            left,
            seq![piece(seq![g.fork] + " stale"@, Style { fg: Some(Tone::Red), ..dim_style() })],
            sel,
            width,
        )
    } else {
        match w.changes {
            Some(c) => tagged(left, seq![piece(c, dim_style())], sel, width),
            None => padded(left, sel, width),
        }
    }
}

/// The first line of an agent: its dot and its title.
pub open spec fn agent_row(a: AgentLine, sel: bool, spinner: char, width: u16, g: Glyphs) -> Seq<
    SpanLook,
> {
    padded(
        seq![
            piece(guide_of(a.guide, a.depth), dim_style()),
            piece(seq![dot_of(a.state, spinner, g), ' '], state_look(a.state)),
            name_piece(a.title, sel, false),
        ],
        sel,
        width,
    )
}

/// The second line of an agent: what it does, or in the queue where it lives,
/// its kind, and a bell where it raised a notification.
pub open spec fn agent_subtitle(
    a: AgentLine,
    sel: bool,
    notified: bool,
    waiting: bool,
    width: u16,
) -> Seq<SpanLook> {
    let what = if waiting {
        a.project_name
    } else {
        state_word(a.state)
    };
    padded(
        seq![
            piece(
                times(' ', guide_of(a.guide, a.depth).len() as int) + "  "@ + what + " · "@
                    + a.kind,
                dim_style(),
            ),
        ] + (if notified {
            seq![piece(" 🔔"@, bold_style())]
        } else {
            Seq::empty()
        }),
        sel,
        width,
    )
}

/// The line of a subagent: a guide, the spinner while it runs, and what it does.
pub open spec fn subagent_row(
    sub: SubagentInfo,
    lead: int,
    spinner: char,
    last: bool,
    width: u16,
) -> Seq<SpanLook> {
    padded(
        seq![
            piece(
                times(' ', lead) + seq![
                    ' ',
                    ' ',
                    if last {
                        '└'
                    } else {
                        '├'
                    },
                    ' ',
                    if sub.running {
                        spinner
                    } else {
                        '·'
                    },
                    ' ',
                ] + sub.desc@,
                dim_style(),
            ),
        ],
        false,
        width,
    )
}

/// A dim line in a section that is empty.
pub open spec fn placeholder_row(text: Seq<char>, width: u16) -> Seq<SpanLook> {
    padded(seq![piece("  "@ + text, faint_style())], false, width)
}

fn workspace_inner(w: &WorkspaceRow, sel: bool, width: u16, spinner: char, g: &Glyphs) -> (r: Vec<
    Span,
>)
    ensures
        looks(r@) == workspace_row(w@, sel, width, spinner, *g),
{
    let mut left: Vec<Span> = no_spans();
    add_span(&mut left, guide_text(w.guide, 1), dim());
    let mut dot: String = String::new();
    if w.active {
        dot.push(g.ws_active);
        dot.push(' ');
        assert(dot@ =~= seq![g.ws_active, ' ']);
        add_span(&mut left, dot, tint(ACCENT));
    } else {
        dot.push(g.ws_inactive);
        dot.push(' ');
        assert(dot@ =~= seq![g.ws_inactive, ' ']);
        add_span(&mut left, dot, dim());
    }
    add_name(&mut left, w.name.as_str(), sel, true);
    let mut tag: Vec<Span> = no_spans();
    add_census(&mut tag, w.census, spinner, g);
    assert(looks(tag@) =~= census_chips(w.census, spinner, *g));
    assert(looks(left@) =~= seq![
        piece(guide_of(w.guide, 1), dim_style()),
        if w.active {
            piece(seq![g.ws_active, ' '], tinted(ACCENT))
        } else {
            piece(seq![g.ws_inactive, ' '], dim_style())
        },
        name_piece(w.name@, sel, true),
    ]);
    right_tagged(left, tag, sel, width)
}

fn workspace_subtitle_inner(w: &WorkspaceRow, sel: bool, width: u16, g: &Glyphs) -> (r: Vec<Span>)
    ensures
        looks(r@) == workspace_subtitle(w@, sel, width, *g),
{
    let guide: String = guide_text(w.guide, 1);
    let mut text: String = repeat(' ', length(guide.as_str()));
    let ghost lead = text@;
    match &w.subtitle {
        Some(s) => {
            text.push(' ');
            text.push(' ');
            text.push(g.branch);
            text.push(' ');
            assert(text@ =~= lead + seq![' ', ' ', g.branch, ' ']);
            text.append(s.as_str());
            assert(text@ =~= lead + (seq![' ', ' ', g.branch, ' '] + s@));
        },
        None => {
            assert(text@ =~= lead + Seq::<char>::empty());
        },
    }
    let ghost line = text@;
    let mut left: Vec<Span> = no_spans();
    add_span(&mut left, text, dim());
    assert(looks(left@) =~= seq![piece(line, dim_style())]);
    let mut tag: Vec<Span> = no_spans();
    if w.stale {
        let mut mark: String = String::new();
        mark.push(g.fork);
        mark.append(" stale");
        assert(mark@ =~= seq![g.fork] + " stale"@);
        add_span(&mut tag, mark, Style { fg: Some(Tone::Red), ..dim() });
        assert(looks(tag@) =~= seq![
            piece(seq![g.fork] + " stale"@, Style { fg: Some(Tone::Red), ..dim_style() }),
        ]);
        return right_tagged(left, tag, sel, width);
    }
    match &w.changes {
        Some(c) => {
            add_text(&mut tag, c.as_str(), dim());
            assert(looks(tag@) =~= seq![piece(c@, dim_style())]);
            right_tagged(left, tag, sel, width)
        },
        None => pad_inner(left, sel, width),
    }
}

fn agent_inner(a: &AgentRow, sel: bool, spinner: char, width: u16, g: &Glyphs) -> (r: Vec<Span>)
    ensures
        looks(r@) == agent_row(a@, sel, spinner, width, *g),
{
    let (dot, style) = agent_dot(a.state, spinner, g);
    let mut spans: Vec<Span> = no_spans();
    add_span(&mut spans, guide_text(a.guide, a.depth), dim());
    let mut text: String = String::new();
    text.push(dot);
    text.push(' ');
    assert(text@ =~= seq![dot, ' ']);
    add_span(&mut spans, text, style);
    add_name(&mut spans, a.title.as_str(), sel, false);
    assert(looks(spans@) =~= seq![
        piece(guide_of(a.guide, a.depth), dim_style()),
        piece(seq![dot_of(a.state, spinner, *g), ' '], state_look(a.state)),
        name_piece(a.title@, sel, false),
    ]);
    pad_inner(spans, sel, width)
}

fn agent_subtitle_inner(a: &AgentRow, sel: bool, notified: bool, waiting: bool, width: u16) -> (r:
    Vec<Span>)
    ensures
        looks(r@) == agent_subtitle(a@, sel, notified, waiting, width),
{
    let guide: String = guide_text(a.guide, a.depth);
    let mut text: String = repeat(' ', length(guide.as_str()));
    text.append("  ");
    if waiting {
        text.append(a.project_name.as_str());
    } else {
        text.append(state_label(a.state));
    }
    text.append(" · ");
    text.append(a.kind.as_str());
    let ghost line = text@;
    let mut spans: Vec<Span> = no_spans();
    add_span(&mut spans, text, dim());
    if notified {
        add_text(&mut spans, " 🔔", bold());
    }
    assert(looks(spans@) =~= seq![piece(line, dim_style())] + (if notified {
        seq![piece(" 🔔"@, bold_style())]
    } else {
        Seq::empty()
    }));
    pad_inner(spans, sel, width)
}

fn subagent_inner(sub: &SubagentInfo, lead: usize, spinner: char, last: bool, width: u16) -> (r:
    Vec<Span>)
    ensures
        looks(r@) == subagent_row(*sub, lead as int, spinner, last, width),
{
    let mut text: String = repeat(' ', lead);
    let ghost blanks = text@;
    let guide: char = if last {
        '└'
    } else {
        '├'
    };
    let glyph: char = if sub.running {
        spinner
    } else {
        '·'
    };
    text.push(' ');
    text.push(' ');
    text.push(guide);
    text.push(' ');
    text.push(glyph);
    text.push(' ');
    assert(text@ =~= blanks + seq![' ', ' ', guide, ' ', glyph, ' ']);
    text.append(sub.desc.as_str());
    let ghost line = text@;
    let mut spans: Vec<Span> = no_spans();
    add_span(&mut spans, text, dim());
    assert(looks(spans@) =~= seq![piece(line, dim_style())]);
    pad_inner(spans, false, width)
}

fn placeholder_inner(text: &str, width: u16) -> (r: Vec<Span>)
    ensures
        looks(r@) == placeholder_row(text@, width),
{
    let mut spans: Vec<Span> = no_spans();
    add_span(&mut spans, glue("  ", text), faint());
    assert(looks(spans@) =~= seq![piece("  "@ + text@, faint_style())]);
    pad_inner(spans, false, width)
}

// ---- the frame -----------------------------------------------------------

/// A line of the frame that heads a section: whether it is open, its title, and
/// how much it holds.
pub open spec fn header_line(
    left: char,
    right: char,
    collapsed: bool,
    title: Seq<char>,
    count: usize,
    width: u16,
) -> Seq<SpanLook> {
    let arrow = if collapsed {
        '▶'
    } else {
        '▼'
    };
    let total = decimal(count as nat);
    seq![
        piece(seq![left, ' ', arrow, ' '], dim_style()),
        piece(title, plain_style()),
        piece(
            seq![' '] + times('─', less(width as int, 8int + title.len() + total.len())) + seq![' '],
            dim_style(),
        ),
        piece(total, dim_style()),
        piece(seq![' ', right], dim_style()),
    ]
}

/// The bottom of the frame.
pub open spec fn bottom_line(width: u16) -> Seq<SpanLook> {
    seq![piece(seq!['╰'] + times('─', less(width as int, 2)) + seq!['╯'], dim_style())]
}

/// An empty line between the frame's edges.
pub open spec fn blank_line(width: u16) -> Seq<SpanLook> {
    seq![
        piece("│"@, dim_style()),
        piece(times(' ', less(width as int, 2)), plain_style()),
        piece("│"@, dim_style()),
    ]
}

/// A row between the frame's edges.
pub open spec fn framed(inner: Seq<SpanLook>, sel: bool) -> Seq<SpanLook> {
    seq![piece("│"@, dim_style()), piece(" "@, blank_style(sel))] + inner + seq![
        piece(" "@, blank_style(sel)),
        piece("│"@, dim_style()),
    ]
}

/// A line of the frame that heads a section.
pub fn header_border(
    left: char,
    right: char,
    collapsed: bool,
    title: &str,
    count: usize,
    width: u16,
) -> (r: Vec<Span>)
    ensures
        looks(r@) == header_line(left, right, collapsed, title@, count, width),
{
    let arrow: char = if collapsed {
        '▶'
    } else {
        '▼'
    };
    let total: String = number(count as u64);
    let n: usize = length(title);
    let m: usize = length(total.as_str());
    let w: usize = width as usize;
    let dashes: usize = if w > 8 && w - 8 > n && w - 8 - n > m {
        w - 8 - n - m
    } else {
        0
    };
    let mut spans: Vec<Span> = no_spans();
    let mut lead: String = String::new();
    lead.push(left);
    lead.push(' ');
    lead.push(arrow);
    lead.push(' ');
    assert(lead@ =~= seq![left, ' ', arrow, ' ']);
    add_span(&mut spans, lead, dim());
    add_text(&mut spans, title, plain());
    let mut rule: String = String::new();
    rule.push(' ');
    rule.append(repeat('─', dashes).as_str());
    rule.push(' ');
    assert(rule@ =~= seq![' '] + times('─', dashes as int) + seq![' ']);
    add_span(&mut spans, rule, dim());
    let ghost digits = total@;
    add_span(&mut spans, total, dim());
    let mut end: String = String::new();
    end.push(' ');
    end.push(right);
    assert(end@ =~= seq![' ', right]);
    add_span(&mut spans, end, dim());
    assert(dashes == less(width as int, 8int + title@.len() + digits.len()));
    assert(looks(spans@) =~= header_line(left, right, collapsed, title@, count, width));
    spans
}

fn inner_width(width: u16) -> (r: usize)
    ensures
        r == less(width as int, 2),
{
    if width > 2 {
        (width - 2) as usize
    } else {
        0
    }
}

fn bottom_border(width: u16) -> (r: Vec<Span>)
    ensures
        looks(r@) == bottom_line(width),
{
    let mut text: String = String::new();
    text.push('╰');
    text.append(repeat('─', inner_width(width)).as_str());
    text.push('╯');
    assert(text@ =~= seq!['╰'] + times('─', less(width as int, 2)) + seq!['╯']);
    let ghost line = text@;
    let mut spans: Vec<Span> = no_spans();
    add_span(&mut spans, text, dim());
    assert(looks(spans@) =~= bottom_line(width));
    spans
}

fn frame_blank(width: u16) -> (r: Vec<Span>)
    ensures
        looks(r@) == blank_line(width),
{
    let mut spans: Vec<Span> = no_spans();
    add_text(&mut spans, "│", dim());
    add_span(&mut spans, repeat(' ', inner_width(width)), plain());
    add_text(&mut spans, "│", dim());
    assert(looks(spans@) =~= blank_line(width));
    spans
}

fn frame_row(inner: Vec<Span>, sel: bool) -> (r: Vec<Span>)
    ensures
        looks(r@) == framed(looks(inner@), sel),
{
    let style: Style = if sel {
        light(plain())
    } else {
        plain()
    };
    let ghost all = looks(inner@);
    let mut spans: Vec<Span> = no_spans();
    add_text(&mut spans, "│", dim());
    add_text(&mut spans, " ", style);
    add_spans(&mut spans, inner);
    add_text(&mut spans, " ", style);
    add_text(&mut spans, "│", dim());
    assert(looks(spans@) =~= framed(all, sel));
    spans
}

// ---- entries -------------------------------------------------------------

/// How the rows are drawn.
pub struct Pen {
    pub width: u16,
    pub spinner: char,
    pub glyphs: Glyphs,
}

/// The lines of the first `n` subagents of an agent.
pub open spec fn subagent_lines(a: AgentLine, pen: Pen, n: int) -> Seq<Seq<SpanLook>> {
    Seq::new(
        n as nat,
        |j: int|
            framed(
                subagent_row(
                    a.subagents[j],
                    guide_of(a.guide, a.depth).len() as int,
                    pen.spinner,
                    j + 1 == a.subagents.len(),
                    pen.width,
                ),
                false,
            ),
    )
}

/// The lines of an entry.
pub open spec fn entry_lines(
    entry: EntryLine,
    sel: bool,
    notified: Set<u64>,
    waiting: bool,
    pen: Pen,
) -> Seq<Seq<SpanLook>> {
    match entry {
        EntryLine::Workspace(w) => seq![
            framed(workspace_row(w, sel, pen.width, pen.spinner, pen.glyphs), sel),
            framed(workspace_subtitle(w, sel, pen.width, pen.glyphs), sel),
        ],
        EntryLine::Agent(a) => seq![
            framed(agent_row(a, sel, pen.spinner, pen.width, pen.glyphs), sel),
            framed(
                agent_subtitle(a, sel, notified.contains(a.pane.0), waiting, pen.width),
                sel,
            ),
        ] + subagent_lines(a, pen, a.subagents.len() as int),
    }
}

/// The row under the cursor, while it shows: the sidebar has the keys and no
/// prompt is edited.
pub open spec fn selection(app: App) -> Option<int> {
    if app.in_sidebar_mode() && !app.in_prompt_mode() {
        Some(app.cursor.selected as int)
    } else {
        None
    }
}

/// The lines of the entries from `from` up to `to`.
pub open spec fn body(app: App, pen: Pen, from: int, to: int) -> Seq<Seq<SpanLook>>
    decreases to - from,
{
    if to <= from {
        Seq::empty()
    } else {
        body(app, pen, from, to - 1) + entry_lines(
            app.entries()[to - 1],
            selection(app) == Some(to - 1),
            app.notified@,
            to - 1 >= app.tree_len(),
            pen,
        )
    }
}

/// How the sidebar's rows are drawn in a column of that width.
pub open spec fn pen_of(app: App, width: u16) -> Pen {
    Pen {
        width: less(width as int, 4) as u16,
        spinner: app.spinner(),
        glyphs: glyphs_of(app.config.icons),
    }
}

/// The lines between the sidebar's header and the divider.
pub open spec fn tree_body(app: App, pen: Pen) -> Seq<Seq<SpanLook>> {
    if app.collapsed_projects {
        Seq::empty()
    } else {
        body(app, pen, 0, app.tree_len())
    }
}

/// The lines below the divider.
pub open spec fn queue_body(app: App, pen: Pen) -> Seq<Seq<SpanLook>> {
    if app.collapsed_waiting {
        Seq::empty()
    } else if app.entries().len() == app.tree_len() {
        seq![
            framed(
                placeholder_row("no agents yet"@, pen.width),
                false,
            ),
        ]
    } else {
        body(app, pen, app.tree_len(), app.entries().len() as int)
    }
}

/// The lines of the sidebar, as far as they go.
pub open spec fn sidebar_text(app: App, width: u16) -> Seq<Seq<SpanLook>> {
    let pen = pen_of(app, width);
    seq![
        header_line(
            '╭',
            '╮',
            app.collapsed_projects,
            "projects"@,
            workspaces_among(app.entries(), app.tree_len()) as usize,
            width,
        ),
    ] + tree_body(app, pen) + seq![
        header_line(
            '├',
            '┤',
            app.collapsed_waiting,
            "agents"@,
            (app.entries().len() - app.tree_len()) as usize,
            width,
        ),
    ] + queue_body(app, pen)
}

/// The lines filled up to the frame's bottom.
pub open spec fn closed_frame(lines: Seq<Seq<SpanLook>>, width: u16, height: u16) -> Seq<
    Seq<SpanLook>,
> {
    if lines.len() < height {
        lines + Seq::new((height - 1 - lines.len()) as nat, |i: int| blank_line(width)) + seq![
            bottom_line(width),
        ]
    } else {
        lines
    }
}

// ---- the prompt ----------------------------------------------------------

/// What the `i`th of `rows` completions above the prompt draws.
pub open spec fn completion_strokes(
    text: Seq<char>,
    selected: bool,
    inner: Rect,
    up: int,
) -> Seq<Stroke> {
    let row = Rect {
        x: inner.x,
        y: (inner.y + less(inner.height as int, 1) - up) as u16,
        width: inner.width,
        height: 1,
    };
    seq![
        Stroke::Wipe { area: row },
        text_in(
            row,
            seq![
                seq![
                    piece(
                        "  "@ + text,
                        if selected {
                            tinted(ACCENT)
                        } else {
                            dim_style()
                        },
                    ),
                ],
            ],
        ),
    ]
}

/// What the first `n` of `rows` completions draw.
pub open spec fn completions_strokes(
    list: Seq<Seq<char>>,
    selected: int,
    inner: Rect,
    rows: int,
    n: int,
) -> Seq<Stroke>
    decreases n,
{
    if n <= 0 {
        no_strokes()
    } else {
        completions_strokes(list, selected, inner, rows, n - 1) + completion_strokes(
            list[n - 1],
            n - 1 == selected,
            inner,
            rows - (n - 1),
        )
    }
}

/// What the prompt at the foot of `inner` draws: the completions, the last
/// right above it, and the text with a block behind it.
pub open spec fn prompt_strokes(
    label: Seq<char>,
    text: Seq<char>,
    list: Seq<Seq<char>>,
    selected: int,
    inner: Rect,
) -> Seq<Stroke> {
    let rows = least(list.len() as int, less(inner.height as int, 1));
    let row = Rect {
        x: inner.x,
        y: (inner.y + less(inner.height as int, 1)) as u16,
        width: inner.width,
        height: 1,
    };
    completions_strokes(list, selected, inner, rows, rows) + seq![
        Stroke::Wipe { area: row },
        text_in(
            row,
            seq![
                seq![
                    piece("▍"@, tinted(ACCENT)),
                    piece(label, dim_style()),
                    piece(text, plain_style()),
                    piece("█"@, tinted(ACCENT)),
                ],
            ],
        ),
    ]
}

fn draw_sidebar_prompt(
    out: &mut Vec<Paint>,
    label: &str,
    text: &str,
    list: &[String],
    selected: usize,
    inner: Rect,
)
    requires
        inner.well_formed(),
    ensures
        strokes(final(out)@) == strokes(old(out)@) + prompt_strokes(
            label@,
            text@,
            texts(list@),
            selected as int,
            inner,
        ),
{
    let ghost before = strokes(out@);
    let ghost all = texts(list@);
    let room: u16 = if inner.height > 1 {
        inner.height - 1
    } else {
        0
    };
    let foot: u16 = inner.y + room;
    let rows: u16 = if list.len() < room as usize {
        list.len() as u16
    } else {
        room
    };
    assert(strokes(out@) =~= before + completions_strokes(
        all,
        selected as int,
        inner,
        rows as int,
        0,
    ));
    for i in 0..rows
        invariant
            all == texts(list@),
            rows <= list@.len(),
            rows <= room,
            room == less(inner.height as int, 1),
            foot == inner.y + room,
            inner.well_formed(),
            strokes(out@) == before + completions_strokes(
                all,
                selected as int,
                inner,
                rows as int,
                i as int,
            ),
    {
        let chosen: bool = i as usize == selected;
        let style: Style = if chosen {
            tint(ACCENT)
        } else {
            dim()
        };
        let row: Rect = Rect { x: inner.x, y: foot - (rows - i), width: inner.width, height: 1 };
        let ghost had = strokes(out@);
        put(out, Paint::Wipe { area: row });
        let mut spans: Vec<Span> = no_spans();
        add_span(&mut spans, glue("  ", list[i as usize].as_str()), style);
        assert(all[i as int] == list@[i as int]@);
        assert(looks(spans@) =~= seq![piece("  "@ + all[i as int], style)]);
        put_line(out, row, spans);
        assert(strokes(out@) =~= had + completion_strokes(
            all[i as int],
            i == selected,
            inner,
            rows - i,
        ));
        assert(strokes(out@) =~= before + completions_strokes(
            all,
            selected as int,
            inner,
            rows as int,
            i + 1,
        ));
    }
    let row: Rect = Rect { x: inner.x, y: foot, width: inner.width, height: 1 };
    put(out, Paint::Wipe { area: row });
    let mut spans: Vec<Span> = no_spans();
    add_text(&mut spans, "▍", tint(ACCENT));
    add_text(&mut spans, label, dim());
    add_text(&mut spans, text, plain());
    add_text(&mut spans, "█", tint(ACCENT));
    assert(looks(spans@) =~= seq![
        piece("▍"@, tinted(ACCENT)),
        piece(label@, dim_style()),
        piece(text@, plain_style()),
        piece("█"@, tinted(ACCENT)),
    ]);
    put_line(out, row, spans);
    assert(strokes(out@) =~= before + prompt_strokes(
        label@,
        text@,
        all,
        selected as int,
        inner,
    ));
}

// ---- the sidebar ---------------------------------------------------------

/// What lies behind the sidebar.
pub open spec fn panel_bg(app: App) -> Option<Tone> {
    if app.config.chrome_background && app.truecolor {
        Some(panel_shade())
    } else {
        None
    }
}

/// The label of the prompt.
pub open spec fn prompt_label(app: App) -> Seq<char> {
    match app.mode {
        Mode::SidebarWorkspaceName => "workspace name: "@,
        Mode::SidebarWorkspaceDest => "where: "@,
        _ => "open: "@,
    }
}

/// What the sidebar draws.
pub open spec fn sidebar_strokes(app: App, area: Rect) -> Seq<Stroke> {
    if area.width < 3 || area.height < 2 {
        no_strokes()
    } else {
        shaded(area, panel_bg(app)) + seq![
            text_in(area, closed_frame(sidebar_text(app, area.width), area.width, area.height)),
        ] + (if app.in_prompt_mode() {
            prompt_strokes(
                prompt_label(app),
                app.prompt.text@,
                if app.mode == Mode::SidebarWorkspaceName {
                    Seq::empty()
                } else {
                    texts(app.prompt.completions@)
                },
                app.prompt.selected as int,
                Rect {
                    x: (area.x + 2) as u16,
                    y: (area.y + 1) as u16,
                    width: less(area.width as int, 4) as u16,
                    height: (area.height - 2) as u16,
                },
            )
        } else {
            no_strokes()
        })
    }
}

fn add_entry(
    lines: &mut Vec<Line>,
    entry: &SidebarEntry,
    sel: bool,
    notified: bool,
    waiting: bool,
    pen: &Pen,
    marks: Ghost<Set<u64>>,
)
    requires
        entry matches SidebarEntry::Agent(a) ==> notified == marks@.contains(a.pane.0),
    ensures
        line_looks(final(lines)@) == line_looks(old(lines)@) + entry_lines(
            entry@,
            sel,
            marks@,
            waiting,
            *pen,
        ),
{
    let ghost before = line_looks(lines@);
    match entry {
        SidebarEntry::Workspace(w) => {
            add_line(
                lines,
                frame_row(workspace_inner(w, sel, pen.width, pen.spinner, &pen.glyphs), sel),
            );
            add_line(
                lines,
                frame_row(workspace_subtitle_inner(w, sel, pen.width, &pen.glyphs), sel),
            );
            assert(line_looks(lines@) =~= before + entry_lines(entry@, sel, marks@, waiting, *pen));
        },
        SidebarEntry::Agent(a) => {
            add_line(
                lines,
                frame_row(agent_inner(a, sel, pen.spinner, pen.width, &pen.glyphs), sel),
            );
            add_line(
                lines,
                frame_row(agent_subtitle_inner(a, sel, notified, waiting, pen.width), sel),
            );
            let guide: String = guide_text(a.guide, a.depth);
            let lead: usize = length(guide.as_str());
            let ghost two = line_looks(lines@);
            assert(two =~= two + subagent_lines(a@, *pen, 0));
            for j in 0..a.subagents.len()
                invariant
                    lead == guide_of(a.guide, a.depth).len(),
                    line_looks(lines@) == two + subagent_lines(a@, *pen, j as int),
            {
                let last: bool = j + 1 == a.subagents.len();
                add_line(
                    lines,
                    frame_row(
                        subagent_inner(&a.subagents[j], lead, pen.spinner, last, pen.width),
                        false,
                    ),
                );
                assert(line_looks(lines@) =~= two + subagent_lines(a@, *pen, j + 1));
            }
            assert(line_looks(lines@) =~= before + entry_lines(entry@, sel, marks@, waiting, *pen));
        },
    }
}

impl App {
    fn add_entries(
        &self,
        lines: &mut Vec<Line>,
        sidebar: &Sidebar,
        from: usize,
        to: usize,
        pen: &Pen,
    )
        requires
            crate::sidebar::lines(sidebar.entries@) == self.entries(),
            sidebar.tree_count == self.tree_len(),
            from <= to <= sidebar.entries@.len(),
        ensures
            line_looks(final(lines)@) == line_looks(old(lines)@) + body(
                *self,
                *pen,
                from as int,
                to as int,
            ),
    {
        let ghost before = line_looks(lines@);
        let pop: bool = self.sidebar_focused() && !self.sidebar_prompt_active();
        assert(before =~= before + body(*self, *pen, from as int, from as int));
        for i in from..to
            invariant
                crate::sidebar::lines(sidebar.entries@) == self.entries(),
                sidebar.tree_count == self.tree_len(),
                from <= to <= sidebar.entries@.len(),
                pop == (self.in_sidebar_mode() && !self.in_prompt_mode()),
                line_looks(lines@) == before + body(*self, *pen, from as int, i as int),
        {
            assert(self.entries()[i as int] == sidebar.entries@[i as int]@);
            let sel: bool = pop && self.cursor.selected == i;
            let notified: bool = match &sidebar.entries[i] {
                SidebarEntry::Agent(a) => self.is_notified(a.pane),
                SidebarEntry::Workspace(_) => false,
            };
            add_entry(
                lines,
                &sidebar.entries[i],
                sel,
                notified,
                i >= sidebar.tree_count,
                pen,
                Ghost(self.notified@),
            );
            assert(line_looks(lines@) =~= before + body(*self, *pen, from as int, i + 1));
        }
    }

    fn sidebar_lines(&self, width: u16) -> (r: Vec<Line>)
        ensures
            line_looks(r@) == sidebar_text(*self, width),
    {
        let sidebar: Sidebar = self.sidebar();
        let pen: Pen = Pen {
            width: if width > 4 {
                width - 4
            } else {
                0
            },
            spinner: self.spinner_char(),
            glyphs: glyphs(self.config.icons),
        };
        let tree: usize = sidebar.tree_count;
        let total: usize = sidebar.entries.len();
        let mut lines: Vec<Line> = no_lines();
        add_line(
            &mut lines,
            header_border(
                '╭',
                '╮',
                sidebar.projects_collapsed,
                "projects",
                sidebar.workspace_rows(),
                width,
            ),
        );
        if !sidebar.projects_collapsed {
            self.add_entries(&mut lines, &sidebar, 0, tree, &pen);
        }
        add_line(
            &mut lines,
            header_border(
                '├',
                '┤',
                sidebar.waiting_collapsed,
                "agents",
                total - tree,
                width,
            ),
        );
        if !sidebar.waiting_collapsed {
            if total == tree {
                let text: Vec<Span> = placeholder_inner("no agents yet", pen.width);
                add_line(&mut lines, frame_row(text, false));
            } else {
                self.add_entries(&mut lines, &sidebar, tree, total, &pen);
            }
        }
        assert(pen == pen_of(*self, width));
        assert(line_looks(lines@) =~= sidebar_text(*self, width));
        lines
    }

    pub(crate) fn draw_sidebar(&self, out: &mut Vec<Paint>, area: Rect)
        requires
            area.well_formed(),
        ensures
            strokes(final(out)@) == strokes(old(out)@) + sidebar_strokes(*self, area),
    {
        let ghost before = strokes(out@);
        if area.width < 3 || area.height < 2 {
            assert(strokes(out@) =~= before + sidebar_strokes(*self, area));
            return;
        }
        let shade: Option<Tone> = if self.chrome_shaded() {
            Some(chrome_panel())
        } else {
            None
        };
        put_shade(out, area, shade);
        let mut lines: Vec<Line> = self.sidebar_lines(area.width);
        let ghost text = line_looks(lines@);
        let rows: usize = area.height as usize;
        if lines.len() < rows {
            let fill: usize = rows - 1 - lines.len();
            assert(text =~= text + Seq::new(0, |i: int| blank_line(area.width)));
            for i in 0..fill
                invariant
                    line_looks(lines@) == text + Seq::new(
                        i as nat,
                        |i: int| blank_line(area.width),
                    ),
            {
                add_line(&mut lines, frame_blank(area.width));
                assert(line_looks(lines@) =~= text + Seq::new(
                    (i + 1) as nat,
                    |i: int| blank_line(area.width),
                ));
            }
            add_line(&mut lines, bottom_border(area.width));
        }
        assert(line_looks(lines@) =~= closed_frame(text, area.width, area.height));
        put(out, Paint::Text { area, lines, centred: false, base: plain() });
        if self.sidebar_prompt_active() {
            let inner: Rect = Rect {
                x: area.x + 2,
                y: area.y + 1,
                width: if area.width > 4 {
                    area.width - 4
                } else {
                    0
                },
                height: area.height - 2,
            };
            if self.sidebar_prompt_shows_completions() {
                draw_sidebar_prompt(
                    out,
                    self.sidebar_prompt_label(),
                    self.sidebar_prompt(),
                    self.prompt_completions(),
                    self.prompt_selected(),
                    inner,
                );
            } else {
                let none: Vec<String> = Vec::new();
                assert(texts(none@) =~= Seq::empty());
                draw_sidebar_prompt(
                    out,
                    self.sidebar_prompt_label(),
                    self.sidebar_prompt(),
                    none.as_slice(),
                    self.prompt_selected(),
                    inner,
                );
            }
        }
        assert(strokes(out@) =~= before + sidebar_strokes(*self, area));
    }
}

// ---- laws ----------------------------------------------------------------

proof fn body_is_as_tall(app: App, pen: Pen, to: int)
    requires
        0 <= to,
    ensures
        body(app, pen, 0, to).len() == heights(app.entries(), to),
    decreases to,
{
    if to > 0 {
        body_is_as_tall(app, pen, to - 1);
    }
}

proof fn body_holds(app: App, pen: Pen, from: int, i: int, to: int)
    requires
        from <= i < to,
    ensures
        body(app, pen, from, i).len() + 2 <= body(app, pen, from, to).len(),
        body(app, pen, from, to)[body(app, pen, from, i).len() as int] == entry_lines(
            app.entries()[i],
            selection(app) == Some(i),
            app.notified@,
            i >= app.tree_len(),
            pen,
        )[0],
        body(app, pen, from, to)[body(app, pen, from, i).len() as int + 1] == entry_lines(
            app.entries()[i],
            selection(app) == Some(i),
            app.notified@,
            i >= app.tree_len(),
            pen,
        )[1],
    decreases to - from,
{
    if i < to - 1 {
        body_holds(app, pen, from, i, to - 1);
    }
}

/// In the tree, what a click finds is what is drawn: the two lines of an entry
/// stand in the two rows at which a click finds it, and the divider in the row
/// at which a click finds the waiting header.
pub proof fn the_tree_is_drawn_where_clicks_find_it(app: App, width: u16, i: int)
    requires
        !app.collapsed_projects,
        0 <= i < app.tree_len(),
    ensures
        ({
            let top = top_row(app.entries(), app.tree_len(), app.collapsed_projects, i);
            let divider = divider_row(app.entries(), app.tree_len(), app.collapsed_projects);
            let drawn = entry_lines(
                app.entries()[i],
                selection(app) == Some(i),
                app.notified@,
                false,
                pen_of(app, width),
            );
            &&& 0 < top
            &&& top + 1 < divider < sidebar_text(app, width).len()
            &&& sidebar_text(app, width)[top] == drawn[0]
            &&& sidebar_text(app, width)[top + 1] == drawn[1]
            &&& sidebar_text(app, width)[divider] == header_line(
                '├',
                '┤',
                app.collapsed_waiting,
                "agents"@,
                (app.entries().len() - app.tree_len()) as usize,
                width,
            )
        }),
{
    let pen = pen_of(app, width);
    body_is_as_tall(app, pen, i);
    body_is_as_tall(app, pen, app.tree_len());
    body_holds(app, pen, 0, i, app.tree_len());
}

proof fn queue_is_two_rows_each(app: App, pen: Pen, to: int)
    requires
        app.tree_len() <= to <= app.entries().len(),
    ensures
        body(app, pen, app.tree_len(), to).len() == 2 * (to - app.tree_len()),
    decreases to,
{
    if to > app.tree_len() {
        queue_is_two_rows_each(app, pen, to - 1);
        queue_holds_who_waits(app.workspaces@);
        let queue = ordered(
            waiting_lines(app.workspaces@, app.workspaces@),
            Section::Waiting,
        );
        let i = to - 1 - app.tree_len();
        assert(app.entries()[to - 1] == EntryLine::Agent(queue[i]));
        assert(queue[i].subagents.len() == 0);
    }
}

/// In the queue too, what a click finds is what is drawn: the two lines of an
/// agent stand in the two rows at which a click finds it.
pub proof fn the_queue_is_drawn_where_clicks_find_it(app: App, width: u16, i: int)
    requires
        !app.collapsed_waiting,
        app.tree_len() <= i < app.entries().len(),
    ensures
        ({
            let top = top_row(app.entries(), app.tree_len(), app.collapsed_projects, i);
            let drawn = entry_lines(
                app.entries()[i],
                selection(app) == Some(i),
                app.notified@,
                true,
                pen_of(app, width),
            );
            &&& 0 < top
            &&& top + 1 < sidebar_text(app, width).len()
            &&& sidebar_text(app, width)[top] == drawn[0]
            &&& sidebar_text(app, width)[top + 1] == drawn[1]
        }),
{
    let pen = pen_of(app, width);
    body_is_as_tall(app, pen, app.tree_len());
    queue_is_two_rows_each(app, pen, i);
    queue_is_two_rows_each(app, pen, app.entries().len() as int);
    body_holds(app, pen, app.tree_len(), i, app.entries().len() as int);
}

/// A row is as wide as the sidebar, whatever it holds, as long as it fits.
pub proof fn padded_rows_fill_the_width(spans: Seq<SpanLook>, sel: bool, width: u16)
    requires
        row_len(spans) <= width,
    ensures
        row_len(padded(spans, sel, width)) == width,
{
    lit_keeps_the_length(spans, sel, spans.len() as int);
    let lit = lit_row(spans, sel);
    let all = padded(spans, sel, width);
    if row_len(spans) < width {
        used_of_the_front(all, lit, lit.len() as int);
        assert(all.last().content.len() == width - row_len(spans));
        assert(used(all, all.len() as int) == used(all, all.len() - 1) + all.last().content.len());
    } else {
        assert(all =~= lit);
    }
}

proof fn lit_keeps_the_length(spans: Seq<SpanLook>, sel: bool, n: int)
    requires
        0 <= n <= spans.len(),
    ensures
        used(lit_row(spans, sel), n) == used(spans, n),
    decreases n,
{
    if n > 0 {
        lit_keeps_the_length(spans, sel, n - 1);
    }
}

proof fn used_of_the_front(all: Seq<SpanLook>, front: Seq<SpanLook>, n: int)
    requires
        0 <= n <= front.len() <= all.len(),
        forall|i: int| 0 <= i < front.len() ==> all[i] == front[i],
    ensures
        used(all, n) == used(front, n),
    decreases n,
{
    if n > 0 {
        used_of_the_front(all, front, n - 1);
    }
}

proof fn rows_keep_their_left(left: Seq<SpanLook>, tag: Seq<SpanLook>, sel: bool, width: u16, i: int)
    requires
        0 <= i < left.len(),
    ensures
        i < tagged(left, tag, sel, width).len(),
        i < padded(left, sel, width).len(),
        tagged(left, tag, sel, width)[i].content == left[i].content,
        padded(left, sel, width)[i].content == left[i].content,
        !sel ==> tagged(left, tag, sel, width)[i] == left[i] && padded(left, sel, width)[i]
            == left[i],
        sel ==> tagged(left, tag, sel, width)[i].style == lit(left[i].style) && padded(
            left,
            sel,
            width,
        )[i].style == lit(left[i].style),
{
}

/// A workspace's row shows its name, and before it a dot that tells whether it owns
/// the active tab; where there is room, what its agents do stands at the right.
pub proof fn workspace_rows_tell_the_workspace(
    w: WorkspaceLine,
    sel: bool,
    width: u16,
    spinner: char,
    icons: Icons,
)
    ensures
        ({
            let g = glyphs_of(icons);
            let r = workspace_row(w, sel, width, spinner, g);
            &&& r.len() >= 3
            &&& r[2].content == w.name
            &&& (r[1].content[0] == g.ws_active) == w.active
            &&& (r[1].content[0] == g.ws_inactive) == !w.active
            &&& !sel ==> (r[1].style.fg == Some(ACCENT)) == w.active
        }),
{
    let g = glyphs_of(icons);
    let left = seq![
        piece(guide_of(w.guide, 1), dim_style()),
        if w.active {
            piece(seq![g.ws_active, ' '], tinted(ACCENT))
        } else {
            piece(seq![g.ws_inactive, ' '], dim_style())
        },
        name_piece(w.name, sel, true),
    ];
    rows_keep_their_left(left, census_chips(w.census, spinner, g), sel, width, 1);
    rows_keep_their_left(left, census_chips(w.census, spinner, g), sel, width, 2);
}

/// An agent's row shows its title, and before it a dot that tells its state in the
/// state's colour.
pub proof fn agent_rows_tell_the_agent(
    a: AgentLine,
    sel: bool,
    spinner: char,
    width: u16,
    g: Glyphs,
)
    ensures
        ({
            let r = agent_row(a, sel, spinner, width, g);
            &&& r.len() >= 3
            &&& r[2].content == a.title
            &&& r[1].content[0] == dot_of(a.state, spinner, g)
            &&& r[1].style.fg == state_look(a.state).fg
        }),
{
    let left = seq![
        piece(guide_of(a.guide, a.depth), dim_style()),
        piece(seq![dot_of(a.state, spinner, g), ' '], state_look(a.state)),
        name_piece(a.title, sel, false),
    ];
    rows_keep_their_left(left, Seq::empty(), sel, width, 1);
    rows_keep_their_left(left, Seq::empty(), sel, width, 2);
}

/// Below an agent's title stands what it does, or in the queue which project it
/// belongs to, and what kind of agent it is; and a bell just where it has notified.
pub proof fn agent_subtitles_tell_the_state(
    a: AgentLine,
    sel: bool,
    notified: bool,
    waiting: bool,
    width: u16,
)
    ensures
        ({
            let r = agent_subtitle(a, sel, notified, waiting, width);
            let lead = times(' ', guide_of(a.guide, a.depth).len() as int) + "  "@;
            &&& r.len() >= 1
            &&& !waiting ==> r[0].content == lead + state_word(a.state) + " · "@ + a.kind
            &&& waiting ==> r[0].content == lead + a.project_name + " · "@ + a.kind
            &&& notified ==> r.len() >= 2 && r[1].content == " 🔔"@
        }),
{
    let what = if waiting {
        a.project_name
    } else {
        state_word(a.state)
    };
    let left = seq![
        piece(
            times(' ', guide_of(a.guide, a.depth).len() as int) + "  "@ + what + " · "@ + a.kind,
            dim_style(),
        ),
    ] + (if notified {
        seq![piece(" 🔔"@, bold_style())]
    } else {
        Seq::empty()
    });
    rows_keep_their_left(left, Seq::empty(), sel, width, 0);
    if notified {
        rows_keep_their_left(left, Seq::empty(), sel, width, 1);
    }
}

/// Below a workspace's name stands where it is, behind the branch marker; a stale one
/// says so at the right, in red, where there is room, and any other how it changed.
pub proof fn workspace_subtitles_tell_the_branch(
    w: WorkspaceLine,
    sel: bool,
    width: u16,
    g: Glyphs,
)
    ensures
        ({
            let r = workspace_subtitle(w, sel, width, g);
            let lead = times(' ', guide_of(w.guide, 1).len() as int);
            &&& r.len() >= 1
            &&& w.subtitle matches Some(s) ==> r[0].content == lead + (seq![' ', ' ', g.branch, ' ']
                + s)
            &&& w.stale && row_len(seq![piece(r[0].content, dim_style())]) + 8 <= width
                ==> r.last().content == seq![g.fork] + " stale"@ && r.last().style.fg == Some(
                Tone::Red,
            )
            &&& !w.stale && w.changes is Some && row_len(seq![piece(r[0].content, dim_style())]) + 1
                + w.changes->0.len() <= width ==> r.last().content == w.changes->0
        }),
{
    reveal_strlit(" stale");
    let text = times(' ', guide_of(w.guide, 1).len() as int) + (match w.subtitle {
        Some(s) => seq![' ', ' ', g.branch, ' '] + s,
        None => Seq::empty(),
    });
    let left = seq![piece(text, dim_style())];
    let tag = if w.stale {
        seq![piece(seq![g.fork] + " stale"@, Style { fg: Some(Tone::Red), ..dim_style() })]
    } else {
        match w.changes {
            Some(c) => seq![piece(c, dim_style())],
            None => Seq::empty(),
        }
    };
    rows_keep_their_left(left, tag, sel, width, 0);
    reveal_with_fuel(used, 2);
    if tag.len() > 0 {
        assert(row_len(tag) == tag[0].content.len());
    }
}

/// A header tells whether its section is open, what it is and how many it holds.
pub proof fn headers_tell_their_section(
    left: char,
    right: char,
    collapsed: bool,
    title: Seq<char>,
    count: usize,
    width: u16,
)
    ensures
        ({
            let r = header_line(left, right, collapsed, title, count, width);
            &&& r.len() == 5
            &&& r[0].content[0] == left
            &&& (r[0].content[2] == '▶') == collapsed
            &&& (r[0].content[2] == '▼') == !collapsed
            &&& r[1].content == title
            &&& r[3].content == decimal(count as nat)
            &&& r[4].content[1] == right
        }),
{
}

/// The tree comes first, under the header that counts its workspaces, and then the
/// queue, under the header that counts it; a section that is closed shows only its
/// header, and an empty queue says that there is nothing.
pub proof fn sections_stand_in_order(app: App, width: u16)
    requires
        0 <= app.tree_len() <= app.entries().len() <= usize::MAX,
    ensures
        ({
            let text = sidebar_text(app, width);
            let divider = 1 + tree_body(app, pen_of(app, width)).len() as int;
            &&& divider < text.len()
            &&& text[0][1].content == "projects"@
            &&& text[divider][1].content == "agents"@
            &&& text[divider][3].content == decimal((app.entries().len() - app.tree_len()) as nat)
            &&& app.collapsed_projects ==> divider == 1
            &&& app.collapsed_waiting ==> text.len() == divider + 1
            &&& !app.collapsed_waiting && app.entries().len() == app.tree_len() ==> text.len()
                == divider + 2
        }),
{
}

/// What is typed in a prompt stands between its label and the cursor, and each prompt
/// has its own label.
pub proof fn prompts_show_what_is_typed(
    label: Seq<char>,
    text: Seq<char>,
    list: Seq<Seq<char>>,
    selected: int,
    inner: Rect,
)
    ensures
        prompt_strokes(label, text, list, selected, inner).last() matches Stroke::Text { lines, .. }
            && lines.len() == 1 && lines[0].len() == 4 && lines[0][1].content == label
            && lines[0][2].content == text,
{
}

/// The label of a prompt tells what it asks for: a workspace's name, where it is to
/// lie, or a directory to open.
pub proof fn prompt_labels_tell_what_is_asked(app: App)
    ensures
        app.mode == Mode::SidebarWorkspaceName ==> prompt_label(app) == "workspace name: "@,
        app.mode == Mode::SidebarWorkspaceDest ==> prompt_label(app) == "where: "@,
        app.mode == Mode::SidebarPrompt ==> prompt_label(app) == "open: "@,
{
}

/// Of the completions, just the selected one has the accent.
pub proof fn the_selected_completion_stands_out(text: Seq<char>, selected: bool, inner: Rect, up: int)
    ensures
        completion_strokes(text, selected, inner, up)[1] matches Stroke::Text { lines, .. }
            && lines[0][0].content == "  "@ + text && (lines[0][0].style.fg == Some(ACCENT))
            == selected,
{
}

/// A subagent's row shows what it does, with the spinner while it runs; the last one
/// closes the branch.
pub proof fn subagents_show_what_they_do(
    sub: SubagentInfo,
    lead: int,
    spinner: char,
    last: bool,
    width: u16,
)
    requires
        spinner != '·',
        lead >= 0,
    ensures
        ({
            let text = subagent_row(sub, lead, spinner, last, width)[0].content;
            &&& text.len() == lead + 6 + sub.desc@.len()
            &&& text.skip(lead + 6) == sub.desc@
            &&& (text[lead + 4] == spinner) == sub.running
            &&& (text[lead + 2] == '└') == last
        }),
{
    let mark = seq![
        ' ',
        ' ',
        if last {
            '└'
        } else {
            '├'
        },
        ' ',
        if sub.running {
            spinner
        } else {
            '·'
        },
        ' ',
    ];
    let text = times(' ', lead) + mark + sub.desc@;
    rows_keep_their_left(seq![piece(text, dim_style())], Seq::empty(), false, width, 0);
    assert(text.skip(lead + 6) =~= sub.desc@);
    assert(text[lead + 4] == mark[4] && text[lead + 2] == mark[2]);
}

} // verus!
