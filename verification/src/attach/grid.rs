//! The panes: the title above each, its frame, and its screen.

use vstd::prelude::*;

use crate::attach::app::{App, PaneState};
use crate::attach::bars::{state_look, state_style};
use crate::attach::geometry::least;
use crate::attach::look::{
    add_span, add_spans, add_text, bold_tint, bold_tinted, cell_stroke, dim, dim_style,
    grid_strokes, looks, modifier, no_spans, no_strokes, paint_cell, piece, put, put_line,
    row_strokes, strokes, text_in, tint, tinted, unmodified, CellPaint, CellStroke, Modifier,
    Paint, Span, SpanLook, Stroke, Style, Tone, ACCENT, plain_style,
};
use crate::layout::Rect;
use crate::model::{AgentState, PaneId, PaneInfo, PaneLine};
use crate::screen::{cell_after, cursor_after, cursor_hidden_after, fed, made_with, Terminal};
use crate::table::{state_label, state_word};
use crate::text::{decimal, glue, number, signed, signed_number};

verus! {

broadcast use {vstd::string::group_string_axioms, vstd::std_specs::hash::group_hash_axioms};

// ---- the title -----------------------------------------------------------

/// The style of a pane's name.
pub open spec fn name_style() -> Style {
    Style {
        add_modifier: Modifier { bold: true, dim: true, ..unmodified() },
        ..plain_style()
    }
}

/// What a pane is called: the agent in it, or its title.
pub open spec fn identity_of(info: PaneLine) -> Seq<char> {
    match info.agent {
        Some(agent) => agent,
        None => info.title,
    }
}

/// What a pane's badge says: its name, what its agent does, and how its program
/// ended.
pub open spec fn badge(info: PaneLine, spinner: char) -> Seq<SpanLook> {
    seq![piece(identity_of(info), name_style())] + (if info.agent is Some {
        seq![
            piece(" · "@, dim_style()),
            piece(
                if info.state == AgentState::Working {
                    seq![spinner] + " working"@
                } else {
                    state_word(info.state)
                },
                state_look(info.state),
            ),
        ]
    } else {
        Seq::empty()
    }) + (match info.exited {
        Some(code) => seq![piece(" exited "@ + signed(code as int), dim_style())],
        None => Seq::empty(),
    })
}

/// A badge of a pane out of focus: all dim.
pub open spec fn dimmed(spans: Seq<SpanLook>) -> Seq<SpanLook> {
    Seq::new(spans.len(), |i: int| piece(spans[i].content, dim_style()))
}

/// The title above a pane: a marker and the loud badge in focus, and the keys
/// that a pane takes whose program has ended.
pub open spec fn title_line(info: PaneLine, focused: bool, spinner: char) -> Seq<SpanLook> {
    if focused {
        seq![piece("❯ "@, bold_tinted(ACCENT))] + badge(info, spinner) + (if info.exited is Some {
            seq![piece("  r relaunch · x close"@, dim_style())]
        } else {
            Seq::empty()
        })
    } else {
        seq![piece("  "@, dim_style())] + dimmed(badge(info, spinner))
    }
}

/// A pane's badge.
pub fn border_title(info: &PaneInfo, spinner: char) -> (r: Vec<Span>)
    ensures
        looks(r@) == badge(info@, spinner),
{
    let mut spans: Vec<Span> = no_spans();
    let style: Style = Style {
        fg: None,
        bg: None,
        add_modifier: Modifier { bold: true, dim: true, ..modifier() },
    };
    match &info.agent {
        Some(agent) => {
            add_text(&mut spans, agent.as_str(), style);
            add_text(&mut spans, " · ", dim());
            if info.state == AgentState::Working {
                let mut text: String = String::new();
                text.push(spinner);
                text.append(" working");
                assert(text@ =~= seq![spinner] + " working"@);
                add_span(&mut spans, text, state_style(info.state));
            } else {
                add_text(&mut spans, state_label(info.state), state_style(info.state));
            }
        },
        None => {
            add_text(&mut spans, info.title.as_str(), style);
        },
    }
    match info.exited {
        Some(code) => {
            add_span(&mut spans, glue(" exited ", signed_number(code).as_str()), dim());
        },
        None => {},
    }
    assert(looks(spans@) =~= badge(info@, spinner));
    spans
}

/// The title above a pane.
pub fn pane_title_line(info: &PaneInfo, focused: bool, spinner: char) -> (r: Vec<Span>)
    ensures
        looks(r@) == title_line(info@, focused, spinner),
{
    let content: Vec<Span> = border_title(info, spinner);
    let mut spans: Vec<Span> = no_spans();
    if focused {
        add_text(&mut spans, "❯ ", bold_tint(ACCENT));
        add_spans(&mut spans, content);
        if info.exited.is_some() {
            add_text(&mut spans, "  r relaunch · x close", dim());
        }
        assert(looks(spans@) =~= title_line(info@, focused, spinner));
        return spans;
    }
    let ghost all = looks(content@);
    add_text(&mut spans, "  ", dim());
    let ghost lead = seq![piece("  "@, dim_style())];
    assert(looks(spans@) =~= lead + dimmed(all).take(0));
    for i in 0..content.len()
        invariant
            all == looks(content@),
            looks(spans@) == lead + dimmed(all).take(i as int),
    {
        assert(all[i as int].content == content@[i as int].content@);
        add_text(&mut spans, content[i].content.as_str(), dim());
        assert(looks(spans@) =~= lead + dimmed(all).take(i + 1));
    }
    assert(looks(spans@) =~= title_line(info@, focused, spinner));
    spans
}

// ---- the frame -----------------------------------------------------------

/// The style of a pane's frame: the accent in focus, red where its agent is
/// blocked out of focus, else dim.
pub open spec fn frame_style(focused: bool, state: Option<AgentState>) -> Style {
    if focused {
        bold_tinted(ACCENT)
    } else if state == Some(AgentState::Blocked) {
        tinted(Tone::Red)
    } else {
        dim_style()
    }
}

/// The style of a pane's frame.
pub fn pane_border_style(focused: bool, state: Option<AgentState>) -> (r: Style)
    ensures
        r == frame_style(focused, state),
{
    if focused {
        bold_tint(ACCENT)
    } else if state == Some(AgentState::Blocked) {
        tint(Tone::Red)
    } else {
        dim()
    }
}

// ---- the screen ----------------------------------------------------------

/// What is drawn of a screen in an area, cell by cell.
pub open spec fn screen_rows(screen: Terminal, area: Rect) -> Seq<Seq<CellStroke>> {
    let made = made_with(screen);
    Seq::new(
        least(area.height as int, made.0 as int) as nat,
        |row: int|
            Seq::new(
                least(area.width as int, made.1 as int) as nat,
                |col: int| cell_stroke(cell_after(made, fed(screen), row as u16, col as u16)),
            ),
    )
}

/// What is drawn of the cursor in an area: it shows where the pane is in focus
/// and live, the program shows it, and it lies inside.
pub open spec fn cursor_strokes(state: PaneState, focused: bool, area: Rect) -> Seq<Stroke> {
    let at = cursor_after(made_with(state.parser), fed(state.parser));
    let hidden = cursor_hidden_after(made_with(state.parser), fed(state.parser));
    if focused && state.scroll is None && !hidden && at.1 < area.width && at.0 < area.height {
        seq![Stroke::Cursor { x: (area.x + at.1) as u16, y: (area.y + at.0) as u16 }]
    } else {
        no_strokes()
    }
}

/// The inside of a pane's frame.
pub open spec fn pane_inside(rect: Rect) -> Rect {
    Rect {
        x: (rect.x + 1) as u16,
        y: (rect.y + 2) as u16,
        width: (rect.width - 2) as u16,
        height: (rect.height - 3) as u16,
    }
}

/// What is told of a pane whose screen has not arrived.
pub open spec fn unknown_pane(pane: PaneId) -> PaneLine {
    PaneLine {
        id: pane,
        title: decimal(pane.0 as nat),
        agent: None,
        state: AgentState::Unknown,
        exited: None,
        subagents: Seq::empty(),
    }
}

/// What a pane draws: its title, its frame below it, and its screen.
pub open spec fn pane_strokes(app: App, pane: PaneId, rect: Rect) -> Seq<Stroke> {
    let focused = app.focused == Some(pane);
    let known = app.panes@.contains_key(pane.0);
    let state = app.panes@[pane.0];
    let inside = pane_inside(rect);
    if rect.width < 2 || rect.height < 3 {
        no_strokes()
    } else {
        seq![
            text_in(
                Rect { height: 1, ..rect },
                seq![
                    title_line(
                        if known {
                            state.info@
                        } else {
                            unknown_pane(pane)
                        },
                        focused,
                        app.spinner(),
                    ),
                ],
            ),
            Stroke::Frame {
                area: Rect { y: (rect.y + 1) as u16, height: (rect.height - 1) as u16, ..rect },
                style: frame_style(
                    focused,
                    if known {
                        Some(state.info.state)
                    } else {
                        None
                    },
                ),
                title: ""@,
                bg: None,
            },
        ] + (if known {
            seq![Stroke::Cells { area: inside, rows: screen_rows(state.parser, inside) }]
                + cursor_strokes(state, focused, inside)
        } else {
            no_strokes()
        })
    }
}

fn screen_row(screen: &Terminal, row: u16, width: u16) -> (r: Vec<CellPaint>)
    ensures
        row_strokes(r@) == Seq::new(
            width as nat,
            |col: int| cell_stroke(cell_after(made_with(*screen), fed(*screen), row, col as u16)),
        ),
{
    let ghost want = Seq::new(
        width as nat,
        |col: int| cell_stroke(cell_after(made_with(*screen), fed(*screen), row, col as u16)),
    );
    let mut cells: Vec<CellPaint> = Vec::new();
    for col in 0..width
        invariant
            want == Seq::new(
                width as nat,
                |col: int|
                    cell_stroke(cell_after(made_with(*screen), fed(*screen), row, col as u16)),
            ),
            row_strokes(cells@) == want.take(col as int),
    {
        let ghost had = row_strokes(cells@);
        let cell: CellPaint = paint_cell(&screen.screen().cell(row, col));
        let ghost look = cell@;
        cells.push(cell);
        assert(row_strokes(cells@) =~= had.push(look));
        assert(row_strokes(cells@) =~= want.take(col + 1));
    }
    assert(want.take(width as int) =~= want);
    cells
}

fn draw_screen(out: &mut Vec<Paint>, area: Rect, screen: &Terminal)
    ensures
        strokes(final(out)@) == strokes(old(out)@).push(
            Stroke::Cells { area, rows: screen_rows(*screen, area) },
        ),
{
    let (rows, cols) = screen.screen().size();
    let height: u16 = if area.height < rows {
        area.height
    } else {
        rows
    };
    let width: u16 = if area.width < cols {
        area.width
    } else {
        cols
    };
    let ghost want = screen_rows(*screen, area);
    let mut grid: Vec<Vec<CellPaint>> = Vec::new();
    for row in 0..height
        invariant
            want == screen_rows(*screen, area),
            width == least(area.width as int, made_with(*screen).1 as int),
            height == least(area.height as int, made_with(*screen).0 as int),
            grid_strokes(grid@) == want.take(row as int),
    {
        let ghost had = grid_strokes(grid@);
        let cells: Vec<CellPaint> = screen_row(screen, row, width);
        let ghost look = row_strokes(cells@);
        grid.push(cells);
        assert(grid_strokes(grid@) =~= had.push(look));
        assert(look =~= want[row as int]);
        assert(grid_strokes(grid@) =~= want.take(row + 1));
    }
    assert(want.take(height as int) =~= want);
    put(out, Paint::Cells { area, rows: grid });
}

impl App {
    pub(crate) fn draw_pane(&self, out: &mut Vec<Paint>, pane: PaneId, rect: Rect)
        requires
            rect.well_formed(),
        ensures
            strokes(final(out)@) == strokes(old(out)@) + pane_strokes(*self, pane, rect),
    {
        let ghost before = strokes(out@);
        if rect.width < 2 || rect.height < 3 {
            assert(strokes(out@) =~= before + pane_strokes(*self, pane, rect));
            return;
        }
        let focused: bool = self.focused == Some(pane);
        let spinner: char = self.spinner_char();
        let top: Rect = Rect { height: 1, ..rect };
        let frame: Rect = Rect { y: rect.y + 1, height: rect.height - 1, ..rect };
        let inside: Rect = Rect {
            x: rect.x + 1,
            y: rect.y + 2,
            width: rect.width - 2,
            height: rect.height - 3,
        };
        match self.panes.get(&pane.0) {
            Some(state) => {
                put_line(out, top, pane_title_line(&state.info, focused, spinner));
                put(
                    out,
                    Paint::Frame {
                        area: frame,
                        style: pane_border_style(focused, Some(state.info.state)),
                        title: "".to_owned(),
                        bg: None,
                    },
                );
                draw_screen(out, inside, &state.parser);
                if focused && state.scroll.is_none() && !state.parser.screen().hide_cursor() {
                    let (row, col) = state.parser.screen().cursor_position();
                    if col < inside.width && row < inside.height {
                        put(out, Paint::Cursor { x: inside.x + col, y: inside.y + row });
                    }
                }
            },
            None => {
                let info: PaneInfo = PaneInfo {
                    id: pane,
                    title: number(pane.0),
                    agent: None,
                    state: AgentState::Unknown,
                    exited: None,
                    subagents: Vec::new(),
                };
                assert(info@ =~= unknown_pane(pane));
                put_line(out, top, pane_title_line(&info, focused, spinner));
                put(
                    out,
                    Paint::Frame {
                        area: frame,
                        style: pane_border_style(focused, None),
                        title: "".to_owned(),
                        bg: None,
                    },
                );
            },
        }
        assert(strokes(out@) =~= before + pane_strokes(*self, pane, rect));
    }
}

// ---- laws ----------------------------------------------------------------

/// A pane's screen is drawn cell by cell where the program put it: the cell in a row
/// and column of the pane is the one in that row and column of its screen, as far as
/// both reach.
pub proof fn cells_are_drawn_in_their_place(screen: Terminal, area: Rect, row: u16, col: u16)
    requires
        row < area.height && row < made_with(screen).0,
        col < area.width && col < made_with(screen).1,
    ensures
        screen_rows(screen, area).len() <= area.height,
        row < screen_rows(screen, area).len(),
        col < screen_rows(screen, area)[row as int].len() <= area.width,
        screen_rows(screen, area)[row as int][col as int] == cell_stroke(
            cell_after(made_with(screen), fed(screen), row, col),
        ),
{
}

/// The cursor shows only in the pane in focus, not while its scrollback is browsed
/// and not where the program hides it; it shows as far right and down in the pane as
/// it is on the screen.
pub proof fn the_cursor_is_drawn_in_its_place(state: PaneState, focused: bool, area: Rect)
    requires
        area.well_formed(),
    ensures
        ({
            let at = cursor_after(made_with(state.parser), fed(state.parser));
            let drawn = cursor_strokes(state, focused, area);
            &&& drawn.len() > 0 ==> focused && state.scroll is None && !cursor_hidden_after(
                made_with(state.parser),
                fed(state.parser),
            )
            &&& focused && state.scroll is None && !cursor_hidden_after(
                made_with(state.parser),
                fed(state.parser),
            ) && at.0 < area.height && at.1 < area.width ==> drawn.len() == 1
            &&& drawn.len() > 0 ==> (drawn[0] matches Stroke::Cursor { x, y } && x - area.x == at.1
                && y - area.y == at.0 && area.holds(x as int, y as int))
        }),
{
}

/// The inside of a pane lies inside its frame: a column free on each side, its title
/// and its upper edge above, and its lower edge below.
pub proof fn the_inside_lies_inside(rect: Rect)
    requires
        rect.well_formed(),
        rect.width >= 2,
        rect.height >= 3,
    ensures
        pane_inside(rect).well_formed(),
        pane_inside(rect).x == rect.x + 1,
        pane_inside(rect).x + pane_inside(rect).width == rect.x + rect.width - 1,
        pane_inside(rect).y == rect.y + 2,
        pane_inside(rect).y + pane_inside(rect).height == rect.y + rect.height - 1,
{
}

/// The title of a pane names the agent in it, or has the pane's own title; it tells
/// the agent's state in that state's own word and colour, and with which code its
/// program ended.
pub proof fn titles_tell_the_pane(info: PaneLine, spinner: char)
    ensures
        ({
            let b = badge(info, spinner);
            &&& b.len() >= 1
            &&& info.agent is Some ==> b[0].content == info.agent->0
            &&& info.agent is None ==> b[0].content == info.title
            &&& info.agent is Some ==> b.len() >= 3 && b[2].style == state_look(info.state)
            &&& info.agent is Some && info.state != AgentState::Working ==> b[2].content
                == state_word(info.state)
            &&& info.agent is Some && info.state == AgentState::Working ==> b[2].content
                == seq![spinner] + " working"@
            &&& info.exited matches Some(code) ==> b.last().content == " exited "@ + signed(
                code as int,
            )
            &&& info.agent is None && info.exited is None ==> b.len() == 1
        }),
{
}

/// The pane in focus is marked and shown in full colour, and no other is; the text of
/// a title is the same in focus and out of it.
pub proof fn the_focused_pane_stands_out(info: PaneLine, spinner: char, i: int)
    requires
        0 <= i < badge(info, spinner).len(),
    ensures
        title_line(info, true, spinner)[0].content == "❯ "@,
        title_line(info, true, spinner)[0].style.fg == Some(ACCENT),
        title_line(info, false, spinner)[0].content == "  "@,
        title_line(info, true, spinner)[i + 1] == badge(info, spinner)[i],
        title_line(info, false, spinner)[i + 1].content == badge(info, spinner)[i].content,
        title_line(info, false, spinner)[i + 1].style == dim_style(),
        (title_line(info, true, spinner).last().content == "  r relaunch · x close"@)
            || info.exited is None,
{
}

/// The frame of the pane in focus has the accent, whatever its agent does; out of
/// focus just that of a blocked agent is red.
pub proof fn frames_tell_focus_and_need(state: Option<AgentState>)
    ensures
        frame_style(true, state).fg == Some(ACCENT),
        (frame_style(false, state).fg == Some(Tone::Red)) == (state == Some(AgentState::Blocked)),
        frame_style(false, state).fg != Some(ACCENT),
        frame_style(true, state) != frame_style(false, state),
{
}

} // verus!
