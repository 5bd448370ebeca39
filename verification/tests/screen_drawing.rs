//! What the screen shows.

use ratatui::buffer::Buffer;
use ratatui::layout::{Alignment, Rect as Area};
use ratatui::style::{Color, Modifier, Style as Look};
use ratatui::text::{Line as Row, Span as Piece};
use ratatui::widgets::{Block, BorderType, Borders, Clear, Paragraph, Widget};

use tutti::attach::app::{App, Mode, Query};
use tutti::attach::bars::{agent_dot, fit_hint, mode_label, state_style, tab_chip_style, two_tone};
use tutti::attach::grid::{border_title, pane_border_style, pane_title_line};
use tutti::attach::look::{
    cell_style, chrome_bar, chrome_panel, dim, glyphs, line_width, map_color, paint_cell,
    plain as plain_style, Paint, Span, Style, Tone, ACCENT,
};
use tutti::attach::pace::{end_turn, Happening, Pace, Remains};
use tutti::attach::popups::{help_lines, launcher_line, popup_key_line};
use tutti::attach::render::draw;
use tutti::attach::tree::{header_border, pad_inner, right_tagged};
use tutti::config::{Config, Icons};
use tutti::key::{KeyCode, KeyEvent, KeyModifiers};
use tutti::launcher::{AgentSpec, LaunchKind, LauncherRow, ResumeSession};
use tutti::layout::Rect;
use tutti::model::{
    AgentState, Layout, PaneId, PaneInfo, SubagentInfo, TabId, TabView, WorkspaceId, WorkspaceView,
};
use tutti::protocol::{
    control, Event, PaneData, Request, Response, ServerFrame, WireFrame,
};
use tutti::screen::{ScreenCell, TermColor};

/// A leaf layout holding pane `id`.
fn leaf(id: u64) -> Layout {
    Layout::Leaf(PaneId(id))
}

/// A pane with an explicit title, optional agent kind, and state.
fn pane(id: u64, title: &str, agent: Option<&str>, state: AgentState) -> PaneInfo {
    PaneInfo {
        id: PaneId(id),
        title: title.into(),
        agent: agent.map(Into::into),
        state,
        exited: None,
        subagents: Vec::new(),
    }
}

/// An agent pane titled `pane-<id>`.
fn agent(id: u64, kind: &str, state: AgentState) -> PaneInfo {
    pane(id, &format!("pane-{id}"), Some(kind), state)
}

/// A tab carrying `layout` and `panes`; its active pane is the first one.
fn tab(id: u64, name: &str, active: bool, layout: Layout, panes: Vec<PaneInfo>) -> TabView {
    let active_pane = panes.first().map(|p| p.id);
    TabView {
        id: TabId(id),
        name: name.into(),
        active,
        layout: Some(layout),
        active_pane,
        panes,
    }
}

/// A workspace rooted at `/tmp/w` with `name`, optional branch, and `tabs`.
fn workspace(id: u64, name: &str, branch: Option<&str>, tabs: Vec<TabView>) -> WorkspaceView {
    WorkspaceView {
        id: WorkspaceId(id),
        name: name.into(),
        dir: "/tmp/w".to_string(),
        branch: branch.map(Into::into),
        changes: None,
        stale: false,
        parent: None,
        tabs,
    }
}

/// The directories of a made-up disk.
fn disk() -> Vec<&'static str> {
    vec![
        "/one",
        "/one/alpha",
        "/two",
        "/two/alpha",
        "/two/beta",
        "/three",
        "/three/alpha",
        "/three/beta",
        "/three/gamma",
        "/books",
        "/books/the-librarian",
        "/jj",
        "/jj/.jj",
        "/tmp/w",
        "/tmp/w/api",
    ]
}

fn real_dir(path: &str) -> Option<String> {
    let path = path.trim_end_matches('/');
    disk().iter().find(|d| **d == path).map(|d| d.to_string())
}

fn listing(base: &str) -> Vec<String> {
    let base = format!("{}/", base.trim_end_matches('/'));
    disk()
        .iter()
        .filter_map(|d| d.strip_prefix(base.as_str()))
        .filter(|name| !name.is_empty() && !name.contains('/'))
        .map(|name| name.to_string())
        .collect()
}

fn agents() -> Vec<AgentSpec> {
    let spec = |kind: &str, display: &str| AgentSpec {
        kind: kind.into(),
        display: display.into(),
        url: format!("https://github.com/{kind}/{kind}"),
        process_names: vec![kind.into()],
    };
    vec![
        spec("goose", "Goose"),
        spec("codex", "Codex"),
        spec("gemini", "Gemini CLI"),
    ]
}

fn conversations(about: Option<(String, String)>) -> Vec<ResumeSession> {
    match about {
        Some((dir, _)) if dir == "/tmp/w" => vec![ResumeSession {
            agent: "goose".into(),
            id: "sess-1".into(),
            title: Some("wire the resume rows".into()),
            age: 7200,
            cmd: vec!["goose".into(), "--resume".into(), "sess-1".into()],
        }],
        _ => Vec::new(),
    }
}

/// Tell the client what it wants to know, until it asks no more.
fn answer(app: &mut App) -> Vec<WireFrame> {
    let mut out = Vec::new();
    while let Some(query) = app.take_query() {
        match query {
            Query::List { base } => app.on_listing(&listing(&base)),
            Query::Launcher { sessions } => {
                app.on_probe(&agents(), &vec![true, false, false], &conversations(sessions));
            }
            Query::Locate { typed, completed } => {
                let fallback = completed.and_then(|c| real_dir(&c));
                out.extend(app.on_located(real_dir(&typed), fallback));
            }
            Query::DiffMarks { marks } => {
                let found = marks.iter().map(|m| real_dir(m).is_some()).collect();
                out.extend(app.on_diff_marks(&found));
            }
            Query::DestMarks { marks } => {
                let found = marks.iter().map(|m| real_dir(m).is_some()).collect();
                app.on_dest_marks(&found);
            }
            Query::DestParent { parent } => out.extend(app.on_dest_parent(Some(parent))),
        }
    }
    out
}

fn press(app: &mut App, key: KeyEvent) -> Vec<WireFrame> {
    let mut out = app.on_key(key);
    out.extend(answer(app));
    out
}

fn receive(app: &mut App, frame: ServerFrame) {
    app.handle_frame(frame);
    answer(app);
}

fn first_run(app: &mut App, dir: String) {
    app.start_first_run_prompt(dir);
    answer(app);
}

fn snapshot(app: &mut App, rows: u16, cols: u16, bytes: &[u8]) {
    app.handle_frame(ServerFrame::PaneSnapshot(PaneData {
        pane: PaneId(1),
        rows,
        cols,
        bytes: bytes.to_vec(),
    }));
}


fn sub(desc: &str, running: bool) -> SubagentInfo {
    SubagentInfo { desc: desc.into(), running }
}

fn area_of(r: Rect) -> Area {
    Area::new(r.x, r.y, r.width, r.height)
}

fn colour(tone: Tone) -> Color {
    match tone {
        Tone::Reset => Color::Reset,
        Tone::Black => Color::Black,
        Tone::Red => Color::Red,
        Tone::Green => Color::Green,
        Tone::Yellow => Color::Yellow,
        Tone::Blue => Color::Blue,
        Tone::DarkGray => Color::DarkGray,
        Tone::Indexed(i) => Color::Indexed(i),
        Tone::Rgb(r, g, b) => Color::Rgb(r, g, b),
    }
}

fn look_of(style: Style) -> Look {
    let mut look = Look::default();
    look.fg = style.fg.map(colour);
    look.bg = style.bg.map(colour);
    let m = style.add_modifier;
    for (on, what) in [
        (m.bold, Modifier::BOLD),
        (m.dim, Modifier::DIM),
        (m.italic, Modifier::ITALIC),
        (m.underlined, Modifier::UNDERLINED),
        (m.reversed, Modifier::REVERSED),
    ] {
        if on {
            look = look.add_modifier(what);
        }
    }
    look
}

fn row_of(spans: &[Span]) -> Row<'static> {
    Row::from(
        spans
            .iter()
            .map(|s| Piece::styled(s.content.clone(), look_of(s.style)))
            .collect::<Vec<_>>(),
    )
}

/// A screen that keeps what was drawn on it last.
struct Screen {
    buffer: Buffer,
    cursor: Option<(u16, u16)>,
}

impl Screen {
    fn new(width: u16, height: u16) -> Screen {
        Screen { buffer: Buffer::empty(Area::new(0, 0, width, height)), cursor: None }
    }

    fn buffer(&self) -> &Buffer {
        &self.buffer
    }

    fn draw(&mut self, app: &App) {
        self.buffer.reset();
        self.cursor = None;
        let area = self.buffer.area;
        for paint in draw(app, Rect::new(area.x, area.y, area.width, area.height)) {
            self.put(paint);
        }
    }

    fn put(&mut self, paint: Paint) {
        let buffer = &mut self.buffer;
        match paint {
            Paint::Shade { area, bg } => {
                buffer.set_style(area_of(area), Look::default().bg(colour(bg)));
            }
            Paint::Wipe { area } => Clear.render(area_of(area), buffer),
            Paint::Text { area, lines, centred, base } => {
                let rows: Vec<Row> = lines.iter().map(|l| row_of(&l.spans)).collect();
                let side = if centred { Alignment::Center } else { Alignment::Left };
                Paragraph::new(rows)
                    .style(look_of(base))
                    .alignment(side)
                    .render(area_of(area), buffer);
            }
            Paint::Frame { area, style, title, bg } => {
                let mut block = Block::default()
                    .borders(Borders::ALL)
                    .border_type(BorderType::Rounded)
                    .border_style(look_of(style))
                    .title(title);
                if let Some(tone) = bg {
                    block = block.style(Look::default().bg(colour(tone)));
                }
                block.render(area_of(area), buffer);
            }
            Paint::Cells { area, rows } => {
                for (y, row) in rows.iter().enumerate() {
                    for (x, cell) in row.iter().enumerate() {
                        let place = (area.x + x as u16, area.y + y as u16);
                        buffer[place].set_symbol(&cell.symbol);
                        if let Some(style) = cell.style {
                            buffer[place].set_style(look_of(style));
                        }
                    }
                }
            }
            Paint::Cursor { x, y } => self.cursor = Some((x, y)),
        }
    }
}

/// The look of the first cell of a pane that printed `text`.
fn first_cell(text: &[u8]) -> Style {
    let app = app_with_pane(text);
    for paint in draw(&app, Rect::new(0, 0, 40, 8)) {
        if let Paint::Cells { rows, .. } = paint {
            return rows[0][0].style.expect("the cell has a style");
        }
    }
    panic!("the pane is drawn");
}

#[test]
fn cell_style_reads_bold_red_from_a_real_parser() {
    let style = first_cell(b"\x1b[1;31mX");
    assert_eq!(style.fg, Some(Tone::Indexed(1)));
    assert!(style.add_modifier.bold);
}

#[test]
fn cell_style_maps_underline_and_reverse() {
    let style = first_cell(b"\x1b[4;7mY");
    assert!(style.add_modifier.underlined);
    assert!(style.add_modifier.reversed);
}

#[test]
fn sidebar_prompt_stacks_completions_above_the_open_input() {
    let mut app = App::new();
    // An absolute prefix keeps the listing independent of the directories.
    first_run(&mut app, "/two/a".to_string());

    let mut terminal = Screen::new(100, 24);
    terminal.draw(&app);
    let buf = terminal.buffer();
    let w = buf.area.width as usize;
    let symbols: Vec<&str> = buf.content().iter().map(|c| c.symbol()).collect();
    let row_with = |needle: &str| {
        symbols.chunks(w).position(|row| row.concat().contains(needle))
    };
    let alpha_row = row_with("alpha").expect("completion row missing");
    let open_row = row_with("open:").expect("prompt prefix missing");
    // The completion sits on a row strictly above the input line.
    assert!(
        alpha_row < open_row,
        "completions should stack above the prompt: alpha@{alpha_row} open@{open_row}"
    );
}

#[test]
fn launcher_command_input_shows_the_run_prompt() {
    let mut app = app_with_pane(b"hi");
    press(&mut app, KeyEvent::new(KeyCode::Char('b'), KeyModifiers::control()));
    press(&mut app, KeyEvent::new(KeyCode::Char('r'), KeyModifiers::none()));
    // Select the command row by its number to open the input.
    let place = app.launcher_rows().iter().position(|r| r.kind == LaunchKind::Command).unwrap();
    let digit = char::from_digit(place as u32 + 1, 10).unwrap();
    press(&mut app, KeyEvent::new(KeyCode::Char(digit), KeyModifiers::none()));
    assert_eq!(app.mode, Mode::LauncherCommand);

    let mut terminal = Screen::new(64, 20);
    terminal.draw(&app);
    let text = buffer_text(terminal.buffer());
    assert!(text.contains("run:"), "the command input prompt is missing: {text:?}");
    assert!(text.contains("╭ run ─"), "the panel has a bare title: {text:?}");
}

#[test]
fn absent_cells_are_blank() {
    let blank = paint_cell(&None);
    assert_eq!(blank.symbol, " ");
    assert_eq!(blank.style, None);
    let cell = ScreenCell {
        text: String::new(),
        continuation: false,
        fg: TermColor::Idx(2),
        bg: TermColor::Rgb(1, 2, 3),
        bold: false,
        dim: false,
        italic: true,
        underline: false,
        inverse: false,
    };
    let painted = paint_cell(&Some(cell.clone()));
    assert_eq!(painted.symbol, " ", "a cell without contents shows a blank");
    let style = cell_style(&cell);
    assert_eq!(painted.style, Some(style));
    assert_eq!(style.fg, Some(Tone::Indexed(2)));
    assert_eq!(style.bg, Some(Tone::Rgb(1, 2, 3)));
    assert!(style.add_modifier.italic);
    let half = paint_cell(&Some(ScreenCell { continuation: true, ..cell }));
    assert_eq!(half.symbol, "", "nothing of the second half of a wide character");
    assert_eq!(half.style, None);
}

#[test]
fn the_cursor_sits_behind_the_last_character() {
    let app = app_with_pane(b"HELLO");
    let mut terminal = Screen::new(40, 8);
    terminal.draw(&app);
    assert_eq!(terminal.cursor, Some((6, 4)));
}

#[test]
fn widths_count_columns() {
    let span = |text: &str| Span { content: text.into(), style: plain_style() };
    assert_eq!(line_width(&vec![span("ab"), span("漢字"), span("🔔")]), 8);
    assert_eq!(line_width(&vec![]), 0);
}

#[test]
fn rows_are_padded_to_the_width() {
    let span = |text: &str| Span { content: text.into(), style: plain_style() };
    assert_eq!(line_width(&pad_inner(vec![span("äöü")], false, 10)), 10);
    assert_eq!(line_width(&pad_inner(vec![span("ab")], true, 10)), 10);
    assert_eq!(line_width(&pad_inner(vec![span("too long a row")], true, 10)), 14);
    let tagged = right_tagged(vec![span("ab")], vec![span("9")], false, 10);
    assert_eq!(line_width(&tagged), 10);
    let text: String = tagged.iter().map(|s| s.content.as_str()).collect();
    assert!(text.trim_end().ends_with('9'));
    let header = header_border('╭', '╮', false, "projects", 12, 30);
    assert_eq!(line_width(&header), 30);
    let text: String = header.iter().map(|s| s.content.as_str()).collect();
    assert!(text.starts_with('╭') && text.ends_with("12 ╮"), "{text}");
}

#[test]
fn hints_that_do_not_fit_keep_their_first_key() {
    let pairs = [("a".to_string(), "one"), ("b".to_string(), "two"), ("c".to_string(), "three")];
    let (all, full) = fit_hint(&pairs, 80);
    assert_eq!(full, line_width(&all));
    let text: String = all.iter().map(|s| s.content.as_str()).collect();
    assert_eq!(text, "a one · b two · c three");
    assert_eq!(fit_hint(&[], 0), (vec![], 0), "nothing always fits");
    let (some, width) = fit_hint(&pairs, 15);
    assert_eq!(width, 5);
    let text: String = some.iter().map(|s| s.content.as_str()).collect();
    assert_eq!(text, "a one");
    assert_eq!(fit_hint(&pairs, 4), (vec![], 0));
}

#[test]
fn modes_have_labels() {
    assert_eq!(mode_label(Mode::Terminal), None);
    assert_eq!(mode_label(Mode::Sidebar), Some("SIDEBAR"));
}

#[test]
fn focused_panes_carry_a_marker() {
    let info = pane(1, "zsh", None, AgentState::Unknown);
    let text = |focused| -> String {
        pane_title_line(&info, focused, 'x').iter().map(|s| s.content.clone()).collect()
    };
    assert!(text(true).contains('❯'));
    assert!(!text(false).contains('❯'));
}

#[test]
fn help_and_launcher_lines_name_their_keys() {
    let lines = help_lines(&Config::default());
    let text: String =
        lines.iter().flat_map(|l| l.spans.iter().map(|s| s.content.clone())).collect();
    assert!(text.contains("C-b"));
    let row = LauncherRow {
        name: "goose".into(),
        role: "Goose".into(),
        kind: LaunchKind::Agent("goose".into()),
        available: true,
    };
    let text: String = launcher_line(1, &row, true).iter().map(|s| s.content.clone()).collect();
    assert!(text.contains("goose") && text.contains("Goose") && text.contains('2'));
}

#[test]
fn drawing_is_due_when_something_changes() {
    let mut app = app_with_pane(b"hi");
    let mut pace = Pace::new();
    assert!(pace.due(&app), "the first draw is always due");
    assert!(!pace.due(&app), "nothing happened since");
    pace.touch();
    assert!(pace.due(&app));
    press(&mut app, KeyEvent::new(KeyCode::Char('b'), KeyModifiers::control()));
    assert!(!pace.due(&app), "the keys do not show at once");
}

#[test]
fn maps_default_indexed_and_rgb_colors() {
    assert_eq!(map_color(TermColor::Default), Tone::Reset);
    assert_eq!(map_color(TermColor::Idx(9)), Tone::Indexed(9));
    assert_eq!(map_color(TermColor::Rgb(1, 2, 3)), Tone::Rgb(1, 2, 3));
}

fn app_with_pane(text: &[u8]) -> App {
    let mut app = App::new();
    receive(&mut app, ServerFrame::Response(Response::Attached {
            wire_rev: 0,
            session: "demo".into(),
            workspaces: vec![workspace(
                1,
                "w",
                None,
                vec![tab(
                    1,
                    "main",
                    true,
                    leaf(1),
                    vec![pane(1, "shell", None, AgentState::Idle)],
                )],
            )],
        }));
    snapshot(&mut app, 6, 18, text);
    app
}

fn buffer_text(buf: &Buffer) -> String {
    buf.content().iter().map(|c| c.symbol()).collect()
}

#[test]
fn draws_pane_grid_and_status_into_buffer() {
    let app = app_with_pane(b"HELLO");
    // 40 cols so the app bar fits both the wordmark and the tab segment
    // without them colliding at the narrow end.
    let mut terminal = Screen::new(40, 8);
    terminal.draw(&app);
    let text = buffer_text(terminal.buffer());
    assert!(text.contains("HELLO"), "grid text missing: {text:?}");
    assert!(
        text.contains("demo"),
        "session name missing from the app bar"
    );
    assert!(text.contains("main"), "tab name missing from the app bar");
}

fn app_two_workspaces() -> App {
    let mut app = App::new();
    receive(&mut app, ServerFrame::Response(Response::Attached {
            wire_rev: 0,
            session: "demo".into(),
            workspaces: vec![
                workspace(
                    1,
                    "api",
                    Some("main"),
                    vec![tab(
                        1,
                        "1",
                        true,
                        leaf(1),
                        vec![pane(1, "zsh", None, AgentState::Idle)],
                    )],
                ),
                workspace(
                    2,
                    "web",
                    None,
                    vec![tab(
                        2,
                        "2",
                        false,
                        leaf(2),
                        vec![pane(2, "agent", Some("goose"), AgentState::Blocked)],
                    )],
                ),
            ],
        }));
    app
}

#[test]
fn sidebar_renders_both_sections_with_branch_and_agent() {
    // 100 cols clears the width floor so the sidebar shows.
    let app = app_two_workspaces();
    let mut terminal = Screen::new(100, 16);
    terminal.draw(&app);
    let text = buffer_text(terminal.buffer());
    assert!(
        text.contains("projects"),
        "projects header missing: {text:?}"
    );
    assert!(text.contains("agents"), "agents header missing: {text:?}");
    assert!(text.contains("api"), "workspace name missing: {text:?}");
    assert!(text.contains("main"), "branch subtitle missing: {text:?}");
    assert!(text.contains("goose"), "agent kind missing: {text:?}");
}

#[test]
fn sidebar_renders_the_change_stat_beside_the_branch() {
    let mut app = App::new();
    let mut view = vec![workspace(
        1,
        "api",
        Some("main"),
        vec![tab(
            1,
            "1",
            true,
            leaf(1),
            vec![pane(1, "zsh", None, AgentState::Idle)],
        )],
    )];
    view[0].changes = Some("4 files +120 −33".into());
    receive(&mut app, ServerFrame::Response(Response::Attached {
            wire_rev: 0,
            session: "demo".into(),
            workspaces: view,
        }));
    let mut terminal = Screen::new(100, 16);
    terminal.draw(&app);
    let text = buffer_text(terminal.buffer());
    assert!(text.contains("main"), "branch still shows: {text:?}");
    assert!(
        text.contains("4 files +120 −33"),
        "change stat missing from the subtitle line: {text:?}"
    );
}

#[test]
fn sidebar_shows_a_dim_red_stale_tag_for_a_stale_workspace() {
    let mut app = App::new();
    let mut view = vec![workspace(
        1,
        "api",
        Some("main"),
        vec![tab(
            1,
            "1",
            true,
            leaf(1),
            vec![pane(1, "zsh", None, AgentState::Idle)],
        )],
    )];
    // A stale workspace whose change stat is suppressed (jj reports staleness
    // instead of a diff) — the stale tag takes the stat's place.
    view[0].stale = true;
    view[0].changes = None;
    receive(&mut app, ServerFrame::Response(Response::Attached {
            wire_rev: 0,
            session: "demo".into(),
            workspaces: view,
        }));
    let mut terminal = Screen::new(100, 16);
    terminal.draw(&app);
    let buf = terminal.buffer();
    let text: String = buf.content().iter().map(|c| c.symbol()).collect();
    assert!(text.contains("stale"), "stale tag missing: {text:?}");
    // The tag renders in red (the one place a workspace subtitle takes colour).
    let stale_start = buf
        .content()
        .windows(5)
        .position(|w| w.iter().map(|c| c.symbol()).collect::<String>() == "stale")
        .expect("the stale glyphs are contiguous");
    assert_eq!(
        buf.content()[stale_start].fg,
        Color::Red,
        "the stale tag should be dim-red"
    );
}

#[test]
fn sidebar_shows_a_placeholder_when_no_agents() {
    // A single agentless workspace, sidebar forced on.
    let mut app = App::with_config(Config::parse("sidebar = \"on\"\n", &None).unwrap());
    receive(&mut app, ServerFrame::Response(Response::Attached {
            wire_rev: 0,
            session: "demo".into(),
            workspaces: vec![workspace(
                1,
                "solo",
                None,
                vec![tab(
                    1,
                    "1",
                    true,
                    leaf(1),
                    vec![pane(1, "zsh", None, AgentState::Idle)],
                )],
            )],
        }));
    let mut terminal = Screen::new(100, 16);
    terminal.draw(&app);
    let text = buffer_text(terminal.buffer());
    assert!(
        text.contains("no agents yet"),
        "empty agents section needs a placeholder: {text:?}"
    );
}

#[test]
fn the_queue_has_a_placeholder_beside_idle_agents() {
    let mut app = App::with_config(Config::parse("sidebar = \"on\"\n", &None).unwrap());
    let idle = pane(1, "goose", Some("goose"), AgentState::Idle);
    app.handle_frame(ServerFrame::Response(Response::Attached {
        wire_rev: 0,
        session: "demo".into(),
        workspaces: vec![workspace(1, "solo", None, vec![tab(1, "1", true, leaf(1), vec![idle])])],
    }));
    let mut terminal = Screen::new(100, 16);
    terminal.draw(&app);
    let text = buffer_text(terminal.buffer());
    assert!(text.contains("▼ agents ─"), "{text:?}");
    assert!(text.contains("no agents yet"), "{text:?}");
}

#[test]
fn sidebar_renders_subagent_rows_under_a_hook_driven_agent() {
    let mut app = App::with_config(Config::parse("sidebar = \"on\"\n", &None).unwrap());
    let mut agent_pane = agent(1, "goose", AgentState::Working);
    agent_pane.subagents = vec![sub("build the core", true), sub("write the tests", false)];
    receive(&mut app, ServerFrame::Response(Response::Attached {
            wire_rev: 0,
            session: "demo".into(),
            workspaces: vec![workspace(
                1,
                "api",
                Some("main"),
                vec![tab(1, "1", true, leaf(1), vec![agent_pane])],
            )],
        }));
    let mut terminal = Screen::new(100, 20);
    terminal.draw(&app);
    let text = buffer_text(terminal.buffer());
    assert!(
        text.contains("build the core"),
        "a running subagent sub-row is missing: {text:?}"
    );
    assert!(
        text.contains("write the tests"),
        "a finished subagent sub-row is missing: {text:?}"
    );
}

/// The row of the selection's accent chip — the first cell with an accent
/// background inside the sidebar column (below the app-bar header, left of
/// the pane area). The app-bar tab block also uses an accent background, so
/// the search is scoped past it.
fn accent_chip_row(buf: &Buffer) -> Option<u16> {
    let w = buf.area.width;
    buf.content().iter().enumerate().find_map(|(i, c)| {
        let col = i as u16 % w;
        let row = i as u16 / w;
        (c.bg == colour(ACCENT) && col < 30 && row >= 2).then_some(row)
    })
}

#[test]
fn focused_sidebar_shows_a_moving_accent_selection() {
    let mut app = app_two_workspaces();
    let mut terminal = Screen::new(100, 20);
    // Establish the content width so the sidebar key may focus.
    terminal.draw(&app);
    app.sync_sizes(Rect::new(0, 0, 100, 20));

    // Prefix then `w` focuses the sidebar.
    press(&mut app, KeyEvent::new(KeyCode::Char('b'), KeyModifiers::control()));
    press(&mut app, KeyEvent::new(KeyCode::Char('w'), KeyModifiers::none()));
    assert!(app.sidebar_focused(), "w focuses the sidebar");
    terminal.draw(&app);
    let before = accent_chip_row(terminal.buffer());
    assert!(before.is_some(), "the selection accent chip is drawn");

    // `j` moves the visible selection to a new row.
    press(&mut app, KeyEvent::new(KeyCode::Char('j'), KeyModifiers::none()));
    terminal.draw(&app);
    let after = accent_chip_row(terminal.buffer());
    assert!(after.is_some());
    assert_ne!(before, after, "j slides the accent chip down a row");
}

#[test]
fn top_tab_bar_lists_a_new_tab_chip() {
    let app = app_two_workspaces();
    let mut terminal = Screen::new(100, 12);
    terminal.draw(&app);
    let text = buffer_text(terminal.buffer());
    assert!(text.contains("+"), "new-tab chip missing: {text:?}");
}

#[test]
fn footer_drops_the_session_tab_list_and_pane_badges() {
    let (w, h) = (100usize, 12usize);
    let app = app_two_workspaces();
    let mut terminal = Screen::new(w as u16, h as u16);
    terminal.draw(&app);
    let content = terminal.buffer().content();
    let bottom: String = content[(h - 1) * w..h * w]
        .iter()
        .map(|c| c.symbol())
        .collect();
    let top: String = content[0..w].iter().map(|c| c.symbol()).collect();
    assert!(
        top.contains("demo"),
        "the session name moves to the app bar: {top:?}"
    );
    assert!(
        !bottom.contains("demo"),
        "and leaves the footer: {bottom:?}"
    );
    assert!(
        !bottom.contains("blocked"),
        "no per-pane state chips in the footer: {bottom:?}"
    );
}

#[test]
fn sidebar_shows_a_bell_mark_for_a_notified_agent() {
    let mut app = app_two_workspaces();
    // pane 2 (an agent, not the focused pane) raises a notification.
    receive(&mut app, ServerFrame::Event(Event::PaneNotification {
            pane: PaneId(2),
            title: None,
            body: Some("done".into()),
        }));
    let mut terminal = Screen::new(100, 12);
    terminal.draw(&app);
    let text = buffer_text(terminal.buffer());
    assert!(text.contains("🔔"), "bell mark missing: {text:?}");
}

#[test]
fn state_style_colors_match_the_spec() {
    assert_eq!(state_style(AgentState::Blocked).fg, Some(Tone::Red));
    assert!(
        state_style(AgentState::Blocked)
            .add_modifier.bold
    );
    assert_eq!(state_style(AgentState::Working).fg, Some(Tone::Yellow));
    assert_eq!(state_style(AgentState::Done).fg, Some(Tone::Green));
    assert!(
        state_style(AgentState::Idle)
            .add_modifier.dim
    );
    assert!(
        state_style(AgentState::Unknown)
            .add_modifier.dim
    );
}

fn title_text(info: &PaneInfo) -> String {
    // A fixed spinner frame keeps the assertion deterministic.
    border_title(info, '⠋')
        .iter()
        .map(|s| s.content.as_str())
        .collect()
}

#[test]
fn border_title_shows_agent_and_state() {
    let info = PaneInfo {
        id: PaneId(1),
        title: "zsh".into(),
        agent: Some("goose".into()),
        state: AgentState::Blocked,
        exited: None,
        subagents: Vec::new(),
    };
    assert_eq!(title_text(&info), "goose · blocked");
}

#[test]
fn border_title_animates_a_working_agent_with_the_spinner() {
    let info = PaneInfo {
        id: PaneId(1),
        title: "zsh".into(),
        agent: Some("goose".into()),
        state: AgentState::Working,
        exited: None,
        subagents: Vec::new(),
    };
    assert_eq!(title_text(&info), "goose · ⠋ working");
}

#[test]
fn border_title_omits_state_for_a_plain_shell() {
    let info = PaneInfo {
        id: PaneId(1),
        title: "zsh".into(),
        agent: None,
        state: AgentState::Unknown,
        exited: None,
        subagents: Vec::new(),
    };
    assert_eq!(title_text(&info), "zsh", "no `· unknown` suffix");
}

#[test]
fn border_title_shows_exit_marker_for_an_exited_shell() {
    let info = PaneInfo {
        id: PaneId(1),
        title: "zsh".into(),
        agent: None,
        state: AgentState::Done,
        exited: Some(0),
        subagents: Vec::new(),
    };
    assert_eq!(title_text(&info), "zsh exited 0");
}

#[test]
fn pane_border_style_reflects_focus_and_blocked_attention() {
    assert_eq!(
        pane_border_style(true, Some(AgentState::Idle)).fg,
        Some(ACCENT),
        "focused pane border is the accent"
    );
    assert_eq!(
        pane_border_style(false, Some(AgentState::Blocked)).fg,
        Some(Tone::Red),
        "an unfocused blocked pane border turns red"
    );
    assert_eq!(
        pane_border_style(true, Some(AgentState::Blocked)).fg,
        Some(ACCENT),
        "focus wins over the blocked red"
    );
    assert!(
        pane_border_style(false, Some(AgentState::Idle))
            .add_modifier.dim,
        "an ordinary unfocused pane border is dim"
    );
}

#[test]
fn agent_dot_spins_only_while_working() {
    let g = &glyphs(Icons::Unicode);
    assert_eq!(
        agent_dot(AgentState::Working, '⠹', g).0,
        '⠹',
        "working shows the current spinner frame"
    );
    assert_eq!(agent_dot(AgentState::Blocked, '⠹', g).0, '●');
    assert_eq!(agent_dot(AgentState::Done, '⠹', g).0, '●');
    assert_eq!(agent_dot(AgentState::Idle, '⠹', g).0, '○');
}

#[test]
fn tab_segment_marks_active_and_dims_new() {
    // The active tab is an accent block; an inactive tab is normal text on
    // the chrome background; the trailing `[+]` segment is dim.
    assert_eq!(tab_chip_style(true, false).bg, Some(ACCENT));
    assert_eq!(tab_chip_style(true, false).fg, Some(Tone::Black));
    assert_eq!(tab_chip_style(false, false), plain_style());
    assert!(
        tab_chip_style(false, true)
            .add_modifier.dim
    );
    assert_eq!(tab_chip_style(false, true).bg, None);
}

#[test]
fn icons_config_selects_the_glyph_table() {
    // The default unicode set uses the safe dots; nerdfont swaps in
    // private-use icons, so the two tables differ.
    assert_eq!(glyphs(Icons::Unicode).ws_active, '●');
    assert_eq!(glyphs(Icons::Unicode).ws_inactive, '○');
    assert_ne!(glyphs(Icons::Nerdfont).ws_active, '●');
    assert_ne!(
        glyphs(Icons::Nerdfont).branch,
        glyphs(Icons::Unicode).branch
    );
}

#[test]
fn empty_session_renders_add_project_hint() {
    let app = App::new();
    let mut terminal = Screen::new(60, 4);
    terminal.draw(&app);
    let text = buffer_text(terminal.buffer());
    assert!(
        text.contains("add a project"),
        "expected the fresh-session add-project hint: {text:?}"
    );
}

#[test]
fn popup_key_line_uses_accent_keys_and_dim_labels() {
    // The floating panels (which-key, help) render key letters in the
    // accent, labels dim.
    let line = popup_key_line("j/k", "move");
    assert_eq!(line[0].style.fg, Some(ACCENT), "key span is accent");
    assert_eq!(line[1].style, dim(), "label span is dim");
    // The footer hint keeps bright keys with a dim separator.
    let (spans, _) = two_tone(&[("a".into(), "one"), ("b".into(), "two")]);
    assert!(
        spans
            .iter()
            .any(|s| s.content == " · " && s.style.add_modifier.dim),
        "separator between pairs is dim"
    );
}

#[test]
fn status_bar_shows_the_detach_hint() {
    let app = app_with_pane(b"hi");
    let mut terminal = Screen::new(80, 8);
    terminal.draw(&app);
    let text = buffer_text(terminal.buffer());
    assert!(text.contains("C-b"), "hint prefix missing: {text:?}");
    assert!(text.contains("detach"), "hint detach missing: {text:?}");
}

#[test]
fn help_overlay_lists_detach_first_with_direct_keys_and_stop() {
    let mut app = app_with_pane(b"hi");
    press(&mut app, KeyEvent::new(KeyCode::Char('b'), KeyModifiers::control()));
    press(&mut app, KeyEvent::new(KeyCode::Char('?'), KeyModifiers::none()));
    assert_eq!(app.mode, Mode::Help);

    // Tall enough to clear the whole panel, including the sidebar section.
    let mut terminal = Screen::new(64, 30);
    terminal.draw(&app);
    let text = buffer_text(terminal.buffer());
    assert!(text.contains("detach"), "help missing detach: {text:?}");
    assert!(
        text.contains("tutti server stop"),
        "help missing daemon-stop line: {text:?}"
    );
    assert!(
        text.contains("direct keys"),
        "help missing direct keys section: {text:?}"
    );
    // The sidebar section documents the fork, update-stale, and kill keys.
    assert!(
        text.contains("fork")
            && text.contains("update stale")
            && text.contains("kill workspace"),
        "help missing the sidebar fork/update/kill keys: {text:?}"
    );
    // Detach is listed before the split bindings.
    assert!(
        text.find("detach") < text.find("split"),
        "detach should be listed first: {text:?}"
    );
}

/// The buffer text of one row (`row`), for asserting against a bar.
fn row_text(buf: &Buffer, row: usize) -> String {
    let w = buf.area.width as usize;
    buf.content()[row * w..(row + 1) * w]
        .iter()
        .map(|c| c.symbol())
        .collect()
}

#[test]
fn app_bar_shows_session_and_the_active_tab_segment() {
    let app = app_two_workspaces();
    let mut terminal = Screen::new(100, 12);
    terminal.draw(&app);
    let buf = terminal.buffer();
    // The wordmark carries the session on the app-bar row (row 0).
    assert!(
        row_text(buf, 0).contains("demo"),
        "session missing from the app bar: {:?}",
        row_text(buf, 0)
    );
    // The active tab's segment is an accent block on that same row.
    let w = buf.area.width as usize;
    let active = buf.content()[0..w].iter().any(|c| c.bg == colour(ACCENT));
    assert!(active, "the active tab segment should be an accent block");
}

#[test]
fn sidebar_frame_headers_carry_their_counts() {
    // api (no agent) + web (one blocked goose): two projects, one agent.
    let app = app_two_workspaces();
    let mut terminal = Screen::new(100, 16);
    terminal.draw(&app);
    let buf = terminal.buffer();
    // The projects header is the sidebar's top border, on content row 2 —
    // scoped to the 30-column sidebar (the pane area sits to its right).
    let top: String = row_text(buf, 2).chars().take(30).collect();
    assert!(top.contains("projects"), "projects header: {top:?}");
    assert!(
        top.trim_end().ends_with("2 ╮"),
        "projects count in border: {top:?}"
    );
    // The agents divider carries its own count somewhere below.
    let text: String = buf.content().iter().map(|c| c.symbol()).collect();
    assert!(text.contains("agents"), "agents header: {text:?}");
    assert!(
        text.contains("1 ┤"),
        "agents count fused in the divider: {text:?}"
    );
}

#[test]
fn focused_pane_title_renders_above_the_rounded_frame() {
    let app = app_with_pane(b"HELLO");
    let mut terminal = Screen::new(40, 8);
    terminal.draw(&app);
    let buf = terminal.buffer();
    // Content starts at row 2: the pane title line, then the frame's top
    // border on row 3.
    let title = row_text(buf, 2);
    assert!(
        title.contains('❯'),
        "focused pane marker missing: {title:?}"
    );
    assert!(title.contains("shell"), "pane title missing: {title:?}");
    assert!(
        row_text(buf, 3).contains('╭'),
        "the rounded frame should open on the row below the title"
    );
}

#[test]
fn footer_shows_the_mode_chip_in_sidebar_mode() {
    let mut app = app_two_workspaces();
    let mut terminal = Screen::new(100, 16);
    terminal.draw(&app);
    app.sync_sizes(Rect::new(0, 0, 100, 16));
    press(&mut app, KeyEvent::new(KeyCode::Char('b'), KeyModifiers::control()));
    press(&mut app, KeyEvent::new(KeyCode::Char('w'), KeyModifiers::none()));
    terminal.draw(&app);
    let buf = terminal.buffer();
    let footer = row_text(buf, 15);
    assert!(footer.contains("SIDEBAR"), "mode chip missing: {footer:?}");
    // The chip is an accent block.
    let w = buf.area.width as usize;
    assert!(
        buf.content()[15 * w..16 * w].iter().any(|c| c.bg == colour(ACCENT)),
        "the mode chip should be an accent block"
    );
}

#[test]
fn notification_band_colours_errors_red_and_info_accent() {
    let mut app = app_with_pane(b"hi");
    app.note("error: boom".into());
    let mut terminal = Screen::new(60, 10);
    terminal.draw(&app);
    let buf = terminal.buffer();
    // The band overlays the last content row (footer.y - 1 = row 8).
    let w = buf.area.width as usize;
    assert!(
        buf.content()[8 * w..9 * w]
            .iter()
            .all(|c| c.bg == Color::Red),
        "an error transient paints the band red"
    );

    let mut app = app_with_pane(b"hi");
    app.note("saved the file".into());
    terminal.draw(&app);
    let buf = terminal.buffer();
    assert!(
        buf.content()[8 * w..9 * w].iter().all(|c| c.bg == colour(ACCENT)),
        "an info transient paints the band with the accent"
    );
}

#[test]
fn chrome_shade_paints_bars_only_on_truecolor() {
    // Truecolor on + the default config → the footer takes the bar shade.
    let mut app = app_two_workspaces();
    app.set_truecolor(true);
    let mut terminal = Screen::new(100, 12);
    terminal.draw(&app);
    let w = 100usize;
    let shaded = terminal.buffer().content()[11 * w..12 * w]
        .iter()
        .any(|c| c.bg == colour(chrome_bar()));
    assert!(
        shaded,
        "the footer should take the chrome shade on truecolor"
    );
}

#[test]
fn chrome_shade_absent_without_truecolor_or_when_disabled() {
    // No truecolor → no shade anywhere.
    let app = app_two_workspaces();
    let mut terminal = Screen::new(100, 12);
    terminal.draw(&app);
    assert!(
        !terminal.buffer()
            .content()
            .iter()
            .any(|c| c.bg == colour(chrome_bar()) || c.bg == colour(chrome_panel())),
        "no chrome shade without a truecolor terminal"
    );

    // Truecolor but chrome_background = false → still no shade.
    let mut app = App::with_config(Config::parse("chrome_background = false\n", &None).unwrap());
    app.set_truecolor(true);
    receive(&mut app, ServerFrame::Response(Response::Attached {
            wire_rev: 0,
            session: "demo".into(),
            workspaces: vec![workspace(
                1,
                "api",
                Some("main"),
                vec![tab(
                    1,
                    "1",
                    true,
                    leaf(1),
                    vec![pane(1, "zsh", None, AgentState::Idle)],
                )],
            )],
        }));
    terminal.draw(&app);
    assert!(
        !terminal.buffer()
            .content()
            .iter()
            .any(|c| c.bg == colour(chrome_bar()) || c.bg == colour(chrome_panel())),
        "chrome_background = false suppresses the shade even on truecolor"
    );
}

#[test]
fn subagent_guides_connect_under_an_agent() {
    let mut app = App::with_config(Config::parse("sidebar = \"on\"\n", &None).unwrap());
    let mut agent_pane = agent(1, "goose", AgentState::Working);
    agent_pane.subagents = vec![sub("build the core", true), sub("write the tests", false)];
    receive(&mut app, ServerFrame::Response(Response::Attached {
            wire_rev: 0,
            session: "demo".into(),
            workspaces: vec![workspace(
                1,
                "api",
                Some("main"),
                vec![tab(1, "1", true, leaf(1), vec![agent_pane])],
            )],
        }));
    let mut terminal = Screen::new(100, 20);
    terminal.draw(&app);
    let text: String = terminal.buffer()
        .content()
        .iter()
        .map(|c| c.symbol())
        .collect();
    assert!(
        text.contains('├'),
        "a mid tree guide connects the first subagent"
    );
    assert!(
        text.contains('└'),
        "an end tree guide closes the last subagent"
    );
}

#[test]
fn empty_dashboard_renders_the_wordmark_and_actions() {
    // A tall enough empty area shows the TUTTI wordmark over the actions.
    let app = App::new();
    let mut terminal = Screen::new(60, 20);
    terminal.draw(&app);
    let text = buffer_text(terminal.buffer());
    assert!(text.contains('█'), "the block-letter wordmark is drawn");
    assert!(
        text.contains("add a project"),
        "the action list offers the first project: {text:?}"
    );
}

#[test]
fn launcher_overlay_lists_the_run_choices() {
    let mut app = app_with_pane(b"hi");
    press(&mut app, KeyEvent::new(KeyCode::Char('b'), KeyModifiers::control()));
    press(&mut app, KeyEvent::new(KeyCode::Char('r'), KeyModifiers::none()));
    assert_eq!(app.mode, Mode::Launcher);

    let mut terminal = Screen::new(64, 20);
    terminal.draw(&app);
    let text = buffer_text(terminal.buffer());
    assert!(text.contains("run"), "the panel title is missing: {text:?}");
    assert!(text.contains("goose"), "an agent row is missing: {text:?}");
    assert!(text.contains("shell"), "the shell row is missing: {text:?}");
    assert!(
        text.contains("command"),
        "the command row is missing: {text:?}"
    );
}

#[test]
fn a_turn_takes_in_keys_and_ends_with_what_is_left() {
    let mut app = app_two_workspaces();
    let mut pace = Pace::new();
    assert!(pace.due(&app));
    let key = KeyEvent::new(KeyCode::Char('x'), KeyModifiers::none());
    let typed = pace.on_happening(&mut app, Happening::Key { key, released: false });
    assert_eq!(typed, vec![WireFrame::Input { pane: PaneId(1), bytes: b"x".to_vec() }]);
    assert!(pace.due(&app), "a key is drawn");
    assert!(pace.on_happening(&mut app, Happening::Key { key, released: true }).is_empty());
    assert!(!pace.due(&app), "a key that is let go means nothing");
    assert!(pace.on_happening(&mut app, Happening::Resize).is_empty());
    assert!(pace.due(&app));

    let first = end_turn(&mut app);
    assert_eq!(
        first.focus,
        Some(control(Request::PaneFocus { pane: PaneId(1) })),
        "the server learns of the focus"
    );
    let changed = Event::StateChanged {
        pane: PaneId(2),
        from: AgentState::Working,
        to: AgentState::Blocked,
    };
    receive(&mut app, ServerFrame::Event(changed));
    let noted =
        Event::PaneNotification { pane: PaneId(2), title: None, body: Some("done".into()) };
    receive(&mut app, ServerFrame::Event(noted));
    let second = end_turn(&mut app);
    assert_eq!(second.focus, None);
    assert_eq!(second.bytes[..2], [b"\x07".to_vec(), b"\x07".to_vec()]);
    assert_eq!(second.bytes[2], b"\x1b]9;agent: done\x07".to_vec());
    assert!(!second.quit);
    assert_eq!(end_turn(&mut app), Remains { focus: None, bytes: vec![], quit: false });
}

#[test]
fn panes_keep_the_terminals_own_background() {
    let mut app = app_two_workspaces();
    app.set_truecolor(true);
    let screen = Rect::new(0, 0, 100, 20);
    app.sync_sizes(screen);
    let (_, panes) = app.regions(App::content_rect(screen).0);
    let shades: Vec<Rect> = draw(&app, screen)
        .into_iter()
        .filter_map(|p| if let Paint::Shade { area, .. } = p { Some(area) } else { None })
        .collect();
    assert!(!shades.is_empty());
    for col in panes.x..panes.right() {
        for row in panes.y..panes.bottom() {
            assert!(!shades.iter().any(|s| s.contains(col, row)), "{col},{row} is shaded");
        }
    }
}
