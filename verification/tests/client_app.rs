//! The client, driven by frames, keys and the mouse.
#![allow(dead_code)]

use tutti::attach::app::{App, Mode, Query, MOUSE_SCROLL_STEP, WHICHKEY_DELAY};
use tutti::config::{Config, PrefixAction, RESIZE_DELTA};
use tutti::dirs::{
    is_valid_fork_name, notification_text, osc9, pick_completions, prompt_prefill, resolve_dir,
};
use tutti::key::{KeyCode, KeyEvent, KeyModifiers, MouseButton, MouseEventKind};
use tutti::launcher::{AgentSpec, LaunchKind, LauncherRow, ResumeSession};
use tutti::layout::Rect;
use tutti::model::{
    AgentState, Direction, Layout, PaneId, PaneInfo, TabId, TabView, WorkspaceId, WorkspaceView,
};
use tutti::protocol::{control, Event, PaneData, Request, Response, ServerFrame, WireFrame};
use tutti::sidebar::SidebarEntry;

/// A leaf layout holding pane `id`.
fn leaf(id: u64) -> Layout {
    Layout::Leaf(PaneId(id))
}

/// A half-and-half split of `first` and `second` along `direction`.
fn split(direction: Direction, first: Layout, second: Layout) -> Layout {
    Layout::Split {
        direction,
        ratio: 0.5f32.to_bits(),
        first: Box::new(first),
        second: Box::new(second),
    }
}

/// A pane with an explicit title, optional agent kind, and state.
fn pane(id: u64, title: &str, agent: Option<&str>, state: AgentState) -> PaneInfo {
    PaneInfo {
        id: PaneId(id),
        title: title.into(),
        agent: agent.map(Into::into),
        state,
        exited: None,
        subagents: Vec::new(),
    }
}

/// A plain agentless shell whose title is its id, in the `Unknown` state.
fn shell(id: u64) -> PaneInfo {
    pane(id, &id.to_string(), None, AgentState::Unknown)
}

/// An agent pane titled `pane-<id>`.
fn agent(id: u64, kind: &str, state: AgentState) -> PaneInfo {
    pane(id, &format!("pane-{id}"), Some(kind), state)
}

/// A tab carrying `layout` and `panes`; its active pane is the first one.
fn tab(id: u64, name: &str, active: bool, layout: Layout, panes: Vec<PaneInfo>) -> TabView {
    let active_pane = panes.first().map(|p| p.id);
    TabView {
        id: TabId(id),
        name: name.into(),
        active,
        layout: Some(layout),
        active_pane,
        panes,
    }
}

/// A workspace rooted at `/tmp/w` with `name`, optional branch, and `tabs`.
fn workspace(id: u64, name: &str, branch: Option<&str>, tabs: Vec<TabView>) -> WorkspaceView {
    WorkspaceView {
        id: WorkspaceId(id),
        name: name.into(),
        dir: "/tmp/w".to_string(),
        branch: branch.map(Into::into),
        changes: None,
        stale: false,
        parent: None,
        tabs,
    }
}

fn ctrl(c: char) -> KeyEvent {
    KeyEvent::new(KeyCode::Char(c), KeyModifiers::control())
}

fn alt(c: char) -> KeyEvent {
    KeyEvent::new(KeyCode::Char(c), KeyModifiers::alt())
}

fn plain(c: char) -> KeyEvent {
    KeyEvent::new(KeyCode::Char(c), KeyModifiers::none())
}

fn configured(text: &str) -> Config {
    Config::parse(text, &None).unwrap()
}

fn vim_config() -> Config {
    configured("preset = \"vim\"\n")
}

fn login_shell() -> String {
    "/bin/sh".into()
}

/// The directories of a made-up disk.
fn disk() -> Vec<&'static str> {
    vec![
        "/one",
        "/one/alpha",
        "/two",
        "/two/alpha",
        "/two/beta",
        "/three",
        "/three/alpha",
        "/three/beta",
        "/three/gamma",
        "/books",
        "/books/the-librarian",
        "/jj",
        "/jj/.jj",
        "/tmp/w",
        "/tmp/w/api",
    ]
}

fn real_dir(path: &str) -> Option<String> {
    let path = path.trim_end_matches('/');
    disk().iter().find(|d| **d == path).map(|d| d.to_string())
}

fn listing(base: &str) -> Vec<String> {
    let base = format!("{}/", base.trim_end_matches('/'));
    disk()
        .iter()
        .filter_map(|d| d.strip_prefix(base.as_str()))
        .filter(|name| !name.is_empty() && !name.contains('/'))
        .map(|name| name.to_string())
        .collect()
}

fn agents() -> Vec<AgentSpec> {
    let spec = |kind: &str, display: &str| AgentSpec {
        kind: kind.into(),
        display: display.into(),
        url: format!("https://github.com/{kind}/{kind}"),
        process_names: vec![kind.into()],
    };
    vec![
        spec("goose", "Goose"),
        spec("codex", "Codex"),
        spec("gemini", "Gemini CLI"),
    ]
}

fn conversations(about: Option<(String, String)>) -> Vec<ResumeSession> {
    match about {
        Some((dir, _)) if dir == "/tmp/w" => vec![ResumeSession {
            agent: "goose".into(),
            id: "sess-1".into(),
            title: Some("wire the resume rows".into()),
            age: 7200,
            cmd: vec!["goose".into(), "--resume".into(), "sess-1".into()],
        }],
        _ => Vec::new(),
    }
}

/// Tell the client what it wants to know, until it asks no more.
fn answer(app: &mut App) -> Vec<WireFrame> {
    let mut out = Vec::new();
    while let Some(query) = app.take_query() {
        match query {
            Query::List { base } => app.on_listing(&listing(&base)),
            Query::Launcher { sessions } => {
                app.on_probe(&agents(), &vec![true, false, false], &conversations(sessions));
            }
            Query::Locate { typed, completed } => {
                let fallback = completed.and_then(|c| real_dir(&c));
                out.extend(app.on_located(real_dir(&typed), fallback));
            }
            Query::DiffMarks { marks } => {
                let found = marks.iter().map(|m| real_dir(m).is_some()).collect();
                out.extend(app.on_diff_marks(&found));
            }
            Query::DestMarks { marks } => {
                let found = marks.iter().map(|m| real_dir(m).is_some()).collect();
                app.on_dest_marks(&found);
            }
            Query::DestParent { parent } => out.extend(app.on_dest_parent(Some(parent))),
        }
    }
    out
}

fn press(app: &mut App, key: KeyEvent) -> Vec<WireFrame> {
    let mut out = app.on_key(key);
    out.extend(answer(app));
    out
}

fn receive(app: &mut App, frame: ServerFrame) {
    app.handle_frame(frame);
    answer(app);
}

fn reply(app: &mut App, response: Response) {
    receive(app, ServerFrame::Response(response));
}

fn first_run(app: &mut App, dir: String) {
    app.start_first_run_prompt(dir);
    answer(app);
}

fn attached(app: &mut App) {
    reply(
        app,
        Response::Attached {
            wire_rev: 0,
            session: "tutti".into(),
            workspaces: view_one_pane(),
        },
    );
}

fn attach_with(app: &mut App, workspaces: Vec<WorkspaceView>) {
    reply(app, Response::Attached { wire_rev: 0, session: "t".into(), workspaces });
}

fn focus_sidebar(app: &mut App) {
    app.sync_sizes(Rect::new(0, 0, 100, 24));
    press(app, ctrl('b'));
    press(app, plain('w'));
}

fn snapshot(app: &mut App, rows: u16, cols: u16, bytes: &[u8]) {
    app.handle_frame(ServerFrame::PaneSnapshot(PaneData {
        pane: PaneId(1),
        rows,
        cols,
        bytes: bytes.to_vec(),
    }));
}

fn state_changed(app: &mut App, pane: PaneId, from: AgentState, to: AgentState) {
    receive(app, ServerFrame::Event(Event::StateChanged { pane, from, to }));
}

fn notify(app: &mut App, pane: PaneId, title: Option<&str>, body: Option<&str>) {
    receive(
        app,
        ServerFrame::Event(Event::PaneNotification {
            pane,
            title: title.map(Into::into),
            body: body.map(Into::into),
        }),
    );
}

/// Seed pane 1's screen with `bytes` so its declared modes drive the wheel
/// routing, and return its rect.
fn wheel_fixture(app: &mut App, bytes: &[u8]) -> Rect {
    attached(app);
    app.sync_sizes(Rect::new(0, 0, 100, 24));
    snapshot(app, 20, 60, bytes);
    app.rects
        .iter()
        .find(|(p, _)| *p == PaneId(1))
        .map(|(_, r)| *r)
        .expect("pane 1 has a rect")
}

/// The request in the single control frame of `out`.
fn only_request(out: &[WireFrame]) -> Request {
    match out {
        [WireFrame::Control(request)] => request.clone(),
        other => panic!("expected exactly one control frame, got {other:?}"),
    }
}

#[test]
fn scroll_mode_ignores_deltas() {
    let mut app = App::new();
    attached(&mut app);
    snapshot(&mut app, 24, 80, b"frozen");
    app.panes.get_mut(&1).unwrap().scroll = Some(5);
    app.handle_frame(ServerFrame::PaneDelta(PaneData {
        pane: PaneId(1),
        rows: 24,
        cols: 80,
        bytes: b"\x1b[2Jlive".to_vec(),
    }));
    assert!(app.pane_text(PaneId(1)).unwrap().contains("frozen"));
}

#[test]
fn whichkey_popup_appears_only_after_the_delay() {
    let mut app = App::new();
    attached(&mut app);
    press(&mut app, ctrl('b'));
    assert_eq!(app.mode, Mode::Prefix);
    assert!(!app.whichkey_visible(), "hidden immediately after prefix");

    app.clock.now += WHICHKEY_DELAY + 10;
    assert!(app.whichkey_visible(), "shown once the delay passes");

    // A follow-up key dispatches and dismisses the popup.
    press(&mut app, plain('z'));
    assert_eq!(app.mode, Mode::Terminal);
    assert!(!app.whichkey_visible());
}

#[test]
fn attached_with_old_wire_rev_warns_to_restart_the_daemon() {
    let mut app = App::new();
    app.place.wire_rev = 1;
    reply(
        &mut app,
        Response::Attached { session: "t".into(), workspaces: Vec::new(), wire_rev: 0 },
    );
    let warning = app.transient().unwrap_or_default().to_string();
    assert!(warning.contains("older build"), "expected skew warning, got {warning:?}");
    assert!(warning.contains("server stop"), "warning must say how to fix: {warning:?}");
}

#[test]
fn spinner_advances_only_with_a_working_agent() {
    let spinner = ['⠋', '⠙', '⠹', '⠸', '⠼', '⠴', '⠦', '⠧', '⠇', '⠏'];
    let mut app = App::new();
    attached(&mut app); // a single shell, no agent
    assert!(!app.has_working_agent());
    assert!(spinner.contains(&app.spinner_char()));

    let mut app = App::new();
    attach_with(&mut app, view_two_workspaces());
    assert!(app.has_working_agent(), "the working goose agent drives the spinner");
}

#[test]
fn spinner_frames_follow_the_clock() {
    let mut app = App::new();
    assert_eq!(app.spinner_char(), '⠋');
    app.clock.now = 250;
    assert_eq!(app.spinner_frame(), 2);
    assert_eq!(app.spinner_char(), '⠹');
    app.clock.now = 1000;
    assert_eq!(app.spinner_frame(), 0);
}

#[test]
fn status_messages_fade() {
    let mut app = App::new();
    app.note("hello".into());
    assert_eq!(app.transient(), Some("hello"));
    app.clock.now = 3999;
    assert_eq!(app.transient(), Some("hello"));
    app.clock.now = 4000;
    assert_eq!(app.transient(), None);
}

#[test]
fn d_on_a_jj_workspace_opens_an_ephemeral_diff_pane() {
    let mut app = App::new();
    let mut ws = workspace(
        1,
        "api",
        Some("main"),
        vec![tab(1, "1", true, leaf(1), vec![shell(1)])],
    );
    ws.dir = "/jj/sub".to_string();
    attach_with(&mut app, vec![ws]);
    focus_sidebar(&mut app);

    let out = press(&mut app, plain('d'));
    assert_eq!(
        out,
        vec![control(Request::PaneRun {
            tab: Some(TabId(1)),
            cmd: vec![
                "sh".into(),
                "-lc".into(),
                "jj --no-pager diff --color=always | less -R".into(),
            ],
            ephemeral: true,
        })],
        "d spawns the ephemeral jj-diff pane in the workspace's tab"
    );
    assert_eq!(app.mode, Mode::Terminal);
    assert_eq!(app.active_tab, Some(TabId(1)));
}

#[test]
fn new_project_prompt_prefills_the_common_parent_then_submits() {
    let mut app = App::new();
    attach_with(&mut app, view_two_workspaces());
    focus_sidebar(&mut app);
    press(&mut app, plain('a'));
    assert_eq!(app.mode, Mode::SidebarPrompt);
    // Both fixture workspaces live at `/tmp/w`, so the prompt prefills their
    // common parent with a trailing slash — the user types just the name.
    assert_eq!(app.sidebar_prompt(), "/tmp/w/");

    for c in "api".chars() {
        press(&mut app, plain(c));
    }
    press(&mut app, plain('x'));
    assert_eq!(app.sidebar_prompt(), "/tmp/w/apix");
    press(&mut app, KeyEvent::new(KeyCode::Backspace, KeyModifiers::none()));
    assert_eq!(app.sidebar_prompt(), "/tmp/w/api");

    let out = press(&mut app, KeyEvent::new(KeyCode::Enter, KeyModifiers::none()));
    assert_eq!(
        out,
        vec![control(Request::WorkspaceNew { dir: "/tmp/w/api".into() })],
        "submit mounts the typed directory, then the launcher picks its first pane"
    );
    assert_eq!(app.mode, Mode::Launcher);
    assert!(app.sidebar_prompt().is_empty());
    assert!(app.adopt_active_view, "the jump to the new workspace is armed");

    // esc in the launcher preserves the old outcome: a shell in the new workspace.
    let out = press(&mut app, KeyEvent::new(KeyCode::Esc, KeyModifiers::none()));
    assert_eq!(
        out,
        vec![control(Request::PaneRun {
            tab: None,
            cmd: vec![login_shell()],
            ephemeral: false,
        })],
        "esc after add-project spawns the shell into the new workspace"
    );
    assert_eq!(app.mode, Mode::Terminal);
}

#[test]
fn first_run_prompt_enter_creates_workspace_then_opens_the_launcher() {
    let mut app = App::new();
    first_run(&mut app, "/one".into());
    attach_with(&mut app, vec![]);
    let out = press(&mut app, KeyEvent::new(KeyCode::Enter, KeyModifiers::none()));
    assert_eq!(
        out,
        vec![control(Request::WorkspaceNew { dir: "/one".into() })],
        "the first-run prompt mounts the workspace, then the launcher picks its pane"
    );
    assert_eq!(app.mode, Mode::Launcher);
    assert!(app.adopt_active_view, "the jump to the new workspace is armed");

    let out = press(&mut app, KeyEvent::new(KeyCode::Esc, KeyModifiers::none()));
    assert_eq!(
        out,
        vec![control(Request::PaneRun {
            tab: None,
            cmd: vec![login_shell()],
            ephemeral: false,
        })],
    );
    assert_eq!(app.mode, Mode::Terminal);
}

#[test]
fn resolve_dir_expands_home_and_relative_paths() {
    let home = Some("/home/alice".to_string());
    let cwd = "/work/proj";
    assert_eq!(resolve_dir("~", &home, cwd), "/home/alice");
    assert_eq!(resolve_dir("~/src/api", &home, cwd), "/home/alice/src/api");
    assert_eq!(resolve_dir("sub/dir", &home, cwd), "/work/proj/sub/dir");
    assert_eq!(resolve_dir("/etc", &home, cwd), "/etc");
    assert_eq!(
        resolve_dir("~", &None, cwd),
        "/work/proj/~",
        "without a home, ~ is treated as a relative path"
    );
}

#[test]
fn complete_dirs_lists_matching_subdirs_only() {
    let names: Vec<String> = ["beta", "alpha", ".hidden", "altair"].map(String::from).to_vec();
    assert_eq!(pick_completions(&names, "al"), vec!["alpha", "altair"]);
    assert_eq!(pick_completions(&names, ""), vec!["alpha", "altair", "beta"]);
    assert_eq!(pick_completions(&names, "."), vec![".hidden"]);
}

#[test]
fn complete_dirs_caps_at_eight_and_treats_unreadable_as_empty() {
    let names: Vec<String> = (0..12).map(|i| format!("d{i:02}")).collect();
    let got = pick_completions(&names, "");
    assert_eq!(got.len(), 8, "capped at eight matches");
    assert_eq!(got[0], "d00", "the first eight, alphabetical");
    assert_eq!(got[7], "d07");
    assert!(pick_completions(&Vec::new(), "x").is_empty());
}

#[test]
fn prompt_prefill_uses_the_common_parent_of_the_workspaces() {
    let home = Some("/Users/me".to_string());
    let dirs = |list: &[&str]| -> Vec<String> { list.iter().map(|s| s.to_string()).collect() };
    // Two projects under ~/develop → their common parent, home-shortened.
    let two = dirs(&["/Users/me/develop/tutti", "/Users/me/develop/other"]);
    assert_eq!(prompt_prefill(&two, &home), "~/develop/");

    // A single project: the common parent is its own parent.
    assert_eq!(prompt_prefill(&dirs(&["/Users/me/develop/tutti"]), &home), "~/develop/");

    // No workspaces → the home fallback.
    assert_eq!(prompt_prefill(&dirs(&[]), &home), "~/");

    // Projects whose only shared ancestor is the root fall back to home.
    assert_eq!(prompt_prefill(&dirs(&["/foo/a", "/bar/b"]), &home), "~/");

    // A shared parent outside home is shown verbatim.
    assert_eq!(prompt_prefill(&dirs(&["/srv/app/a", "/srv/app/b"]), &home), "/srv/app/");
}

#[test]
fn tab_completes_to_the_selected_dir_and_opens_it() {
    let mut app = App::new();
    first_run(&mut app, "/two/a".into());
    assert_eq!(app.prompt_completions(), &["alpha".to_string()]);

    let out = press(&mut app, KeyEvent::new(KeyCode::Tab, KeyModifiers::none()));
    assert!(out.is_empty(), "Tab sends nothing to the server");
    assert_eq!(
        app.sidebar_prompt(),
        "/two/alpha/",
        "Tab fills the highlight and opens the directory with a trailing slash"
    );
}

#[test]
fn enter_submits_the_typed_input_when_it_is_a_real_dir() {
    let mut app = App::new();
    first_run(&mut app, "/two/".into());
    // Two matches; move the highlight onto the second.
    press(&mut app, KeyEvent::new(KeyCode::Down, KeyModifiers::none()));
    assert_eq!(app.prompt_selected(), 1);

    let out = press(&mut app, KeyEvent::new(KeyCode::Enter, KeyModifiers::none()));
    // The typed path exists, so Enter mounts it, not the highlight — the
    // highlight only wins when the typed path is missing.
    assert_eq!(
        out,
        vec![control(Request::WorkspaceNew { dir: "/two".into() })],
        "submit mounts the typed directory, then opens the launcher"
    );
    assert_eq!(app.mode, Mode::Launcher);
}

#[test]
fn enter_takes_the_highlight_when_the_typed_prefix_is_not_a_dir() {
    // The trap: type "the", see "the-librarian" highlighted, hit Enter —
    // it must mount the-librarian, not a dead "the" project.
    let mut app = App::new();
    first_run(&mut app, "/books/the".into());
    assert_eq!(app.prompt_completions(), &["the-librarian".to_string()]);

    let out = press(&mut app, KeyEvent::new(KeyCode::Enter, KeyModifiers::none()));
    assert_eq!(
        out,
        vec![control(Request::WorkspaceNew { dir: "/books/the-librarian".into() })],
        "enter completes to the highlighted directory and mounts it"
    );
    assert_eq!(app.mode, Mode::Launcher);
}

#[test]
fn enter_with_no_match_keeps_the_prompt_open() {
    let mut app = App::new();
    first_run(&mut app, "/one/zzz".into());
    assert!(app.prompt_completions().is_empty());

    let out = press(&mut app, KeyEvent::new(KeyCode::Enter, KeyModifiers::none()));
    assert!(out.is_empty(), "nothing is sent for a missing directory");
    assert_eq!(app.mode, Mode::SidebarPrompt);
    assert!(
        app.status.as_ref().is_some_and(|(m, _)| m.contains("no such directory")),
        "the prompt explains why nothing was mounted"
    );
}

#[test]
fn arrow_keys_move_the_completion_selection_and_typing_resets_it() {
    let mut app = App::new();
    first_run(&mut app, "/three/".into());
    assert_eq!(app.prompt_completions().len(), 3);
    assert_eq!(app.prompt_selected(), 0);

    press(&mut app, KeyEvent::new(KeyCode::Down, KeyModifiers::none()));
    press(&mut app, KeyEvent::new(KeyCode::Down, KeyModifiers::none()));
    assert_eq!(app.prompt_selected(), 2);
    press(&mut app, KeyEvent::new(KeyCode::Down, KeyModifiers::none()));
    assert_eq!(app.prompt_selected(), 2, "Down clamps at the last row");
    press(&mut app, KeyEvent::new(KeyCode::Up, KeyModifiers::none()));
    assert_eq!(app.prompt_selected(), 1);

    // Typing filters and snaps the highlight back to the best match.
    press(&mut app, plain('g'));
    assert_eq!(app.prompt_selected(), 0);
    assert_eq!(app.prompt_completions(), &["gamma".to_string()]);
}

#[test]
fn launcher_appends_harvested_resume_rows_for_the_target_workspace() {
    let mut app = App::new();
    app.place.resume_home = Some("/home/me".into());
    attach_with(&mut app, view_two_workspaces());
    focus_sidebar(&mut app);
    press(&mut app, plain('n')); // new agent in the selected (first) workspace
    assert_eq!(app.mode, Mode::Launcher);
    let rows = app.launcher_rows();
    let idx = rows
        .iter()
        .position(|r| r.name == "resume")
        .expect("a resume row for the harvested conversation");
    assert!(
        rows[idx].role.contains("wire the resume rows"),
        "the row carries the conversation's first prompt: {}",
        rows[idx].role
    );
    assert_eq!(
        rows[idx].kind,
        LaunchKind::Resume(vec!["goose".into(), "--resume".into(), "sess-1".into()])
    );
    assert!(
        rows[idx + 1..].iter().all(|r| !r.available),
        "resume sits above the dim uninstalled catalog"
    );
}

#[test]
fn scroll_keys_step_page_and_leave() {
    let mut app = App::with_config(configured("sidebar = \"off\"\n"));
    attached(&mut app);
    app.sync_sizes(Rect::new(0, 0, 80, 24));
    press(&mut app, ctrl('b'));
    press(&mut app, plain('['));
    assert_eq!(app.mode, Mode::Scroll(PaneId(1)));
    let scroll = |offset: usize| vec![control(Request::PaneScroll { pane: PaneId(1), offset })];
    let up = KeyEvent::new(KeyCode::Up, KeyModifiers::none());
    let page = KeyEvent::new(KeyCode::PageUp, KeyModifiers::none());
    let down = KeyEvent::new(KeyCode::Down, KeyModifiers::none());
    assert_eq!(press(&mut app, up), scroll(1));
    assert_eq!(press(&mut app, page), scroll(19), "a page is the pane's 18 rows");
    assert_eq!(press(&mut app, down), scroll(18));
    assert_eq!(app.transient(), Some("scroll -18 (q to exit)"));
    assert_eq!(press(&mut app, plain('q')), scroll(0));
    assert_eq!(app.mode, Mode::Terminal);
    assert_eq!(app.panes.get(&1).unwrap().scroll, None);
}

#[test]
fn wheel_down_at_the_newest_line_leaves_the_scrollback() {
    let mut app = App::new();
    let rect = wheel_fixture(&mut app, b"plain shell output");
    app.on_mouse(MouseEventKind::ScrollUp, rect.x + 2, rect.y + 2);
    assert_eq!(app.mode, Mode::Scroll(PaneId(1)));
    let out = app.on_mouse(MouseEventKind::ScrollDown, rect.x + 2, rect.y + 2);
    assert_eq!(out, vec![control(Request::PaneScroll { pane: PaneId(1), offset: 0 })]);
    assert_eq!(app.mode, Mode::Terminal);
    assert!(app.on_mouse(MouseEventKind::ScrollDown, rect.x + 2, rect.y + 2).is_empty());
}

#[test]
fn error_replies_disarm_what_waited_for_them() {
    let mut app = App::new();
    attach_with(&mut app, view_two_workspaces());
    app.adopt_active_view = true;
    app.fork.pending = true;
    app.merge_pending = Some(WorkspaceId(2));
    reply(&mut app, Response::Error { message: "no".into() });
    assert!(!app.adopt_active_view);
    assert!(!app.fork.pending);
    assert_eq!(app.merge_pending, None);
    assert_eq!(app.transient(), Some("error: no"));
}

#[test]
fn focus_cycles_through_the_tab() {
    let mut app = App::new();
    attach_with(&mut app, view_2x2());
    for expected in [3, 2, 4, 1] {
        press(&mut app, ctrl('b'));
        press(&mut app, plain('o'));
        assert_eq!(app.focused, Some(PaneId(expected)));
    }
}

#[test]
fn help_closes_on_any_key() {
    let mut app = App::new();
    attached(&mut app);
    press(&mut app, ctrl('b'));
    press(&mut app, plain('?'));
    assert_eq!(app.mode, Mode::Help);
    assert!(press(&mut app, plain('k')).is_empty());
    assert_eq!(app.mode, Mode::Terminal);
}

#[test]
fn a_narrow_terminal_keeps_the_sidebar_out_of_reach() {
    let mut app = App::new();
    attached(&mut app);
    app.sync_sizes(Rect::new(0, 0, 60, 24));
    press(&mut app, ctrl('b'));
    press(&mut app, plain('w'));
    assert_eq!(app.mode, Mode::Terminal);
    assert_eq!(app.transient(), Some("terminal too narrow for the sidebar"));
}

fn view_one_pane() -> Vec<WorkspaceView> {
    vec![workspace(
        1,
        "w",
        None,
        vec![tab(1, "1", true, leaf(1), vec![shell(1)])],
    )]
}

#[test]
fn attach_sets_focus_and_session() {
    let mut app = App::new();
    attached(&mut app);
    assert_eq!(app.session, "tutti");
    assert_eq!(app.focused, Some(PaneId(1)));
    assert_eq!(app.active_tab, Some(TabId(1)));
}

#[test]
fn snapshot_seeds_parser_then_delta_updates_it() {
    let mut app = App::new();
    attached(&mut app);
    app.handle_frame(ServerFrame::PaneSnapshot(PaneData {
        pane: PaneId(1),
        rows: 24,
        cols: 80,
        bytes: b"hello".to_vec(),
    }));
    assert!(app.pane_text(PaneId(1)).unwrap().contains("hello"));

    // A delta encoded by a vt100 parser transforms the client's screen.
    let mut src = vt100::Parser::new(24, 80, 0);
    src.process(b"hello");
    let before = src.screen().clone();
    src.process(b" world");
    let delta = src.screen().contents_diff(&before);
    app.handle_frame(ServerFrame::PaneDelta(PaneData {
        pane: PaneId(1),
        rows: 24,
        cols: 80,
        bytes: delta,
    }));
    assert!(app.pane_text(PaneId(1)).unwrap().contains("hello world"));
}

#[test]
fn typing_forwards_bytes_to_focused_pane() {
    let mut app = App::new();
    attached(&mut app);
    let out = press(&mut app, KeyEvent::new(KeyCode::Char('x'), KeyModifiers::none()));
    assert_eq!(
        out,
        vec![WireFrame::Input {
            pane: PaneId(1),
            bytes: b"x".to_vec()
        }]
    );
}

#[test]
fn prefix_split_emits_split_request() {
    let mut app = App::new();
    attached(&mut app);
    assert!(
        press(&mut app, KeyEvent::new(KeyCode::Char('b'), KeyModifiers::control()))
            .is_empty()
    );
    assert_eq!(app.mode, Mode::Prefix);
    let out = press(&mut app, KeyEvent::new(KeyCode::Char('%'), KeyModifiers::none()));
    assert_eq!(
        out,
        vec![control(Request::PaneSplit {
            pane: PaneId(1),
            direction: Direction::Horizontal,
        })]
    );
    assert_eq!(app.mode, Mode::Terminal);
}

#[test]
fn prefix_m_toggles_mouse_capture() {
    let mut app = App::new();
    attached(&mut app);
    assert!(app.mouse_capture(), "capture starts at the config default");
    press(&mut app, KeyEvent::new(KeyCode::Char('b'), KeyModifiers::control()));
    assert!(
        press(&mut app, KeyEvent::new(KeyCode::Char('m'), KeyModifiers::none()))
            .is_empty()
    );
    assert!(!app.mouse_capture(), "prefix-m releases capture");
    press(&mut app, KeyEvent::new(KeyCode::Char('b'), KeyModifiers::control()));
    press(&mut app, KeyEvent::new(KeyCode::Char('m'), KeyModifiers::none()));
    assert!(app.mouse_capture(), "prefix-m again re-grabs capture");
}

#[test]
fn prefix_kill_confirms_then_sends() {
    let mut app = App::new();
    attached(&mut app);
    press(&mut app, KeyEvent::new(KeyCode::Char('b'), KeyModifiers::control()));
    press(&mut app, KeyEvent::new(KeyCode::Char('x'), KeyModifiers::none()));
    assert_eq!(app.mode, Mode::ConfirmKill(PaneId(1)));
    assert!(
        press(&mut app, KeyEvent::new(KeyCode::Char('n'), KeyModifiers::none()))
            .is_empty()
    );
    assert_eq!(app.mode, Mode::Terminal);

    press(&mut app, KeyEvent::new(KeyCode::Char('b'), KeyModifiers::control()));
    press(&mut app, KeyEvent::new(KeyCode::Char('x'), KeyModifiers::none()));
    let out = press(&mut app, KeyEvent::new(KeyCode::Char('y'), KeyModifiers::none()));
    assert_eq!(out, vec![control(Request::PaneKill { pane: PaneId(1) })]);
}

#[test]
fn prefix_detach_quits() {
    let mut app = App::new();
    attached(&mut app);
    press(&mut app, KeyEvent::new(KeyCode::Char('b'), KeyModifiers::control()));
    let out = press(&mut app, KeyEvent::new(KeyCode::Char('d'), KeyModifiers::none()));
    assert_eq!(out, vec![control(Request::Detach)]);
    assert!(app.should_quit);
}

#[test]
fn zoom_toggles() {
    let mut app = App::new();
    attached(&mut app);
    press(&mut app, KeyEvent::new(KeyCode::Char('b'), KeyModifiers::control()));
    press(&mut app, KeyEvent::new(KeyCode::Char('z'), KeyModifiers::none()));
    assert!(app.zoom);
}

#[test]
fn sync_sizes_requests_resize_once_per_size() {
    // Sidebar off so the lone pane keeps the full width. The chrome costs
    // four rows of the pane's height: the two-row app-bar header, the footer,
    // and the pane's own title line above its frame (plus the two borders).
    let mut app = App::with_config(configured("sidebar = \"off\"\n"));
    attached(&mut app);
    let area = Rect::new(0, 0, 80, 24);
    let first = app.sync_sizes(area);
    assert_eq!(
        first,
        vec![control(Request::PaneResize {
            pane: PaneId(1),
            rows: 18,
            cols: 78,
        })]
    );
    // Same size again produces nothing.
    assert!(app.sync_sizes(area).is_empty());
}

#[test]
fn unknown_prefix_key_flashes_and_returns_to_terminal() {
    let mut app = App::new();
    attached(&mut app);
    press(&mut app, KeyEvent::new(KeyCode::Char('b'), KeyModifiers::control()));
    let out = press(&mut app, KeyEvent::new(KeyCode::Char('9'), KeyModifiers::none()));
    assert!(out.is_empty());
    assert_eq!(app.mode, Mode::Terminal);
    assert!(app.transient().unwrap().contains("unknown"));
}

fn view_two_panes() -> Vec<WorkspaceView> {
    vec![workspace(
        1,
        "w",
        None,
        vec![tab(
            1,
            "1",
            true,
            split(Direction::Horizontal, leaf(1), leaf(2)),
            vec![shell(1), shell(2)],
        )],
    )]
}

#[test]
fn focus_change_emits_panefocus_on_attach_then_dedupes() {
    let mut app = App::new();
    attached(&mut app);
    assert_eq!(
        app.focus_change(),
        Some(control(Request::PaneFocus { pane: PaneId(1) })),
        "attach should notify focus of the initial pane"
    );
    assert_eq!(app.focus_change(), None, "unchanged focus emits nothing");
}

#[test]
fn bell_rings_only_for_nonfocused_attention_transitions() {
    let mut app = App::new();
    receive(&mut app, ServerFrame::Response(Response::Attached {
            wire_rev: 0,
            session: "t".into(),
            workspaces: view_two_panes(),
        }));
    app.focused = Some(PaneId(1));

    // A non-focused pane going Working -> Blocked rings once, then clears.
    state_changed(
        &mut app,
        PaneId(2),
        AgentState::Working,
        AgentState::Blocked,
    );
    assert!(app.take_bell());
    assert!(!app.take_bell());

    // Working -> Done on a non-focused pane also rings.
    state_changed(&mut app, PaneId(2), AgentState::Working, AgentState::Done);
    assert!(app.take_bell());

    // The focused pane's own transition never rings.
    state_changed(
        &mut app,
        PaneId(1),
        AgentState::Working,
        AgentState::Blocked,
    );
    assert!(!app.take_bell());

    // A non-attention transition (not from Working) never rings.
    state_changed(&mut app, PaneId(2), AgentState::Idle, AgentState::Working);
    assert!(!app.take_bell());
}

#[test]
fn layout_change_removes_vanished_panes() {
    let mut app = App::new();
    attached(&mut app);
    receive(&mut app, ServerFrame::Event(Event::LayoutChanged { workspaces: vec![] }));
    assert!(app.panes.is_empty());
    assert_eq!(app.focused, None);
}

/// A 2x2 grid: left column stacks panes 1 (top) / 3 (bottom); right column
/// stacks 2 (top) / 4 (bottom).
fn view_2x2() -> Vec<WorkspaceView> {
    let column = |top, bottom| split(Direction::Vertical, leaf(top), leaf(bottom));
    let layout = split(Direction::Horizontal, column(1, 3), column(2, 4));
    vec![workspace(
        1,
        "w",
        None,
        vec![tab(1, "1", true, layout, (1..=4).map(shell).collect())],
    )]
}

fn view_two_tabs() -> Vec<WorkspaceView> {
    vec![workspace(
        1,
        "w",
        None,
        vec![
            tab(1, "1", true, leaf(1), vec![shell(1)]),
            tab(2, "2", false, leaf(2), vec![shell(2)]),
        ],
    )]
}

#[test]
fn ctrl_l_moves_focus_to_the_right_pane() {
    let mut app = App::new();
    attach_with(&mut app, view_2x2());
    app.sync_sizes(Rect::new(0, 0, 80, 24));
    assert_eq!(app.focused, Some(PaneId(1)));
    let out = press(&mut app, ctrl('l'));
    assert!(out.is_empty(), "focus keys never forward bytes");
    assert_eq!(app.focused, Some(PaneId(2)));
}

#[test]
fn ctrl_j_moves_focus_to_the_pane_below() {
    let mut app = App::new();
    attach_with(&mut app, view_2x2());
    app.sync_sizes(Rect::new(0, 0, 80, 24));
    press(&mut app, ctrl('j'));
    assert_eq!(app.focused, Some(PaneId(3)));
}

#[test]
fn ctrl_l_on_rightmost_pane_switches_to_next_tab() {
    let mut app = App::new();
    attach_with(&mut app, view_two_tabs());
    app.sync_sizes(Rect::new(0, 0, 80, 24));
    assert_eq!(app.active_tab, Some(TabId(1)));
    let out = press(&mut app, ctrl('l'));
    assert_eq!(out, vec![control(Request::TabSelect { id: TabId(2) })]);
    assert_eq!(app.active_tab, Some(TabId(2)));
}

#[test]
fn ctrl_h_on_leftmost_pane_switches_to_previous_tab_when_the_sidebar_is_hidden() {
    // With the sidebar off, the left edge keeps its old wrap-to-previous-tab
    // behaviour (the sidebar-visible path is covered separately below).
    let mut app = App::with_config(configured("sidebar = \"off\"\n"));
    attach_with(&mut app, view_two_tabs());
    app.sync_sizes(Rect::new(0, 0, 80, 24));
    let out = press(&mut app, ctrl('h'));
    assert_eq!(out, vec![control(Request::TabSelect { id: TabId(2) })]);
    assert_eq!(app.active_tab, Some(TabId(2)));
    assert_eq!(app.mode, Mode::Terminal, "no sidebar to step into");
}

#[test]
fn ctrl_h_at_the_left_edge_steps_into_the_sidebar_when_it_is_visible() {
    // The default sidebar is on and wide enough here, so the left edge lands
    // in the sidebar rather than wrapping to the previous tab.
    let mut app = App::new();
    attach_with(&mut app, view_two_tabs());
    app.sync_sizes(Rect::new(0, 0, 100, 24));
    assert_eq!(app.mode, Mode::Terminal);
    let out = press(&mut app, ctrl('h'));
    assert!(
        out.is_empty(),
        "stepping into the sidebar emits no tab select"
    );
    assert_eq!(app.mode, Mode::Sidebar);
    assert_eq!(app.active_tab, Some(TabId(1)), "the tab is unchanged");
}

#[test]
fn sidebar_ctrl_l_returns_to_the_pane_area_keeping_focus() {
    let mut app = App::new();
    attach_with(&mut app, view_two_workspaces());
    focus_sidebar(&mut app);
    let focused = app.focused;
    let out = press(&mut app, ctrl('l'));
    assert!(out.is_empty(), "returning to the pane emits nothing");
    assert_eq!(app.mode, Mode::Terminal);
    assert_eq!(
        app.focused, focused,
        "the previously-focused pane is restored"
    );
}

#[test]
fn sidebar_ctrl_h_wraps_to_the_previous_tab() {
    let mut app = App::new();
    attach_with(&mut app, view_two_tabs());
    focus_sidebar(&mut app);
    let out = press(&mut app, ctrl('h'));
    assert_eq!(
        out,
        vec![control(Request::TabSelect { id: TabId(2) })],
        "ctrl+h in the sidebar keeps the old previous-tab behaviour"
    );
    assert_eq!(app.mode, Mode::Terminal);
    assert_eq!(app.active_tab, Some(TabId(2)));
}

#[test]
fn ctrl_j_at_a_vertical_edge_is_a_noop() {
    let mut app = App::new();
    attach_with(&mut app, view_two_tabs());
    app.sync_sizes(Rect::new(0, 0, 80, 24));
    let out = press(&mut app, ctrl('j'));
    assert!(out.is_empty());
    assert_eq!(app.focused, Some(PaneId(1)));
    assert_eq!(app.active_tab, Some(TabId(1)));
}

#[test]
fn alt_x_confirms_kill_of_the_focused_pane() {
    let mut app = App::new();
    attached(&mut app);
    let out = press(&mut app, alt('x'));
    assert!(out.is_empty());
    assert_eq!(app.mode, Mode::ConfirmKill(PaneId(1)));
}

#[test]
fn alt_h_and_alt_l_send_horizontal_resize_requests() {
    let mut app = App::new();
    attached(&mut app);
    assert_eq!(
        press(&mut app, alt('l')),
        vec![control(Request::PaneResizeSplit {
            pane: PaneId(1),
            direction: Direction::Horizontal,
            delta: RESIZE_DELTA,
        })]
    );
    assert_eq!(
        press(&mut app, alt('h')),
        vec![control(Request::PaneResizeSplit {
            pane: PaneId(1),
            direction: Direction::Horizontal,
            delta: -RESIZE_DELTA,
        })]
    );
}

#[test]
fn alt_j_sends_a_vertical_resize_request() {
    let mut app = App::new();
    attached(&mut app);
    assert_eq!(
        press(&mut app, alt('j')),
        vec![control(Request::PaneResizeSplit {
            pane: PaneId(1),
            direction: Direction::Vertical,
            delta: RESIZE_DELTA,
        })]
    );
}

#[test]
fn ctrl_c_and_ctrl_d_forward_to_the_focused_pane() {
    let mut app = App::new();
    attached(&mut app);
    assert_eq!(
        press(&mut app, ctrl('c')),
        vec![WireFrame::Input {
            pane: PaneId(1),
            bytes: vec![0x03],
        }],
        "Ctrl+C must reach the pane so interrupts still work"
    );
    assert_eq!(
        press(&mut app, ctrl('d')),
        vec![WireFrame::Input {
            pane: PaneId(1),
            bytes: vec![0x04],
        }],
        "Ctrl+D must reach the pane so EOF still works"
    );
}

#[test]
fn esc_closes_prefix_without_acting() {
    let mut app = App::new();
    attached(&mut app);
    press(&mut app, ctrl('b'));
    let out = press(&mut app, KeyEvent::new(KeyCode::Esc, KeyModifiers::none()));
    assert!(out.is_empty());
    assert_eq!(app.mode, Mode::Terminal);
    assert!(app.prefix_since.is_none());
}

#[test]
fn prefix_pressed_twice_forwards_the_prefix_byte() {
    let mut app = App::new();
    attached(&mut app);
    press(&mut app, ctrl('b'));
    assert_eq!(
        press(&mut app, ctrl('b')),
        vec![WireFrame::Input {
            pane: PaneId(1),
            bytes: vec![0x02],
        }]
    );
    assert_eq!(app.mode, Mode::Terminal);
}

#[test]
fn vim_preset_prefix_dispatch() {
    let mut app = App::with_config(vim_config());
    attached(&mut app);

    // v → split right
    press(&mut app, ctrl('b'));
    assert_eq!(
        press(&mut app, plain('v')),
        vec![control(Request::PaneSplit {
            pane: PaneId(1),
            direction: Direction::Horizontal,
        })]
    );

    // q → kill pane (confirm), n cancels
    press(&mut app, ctrl('b'));
    press(&mut app, plain('q'));
    assert_eq!(app.mode, Mode::ConfirmKill(PaneId(1)));
    press(&mut app, plain('n'));

    // d → detach (stays reachable in vim)
    press(&mut app, ctrl('b'));
    assert_eq!(press(&mut app, plain('d')), vec![control(Request::Detach)]);
    assert!(app.should_quit);
}

/// Workspace `api` (tab 1, active, one shell) and `web` (tab 2, two agents:
/// pane 2 working, pane 3 blocked).
fn view_two_workspaces() -> Vec<WorkspaceView> {
    vec![
        workspace(
            1,
            "api",
            Some("main"),
            vec![tab(1, "1", true, leaf(1), vec![shell(1)])],
        ),
        workspace(
            2,
            "web",
            None,
            vec![tab(
                2,
                "2",
                false,
                split(Direction::Horizontal, leaf(2), leaf(3)),
                vec![
                    agent(2, "goose", AgentState::Working),
                    agent(3, "goose", AgentState::Blocked),
                ],
            )],
        ),
    ]
}

#[test]
fn sidebar_visibility_follows_config_and_width() {
    fn auto() -> App {
        App::with_config(configured("sidebar = \"auto\"\n"))
    }

    // auto: hidden for a single plain workspace.
    let mut app = auto();
    attached(&mut app);
    let (sb, panes) = app.regions(Rect::new(0, 0, 100, 24));
    assert!(sb.is_none(), "auto hides an agentless single workspace");
    assert_eq!(panes.width, 100);

    // auto: shown with multiple workspaces, panes shrink by the column width.
    let mut app = auto();
    attach_with(&mut app, view_two_workspaces());
    let (sb, panes) = app.regions(Rect::new(0, 0, 100, 24));
    assert_eq!(sb.unwrap().width, 30);
    assert_eq!(panes.width, 70);
    assert_eq!(panes.x, 30);

    // width floor suppresses it regardless of contents.
    let (sb, panes) = app.regions(Rect::new(0, 0, 79, 24));
    assert!(sb.is_none(), "below the width floor the sidebar is hidden");
    assert_eq!(panes.width, 79);

    // on (the default): shown even for a plain single workspace.
    let mut app = App::new();
    attached(&mut app);
    assert!(
        app.regions(Rect::new(0, 0, 100, 24)).0.is_some(),
        "on is the default and shows for a single workspace"
    );

    // off: hidden even with multiple workspaces.
    let mut app = App::with_config(configured("sidebar = \"off\"\n"));
    attach_with(&mut app, view_two_workspaces());
    assert!(app.regions(Rect::new(0, 0, 100, 24)).0.is_none());
}

#[test]
fn sidebar_key_focuses_and_selection_crosses_the_section_boundary() {
    let mut app = App::new();
    attach_with(&mut app, view_two_workspaces());
    focus_sidebar(&mut app);
    assert_eq!(app.mode, Mode::Sidebar);
    assert_eq!(app.sidebar_selected(), 0);

    press(&mut app, plain('j')); // second workspace — the filter follows it
    assert_eq!(app.sidebar_selected(), 1);
    press(&mut app, plain('j')); // crosses into the agents section
    assert_eq!(app.sidebar_selected(), 2);
    assert!(matches!(app.sidebar().entries[2], SidebarEntry::Agent(_)));
    press(&mut app, plain('j')); // last agent
    assert_eq!(app.sidebar_selected(), 3);
    press(&mut app, plain('j')); // crosses into the waiting section
    assert_eq!(app.sidebar_selected(), 4);
    press(&mut app, plain('j')); // clamped at the end
    assert_eq!(app.sidebar_selected(), 4);
    press(&mut app, plain('k')); // back up into the agents
    assert_eq!(app.sidebar_selected(), 3);

    // esc unfocuses; the pane keeps its own focus.
    press(&mut app, KeyEvent::new(KeyCode::Esc, KeyModifiers::none()));
    assert_eq!(app.mode, Mode::Terminal);
}

#[test]
fn every_projects_agents_stay_visible_regardless_of_the_cursor() {
    let mut app = App::new();
    attach_with(&mut app, view_two_workspaces());
    focus_sidebar(&mut app);
    // web's agents hang under web in the tree even while the cursor sits on
    // api — there is no cursor-driven filter to reshuffle the rows.
    let before = app.sidebar();
    assert_eq!(before.tree_count, 4, "api, web, and web's two agents");
    press(&mut app, plain('j')); // highlight web
    assert_eq!(
        app.sidebar().entries,
        before.entries,
        "moving the cursor never changes the tree's shape"
    );
}

#[test]
fn a_waiting_row_cursor_stays_in_the_queue_across_moves() {
    let mut view = view_two_workspaces();
    view.push(workspace(
        3,
        "zed",
        None,
        vec![tab(
            3,
            "3",
            false,
            leaf(4),
            vec![agent(4, "goose", AgentState::Blocked)],
        )],
    ));
    let mut app = App::new();
    attach_with(&mut app, view);
    focus_sidebar(&mut app);
    // Tree: api, web, web's agents 2+3, zed, zed's agent 4; waiting:
    // blocked panes 3 then 4.
    let sidebar = app.sidebar();
    assert_eq!(sidebar.tree_count, 6);
    for _ in 0..6 {
        press(&mut app, plain('j'));
    }
    let SidebarEntry::Agent(a) = &sidebar.entries[app.sidebar_selected()] else {
        panic!("expected the first waiting row");
    };
    assert_eq!(
        a.pane,
        PaneId(3),
        "blocked panes lead the queue in pane order"
    );
}

#[test]
fn enter_on_a_workspace_selects_its_tab() {
    let mut app = App::new();
    attach_with(&mut app, view_two_workspaces());
    focus_sidebar(&mut app);
    press(&mut app, plain('j')); // second workspace, jumps to tab 2
    let out = press(&mut app, KeyEvent::new(KeyCode::Enter, KeyModifiers::none()));
    assert_eq!(out, vec![control(Request::TabSelect { id: TabId(2) })]);
    assert_eq!(app.mode, Mode::Terminal);
    assert_eq!(app.active_tab, Some(TabId(2)));
}

#[test]
fn enter_on_an_agent_selects_its_tab_and_focuses_its_pane() {
    let mut app = App::new();
    attach_with(&mut app, view_two_workspaces());
    focus_sidebar(&mut app);
    press(&mut app, plain('j'));
    press(&mut app, plain('j')); // web's first agent in pane order: pane 2, tab 2
    let out = press(&mut app, KeyEvent::new(KeyCode::Enter, KeyModifiers::none()));
    assert_eq!(out, vec![control(Request::TabSelect { id: TabId(2) })]);
    assert_eq!(app.active_tab, Some(TabId(2)));
    assert_eq!(app.focused, Some(PaneId(2)));
    // The PaneFocus follows from the focus-change the event loop drains.
    assert_eq!(
        app.focus_change(),
        Some(control(Request::PaneFocus { pane: PaneId(2) })),
    );
}

#[test]
fn n_on_a_workspace_row_jumps_to_it_and_opens_the_launcher_for_it() {
    let mut app = App::new();
    attach_with(&mut app, view_two_workspaces());
    focus_sidebar(&mut app);
    press(&mut app, plain('j')); // select the second workspace (web, tab 2)
    let out = press(&mut app, plain('n'));
    assert_eq!(
        out,
        vec![control(Request::TabSelect { id: TabId(2) })],
        "n jumps to the selected workspace's tab, the same routing as Enter"
    );
    assert_eq!(app.active_tab, Some(TabId(2)));
    assert_eq!(
        app.mode,
        Mode::Launcher,
        "and lands in the launcher so the next choice runs there"
    );
    assert_eq!(
        app.launcher_title(),
        " run in web ",
        "the launcher title names the workspace it will run in"
    );
}

#[test]
fn n_on_an_agent_row_targets_the_workspace_that_owns_it() {
    let mut app = App::new();
    attach_with(&mut app, view_two_workspaces());
    focus_sidebar(&mut app);
    press(&mut app, plain('j'));
    press(&mut app, plain('j')); // first agent row, living in web's tab 2
    assert!(matches!(app.sidebar().entries[2], SidebarEntry::Agent(_)));
    let out = press(&mut app, plain('n'));
    assert_eq!(
        out,
        vec![control(Request::TabSelect { id: TabId(2) })],
        "an agent row targets the tab of the workspace that owns it"
    );
    assert_eq!(app.active_tab, Some(TabId(2)));
    assert_eq!(app.mode, Mode::Launcher);
    assert_eq!(
        app.launcher_title(),
        " run in web ",
        "and names that owning workspace in the launcher title"
    );
}

#[test]
fn sidebar_n_launch_creates_a_tab_first_so_the_agent_never_splits() {
    let mut app = App::new();
    attach_with(&mut app, view_two_workspaces());
    focus_sidebar(&mut app);
    press(&mut app, plain('j')); // select web (workspace 2)
    press(&mut app, plain('n'));
    assert_eq!(app.mode, Mode::Launcher);
    // Pin the rows so the test is independent of what PATH carries.
    app.launch.rows = vec![LauncherRow {
        name: "goose".into(),
        role: "Goose".into(),
        kind: LaunchKind::Agent("goose".into()),
        available: true,
    }];
    app.launch.selected = 0;
    let out = press(&mut app, KeyEvent::new(KeyCode::Enter, KeyModifiers::none()));
    assert_eq!(
        out,
        vec![
            control(Request::TabNew {
                workspace: Some(WorkspaceId(2)),
            }),
            control(Request::PaneRun {
                tab: None,
                cmd: vec!["goose".into()],
                ephemeral: false,
            }),
        ],
        "the run follows a TabNew on the same ordered connection, so it \
         lands in the fresh tab instead of splitting the current one"
    );
    assert_eq!(app.mode, Mode::Terminal);
}

#[test]
fn escaping_the_new_agent_launcher_disarms_the_tab_creation() {
    let mut app = App::new();
    attach_with(&mut app, view_two_workspaces());
    focus_sidebar(&mut app);
    press(&mut app, plain('n'));
    assert_eq!(app.mode, Mode::Launcher);
    press(&mut app, KeyEvent::new(KeyCode::Esc, KeyModifiers::none()));
    assert_eq!(app.mode, Mode::Terminal);
    // A later launch through another door runs plainly into the current tab.
    press(&mut app, ctrl('b'));
    press(&mut app, plain('r'));
    app.launch.rows = vec![LauncherRow {
        name: "goose".into(),
        role: "Goose".into(),
        kind: LaunchKind::Agent("goose".into()),
        available: true,
    }];
    app.launch.selected = 0;
    let out = press(&mut app, KeyEvent::new(KeyCode::Enter, KeyModifiers::none()));
    assert_eq!(
        out,
        vec![control(Request::PaneRun {
            tab: None,
            cmd: vec!["goose".into()],
            ephemeral: false,
        })],
        "esc dropped the armed TabNew; C-b r still runs in place"
    );
}

#[test]
fn d_on_a_non_jj_workspace_shows_a_transient_error() {
    let mut app = App::new();
    // view_two_workspaces roots workspaces at `/tmp/w`, which is not a jj repo.
    attach_with(&mut app, view_two_workspaces());
    focus_sidebar(&mut app);
    let out = press(&mut app, plain('d'));
    assert!(out.is_empty(), "no pane is spawned for a non-jj workspace");
    assert!(
        app.transient()
            .is_some_and(|t| t.contains("not a jj workspace")),
        "a transient error names the missing jj repo"
    );
    assert_eq!(app.mode, Mode::Sidebar, "focus stays on the sidebar");
}

#[test]
fn w_guided_create_walks_name_then_dest_and_submits() {
    let mut app = App::new();
    attach_with(&mut app, view_two_workspaces());
    focus_sidebar(&mut app); // selection rests on the api workspace (id 1)

    // Step 1: `w` opens the name field, sending nothing yet.
    let out = press(&mut app, plain('w'));
    assert!(out.is_empty(), "w opens the name prompt, sending nothing");
    assert_eq!(app.mode, Mode::SidebarWorkspaceName);
    for c in "feature".chars() {
        press(&mut app, plain(c));
    }
    assert_eq!(app.sidebar_prompt(), "feature");

    // Enter validates the name and advances to the prefilled `where:` step.
    let out = press(&mut app, KeyEvent::new(KeyCode::Enter, KeyModifiers::none()));
    assert!(out.is_empty(), "advancing to the dest step sends nothing");
    assert_eq!(app.mode, Mode::SidebarWorkspaceDest);
    assert!(
        app.sidebar_prompt().contains("w-feature"),
        "the dest step prefills the sibling default: {:?}",
        app.sidebar_prompt()
    );

    // Submitting the dest step fires the fork request carrying name + dest.
    let out = press(&mut app, KeyEvent::new(KeyCode::Enter, KeyModifiers::none()));
    assert_eq!(
        app.mode,
        Mode::Sidebar,
        "back to the sidebar awaiting reply"
    );
    assert!(app.sidebar_prompt().is_empty());
    match only_request(&out) {
        Request::WorkspaceFork {
            id,
            name,
            revision,
            dest,
        } => {
            assert_eq!(id, WorkspaceId(1));
            assert_eq!(name, "feature");
            assert_eq!(revision, None);
            assert!(
                dest.is_some(),
                "the guided destination rides on the request"
            );
        }
        other => panic!("expected WorkspaceFork, got {other:?}"),
    }
}

#[test]
fn w_on_an_agent_row_creates_under_its_owning_workspace() {
    let mut app = App::new();
    attach_with(&mut app, view_two_workspaces());
    focus_sidebar(&mut app);
    press(&mut app, plain('j')); // web workspace
    press(&mut app, plain('j')); // first agent (blocked pane 3, in tab 2 → workspace 2)
    assert!(matches!(
        app.sidebar().entries[app.sidebar_selected()],
        SidebarEntry::Agent(_)
    ));

    press(&mut app, plain('w'));
    for c in "hotfix".chars() {
        press(&mut app, plain(c));
    }
    press(&mut app, KeyEvent::new(KeyCode::Enter, KeyModifiers::none())); // to dest step
    let out = press(&mut app, KeyEvent::new(KeyCode::Enter, KeyModifiers::none()));
    match only_request(&out) {
        Request::WorkspaceFork { id, name, .. } => {
            assert_eq!(id, WorkspaceId(2), "targets the workspace owning the tab");
            assert_eq!(name, "hotfix");
        }
        other => panic!("expected WorkspaceFork, got {other:?}"),
    }
}

#[test]
fn f_is_gone_from_the_sidebar_dispatch() {
    let mut app = App::new();
    attach_with(&mut app, view_two_workspaces());
    focus_sidebar(&mut app);
    let out = press(&mut app, plain('f'));
    assert!(out.is_empty(), "f sends nothing");
    assert_eq!(app.mode, Mode::Sidebar, "f no longer opens any prompt");
}

#[test]
fn w_starts_create_rather_than_unfocusing_the_sidebar() {
    let mut app = App::new();
    attach_with(&mut app, view_two_workspaces());
    focus_sidebar(&mut app);
    press(&mut app, plain('w'));
    assert_eq!(
        app.mode,
        Mode::SidebarWorkspaceName,
        "w opens guided create; esc is the back key, not w"
    );
}

#[test]
fn workspace_name_step_rejects_a_bad_name() {
    let mut app = App::new();
    attach_with(&mut app, view_two_workspaces());
    focus_sidebar(&mut app);
    press(&mut app, plain('w'));
    for c in "bad name".chars() {
        press(&mut app, plain(c)); // the space makes the name invalid
    }
    let out = press(&mut app, KeyEvent::new(KeyCode::Enter, KeyModifiers::none()));
    assert!(out.is_empty(), "an invalid name emits no request");
    assert_eq!(
        app.mode,
        Mode::SidebarWorkspaceName,
        "step 1 stays open so the name can be fixed"
    );
    assert!(
        app.transient()
            .is_some_and(|t| t.contains("letters, digits")),
        "the transient names the naming rule"
    );
}

#[test]
fn workspace_name_step_esc_cancels_back_to_the_sidebar() {
    let mut app = App::new();
    attach_with(&mut app, view_two_workspaces());
    focus_sidebar(&mut app);
    press(&mut app, plain('w'));
    press(&mut app, plain('x'));
    let out = press(&mut app, KeyEvent::new(KeyCode::Esc, KeyModifiers::none()));
    assert!(out.is_empty(), "esc creates nothing");
    assert_eq!(app.mode, Mode::Sidebar);
    assert!(app.sidebar_prompt().is_empty());
}

#[test]
fn workspace_dest_step_esc_steps_back_to_the_name() {
    let mut app = App::new();
    attach_with(&mut app, view_two_workspaces());
    focus_sidebar(&mut app);
    press(&mut app, plain('w'));
    for c in "feature".chars() {
        press(&mut app, plain(c));
    }
    press(&mut app, KeyEvent::new(KeyCode::Enter, KeyModifiers::none())); // to dest step
    assert_eq!(app.mode, Mode::SidebarWorkspaceDest);
    let out = press(&mut app, KeyEvent::new(KeyCode::Esc, KeyModifiers::none()));
    assert!(out.is_empty(), "esc sends nothing");
    assert_eq!(
        app.mode,
        Mode::SidebarWorkspaceName,
        "esc steps back a step"
    );
    assert_eq!(
        app.sidebar_prompt(),
        "feature",
        "the name the user typed is restored"
    );
}

#[test]
fn workspace_created_jumps_to_it_and_opens_the_launcher() {
    let mut app = App::new();
    attach_with(&mut app, view_two_workspaces());
    focus_sidebar(&mut app);
    press(&mut app, plain('w'));
    for c in "feature".chars() {
        press(&mut app, plain(c));
    }
    press(&mut app, KeyEvent::new(KeyCode::Enter, KeyModifiers::none())); // to dest step
    press(&mut app, KeyEvent::new(KeyCode::Enter, KeyModifiers::none())); // submit

    // The server broadcasts the fresh view (carrying the new workspace and its
    // tab) before the WorkspaceCreated reply — mirror that ordering here.
    let mut view = view_two_workspaces();
    let mut created = workspace(
        3,
        "w-feature",
        Some("main"),
        vec![tab(3, "3", true, leaf(9), vec![shell(9)])],
    );
    created.dir = "/tmp/repo-feature".to_string();
    view.push(created);
    receive(&mut app, ServerFrame::Event(Event::LayoutChanged { workspaces: view }));
    // The old tab is untouched until the reply lands.
    assert_eq!(app.active_tab, Some(TabId(1)));

    reply(&mut app, Response::WorkspaceCreated { id: WorkspaceId(3) });
    assert_eq!(
        app.active_tab,
        Some(TabId(3)),
        "the WorkspaceCreated reply jumps to the new workspace's tab"
    );
    assert_eq!(
        app.mode,
        Mode::Launcher,
        "and opens the launcher to pick the agent to run beside its shell"
    );
    assert_eq!(
        app.launcher_title(),
        " run in w-feature ",
        "the launcher names the workspace it will run in"
    );
    // The transient names what was made and where, in the new vocabulary.
    let transient = app.transient().expect("a post-create transient is posted");
    assert!(
        transient.contains("workspace")
            && transient.contains("w-feature")
            && transient.contains("/tmp/repo-feature"),
        "the transient names the workspace and its path: {transient:?}"
    );
}

#[test]
fn m_on_a_child_workspace_confirms_merges_then_offers_cleanup() {
    let mut app = App::new();
    let mut view = view_two_workspaces();
    view[1].parent = Some(WorkspaceId(1)); // web (id 2) nested under api
    attach_with(&mut app, view);
    focus_sidebar(&mut app);
    press(&mut app, plain('j')); // select the nested child (web, id 2)

    // `m` raises the confirm, sending nothing yet.
    let out = press(&mut app, plain('m'));
    assert!(out.is_empty(), "m opens the confirm, sending nothing");
    assert_eq!(app.mode, Mode::ConfirmMerge(WorkspaceId(2)));
    assert!(
        app.transient().is_some_and(|t| t.contains("merge web")),
        "the confirm names the workspace"
    );

    // `y` dispatches the merge (push requested; the server owns the bookmark).
    let out = press(&mut app, plain('y'));
    assert_eq!(
        out,
        vec![control(Request::WorkspaceMerge {
            id: WorkspaceId(2),
            push: true,
        })],
        "y sends the merge request"
    );

    // The Merged reply flashes the outcome and raises the cleanup confirm.
    reply(&mut app, Response::Merged {
        pushed: false,
        bookmark: "main".into(),
    });
    assert_eq!(app.mode, Mode::ConfirmCleanup(WorkspaceId(2)));
    assert!(
        app.transient()
            .is_some_and(|t| t.contains("merged into main") && t.contains("clean up")),
        "the transient reports the merge and offers cleanup"
    );

    // `y` discards the now-merged workspace.
    let out = press(&mut app, plain('y'));
    assert_eq!(
        out,
        vec![control(Request::WorkspaceKill {
            id: WorkspaceId(2),
            discard: true,
        })],
        "cleanup discards the merged workspace"
    );
    assert_eq!(app.mode, Mode::Sidebar);
}

#[test]
fn merged_reply_notes_a_push_when_it_happened() {
    let mut app = App::new();
    let mut view = view_two_workspaces();
    view[1].parent = Some(WorkspaceId(1));
    attach_with(&mut app, view);
    focus_sidebar(&mut app);
    press(&mut app, plain('j'));
    press(&mut app, plain('m'));
    press(&mut app, plain('y'));
    reply(&mut app, Response::Merged {
        pushed: true,
        bookmark: "main".into(),
    });
    assert!(
        app.transient().is_some_and(|t| t.contains("and pushed")),
        "a pushed merge says so"
    );
}

#[test]
fn merge_cleanup_declined_keeps_the_workspace() {
    let mut app = App::new();
    let mut view = view_two_workspaces();
    view[1].parent = Some(WorkspaceId(1));
    attach_with(&mut app, view);
    focus_sidebar(&mut app);
    press(&mut app, plain('j'));
    press(&mut app, plain('m'));
    press(&mut app, plain('y'));
    reply(&mut app, Response::Merged {
        pushed: false,
        bookmark: "main".into(),
    });
    // `n` at the cleanup confirm keeps the workspace on disk.
    let out = press(&mut app, plain('n'));
    assert!(out.is_empty(), "declining cleanup sends nothing");
    assert_eq!(app.mode, Mode::Sidebar);
}

#[test]
fn m_on_a_project_row_flashes_only_workspaces_merge() {
    let mut app = App::new();
    attach_with(&mut app, view_two_workspaces()); // both top-level projects
    focus_sidebar(&mut app); // selection rests on api (a project, no parent)
    let out = press(&mut app, plain('m'));
    assert!(out.is_empty(), "a project row merges nothing");
    assert_eq!(app.mode, Mode::Sidebar, "no confirm is raised");
    assert!(
        app.transient()
            .is_some_and(|t| t.contains("only workspaces merge")),
        "a project row flashes the guidance"
    );
}

#[test]
fn merge_confirm_cancels_on_any_other_key() {
    let mut app = App::new();
    let mut view = view_two_workspaces();
    view[1].parent = Some(WorkspaceId(1));
    attach_with(&mut app, view);
    focus_sidebar(&mut app);
    press(&mut app, plain('j'));
    press(&mut app, plain('m'));
    let out = press(&mut app, plain('n'));
    assert!(out.is_empty(), "n merges nothing");
    assert_eq!(app.mode, Mode::Sidebar);
}

#[test]
fn u_on_a_stale_workspace_row_emits_a_workspace_update() {
    let mut app = App::new();
    let mut view = view_two_workspaces();
    view[0].stale = true; // the api workspace's working copy is stale
    attach_with(&mut app, view);
    focus_sidebar(&mut app);

    let out = press(&mut app, plain('u'));
    assert_eq!(
        out,
        vec![control(Request::WorkspaceUpdate { id: WorkspaceId(1) })],
        "u updates the selected stale workspace"
    );
    assert!(
        app.transient().is_some_and(|t| t.contains("updating")),
        "the transient names the workspace being updated"
    );
}

#[test]
fn u_on_a_non_stale_row_flashes_and_emits_nothing() {
    let mut app = App::new();
    attach_with(&mut app, view_two_workspaces()); // none stale
    focus_sidebar(&mut app);
    let out = press(&mut app, plain('u'));
    assert!(out.is_empty(), "a healthy workspace sends no update");
    assert!(
        app.transient().is_some_and(|t| t.contains("not stale")),
        "a non-stale row flashes `not stale`"
    );
}

#[test]
fn is_valid_fork_name_matches_the_server_rule() {
    assert!(is_valid_fork_name("feature-1_x"));
    assert!(is_valid_fork_name("ABC"));
    assert!(!is_valid_fork_name(""));
    assert!(!is_valid_fork_name("has space"));
    assert!(!is_valid_fork_name("has/slash"));
    assert!(!is_valid_fork_name("dots.bad"));
}

#[test]
fn x_on_a_workspace_row_opens_the_kill_confirm() {
    let mut app = App::new();
    attach_with(&mut app, view_two_workspaces());
    focus_sidebar(&mut app); // selection rests on the api workspace (id 1)
    let out = press(&mut app, plain('x'));
    assert!(out.is_empty(), "x opens the confirm, sending nothing yet");
    assert_eq!(app.mode, Mode::ConfirmKillWorkspace(WorkspaceId(1)));
    assert!(
        app.transient().is_some_and(|t| t.contains("kill api?")),
        "the confirm names the workspace and its options"
    );
}

#[test]
fn kill_confirm_y_emits_a_plain_workspace_kill() {
    let mut app = App::new();
    attach_with(&mut app, view_two_workspaces());
    focus_sidebar(&mut app);
    press(&mut app, plain('x'));
    let out = press(&mut app, plain('y'));
    assert_eq!(
        out,
        vec![control(Request::WorkspaceKill {
            id: WorkspaceId(1),
            discard: false,
        })],
        "y kills the workspace without discarding its checkout"
    );
    assert_eq!(app.mode, Mode::Sidebar, "focus returns to the sidebar");
}

#[test]
fn kill_confirm_shift_d_discards_the_forks_checkout() {
    let mut app = App::new();
    attach_with(&mut app, view_two_workspaces());
    focus_sidebar(&mut app);
    press(&mut app, plain('x'));
    let out = press(&mut app, plain('D'));
    assert_eq!(
        out,
        vec![control(Request::WorkspaceKill {
            id: WorkspaceId(1),
            discard: true,
        })],
        "D kills and discards; the server refuses discard for a non-fork"
    );
}

#[test]
fn kill_confirm_cancels_on_esc_or_any_other_key() {
    let mut app = App::new();
    attach_with(&mut app, view_two_workspaces());
    focus_sidebar(&mut app);

    press(&mut app, plain('x'));
    let out = press(&mut app, KeyEvent::new(KeyCode::Esc, KeyModifiers::none()));
    assert!(out.is_empty(), "esc kills nothing");
    assert_eq!(app.mode, Mode::Sidebar);

    press(&mut app, plain('x'));
    let out = press(&mut app, plain('n'));
    assert!(out.is_empty(), "any non-y/D key cancels");
    assert_eq!(app.mode, Mode::Sidebar);
}

#[test]
fn x_on_an_agent_row_kills_only_that_pane() {
    let mut app = App::new();
    attach_with(&mut app, view_two_workspaces());
    focus_sidebar(&mut app);
    press(&mut app, plain('j')); // web workspace
    press(&mut app, plain('j')); // web's first agent (pane 2, tab 2 → workspace 2)
    press(&mut app, plain('x'));
    assert_eq!(
        app.mode,
        Mode::ConfirmKillAgent(PaneId(2)),
        "x on an agent row confirms killing the pane, never the workspace"
    );
    assert!(
        app.transient()
            .is_some_and(|t| t.contains("kill goose · web?")),
        "the confirm names the agent and its project"
    );
    let out = press(&mut app, plain('y'));
    assert_eq!(
        out,
        vec![control(Request::PaneKill { pane: PaneId(2) })],
        "y kills the agent's pane only"
    );
    assert_eq!(app.mode, Mode::Sidebar, "focus returns to the sidebar");
}

#[test]
fn agent_kill_confirm_cancels_on_any_other_key() {
    let mut app = App::new();
    attach_with(&mut app, view_two_workspaces());
    focus_sidebar(&mut app);
    press(&mut app, plain('j'));
    press(&mut app, plain('j'));
    press(&mut app, plain('x'));
    let out = press(&mut app, KeyEvent::new(KeyCode::Esc, KeyModifiers::none()));
    assert!(out.is_empty(), "esc kills nothing");
    assert_eq!(app.mode, Mode::Sidebar);
}

#[test]
fn selection_follows_the_row_identity_across_a_view_change() {
    let mut app = App::new();
    attach_with(&mut app, view_two_workspaces());
    focus_sidebar(&mut app);
    press(&mut app, plain('j')); // the web workspace row

    // A new workspace lands ahead of web in the view; the cursor must stay
    // on web, not on whatever now occupies its old index.
    let mut view = view_two_workspaces();
    view.insert(
        1,
        workspace(
            3,
            "mid",
            None,
            vec![tab(3, "3", false, leaf(9), vec![shell(9)])],
        ),
    );
    receive(&mut app, ServerFrame::Event(Event::LayoutChanged { workspaces: view }));
    let sidebar = app.sidebar();
    let SidebarEntry::Workspace(w) = &sidebar.entries[app.sidebar_selected()] else {
        panic!("expected a workspace row");
    };
    assert_eq!(w.name, "web", "the cursor followed the row's identity");
}

#[test]
fn a_killed_agents_cursor_falls_to_its_project_row() {
    let mut app = App::new();
    attach_with(&mut app, view_two_workspaces());
    focus_sidebar(&mut app);
    press(&mut app, plain('j')); // web row
    press(&mut app, plain('j')); // web's first agent (pane 2)

    // The agent dies: its row vanishes and the sidebar reshuffles. The
    // cursor falls to the agent's project row — never to the unrelated row
    // that now sits at the old index.
    let mut view = view_two_workspaces();
    view[1].tabs[0].layout = Some(leaf(3));
    view[1].tabs[0].panes = vec![agent(3, "goose", AgentState::Blocked)];
    receive(&mut app, ServerFrame::Event(Event::LayoutChanged { workspaces: view }));
    let sidebar = app.sidebar();
    let SidebarEntry::Workspace(w) = &sidebar.entries[app.sidebar_selected()] else {
        panic!("expected the project row, got an agent row");
    };
    assert_eq!(
        w.name, "web",
        "the killed agent's cursor lands on its project"
    );
}

#[test]
fn confirm_y_after_the_workspace_vanished_sends_nothing() {
    let mut app = App::new();
    attach_with(&mut app, view_two_workspaces());
    focus_sidebar(&mut app);
    press(&mut app, plain('x')); // confirm kill of api (id 1)

    // api dies under the confirm (another client, a crash) — y must not
    // fire a kill at the stale id.
    let mut view = view_two_workspaces();
    view.remove(0);
    receive(&mut app, ServerFrame::Event(Event::LayoutChanged { workspaces: view }));
    let out = press(&mut app, plain('y'));
    assert!(out.is_empty(), "no kill is sent for a vanished workspace");
    assert!(
        app.transient().is_some_and(|t| t.contains("gone")),
        "the miss is reported, not swallowed"
    );
}

#[test]
fn the_sidebar_holds_steady_during_a_kill_confirm() {
    let mut app = App::new();
    attach_with(&mut app, view_two_workspaces());
    focus_sidebar(&mut app);
    press(&mut app, plain('j')); // web row
    let before = app.sidebar();
    press(&mut app, plain('x'));
    assert!(matches!(app.mode, Mode::ConfirmKillWorkspace(_)));
    assert_eq!(
        app.sidebar().entries,
        before.entries,
        "opening the confirm must not reshuffle the rows under the question"
    );
    assert!(
        app.sidebar_focused(),
        "the confirm keeps sidebar focus so the highlight stays visible"
    );
}

#[test]
fn capital_y_confirms_a_kill() {
    let mut app = App::new();
    attach_with(&mut app, view_two_workspaces());
    focus_sidebar(&mut app);
    press(&mut app, plain('x'));
    let out = press(&mut app, plain('Y'));
    assert_eq!(
        out,
        vec![control(Request::WorkspaceKill {
            id: WorkspaceId(1),
            discard: false,
        })],
        "a shifted Y is a confirm, not a silent cancel"
    );
}

#[test]
fn a_shorter_view_clamps_the_sidebar_selection() {
    let mut app = App::new();
    attach_with(&mut app, view_two_workspaces());
    focus_sidebar(&mut app);
    press(&mut app, plain('j'));
    press(&mut app, plain('j'));
    press(&mut app, plain('j')); // the last entry (the working agent)
    assert_eq!(app.sidebar_selected(), 3);

    // A killed workspace shrinks the view to a single agentless row.
    receive(&mut app, ServerFrame::Event(Event::LayoutChanged {
            workspaces: view_one_pane(),
        }));
    assert_eq!(
        app.sidebar_selected(),
        0,
        "the selection clamps onto the surviving row"
    );
}

#[test]
fn a_opens_the_project_prompt_when_no_pane_can_take_input() {
    let mut app = App::new();
    assert_eq!(app.mode, Mode::Terminal);
    press(&mut app, KeyEvent::new(KeyCode::Char('a'), KeyModifiers::none()));
    assert!(
        app.sidebar_prompt_active(),
        "with no panes, the dashboard's `a` must work from terminal mode"
    );
}

#[test]
fn first_run_prompt_arms_prefilled_with_cwd() {
    let mut app = App::new();
    first_run(&mut app, "/home/alice/proj".into());
    // Attaching an empty session leaves the prompt engaged and prefilled.
    attach_with(&mut app, vec![]);
    assert!(
        app.sidebar_prompt_active(),
        "the first-run prompt is active"
    );
    assert_eq!(app.sidebar_prompt(), "/home/alice/proj");
    assert!(app.sidebar_focused());
}

#[test]
fn first_run_prompt_esc_creates_nothing_and_drops_to_the_sidebar() {
    let mut app = App::new();
    first_run(&mut app, "/tmp/proj".into());
    attach_with(&mut app, vec![]);
    let out = press(&mut app, KeyEvent::new(KeyCode::Esc, KeyModifiers::none()));
    assert!(out.is_empty(), "esc creates nothing");
    assert_eq!(app.mode, Mode::Sidebar);
    assert!(app.sidebar_prompt().is_empty());
}

#[test]
fn new_workspace_prompt_esc_cancels_back_to_the_sidebar() {
    let mut app = App::new();
    attach_with(&mut app, view_two_workspaces());
    focus_sidebar(&mut app);
    press(&mut app, plain('a'));
    press(&mut app, plain('n'));
    let out = press(&mut app, KeyEvent::new(KeyCode::Esc, KeyModifiers::none()));
    assert!(out.is_empty());
    assert_eq!(app.mode, Mode::Sidebar);
    assert!(app.sidebar_prompt().is_empty());
}

#[test]
fn panes_offset_by_the_sidebar_and_mouse_hit_tests_past_it() {
    let mut app = App::new();
    attach_with(&mut app, view_two_workspaces());
    app.active_tab = Some(TabId(2)); // the two-pane workspace
    app.sync_sizes(Rect::new(0, 0, 100, 24));

    let left = app.rects.iter().find(|(p, _)| *p == PaneId(2)).unwrap().1;
    assert_eq!(left.x, 30, "the leftmost pane sits right of the sidebar");

    assert!(
        app.pane_at(32, 5).is_some(),
        "clicks past the sidebar and below the tab bar hit a pane"
    );
    assert!(
        app.pane_at(5, 5).is_none(),
        "clicks inside the sidebar miss the panes"
    );
}

#[test]
fn clicking_a_sidebar_entry_focuses_and_jumps() {
    let mut app = App::new();
    attach_with(&mut app, view_two_workspaces());
    app.sync_sizes(Rect::new(0, 0, 100, 24));
    // The sidebar frame starts at content row 2 (below the app-bar header).
    // Within it: projects header (border) rel 0, workspace 0 rel 1-2,
    // workspace 1 rel 3-4 — so screen row 2 + 3 = 5 hits the second workspace.
    let out = app.on_mouse(MouseEventKind::Down(MouseButton::Left), 2, 5);
    assert_eq!(out, vec![control(Request::TabSelect { id: TabId(2) })]);
    assert_eq!(app.active_tab, Some(TabId(2)));
}

#[test]
fn clicking_the_sidebar_background_focuses_it_without_jumping() {
    let mut app = App::new();
    attach_with(&mut app, view_two_workspaces());
    app.sync_sizes(Rect::new(0, 0, 100, 24));
    // A blank filler row deep in the frame (past the entries, above the
    // bottom border) is background — not a header or an entry.
    let out = app.on_mouse(MouseEventKind::Down(MouseButton::Left), 2, 20);
    assert!(out.is_empty(), "a background click jumps nowhere");
    assert!(app.sidebar_focused(), "but it does focus the sidebar");
}

#[test]
fn clicking_a_section_header_toggles_its_collapse() {
    let mut app = App::new();
    attach_with(&mut app, view_two_workspaces());
    app.sync_sizes(Rect::new(0, 0, 100, 24));
    // The projects header is the sidebar's top border, at screen row 2.
    assert!(!app.sidebar().projects_collapsed);
    let out = app.on_mouse(MouseEventKind::Down(MouseButton::Left), 2, 2);
    assert!(out.is_empty(), "toggling a section jumps nowhere");
    assert!(
        app.sidebar().projects_collapsed,
        "clicking the projects header collapses it"
    );
    assert!(app.sidebar_focused(), "and focuses the sidebar");
    // Clicking it again expands.
    app.on_mouse(MouseEventKind::Down(MouseButton::Left), 2, 2);
    assert!(!app.sidebar().projects_collapsed);
}

#[test]
fn clicking_a_tab_chip_selects_it_and_plus_creates_a_tab() {
    let mut app = App::new();
    attach_with(&mut app, view_two_tabs());
    app.sync_sizes(Rect::new(0, 0, 100, 24));
    // The tab segments are right-aligned on the app-bar row (row 0). Labels
    // "[1 1]" "[2 2]" "[+]" total 15 cols with separators, so they start at
    // col 85: "[1 1]" 85-89, "[2 2]" 91-95, "[+]" 97-99.
    let out = app.on_mouse(MouseEventKind::Down(MouseButton::Left), 93, 0);
    assert_eq!(out, vec![control(Request::TabSelect { id: TabId(2) })]);
    assert_eq!(app.active_tab, Some(TabId(2)));

    let out = app.on_mouse(MouseEventKind::Down(MouseButton::Left), 98, 0);
    assert_eq!(
        out,
        vec![control(Request::TabNew {
            workspace: Some(WorkspaceId(1)),
        })],
        "the + segment creates a tab in the active workspace"
    );
}

#[test]
fn wheel_over_an_alt_screen_pane_sends_arrows_instead_of_freezing() {
    let mut app = App::new();
    let rect = wheel_fixture(&mut app, b"\x1b[?1049h");
    let out = app.on_mouse(MouseEventKind::ScrollUp, rect.x + 5, rect.y + 3);
    assert_eq!(
        out,
        vec![WireFrame::Input {
            pane: PaneId(1),
            bytes: b"\x1b[A".repeat(MOUSE_SCROLL_STEP),
        }],
        "a full-screen TUI has no scrollback; the wheel becomes arrows"
    );
    assert_eq!(
        app.mode,
        Mode::Terminal,
        "and never freezes into scroll mode"
    );
    let out = app.on_mouse(MouseEventKind::ScrollDown, rect.x + 5, rect.y + 3);
    assert_eq!(
        out,
        vec![WireFrame::Input {
            pane: PaneId(1),
            bytes: b"\x1b[B".repeat(MOUSE_SCROLL_STEP),
        }]
    );
}

#[test]
fn wheel_over_a_mouse_reporting_pane_forwards_the_event() {
    let mut app = App::new();
    // Mouse press reporting on, SGR encoding on.
    let rect = wheel_fixture(&mut app, b"\x1b[?1000h\x1b[?1006h");
    let out = app.on_mouse(MouseEventKind::ScrollUp, rect.x + 5, rect.y + 3);
    assert_eq!(
        out,
        vec![WireFrame::Input {
            pane: PaneId(1),
            bytes: b"\x1b[<64;5;3M".to_vec(),
        }],
        "the program asked for mouse events, so it gets the wheel itself"
    );
    assert_eq!(app.mode, Mode::Terminal);
}

#[test]
fn wheel_over_a_primary_screen_pane_still_browses_scrollback() {
    let mut app = App::new();
    let rect = wheel_fixture(&mut app, b"plain shell output");
    let out = app.on_mouse(MouseEventKind::ScrollUp, rect.x + 2, rect.y + 2);
    assert_eq!(
        out,
        vec![control(Request::PaneScroll {
            pane: PaneId(1),
            offset: MOUSE_SCROLL_STEP,
        })]
    );
    assert_eq!(app.mode, Mode::Scroll(PaneId(1)));
}

fn view_one_exited_agent() -> Vec<WorkspaceView> {
    let mut view = view_one_pane();
    view[0].tabs[0].panes[0].agent = Some("goose".into());
    view[0].tabs[0].panes[0].exited = Some(0);
    view
}

#[test]
fn r_on_an_exited_pane_relaunches_into_its_tab_and_drops_the_corpse() {
    let mut app = App::new();
    attach_with(&mut app, view_one_exited_agent());
    assert_eq!(app.focused, Some(PaneId(1)));
    let out = press(&mut app, plain('r'));
    assert!(out.is_empty(), "r opens the launcher, sending nothing yet");
    assert_eq!(app.mode, Mode::Launcher);
    app.launch.rows = vec![LauncherRow {
        name: "resume".into(),
        role: "goose · now · fix the thing".into(),
        kind: LaunchKind::Resume(vec!["goose".into(), "--resume".into(), "abc".into()]),
        available: true,
    }];
    app.launch.selected = 0;
    let out = press(&mut app, KeyEvent::new(KeyCode::Enter, KeyModifiers::none()));
    assert_eq!(
        out,
        vec![
            control(Request::PaneRun {
                tab: Some(TabId(1)),
                cmd: vec!["goose".into(), "--resume".into(), "abc".into()],
                ephemeral: false,
            }),
            control(Request::PaneKill { pane: PaneId(1) }),
        ],
        "the pick runs in the corpse's tab, then the corpse goes"
    );
}

#[test]
fn x_on_an_exited_pane_closes_it_outright() {
    let mut app = App::new();
    attach_with(&mut app, view_one_exited_agent());
    let out = press(&mut app, plain('x'));
    assert_eq!(
        out,
        vec![control(Request::PaneKill { pane: PaneId(1) })],
        "a corpse needs no kill confirm"
    );
}

#[test]
fn r_at_a_live_pane_still_types_into_it() {
    let mut app = App::new();
    attached(&mut app);
    let out = press(&mut app, plain('r'));
    assert_eq!(
        out,
        vec![WireFrame::Input {
            pane: PaneId(1),
            bytes: b"r".to_vec(),
        }],
        "the corpse keys only intercept once the child is gone"
    );
}

#[test]
fn background_notification_marks_flashes_and_reemits() {
    let mut app = App::new();
    attach_with(&mut app, view_two_workspaces());
    assert_eq!(app.focused, Some(PaneId(1)), "the shell pane is focused");

    notify(&mut app, PaneId(2), None, Some("build done"));
    assert!(app.is_notified(PaneId(2)), "the background pane is marked");
    assert!(
        app.transient().unwrap().contains("build done"),
        "the status bar flashes the body"
    );
    let out = app.take_terminal_out();
    assert_eq!(out.len(), 2, "a bell and an OSC 9 re-emit");
    assert_eq!(out[0], vec![0x07]);
    assert!(out[1].starts_with(b"\x1b]9;") && out[1].ends_with(&[0x07]));
    assert!(
        app.take_terminal_out().is_empty(),
        "draining clears the queue"
    );
}

#[test]
fn bare_bell_notification_reemits_a_bell_only() {
    let mut app = App::new();
    attach_with(&mut app, view_two_workspaces());
    notify(&mut app, PaneId(2), None, None);
    assert!(app.is_notified(PaneId(2)));
    assert_eq!(app.transient().unwrap(), "bell");
    assert_eq!(
        app.take_terminal_out(),
        vec![vec![0x07]],
        "no OSC 9 without text"
    );
}

#[test]
fn notification_on_the_focused_pane_is_ignored() {
    let mut app = App::new();
    attach_with(&mut app, view_two_workspaces());
    app.active_tab = Some(TabId(2));
    app.focused = Some(PaneId(2));
    notify(&mut app, PaneId(2), Some("Agent"), Some("hi"));
    assert!(!app.is_notified(PaneId(2)), "focused pane is not marked");
    assert!(app.transient().is_none(), "no flash for the focused pane");
    assert!(
        app.take_terminal_out().is_empty(),
        "no re-emit for the focused pane"
    );
}

#[test]
fn notification_mark_clears_when_the_pane_gains_focus() {
    let mut app = App::new();
    attach_with(&mut app, view_two_workspaces());
    notify(&mut app, PaneId(3), None, Some("blocked"));
    assert!(app.is_notified(PaneId(3)));

    focus_sidebar(&mut app);
    press(&mut app, plain('j'));
    press(&mut app, plain('j')); // web's first agent (pane 2)
    press(&mut app, plain('j')); // its second: the blocked pane 3
    press(&mut app, KeyEvent::new(KeyCode::Enter, KeyModifiers::none()));
    assert_eq!(app.focused, Some(PaneId(3)));
    let _ = app.focus_change();
    assert!(
        !app.is_notified(PaneId(3)),
        "gaining focus clears the pane's mark"
    );
}

#[test]
fn notifications_disabled_still_marks_the_sidebar() {
    let mut app = App::with_config(configured("notifications = false\n"));
    attach_with(&mut app, view_two_workspaces());
    notify(&mut app, PaneId(2), None, Some("done"));
    assert!(app.is_notified(PaneId(2)), "the sidebar mark is always on");
    assert!(app.transient().is_none(), "no flash when disabled");
    assert!(
        app.take_terminal_out().is_empty(),
        "no re-emit when disabled"
    );
}

#[test]
fn notification_text_combines_title_and_body() {
    assert_eq!(notification_text(None, None), None);
    assert_eq!(notification_text(None, Some("b".into())), Some("b".into()));
    assert_eq!(notification_text(Some("t".into()), None), Some("t".into()));
    assert_eq!(
        notification_text(Some("t".into()), Some("b".into())),
        Some("t: b".into())
    );
}

#[test]
fn osc9_wraps_text_in_the_escape() {
    assert_eq!(osc9("hi"), b"\x1b]9;hi\x07".to_vec());
}

#[test]
fn prefix_r_opens_the_launcher_in_both_presets() {
    for cfg in [Config::default(), vim_config()] {
        let mut app = App::with_config(cfg);
        attached(&mut app);
        press(&mut app, ctrl('b'));
        let out = press(&mut app, plain('r'));
        assert!(out.is_empty(), "opening the launcher emits no frames");
        assert_eq!(app.mode, Mode::Launcher);
        // The rows are the registry agents plus the shell and command entries.
        let names: Vec<&str> = app
            .launcher_rows()
            .iter()
            .map(|r| r.name.as_str())
            .collect();
        assert!(names.contains(&"goose"), "registry agents seed the rows");
        assert!(names.contains(&"shell"), "the shell row is always present");
        assert!(names.contains(&"command…"), "the command row too");
    }
}

#[test]
fn launcher_enter_on_an_agent_row_emits_a_panerun() {
    let mut app = App::new();
    attached(&mut app);
    // Drive the launcher into a known state with one available agent row.
    app.launch.rows = vec![LauncherRow {
        name: "goose".into(),
        role: "Goose".into(),
        kind: LaunchKind::Agent("goose".into()),
        available: true,
    }];
    app.launch.selected = 0;
    app.mode = Mode::Launcher;
    let out = press(&mut app, KeyEvent::new(KeyCode::Enter, KeyModifiers::none()));
    assert_eq!(
        out,
        vec![control(Request::PaneRun {
            tab: None,
            cmd: vec!["goose".into()],
            ephemeral: false,
        })],
        "enter launches the selected agent in a new pane"
    );
    assert_eq!(app.mode, Mode::Terminal);
}

#[test]
fn launcher_enter_on_a_resume_row_emits_the_resume_argv() {
    let mut app = App::new();
    attached(&mut app);
    app.launch.rows = vec![LauncherRow {
        name: "resume".into(),
        role: "goose · 2h · fix the sidebar".into(),
        kind: LaunchKind::Resume(vec!["goose".into(), "--resume".into(), "abc".into()]),
        available: true,
    }];
    app.launch.selected = 0;
    app.mode = Mode::Launcher;
    let out = press(&mut app, KeyEvent::new(KeyCode::Enter, KeyModifiers::none()));
    assert_eq!(
        out,
        vec![control(Request::PaneRun {
            tab: None,
            cmd: vec!["goose".into(), "--resume".into(), "abc".into()],
            ephemeral: false,
        })],
        "enter resumes the conversation in a new pane"
    );
    assert_eq!(app.mode, Mode::Terminal);
}

#[test]
fn launcher_quick_select_number_launches_the_shell_row() {
    let mut app = App::new();
    attached(&mut app);
    app.open_launcher(false, None, None);
    answer(&mut app);
    // The shell row follows the installed agents; find it, whatever this
    // machine has on PATH, and launch it by number.
    let shell_number = app
        .launcher_rows()
        .iter()
        .position(|r| matches!(r.kind, LaunchKind::Shell))
        .unwrap()
        + 1;
    let digit = char::from_digit(shell_number as u32, 10).unwrap();
    let out = press(&mut app, plain(digit));
    assert_eq!(
        out,
        vec![control(Request::PaneRun {
            tab: None,
            cmd: vec![login_shell()],
            ephemeral: false,
        })],
        "the shell row's number launches it outright"
    );
    assert_eq!(app.mode, Mode::Terminal);
}

#[test]
fn launcher_command_row_opens_an_input_that_runs_via_shell_lc() {
    let mut app = App::new();
    attached(&mut app);
    app.open_launcher(false, None, None);
    answer(&mut app);
    // Find the command row, whatever this machine has on PATH.
    let command_number = app
        .launcher_rows()
        .iter()
        .position(|r| matches!(r.kind, LaunchKind::Command))
        .unwrap()
        + 1;
    let digit = char::from_digit(command_number as u32, 10).unwrap();
    let out = press(&mut app, plain(digit));
    assert!(out.is_empty(), "opening the command input emits nothing");
    assert_eq!(app.mode, Mode::LauncherCommand);

    for c in "npm test".chars() {
        press(&mut app, plain(c));
    }
    assert_eq!(app.launcher_command(), "npm test");
    let out = press(&mut app, KeyEvent::new(KeyCode::Enter, KeyModifiers::none()));
    assert_eq!(
        out,
        vec![control(Request::PaneRun {
            tab: None,
            cmd: vec![login_shell(), "-lc".into(), "npm test".into()],
            ephemeral: false,
        })],
        "the command runs through the login shell's -lc"
    );
    assert_eq!(app.mode, Mode::Terminal);
}

#[test]
fn launcher_command_esc_backs_up_to_the_picker() {
    let mut app = App::new();
    attached(&mut app);
    app.open_launcher(false, None, None);
    answer(&mut app);
    let command_number = app
        .launcher_rows()
        .iter()
        .position(|r| matches!(r.kind, LaunchKind::Command))
        .unwrap()
        + 1;
    let digit = char::from_digit(command_number as u32, 10).unwrap();
    press(&mut app, plain(digit));
    press(&mut app, plain('x'));
    assert_eq!(app.mode, Mode::LauncherCommand);
    let out = press(&mut app, KeyEvent::new(KeyCode::Esc, KeyModifiers::none()));
    assert!(out.is_empty());
    assert_eq!(app.mode, Mode::Launcher, "esc steps back to the picker");
    assert!(app.launcher_command().is_empty());
}

#[test]
fn launcher_esc_from_prefix_r_closes_without_spawning() {
    let mut app = App::new();
    attached(&mut app);
    press(&mut app, ctrl('b'));
    press(&mut app, plain('r'));
    assert_eq!(app.mode, Mode::Launcher);
    let out = press(&mut app, KeyEvent::new(KeyCode::Esc, KeyModifiers::none()));
    assert!(
        out.is_empty(),
        "esc from a prefix-r launcher spawns nothing"
    );
    assert_eq!(app.mode, Mode::Terminal);
}

#[test]
fn launcher_jk_skips_unavailable_agent_rows() {
    let mut app = App::new();
    attached(&mut app);
    app.launch.rows = vec![
        LauncherRow {
            name: "up".into(),
            role: "".into(),
            kind: LaunchKind::Agent("up".into()),
            available: true,
        },
        LauncherRow {
            name: "gone".into(),
            role: "".into(),
            kind: LaunchKind::Agent("gone".into()),
            available: false,
        },
        LauncherRow {
            name: "down".into(),
            role: "".into(),
            kind: LaunchKind::Agent("down".into()),
            available: true,
        },
    ];
    app.launch.selected = 0;
    app.mode = Mode::Launcher;
    press(&mut app, plain('j'));
    assert_eq!(app.launcher_selected(), 2, "j skips the unavailable row");
    press(&mut app, plain('k'));
    assert_eq!(app.launcher_selected(), 0, "k skips it too");
}

fn output(app: &mut App, bytes: &[u8]) {
    app.handle_frame(ServerFrame::PaneDelta(PaneData {
        pane: PaneId(1),
        rows: 0,
        cols: 0,
        bytes: bytes.to_vec(),
    }));
}

fn shown(app: &App) -> String {
    app.pane_text(PaneId(1)).unwrap()
}

#[test]
fn frames_that_do_not_fit_are_left_out() {
    let mut app = App::new();
    attached(&mut app);
    let data = |rows, cols, bytes: &[u8]| PaneData {
        pane: PaneId(1),
        rows,
        cols,
        bytes: bytes.to_vec(),
    };
    assert!(!app.try_frame(ServerFrame::PaneSnapshot(data(0, 10, b"a"))), "no rows");
    assert_eq!(shown(&app), "");
    assert!(app.try_frame(ServerFrame::PaneSnapshot(data(2, 10, b"a"))));
    assert!(app.try_frame(ServerFrame::PaneDelta(data(0, 0, b"b"))));
    assert_eq!(shown(&app), "ab");
    assert!(App::accepts(&ServerFrame::Unread));
}

#[test]
fn a_screen_of_one_row_does_not_wrap() {
    let mut app = App::new();
    attached(&mut app);
    snapshot(&mut app, 1, 5, b"abcdef");
    assert_eq!(shown(&app), "abcde", "the last column is filled, and no more");
    output(&mut app, b"\rX");
    assert_eq!(shown(&app), "Xbcde");
    output(&mut app, b"\x1b[4Cyz\x1b[1;2H!");
    assert_eq!(shown(&app), "X!cdy", "escape sequences are taken in at the end of the row");

    snapshot(&mut app, 1, 5, "\x1b[?25h\x1b[m\x1b[H\x1b[Jabcd漢".as_bytes());
    assert_eq!(shown(&app), "abcd", "one column is too little");
    snapshot(&mut app, 1, 6, "abcd漢!\x1b]0;title\x07\r-".as_bytes());
    assert_eq!(shown(&app), "-bcd漢");
    snapshot(&mut app, 1, 3, "ab│".as_bytes());
    assert_eq!(shown(&app), "ab│");
    snapshot(&mut app, 1, 3, "\n\nab".as_bytes());
    assert_eq!(shown(&app), "ab");
}

#[test]
fn sequences_may_be_split_between_frames() {
    let mut app = App::new();
    attached(&mut app);
    snapshot(&mut app, 1, 3, b"abc\x1b[1");
    output(&mut app, b";1Hz");
    assert_eq!(shown(&app), "zbc");
    snapshot(&mut app, 2, 1, &[0xc3]);
    output(&mut app, &[0xa9]);
    assert_eq!(shown(&app), "é");
    snapshot(&mut app, 1, 2, &[b'a', 0xe2, 0x94]);
    output(&mut app, &[0x82, b'b']);
    assert_eq!(shown(&app), "a│");
}

#[test]
fn narrow_screens_take_narrow_characters() {
    let mut app = App::new();
    attached(&mut app);
    snapshot(&mut app, 3, 1, "éx".as_bytes());
    assert_eq!(shown(&app), "éx", "the row wraps");
    snapshot(&mut app, 3, 1, "⠋\u{e0b0}".as_bytes());
    assert_eq!(shown(&app), "⠋\u{e0b0}");
    snapshot(&mut app, 2, 1, "漢".as_bytes());
    assert_eq!(shown(&app), "");
    output(&mut app, b"a");
    assert_eq!(shown(&app), "a");
    snapshot(&mut app, 2, 2, "\u{17d8}x漢".as_bytes());
    assert_eq!(shown(&app), "x\n漢", "the widest character takes three columns");
    snapshot(&mut app, 2, 3, "\u{17d8}".as_bytes());
    assert_eq!(shown(&app), "\u{17d8}");
    snapshot(&mut app, 2, 0, b"a\r\n\t\x1b[H\x07");
    assert_eq!(shown(&app), "", "there are no columns");
}

#[test]
fn characters_take_the_columns_they_are_drawn_in() {
    let mut app = App::new();
    attached(&mut app);
    snapshot(&mut app, 2, 1, "⌂".as_bytes());
    assert_eq!(shown(&app), "⌂");
    snapshot(&mut app, 1, 2, "xｱ".as_bytes());
    assert_eq!(shown(&app), "xｱ");
    snapshot(&mut app, 2, 1, "𝄞".as_bytes());
    assert_eq!(shown(&app), "𝄞");
    snapshot(&mut app, 1, 2, "ab\u{301}c".as_bytes());
    assert_eq!(shown(&app), "ab\u{301}", "a mark goes to the character before it");
    snapshot(&mut app, 1, 2, b"ab\xffc\x80\xe0\x80\r!");
    assert_eq!(shown(&app), "!b", "malformed text is not drawn");
}

#[test]
fn strings_are_not_drawn() {
    let mut app = App::new();
    attached(&mut app);
    for string in [
        &b"\x1bP1;2q#0\x07x\x1b\\"[..],
        b"\x1bP1 p\x9c",
        b"\x1bP!1x\x18",
        b"\x1b_x\x07y\x1b\\",
        b"\x1b]0;x\x9c\x07",
        b"\x1b[1 2m",
        b"\x1b(B",
    ] {
        snapshot(&mut app, 1, 3, b"abc");
        output(&mut app, string);
        output(&mut app, b"-\r+");
        assert_eq!(shown(&app), "+bc", "{string:?}");
    }
}

#[test]
fn a_screen_without_columns_keeps_its_modes() {
    let mut app = App::new();
    let rect = wheel_fixture(&mut app, b"");
    snapshot(&mut app, 2, 0, b"a\x1b[H\x1b[1J\x1b[?6h\x1b[m\x1b[2J\x1b[?1006;1049h\x1b[3@\r\n");
    let out = app.on_mouse(MouseEventKind::ScrollUp, rect.x + 5, rect.y + 3);
    assert_eq!(
        out,
        vec![WireFrame::Input {
            pane: PaneId(1),
            bytes: b"\x1b[A".repeat(MOUSE_SCROLL_STEP),
        }],
    );
    assert_eq!(shown(&app), "");
}

#[test]
fn tabs_stop_at_the_last_column() {
    let mut app = App::new();
    attached(&mut app);
    snapshot(&mut app, 2, 65535, b"\x1b[65535Gx\ty\r\tz");
    assert!(shown(&app).ends_with("xy       z"), "there is no stop to go to");
    snapshot(&mut app, 1, 20, b"a\tb\t\tc\td");
    assert_eq!(shown(&app), "a       b          d");
}

#[test]
fn a_merge_is_answered_once() {
    let mut app = App::new();
    let mut view = view_two_workspaces();
    view[1].parent = Some(WorkspaceId(1));
    attach_with(&mut app, view);
    focus_sidebar(&mut app);
    press(&mut app, plain('j'));
    press(&mut app, plain('m'));
    press(&mut app, plain('y'));
    assert_eq!(app.merge_pending, Some(WorkspaceId(2)));
    press(&mut app, plain('k'));
    state_changed(&mut app, PaneId(1), AgentState::Working, AgentState::Done);
    assert_eq!(app.merge_pending, Some(WorkspaceId(2)), "nothing else ends it");
    app.handle_response(Response::Merged { pushed: true, bookmark: "main".into() });
    let told = "merged into main and pushed — clean up workspace? y/N";
    assert_eq!(app.mode, Mode::ConfirmCleanup(WorkspaceId(2)));
    assert_eq!(app.transient().as_deref(), Some(told));
    assert_eq!(app.merge_pending, None);
    app.handle_response(Response::Merged { pushed: false, bookmark: "trunk".into() });
    assert_eq!(app.mode, Mode::ConfirmCleanup(WorkspaceId(2)));
    assert_eq!(app.transient().as_deref(), Some(told));
}

#[test]
fn actions_behind_the_prefix_send_little() {
    let mut app = App::new();
    attached(&mut app);
    let mouse = app.mouse_capture;
    assert!(app.prefix_action(PrefixAction::MouseToggle).is_empty());
    assert_eq!(app.mouse_capture, !mouse);
    assert!(app.prefix_action(PrefixAction::MouseToggle).is_empty());
    assert_eq!(app.mouse_capture, mouse);
    assert!(app.prefix_action(PrefixAction::Zoom).is_empty());
    assert!(app.zoom);
    assert!(app.prefix_action(PrefixAction::KillPane).is_empty());
    assert_eq!(app.prefix_action(PrefixAction::Detach), vec![control(Request::Detach)]);
    assert!(app.should_quit);

    let mut empty = App::new();
    assert!(empty.prefix_action(PrefixAction::Zoom).is_empty());
    assert!(!empty.zoom, "no pane is focused");
}

#[test]
fn tabs_of_all_workspaces_stand_in_order() {
    let mut app = App::new();
    assert!(app.all_tabs().is_empty());
    let tabs = |a: u64, b: u64| {
        vec![
            tab(a, "a", a == 1, leaf(a), vec![shell(a)]),
            tab(b, "b", false, leaf(b), vec![shell(b)]),
        ]
    };
    attach_with(
        &mut app,
        vec![workspace(1, "x", None, tabs(1, 2)), workspace(2, "y", None, tabs(3, 4))],
    );
    let ids: Vec<u64> = app.all_tabs().iter().map(|t| t.id.0).collect();
    assert_eq!(ids, vec![1, 2, 3, 4]);
}
