//! The client's state, and what can be told from it.

use std::collections::{HashMap, HashSet};

use vstd::prelude::*;

use crate::config::Config;
use crate::launcher::{row_lines, LauncherRow, RowLine};
use crate::layout::Rect;
use crate::model::{
    find_from, find_owner, find_tab_view, leaves, owns_tab, tab_is, tab_where, tabs_of,
    AgentState, PaneId, PaneInfo, PaneLine, TabId, TabView, WorkspaceId, WorkspaceView,
};
use crate::protocol::{Asked, Request, Sent, WireFrame};
use crate::screen::{fed, made_with, Terminal};
use crate::sidebar::{
    agents_in, build, census, ident_in, lines, sidebar_lines, tree_lines, AgentCensus, EntryIdent,
    EntryLine, Sidebar, SidebarEntry,
};
use crate::text::{glue3, opt_str, opt_text, texts};

verus! {

broadcast use {vstd::string::group_string_axioms, vstd::std_specs::hash::group_hash_axioms};

/// The sidebar's width, and the width of the screen below which it is left out.
pub const SIDEBAR_WIDTH: u16 = 30;

pub const SIDEBAR_MIN_TOTAL: u16 = 80;

/// The rows of the header: the app bar and the rule beneath it.
pub const HEADER_ROWS: u16 = 2;

/// How many lines of scrollback a pane's screen keeps.
pub const SCROLLBACK: usize = 10_000;

/// For how many milliseconds a status message stays.
pub const STATUS_TTL: u64 = 4000;

/// How many lines one wheel tick scrolls.
pub const MOUSE_SCROLL_STEP: usize = 3;

/// How many milliseconds the prefix can wait before the keys are shown.
pub const WHICHKEY_DELAY: u64 = 500;

/// How many milliseconds a spinner frame stays, and how many frames there are.
pub const SPINNER_TICK: u64 = 100;

pub const SPINNER_FRAMES: usize = 10;

/// One pane as the client mirrors it: its screen, and what the server tells of
/// it. `scroll` is set while its scrollback is browsed; new output is left out
/// then.
pub struct PaneState {
    pub parser: Terminal,
    pub info: PaneInfo,
    pub damaged: bool,
    pub scroll: Option<usize>,
}

/// Whether `state` is a pane with a screen of that size that was fed `chunks`.
pub open spec fn seeded(
    state: PaneState,
    rows: u16,
    cols: u16,
    chunks: Seq<Seq<u8>>,
    info: PaneLine,
) -> bool {
    &&& made_with(state.parser) == (rows, cols, SCROLLBACK)
    &&& fed(state.parser) == chunks
    &&& state.info@ == info
    &&& state.damaged
    &&& state.scroll is None
}

/// What keys mean.
#[derive(Debug, Clone, Copy, PartialEq, Eq, Structural)]
pub enum Mode {
    /// Keys go to the focused pane.
    Terminal,
    /// The prefix was pressed.
    Prefix,
    /// Asked whether to kill a pane.
    ConfirmKill(PaneId),
    /// Asked from the sidebar whether to kill a workspace.
    ConfirmKillWorkspace(WorkspaceId),
    /// Asked from the sidebar whether to kill an agent's pane.
    ConfirmKillAgent(PaneId),
    /// Asked whether to merge a workspace.
    ConfirmMerge(WorkspaceId),
    /// Asked whether to discard a workspace that was merged.
    ConfirmCleanup(WorkspaceId),
    /// A pane's scrollback is browsed.
    Scroll(PaneId),
    Help,
    /// The sidebar is navigated.
    Sidebar,
    /// The directory of a project is typed.
    SidebarPrompt,
    /// The name of a new workspace is typed.
    SidebarWorkspaceName,
    /// The place of a new workspace is typed.
    SidebarWorkspaceDest,
    /// The launcher is open.
    Launcher,
    /// A command is typed in the launcher.
    LauncherCommand,
}

/// Where the sidebar's cursor is: the place, and what stood there with its
/// project, by which the cursor is found again when the sidebar changes.
#[derive(Debug, Clone, Copy, PartialEq, Eq)]
pub struct Cursor {
    pub selected: usize,
    pub anchor: Option<(EntryIdent, WorkspaceId)>,
}

/// The prompt at the sidebar's foot.
pub struct Prompt {
    pub text: String,
    pub completions: Vec<String>,
    pub selected: usize,
}

/// The prompt, over texts.
#[verifier::ext_equal]
pub struct PromptLine {
    pub text: Seq<char>,
    pub completions: Seq<Seq<char>>,
    pub selected: usize,
}

impl View for Prompt {
    type V = PromptLine;

    open spec fn view(&self) -> PromptLine {
        PromptLine {
            text: self.text@,
            completions: texts(self.completions@),
            selected: self.selected,
        }
    }
}

/// The launcher. `after_add` tells that it opened for a project that was just
/// added, `new_tab` that the choice gets a tab of its own in that workspace,
/// and `replace` that it takes the place of a pane that has exited. `target`
/// names the workspace that the choice runs in.
pub struct Launch {
    pub rows: Vec<LauncherRow>,
    pub selected: usize,
    pub after_add: bool,
    pub command: String,
    pub new_tab: Option<WorkspaceId>,
    pub replace: Option<PaneId>,
    pub target: Option<String>,
}

/// The launcher, over texts.
#[verifier::ext_equal]
pub struct LaunchState {
    pub rows: Seq<RowLine>,
    pub selected: usize,
    pub after_add: bool,
    pub command: Seq<char>,
    pub new_tab: Option<WorkspaceId>,
    pub replace: Option<PaneId>,
    pub target: Option<Seq<char>>,
}

impl View for Launch {
    type V = LaunchState;

    open spec fn view(&self) -> LaunchState {
        LaunchState {
            rows: row_lines(self.rows@),
            selected: self.selected,
            after_add: self.after_add,
            command: self.command@,
            new_tab: self.new_tab,
            replace: self.replace,
            target: opt_text(self.target),
        }
    }
}

/// A workspace that is being made: the one it is forked from, its name once it
/// is typed, and whether the server was asked.
pub struct Fork {
    pub target: Option<WorkspaceId>,
    pub name: String,
    pub pending: bool,
}

/// Where the client runs: the home directory, the one below which agents keep
/// their conversations, the current directory, the login shell, and the
/// revision of the wire format.
pub struct Place {
    pub home: Option<String>,
    pub resume_home: Option<String>,
    pub cwd: String,
    pub shell: String,
    pub wire_rev: u32,
}

/// The time, and the time at which the client started, in milliseconds.
#[derive(Debug, Clone, Copy, PartialEq, Eq, Structural)]
pub struct Clock {
    pub now: u64,
    pub epoch: u64,
}

/// Something the client needs to know of the world around it.
#[derive(Debug, Clone, PartialEq)]
pub enum Query {
    /// The names of the directories in `base`; none where it cannot be read.
    List { base: String },
    /// Which agents there are, which of them are installed, and which
    /// conversations about `sessions` (a directory, and the home below which
    /// they lie) can be picked up again.
    Launcher { sessions: Option<(String, String)> },
    /// The real path of `typed` where it is a directory, and the real path of
    /// `completed`.
    Locate { typed: String, completed: Option<String> },
    /// Which of these paths exist, to show a workspace's diff.
    DiffMarks { marks: Vec<String> },
    /// Which of these paths exist, to propose a workspace's place.
    DestMarks { marks: Vec<String> },
    /// The real path of `parent`, to make a workspace below it.
    DestParent { parent: String },
}

/// Something the client needs to know, over texts.
pub enum Question {
    List { base: Seq<char> },
    Launcher { sessions: Option<(Seq<char>, Seq<char>)> },
    Locate { typed: Seq<char>, completed: Option<Seq<char>> },
    DiffMarks { marks: Seq<Seq<char>> },
    DestMarks { marks: Seq<Seq<char>> },
    DestParent { parent: Seq<char> },
}

impl View for Query {
    type V = Question;

    open spec fn view(&self) -> Question {
        match self {
            Query::List { base } => Question::List { base: base@ },
            Query::Launcher { sessions } => Question::Launcher {
                sessions: match sessions {
                    Some(p) => Some((p.0@, p.1@)),
                    None => None,
                },
            },
            Query::Locate { typed, completed } => Question::Locate {
                typed: typed@,
                completed: opt_text(*completed),
            },
            Query::DiffMarks { marks } => Question::DiffMarks { marks: texts(marks@) },
            Query::DestMarks { marks } => Question::DestMarks { marks: texts(marks@) },
            Query::DestParent { parent } => Question::DestParent { parent: parent@ },
        }
    }
}

/// What is asked, over texts.
pub open spec fn asked(q: Option<Query>) -> Option<Question> {
    match q {
        Some(q) => Some(q@),
        None => None,
    }
}

/// The client.
pub struct App {
    pub session: String,
    pub workspaces: Vec<WorkspaceView>,
    /// The panes, by their numbers.
    pub panes: HashMap<u64, PaneState>,
    pub active_tab: Option<TabId>,
    pub focused: Option<PaneId>,
    pub mode: Mode,
    pub zoom: bool,
    pub should_quit: bool,
    /// The panes' rectangles from the last time sizes were worked out.
    pub rects: Vec<(PaneId, Rect)>,
    /// The status message, and when it was set.
    pub status: Option<(String, u64)>,
    /// The rows and columns last asked for each pane.
    pub requested_sizes: HashMap<u64, (u16, u16)>,
    /// The focus that the server was last told.
    pub focus_sent: Option<PaneId>,
    /// Whether a pane out of focus just blocked or finished.
    pub bell: bool,
    /// When the prefix was pressed, while its second key is awaited.
    pub prefix_since: Option<u64>,
    pub cursor: Cursor,
    pub prompt: Prompt,
    pub launch: Launch,
    pub fork: Fork,
    /// The workspace whose merge the server was asked for.
    pub merge_pending: Option<WorkspaceId>,
    /// Whether the next view's current tab is to be followed.
    pub adopt_active_view: bool,
    /// The panes that raised a notification and were not focused since.
    pub notified: HashSet<u64>,
    pub collapsed_projects: bool,
    pub collapsed_waiting: bool,
    /// Whether the terminal shows 24-bit colours.
    pub truecolor: bool,
    /// Escape sequences for the real terminal.
    pub terminal_out: Vec<Vec<u8>>,
    /// Whether mouse events are to be captured.
    pub mouse_capture: bool,
    pub sidebar_rect: Option<Rect>,
    pub tab_bar_rect: Option<Rect>,
    pub last_content_width: u16,
    pub config: Config,
    pub place: Place,
    pub clock: Clock,
    /// What the client needs to know next.
    pub query: Option<Query>,
}

/// Whether `status` is `text`, set at `now`.
pub open spec fn says(status: Option<(String, u64)>, text: Seq<char>, now: u64) -> bool {
    status matches Some(s) && s.0@ == text && s.1 == now
}

impl App {
    /// The rows of the sidebar.
    pub open spec fn entries(&self) -> Seq<EntryLine> {
        sidebar_lines(self.workspaces@, self.active_tab, opt_text(self.place.home))
    }

    /// How many of them are the tree's.
    pub open spec fn tree_len(&self) -> int {
        tree_lines(
            self.workspaces@,
            self.workspaces@,
            self.active_tab,
            opt_text(self.place.home),
        ).len() as int
    }

    /// Whether the section of row `i` is open.
    pub open spec fn row_shown(&self, i: int) -> bool {
        if i < self.tree_len() {
            !self.collapsed_projects
        } else {
            !self.collapsed_waiting
        }
    }

    /// The active tab.
    pub open spec fn tab(&self) -> Option<TabView> {
        match self.active_tab {
            Some(id) => tab_where(self.workspaces@, tab_is(id)),
            None => None,
        }
    }

    /// The panes of the active tab, in the order of its layout.
    pub open spec fn tab_panes(&self) -> Seq<PaneId> {
        match self.tab() {
            Some(t) => match t.layout {
                Some(l) => leaves(l),
                None => Seq::empty(),
            },
            None => Seq::empty(),
        }
    }

    /// The workspace that owns the active tab.
    pub open spec fn owner(&self) -> Option<WorkspaceView> {
        match self.active_tab {
            Some(id) => match find_from(self.workspaces@, owns_tab(id), 0) {
                Some(i) => Some(self.workspaces@[i]),
                None => None,
            },
            None => None,
        }
    }

    /// How many agents are blocked, work and are done.
    pub open spec fn census(&self) -> AgentCensus {
        AgentCensus::of(
            agents_in(self.workspaces@, AgentState::Blocked),
            agents_in(self.workspaces@, AgentState::Working),
            agents_in(self.workspaces@, AgentState::Done),
        )
    }

    /// Whether the sidebar has the keys.
    pub open spec fn in_sidebar_mode(&self) -> bool {
        match self.mode {
            Mode::Sidebar | Mode::SidebarPrompt | Mode::SidebarWorkspaceName
            | Mode::SidebarWorkspaceDest | Mode::ConfirmKillWorkspace(_) | Mode::ConfirmKillAgent(
                _,
            ) | Mode::ConfirmMerge(_) | Mode::ConfirmCleanup(_) => true,
            _ => false,
        }
    }

    /// Whether a prompt at the sidebar's foot is edited.
    pub open spec fn in_prompt_mode(&self) -> bool {
        match self.mode {
            Mode::SidebarPrompt | Mode::SidebarWorkspaceName | Mode::SidebarWorkspaceDest => true,
            _ => false,
        }
    }

    /// While the launcher is open, its selection lies within its rows or right
    /// behind them.
    pub open spec fn well_formed(&self) -> bool {
        self.mode == Mode::Launcher || self.mode == Mode::LauncherCommand ==> self.launch.selected
            <= self.launch.rows@.len()
    }

    /// The status message, while it is fresh.
    pub open spec fn message(&self) -> Option<Seq<char>> {
        match self.status {
            Some(s) => if self.clock.now - s.1 < STATUS_TTL {
                Some(s.0@)
            } else {
                None
            },
            None => None,
        }
    }

    /// Whether the prefix waits for its second key since some time.
    pub open spec fn keys_shown(&self) -> bool {
        self.mode == Mode::Prefix && (self.prefix_since matches Some(since) && self.clock.now
            - since >= WHICHKEY_DELAY)
    }

    /// The frame of the working spinner: it moves on with every tick.
    pub open spec fn frame_shown(&self) -> int {
        if self.clock.now < self.clock.epoch {
            0
        } else {
            ((self.clock.now - self.clock.epoch) / SPINNER_TICK as int) % SPINNER_FRAMES as int
        }
    }

    /// The glyph of the working spinner.
    pub open spec fn spinner(&self) -> char {
        spinner_glyph(self.frame_shown())
    }

    /// The client before anything was received, with the defaults.
    pub fn new() -> (r: App)
        ensures
            started(r, crate::config::defaults()),
    {
        App::with_config(Config::default())
    }

    /// The client before anything was received.
    pub fn with_config(config: Config) -> (r: App)
        ensures
            started(r, config@),
            r.config == config,
    {
        let app = App {
            session: String::new(),
            workspaces: Vec::new(),
            panes: HashMap::new(),
            active_tab: None,
            focused: None,
            mode: Mode::Terminal,
            zoom: false,
            should_quit: false,
            rects: Vec::new(),
            status: None,
            requested_sizes: HashMap::new(),
            focus_sent: None,
            bell: false,
            prefix_since: None,
            cursor: Cursor { selected: 0, anchor: None },
            prompt: Prompt { text: String::new(), completions: Vec::new(), selected: 0 },
            launch: Launch {
                rows: Vec::new(),
                selected: 0,
                after_add: false,
                command: String::new(),
                new_tab: None,
                replace: None,
                target: None,
            },
            fork: Fork { target: None, name: String::new(), pending: false },
            merge_pending: None,
            adopt_active_view: false,
            notified: HashSet::new(),
            collapsed_projects: false,
            collapsed_waiting: false,
            truecolor: false,
            terminal_out: Vec::new(),
            mouse_capture: config.mouse,
            sidebar_rect: None,
            tab_bar_rect: None,
            last_content_width: 0,
            config,
            place: Place {
                home: None,
                resume_home: None,
                cwd: ".".to_owned(),
                shell: "/bin/sh".to_owned(),
                wire_rev: 0,
            },
            clock: Clock { now: 0, epoch: 0 },
            query: None,
        };
        assert(app.prompt@ =~= (PromptLine {
            text: Seq::empty(),
            completions: Seq::empty(),
            selected: 0,
        }));
        assert(app.launch@ =~= no_launch());
        app
    }

    /// Whether mouse events are to be captured.
    pub fn mouse_capture(&self) -> (r: bool)
        ensures
            r == self.mouse_capture,
    {
        self.mouse_capture
    }

    /// The configuration.
    pub fn config(&self) -> (r: &Config)
        ensures
            *r == self.config,
    {
        &self.config
    }

    /// Record whether the terminal shows 24-bit colours.
    pub fn set_truecolor(&mut self, on: bool)
        ensures
            *final(self) == (App { truecolor: on, ..*old(self) }),
    {
        self.truecolor = on;
    }

    /// Whether the chrome is shaded: the configuration allows it and the
    /// terminal can show it.
    pub fn chrome_shaded(&self) -> (r: bool)
        ensures
            r == (self.config.chrome_background && self.truecolor),
    {
        self.config.chrome_background && self.truecolor
    }

    /// Take what the client needs to know.
    pub fn take_query(&mut self) -> (r: Option<Query>)
        ensures
            r == old(self).query,
            *final(self) == (App { query: None, ..*old(self) }),
    {
        self.query.take()
    }

    /// Post a status message.
    pub(crate) fn set_status(&mut self, message: String)
        ensures
            *final(self) == (App { status: Some((message, old(self).clock.now)), ..*old(self) }),
    {
        self.status = Some((message, self.clock.now));
    }

    /// Post a status message.
    pub fn note(&mut self, message: String)
        ensures
            *final(self) == (App { status: Some((message, old(self).clock.now)), ..*old(self) }),
    {
        self.set_status(message);
    }

    /// The status message, while it is fresh.
    pub fn transient(&self) -> (r: Option<&str>)
        ensures
            opt_str(r) == self.message(),
    {
        match &self.status {
            Some(s) => if self.clock.now < s.1 || self.clock.now - s.1 < STATUS_TTL {
                Some(s.0.as_str())
            } else {
                None
            },
            None => None,
        }
    }

    /// Whether the keys are to be shown: the prefix waits for its second key
    /// since some time.
    pub fn whichkey_visible(&self) -> (r: bool)
        ensures
            r == self.keys_shown(),
    {
        match self.mode {
            Mode::Prefix => match self.prefix_since {
                Some(since) => self.clock.now >= since && self.clock.now - since >= WHICHKEY_DELAY,
                None => false,
            },
            _ => false,
        }
    }

    /// The frame of the working spinner.
    pub fn spinner_frame(&self) -> (r: usize)
        ensures
            r == self.frame_shown(),
            r < SPINNER_FRAMES,
    {
        let elapsed: u64 = self.clock.now.saturating_sub(self.clock.epoch);
        ((elapsed / SPINNER_TICK) % 10) as usize
    }

    /// The glyph of the working spinner.
    pub fn spinner_char(&self) -> (r: char)
        ensures
            r == self.spinner(),
    {
        match self.spinner_frame() {
            0 => '⠋',
            1 => '⠙',
            2 => '⠹',
            3 => '⠸',
            4 => '⠼',
            5 => '⠴',
            6 => '⠦',
            7 => '⠧',
            8 => '⠇',
            _ => '⠏',
        }
    }

    /// Whether a bell is due; asking clears it.
    pub fn take_bell(&mut self) -> (r: bool)
        ensures
            r == old(self).bell,
            *final(self) == (App { bell: false, ..*old(self) }),
    {
        let r: bool = self.bell;
        self.bell = false;
        r
    }

    /// Whether `pane` raised a notification that was not seen.
    pub fn is_notified(&self, pane: PaneId) -> (r: bool)
        ensures
            r == self.notified@.contains(pane.0),
    {
        self.notified.contains(&pane.0)
    }

    /// The escape sequences for the real terminal; asking clears them.
    pub fn take_terminal_out(&mut self) -> (r: Vec<Vec<u8>>)
        ensures
            r == old(self).terminal_out,
            final(self).terminal_out@.len() == 0,
            *final(self) == (App { terminal_out: final(self).terminal_out, ..*old(self) }),
    {
        let mut out: Vec<Vec<u8>> = Vec::new();
        core::mem::swap(&mut out, &mut self.terminal_out);
        out
    }

    /// The request that tells the server of a change of focus since the last
    /// call, if there was one. A pane that gains focus loses its mark.
    pub fn focus_change(&mut self) -> (r: Option<WireFrame>)
        ensures
            old(self).focus_sent == old(self).focused ==> r is None && *final(self) == *old(self),
            old(self).focus_sent != old(self).focused ==> {
                &&& *final(self) == (App {
                    focus_sent: old(self).focused,
                    notified: final(self).notified,
                    ..*old(self)
                })
                &&& match old(self).focused {
                    Some(pane) => {
                        &&& final(self).notified@ == old(self).notified@.remove(pane.0)
                        &&& r matches Some(f) && f@ == Sent::Control(Asked::PaneFocus { pane })
                    },
                    None => final(self).notified@ == old(self).notified@ && r is None,
                }
            },
    {
        if self.focus_sent == self.focused {
            return None;
        }
        self.focus_sent = self.focused;
        match self.focused {
            Some(pane) => {
                self.notified.remove(&pane.0);
                Some(WireFrame::Control(Request::PaneFocus { pane }))
            },
            None => None,
        }
    }
}

/// The glyph of a spinner frame.
pub open spec fn spinner_glyph(frame: int) -> char {
    if frame == 0 {
        '⠋'
    } else if frame == 1 {
        '⠙'
    } else if frame == 2 {
        '⠹'
    } else if frame == 3 {
        '⠸'
    } else if frame == 4 {
        '⠼'
    } else if frame == 5 {
        '⠴'
    } else if frame == 6 {
        '⠦'
    } else if frame == 7 {
        '⠧'
    } else if frame == 8 {
        '⠇'
    } else {
        '⠏'
    }
}

/// A client before anything was received.
pub open spec fn started(app: App, config: crate::config::Settings) -> bool {
    &&& app.config@ == config
    &&& app.mouse_capture == config.mouse
    &&& app.session@.len() == 0
    &&& app.workspaces@.len() == 0
    &&& app.panes@ == Map::<u64, PaneState>::empty()
    &&& app.requested_sizes@ == Map::<u64, (u16, u16)>::empty()
    &&& app.notified@ == Set::<u64>::empty()
    &&& app.active_tab is None
    &&& app.focused is None
    &&& app.focus_sent is None
    &&& app.mode == Mode::Terminal
    &&& !app.zoom
    &&& !app.should_quit
    &&& app.rects@.len() == 0
    &&& app.status is None
    &&& !app.bell
    &&& app.prefix_since is None
    &&& app.cursor == (Cursor { selected: 0, anchor: None })
    &&& app.prompt@ == (PromptLine { text: Seq::empty(), completions: Seq::empty(), selected: 0 })
    &&& app.launch@ == no_launch()
    &&& app.fork.target is None
    &&& app.fork.name@.len() == 0
    &&& !app.fork.pending
    &&& app.merge_pending is None
    &&& !app.adopt_active_view
    &&& !app.collapsed_projects
    &&& !app.collapsed_waiting
    &&& !app.truecolor
    &&& app.terminal_out@.len() == 0
    &&& app.sidebar_rect is None
    &&& app.tab_bar_rect is None
    &&& app.last_content_width == 0
    &&& app.query is None
    &&& app.place.home is None
    &&& app.place.resume_home is None
    &&& app.place.cwd@ == "."@
    &&& app.place.shell@ == "/bin/sh"@
    &&& app.place.wire_rev == 0
    &&& app.clock == (Clock { now: 0, epoch: 0 })
    &&& app.well_formed()
}

/// A launcher without rows.
pub open spec fn no_launch() -> LaunchState {
    LaunchState {
        rows: Seq::empty(),
        selected: 0,
        after_add: false,
        command: Seq::empty(),
        new_tab: None,
        replace: None,
        target: None,
    }
}

impl Default for App {
    fn default() -> (r: App)
        ensures
            started(r, crate::config::defaults()),
    {
        App::new()
    }
}

// ---- what the sidebar shows ----------------------------------------------

/// What stands at row `i` of the sidebar, with its project.
pub open spec fn anchor_of(all: Seq<EntryLine>, tree: int, i: int) -> Option<
    (EntryIdent, WorkspaceId),
> {
    if 0 <= i < all.len() {
        Some(
            (
                ident_in(all, tree, i),
                match all[i] {
                    EntryLine::Workspace(w) => w.project,
                    EntryLine::Agent(a) => a.project,
                },
            ),
        )
    } else {
        None
    }
}

/// What stands at row `idx` of the sidebar, with its project.
pub(crate) fn anchor_at(sidebar: &Sidebar, idx: usize) -> (r: Option<(EntryIdent, WorkspaceId)>)
    ensures
        r == anchor_of(lines(sidebar.entries@), sidebar.tree_count as int, idx as int),
{
    if idx >= sidebar.entries.len() {
        return None;
    }
    assert(lines(sidebar.entries@)[idx as int] == sidebar.entries@[idx as int]@);
    let project: WorkspaceId = match &sidebar.entries[idx] {
        SidebarEntry::Workspace(w) => w.project,
        SidebarEntry::Agent(a) => a.project,
    };
    match sidebar.ident_at(idx) {
        Some(ident) => Some((ident, project)),
        None => None,
    }
}

/// Whether `r` is the next row of `len` after `from` that is shown, or `from`
/// where there is none; 0 where there are no rows.
pub open spec fn steps_down(app: App, from: int, r: int) -> bool {
    let len = app.entries().len();
    if len == 0 {
        r == 0
    } else {
        ||| from < r < len && app.row_shown(r) && forall|i: int|
            from < i < r ==> !#[trigger] app.row_shown(i)
        ||| r == from && forall|i: int| from < i < len ==> !#[trigger] app.row_shown(i)
    }
}

/// Whether `r` is the last row before `from` that is shown, or `from` where
/// there is none.
pub open spec fn steps_up(app: App, from: int, r: int) -> bool {
    ||| 0 <= r < from && app.row_shown(r) && forall|i: int|
        r < i < from ==> !#[trigger] app.row_shown(i)
    ||| r == from && forall|i: int| 0 <= i < from ==> !#[trigger] app.row_shown(i)
}

impl App {
    /// The sidebar as it is shown.
    pub fn sidebar(&self) -> (r: Sidebar)
        ensures
            r.well_formed(),
            lines(r.entries@) == self.entries(),
            r.entries@.len() == self.entries().len(),
            r.tree_count == self.tree_len(),
            r.projects_collapsed == self.collapsed_projects,
            r.waiting_collapsed == self.collapsed_waiting,
    {
        let mut sidebar: Sidebar = build(
            self.workspaces.as_slice(),
            self.active_tab,
            &self.place.home,
        );
        sidebar.projects_collapsed = self.collapsed_projects;
        sidebar.waiting_collapsed = self.collapsed_waiting;
        assert(lines(sidebar.entries@).len() == sidebar.entries@.len());
        sidebar
    }

    /// The next row after `from` that is shown.
    pub(crate) fn next_visible(&self, sidebar: &Sidebar, from: usize) -> (r: usize)
        requires
            sidebar.entries@.len() == self.entries().len(),
            sidebar.tree_count == self.tree_len(),
            sidebar.projects_collapsed == self.collapsed_projects,
            sidebar.waiting_collapsed == self.collapsed_waiting,
        ensures
            steps_down(*self, from as int, r as int),
    {
        if sidebar.is_empty() {
            return 0;
        }
        let last: usize = sidebar.len() - 1;
        let mut i: usize = from;
        while i < last
            invariant
                from <= i,
                last + 1 == sidebar.entries@.len(),
                sidebar.entries@.len() == self.entries().len(),
                sidebar.tree_count == self.tree_len(),
                sidebar.projects_collapsed == self.collapsed_projects,
                sidebar.waiting_collapsed == self.collapsed_waiting,
                forall|j: int|
                    from < j <= i && j < self.entries().len() ==> !#[trigger] self.row_shown(j),
            decreases last - i,
        {
            i = i + 1;
            if sidebar.is_visible(i) {
                return i;
            }
        }
        from
    }

    /// The last row before `from` that is shown.
    pub(crate) fn prev_visible(&self, sidebar: &Sidebar, from: usize) -> (r: usize)
        requires
            sidebar.tree_count == self.tree_len(),
            sidebar.projects_collapsed == self.collapsed_projects,
            sidebar.waiting_collapsed == self.collapsed_waiting,
        ensures
            steps_up(*self, from as int, r as int),
    {
        let mut i: usize = from;
        while i > 0
            invariant
                i <= from,
                sidebar.tree_count == self.tree_len(),
                sidebar.projects_collapsed == self.collapsed_projects,
                sidebar.waiting_collapsed == self.collapsed_waiting,
                forall|j: int| i <= j < from ==> !#[trigger] self.row_shown(j),
            decreases i,
        {
            i = i - 1;
            if sidebar.is_visible(i) {
                return i;
            }
        }
        from
    }

    /// The census over every project.
    pub fn agent_census(&self) -> (r: AgentCensus)
        ensures
            r == self.census(),
    {
        census(self.workspaces.as_slice())
    }

    /// The workspace that owns the active tab.
    pub fn active_workspace(&self) -> (r: Option<&WorkspaceView>)
        ensures
            match self.owner() {
                Some(w) => r matches Some(x) && *x == w,
                None => r is None,
            },
    {
        match self.active_tab {
            Some(id) => match find_owner(&self.workspaces, id) {
                Some(i) => Some(&self.workspaces[i]),
                None => None,
            },
            None => None,
        }
    }

    /// The top-level project of the active tab.
    pub(crate) fn active_project(&self) -> (r: Option<WorkspaceId>)
        ensures
            r == (match self.owner() {
                Some(w) => Some(crate::sidebar::project_of(self.workspaces@, w)),
                None => None,
            }),
    {
        match self.active_workspace() {
            Some(w) => Some(crate::sidebar::find_project(self.workspaces.as_slice(), w)),
            None => None,
        }
    }

    /// The active tab.
    pub fn active_tab_view(&self) -> (r: Option<&TabView>)
        ensures
            match self.tab() {
                Some(t) => r matches Some(x) && *x == t,
                None => r is None,
            },
    {
        match self.active_tab {
            Some(id) => find_tab_view(&self.workspaces, id),
            None => None,
        }
    }

    /// The tabs of all workspaces, in order.
    pub fn all_tabs(&self) -> (r: Vec<&TabView>)
        ensures
            r@.map_values(|t: &TabView| *t) == tabs_of(self.workspaces@),
    {
        let ws: &Vec<WorkspaceView> = &self.workspaces;
        let mut out: Vec<&TabView> = Vec::new();
        let ghost plain = |t: &TabView| *t;
        assert(ws@.take(0) =~= Seq::empty());
        assert(out@.map_values(plain) =~= tabs_of(ws@.take(0)));
        for i in 0..ws.len()
            invariant
                plain == (|t: &TabView| *t),
                out@.map_values(plain) == tabs_of(ws@.take(i as int)),
        {
            let tabs: &Vec<TabView> = &ws[i].tabs;
            let ghost have = out@.map_values(plain);
            assert(out@.map_values(plain) =~= have + tabs@.take(0));
            for k in 0..tabs.len()
                invariant
                    plain == (|t: &TabView| *t),
                    out@.map_values(plain) == have + tabs@.take(k as int),
            {
                let ghost had = out@.map_values(plain);
                out.push(&tabs[k]);
                assert(out@.map_values(plain) =~= had.push(tabs@[k as int]));
                assert(out@.map_values(plain) =~= have + tabs@.take(k + 1));
            }
            assert(tabs@.take(tabs@.len() as int) =~= tabs@);
            assert(ws@.take(i + 1).drop_last() =~= ws@.take(i as int));
        }
        assert(ws@.take(ws@.len() as int) =~= ws@);
        out
    }

    /// The panes of the active tab, in the order of its layout.
    pub(crate) fn active_tab_panes(&self) -> (r: Vec<PaneId>)
        ensures
            r@ == self.tab_panes(),
    {
        match self.active_tab_view() {
            Some(t) => match &t.layout {
                Some(l) => l.panes(),
                None => Vec::new(),
            },
            None => Vec::new(),
        }
    }

    /// Whether the sidebar has the keys. The questions that it raises count.
    pub fn sidebar_focused(&self) -> (r: bool)
        ensures
            r == self.in_sidebar_mode(),
    {
        matches!(
            self.mode,
            Mode::Sidebar
                | Mode::SidebarPrompt
                | Mode::SidebarWorkspaceName
                | Mode::SidebarWorkspaceDest
                | Mode::ConfirmKillWorkspace(_)
                | Mode::ConfirmKillAgent(_)
                | Mode::ConfirmMerge(_)
                | Mode::ConfirmCleanup(_)
        )
    }

    /// The row under the sidebar's cursor.
    pub fn sidebar_selected(&self) -> (r: usize)
        ensures
            r == self.cursor.selected,
    {
        self.cursor.selected
    }

    /// Whether a prompt at the sidebar's foot is edited.
    pub fn sidebar_prompt_active(&self) -> (r: bool)
        ensures
            r == self.in_prompt_mode(),
    {
        matches!(
            self.mode,
            Mode::SidebarPrompt | Mode::SidebarWorkspaceName | Mode::SidebarWorkspaceDest
        )
    }

    /// The label of the prompt.
    pub fn sidebar_prompt_label(&self) -> (r: &'static str)
        ensures
            r@ == (match self.mode {
                Mode::SidebarWorkspaceName => "workspace name: "@,
                Mode::SidebarWorkspaceDest => "where: "@,
                _ => "open: "@,
            }),
    {
        match self.mode {
            Mode::SidebarWorkspaceName => "workspace name: ",
            Mode::SidebarWorkspaceDest => "where: ",
            _ => "open: ",
        }
    }

    /// Whether the prompt shows completions: a name has none.
    pub fn sidebar_prompt_shows_completions(&self) -> (r: bool)
        ensures
            r == (self.mode == Mode::SidebarPrompt || self.mode == Mode::SidebarWorkspaceDest),
    {
        matches!(self.mode, Mode::SidebarPrompt | Mode::SidebarWorkspaceDest)
    }

    /// What is typed in the prompt.
    pub fn sidebar_prompt(&self) -> (r: &str)
        ensures
            r@ == self.prompt.text@,
    {
        self.prompt.text.as_str()
    }

    /// The completions shown under the prompt.
    pub fn prompt_completions(&self) -> (r: &[String])
        ensures
            r@ == self.prompt.completions@,
    {
        self.prompt.completions.as_slice()
    }

    /// The highlighted completion.
    pub fn prompt_selected(&self) -> (r: usize)
        ensures
            r == self.prompt.selected,
    {
        self.prompt.selected
    }

    /// The launcher's rows.
    pub fn launcher_rows(&self) -> (r: &[LauncherRow])
        ensures
            r@ == self.launch.rows@,
    {
        self.launch.rows.as_slice()
    }

    /// The highlighted launcher row.
    pub fn launcher_selected(&self) -> (r: usize)
        ensures
            r == self.launch.selected,
    {
        self.launch.selected
    }

    /// The command typed in the launcher.
    pub fn launcher_command(&self) -> (r: &str)
        ensures
            r@ == self.launch.command@,
    {
        self.launch.command.as_str()
    }

    /// The launcher's title, which names the workspace it runs in.
    pub fn launcher_title(&self) -> (r: String)
        ensures
            r@ == (match self.launch.target {
                Some(name) => " run in "@ + name@ + " "@,
                None => " run "@,
            }),
    {
        match &self.launch.target {
            Some(name) => glue3(" run in ", name.as_str(), " "),
            None => " run ".to_owned(),
        }
    }

    /// The text on a pane's screen.
    pub fn pane_text(&self, pane: PaneId) -> (r: Option<String>)
        ensures
            r is Some == self.panes@.contains_key(pane.0),
            r matches Some(t) ==> t@ == crate::screen::contents_after(
                made_with(self.panes@[pane.0].parser),
                fed(self.panes@[pane.0].parser),
            ),
    {
        match self.panes.get(&pane.0) {
            Some(state) => Some(state.parser.screen().contents()),
            None => None,
        }
    }

    /// Whether some pane runs an agent that works.
    pub fn has_working_agent(&self) -> (r: bool)
        ensures
            r == exists|k: u64|
                #![trigger self.panes@[k]]
                self.panes@.contains_key(k) && works(self.panes@[k]),
    {
        for state in it: self.panes.values()
            invariant
                it.seq().unref().to_set() == self.panes@.values(),
                forall|j: int|
                    0 <= j < it.index() ==> !works(#[trigger] it.seq().unref()[j]),
        {
            assert(it.seq().unref()[it.index() as int] == *state);
            if state.info.agent.is_some() && state.info.state == AgentState::Working {
                proof {
                    assert(it.seq().unref().contains(*state));
                    assert(it.seq().unref().to_set().contains(*state));
                    let k = choose|k: u64|
                        self.panes@.contains_key(k) && #[trigger] self.panes@[k] == *state;
                    assert(works(self.panes@[k]));
                }
                return true;
            }
        }
        proof {
            assert forall|k: u64| #![trigger self.panes@[k]] self.panes@.contains_key(
                k,
            ) implies !works(self.panes@[k]) by {
                assert(self.panes@.values().contains(self.panes@[k]));
            }
        }
        false
    }
}

/// Whether a pane runs an agent that works.
pub open spec fn works(state: PaneState) -> bool {
    state.info.agent is Some && state.info.state == AgentState::Working
}

/// A message is shown from when it was set until its time is over, and then no more;
/// the keys behind the prefix are shown once it has waited, and only while it waits.
pub proof fn messages_and_keys_have_their_time(app: App)
    ensures
        app.status matches Some(s) ==> (app.message() is Some) == (app.clock.now - s.1 < 4000),
        app.status matches Some(s) ==> (app.message() is Some ==> app.message() == Some(s.0@)),
        app.status is None ==> app.message() is None,
        app.keys_shown() ==> app.mode == Mode::Prefix,
        app.mode == Mode::Prefix ==> (app.prefix_since matches Some(t) ==> app.keys_shown() == (
        app.clock.now - t >= 500)),
{
}

/// The spinner moves on: each frame looks different from the others, and a tick later
/// comes the next, around and around.
pub proof fn the_spinner_moves_on(app: App, later: App, i: int, j: int)
    requires
        0 <= i < SPINNER_FRAMES,
        0 <= j < SPINNER_FRAMES,
    ensures
        spinner_glyph(i) == spinner_glyph(j) ==> i == j,
        0 <= app.frame_shown() < SPINNER_FRAMES,
        app.clock.epoch == later.clock.epoch && app.clock.epoch <= app.clock.now && later.clock.now
            == app.clock.now + SPINNER_TICK && app.frame_shown() + 1 < SPINNER_FRAMES
            ==> later.frame_shown() == app.frame_shown() + 1,
{
    if app.clock.epoch <= app.clock.now && later.clock.now == app.clock.now + SPINNER_TICK {
        let d = app.clock.now - app.clock.epoch;
        assert((d + 100) / 100 == d / 100 + 1);
        assert((d / 100 + 1) % 10 == if (d / 100) % 10 == 9 {
            0
        } else {
            (d / 100) % 10 + 1
        });
    }
}

/// The sidebar has the keys in its own modes and in the questions it asks; a prompt
/// is edited only in one of its prompts; keys go to a pane in neither.
pub proof fn modes_belong_to_the_sidebar(app: App)
    ensures
        app.mode == Mode::Sidebar ==> app.in_sidebar_mode() && !app.in_prompt_mode(),
        app.mode == Mode::SidebarPrompt ==> app.in_sidebar_mode() && app.in_prompt_mode(),
        app.mode == Mode::Terminal || app.mode == Mode::Prefix || app.mode == Mode::Launcher
            || app.mode == Mode::Help ==> !app.in_sidebar_mode() && !app.in_prompt_mode(),
        app.in_prompt_mode() ==> app.in_sidebar_mode(),
        app.mode is ConfirmMerge || app.mode is ConfirmKillWorkspace ==> app.in_sidebar_mode(),
        app.mode is ConfirmKill || app.mode is Scroll ==> !app.in_sidebar_mode(),
{
}

} // verus!
