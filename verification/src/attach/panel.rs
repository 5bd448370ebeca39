//! The sidebar's keys: moving about, jumping, and what is done to the row under
//! the cursor.

use vstd::prelude::*;

use crate::attach::app::{
    anchor_at, anchor_of, asked, says, steps_down, steps_up, App, Cursor, Fork, LaunchState, Mode,
    PromptLine, Query, Question, SIDEBAR_MIN_TOTAL,
};
use crate::attach::frames::workspace_at;
use crate::attach::geometry::at_tab;
use crate::attach::nav::{switched, tab_selected};
use crate::attach::picker::{fresh_launch, launcher_opened, tab_of};
use crate::attach::prompt::project_prompted;
use crate::config::{first_action, Action};
use crate::dirs::{is_jj_workspace, jj_mark_paths, jj_marks, jj_root_of};
use crate::key::{KeyCode, KeyEvent};
use crate::model::{
    find_from, find_landing, find_owner, find_workspace, landing_tab, owns_tab, PaneId, TabId,
    WorkspaceId, WorkspaceView,
};
use crate::protocol::{ask, no_frames, nothing, only, sent, Asked, Request, Sent, WireFrame};
use crate::sidebar::{
    lines, nested, place_of, project_of, EntryIdent, EntryLine, Sidebar, SidebarEntry,
};
use crate::text::{glue, glue3, texts};

verus! {

broadcast use vstd::string::group_string_axioms;

// ---- the cursor ----------------------------------------------------------

/// The row under the cursor.
pub open spec fn row(app: App) -> Option<EntryLine> {
    if app.cursor.selected < app.entries().len() {
        Some(app.entries()[app.cursor.selected as int])
    } else {
        None
    }
}

/// The cursor on row `i`.
pub open spec fn cursor_on(app: App, i: int) -> Cursor {
    Cursor { selected: i as usize, anchor: anchor_of(app.entries(), app.tree_len(), i) }
}

/// The first workspace that owns the tab `id`.
pub open spec fn owner_of(app: App, id: TabId) -> Option<WorkspaceView> {
    match find_from(app.workspaces@, owns_tab(id), 0) {
        Some(i) => Some(app.workspaces@[i]),
        None => None,
    }
}

/// The workspace under the cursor: the row's own, or the one that owns the
/// row's agent.
pub open spec fn row_workspace(app: App) -> Option<WorkspaceView> {
    match row(app) {
        Some(EntryLine::Workspace(w)) => workspace_at(app, w.id),
        Some(EntryLine::Agent(a)) => owner_of(app, a.tab),
        None => None,
    }
}

/// The row of the active project; the first where there is none.
pub open spec fn home_row(app: App) -> int {
    match app.owner() {
        Some(w) => match place_of(
            app.entries(),
            app.tree_len(),
            EntryIdent::Workspace(project_of(app.workspaces@, w)),
            0,
        ) {
            Some(i) => i,
            None => 0,
        },
        None => 0,
    }
}

/// What focusing the sidebar does: the cursor lands on the active project's
/// row. A terminal too narrow to show it is told so.
pub open spec fn sidebar_entered(pre: App, post: App) -> bool {
    if pre.last_content_width < SIDEBAR_MIN_TOTAL {
        &&& post == (App { status: post.status, ..pre })
        &&& says(post.status, "terminal too narrow for the sidebar"@, pre.clock.now)
    } else {
        post == (App {
            mode: Mode::Sidebar,
            cursor: cursor_on(pre, home_row(pre)),
            prefix_since: None,
            status: None,
            ..pre
        })
    }
}

impl App {
    /// Move the cursor to row `idx`.
    pub(crate) fn select_entry(&mut self, idx: usize)
        ensures
            *final(self) == (App { cursor: cursor_on(*old(self), idx as int), ..*old(self) }),
    {
        let sidebar: Sidebar = self.sidebar();
        let anchor: Option<(EntryIdent, WorkspaceId)> = anchor_at(&sidebar, idx);
        self.cursor = Cursor { selected: idx, anchor };
    }

    /// Focus the sidebar.
    pub(crate) fn focus_sidebar(&mut self)
        ensures
            sidebar_entered(*old(self), *final(self)),
    {
        if self.last_content_width < SIDEBAR_MIN_TOTAL {
            self.set_status("terminal too narrow for the sidebar".to_owned());
            return;
        }
        let sidebar: Sidebar = self.sidebar();
        let idx: usize = match self.active_project() {
            Some(p) => match sidebar.index_of(EntryIdent::Workspace(p)) {
                Some(i) => i,
                None => 0,
            },
            None => 0,
        };
        self.select_entry(idx);
        self.mode = Mode::Sidebar;
        self.prefix_since = None;
        self.status = None;
    }

    /// The place of the workspace under the cursor.
    fn selected_workspace(&self) -> (r: Option<usize>)
        ensures
            match r {
                Some(i) => i < self.workspaces@.len() && row_workspace(*self) == Some(
                    self.workspaces@[i as int],
                ),
                None => row_workspace(*self) is None,
            },
    {
        let sidebar: Sidebar = self.sidebar();
        if self.cursor.selected >= sidebar.entries.len() {
            return None;
        }
        assert(lines(sidebar.entries@)[self.cursor.selected as int]
            == sidebar.entries@[self.cursor.selected as int]@);
        match &sidebar.entries[self.cursor.selected] {
            SidebarEntry::Workspace(w) => find_workspace(&self.workspaces, w.id),
            SidebarEntry::Agent(a) => find_owner(&self.workspaces, a.tab),
        }
    }
}

// ---- jumping -------------------------------------------------------------

/// What jumping to the row under the cursor does: a workspace's tab is
/// selected, an agent's tab and its pane.
pub open spec fn row_entered(pre: App, post: App, out: Seq<Sent>) -> bool {
    let base = App { mode: Mode::Terminal, status: None, ..pre };
    match row(pre) {
        Some(EntryLine::Workspace(w)) => tab_selected(base, post, w.jump_tab, out),
        Some(EntryLine::Agent(a)) => {
            &&& post == (App {
                active_tab: Some(a.tab),
                zoom: false,
                focused: Some(a.pane),
                ..base
            })
            &&& out == only(Asked::TabSelect { id: a.tab })
        },
        None => post == base && out == nothing(),
    }
}

/// What starting an agent from the row under the cursor does: its workspace is
/// jumped to, and the launcher opens to start the choice in a tab of its own.
pub open spec fn agent_wanted(pre: App, post: App, out: Seq<Sent>) -> bool {
    match row_workspace(pre) {
        Some(w) => match landing_tab(w.tabs@) {
            Some(tab) => {
                &&& launcher_opened(
                    at_tab(pre, tab),
                    post,
                    LaunchState {
                        new_tab: Some(w.id),
                        ..fresh_launch(false, Some(w.name@))
                    },
                    Some(w.dir@),
                )
                &&& out == only(Asked::TabSelect { id: tab })
            },
            None => post == pre && out == nothing(),
        },
        None => post == pre && out == nothing(),
    }
}

/// The tab of the row under the cursor.
pub open spec fn row_tab(app: App) -> Option<TabId> {
    match row(app) {
        Some(EntryLine::Workspace(w)) => Some(w.jump_tab),
        Some(EntryLine::Agent(a)) => Some(a.tab),
        None => None,
    }
}

/// The directory of the workspace that owns that tab.
pub open spec fn row_dir(app: App) -> Option<Seq<char>> {
    match row_tab(app) {
        Some(tab) => match owner_of(app, tab) {
            Some(w) => Some(w.dir@),
            None => None,
        },
        None => None,
    }
}

/// What asking for a diff does: it is found out whether there is a repository.
pub open spec fn diff_wanted(pre: App, post: App) -> bool {
    match row_dir(pre) {
        Some(dir) => {
            &&& post == (App { query: post.query, ..pre })
            &&& asked(post.query) == Some(Question::DiffMarks { marks: jj_marks(dir) })
        },
        None => post == pre,
    }
}

/// The command that shows a diff.
pub open spec fn diff_command() -> Seq<Seq<char>> {
    seq!["sh"@, "-lc"@, "jj --no-pager diff --color=always | less -R"@]
}

/// What showing a diff does: a pane that goes away with its program runs it in
/// the row's tab. Without a repository it is refused.
pub open spec fn diff_shown(pre: App, post: App, found: Seq<bool>, out: Seq<Sent>) -> bool {
    match row_dir(pre) {
        Some(dir) => if jj_root_of(dir, found) is Some {
            &&& post == (App {
                mode: Mode::Terminal,
                status: None,
                active_tab: row_tab(pre),
                zoom: false,
                ..pre
            })
            &&& out == only(
                Asked::PaneRun { tab: row_tab(pre), cmd: diff_command(), ephemeral: true },
            )
        } else {
            &&& post == (App { status: post.status, ..pre })
            &&& says(post.status, "not a jj workspace: "@ + dir, pre.clock.now)
            &&& out == nothing()
        },
        None => post == pre && out == nothing(),
    }
}

impl App {
    /// Jump to the row under the cursor.
    pub(crate) fn jump_to_selected(&mut self) -> (r: Vec<WireFrame>)
        ensures
            row_entered(*old(self), *final(self), sent(r@)),
            old(self).well_formed() ==> final(self).well_formed(),
    {
        let sidebar: Sidebar = self.sidebar();
        let at: usize = self.cursor.selected;
        self.mode = Mode::Terminal;
        self.status = None;
        if at >= sidebar.entries.len() {
            return no_frames();
        }
        assert(lines(sidebar.entries@)[at as int] == sidebar.entries@[at as int]@);
        match &sidebar.entries[at] {
            SidebarEntry::Workspace(w) => self.select_tab(w.jump_tab),
            SidebarEntry::Agent(a) => {
                self.active_tab = Some(a.tab);
                self.zoom = false;
                self.focused = Some(a.pane);
                ask(Request::TabSelect { id: a.tab })
            },
        }
    }

    fn new_agent_in_selected(&mut self) -> (r: Vec<WireFrame>)
        ensures
            agent_wanted(*old(self), *final(self), sent(r@)),
            old(self).well_formed() ==> final(self).well_formed(),
    {
        let i: usize = match self.selected_workspace() {
            Some(i) => i,
            None => {
                return no_frames();
            },
        };
        let id: WorkspaceId = self.workspaces[i].id;
        let name: String = self.workspaces[i].name.clone();
        let dir: String = self.workspaces[i].dir.clone();
        match find_landing(&self.workspaces[i].tabs) {
            Some(tab) => {
                let out: Vec<WireFrame> = self.select_tab(tab);
                self.open_launcher(false, Some(name), Some(dir.as_str()));
                let ghost fresh = self.launch@;
                self.launch.new_tab = Some(id);
                assert(self.launch@ =~= (LaunchState { new_tab: Some(id), ..fresh }));
                out
            },
            None => no_frames(),
        }
    }

    fn row_place(&self) -> (r: Option<(TabId, String)>)
        ensures
            match r {
                Some(p) => row_tab(*self) == Some(p.0) && row_dir(*self) == Some(p.1@),
                None => row_dir(*self) is None,
            },
    {
        let sidebar: Sidebar = self.sidebar();
        if self.cursor.selected >= sidebar.entries.len() {
            return None;
        }
        assert(lines(sidebar.entries@)[self.cursor.selected as int]
            == sidebar.entries@[self.cursor.selected as int]@);
        let tab: TabId = match &sidebar.entries[self.cursor.selected] {
            SidebarEntry::Workspace(w) => w.jump_tab,
            SidebarEntry::Agent(a) => a.tab,
        };
        match find_owner(&self.workspaces, tab) {
            Some(i) => Some((tab, self.workspaces[i].dir.clone())),
            None => None,
        }
    }

    fn open_diff_pane(&mut self)
        ensures
            diff_wanted(*old(self), *final(self)),
            old(self).well_formed() ==> final(self).well_formed(),
    {
        match self.row_place() {
            Some((_, dir)) => {
                self.query = Some(Query::DiffMarks { marks: jj_mark_paths(dir.as_str()) });
            },
            None => {},
        }
    }

    /// It is known which of the paths above the row's directory mark a
    /// repository: show its diff.
    pub fn on_diff_marks(&mut self, found: &Vec<bool>) -> (r: Vec<WireFrame>)
        ensures
            diff_shown(*old(self), *final(self), found@, sent(r@)),
            old(self).well_formed() ==> final(self).well_formed(),
    {
        match self.row_place() {
            Some((tab, dir)) => {
                if !is_jj_workspace(dir.as_str(), found) {
                    self.set_status(glue("not a jj workspace: ", dir.as_str()));
                    return no_frames();
                }
                self.mode = Mode::Terminal;
                self.status = None;
                self.active_tab = Some(tab);
                self.zoom = false;
                let cmd: Vec<String> = vec![
                    "sh".to_owned(),
                    "-lc".to_owned(),
                    "jj --no-pager diff --color=always | less -R".to_owned(),
                ];
                assert(texts(cmd@) == diff_command());
                ask(Request::PaneRun { tab: Some(tab), cmd, ephemeral: true })
            },
            None => no_frames(),
        }
    }
}

// ---- what is done to a row -----------------------------------------------

/// What beginning to make a workspace does: its name is asked for.
pub open spec fn fork_begun(pre: App, post: App) -> bool {
    match row_workspace(pre) {
        Some(w) => {
            &&& post == (App {
                fork: Fork { target: Some(w.id), name: post.fork.name, ..pre.fork },
                mode: Mode::SidebarWorkspaceName,
                prompt: post.prompt,
                status: None,
                ..pre
            })
            &&& post.fork.name@ == Seq::<char>::empty()
            &&& post.prompt@ == (PromptLine { text: Seq::empty(), ..pre.prompt@ })
        },
        None => post == pre,
    }
}

/// What asking to merge the workspace under the cursor does. Only a nested one
/// can be merged.
pub open spec fn merge_questioned(pre: App, post: App) -> bool {
    match row_workspace(pre) {
        Some(w) => if nested(pre.workspaces@, w) {
            &&& post == (App { mode: Mode::ConfirmMerge(w.id), status: post.status, ..pre })
            &&& says(post.status, "merge "@ + w.name@ + " into trunk? y/N"@, pre.clock.now)
        } else {
            &&& post == (App { status: post.status, ..pre })
            &&& says(post.status, "only workspaces merge"@, pre.clock.now)
        },
        None => post == pre,
    }
}

/// What updating the workspace under the cursor does. Only a stale one is.
pub open spec fn update_asked(pre: App, post: App, out: Seq<Sent>) -> bool {
    match row_workspace(pre) {
        Some(w) => {
            &&& post == (App { status: post.status, ..pre })
            &&& if w.stale {
                &&& says(post.status, "updating "@ + w.name@ + "…"@, pre.clock.now)
                &&& out == only(Asked::WorkspaceUpdate { id: w.id })
            } else {
                &&& says(post.status, "not stale"@, pre.clock.now)
                &&& out == nothing()
            }
        },
        None => post == pre && out == nothing(),
    }
}

/// What asking to kill the row under the cursor does: an agent's row only ever
/// means its own pane, a workspace's row the workspace.
pub open spec fn row_kill_questioned(pre: App, post: App) -> bool {
    let lost = post == (App { status: post.status, ..pre }) && says(
        post.status,
        "nothing selected"@,
        pre.clock.now,
    );
    match row(pre) {
        Some(EntryLine::Agent(a)) => {
            &&& post == (App { mode: Mode::ConfirmKillAgent(a.pane), status: post.status, ..pre })
            &&& says(
                post.status,
                "kill "@ + a.kind + " · "@ + a.project_name + "? y/N"@,
                pre.clock.now,
            )
        },
        Some(EntryLine::Workspace(_)) => match row_workspace(pre) {
            Some(w) => {
                &&& post == (App {
                    mode: Mode::ConfirmKillWorkspace(w.id),
                    status: post.status,
                    ..pre
                })
                &&& says(
                    post.status,
                    "kill "@ + w.name@ + "? y · D discard checkout · N cancel"@,
                    pre.clock.now,
                )
            },
            None => lost,
        },
        None => lost,
    }
}

impl App {
    fn open_workspace_prompt(&mut self)
        ensures
            fork_begun(*old(self), *final(self)),
            old(self).well_formed() ==> final(self).well_formed(),
    {
        match self.selected_workspace() {
            Some(i) => {
                let ghost pre = *self;
                self.fork.target = Some(self.workspaces[i].id);
                self.fork.name = String::new();
                assert(self.fork.name@ == Seq::<char>::empty());
                self.mode = Mode::SidebarWorkspaceName;
                self.prompt.text = String::new();
                assert(self.prompt@ =~= (PromptLine { text: Seq::empty(), ..pre.prompt@ }));
                self.status = None;
            },
            None => {},
        }
    }

    fn confirm_merge(&mut self)
        ensures
            merge_questioned(*old(self), *final(self)),
            old(self).well_formed() ==> final(self).well_formed(),
    {
        match self.selected_workspace() {
            Some(i) => {
                if crate::sidebar::is_nested(self.workspaces.as_slice(), &self.workspaces[i]) {
                    let message: String = glue3(
                        "merge ",
                        self.workspaces[i].name.as_str(),
                        " into trunk? y/N",
                    );
                    self.mode = Mode::ConfirmMerge(self.workspaces[i].id);
                    self.set_status(message);
                } else {
                    self.set_status("only workspaces merge".to_owned());
                }
            },
            None => {},
        }
    }

    fn update_selected(&mut self) -> (r: Vec<WireFrame>)
        ensures
            update_asked(*old(self), *final(self), sent(r@)),
            old(self).well_formed() ==> final(self).well_formed(),
    {
        match self.selected_workspace() {
            Some(i) => {
                let id: WorkspaceId = self.workspaces[i].id;
                if !self.workspaces[i].stale {
                    self.set_status("not stale".to_owned());
                    return no_frames();
                }
                let message: String = glue3("updating ", self.workspaces[i].name.as_str(), "…");
                self.set_status(message);
                ask(Request::WorkspaceUpdate { id })
            },
            None => no_frames(),
        }
    }

    fn confirm_kill_selected(&mut self)
        ensures
            row_kill_questioned(*old(self), *final(self)),
            old(self).well_formed() ==> final(self).well_formed(),
    {
        let sidebar: Sidebar = self.sidebar();
        if self.cursor.selected >= sidebar.entries.len() {
            self.set_status("nothing selected".to_owned());
            return;
        }
        assert(lines(sidebar.entries@)[self.cursor.selected as int]
            == sidebar.entries@[self.cursor.selected as int]@);
        match &sidebar.entries[self.cursor.selected] {
            SidebarEntry::Agent(a) => {
                let mut message: String = glue3("kill ", a.kind.as_str(), " · ");
                message.append(a.project_name.as_str());
                message.append("? y/N");
                self.mode = Mode::ConfirmKillAgent(a.pane);
                self.set_status(message);
            },
            SidebarEntry::Workspace(_) => match self.selected_workspace() {
                Some(i) => {
                    let message: String = glue3(
                        "kill ",
                        self.workspaces[i].name.as_str(),
                        "? y · D discard checkout · N cancel",
                    );
                    self.mode = Mode::ConfirmKillWorkspace(self.workspaces[i].id);
                    self.set_status(message);
                },
                None => {
                    self.set_status("nothing selected".to_owned());
                },
            },
        }
    }
}

// ---- keys ----------------------------------------------------------------

/// What a key does in the sidebar.
pub open spec fn sidebar_key(pre: App, post: App, key: KeyEvent, out: Seq<Sent>) -> bool {
    let action = first_action(pre.config.keys.bindings@, key);
    let left = App { mode: Mode::Terminal, status: None, ..pre };
    if action == Some(Action::FocusRight) {
        post == left && out == nothing()
    } else if action == Some(Action::FocusLeft) {
        switched(left, post, false, out)
    } else {
        match key.code {
            KeyCode::Down => cursor_stepped(pre, post, true) && out == nothing(),
            KeyCode::Up => cursor_stepped(pre, post, false) && out == nothing(),
            KeyCode::Enter => row_entered(pre, post, out),
            KeyCode::Esc => post == left && out == nothing(),
            KeyCode::Char(c) => if c == 'j' {
                cursor_stepped(pre, post, true) && out == nothing()
            } else if c == 'k' {
                cursor_stepped(pre, post, false) && out == nothing()
            } else if c == 'n' {
                agent_wanted(pre, post, out)
            } else if c == 'a' {
                project_prompted(pre, post) && out == nothing()
            } else if c == 'd' {
                diff_wanted(pre, post) && out == nothing()
            } else if c == 'w' {
                fork_begun(pre, post) && out == nothing()
            } else if c == 'm' {
                merge_questioned(pre, post) && out == nothing()
            } else if c == 'u' {
                update_asked(pre, post, out)
            } else if c == 'x' {
                row_kill_questioned(pre, post) && out == nothing()
            } else {
                post == pre && out == nothing()
            },
            _ => post == pre && out == nothing(),
        }
    }
}

/// What a step of the cursor does: it goes to the next row that is shown.
pub open spec fn cursor_stepped(pre: App, post: App, down: bool) -> bool {
    let to = post.cursor.selected as int;
    &&& post == (App { cursor: cursor_on(pre, to), ..pre })
    &&& if down {
        steps_down(pre, pre.cursor.selected as int, to)
    } else {
        steps_up(pre, pre.cursor.selected as int, to)
    }
}

impl App {
    /// A key in the sidebar.
    #[verifier::rlimit(50)]
    pub(crate) fn on_key_sidebar(&mut self, key: KeyEvent) -> (r: Vec<WireFrame>)
        ensures
            sidebar_key(*old(self), *final(self), key, sent(r@)),
            old(self).well_formed() ==> final(self).well_formed(),
    {
        match self.config.keys.action_for(key) {
            Some(Action::FocusRight) => {
                self.mode = Mode::Terminal;
                self.status = None;
                return no_frames();
            },
            Some(Action::FocusLeft) => {
                self.mode = Mode::Terminal;
                self.status = None;
                return self.switch_tab(false);
            },
            _ => {},
        }
        match key.code {
            KeyCode::Char('j') | KeyCode::Down => {
                let sidebar: Sidebar = self.sidebar();
                let to: usize = self.next_visible(&sidebar, self.cursor.selected);
                self.select_entry(to);
                no_frames()
            },
            KeyCode::Char('k') | KeyCode::Up => {
                let sidebar: Sidebar = self.sidebar();
                let to: usize = self.prev_visible(&sidebar, self.cursor.selected);
                self.select_entry(to);
                no_frames()
            },
            KeyCode::Enter => self.jump_to_selected(),
            KeyCode::Char('n') => self.new_agent_in_selected(),
            KeyCode::Char('a') => {
                self.open_project_prompt();
                no_frames()
            },
            KeyCode::Char('d') => {
                self.open_diff_pane();
                no_frames()
            },
            KeyCode::Char('w') => {
                self.open_workspace_prompt();
                no_frames()
            },
            KeyCode::Char('m') => {
                self.confirm_merge();
                no_frames()
            },
            KeyCode::Char('u') => self.update_selected(),
            KeyCode::Char('x') => {
                self.confirm_kill_selected();
                no_frames()
            },
            KeyCode::Esc => {
                self.mode = Mode::Terminal;
                self.status = None;
                no_frames()
            },
            _ => no_frames(),
        }
    }
}

// ---- questions -----------------------------------------------------------

/// Whether a key says yes.
pub open spec fn yes(key: KeyEvent) -> bool {
    key.code == KeyCode::Char('y') || key.code == KeyCode::Char('Y')
}

fn says_yes(key: KeyEvent) -> (r: bool)
    ensures
        r == yes(key),
{
    matches!(key.code, KeyCode::Char('y') | KeyCode::Char('Y'))
}

/// What a key answers to the question whether to kill a pane: `y` kills it, `n`
/// and Esc do not, and any other key leaves the question.
pub open spec fn pane_kill_key(
    pre: App,
    post: App,
    key: KeyEvent,
    pane: PaneId,
    out: Seq<Sent>,
) -> bool {
    let left = App { mode: Mode::Terminal, status: None, ..pre };
    if yes(key) {
        post == left && out == only(Asked::PaneKill { pane })
    } else if key.code == KeyCode::Char('n') || key.code == KeyCode::Esc {
        post == left && out == nothing()
    } else {
        post == pre && out == nothing()
    }
}

/// What a key answers to the question whether to kill a workspace: `y` kills it,
/// `D` discards its checkout as well, and any other key does not. One that is
/// gone by then is not killed.
pub open spec fn workspace_kill_key(
    pre: App,
    post: App,
    key: KeyEvent,
    id: WorkspaceId,
    out: Seq<Sent>,
) -> bool {
    let discard = key.code == KeyCode::Char('D');
    let back = App { mode: Mode::Sidebar, status: None, ..pre };
    if !yes(key) && !discard {
        post == back && out == nothing()
    } else if workspace_at(pre, id) is None {
        &&& post == (App { status: post.status, ..back })
        &&& says(post.status, "that workspace is already gone"@, pre.clock.now)
        &&& out == nothing()
    } else {
        post == back && out == only(Asked::WorkspaceKill { id, discard })
    }
}

/// What a key answers to the question whether to kill an agent: `y` kills its
/// pane and any other key does not. One that is gone by then is not killed.
pub open spec fn agent_kill_key(
    pre: App,
    post: App,
    key: KeyEvent,
    pane: PaneId,
    out: Seq<Sent>,
) -> bool {
    let back = App { mode: Mode::Sidebar, status: None, ..pre };
    if !yes(key) {
        post == back && out == nothing()
    } else if tab_of(pre, pane) is None {
        &&& post == (App { status: post.status, ..back })
        &&& says(post.status, "that agent is already gone"@, pre.clock.now)
        &&& out == nothing()
    } else {
        post == back && out == only(Asked::PaneKill { pane })
    }
}

/// The name of a workspace; empty where it is gone.
pub open spec fn name_of(app: App, id: WorkspaceId) -> Seq<char> {
    match workspace_at(app, id) {
        Some(w) => w.name@,
        None => Seq::empty(),
    }
}

/// What a key answers to the question whether to merge a workspace.
pub open spec fn merge_key(
    pre: App,
    post: App,
    key: KeyEvent,
    id: WorkspaceId,
    out: Seq<Sent>,
) -> bool {
    if yes(key) {
        &&& post == (App {
            merge_pending: Some(id),
            mode: Mode::Sidebar,
            status: post.status,
            ..pre
        })
        &&& says(
            post.status,
            "merging "@ + name_of(pre, id) + "…"@,
            pre.clock.now,
        )
        &&& out == only(Asked::WorkspaceMerge { id, push: true })
    } else {
        post == (App { mode: Mode::Sidebar, status: None, ..pre }) && out == nothing()
    }
}

/// What a key answers to the question whether to discard a workspace that was
/// merged.
pub open spec fn cleanup_key(
    pre: App,
    post: App,
    key: KeyEvent,
    id: WorkspaceId,
    out: Seq<Sent>,
) -> bool {
    &&& post == (App { mode: Mode::Sidebar, status: None, ..pre })
    &&& out == if yes(key) {
        only(Asked::WorkspaceKill { id, discard: true })
    } else {
        nothing()
    }
}

impl App {
    pub(crate) fn on_key_confirm(&mut self, key: KeyEvent, pane: PaneId) -> (r: Vec<WireFrame>)
        ensures
            pane_kill_key(*old(self), *final(self), key, pane, sent(r@)),
            old(self).well_formed() ==> final(self).well_formed(),
    {
        if says_yes(key) {
            self.mode = Mode::Terminal;
            self.status = None;
            ask(Request::PaneKill { pane })
        } else {
            if matches!(key.code, KeyCode::Char('n') | KeyCode::Esc) {
                self.mode = Mode::Terminal;
                self.status = None;
            }
            no_frames()
        }
    }

    pub(crate) fn on_key_confirm_workspace(&mut self, key: KeyEvent, id: WorkspaceId) -> (r: Vec<
        WireFrame,
    >)
        ensures
            workspace_kill_key(*old(self), *final(self), key, id, sent(r@)),
            old(self).well_formed() ==> final(self).well_formed(),
    {
        let discard: bool = matches!(key.code, KeyCode::Char('D'));
        self.mode = Mode::Sidebar;
        self.status = None;
        if !says_yes(key) && !discard {
            return no_frames();
        }
        if find_workspace(&self.workspaces, id).is_none() {
            self.set_status("that workspace is already gone".to_owned());
            return no_frames();
        }
        ask(Request::WorkspaceKill { id, discard })
    }

    pub(crate) fn on_key_confirm_agent(&mut self, key: KeyEvent, pane: PaneId) -> (r: Vec<
        WireFrame,
    >)
        ensures
            agent_kill_key(*old(self), *final(self), key, pane, sent(r@)),
            old(self).well_formed() ==> final(self).well_formed(),
    {
        let ghost pre = *self;
        self.mode = Mode::Sidebar;
        self.status = None;
        if !says_yes(key) {
            return no_frames();
        }
        assert(tab_of(*self, pane) == tab_of(pre, pane));
        if self.tab_of_pane(pane).is_none() {
            self.set_status("that agent is already gone".to_owned());
            return no_frames();
        }
        ask(Request::PaneKill { pane })
    }

    pub(crate) fn on_key_confirm_merge(&mut self, key: KeyEvent, id: WorkspaceId) -> (r: Vec<
        WireFrame,
    >)
        ensures
            merge_key(*old(self), *final(self), key, id, sent(r@)),
            old(self).well_formed() ==> final(self).well_formed(),
    {
        self.mode = Mode::Sidebar;
        if says_yes(key) {
            self.merge_pending = Some(id);
            let name: String = match find_workspace(&self.workspaces, id) {
                Some(i) => self.workspaces[i].name.clone(),
                None => String::new(),
            };
            assert(name@ == name_of(*old(self), id));
            self.set_status(glue3("merging ", name.as_str(), "…"));
            ask(Request::WorkspaceMerge { id, push: true })
        } else {
            self.status = None;
            no_frames()
        }
    }

    pub(crate) fn on_key_confirm_cleanup(&mut self, key: KeyEvent, id: WorkspaceId) -> (r: Vec<
        WireFrame,
    >)
        ensures
            cleanup_key(*old(self), *final(self), key, id, sent(r@)),
            old(self).well_formed() ==> final(self).well_formed(),
    {
        self.mode = Mode::Sidebar;
        self.status = None;
        if says_yes(key) {
            ask(Request::WorkspaceKill { id, discard: true })
        } else {
            no_frames()
        }
    }
}

// ---- laws ----------------------------------------------------------------

/// Killing what an agent's row stands for never takes a workspace down: every
/// answer asks to kill that agent's pane, or nothing.
pub proof fn agent_rows_kill_only_their_pane(
    pre: App,
    mid: App,
    post: App,
    key: KeyEvent,
    out: Seq<Sent>,
)
    requires
        row(pre) matches Some(EntryLine::Agent(_)),
        row_kill_questioned(pre, mid),
        agent_kill_key(mid, post, key, row(pre)->0->Agent_0.pane, out),
    ensures
        mid.mode == Mode::ConfirmKillAgent(row(pre)->0->Agent_0.pane),
        out == nothing() || out == only(Asked::PaneKill { pane: row(pre)->0->Agent_0.pane }),
{
}

/// Nothing that is gone is killed, and nothing is killed without a yes: a
/// workspace is asked to be killed only where the view still has it and the key
/// was `y`, `Y` or `D`.
pub proof fn kills_are_confirmed(
    pre: App,
    post: App,
    key: KeyEvent,
    id: WorkspaceId,
    out: Seq<Sent>,
)
    requires
        workspace_kill_key(pre, post, key, id, out),
    ensures
        out != nothing() ==> (yes(key) || key.code == KeyCode::Char('D')) && workspace_at(pre, id)
            is Some && out == only(
            Asked::WorkspaceKill { id, discard: key.code == KeyCode::Char('D') },
        ),
        post.mode == Mode::Sidebar,
{
}

/// A step of the cursor lands on a row that is shown, or stays where it is.
pub proof fn steps_land_on_shown_rows(pre: App, post: App, down: bool)
    requires
        cursor_stepped(pre, post, down),
        pre.cursor.selected < pre.entries().len(),
    ensures
        post.cursor.selected < pre.entries().len(),
        post.cursor.selected == pre.cursor.selected || pre.row_shown(post.cursor.selected as int),
{
}

/// Down and `j` go down the sidebar and never up, up and `k` go up and never down,
/// to the nearest row that is shown.
pub proof fn the_cursor_goes_the_right_way(pre: App, post: App, key: KeyEvent, out: Seq<Sent>)
    requires
        sidebar_key(pre, post, key, out),
        first_action(pre.config.keys.bindings@, key) is None,
        pre.cursor.selected < pre.entries().len() <= usize::MAX,
    ensures
        key.code == KeyCode::Down || key.code == KeyCode::Char('j') ==> {
            &&& post.cursor.selected >= pre.cursor.selected && out == nothing()
            &&& forall|i: int|
                pre.cursor.selected < i < pre.entries().len() && #[trigger] pre.row_shown(i)
                    ==> pre.cursor.selected < post.cursor.selected <= i
        },
        key.code == KeyCode::Up || key.code == KeyCode::Char('k') ==> {
            &&& post.cursor.selected <= pre.cursor.selected && out == nothing()
            &&& forall|i: int|
                0 <= i < pre.cursor.selected && #[trigger] pre.row_shown(i) ==> i
                    <= post.cursor.selected < pre.cursor.selected
        },
{
}

/// Up after down returns to the row that one came from, where it is shown.
pub proof fn down_then_up_returns_to_the_row(pre: App, mid: App, post: App)
    requires
        cursor_stepped(pre, mid, true),
        cursor_stepped(mid, post, false),
        pre.cursor.selected < pre.entries().len() <= usize::MAX,
        pre.row_shown(pre.cursor.selected as int),
        mid.cursor.selected != pre.cursor.selected,
    ensures
        post.cursor.selected == pre.cursor.selected,
{
    assert(mid.entries() == pre.entries());
    assert(mid.row_shown(pre.cursor.selected as int));
    let to = post.cursor.selected as int;
    assert(mid.row_shown(to) == pre.row_shown(to));
}

/// Enter goes to what the row stands for: a workspace's own tab, an agent's tab with
/// the agent's pane in focus; keys then go to the pane.
pub proof fn enter_goes_to_the_row(pre: App, post: App, key: KeyEvent, out: Seq<Sent>)
    requires
        sidebar_key(pre, post, key, out),
        first_action(pre.config.keys.bindings@, key) is None,
        key.code == KeyCode::Enter,
    ensures
        post.mode == Mode::Terminal,
        row(pre) matches Some(EntryLine::Agent(a)) ==> post.focused == Some(a.pane)
            && post.active_tab == Some(a.tab) && out == only(Asked::TabSelect { id: a.tab }),
        row(pre) matches Some(EntryLine::Workspace(w)) ==> post.active_tab == Some(w.jump_tab)
            && out == only(Asked::TabSelect { id: w.jump_tab }),
        row(pre) is None ==> out == nothing(),
{
}

/// The letters of the sidebar do what they stand for, each for the workspace of the
/// row under the cursor: `w` asks for the name of a new one beside it, `m` whether to
/// merge it if it is nested, `u` updates it if it is stale, `x` asks whether to kill
/// it, and `a` asks for a project.
pub proof fn letters_do_what_they_stand_for(
    pre: App,
    post: App,
    key: KeyEvent,
    w: WorkspaceView,
    out: Seq<Sent>,
)
    requires
        sidebar_key(pre, post, key, out),
        first_action(pre.config.keys.bindings@, key) is None,
        row_workspace(pre) == Some(w),
    ensures
        key.code == KeyCode::Char('w') ==> post.mode == Mode::SidebarWorkspaceName
            && post.fork.target == Some(w.id) && out == nothing(),
        key.code == KeyCode::Char('m') ==> out == nothing() && (if nested(pre.workspaces@, w) {
            post.mode == Mode::ConfirmMerge(w.id)
        } else {
            post.mode == pre.mode
        }),
        key.code == KeyCode::Char('u') ==> post.mode == pre.mode && (if w.stale {
            out == only(Asked::WorkspaceUpdate { id: w.id })
        } else {
            out == nothing()
        }),
        key.code == KeyCode::Char('x') && row(pre) is Some ==> out == nothing() && (match row(
            pre,
        )->0 {
            EntryLine::Workspace(_) => post.mode == Mode::ConfirmKillWorkspace(w.id),
            EntryLine::Agent(a) => post.mode == Mode::ConfirmKillAgent(a.pane),
        }),
        key.code == KeyCode::Char('a') ==> post.mode == Mode::SidebarPrompt && out == nothing(),
{
}

/// A yes, large or small, kills what the question was about, and nothing else says
/// yes; a workspace's checkout is discarded only on `D` or where it was merged.
pub proof fn answers_do_what_was_asked(
    pre: App,
    post: App,
    key: KeyEvent,
    pane: PaneId,
    id: WorkspaceId,
    out: Seq<Sent>,
)
    ensures
        yes(key) == (key.code == KeyCode::Char('y') || key.code == KeyCode::Char('Y')),
        pane_kill_key(pre, post, key, pane, out) && key.code == KeyCode::Char('y') ==> out == only(
            Asked::PaneKill { pane },
        ),
        pane_kill_key(pre, post, key, pane, out) && key.code == KeyCode::Char('n') ==> out
            == nothing() && post.mode == Mode::Terminal,
        agent_kill_key(pre, post, key, pane, out) && key.code == KeyCode::Char('y') && tab_of(
            pre,
            pane,
        ) is Some ==> out == only(Asked::PaneKill { pane }),
        agent_kill_key(pre, post, key, pane, out) && key.code == KeyCode::Char('n') ==> out
            == nothing(),
        workspace_kill_key(pre, post, key, id, out) && key.code == KeyCode::Char('y')
            && workspace_at(pre, id) is Some ==> out == only(
            Asked::WorkspaceKill { id, discard: false },
        ),
        workspace_kill_key(pre, post, key, id, out) && key.code == KeyCode::Char('D')
            && workspace_at(pre, id) is Some ==> out == only(
            Asked::WorkspaceKill { id, discard: true },
        ),
        workspace_kill_key(pre, post, key, id, out) && key.code == KeyCode::Char('n') ==> out
            == nothing(),
        merge_key(pre, post, key, id, out) && key.code == KeyCode::Char('n') ==> out == nothing()
            && post.merge_pending == pre.merge_pending,
        cleanup_key(pre, post, key, id, out) && key.code == KeyCode::Char('y') ==> out == only(
            Asked::WorkspaceKill { id, discard: true },
        ),
        cleanup_key(pre, post, key, id, out) && key.code == KeyCode::Char('n') ==> out == nothing(),
{
}

/// `n` opens the launcher for the workspace of the row, which the client goes to, and
/// what is chosen there gets a tab of its own; `d` shows the changes of that workspace,
/// in a pane of the row's tab that goes away with its program.
pub proof fn agents_and_diffs_go_to_the_row(
    pre: App,
    post: App,
    w: WorkspaceView,
    tab: TabId,
    found: Seq<bool>,
    out: Seq<Sent>,
)
    requires
        row_workspace(pre) == Some(w),
    ensures
        agent_wanted(pre, post, out) && landing_tab(w.tabs@) == Some(tab) ==> post.mode
            == Mode::Launcher && post.active_tab == Some(tab) && post.launch@.new_tab == Some(w.id)
            && post.launch@.target == Some(w.name@) && out == only(Asked::TabSelect { id: tab }),
        diff_shown(pre, post, found, out) && row_dir(pre) is Some && jj_root_of(
            row_dir(pre)->0,
            found,
        ) is Some ==> post.mode == Mode::Terminal && post.active_tab == row_tab(pre) && out.len()
            == 1 && (out[0] matches Sent::Control(Asked::PaneRun { tab: t, cmd, ephemeral }) && t
            == row_tab(pre) && ephemeral && cmd.len() == 3),
        diff_shown(pre, post, found, out) && row_dir(pre) is Some && jj_root_of(
            row_dir(pre)->0,
            found,
        ) is None ==> out == nothing() && post.mode == pre.mode,
{
}

/// The row of an agent stands for its own tab and pane, that of a workspace for the tab
/// that a jump to it lands on.
pub proof fn rows_stand_for_their_tab(app: App)
    ensures
        row(app) matches Some(EntryLine::Agent(a)) ==> row_tab(app) == Some(a.tab),
        row(app) matches Some(EntryLine::Workspace(w)) ==> row_tab(app) == Some(w.jump_tab),
        row(app) is None ==> row_tab(app) is None,
        app.cursor.selected < app.entries().len() ==> row(app) == Some(
            app.entries()[app.cursor.selected as int],
        ),
{
}

} // verus!
