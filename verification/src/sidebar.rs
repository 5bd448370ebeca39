//! The sidebar's contents and geometry: the workspaces as two stacked sections,
//! the project tree (each project over its agents and its nested workspaces,
//! each of those over their own agents) and the queue of agents that wait for
//! someone, and which row of the screen belongs to which entry.

use vstd::prelude::*;

use crate::model::{
    AgentState, PaneId, PaneInfo, SubagentInfo, TabId, TabView, WorkspaceId, WorkspaceView,
};
use crate::path::{below, strip_prefix};
use crate::text::{copy_opt, glue, opt_text};

verus! {

broadcast use vstd::string::group_string_axioms;

/// One selectable sidebar row: a workspace (jumps to a tab) or an agent pane
/// (jumps to a tab and focuses the pane).
#[derive(Debug, Clone, PartialEq)]
pub enum SidebarEntry {
    Workspace(WorkspaceRow),
    Agent(AgentRow),
}

/// The two collapsible sections. Their headers live in the sidebar's frame: the
/// top border and the divider.
#[derive(Debug, Clone, Copy, PartialEq, Eq, Structural)]
pub enum Section {
    Projects,
    Waiting,
}

/// What a selectable row is, whatever its position. The waiting copy of an
/// agent is distinct from its row in the tree.
#[derive(Debug, Clone, Copy, PartialEq, Eq, Structural)]
pub enum EntryIdent {
    Workspace(WorkspaceId),
    Agent(PaneId),
    Waiting(PaneId),
}

/// Agent counts by the states that call for attention. Idle and unknown agents
/// are not counted.
#[derive(Debug, Clone, Copy, PartialEq, Eq, Structural)]
pub struct AgentCensus {
    pub blocked: usize,
    pub working: usize,
    pub done: usize,
}

/// A workspace row.
#[derive(Debug, Clone, PartialEq)]
pub struct WorkspaceRow {
    pub id: WorkspaceId,
    pub name: String,
    /// The branch, or else the directory.
    pub subtitle: Option<String>,
    pub changes: Option<String>,
    pub stale: bool,
    /// Whether this workspace owns the active tab.
    pub active: bool,
    /// The tab that selecting this workspace jumps to.
    pub jump_tab: TabId,
    /// The top-level project this row belongs to.
    pub project: WorkspaceId,
    /// The tree guide of a nested workspace; none for a project.
    pub guide: Option<char>,
    /// A project counts its whole subtree, a nested workspace its own agents.
    pub census: AgentCensus,
}

/// An agent row.
#[derive(Debug, Clone, PartialEq)]
pub struct AgentRow {
    pub pane: PaneId,
    pub tab: TabId,
    pub title: String,
    pub state: AgentState,
    pub kind: String,
    /// The top-level project that owns the agent's workspace, and its name.
    pub project: WorkspaceId,
    pub project_name: String,
    /// The tree guide in the tree; none on waiting rows.
    pub guide: Option<char>,
    /// 1 under a project, 2 under a nested workspace, 0 on waiting rows.
    pub depth: u8,
    /// Shown as sub-rows under the agent; none on waiting rows.
    pub subagents: Vec<SubagentInfo>,
}

/// The tree entries, then, from `tree_count` on, the waiting entries. A
/// collapsed section shows its header alone.
#[derive(Debug, Clone, PartialEq)]
pub struct Sidebar {
    pub entries: Vec<SidebarEntry>,
    pub tree_count: usize,
    pub projects_collapsed: bool,
    pub waiting_collapsed: bool,
}

// ---- the model of a row --------------------------------------------------

/// What a workspace row says.
pub struct WorkspaceLine {
    pub id: WorkspaceId,
    pub name: Seq<char>,
    pub subtitle: Option<Seq<char>>,
    pub changes: Option<Seq<char>>,
    pub stale: bool,
    pub active: bool,
    pub jump_tab: TabId,
    pub project: WorkspaceId,
    pub guide: Option<char>,
    pub census: AgentCensus,
}

/// What an agent row says.
pub struct AgentLine {
    pub pane: PaneId,
    pub tab: TabId,
    pub title: Seq<char>,
    pub state: AgentState,
    pub kind: Seq<char>,
    pub project: WorkspaceId,
    pub project_name: Seq<char>,
    pub guide: Option<char>,
    pub depth: u8,
    pub subagents: Seq<SubagentInfo>,
}

/// What a row says.
pub enum EntryLine {
    Workspace(WorkspaceLine),
    Agent(AgentLine),
}

impl View for WorkspaceRow {
    type V = WorkspaceLine;

    open spec fn view(&self) -> WorkspaceLine {
        WorkspaceLine {
            id: self.id,
            name: self.name@,
            subtitle: opt_text(self.subtitle),
            changes: opt_text(self.changes),
            stale: self.stale,
            active: self.active,
            jump_tab: self.jump_tab,
            project: self.project,
            guide: self.guide,
            census: self.census,
        }
    }
}

impl View for AgentRow {
    type V = AgentLine;

    open spec fn view(&self) -> AgentLine {
        AgentLine {
            pane: self.pane,
            tab: self.tab,
            title: self.title@,
            state: self.state,
            kind: self.kind@,
            project: self.project,
            project_name: self.project_name@,
            guide: self.guide,
            depth: self.depth,
            subagents: self.subagents@,
        }
    }
}

impl View for SidebarEntry {
    type V = EntryLine;

    open spec fn view(&self) -> EntryLine {
        match self {
            SidebarEntry::Workspace(w) => EntryLine::Workspace(w@),
            SidebarEntry::Agent(a) => EntryLine::Agent(a@),
        }
    }
}

/// What a list of rows says.
pub open spec fn lines(s: Seq<SidebarEntry>) -> Seq<EntryLine> {
    s.map_values(|e: SidebarEntry| e@)
}

/// What a list of agent rows says.
pub open spec fn agent_lines(s: Seq<AgentRow>) -> Seq<AgentLine> {
    s.map_values(|a: AgentRow| a@)
}

/// Agent rows as entries.
pub open spec fn as_entries(s: Seq<AgentLine>) -> Seq<EntryLine> {
    s.map_values(|a: AgentLine| EntryLine::Agent(a))
}

// ---- counting agents -----------------------------------------------------

/// How many of `panes` run an agent in `state`.
pub open spec fn agents_in_panes(panes: Seq<PaneInfo>, state: AgentState) -> nat
    decreases panes.len(),
{
    if panes.len() == 0 {
        0
    } else {
        agents_in_panes(panes.drop_last(), state) + (if panes.last().agent is Some
            && panes.last().state == state {
            1nat
        } else {
            0nat
        })
    }
}

/// How many panes of `tabs` run an agent in `state`.
pub open spec fn agents_in_tabs(tabs: Seq<TabView>, state: AgentState) -> nat
    decreases tabs.len(),
{
    if tabs.len() == 0 {
        0
    } else {
        agents_in_tabs(tabs.drop_last(), state) + agents_in_panes(tabs.last().panes@, state)
    }
}

/// How many agents of `workspaces` are in `state`.
pub open spec fn agents_in(workspaces: Seq<WorkspaceView>, state: AgentState) -> nat
    decreases workspaces.len(),
{
    if workspaces.len() == 0 {
        0
    } else {
        agents_in(workspaces.drop_last(), state) + agents_in_tabs(
            workspaces.last().tabs@,
            state,
        )
    }
}

/// How many agents are in `state` in those of `workspaces` that were forked
/// from `id`.
pub open spec fn agents_under(workspaces: Seq<WorkspaceView>, id: WorkspaceId, state: AgentState) -> nat
    decreases workspaces.len(),
{
    if workspaces.len() == 0 {
        0
    } else {
        agents_under(workspaces.drop_last(), id, state) + (if workspaces.last().parent == Some(id) {
            agents_in_tabs(workspaces.last().tabs@, state)
        } else {
            0
        })
    }
}

/// `n`, or the largest count there is.
pub open spec fn capped(n: nat) -> usize {
    if n <= usize::MAX {
        n as usize
    } else {
        usize::MAX
    }
}

impl AgentCensus {
    /// This census with these counts added.
    pub open spec fn plus(self, blocked: nat, working: nat, done: nat) -> AgentCensus {
        AgentCensus {
            blocked: capped(self.blocked as nat + blocked),
            working: capped(self.working as nat + working),
            done: capped(self.done as nat + done),
        }
    }

    /// The census that holds these counts.
    pub open spec fn of(blocked: nat, working: nat, done: nat) -> AgentCensus {
        AgentCensus { blocked: capped(blocked), working: capped(working), done: capped(done) }
    }

    /// This census with the agents of `tabs` added.
    pub open spec fn plus_tabs(self, tabs: Seq<TabView>) -> AgentCensus {
        self.plus(
            agents_in_tabs(tabs, AgentState::Blocked),
            agents_in_tabs(tabs, AgentState::Working),
            agents_in_tabs(tabs, AgentState::Done),
        )
    }

    /// Whether no agent calls for attention.
    pub fn is_empty(&self) -> (r: bool)
        ensures
            r == (self.blocked == 0 && self.working == 0 && self.done == 0),
    {
        self.blocked == 0 && self.working == 0 && self.done == 0
    }

    /// One more agent in `state`.
    fn count(&mut self, state: AgentState)
        ensures
            *final(self) == old(self).plus(
                if state == AgentState::Blocked {
                    1
                } else {
                    0
                },
                if state == AgentState::Working {
                    1
                } else {
                    0
                },
                if state == AgentState::Done {
                    1
                } else {
                    0
                },
            ),
    {
        match state {
            AgentState::Blocked => {
                self.blocked = self.blocked.saturating_add(1);
            },
            AgentState::Working => {
                self.working = self.working.saturating_add(1);
            },
            AgentState::Done => {
                self.done = self.done.saturating_add(1);
            },
            AgentState::Idle | AgentState::Unknown => {},
        }
    }
}

impl Default for AgentCensus {
    /// Nobody counted.
    fn default() -> (r: AgentCensus)
        ensures
            r == AgentCensus::of(0, 0, 0),
    {
        AgentCensus { blocked: 0, working: 0, done: 0 }
    }
}

/// Count the agents of `w` into `census`.
fn tally(census: &mut AgentCensus, w: &WorkspaceView)
    ensures
        *final(census) == old(census).plus_tabs(w.tabs@),
{
    let ghost start = *census;
    for i in 0..w.tabs.len()
        invariant
            *census == start.plus_tabs(w.tabs@.take(i as int)),
    {
        let panes: &Vec<PaneInfo> = &w.tabs[i].panes;
        let ghost before = *census;
        for j in 0..panes.len()
            invariant
                *census == before.plus(
                    agents_in_panes(panes@.take(j as int), AgentState::Blocked),
                    agents_in_panes(panes@.take(j as int), AgentState::Working),
                    agents_in_panes(panes@.take(j as int), AgentState::Done),
                ),
        {
            assert(panes@.take(j + 1).drop_last() == panes@.take(j as int));
            if panes[j].agent.is_some() {
                census.count(panes[j].state);
            }
        }
        assert(panes@.take(panes@.len() as int) == panes@);
        assert(w.tabs@.take(i + 1).drop_last() == w.tabs@.take(i as int));
    }
    assert(w.tabs@.take(w.tabs@.len() as int) == w.tabs@);
}

/// The census over every agent pane of `workspaces`.
pub fn census(workspaces: &[WorkspaceView]) -> (r: AgentCensus)
    ensures
        r == AgentCensus::of(
            agents_in(workspaces@, AgentState::Blocked),
            agents_in(workspaces@, AgentState::Working),
            agents_in(workspaces@, AgentState::Done),
        ),
{
    let mut census: AgentCensus = AgentCensus::default();
    for i in 0..workspaces.len()
        invariant
            census == AgentCensus::of(
                agents_in(workspaces@.take(i as int), AgentState::Blocked),
                agents_in(workspaces@.take(i as int), AgentState::Working),
                agents_in(workspaces@.take(i as int), AgentState::Done),
            ),
    {
        assert(workspaces@.take(i + 1).drop_last() == workspaces@.take(i as int));
        tally(&mut census, &workspaces[i]);
    }
    assert(workspaces@.take(workspaces@.len() as int) == workspaces@);
    census
}

// ---- what the sidebar holds ----------------------------------------------

/// Whether `workspaces` holds the workspace `id`.
pub open spec fn present(workspaces: Seq<WorkspaceView>, id: WorkspaceId) -> bool {
    exists|i: int| 0 <= i < workspaces.len() && (#[trigger] workspaces[i]).id == id
}

/// Whether `w` nests under another workspace: the one it was forked from is
/// still there.
pub open spec fn nested(workspaces: Seq<WorkspaceView>, w: WorkspaceView) -> bool {
    w.parent matches Some(p) && present(workspaces, p)
}

/// The top-level project of `w`.
pub open spec fn project_of(workspaces: Seq<WorkspaceView>, w: WorkspaceView) -> WorkspaceId {
    match w.parent {
        Some(p) if present(workspaces, p) => p,
        _ => w.id,
    }
}

/// The name of the first of `workspaces` that has the number `id`.
pub open spec fn name_of(workspaces: Seq<WorkspaceView>, id: WorkspaceId) -> Seq<char>
    decreases workspaces.len(),
{
    if workspaces.len() == 0 {
        Seq::empty()
    } else if workspaces[0].id == id {
        workspaces[0].name@
    } else {
        name_of(workspaces.drop_first(), id)
    }
}

/// Whether `tabs` holds the tab `id`.
pub open spec fn owns(tabs: Seq<TabView>, id: TabId) -> bool {
    exists|i: int| 0 <= i < tabs.len() && (#[trigger] tabs[i]).id == id
}

/// `dir` with the home directory written `~`; nothing for an empty path.
pub open spec fn shortened(dir: Seq<char>, home: Option<Seq<char>>) -> Option<Seq<char>> {
    if dir.len() == 0 {
        None
    } else {
        Some(
            match home {
                Some(h) => match below(dir, h) {
                    Some(rest) => if rest.len() == 0 {
                        "~"@
                    } else {
                        "~/"@ + rest
                    },
                    None => dir,
                },
                None => dir,
            },
        )
    }
}

/// The row of workspace `w`; nothing where it has no tab to jump to.
pub open spec fn workspace_line(
    workspaces: Seq<WorkspaceView>,
    w: WorkspaceView,
    active_tab: Option<TabId>,
    home: Option<Seq<char>>,
    guide: Option<char>,
) -> Option<WorkspaceLine> {
    let active = active_tab matches Some(at) && owns(w.tabs@, at);
    if w.tabs@.len() == 0 {
        None
    } else {
        Some(
            WorkspaceLine {
                id: w.id,
                name: w.name@,
                subtitle: match w.branch {
                    Some(b) => Some(b@),
                    None => shortened(w.dir@, home),
                },
                changes: opt_text(w.changes),
                stale: w.stale,
                active,
                jump_tab: if active {
                    active_tab->0
                } else {
                    w.tabs@[0].id
                },
                project: project_of(workspaces, w),
                guide,
                census: if guide is None && !nested(workspaces, w) {
                    AgentCensus::of(
                        agents_in_tabs(w.tabs@, AgentState::Blocked) + agents_under(
                            workspaces,
                            w.id,
                            AgentState::Blocked,
                        ),
                        agents_in_tabs(w.tabs@, AgentState::Working) + agents_under(
                            workspaces,
                            w.id,
                            AgentState::Working,
                        ),
                        agents_in_tabs(w.tabs@, AgentState::Done) + agents_under(
                            workspaces,
                            w.id,
                            AgentState::Done,
                        ),
                    )
                } else {
                    AgentCensus::of(0, 0, 0).plus_tabs(w.tabs@)
                },
            },
        )
    }
}

/// Whether an agent in `state` waits for someone.
pub open spec fn waits(state: AgentState) -> bool {
    state == AgentState::Blocked || state == AgentState::Done
}

/// The row of `pane`, where it runs an agent that belongs in the section: in
/// the tree every agent does, in the queue those that wait.
pub open spec fn agent_line(
    workspaces: Seq<WorkspaceView>,
    w: WorkspaceView,
    tab: TabId,
    pane: PaneInfo,
    section: Section,
    depth: u8,
) -> Seq<AgentLine> {
    if pane.agent is None || (section == Section::Waiting && !waits(pane.state)) {
        Seq::empty()
    } else {
        seq![
            AgentLine {
                pane: pane.id,
                tab,
                title: pane.title@,
                state: pane.state,
                kind: pane.agent->0@,
                project: project_of(workspaces, w),
                project_name: name_of(workspaces, project_of(workspaces, w)),
                guide: None,
                depth,
                subagents: if section == Section::Waiting {
                    Seq::empty()
                } else {
                    pane.subagents@
                },
            },
        ]
    }
}

/// The agent rows of `panes`, in order.
pub open spec fn pane_lines(
    workspaces: Seq<WorkspaceView>,
    w: WorkspaceView,
    tab: TabId,
    panes: Seq<PaneInfo>,
    section: Section,
    depth: u8,
) -> Seq<AgentLine>
    decreases panes.len(),
{
    if panes.len() == 0 {
        Seq::empty()
    } else {
        pane_lines(workspaces, w, tab, panes.drop_last(), section, depth) + agent_line(
            workspaces,
            w,
            tab,
            panes.last(),
            section,
            depth,
        )
    }
}

/// The agent rows of `tabs`, in order.
pub open spec fn tab_lines(
    workspaces: Seq<WorkspaceView>,
    w: WorkspaceView,
    tabs: Seq<TabView>,
    section: Section,
    depth: u8,
) -> Seq<AgentLine>
    decreases tabs.len(),
{
    if tabs.len() == 0 {
        Seq::empty()
    } else {
        tab_lines(workspaces, w, tabs.drop_last(), section, depth) + pane_lines(
            workspaces,
            w,
            tabs.last().id,
            tabs.last().panes@,
            section,
            depth,
        )
    }
}

/// Attention order: blocked first, then working, done, idle, unknown.
pub open spec fn rank_of(state: AgentState) -> int {
    match state {
        AgentState::Blocked => 0,
        AgentState::Working => 1,
        AgentState::Done => 2,
        AgentState::Idle => 3,
        AgentState::Unknown => 4,
    }
}

/// Whether row `a` stands before row `b`: in the tree by pane number, in the
/// queue by attention first.
pub open spec fn precedes(a: AgentLine, b: AgentLine, section: Section) -> bool {
    if section == Section::Waiting && rank_of(a.state) != rank_of(b.state) {
        rank_of(a.state) < rank_of(b.state)
    } else {
        a.pane.0 < b.pane.0
    }
}

/// `s` with `row` before the first one that it does not come after.
pub open spec fn placed(row: AgentLine, s: Seq<AgentLine>, section: Section) -> Seq<AgentLine>
    decreases s.len(),
{
    if s.len() == 0 || !precedes(s[0], row, section) {
        seq![row] + s
    } else {
        seq![s[0]] + placed(row, s.drop_first(), section)
    }
}

/// The rows in the section's order; rows that tie keep theirs.
pub open spec fn ordered(s: Seq<AgentLine>, section: Section) -> Seq<AgentLine>
    decreases s.len(),
{
    if s.len() == 0 {
        Seq::empty()
    } else {
        placed(s[0], ordered(s.drop_first(), section), section)
    }
}

/// The guide of the `i`th of `n` siblings.
pub open spec fn guide_of(i: int, n: int) -> char {
    if i + 1 == n {
        '└'
    } else {
        '├'
    }
}

/// The rows with their tree guides.
pub open spec fn guided(s: Seq<AgentLine>) -> Seq<AgentLine> {
    Seq::new(s.len(), |i: int| AgentLine { guide: Some(guide_of(i, s.len() as int)), ..s[i] })
}

/// A workspace in the tree: its row, then its agents.
pub open spec fn branch_lines(
    workspaces: Seq<WorkspaceView>,
    w: WorkspaceView,
    active_tab: Option<TabId>,
    home: Option<Seq<char>>,
    guide: Option<char>,
    depth: u8,
) -> Seq<EntryLine> {
    let row = match workspace_line(workspaces, w, active_tab, home, guide) {
        Some(line) => seq![EntryLine::Workspace(line)],
        None => Seq::empty(),
    };
    row + as_entries(
        guided(
            ordered(
                tab_lines(workspaces, w, w.tabs@, Section::Projects, depth),
                Section::Projects,
            ),
        ),
    )
}

/// The workspaces forked from `id`.
pub open spec fn children_of(workspaces: Seq<WorkspaceView>, id: WorkspaceId) -> Seq<WorkspaceView>
    decreases workspaces.len(),
{
    if workspaces.len() == 0 {
        Seq::empty()
    } else if workspaces.last().parent == Some(id) {
        children_of(workspaces.drop_last(), id).push(workspaces.last())
    } else {
        children_of(workspaces.drop_last(), id)
    }
}

/// The first `n` of the nested workspaces `children`, each over its agents.
pub open spec fn children_lines(
    workspaces: Seq<WorkspaceView>,
    children: Seq<WorkspaceView>,
    n: int,
    active_tab: Option<TabId>,
    home: Option<Seq<char>>,
) -> Seq<EntryLine>
    decreases n,
{
    if n <= 0 {
        Seq::empty()
    } else {
        children_lines(workspaces, children, n - 1, active_tab, home) + branch_lines(
            workspaces,
            children[n - 1],
            active_tab,
            home,
            Some(guide_of(n - 1, children.len() as int)),
            2,
        )
    }
}

/// The part of the tree that `list` roots: each project over its agents and
/// its nested workspaces.
pub open spec fn tree_lines(
    workspaces: Seq<WorkspaceView>,
    list: Seq<WorkspaceView>,
    active_tab: Option<TabId>,
    home: Option<Seq<char>>,
) -> Seq<EntryLine>
    decreases list.len(),
{
    if list.len() == 0 {
        Seq::empty()
    } else {
        let w = list.last();
        let children = children_of(workspaces, w.id);
        tree_lines(workspaces, list.drop_last(), active_tab, home) + (if nested(workspaces, w) {
            Seq::empty()
        } else {
            branch_lines(workspaces, w, active_tab, home, None, 1) + children_lines(
                workspaces,
                children,
                children.len() as int,
                active_tab,
                home,
            )
        })
    }
}

/// The agents of `list` that wait for someone, in the order of the list.
pub open spec fn waiting_lines(
    workspaces: Seq<WorkspaceView>,
    list: Seq<WorkspaceView>,
) -> Seq<AgentLine>
    decreases list.len(),
{
    if list.len() == 0 {
        Seq::empty()
    } else {
        waiting_lines(workspaces, list.drop_last()) + tab_lines(
            workspaces,
            list.last(),
            list.last().tabs@,
            Section::Waiting,
            0,
        )
    }
}

// ---- building it ---------------------------------------------------------

/// Whether `workspaces` holds the workspace `id`.
fn is_present(workspaces: &[WorkspaceView], id: WorkspaceId) -> (r: bool)
    ensures
        r == present(workspaces@, id),
{
    for i in 0..workspaces.len()
        invariant
            forall|j: int| 0 <= j < i ==> (#[trigger] workspaces@[j]).id != id,
    {
        if workspaces[i].id == id {
            assert(workspaces@[i as int].id == id);
            return true;
        }
    }
    false
}

pub(crate) fn is_nested(workspaces: &[WorkspaceView], w: &WorkspaceView) -> (r: bool)
    ensures
        r == nested(workspaces@, *w),
{
    match w.parent {
        Some(p) => is_present(workspaces, p),
        None => false,
    }
}

pub(crate) fn find_project(workspaces: &[WorkspaceView], w: &WorkspaceView) -> (r: WorkspaceId)
    ensures
        r == project_of(workspaces@, *w),
{
    match w.parent {
        Some(p) => if is_present(workspaces, p) {
            p
        } else {
            w.id
        },
        None => w.id,
    }
}

fn find_name(workspaces: &[WorkspaceView], id: WorkspaceId) -> (r: String)
    ensures
        r@ == name_of(workspaces@, id),
{
    assert(workspaces@.skip(0) == workspaces@);
    for i in 0..workspaces.len()
        invariant
            name_of(workspaces@, id) == name_of(workspaces@.skip(i as int), id),
    {
        assert(workspaces@.skip(i as int).drop_first() == workspaces@.skip(i + 1));
        if workspaces[i].id == id {
            return workspaces[i].name.clone();
        }
    }
    String::new()
}

fn owns_tab(tabs: &Vec<TabView>, id: TabId) -> (r: bool)
    ensures
        r == owns(tabs@, id),
{
    for i in 0..tabs.len()
        invariant
            forall|j: int| 0 <= j < i ==> (#[trigger] tabs@[j]).id != id,
    {
        if tabs[i].id == id {
            assert(tabs@[i as int].id == id);
            return true;
        }
    }
    false
}

/// `dir` with the home directory written `~`; nothing for an empty path.
pub fn shorten_home(dir: &str, home: &Option<String>) -> (r: Option<String>)
    ensures
        opt_text(r) == shortened(dir@, opt_text(*home)),
{
    if dir.is_empty() {
        return None;
    }
    match home {
        Some(h) => match strip_prefix(dir, h.as_str()) {
            Some(rest) => if rest.as_str().is_empty() {
                Some("~".to_owned())
            } else {
                Some(glue("~/", rest.as_str()))
            },
            None => Some(dir.to_owned()),
        },
        None => Some(dir.to_owned()),
    }
}

/// The census of `w`, with its nested workspaces where `subtree` asks for them.
fn census_of(workspaces: &[WorkspaceView], w: &WorkspaceView, subtree: bool) -> (r: AgentCensus)
    ensures
        !subtree ==> r == AgentCensus::of(0, 0, 0).plus_tabs(w.tabs@),
        subtree ==> r == AgentCensus::of(
            agents_in_tabs(w.tabs@, AgentState::Blocked) + agents_under(
                workspaces@,
                w.id,
                AgentState::Blocked,
            ),
            agents_in_tabs(w.tabs@, AgentState::Working) + agents_under(
                workspaces@,
                w.id,
                AgentState::Working,
            ),
            agents_in_tabs(w.tabs@, AgentState::Done) + agents_under(
                workspaces@,
                w.id,
                AgentState::Done,
            ),
        ),
{
    let mut census: AgentCensus = AgentCensus::default();
    tally(&mut census, w);
    if subtree {
        let ghost own = census;
        for i in 0..workspaces.len()
            invariant
                census == own.plus(
                    agents_under(workspaces@.take(i as int), w.id, AgentState::Blocked),
                    agents_under(workspaces@.take(i as int), w.id, AgentState::Working),
                    agents_under(workspaces@.take(i as int), w.id, AgentState::Done),
                ),
        {
            assert(workspaces@.take(i + 1).drop_last() == workspaces@.take(i as int));
            if workspaces[i].parent == Some(w.id) {
                tally(&mut census, &workspaces[i]);
            }
        }
        assert(workspaces@.take(workspaces@.len() as int) == workspaces@);
    }
    census
}

fn workspace_row(
    workspaces: &[WorkspaceView],
    w: &WorkspaceView,
    active_tab: Option<TabId>,
    home: &Option<String>,
    guide: Option<char>,
) -> (r: Option<WorkspaceRow>)
    ensures
        (match r {
            Some(row) => Some(row@),
            None => None,
        }) == workspace_line(workspaces@, *w, active_tab, opt_text(*home), guide),
{
    let active: bool = match active_tab {
        Some(at) => owns_tab(&w.tabs, at),
        None => false,
    };
    if w.tabs.len() == 0 {
        return None;
    }
    let jump_tab: TabId = match active_tab {
        Some(at) if active => at,
        _ => w.tabs[0].id,
    };
    Some(
        WorkspaceRow {
            id: w.id,
            name: w.name.clone(),
            subtitle: match &w.branch {
                Some(b) => Some(b.clone()),
                None => shorten_home(w.dir.as_str(), home),
            },
            changes: copy_opt(&w.changes),
            stale: w.stale,
            active,
            jump_tab,
            project: find_project(workspaces, w),
            guide,
            census: census_of(workspaces, w, guide.is_none() && !is_nested(workspaces, w)),
        },
    )
}

fn copy_subagents(v: &Vec<SubagentInfo>) -> (r: Vec<SubagentInfo>)
    ensures
        r@ == v@,
{
    v.clone()
}

/// Append the agent rows of `w` to `out`.
fn collect_rows(
    workspaces: &[WorkspaceView],
    w: &WorkspaceView,
    section: Section,
    depth: u8,
    out: &mut Vec<AgentRow>,
)
    ensures
        agent_lines(final(out)@) == agent_lines(old(out)@) + tab_lines(
            workspaces@,
            *w,
            w.tabs@,
            section,
            depth,
        ),
{
    let ghost start = agent_lines(out@);
    for i in 0..w.tabs.len()
        invariant
            agent_lines(out@) == start + tab_lines(
                workspaces@,
                *w,
                w.tabs@.take(i as int),
                section,
                depth,
            ),
    {
        let tab: &TabView = &w.tabs[i];
        let ghost before = agent_lines(out@);
        for j in 0..tab.panes.len()
            invariant
                agent_lines(out@) == before + pane_lines(
                    workspaces@,
                    *w,
                    tab.id,
                    tab.panes@.take(j as int),
                    section,
                    depth,
                ),
        {
            let pane: &PaneInfo = &tab.panes[j];
            let ghost have = agent_lines(out@);
            assert(tab.panes@.take(j + 1).drop_last() == tab.panes@.take(j as int));
            let belongs: bool = match section {
                Section::Projects => true,
                Section::Waiting => matches!(pane.state, AgentState::Blocked | AgentState::Done),
            };
            match &pane.agent {
                Some(kind) if belongs => {
                    let project: WorkspaceId = find_project(workspaces, w);
                    out.push(
                        AgentRow {
                            pane: pane.id,
                            tab: tab.id,
                            title: pane.title.clone(),
                            state: pane.state,
                            kind: kind.clone(),
                            project,
                            project_name: find_name(workspaces, project),
                            guide: None,
                            depth,
                            subagents: match section {
                                Section::Projects => copy_subagents(&pane.subagents),
                                Section::Waiting => Vec::new(),
                            },
                        },
                    );
                    assert(agent_lines(out@) == have.push(out@.last()@));
                },
                _ => {},
            }
            assert(agent_lines(out@) == have + agent_line(
                workspaces@,
                *w,
                tab.id,
                *pane,
                section,
                depth,
            ));
        }
        assert(tab.panes@.take(tab.panes@.len() as int) == tab.panes@);
        assert(w.tabs@.take(i + 1).drop_last() == w.tabs@.take(i as int));
    }
    assert(w.tabs@.take(w.tabs@.len() as int) == w.tabs@);
}

fn state_rank(state: AgentState) -> (r: u8)
    ensures
        r == rank_of(state),
{
    match state {
        AgentState::Blocked => 0,
        AgentState::Working => 1,
        AgentState::Done => 2,
        AgentState::Idle => 3,
        AgentState::Unknown => 4,
    }
}

fn is_before(a: &AgentRow, b: &AgentRow, section: Section) -> (r: bool)
    ensures
        r == precedes(a@, b@, section),
{
    let x: u8 = state_rank(a.state);
    let y: u8 = state_rank(b.state);
    match section {
        Section::Waiting if x != y => x < y,
        _ => a.pane.0 < b.pane.0,
    }
}

/// Put `row` into the rows at its place.
fn place_row(rows: &mut Vec<AgentRow>, row: AgentRow, section: Section)
    ensures
        agent_lines(final(rows)@) == placed(row@, agent_lines(old(rows)@), section),
{
    let ghost s = agent_lines(rows@);
    let mut i: usize = 0;
    assert(s.take(0) + placed(row@, s.skip(0), section) == placed(row@, s, section)) by {
        assert(s.skip(0) == s);
    }
    while i < rows.len() && is_before(&rows[i], &row, section)
        invariant
            i <= rows@.len(),
            s == agent_lines(rows@),
            placed(row@, s, section) == s.take(i as int) + placed(row@, s.skip(i as int), section),
        decreases rows.len() - i,
    {
        proof {
            let rest = s.skip(i as int);
            assert(rest.drop_first() == s.skip(i + 1));
            assert(s.take(i as int) + (seq![rest[0]] + placed(row@, s.skip(i + 1), section))
                == s.take(i + 1) + placed(row@, s.skip(i + 1), section));
        }
        i = i + 1;
    }
    let ghost line = row@;
    rows.insert(i, row);
    assert(s.take(i as int) + (seq![line] + s.skip(i as int)) == agent_lines(rows@));
}

/// The rows in the section's order.
fn order_rows(rows: Vec<AgentRow>, section: Section) -> (r: Vec<AgentRow>)
    ensures
        agent_lines(r@) == ordered(agent_lines(rows@), section),
{
    let mut rest: Vec<AgentRow> = rows;
    let mut out: Vec<AgentRow> = Vec::new();
    let ghost s = agent_lines(rest@);
    assert(s.skip(s.len() as int) == Seq::<AgentLine>::empty());
    while rest.len() > 0
        invariant
            rest@.len() <= s.len(),
            agent_lines(rest@) == s.take(rest@.len() as int),
            agent_lines(out@) == ordered(s.skip(rest@.len() as int), section),
        decreases rest.len(),
    {
        let ghost n = rest@.len() as int;
        let ghost had = agent_lines(rest@);
        assert(had[n - 1] == rest@[n - 1]@);
        match rest.pop() {
            Some(row) => {
                assert(agent_lines(rest@) == had.drop_last());
                assert(s.skip(n - 1).drop_first() == s.skip(n));
                place_row(&mut out, row, section);
            },
            None => {},
        }
    }
    assert(s.skip(0) == s);
    out
}

/// The agent rows of `w` as the tree shows them.
fn agent_rows_of(workspaces: &[WorkspaceView], w: &WorkspaceView, depth: u8) -> (r: Vec<AgentRow>)
    ensures
        agent_lines(r@) == guided(
            ordered(
                tab_lines(workspaces@, *w, w.tabs@, Section::Projects, depth),
                Section::Projects,
            ),
        ),
{
    let mut found: Vec<AgentRow> = Vec::new();
    collect_rows(workspaces, w, Section::Projects, depth, &mut found);
    let ghost all = tab_lines(workspaces@, *w, w.tabs@, Section::Projects, depth);
    assert(agent_lines(found@) == all);
    let mut rows: Vec<AgentRow> = order_rows(found, Section::Projects);
    let ghost s = ordered(all, Section::Projects);
    let count: usize = rows.len();
    for i in 0..count
        invariant
            count == rows@.len(),
            rows@.len() == s.len(),
            forall|j: int| i <= j < s.len() ==> (#[trigger] rows@[j])@ == s[j],
            forall|j: int|
                0 <= j < i ==> (#[trigger] rows@[j])@ == (AgentLine {
                    guide: Some(guide_of(j, s.len() as int)),
                    ..s[j]
                }),
    {
        let last: bool = i + 1 == count;
        let guide: char = if last {
            '└'
        } else {
            '├'
        };
        assert(rows@[i as int]@ == s[i as int]);
        rows[i].guide = Some(guide);
    }
    assert(agent_lines(rows@) == guided(s));
    rows
}

/// Append agent rows as entries.
fn append_agents(entries: &mut Vec<SidebarEntry>, rows: Vec<AgentRow>)
    ensures
        lines(final(entries)@) == lines(old(entries)@) + as_entries(agent_lines(rows@)),
{
    let ghost start = lines(entries@);
    let ghost s = agent_lines(rows@);
    let ghost all = rows@;
    for row in it: rows
        invariant
            it.seq() == all,
            s == agent_lines(all),
            lines(entries@) == start + as_entries(s.take(it.index() as int)),
    {
        let ghost k = it.index();
        let ghost have = lines(entries@);
        entries.push(SidebarEntry::Agent(row));
        assert(lines(entries@) == have.push(entries@.last()@));
        assert(as_entries(s.take(k + 1)) == as_entries(s.take(k as int)).push(
            EntryLine::Agent(s[k as int]),
        ));
    }
    assert(s.take(s.len() as int) == s);
}

/// Append a workspace and its agents.
fn append_branch(
    entries: &mut Vec<SidebarEntry>,
    workspaces: &[WorkspaceView],
    w: &WorkspaceView,
    active_tab: Option<TabId>,
    home: &Option<String>,
    guide: Option<char>,
    depth: u8,
)
    ensures
        lines(final(entries)@) == lines(old(entries)@) + branch_lines(
            workspaces@,
            *w,
            active_tab,
            opt_text(*home),
            guide,
            depth,
        ),
{
    let ghost have = lines(entries@);
    match workspace_row(workspaces, w, active_tab, home, guide) {
        Some(row) => {
            entries.push(SidebarEntry::Workspace(row));
            assert(lines(entries@) == have.push(entries@.last()@));
        },
        None => {},
    }
    append_agents(entries, agent_rows_of(workspaces, w, depth));
}

/// Build the sidebar from the client's view. `active_tab` decides which
/// workspace is active and where each workspace jump lands; `home` is the home
/// directory. Agents keep pane order in the tree, so a change of state never
/// reshuffles it; the queue gathers the blocked and done agents of every
/// project, blocked first, without their subagents.
pub fn build(
    workspaces: &[WorkspaceView],
    active_tab: Option<TabId>,
    home: &Option<String>,
) -> (r: Sidebar)
    ensures
        r.tree_count <= r.entries@.len(),
        lines(r.entries@.take(r.tree_count as int)) == tree_lines(
            workspaces@,
            workspaces@,
            active_tab,
            opt_text(*home),
        ),
        lines(r.entries@.skip(r.tree_count as int)) == as_entries(
            ordered(waiting_lines(workspaces@, workspaces@), Section::Waiting),
        ),
        lines(r.entries@) == sidebar_lines(workspaces@, active_tab, opt_text(*home)),
        r.tree_count == tree_lines(workspaces@, workspaces@, active_tab, opt_text(*home)).len(),
        !r.projects_collapsed,
        !r.waiting_collapsed,
{
    let mut entries: Vec<SidebarEntry> = Vec::new();
    let ghost home_text = opt_text(*home);
    assert(lines(entries@) == Seq::<EntryLine>::empty());
    for i in 0..workspaces.len()
        invariant
            home_text == opt_text(*home),
            lines(entries@) == tree_lines(
                workspaces@,
                workspaces@.take(i as int),
                active_tab,
                home_text,
            ),
    {
        let w: &WorkspaceView = &workspaces[i];
        let ghost before = lines(entries@);
        assert(workspaces@.take(i + 1).drop_last() == workspaces@.take(i as int));
        if !is_nested(workspaces, w) {
            append_branch(&mut entries, workspaces, w, active_tab, home, None, 1);
            let ghost own = lines(entries@);
            let mut children: Vec<usize> = Vec::new();
            let ghost kids = children_of(workspaces@, w.id);
            for k in 0..workspaces.len()
                invariant
                    children@.len() == children_of(workspaces@.take(k as int), w.id).len(),
                    forall|c: int|
                        0 <= c < children@.len() ==> (#[trigger] children@[c]) < workspaces@.len()
                            && workspaces@[children@[c] as int] == children_of(
                            workspaces@.take(k as int),
                            w.id,
                        )[c],
            {
                assert(workspaces@.take(k + 1).drop_last() == workspaces@.take(k as int));
                if workspaces[k].parent == Some(w.id) {
                    children.push(k);
                }
            }
            assert(workspaces@.take(workspaces@.len() as int) == workspaces@);
            for c in 0..children.len()
                invariant
                    home_text == opt_text(*home),
                    children@.len() == kids.len(),
                    forall|c: int|
                        0 <= c < children@.len() ==> (#[trigger] children@[c]) < workspaces@.len()
                            && workspaces@[children@[c] as int] == kids[c],
                    lines(entries@) == own + children_lines(
                        workspaces@,
                        kids,
                        c as int,
                        active_tab,
                        home_text,
                    ),
            {
                let last: bool = c + 1 == children.len();
                let guide: char = if last {
                    '└'
                } else {
                    '├'
                };
                let ghost have = lines(entries@);
                append_branch(
                    &mut entries,
                    workspaces,
                    &workspaces[children[c]],
                    active_tab,
                    home,
                    Some(guide),
                    2,
                );
                assert(lines(entries@) == own + children_lines(
                    workspaces@,
                    kids,
                    c + 1,
                    active_tab,
                    home_text,
                ));
            }
        }
        assert(lines(entries@) == tree_lines(
            workspaces@,
            workspaces@.take(i + 1),
            active_tab,
            home_text,
        ));
    }
    assert(workspaces@.take(workspaces@.len() as int) == workspaces@);
    let tree_count: usize = entries.len();
    let ghost tree = lines(entries@);
    let mut waiting: Vec<AgentRow> = Vec::new();
    assert(agent_lines(waiting@) == Seq::<AgentLine>::empty());
    for i in 0..workspaces.len()
        invariant
            agent_lines(waiting@) == waiting_lines(workspaces@, workspaces@.take(i as int)),
    {
        assert(workspaces@.take(i + 1).drop_last() == workspaces@.take(i as int));
        collect_rows(workspaces, &workspaces[i], Section::Waiting, 0, &mut waiting);
    }
    append_agents(&mut entries, order_rows(waiting, Section::Waiting));
    proof {
        let queue = as_entries(ordered(waiting_lines(workspaces@, workspaces@), Section::Waiting));
        assert(lines(entries@) == tree + queue);
        assert(lines(entries@.take(tree_count as int)) == lines(entries@).take(tree_count as int));
        assert(lines(entries@.skip(tree_count as int)) == lines(entries@).skip(tree_count as int));
        assert((tree + queue).take(tree.len() as int) == tree);
        assert((tree + queue).skip(tree.len() as int) == queue);
    }
    Sidebar { entries, tree_count, projects_collapsed: false, waiting_collapsed: false }
}

// ---- rows of the screen --------------------------------------------------

/// How many screen rows an entry takes in the tree: two lines, and one for each
/// subagent.
pub open spec fn height(entry: EntryLine) -> nat {
    match entry {
        EntryLine::Agent(a) => 2 + a.subagents.len(),
        EntryLine::Workspace(_) => 2,
    }
}

/// How many screen rows the first `n` entries take together.
pub open spec fn heights(entries: Seq<EntryLine>, n: int) -> nat
    decreases n,
{
    if n <= 0 {
        0
    } else {
        heights(entries, n - 1) + height(entries[n - 1])
    }
}

/// The screen row of the divider that heads the waiting section, of a sidebar
/// whose first `tree` entries are the tree's. The projects header is row 0, the
/// tree follows, then the divider.
pub open spec fn divider_row(all: Seq<EntryLine>, tree: int, projects_collapsed: bool) -> int {
    if projects_collapsed {
        1
    } else {
        1int + heights(all, tree)
    }
}

/// The screen row of the first line of entry `i`.
pub open spec fn top_row(all: Seq<EntryLine>, tree: int, projects_collapsed: bool, i: int) -> int {
    if i < tree {
        1int + heights(all, i)
    } else {
        divider_row(all, tree, projects_collapsed) + 1 + 2 * (i - tree)
    }
}

/// How many of the first `n` entries are workspaces.
pub open spec fn workspaces_among(entries: Seq<EntryLine>, n: int) -> nat
    decreases n,
{
    if n <= 0 {
        0
    } else {
        workspaces_among(entries, n - 1) + (if entries[n - 1] is Workspace {
            1nat
        } else {
            0nat
        })
    }
}

proof fn heights_grow(entries: Seq<EntryLine>, i: int, j: int)
    requires
        0 <= i < j,
    ensures
        heights(entries, i) + height(entries[i]) <= heights(entries, j),
    decreases j,
{
    if i < j - 1 {
        heights_grow(entries, i, j - 1);
    }
}

/// What entry `i` of a sidebar is whose tree has `tree` entries.
pub open spec fn ident_in(all: Seq<EntryLine>, tree: int, i: int) -> EntryIdent {
    match all[i] {
        EntryLine::Workspace(w) => EntryIdent::Workspace(w.id),
        EntryLine::Agent(a) => if i >= tree {
            EntryIdent::Waiting(a.pane)
        } else {
            EntryIdent::Agent(a.pane)
        },
    }
}

/// The first entry from `i` on that is `ident`.
pub open spec fn place_of(all: Seq<EntryLine>, tree: int, ident: EntryIdent, i: int) -> Option<int>
    decreases all.len() - i,
{
    if i < 0 || i >= all.len() {
        None
    } else if ident_in(all, tree, i) == ident {
        Some(i)
    } else {
        place_of(all, tree, ident, i + 1)
    }
}

/// Where a row that is not a header falls.
enum Spot {
    /// On one of the two lines of this tree entry.
    Line(usize),
    /// On a subagent of this tree entry.
    Subagent(usize),
    /// So many rows below the last tree row.
    Below(usize),
}

impl Sidebar {
    /// The waiting entries begin within the list.
    pub open spec fn well_formed(&self) -> bool {
        self.tree_count <= self.entries@.len()
    }

    /// What entry `i` is.
    pub open spec fn ident(&self, i: int) -> EntryIdent {
        ident_in(lines(self.entries@), self.tree_count as int, i)
    }

    /// Whether the section of entry `i` is open.
    pub open spec fn shown(&self, i: int) -> bool {
        if i < self.tree_count {
            !self.projects_collapsed
        } else {
            !self.waiting_collapsed
        }
    }

    /// The screen row of the divider that heads the waiting section.
    pub open spec fn divider(&self) -> int {
        divider_row(lines(self.entries@), self.tree_count as int, self.projects_collapsed)
    }

    /// The screen row of the first line of entry `i`.
    pub open spec fn top(&self, i: int) -> int {
        top_row(lines(self.entries@), self.tree_count as int, self.projects_collapsed, i)
    }

    /// Whether the sidebar holds nothing.
    pub fn is_empty(&self) -> (r: bool)
        ensures
            r == (self.entries@.len() == 0),
    {
        self.entries.len() == 0
    }

    /// The number of entries.
    pub fn len(&self) -> (r: usize)
        ensures
            r == self.entries@.len(),
    {
        self.entries.len()
    }

    /// The number of workspace rows in the tree.
    pub fn workspace_rows(&self) -> (r: usize)
        requires
            self.well_formed(),
        ensures
            r == workspaces_among(lines(self.entries@), self.tree_count as int),
    {
        let mut count: usize = 0;
        for i in 0..self.tree_count
            invariant
                self.well_formed(),
                count == workspaces_among(lines(self.entries@), i as int),
                count <= i,
        {
            assert(lines(self.entries@)[i as int] == self.entries@[i as int]@);
            if matches!(self.entries[i], SidebarEntry::Workspace(_)) {
                count = count + 1;
            }
        }
        count
    }

    /// What entry `idx` is, or `None` past the end.
    pub fn ident_at(&self, idx: usize) -> (r: Option<EntryIdent>)
        ensures
            r is Some == (idx < self.entries@.len()),
            r matches Some(ident) ==> ident == self.ident(idx as int),
    {
        if idx >= self.entries.len() {
            return None;
        }
        assert(lines(self.entries@)[idx as int] == self.entries@[idx as int]@);
        match &self.entries[idx] {
            SidebarEntry::Workspace(w) => Some(EntryIdent::Workspace(w.id)),
            SidebarEntry::Agent(a) => if idx >= self.tree_count {
                Some(EntryIdent::Waiting(a.pane))
            } else {
                Some(EntryIdent::Agent(a.pane))
            },
        }
    }

    /// The first entry that is `ident`.
    pub fn index_of(&self, ident: EntryIdent) -> (r: Option<usize>)
        ensures
            match r {
                Some(i) => i < self.entries@.len() && place_of(
                    lines(self.entries@),
                    self.tree_count as int,
                    ident,
                    0,
                ) == Some(i as int),
                None => place_of(lines(self.entries@), self.tree_count as int, ident, 0) is None,
            },
    {
        let ghost all = lines(self.entries@);
        for i in 0..self.entries.len()
            invariant
                all == lines(self.entries@),
                place_of(all, self.tree_count as int, ident, 0) == place_of(
                    all,
                    self.tree_count as int,
                    ident,
                    i as int,
                ),
        {
            if self.ident_at(i) == Some(ident) {
                return Some(i);
            }
        }
        None
    }

    /// Whether entry `idx` is visible: its section is open.
    pub fn is_visible(&self, idx: usize) -> (r: bool)
        ensures
            r == self.shown(idx as int),
    {
        if idx < self.tree_count {
            !self.projects_collapsed
        } else {
            !self.waiting_collapsed
        }
    }

    /// Where `row` falls, below the projects header.
    fn spot(&self, row: usize) -> (r: Spot)
        requires
            self.well_formed(),
            row > 0,
        ensures
            match r {
                Spot::Line(i) => !self.projects_collapsed && i < self.tree_count && (row
                    == self.top(i as int) || row == self.top(i as int) + 1),
                Spot::Subagent(i) => !self.projects_collapsed && i < self.tree_count && self.top(
                    i as int,
                ) + 2 <= row < self.top(i as int) + height(lines(self.entries@)[i as int]),
                Spot::Below(n) => row == self.divider() + n,
            },
    {
        let mut rest: usize = row - 1;
        if !self.projects_collapsed {
            for i in 0..self.tree_count
                invariant
                    self.well_formed(),
                    !self.projects_collapsed,
                    row - 1 == heights(lines(self.entries@), i as int) + rest,
            {
                if rest < 2 {
                    return Spot::Line(i);
                }
                rest = rest - 2;
                assert(lines(self.entries@)[i as int] == self.entries@[i as int]@);
                let subagents: usize = match &self.entries[i] {
                    SidebarEntry::Agent(a) => a.subagents.len(),
                    SidebarEntry::Workspace(_) => 0,
                };
                if rest < subagents {
                    return Spot::Subagent(i);
                }
                rest = rest - subagents;
            }
        }
        Spot::Below(rest)
    }

    /// The section header, if any, that stands at `row`: row 0 is the projects
    /// header, the divider the waiting header.
    pub fn header_at_row(&self, row: usize) -> (r: Option<Section>)
        requires
            self.well_formed(),
        ensures
            r == (if row == 0 {
                Some(Section::Projects)
            } else if row == self.divider() {
                Some(Section::Waiting)
            } else {
                None
            }),
    {
        if row == 0 {
            return Some(Section::Projects);
        }
        match self.spot(row) {
            Spot::Line(i) => {
                proof {
                    heights_grow(lines(self.entries@), i as int, self.tree_count as int);
                }
                None
            },
            Spot::Subagent(i) => {
                proof {
                    heights_grow(lines(self.entries@), i as int, self.tree_count as int);
                }
                None
            },
            Spot::Below(n) => if n == 0 {
                Some(Section::Waiting)
            } else {
                None
            },
        }
    }

    /// The entry that a click at `row` (from the top of the frame) selects:
    /// the visible one with a line there. Borders, headers, subagents and empty
    /// space select nothing.
    pub fn entry_at_row(&self, row: usize) -> (r: Option<usize>)
        requires
            self.well_formed(),
        ensures
            match r {
                Some(i) => i < self.entries@.len() && self.shown(i as int) && (row == self.top(
                    i as int,
                ) || row == self.top(i as int) + 1),
                None => forall|i: int|
                    0 <= i < self.entries@.len() && self.shown(i) ==> row != #[trigger] self.top(i)
                        && row != self.top(i) + 1,
            },
    {
        if row == 0 {
            return None;
        }
        match self.spot(row) {
            Spot::Line(i) => Some(i),
            Spot::Subagent(k) => {
                assert forall|i: int|
                    0 <= i < self.entries@.len() && self.shown(i) implies row != #[trigger] self.top(
                    i,
                ) && row != self.top(i) + 1 by {
                    heights_grow(lines(self.entries@), k as int, self.tree_count as int);
                    if i < k {
                        heights_grow(lines(self.entries@), i, k as int);
                    } else if k < i < self.tree_count {
                        heights_grow(lines(self.entries@), k as int, i);
                    }
                }
                None
            },
            Spot::Below(n) => {
                assert forall|i: int|
                    0 <= i < self.tree_count && self.shown(i) implies #[trigger] self.top(i) + 1
                    < row by {
                    heights_grow(lines(self.entries@), i, self.tree_count as int);
                }
                if n == 0 || self.waiting_collapsed {
                    return None;
                }
                let offset: usize = (n - 1) / 2;
                if offset < self.entries.len() - self.tree_count {
                    Some(self.tree_count + offset)
                } else {
                    None
                }
            },
        }
    }
}

impl Default for Sidebar {
    /// An empty sidebar, both sections open.
    fn default() -> (r: Sidebar)
        ensures
            r.entries@.len() == 0,
            r.tree_count == 0,
            !r.projects_collapsed,
            !r.waiting_collapsed,
    {
        Sidebar {
            entries: Vec::new(),
            tree_count: 0,
            projects_collapsed: false,
            waiting_collapsed: false,
        }
    }
}

/// What the sidebar holds: the tree's rows, then the queue's.
pub open spec fn sidebar_lines(
    workspaces: Seq<WorkspaceView>,
    active_tab: Option<TabId>,
    home: Option<Seq<char>>,
) -> Seq<EntryLine> {
    tree_lines(workspaces, workspaces, active_tab, home) + as_entries(
        ordered(waiting_lines(workspaces, workspaces), Section::Waiting),
    )
}

// ---- laws ----------------------------------------------------------------

/// Two entries that are both drawn share no screen row: the later one begins
/// below the two lines of the earlier.
pub proof fn rows_do_not_overlap(
    all: Seq<EntryLine>,
    tree: int,
    projects_collapsed: bool,
    i: int,
    j: int,
)
    requires
        0 <= tree <= all.len(),
        0 <= i < j < all.len(),
        projects_collapsed ==> tree <= i,
    ensures
        0 < top_row(all, tree, projects_collapsed, i),
        top_row(all, tree, projects_collapsed, i) + 2 <= top_row(all, tree, projects_collapsed, j),
{
    if i < tree {
        heights_grow(all, i, tree);
        if j < tree {
            heights_grow(all, i, j);
        }
    }
}

/// No two visible entries share a screen row, and none stands on a header: two
/// entries in order stand at least two rows apart, below the projects header,
/// the tree above the divider and the queue below it.
pub proof fn entries_do_not_overlap(sidebar: Sidebar, i: int, j: int)
    requires
        sidebar.well_formed(),
        0 <= i < j < sidebar.entries@.len(),
        sidebar.shown(i),
        sidebar.shown(j),
    ensures
        0 < sidebar.top(i),
        sidebar.top(i) + 2 <= sidebar.top(j),
        j < sidebar.tree_count ==> sidebar.top(j) + 1 < sidebar.divider(),
        i >= sidebar.tree_count ==> sidebar.divider() < sidebar.top(i),
{
    if i < sidebar.tree_count {
        heights_grow(lines(sidebar.entries@), i, sidebar.tree_count as int);
        if j < sidebar.tree_count {
            heights_grow(lines(sidebar.entries@), i, j);
            heights_grow(lines(sidebar.entries@), j, sidebar.tree_count as int);
        }
    }
}

/// Whether a list of rows stands in the section's order.
pub open spec fn in_order(s: Seq<AgentLine>, section: Section) -> bool {
    forall|i: int, j: int| 0 <= i < j < s.len() ==> !precedes(s[j], s[i], section)
}

proof fn placed_is_sound(row: AgentLine, s: Seq<AgentLine>, section: Section)
    requires
        in_order(s, section),
    ensures
        in_order(placed(row, s, section), section),
        placed(row, s, section).to_multiset() == s.to_multiset().insert(row),
        placed(row, s, section).len() == s.len() + 1,
        forall|i: int|
            0 <= i <= s.len() ==> #[trigger] placed(row, s, section)[i] == row || s.contains(
                placed(row, s, section)[i],
            ),
    decreases s.len(),
{
    broadcast use vstd::seq_lib::group_to_multiset_ensures;

    let out = placed(row, s, section);
    if s.len() == 0 || !precedes(s[0], row, section) {
        assert(out =~= s.insert(0, row));
        assert(out.to_multiset() =~= s.to_multiset().insert(row));
        assert forall|i: int, j: int| 0 <= i < j < out.len() implies !precedes(
            out[j],
            out[i],
            section,
        ) by {
            if i == 0 {
                assert(out[j] == s[j - 1]);
                if j > 1 {
                    assert(!precedes(s[j - 1], s[0], section));
                }
            } else {
                assert(out[i] == s[i - 1] && out[j] == s[j - 1]);
            }
        }
        assert forall|i: int| 0 <= i <= s.len() implies #[trigger] out[i] == row || s.contains(
            out[i],
        ) by {
            if i > 0 {
                assert(out[i] == s[i - 1]);
            }
        }
    } else {
        let rest = s.drop_first();
        assert forall|i: int, j: int| 0 <= i < j < rest.len() implies !precedes(
            rest[j],
            rest[i],
            section,
        ) by {
            assert(rest[i] == s[i + 1] && rest[j] == s[j + 1]);
        }
        placed_is_sound(row, rest, section);
        let tail = placed(row, rest, section);
        assert(out =~= tail.insert(0, s[0]));
        assert(s =~= rest.insert(0, s[0]));
        assert(out.to_multiset() =~= s.to_multiset().insert(row));
        assert forall|i: int| 0 <= i <= s.len() implies #[trigger] out[i] == row || s.contains(
            out[i],
        ) by {
            if i > 0 {
                assert(out[i] == tail[i - 1]);
                if tail[i - 1] != row {
                    let k = choose|k: int| 0 <= k < rest.len() && rest[k] == tail[i - 1];
                    assert(s[k + 1] == out[i]);
                }
            } else {
                assert(out[0] == s[0]);
            }
        }
        assert forall|i: int, j: int| 0 <= i < j < out.len() implies !precedes(
            out[j],
            out[i],
            section,
        ) by {
            if i == 0 {
                assert(out[j] == tail[j - 1]);
                if tail[j - 1] != row {
                    let k = choose|k: int| 0 <= k < rest.len() && rest[k] == tail[j - 1];
                    assert(s[k + 1] == out[j]);
                }
            } else {
                assert(out[i] == tail[i - 1] && out[j] == tail[j - 1]);
            }
        }
    }
}

/// Ordering rows only rearranges them: the result holds the same rows, each as
/// often, in the section's order.
pub proof fn ordered_rearranges(s: Seq<AgentLine>, section: Section)
    ensures
        in_order(ordered(s, section), section),
        ordered(s, section).to_multiset() == s.to_multiset(),
        ordered(s, section).len() == s.len(),
    decreases s.len(),
{
    broadcast use vstd::seq_lib::group_to_multiset_ensures;

    if s.len() > 0 {
        let rest = s.drop_first();
        ordered_rearranges(rest, section);
        placed_is_sound(s[0], ordered(rest, section), section);
        assert(s =~= rest.insert(0, s[0]));
    } else {
        assert(ordered(s, section) =~= s);
    }
}

/// In the tree, the order of a workspace's agents depends on their pane numbers
/// alone: whatever states the panes are in, the same panes stand in the same
/// places.
pub proof fn tree_order_ignores_state(a: Seq<AgentLine>, b: Seq<AgentLine>)
    requires
        a.len() == b.len(),
        forall|i: int| 0 <= i < a.len() ==> (#[trigger] a[i]).pane == b[i].pane,
    ensures
        ordered(a, Section::Projects).len() == ordered(b, Section::Projects).len(),
        forall|i: int|
            0 <= i < ordered(a, Section::Projects).len() ==> (#[trigger] ordered(
                a,
                Section::Projects,
            )[i]).pane == ordered(b, Section::Projects)[i].pane,
    decreases a.len(),
{
    if a.len() > 0 {
        assert forall|i: int| 0 <= i < a.drop_first().len() implies (#[trigger] a.drop_first()[i]).pane
            == b.drop_first()[i].pane by {
            assert(a[i + 1].pane == b[i + 1].pane);
        }
        tree_order_ignores_state(a.drop_first(), b.drop_first());
        assert(a[0].pane == b[0].pane);
        placing_ignores_state(
            a[0],
            b[0],
            ordered(a.drop_first(), Section::Projects),
            ordered(b.drop_first(), Section::Projects),
        );
    }
}

proof fn placing_ignores_state(r: AgentLine, q: AgentLine, a: Seq<AgentLine>, b: Seq<AgentLine>)
    requires
        r.pane == q.pane,
        a.len() == b.len(),
        forall|i: int| 0 <= i < a.len() ==> (#[trigger] a[i]).pane == b[i].pane,
    ensures
        placed(r, a, Section::Projects).len() == placed(q, b, Section::Projects).len(),
        forall|i: int|
            0 <= i < placed(r, a, Section::Projects).len() ==> (#[trigger] placed(
                r,
                a,
                Section::Projects,
            )[i]).pane == placed(q, b, Section::Projects)[i].pane,
    decreases a.len(),
{
    if a.len() > 0 {
        assert(a[0].pane == b[0].pane);
        if precedes(a[0], r, Section::Projects) {
            assert forall|i: int| 0 <= i < a.drop_first().len() implies (#[trigger] a.drop_first()[i]).pane
                == b.drop_first()[i].pane by {
                assert(a[i + 1].pane == b[i + 1].pane);
            }
            placing_ignores_state(r, q, a.drop_first(), b.drop_first());
            let x = placed(r, a.drop_first(), Section::Projects);
            let y = placed(q, b.drop_first(), Section::Projects);
            assert forall|i: int| 0 <= i < placed(r, a, Section::Projects).len() implies (
            #[trigger] placed(r, a, Section::Projects)[i]).pane == placed(
                q,
                b,
                Section::Projects,
            )[i].pane by {
                if i > 0 {
                    assert(placed(r, a, Section::Projects)[i] == x[i - 1]);
                    assert(placed(q, b, Section::Projects)[i] == y[i - 1]);
                }
            }
        } else {
            assert forall|i: int| 0 <= i < placed(r, a, Section::Projects).len() implies (
            #[trigger] placed(r, a, Section::Projects)[i]).pane == placed(
                q,
                b,
                Section::Projects,
            )[i].pane by {
                if i > 0 {
                    assert(placed(r, a, Section::Projects)[i] == a[i - 1]);
                    assert(placed(q, b, Section::Projects)[i] == b[i - 1]);
                }
            }
        }
    }
}

/// The waiting queue holds blocked and done agents only, none of them with
/// subagents, and no blocked agent stands behind a done one.
pub proof fn queue_holds_who_waits(workspaces: Seq<WorkspaceView>)
    ensures
        ({
            let queue = ordered(waiting_lines(workspaces, workspaces), Section::Waiting);
            &&& forall|i: int|
                0 <= i < queue.len() ==> waits((#[trigger] queue[i]).state)
                    && queue[i].subagents.len() == 0 && queue[i].guide is None
            &&& forall|i: int, j: int|
                0 <= i < j < queue.len() && (#[trigger] queue[j]).state == AgentState::Blocked
                    ==> (#[trigger] queue[i]).state == AgentState::Blocked
        }),
{
    broadcast use vstd::seq_lib::group_to_multiset_ensures;

    let found = waiting_lines(workspaces, workspaces);
    let queue = ordered(found, Section::Waiting);
    ordered_rearranges(found, Section::Waiting);
    waiting_rows_wait(workspaces, workspaces);
    assert forall|i: int| 0 <= i < queue.len() implies waits((#[trigger] queue[i]).state)
        && queue[i].subagents.len() == 0 && queue[i].guide is None by {
        assert(queue.contains(queue[i]));
        assert(queue.to_multiset().count(queue[i]) > 0);
        assert(found.contains(queue[i]));
    }
    assert forall|i: int, j: int|
        0 <= i < j < queue.len() && (#[trigger] queue[j]).state
            == AgentState::Blocked implies (#[trigger] queue[i]).state == AgentState::Blocked by {
        assert(!precedes(queue[j], queue[i], Section::Waiting));
    }
}

spec fn all_wait(s: Seq<AgentLine>) -> bool {
    forall|i: int|
        0 <= i < s.len() ==> waits((#[trigger] s[i]).state) && s[i].subagents.len() == 0
            && s[i].guide is None
}

proof fn all_wait_together(a: Seq<AgentLine>, b: Seq<AgentLine>)
    requires
        all_wait(a),
        all_wait(b),
    ensures
        all_wait(a + b),
{
    assert forall|i: int| 0 <= i < (a + b).len() implies waits((#[trigger] (a + b)[i]).state) && (a
        + b)[i].subagents.len() == 0 && (a + b)[i].guide is None by {
        if i < a.len() {
            assert((a + b)[i] == a[i]);
        } else {
            assert((a + b)[i] == b[i - a.len()]);
        }
    }
}

proof fn waiting_rows_wait(workspaces: Seq<WorkspaceView>, list: Seq<WorkspaceView>)
    ensures
        all_wait(waiting_lines(workspaces, list)),
    decreases list.len(),
{
    if list.len() > 0 {
        let w = list.last();
        waiting_rows_wait(workspaces, list.drop_last());
        waiting_tabs_wait(workspaces, w, w.tabs@);
        all_wait_together(
            waiting_lines(workspaces, list.drop_last()),
            tab_lines(workspaces, w, w.tabs@, Section::Waiting, 0),
        );
    }
}

proof fn waiting_tabs_wait(workspaces: Seq<WorkspaceView>, w: WorkspaceView, tabs: Seq<TabView>)
    ensures
        all_wait(tab_lines(workspaces, w, tabs, Section::Waiting, 0)),
    decreases tabs.len(),
{
    if tabs.len() > 0 {
        let t = tabs.last();
        waiting_tabs_wait(workspaces, w, tabs.drop_last());
        waiting_panes_wait(workspaces, w, t.id, t.panes@);
        all_wait_together(
            tab_lines(workspaces, w, tabs.drop_last(), Section::Waiting, 0),
            pane_lines(workspaces, w, t.id, t.panes@, Section::Waiting, 0),
        );
    }
}

proof fn waiting_panes_wait(
    workspaces: Seq<WorkspaceView>,
    w: WorkspaceView,
    tab: TabId,
    panes: Seq<PaneInfo>,
)
    ensures
        all_wait(pane_lines(workspaces, w, tab, panes, Section::Waiting, 0)),
    decreases panes.len(),
{
    if panes.len() > 0 {
        waiting_panes_wait(workspaces, w, tab, panes.drop_last());
        all_wait_together(
            pane_lines(workspaces, w, tab, panes.drop_last(), Section::Waiting, 0),
            agent_line(workspaces, w, tab, panes.last(), Section::Waiting, 0),
        );
    }
}

/// The agents in the queue are as many as the census counts blocked and done.
pub proof fn queue_counts_the_census(workspaces: Seq<WorkspaceView>, list: Seq<WorkspaceView>)
    ensures
        waiting_lines(workspaces, list).len() == agents_in(list, AgentState::Blocked) + agents_in(
            list,
            AgentState::Done,
        ),
    decreases list.len(),
{
    if list.len() > 0 {
        queue_counts_the_census(workspaces, list.drop_last());
        queue_counts_tabs(workspaces, list.last(), list.last().tabs@);
    }
}

proof fn queue_counts_tabs(workspaces: Seq<WorkspaceView>, w: WorkspaceView, tabs: Seq<TabView>)
    ensures
        tab_lines(workspaces, w, tabs, Section::Waiting, 0).len() == agents_in_tabs(
            tabs,
            AgentState::Blocked,
        ) + agents_in_tabs(tabs, AgentState::Done),
    decreases tabs.len(),
{
    if tabs.len() > 0 {
        queue_counts_tabs(workspaces, w, tabs.drop_last());
        queue_counts_panes(workspaces, w, tabs.last().id, tabs.last().panes@);
    }
}

proof fn queue_counts_panes(
    workspaces: Seq<WorkspaceView>,
    w: WorkspaceView,
    tab: TabId,
    panes: Seq<PaneInfo>,
)
    ensures
        pane_lines(workspaces, w, tab, panes, Section::Waiting, 0).len() == agents_in_panes(
            panes,
            AgentState::Blocked,
        ) + agents_in_panes(panes, AgentState::Done),
    decreases panes.len(),
{
    if panes.len() > 0 {
        queue_counts_panes(workspaces, w, tab, panes.drop_last());
    }
}

proof fn agents_in_parts(a: Seq<WorkspaceView>, b: Seq<WorkspaceView>, state: AgentState)
    ensures
        agents_in(a + b, state) == agents_in(a, state) + agents_in(b, state),
    decreases b.len(),
{
    if b.len() == 0 {
        assert(a + b =~= a);
    } else {
        agents_in_parts(a, b.drop_last(), state);
        assert((a + b).drop_last() =~= a + b.drop_last());
        assert((a + b).last() == b.last());
    }
}

/// The panes of `tabs`, in order.
pub open spec fn panes_in(tabs: Seq<TabView>) -> Seq<PaneInfo>
    decreases tabs.len(),
{
    if tabs.len() == 0 {
        Seq::empty()
    } else {
        panes_in(tabs.drop_last()) + tabs.last().panes@
    }
}

/// The panes of `workspaces`, in order.
pub open spec fn panes_of(workspaces: Seq<WorkspaceView>) -> Seq<PaneInfo>
    decreases workspaces.len(),
{
    if workspaces.len() == 0 {
        Seq::empty()
    } else {
        panes_of(workspaces.drop_last()) + panes_in(workspaces.last().tabs@)
    }
}

proof fn agents_in_panes_parts(a: Seq<PaneInfo>, b: Seq<PaneInfo>, state: AgentState)
    ensures
        agents_in_panes(a + b, state) == agents_in_panes(a, state) + agents_in_panes(b, state),
    decreases b.len(),
{
    if b.len() == 0 {
        assert(a + b =~= a);
    } else {
        agents_in_panes_parts(a, b.drop_last(), state);
        assert((a + b).drop_last() =~= a + b.drop_last());
        assert((a + b).last() == b.last());
    }
}

proof fn tabs_hold_their_panes(tabs: Seq<TabView>, state: AgentState)
    ensures
        agents_in_tabs(tabs, state) == agents_in_panes(panes_in(tabs), state),
    decreases tabs.len(),
{
    if tabs.len() > 0 {
        tabs_hold_their_panes(tabs.drop_last(), state);
        agents_in_panes_parts(panes_in(tabs.drop_last()), tabs.last().panes@, state);
    }
}

/// The census counts panes: in each state it counts those of all the panes there
/// are that run an agent in just that state.
pub proof fn census_counts_panes(workspaces: Seq<WorkspaceView>, state: AgentState)
    ensures
        agents_in(workspaces, state) == agents_in_panes(panes_of(workspaces), state),
    decreases workspaces.len(),
{
    if workspaces.len() > 0 {
        census_counts_panes(workspaces.drop_last(), state);
        tabs_hold_their_panes(workspaces.last().tabs@, state);
        agents_in_panes_parts(
            panes_of(workspaces.drop_last()),
            panes_in(workspaces.last().tabs@),
            state,
        );
    }
}

/// The census of the workspaces of two lists is the sum of theirs, and that of none
/// is empty.
pub proof fn census_adds_up(a: Seq<WorkspaceView>, b: Seq<WorkspaceView>)
    ensures
        forall|state: AgentState| #[trigger]
            agents_in(a + b, state) == agents_in(a, state) + agents_in(b, state),
        forall|state: AgentState| #[trigger] agents_in(Seq::empty(), state) == 0,
        AgentCensus::of(
            agents_in(a + b, AgentState::Blocked),
            agents_in(a + b, AgentState::Working),
            agents_in(a + b, AgentState::Done),
        ) == AgentCensus::of(
            agents_in(a, AgentState::Blocked),
            agents_in(a, AgentState::Working),
            agents_in(a, AgentState::Done),
        ).plus(
            agents_in(b, AgentState::Blocked),
            agents_in(b, AgentState::Working),
            agents_in(b, AgentState::Done),
        ),
{
    assert forall|state: AgentState| #[trigger]
        agents_in(a + b, state) == agents_in(a, state) + agents_in(b, state) by {
        agents_in_parts(a, b, state);
    }
}

/// A workspace's row tells of that workspace: its number, name, changes and whether it
/// is stale are its own; below its name stands its branch, or where it has none its
/// directory; it is active just where it owns the active tab, and a jump goes there,
/// else to its first tab.
pub proof fn workspace_rows_are_their_own(
    workspaces: Seq<WorkspaceView>,
    w: WorkspaceView,
    active_tab: Option<TabId>,
    home: Option<Seq<char>>,
    guide: Option<char>,
)
    requires
        w.tabs@.len() > 0,
    ensures
        workspace_line(workspaces, w, active_tab, home, guide) matches Some(r) && {
            &&& r.id == w.id && r.name == w.name@ && r.stale == w.stale
            &&& r.changes == opt_text(w.changes)
            &&& w.branch matches Some(b) ==> r.subtitle == Some(b@)
            &&& w.branch is None ==> r.subtitle == shortened(w.dir@, home)
            &&& r.active == (exists|i: int|
                0 <= i < w.tabs@.len() && active_tab == Some((#[trigger] w.tabs@[i]).id))
            &&& r.active ==> active_tab == Some(r.jump_tab)
            &&& !r.active ==> r.jump_tab == w.tabs@[0].id
        },
{
    let active = active_tab matches Some(at) && owns(w.tabs@, at);
    if active {
        let i = choose|i: int| 0 <= i < w.tabs@.len() && (#[trigger] w.tabs@[i]).id
            == active_tab->0;
        assert(active_tab == Some(w.tabs@[i].id));
    }
    assert forall|i: int|
        0 <= i < w.tabs@.len() && active_tab == Some((#[trigger] w.tabs@[i]).id) implies active by {
        assert(owns(w.tabs@, active_tab->0));
    }
}

/// An agent's row tells of its pane: the pane, the tab it is in, its title, its state
/// and its kind. A pane without an agent has no row, and in the queue just those have
/// one that are blocked or done.
pub proof fn agent_rows_are_their_own(
    workspaces: Seq<WorkspaceView>,
    w: WorkspaceView,
    tab: TabId,
    pane: PaneInfo,
    section: Section,
    depth: u8,
)
    ensures
        ({
            let r = agent_line(workspaces, w, tab, pane, section, depth);
            &&& pane.agent is None ==> r.len() == 0
            &&& pane.agent is Some && section == Section::Projects ==> r.len() == 1
            &&& pane.agent is Some && section == Section::Waiting ==> (r.len() == 1) == (pane.state
                == AgentState::Blocked || pane.state == AgentState::Done)
            &&& r.len() <= 1
            &&& r.len() == 1 ==> r[0].pane == pane.id && r[0].tab == tab && r[0].title
                == pane.title@ && r[0].state == pane.state && r[0].kind == pane.agent->0@
                && r[0].project == project_of(workspaces, w)
            &&& r.len() == 1 && section == Section::Projects ==> r[0].subagents == pane.subagents@
        }),
{
}

/// A nested workspace belongs to its parent, any other to itself; and a project is
/// called by the name of its workspace.
pub proof fn projects_are_parents(workspaces: Seq<WorkspaceView>, w: WorkspaceView, i: int)
    requires
        0 <= i < workspaces.len(),
        forall|j: int| 0 <= j < i ==> (#[trigger] workspaces[j]).id != workspaces[i].id,
    ensures
        w.parent == Some(workspaces[i].id) ==> project_of(workspaces, w) == workspaces[i].id
            && nested(workspaces, w),
        w.parent is None ==> project_of(workspaces, w) == w.id && !nested(workspaces, w),
        name_of(workspaces, workspaces[i].id) == workspaces[i].name@,
{
    assert(present(workspaces, workspaces[i].id));
    first_name(workspaces, i);
}

proof fn first_name(workspaces: Seq<WorkspaceView>, i: int)
    requires
        0 <= i < workspaces.len(),
        forall|j: int| 0 <= j < i ==> (#[trigger] workspaces[j]).id != workspaces[i].id,
    ensures
        name_of(workspaces, workspaces[i].id) == workspaces[i].name@,
    decreases workspaces.len(),
{
    if i > 0 {
        let rest = workspaces.drop_first();
        assert(workspaces[0].id != workspaces[i].id);
        assert forall|j: int| 0 <= j < i - 1 implies (#[trigger] rest[j]).id != rest[i - 1].id by {
            assert(workspaces[j + 1].id != workspaces[i].id);
        }
        first_name(rest, i - 1);
    }
}

/// In the queue, agents that are blocked come before those that are done, and among
/// agents in one state the older pane comes first; in the tree they come by age alone.
pub proof fn the_blocked_come_first(s: Seq<AgentLine>, i: int, j: int)
    requires
        0 <= i < j,
    ensures
        j < ordered(s, Section::Waiting).len() ==> {
            let (a, b) = (ordered(s, Section::Waiting)[i], ordered(s, Section::Waiting)[j]);
            &&& !(a.state == AgentState::Done && b.state == AgentState::Blocked)
            &&& a.state == b.state ==> a.pane.0 <= b.pane.0
        },
        j < ordered(s, Section::Projects).len() ==> ordered(s, Section::Projects)[i].pane.0
            <= ordered(s, Section::Projects)[j].pane.0,
{
    ordered_rearranges(s, Section::Waiting);
    ordered_rearranges(s, Section::Projects);
    let (queue, tree) = (ordered(s, Section::Waiting), ordered(s, Section::Projects));
    assert(j < queue.len() ==> !precedes(queue[j], queue[i], Section::Waiting));
    assert(j < tree.len() ==> !precedes(tree[j], tree[i], Section::Projects));
}

/// The last of a branch closes it, and no other does.
pub proof fn the_last_closes_the_branch(s: Seq<AgentLine>, i: int)
    requires
        0 <= i < s.len(),
    ensures
        (guided(s)[i].guide == Some('└')) == (i == s.len() - 1),
        (guided(s)[i].guide == Some('├')) == (i < s.len() - 1),
        guided(s)[i].pane == s[i].pane && guided(s)[i].state == s[i].state,
{
}

} // verus!
