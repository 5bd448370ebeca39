//! What the client and the server say to each other.

use vstd::prelude::*;

use crate::model::{
    AgentState, Direction, PaneId, PaneInfo, TabId, WorkspaceId, WorkspaceView,
};
use crate::text::{opt_text, texts};

verus! {

/// What an agent's hook reports.
#[derive(Debug, Clone, PartialEq)]
pub enum AgentHookEvent {
    SubagentStarted { id: String, desc: String },
    SubagentStopped { id: String },
    Activity { detail: Option<String> },
    Blocked { message: Option<String> },
    Done,
}

/// What an agent's hook reports, over texts.
pub enum HookLine {
    SubagentStarted { id: Seq<char>, desc: Seq<char> },
    SubagentStopped { id: Seq<char> },
    Activity { detail: Option<Seq<char>> },
    Blocked { message: Option<Seq<char>> },
    Done,
}

impl View for AgentHookEvent {
    type V = HookLine;

    open spec fn view(&self) -> HookLine {
        match self {
            AgentHookEvent::SubagentStarted { id, desc } => HookLine::SubagentStarted {
                id: id@,
                desc: desc@,
            },
            AgentHookEvent::SubagentStopped { id } => HookLine::SubagentStopped { id: id@ },
            AgentHookEvent::Activity { detail } => HookLine::Activity { detail: opt_text(*detail) },
            AgentHookEvent::Blocked { message } => HookLine::Blocked {
                message: opt_text(*message),
            },
            AgentHookEvent::Done => HookLine::Done,
        }
    }
}

/// A request to the server. `PaneResizeSplit` moves a split by hundredths of
/// its axis.
#[allow(inconsistent_fields)]
#[derive(Debug, Clone, PartialEq)]
pub enum Request {
    Attach,
    Detach,
    WorkspaceNew { dir: String },
    WorkspaceList,
    WorkspaceKill { id: WorkspaceId, discard: bool },
    WorkspaceFork {
        id: WorkspaceId,
        name: String,
        revision: Option<String>,
        dest: Option<String>,
    },
    WorkspaceUpdate { id: WorkspaceId },
    WorkspaceMerge { id: WorkspaceId, push: bool },
    WorkspaceDiff { id: WorkspaceId, stat: bool },
    TabNew { workspace: Option<WorkspaceId> },
    TabList { workspace: Option<WorkspaceId> },
    TabSelect { id: TabId },
    PaneRun { tab: Option<TabId>, cmd: Vec<String>, ephemeral: bool },
    PaneSplit { pane: PaneId, direction: Direction },
    PaneList,
    PaneKill { pane: PaneId },
    PaneRename { pane: PaneId, title: String },
    PaneSend { pane: PaneId, text: Option<String>, keys: Option<String> },
    PaneRead { pane: PaneId, lines: Option<usize>, unwrapped: bool },
    PaneFocus { pane: PaneId },
    PaneResize { pane: PaneId, rows: u16, cols: u16 },
    PaneResizeSplit { pane: PaneId, direction: Direction, delta: i32 },
    PaneScroll { pane: PaneId, offset: usize },
    AgentEvent { pane: PaneId, event: AgentHookEvent },
}

/// A request, over texts.
#[allow(inconsistent_fields)]
pub enum Asked {
    Attach,
    Detach,
    WorkspaceNew { dir: Seq<char> },
    WorkspaceList,
    WorkspaceKill { id: WorkspaceId, discard: bool },
    WorkspaceFork {
        id: WorkspaceId,
        name: Seq<char>,
        revision: Option<Seq<char>>,
        dest: Option<Seq<char>>,
    },
    WorkspaceUpdate { id: WorkspaceId },
    WorkspaceMerge { id: WorkspaceId, push: bool },
    WorkspaceDiff { id: WorkspaceId, stat: bool },
    TabNew { workspace: Option<WorkspaceId> },
    TabList { workspace: Option<WorkspaceId> },
    TabSelect { id: TabId },
    PaneRun { tab: Option<TabId>, cmd: Seq<Seq<char>>, ephemeral: bool },
    PaneSplit { pane: PaneId, direction: Direction },
    PaneList,
    PaneKill { pane: PaneId },
    PaneRename { pane: PaneId, title: Seq<char> },
    PaneSend { pane: PaneId, text: Option<Seq<char>>, keys: Option<Seq<char>> },
    PaneRead { pane: PaneId, lines: Option<usize>, unwrapped: bool },
    PaneFocus { pane: PaneId },
    PaneResize { pane: PaneId, rows: u16, cols: u16 },
    PaneResizeSplit { pane: PaneId, direction: Direction, delta: i32 },
    PaneScroll { pane: PaneId, offset: usize },
    AgentEvent { pane: PaneId, event: HookLine },
}

impl View for Request {
    type V = Asked;

    open spec fn view(&self) -> Asked {
        match self {
            Request::Attach => Asked::Attach,
            Request::Detach => Asked::Detach,
            Request::WorkspaceNew { dir } => Asked::WorkspaceNew { dir: dir@ },
            Request::WorkspaceList => Asked::WorkspaceList,
            Request::WorkspaceKill { id, discard } => Asked::WorkspaceKill {
                id: *id,
                discard: *discard,
            },
            Request::WorkspaceFork { id, name, revision, dest } => Asked::WorkspaceFork {
                id: *id,
                name: name@,
                revision: opt_text(*revision),
                dest: opt_text(*dest),
            },
            Request::WorkspaceUpdate { id } => Asked::WorkspaceUpdate { id: *id },
            Request::WorkspaceMerge { id, push } => Asked::WorkspaceMerge { id: *id, push: *push },
            Request::WorkspaceDiff { id, stat } => Asked::WorkspaceDiff { id: *id, stat: *stat },
            Request::TabNew { workspace } => Asked::TabNew { workspace: *workspace },
            Request::TabList { workspace } => Asked::TabList { workspace: *workspace },
            Request::TabSelect { id } => Asked::TabSelect { id: *id },
            Request::PaneRun { tab, cmd, ephemeral } => Asked::PaneRun {
                tab: *tab,
                cmd: texts(cmd@),
                ephemeral: *ephemeral,
            },
            Request::PaneSplit { pane, direction } => Asked::PaneSplit {
                pane: *pane,
                direction: *direction,
            },
            Request::PaneList => Asked::PaneList,
            Request::PaneKill { pane } => Asked::PaneKill { pane: *pane },
            Request::PaneRename { pane, title } => Asked::PaneRename { pane: *pane, title: title@ },
            Request::PaneSend { pane, text, keys } => Asked::PaneSend {
                pane: *pane,
                text: opt_text(*text),
                keys: opt_text(*keys),
            },
            Request::PaneRead { pane, lines, unwrapped } => Asked::PaneRead {
                pane: *pane,
                lines: *lines,
                unwrapped: *unwrapped,
            },
            Request::PaneFocus { pane } => Asked::PaneFocus { pane: *pane },
            Request::PaneResize { pane, rows, cols } => Asked::PaneResize {
                pane: *pane,
                rows: *rows,
                cols: *cols,
            },
            Request::PaneResizeSplit { pane, direction, delta } => Asked::PaneResizeSplit {
                pane: *pane,
                direction: *direction,
                delta: *delta,
            },
            Request::PaneScroll { pane, offset } => Asked::PaneScroll {
                pane: *pane,
                offset: *offset,
            },
            Request::AgentEvent { pane, event } => Asked::AgentEvent { pane: *pane, event: event@ },
        }
    }
}

/// A workspace in a list.
#[derive(Debug, Clone, PartialEq)]
pub struct WorkspaceInfo {
    pub id: WorkspaceId,
    pub name: String,
    pub dir: String,
}

/// A tab in a list.
#[derive(Debug, Clone, PartialEq)]
pub struct TabInfo {
    pub id: TabId,
    pub name: String,
    pub active: bool,
}

/// A reply of the server.
#[allow(inconsistent_fields)]
#[derive(Debug, Clone, PartialEq)]
pub enum Response {
    Okay,
    Error { message: String },
    Attached { session: String, workspaces: Vec<WorkspaceView>, wire_rev: u32 },
    WorkspaceCreated { id: WorkspaceId },
    Merged { pushed: bool, bookmark: String },
    TabCreated { id: TabId },
    PaneCreated { id: PaneId },
    Workspaces { workspaces: Vec<WorkspaceInfo> },
    Tabs { tabs: Vec<TabInfo> },
    Panes { panes: Vec<PaneInfo> },
    Content { lines: Vec<String> },
}

/// What the server tells unasked.
#[derive(Debug, Clone, PartialEq)]
pub enum Event {
    LayoutChanged { workspaces: Vec<WorkspaceView> },
    StateChanged { pane: PaneId, from: AgentState, to: AgentState },
    PaneExited { pane: PaneId, code: i32 },
    PaneNotification { pane: PaneId, title: Option<String>, body: Option<String> },
    PaneOutput { pane: PaneId },
}

/// What a pane's program wrote, and the size of its screen.
#[derive(Debug, Clone, PartialEq)]
pub struct PaneData {
    pub pane: PaneId,
    pub rows: u16,
    pub cols: u16,
    pub bytes: Vec<u8>,
}

/// A frame from the server. `Unread` stands for one that says nothing to the
/// client.
#[derive(Debug, Clone, PartialEq)]
pub enum ServerFrame {
    Event(Event),
    Response(Response),
    PaneSnapshot(PaneData),
    PaneDelta(PaneData),
    Unread,
}

/// A frame to the server: a request, or bytes typed at a pane.
#[derive(Debug, Clone, PartialEq)]
pub enum WireFrame {
    Control(Request),
    Input { pane: PaneId, bytes: Vec<u8> },
}

/// A frame to the server, over texts.
pub enum Sent {
    Control(Asked),
    Input { pane: PaneId, bytes: Seq<u8> },
}

impl View for WireFrame {
    type V = Sent;

    open spec fn view(&self) -> Sent {
        match self {
            WireFrame::Control(request) => Sent::Control(request@),
            WireFrame::Input { pane, bytes } => Sent::Input { pane: *pane, bytes: bytes@ },
        }
    }
}

/// Frames to the server, over texts.
pub open spec fn sent(frames: Seq<WireFrame>) -> Seq<Sent> {
    frames.map_values(|f: WireFrame| f@)
}

/// No frames.
pub open spec fn nothing() -> Seq<Sent> {
    Seq::empty()
}

/// One request.
pub open spec fn only(request: Asked) -> Seq<Sent> {
    seq![Sent::Control(request)]
}

/// The frame of a request.
pub fn control(request: Request) -> (r: WireFrame)
    ensures
        r@ == Sent::Control(request@),
{
    WireFrame::Control(request)
}

/// No frames.
pub(crate) fn no_frames() -> (r: Vec<WireFrame>)
    ensures
        sent(r@) == nothing(),
{
    let r: Vec<WireFrame> = Vec::new();
    assert(sent(r@) == nothing());
    r
}

/// The frame of one request.
pub(crate) fn ask(request: Request) -> (r: Vec<WireFrame>)
    ensures
        sent(r@) == only(request@),
{
    let ghost line = request@;
    let r: Vec<WireFrame> = vec![WireFrame::Control(request)];
    assert(sent(r@) == only(line));
    r
}

/// The frame of bytes typed at a pane.
pub(crate) fn typed(pane: PaneId, bytes: Vec<u8>) -> (r: Vec<WireFrame>)
    ensures
        sent(r@) == seq![Sent::Input { pane, bytes: bytes@ }],
{
    let ghost b = bytes@;
    let r: Vec<WireFrame> = vec![WireFrame::Input { pane, bytes }];
    assert(sent(r@) == seq![Sent::Input { pane, bytes: b }]);
    r
}

} // verus!
