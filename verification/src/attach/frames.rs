//! What the client does with what the server sends.

use std::collections::HashMap;

use vstd::prelude::*;

use crate::attach::app::{
    anchor_at, anchor_of, says, seeded, App, Cursor, Fork, Mode, PaneState, SCROLLBACK,
};
use crate::attach::geometry::{at_tab, least, less, refocused};
use crate::attach::picker::{fresh_launch, launcher_opened};
use crate::dirs::{note_of, notification_text, osc9, osc9_bytes};
use crate::model::{
    find_flagged, find_from, find_landing, find_tab_view, find_workspace, landing_tab, list_tab_ids,
    tab_flagged, tab_is, tab_where, tabs_of, workspace_is, AgentState, PaneId, PaneInfo, PaneLine,
    TabId, TabView, WorkspaceId, WorkspaceView,
};
use crate::protocol::{Event, PaneData, Response, ServerFrame};
use crate::screen::{fed, made_with, taken, Terminal};
use crate::sidebar::{lines, place_of, waits, EntryIdent, EntryLine, Sidebar};
use crate::text::{copy_opt, decimal, glue, glue3, number, opt_text};

verus! {

broadcast use {vstd::string::group_string_axioms, vstd::std_specs::hash::group_hash_axioms};

// ---- a new view ----------------------------------------------------------

/// What panes tell.
pub open spec fn pane_lines(panes: Seq<PaneInfo>) -> Seq<PaneLine> {
    panes.map_values(|p: PaneInfo| p@)
}

/// What the panes of `tabs` tell, in order.
pub open spec fn infos_in(tabs: Seq<TabView>) -> Seq<PaneLine>
    decreases tabs.len(),
{
    if tabs.len() == 0 {
        Seq::empty()
    } else {
        infos_in(tabs.drop_last()) + pane_lines(tabs.last().panes@)
    }
}

/// What all panes tell, in order.
pub open spec fn infos_of(ws: Seq<WorkspaceView>) -> Seq<PaneLine>
    decreases ws.len(),
{
    if ws.len() == 0 {
        Seq::empty()
    } else {
        infos_of(ws.drop_last()) + infos_in(ws.last().tabs@)
    }
}

/// What is told last of the pane `id`.
pub open spec fn info_for(infos: Seq<PaneLine>, id: u64) -> Option<PaneLine>
    decreases infos.len(),
{
    if infos.len() == 0 {
        None
    } else if infos.last().id.0 == id {
        Some(infos.last())
    } else {
        info_for(infos.drop_last(), id)
    }
}

/// Whether `state` is what becomes of a pane of which `line` is told: its screen
/// stays as it was, and a pane that was not there gets an empty one.
pub open spec fn pane_kept(had: Map<u64, PaneState>, id: u64, state: PaneState, line: PaneLine) -> bool {
    if had.contains_key(id) {
        &&& state.info@ == line
        &&& state.parser == had[id].parser
        &&& state.damaged == had[id].damaged
        &&& state.scroll == had[id].scroll
    } else {
        seeded(state, 24, 80, Seq::empty(), line)
    }
}

/// Whether `have` are the panes of which `infos` tell.
pub open spec fn panes_follow(
    had: Map<u64, PaneState>,
    have: Map<u64, PaneState>,
    infos: Seq<PaneLine>,
) -> bool {
    &&& forall|id: u64| #[trigger] have.contains_key(id) <==> info_for(infos, id) is Some
    &&& forall|id: u64| #[trigger]
        have.contains_key(id) ==> pane_kept(had, id, have[id], info_for(infos, id)->0)
}

/// The panes that are still there.
pub open spec fn told(infos: Seq<PaneLine>) -> Set<u64> {
    Set::new(|id: u64| info_for(infos, id) is Some)
}

/// The tab that the server calls current.
pub open spec fn current_tab(ws: Seq<WorkspaceView>) -> Option<TabId> {
    match tab_where(ws, tab_flagged()) {
        Some(t) => Some(t.id),
        None => None,
    }
}

/// The active tab after a new view: the current one where the client waits for
/// it, else the one it was where that is still there, else the current one or
/// the first.
pub open spec fn tab_followed(pre: App, ws: Seq<WorkspaceView>) -> Option<TabId> {
    let wanted = if pre.adopt_active_view && current_tab(ws) is Some {
        current_tab(ws)
    } else {
        pre.active_tab
    };
    if wanted is Some && tab_where(ws, tab_is(wanted->0)) is Some {
        wanted
    } else if current_tab(ws) is Some {
        current_tab(ws)
    } else if tabs_of(ws).len() > 0 {
        Some(tabs_of(ws)[0].id)
    } else {
        None
    }
}

/// Where the cursor goes when the sidebar has changed: to the row it stood on,
/// else to that row's project, else to where it was as far as there are rows.
pub open spec fn cursor_found(app: App) -> Cursor {
    let all = app.entries();
    let tree = app.tree_len();
    let place = match app.cursor.anchor {
        Some(a) => match place_of(all, tree, a.0, 0) {
            Some(i) => Some(i),
            None => place_of(all, tree, EntryIdent::Workspace(a.1), 0),
        },
        None => None,
    };
    let selected = match place {
        Some(i) => i,
        None => least(app.cursor.selected as int, less(all.len() as int, 1)),
    };
    Cursor { selected: selected as usize, anchor: anchor_of(all, tree, selected) }
}

/// What a new view does: the panes follow it, the active tab and the focus stay
/// where they can, and the cursor finds its row again.
pub open spec fn viewed(pre: App, post: App, workspaces: Vec<WorkspaceView>) -> bool {
    let infos = infos_of(workspaces@);
    let mid = App {
        workspaces,
        panes: post.panes,
        requested_sizes: post.requested_sizes,
        active_tab: tab_followed(pre, workspaces@),
        adopt_active_view: false,
        ..pre
    };
    &&& post == refocused(App { cursor: cursor_found(mid), ..mid })
    &&& panes_follow(pre.panes@, post.panes@, infos)
    &&& post.requested_sizes@ == pre.requested_sizes@.restrict(told(infos))
}

fn list_infos(ws: &Vec<WorkspaceView>) -> (r: Vec<PaneInfo>)
    ensures
        pane_lines(r@) == infos_of(ws@),
{
    let mut out: Vec<PaneInfo> = Vec::new();
    assert(pane_lines(out@) == Seq::<PaneLine>::empty());
    for i in 0..ws.len()
        invariant
            pane_lines(out@) == infos_of(ws@.take(i as int)),
    {
        let tabs: &Vec<TabView> = &ws[i].tabs;
        let ghost before = pane_lines(out@);
        for k in 0..tabs.len()
            invariant
                pane_lines(out@) == before + infos_in(tabs@.take(k as int)),
        {
            let panes: &Vec<PaneInfo> = &tabs[k].panes;
            let ghost have = pane_lines(out@);
            for n in 0..panes.len()
                invariant
                    pane_lines(out@) == have + pane_lines(panes@.take(n as int)),
            {
                let ghost part = pane_lines(out@);
                out.push(panes[n].clone());
                assert(pane_lines(out@) == part.push(panes@[n as int]@));
                assert(pane_lines(panes@.take(n + 1)) == pane_lines(panes@.take(n as int)).push(
                    panes@[n as int]@,
                ));
            }
            assert(panes@.take(panes@.len() as int) == panes@);
            assert(tabs@.take(k + 1).drop_last() == tabs@.take(k as int));
        }
        assert(tabs@.take(tabs@.len() as int) == tabs@);
        assert(ws@.take(i + 1).drop_last() == ws@.take(i as int));
    }
    assert(ws@.take(ws@.len() as int) == ws@);
    out
}

/// A pane with an empty screen.
fn empty_pane_state(info: PaneInfo) -> (r: PaneState)
    ensures
        seeded(r, 24, 80, Seq::empty(), info@),
{
    PaneState { parser: Terminal::new(24, 80, SCROLLBACK), info, damaged: true, scroll: None }
}

/// The panes that a view tells of, made from those there were.
fn follow_panes(had: HashMap<u64, PaneState>, infos: Vec<PaneInfo>) -> (r: HashMap<u64, PaneState>)
    ensures
        panes_follow(had@, r@, pane_lines(infos@)),
{
    let mut rest: HashMap<u64, PaneState> = had;
    let mut have: HashMap<u64, PaneState> = HashMap::new();
    let ghost start = rest@;
    let ghost all = pane_lines(infos@);
    let ghost list = infos@;
    for info in it: infos
        invariant
            it.seq() == list,
            all == pane_lines(list),
            panes_follow(start, have@, all.take(it.index() as int)),
            forall|id: u64| #[trigger]
                rest@.contains_key(id) <==> start.contains_key(id) && info_for(
                    all.take(it.index() as int),
                    id,
                ) is None,
            forall|id: u64| #[trigger] rest@.contains_key(id) ==> rest@[id] == start[id],
    {
        let ghost k = it.index() as int;
        let ghost seen = all.take(k);
        let ghost now = all.take(k + 1);
        assert(now.drop_last() == seen);
        assert(now.last() == info@);
        let ghost before = have@;
        let id: u64 = info.id.0;
        let ghost line = info@;
        let state: PaneState = match have.remove(&id) {
            Some(s) => PaneState { info, ..s },
            None => match rest.remove(&id) {
                Some(s) => PaneState { info, ..s },
                None => empty_pane_state(info),
            },
        };
        have.insert(id, state);
        assert(pane_kept(start, id, have@[id], line));
        assert forall|x: u64| #[trigger] have@.contains_key(x) implies pane_kept(
            start,
            x,
            have@[x],
            info_for(now, x)->0,
        ) by {
            if x != id {
                assert(before.contains_key(x));
            }
        }
        assert forall|x: u64| #[trigger] have@.contains_key(x) <==> info_for(now, x) is Some by {
            assert(before.contains_key(x) <==> info_for(seen, x) is Some);
        }
    }
    assert(all.take(all.len() as int) == all);
    have
}

/// The sizes of the panes that a view tells of.
fn follow_sizes(had: &HashMap<u64, (u16, u16)>, infos: &Vec<PaneInfo>) -> (r: HashMap<
    u64,
    (u16, u16),
>)
    ensures
        r@ == had@.restrict(told(pane_lines(infos@))),
{
    let mut have: HashMap<u64, (u16, u16)> = HashMap::new();
    let ghost all = pane_lines(infos@);
    assert(have@ =~= had@.restrict(told(all.take(0))));
    for i in 0..infos.len()
        invariant
            all == pane_lines(infos@),
            have@ == had@.restrict(told(all.take(i as int))),
    {
        let ghost now = all.take(i + 1);
        assert(now.drop_last() == all.take(i as int));
        assert(now.last() == infos@[i as int]@);
        let id: u64 = infos[i].id.0;
        match had.get(&id) {
            Some(size) => {
                have.insert(id, *size);
            },
            None => {},
        }
        assert(have@ =~= had@.restrict(told(now)));
    }
    assert(all.take(all.len() as int) == all);
    have
}

impl App {
    /// Find the cursor's row again.
    fn find_cursor(&mut self)
        ensures
            *final(self) == (App { cursor: cursor_found(*old(self)), ..*old(self) }),
    {
        let sidebar: Sidebar = self.sidebar();
        let ghost all = lines(sidebar.entries@);
        let place: Option<usize> = match self.cursor.anchor {
            Some(a) => match sidebar.index_of(a.0) {
                Some(i) => Some(i),
                None => sidebar.index_of(EntryIdent::Workspace(a.1)),
            },
            None => None,
        };
        let last: usize = sidebar.len().saturating_sub(1);
        let selected: usize = match place {
            Some(i) => i,
            None => if self.cursor.selected <= last {
                self.cursor.selected
            } else {
                last
            },
        };
        let anchor: Option<(EntryIdent, WorkspaceId)> = anchor_at(&sidebar, selected);
        self.cursor = Cursor { selected, anchor };
    }

    /// Follow a new view.
    pub(crate) fn set_view(&mut self, workspaces: Vec<WorkspaceView>)
        ensures
            viewed(*old(self), *final(self), workspaces),
    {
        let infos: Vec<PaneInfo> = list_infos(&workspaces);
        let sizes: HashMap<u64, (u16, u16)> = follow_sizes(&self.requested_sizes, &infos);
        let mut had: HashMap<u64, PaneState> = HashMap::new();
        core::mem::swap(&mut had, &mut self.panes);
        self.panes = follow_panes(had, infos);
        self.requested_sizes = sizes;
        let current: Option<TabId> = find_flagged(&workspaces);
        let wanted: Option<TabId> = if self.adopt_active_view && current.is_some() {
            current
        } else {
            self.active_tab
        };
        let there: bool = match wanted {
            Some(t) => find_tab_view(&workspaces, t).is_some(),
            None => false,
        };
        let ids: Vec<TabId> = list_tab_ids(&workspaces);
        let tab: Option<TabId> = if there {
            wanted
        } else if current.is_some() {
            current
        } else if ids.len() > 0 {
            Some(ids[0])
        } else {
            None
        };
        self.workspaces = workspaces;
        self.adopt_active_view = false;
        self.active_tab = tab;
        self.find_cursor();
        self.refocus();
    }
}

// ---- events --------------------------------------------------------------

/// The panes once `id` is in `state`.
pub open spec fn with_state(panes: Map<u64, PaneState>, id: u64, state: AgentState) -> Map<
    u64,
    PaneState,
> {
    if panes.contains_key(id) {
        panes.insert(
            id,
            PaneState { info: PaneInfo { state, ..panes[id].info }, ..panes[id] },
        )
    } else {
        panes
    }
}

/// The panes once `id` has exited.
pub open spec fn with_exit(panes: Map<u64, PaneState>, id: u64, code: i32) -> Map<u64, PaneState> {
    if panes.contains_key(id) {
        panes.insert(
            id,
            PaneState {
                info: PaneInfo {
                    exited: Some(code),
                    state: AgentState::Done,
                    ..panes[id].info
                },
                ..panes[id]
            },
        )
    } else {
        panes
    }
}

/// Whether a change of state calls for the bell: an agent that worked needs
/// attention or is done, and its pane is not in focus.
pub open spec fn rings(app: App, pane: PaneId, from: AgentState, to: AgentState) -> bool {
    waits(to) && from == AgentState::Working && app.focused != Some(pane)
}

/// What a pane is called in messages.
pub open spec fn pane_title(app: App, pane: PaneId) -> Seq<char> {
    if app.panes@.contains_key(pane.0) {
        app.panes@[pane.0].info.title@
    } else {
        decimal(pane.0 as nat)
    }
}

/// Byte strings.
pub open spec fn byte_strings(s: Seq<Vec<u8>>) -> Seq<Seq<u8>> {
    s.map_values(|b: Vec<u8>| b@)
}

/// What a notification does: nothing for the focused pane; any other is marked,
/// and where notifications are on it shows in the status line and reaches the
/// real terminal as a bell and, with a text, as a notification.
pub open spec fn notified(
    pre: App,
    post: App,
    pane: PaneId,
    title: Option<Seq<char>>,
    body: Option<Seq<char>>,
) -> bool {
    if pre.focused == Some(pane) {
        post == pre
    } else {
        &&& post.notified@ == pre.notified@.insert(pane.0)
        &&& if !pre.config.notifications {
            post == (App { notified: post.notified, ..pre })
        } else {
            &&& post == (App {
                notified: post.notified,
                status: post.status,
                terminal_out: post.terminal_out,
                ..pre
            })
            &&& match note_of(title, body) {
                Some(text) => {
                    let line = pane_title(pre, pane) + ": "@ + text;
                    &&& says(post.status, line, pre.clock.now)
                    &&& byte_strings(post.terminal_out@) == byte_strings(pre.terminal_out@).push(
                        seq![7u8],
                    ).push(osc9_bytes(line))
                },
                None => {
                    &&& says(post.status, "bell"@, pre.clock.now)
                    &&& byte_strings(post.terminal_out@) == byte_strings(pre.terminal_out@).push(
                        seq![7u8],
                    )
                },
            }
        }
    }
}

/// What an event does.
pub open spec fn evented(pre: App, post: App, event: Event) -> bool {
    match event {
        Event::LayoutChanged { workspaces } => viewed(pre, post, workspaces),
        Event::StateChanged { pane, from, to } => {
            &&& post == (App {
                panes: post.panes,
                bell: pre.bell || rings(pre, pane, from, to),
                ..pre
            })
            &&& post.panes@ == with_state(pre.panes@, pane.0, to)
        },
        Event::PaneExited { pane, code } => {
            &&& post == (App { panes: post.panes, ..pre })
            &&& post.panes@ == with_exit(pre.panes@, pane.0, code)
        },
        Event::PaneNotification { pane, title, body } => notified(
            pre,
            post,
            pane,
            opt_text(title),
            opt_text(body),
        ),
        Event::PaneOutput { .. } => post == pre,
    }
}

impl App {
    fn on_notification(&mut self, pane: PaneId, title: Option<String>, body: Option<String>)
        ensures
            notified(*old(self), *final(self), pane, opt_text(title), opt_text(body)),
    {
        if self.focused == Some(pane) {
            return;
        }
        self.notified.insert(pane.0);
        if !self.config.notifications {
            return;
        }
        let name: String = match self.panes.get(&pane.0) {
            Some(state) => state.info.title.clone(),
            None => number(pane.0),
        };
        let ghost before = byte_strings(self.terminal_out@);
        let bell: Vec<u8> = vec![7u8];
        assert(bell@ == seq![7u8]);
        self.terminal_out.push(bell);
        assert(byte_strings(self.terminal_out@) == before.push(seq![7u8]));
        match notification_text(title, body) {
            Some(text) => {
                let line: String = glue3(name.as_str(), ": ", text.as_str());
                let ghost have = byte_strings(self.terminal_out@);
                self.terminal_out.push(osc9(line.as_str()));
                assert(byte_strings(self.terminal_out@) == have.push(osc9_bytes(line@)));
                self.set_status(line);
            },
            None => {
                self.set_status("bell".to_owned());
            },
        }
    }

    fn handle_event(&mut self, event: Event)
        ensures
            evented(*old(self), *final(self), event),
    {
        match event {
            Event::LayoutChanged { workspaces } => {
                self.set_view(workspaces);
            },
            Event::StateChanged { pane, from, to } => {
                match self.panes.remove(&pane.0) {
                    Some(s) => {
                        let mut state: PaneState = s;
                        state.info.state = to;
                        self.panes.insert(pane.0, state);
                    },
                    None => {},
                }
                assert(self.panes@ =~= with_state(old(self).panes@, pane.0, to));
                let attention: bool = matches!(to, AgentState::Blocked | AgentState::Done)
                    && from == AgentState::Working;
                if attention && self.focused != Some(pane) {
                    self.bell = true;
                }
            },
            Event::PaneExited { pane, code } => {
                match self.panes.remove(&pane.0) {
                    Some(s) => {
                        let mut state: PaneState = s;
                        state.info.exited = Some(code);
                        state.info.state = AgentState::Done;
                        self.panes.insert(pane.0, state);
                    },
                    None => {},
                }
                assert(self.panes@ =~= with_exit(old(self).panes@, pane.0, code));
            },
            Event::PaneNotification { pane, title, body } => {
                self.on_notification(pane, title, body);
            },
            Event::PaneOutput { .. } => {},
        }
    }
}

// ---- replies -------------------------------------------------------------

/// The message that the server is older than the client.
pub open spec fn stale_message(server: u32, client: u32) -> Seq<char> {
    "daemon is running an older build (wire rev "@ + decimal(server as nat) + ", client "@
        + decimal(client as nat)
        + ") — `tutti server stop`, reinstall, and reattach"@
}

/// The workspace `id`.
pub open spec fn workspace_at(app: App, id: WorkspaceId) -> Option<WorkspaceView> {
    match find_from(app.workspaces@, workspace_is(id), 0) {
        Some(i) => Some(app.workspaces@[i]),
        None => None,
    }
}

/// The tab on which a jump to the workspace `id` lands.
pub open spec fn landing(app: App, id: WorkspaceId) -> Option<TabId> {
    match workspace_at(app, id) {
        Some(w) => landing_tab(w.tabs@),
        None => None,
    }
}

/// The client once the workspace that it asked for was made: at that workspace,
/// or waiting for the view that tells of it.
pub open spec fn fork_landed(pre: App, id: WorkspaceId) -> App {
    let base = App { fork: Fork { pending: false, ..pre.fork }, ..pre };
    match landing(base, id) {
        Some(tab) => at_tab(base, tab),
        None => App { adopt_active_view: true, ..base },
    }
}

/// What a merge is answered with.
pub open spec fn merged_message(pushed: bool, bookmark: Seq<char>) -> Seq<char> {
    "merged into "@ + bookmark + (if pushed {
        " and pushed"@
    } else {
        Seq::empty()
    }) + " — clean up workspace? y/N"@
}

/// What a reply does.
pub open spec fn answered(pre: App, post: App, response: Response) -> bool {
    match response {
        Response::Attached { session, workspaces, wire_rev } => {
            &&& viewed(App { session, ..pre }, App { status: pre.status, ..post }, workspaces)
            &&& if wire_rev != pre.place.wire_rev {
                says(post.status, stale_message(wire_rev, pre.place.wire_rev), pre.clock.now)
            } else {
                post.status == pre.status
            }
        },
        Response::PaneCreated { id } => post == (App { focused: Some(id), zoom: false, ..pre }),
        Response::TabCreated { id } => post == at_tab(pre, id),
        Response::WorkspaceCreated { id } => if !pre.fork.pending {
            post == pre
        } else {
            let made = workspace_at(pre, id);
            &&& launcher_opened(
                fork_landed(pre, id),
                App { status: None, ..post },
                fresh_launch(
                    false,
                    match made {
                        Some(w) => Some(w.name@),
                        None => None,
                    },
                ),
                match made {
                    Some(w) => Some(w.dir@),
                    None => None,
                },
            )
            &&& match made {
                Some(w) => says(
                    post.status,
                    "workspace "@ + w.name@ + " → "@ + w.dir@,
                    pre.clock.now,
                ),
                None => post.status is None,
            }
        },
        Response::Merged { pushed, bookmark } => match pre.merge_pending {
            Some(id) => {
                &&& post == (App {
                    merge_pending: None,
                    mode: Mode::ConfirmCleanup(id),
                    status: post.status,
                    ..pre
                })
                &&& says(post.status, merged_message(pushed, bookmark@), pre.clock.now)
            },
            None => post == pre,
        },
        Response::Error { message } => {
            &&& post == (App {
                adopt_active_view: false,
                fork: Fork { pending: false, ..pre.fork },
                merge_pending: None,
                status: post.status,
                ..pre
            })
            &&& says(post.status, "error: "@ + message@, pre.clock.now)
        },
        _ => post == pre,
    }
}

impl App {
    /// Jump to the workspace `id` where the view has it. Tells whether it did.
    pub(crate) fn jump_to_workspace(&mut self, id: WorkspaceId) -> (r: bool)
        ensures
            match landing(*old(self), id) {
                Some(tab) => r && *final(self) == at_tab(*old(self), tab),
                None => !r && *final(self) == *old(self),
            },
    {
        let tab: Option<TabId> = match find_workspace(&self.workspaces, id) {
            Some(i) => find_landing(&self.workspaces[i].tabs),
            None => None,
        };
        match tab {
            Some(t) => {
                self.active_tab = Some(t);
                self.zoom = false;
                self.refocus();
                true
            },
            None => false,
        }
    }

    fn on_workspace_created(&mut self, id: WorkspaceId)
        ensures
            answered(*old(self), *final(self), Response::WorkspaceCreated { id }),
    {
        if !self.fork.pending {
            return;
        }
        self.fork.pending = false;
        let (name, dir): (Option<String>, Option<String>) = match find_workspace(
            &self.workspaces,
            id,
        ) {
            Some(i) => (Some(self.workspaces[i].name.clone()), Some(self.workspaces[i].dir.clone())),
            None => (None, None),
        };
        if !self.jump_to_workspace(id) {
            self.adopt_active_view = true;
        }
        let target: Option<String> = copy_opt(&name);
        let place: Option<&str> = match &dir {
            Some(d) => Some(d.as_str()),
            None => None,
        };
        self.open_launcher(false, target, place);
        match &name {
            Some(n) => match &dir {
                Some(d) => {
                    let mut message: String = glue3("workspace ", n.as_str(), " → ");
                    message.append(d.as_str());
                    self.set_status(message);
                },
                None => {},
            },
            None => {},
        }
    }

    /// Take in a reply from the server.
    pub fn handle_response(&mut self, response: Response)
        ensures
            answered(*old(self), *final(self), response),
            old(self).well_formed() ==> final(self).well_formed(),
    {
        match response {
            Response::Attached { session, workspaces, wire_rev } => {
                self.session = session;
                self.set_view(workspaces);
                if wire_rev != self.place.wire_rev {
                    let mut message: String = glue3(
                        "daemon is running an older build (wire rev ",
                        number(wire_rev as u64).as_str(),
                        ", client ",
                    );
                    message.append(number(self.place.wire_rev as u64).as_str());
                    message.append(") — `tutti server stop`, reinstall, and reattach");
                    self.note(message);
                }
            },
            Response::PaneCreated { id } => {
                self.focused = Some(id);
                self.zoom = false;
            },
            Response::TabCreated { id } => {
                self.active_tab = Some(id);
                self.zoom = false;
                self.refocus();
            },
            Response::WorkspaceCreated { id } => {
                self.on_workspace_created(id);
            },
            Response::Merged { pushed, bookmark } => {
                match self.merge_pending {
                    Some(id) => {
                        self.merge_pending = None;
                        let mut message: String = glue("merged into ", bookmark.as_str());
                        if pushed {
                            message.append(" and pushed");
                        } else {
                            assert(message@ + Seq::<char>::empty() == message@);
                        }
                        message.append(" — clean up workspace? y/N");
                        self.set_status(message);
                        self.mode = Mode::ConfirmCleanup(id);
                    },
                    None => {},
                }
            },
            Response::Error { message } => {
                self.adopt_active_view = false;
                self.fork.pending = false;
                self.merge_pending = None;
                self.set_status(glue("error: ", message.as_str()));
            },
            _ => {},
        }
    }
}

// ---- frames --------------------------------------------------------------

/// What is told of a pane that no view has told of.
pub open spec fn placeholder_line(pane: PaneId) -> PaneLine {
    PaneLine {
        id: pane,
        title: decimal(pane.0 as nat),
        agent: None,
        state: AgentState::Unknown,
        exited: None,
        subagents: Seq::empty(),
    }
}

/// Whether a frame can be taken in: a screen has at least one row.
pub open spec fn frame_fits(frame: ServerFrame) -> bool {
    frame matches ServerFrame::PaneSnapshot(data) ==> data.rows >= 1
}

/// What a frame does. A snapshot starts a pane's screen anew; a delta is fed to
/// it, except while its scrollback is browsed.
pub open spec fn received(pre: App, post: App, frame: ServerFrame) -> bool {
    match frame {
        ServerFrame::Event(event) => evented(pre, post, event),
        ServerFrame::Response(response) => answered(pre, post, response),
        ServerFrame::PaneSnapshot(data) => {
            let id = data.pane.0;
            let line = if pre.panes@.contains_key(id) {
                pre.panes@[id].info@
            } else {
                placeholder_line(data.pane)
            };
            &&& post == (App { panes: post.panes, ..pre })
            &&& post.panes@ == pre.panes@.insert(id, post.panes@[id])
            &&& seeded(
                post.panes@[id],
                data.rows,
                data.cols,
                taken((data.rows, data.cols, SCROLLBACK), Seq::empty(), data.bytes@),
                line,
            )
        },
        ServerFrame::PaneDelta(data) => {
            let id = data.pane.0;
            if pre.panes@.contains_key(id) && pre.panes@[id].scroll is None {
                let had = pre.panes@[id];
                let has = post.panes@[id];
                &&& post == (App { panes: post.panes, ..pre })
                &&& post.panes@ == pre.panes@.insert(id, has)
                &&& has == (PaneState { parser: has.parser, damaged: true, ..had })
                &&& made_with(has.parser) == made_with(had.parser)
                &&& fed(has.parser) == taken(made_with(had.parser), fed(had.parser), data.bytes@)
            } else {
                post == (App { panes: post.panes, ..pre }) && post.panes@ == pre.panes@
            }
        },
        ServerFrame::Unread => post == pre,
    }
}

fn placeholder_info(pane: PaneId) -> (r: PaneInfo)
    ensures
        r@ == placeholder_line(pane),
{
    let info = PaneInfo {
        id: pane,
        title: number(pane.0),
        agent: None,
        state: AgentState::Unknown,
        exited: None,
        subagents: Vec::new(),
    };
    assert(info@ =~= placeholder_line(pane));
    info
}

impl App {
    fn on_snapshot(&mut self, data: PaneData)
        requires
            data.rows >= 1,
        ensures
            received(*old(self), *final(self), ServerFrame::PaneSnapshot(data)),
    {
        let id: u64 = data.pane.0;
        let info: PaneInfo = match self.panes.get(&id) {
            Some(state) => state.info.clone(),
            None => placeholder_info(data.pane),
        };
        let blank: Terminal = Terminal::new(data.rows, data.cols, SCROLLBACK);
        let parser: Terminal = blank.take(data.bytes.as_slice());
        let state = PaneState { parser, info, damaged: true, scroll: None };
        self.panes.insert(id, state);
    }

    fn on_delta(&mut self, data: PaneData)
        ensures
            received(*old(self), *final(self), ServerFrame::PaneDelta(data)),
    {
        let id: u64 = data.pane.0;
        let ghost had = self.panes@;
        match self.panes.remove(&id) {
            Some(s) => {
                let state: PaneState = if s.scroll.is_none() {
                    let parser: Terminal = s.parser.take(data.bytes.as_slice());
                    PaneState { parser, info: s.info, damaged: true, scroll: s.scroll }
                } else {
                    s
                };
                let ghost now = state;
                self.panes.insert(id, state);
                assert(self.panes@ =~= had.insert(id, now));
                assert(now.scroll is Some ==> self.panes@ =~= had);
            },
            None => {
                assert(self.panes@ =~= had);
            },
        }
    }

    /// Take in one frame from the server.
    pub fn handle_frame(&mut self, frame: ServerFrame)
        requires
            frame_fits(frame),
        ensures
            received(*old(self), *final(self), frame),
            old(self).well_formed() ==> final(self).well_formed(),
    {
        match frame {
            ServerFrame::Event(event) => {
                self.handle_event(event);
            },
            ServerFrame::Response(response) => {
                self.handle_response(response);
            },
            ServerFrame::PaneSnapshot(data) => {
                self.on_snapshot(data);
            },
            ServerFrame::PaneDelta(data) => {
                self.on_delta(data);
            },
            ServerFrame::Unread => {},
        }
    }

    /// Whether a frame can be taken in.
    pub fn accepts(frame: &ServerFrame) -> (r: bool)
        ensures
            r == frame_fits(*frame),
    {
        match frame {
            ServerFrame::PaneSnapshot(data) => data.rows >= 1,
            _ => true,
        }
    }

    /// Take in one frame from the server, unless it is of a screen without rows;
    /// tells whether it was taken in.
    pub fn try_frame(&mut self, frame: ServerFrame) -> (done: bool)
        ensures
            done == frame_fits(frame),
            done ==> received(*old(self), *final(self), frame),
            !done ==> *final(self) == *old(self),
            old(self).well_formed() ==> final(self).well_formed(),
    {
        if !App::accepts(&frame) {
            return false;
        }
        self.handle_frame(frame);
        true
    }
}

// ---- laws ----------------------------------------------------------------

/// After a new view the focus is a pane of the active tab, or there is none to
/// focus, and the active tab is one of the view's.
pub proof fn views_keep_the_focus_valid(pre: App, post: App, workspaces: Vec<WorkspaceView>)
    requires
        viewed(pre, post, workspaces),
    ensures
        match post.focused {
            Some(p) => post.tab_panes().contains(p),
            None => post.tab_panes().len() == 0 && !post.zoom,
        },
        match post.active_tab {
            Some(t) => tab_where(post.workspaces@, tab_is(t)) is Some,
            None => tabs_of(post.workspaces@).len() == 0,
        },
{
    let mid = App {
        workspaces,
        panes: post.panes,
        requested_sizes: post.requested_sizes,
        active_tab: tab_followed(pre, workspaces@),
        adopt_active_view: false,
        ..pre
    };
    crate::attach::geometry::focus_is_valid(App { cursor: cursor_found(mid), ..mid });
    let tabs = tabs_of(workspaces@);
    crate::model::found_is_first(tabs, tab_flagged(), 0);
    match post.active_tab {
        Some(t) => {
            crate::model::found_is_first(tabs, tab_is(t), 0);
        },
        None => {},
    }
}

/// After a new view there is one pane for each that the view tells of, and no
/// other; one that was there keeps its screen.
pub proof fn views_keep_the_screens(
    pre: App,
    post: App,
    workspaces: Vec<WorkspaceView>,
    id: u64,
)
    requires
        viewed(pre, post, workspaces),
    ensures
        post.panes@.contains_key(id) == (info_for(infos_of(workspaces@), id) is Some),
        post.panes@.contains_key(id) && pre.panes@.contains_key(id) ==> post.panes@[id].parser
            == pre.panes@[id].parser && post.panes@[id].scroll == pre.panes@[id].scroll,
{
}

/// When the sidebar changes, the cursor stays on the row it stood on, wherever
/// that row went; where the row is gone, it goes to the row's project.
pub proof fn cursor_follows_its_row(app: App)
    requires
        app.cursor.anchor is Some,
    ensures
        ({
            let all = app.entries();
            let tree = app.tree_len();
            let (ident, project) = app.cursor.anchor->0;
            let found = cursor_found(app).selected as int;
            &&& place_of(all, tree, ident, 0) is Some && all.len() <= usize::MAX ==> {
                &&& 0 <= found < all.len()
                &&& crate::sidebar::ident_in(all, tree, found) == ident
            }
            &&& place_of(all, tree, ident, 0) is None && place_of(
                all,
                tree,
                EntryIdent::Workspace(project),
                0,
            ) is Some && all.len() <= usize::MAX ==> {
                &&& 0 <= found < all.len()
                &&& crate::sidebar::ident_in(all, tree, found) == EntryIdent::Workspace(project)
            }
        }),
{
    let all = app.entries();
    let tree = app.tree_len();
    let (ident, project) = app.cursor.anchor->0;
    place_holds(all, tree, ident, 0);
    place_holds(all, tree, EntryIdent::Workspace(project), 0);
}

proof fn place_holds(all: Seq<EntryLine>, tree: int, ident: EntryIdent, i: int)
    requires
        0 <= i,
    ensures
        place_of(all, tree, ident, i) matches Some(k) ==> i <= k < all.len()
            && crate::sidebar::ident_in(all, tree, k) == ident,
    decreases all.len() - i,
{
    if i < all.len() {
        place_holds(all, tree, ident, i + 1);
    }
}

/// While a pane's scrollback is browsed, new output leaves its screen alone.
pub proof fn browsing_freezes_the_screen(pre: App, post: App, data: PaneData)
    requires
        received(pre, post, ServerFrame::PaneDelta(data)),
        pre.panes@.contains_key(data.pane.0),
        pre.panes@[data.pane.0].scroll is Some,
    ensures
        post.panes@[data.pane.0] == pre.panes@[data.pane.0],
{
}

/// A difference between the revisions of the protocol is told of as soon as the
/// client is attached; without one, nothing is.
pub proof fn skew_is_told_of(
    pre: App,
    post: App,
    session: String,
    workspaces: Vec<WorkspaceView>,
    wire_rev: u32,
)
    requires
        answered(pre, post, Response::Attached { session, workspaces, wire_rev }),
    ensures
        wire_rev != pre.place.wire_rev ==> post.message() == Some(
            stale_message(wire_rev, pre.place.wire_rev),
        ),
        wire_rev == pre.place.wire_rev ==> post.status == pre.status,
        post.session == session,
{
}

/// A notification of the focused pane is left alone. That of any other pane marks
/// it, and no other, whether notifications are on or off; only where they are on
/// does it show and reach the terminal.
pub proof fn notices_mark_panes_out_of_focus(
    pre: App,
    post: App,
    pane: PaneId,
    title: Option<String>,
    body: Option<String>,
    other: u64,
)
    requires
        evented(pre, post, Event::PaneNotification { pane, title, body }),
    ensures
        pre.focused == Some(pane) ==> post == pre,
        pre.focused != Some(pane) ==> post.notified@.contains(pane.0),
        other != pane.0 ==> post.notified@.contains(other) == pre.notified@.contains(other),
        !pre.config.notifications ==> post.status == pre.status && post.terminal_out
            == pre.terminal_out,
        pre.focused != Some(pane) && pre.config.notifications ==> post.message() is Some
            && post.terminal_out@.len() > pre.terminal_out@.len(),
        post.focused == pre.focused,
        post.panes == pre.panes,
{
    assert(byte_strings(post.terminal_out@).len() == post.terminal_out@.len());
    assert(byte_strings(pre.terminal_out@).len() == pre.terminal_out@.len());
}

/// The bell rings for a pane out of focus that was working and now waits for an
/// answer or is done, and for nothing else.
pub proof fn waiting_panes_ring_the_bell(pre: App, post: App, event: Event)
    requires
        evented(pre, post, event),
        !pre.bell,
    ensures
        post.bell <==> (event matches Event::StateChanged { pane, from, to } && from
            == AgentState::Working && (to == AgentState::Blocked || to == AgentState::Done)
            && pre.focused != Some(pane)),
{
}

/// What an event tells of one pane leaves every other alone.
pub proof fn events_concern_one_pane(pre: App, post: App, event: Event, id: u64)
    requires
        evented(pre, post, event),
        !(event is LayoutChanged),
        event matches Event::StateChanged { pane, .. } ==> pane.0 != id,
        event matches Event::PaneExited { pane, .. } ==> pane.0 != id,
    ensures
        post.panes@.contains_key(id) == pre.panes@.contains_key(id),
        post.panes@[id] == pre.panes@[id],
        post.workspaces == pre.workspaces,
        post.focused == pre.focused,
        post.mode == pre.mode,
{
}

/// A failed request is told of, and nothing that waited for it goes on waiting.
pub proof fn errors_end_the_waiting(pre: App, post: App, message: String)
    requires
        answered(pre, post, Response::Error { message }),
    ensures
        post.message() == Some("error: "@ + message@),
        !post.fork.pending,
        post.merge_pending is None,
        !post.adopt_active_view,
        post.mode == pre.mode,
{
}

/// An event leaves a pane as it tells: in the state that it changed to, or exited with
/// that code and done.
pub proof fn panes_are_as_told(pre: App, post: App, event: Event, id: u64)
    requires
        evented(pre, post, event),
        pre.panes@.contains_key(id),
    ensures
        event matches Event::StateChanged { pane, from, to } ==> (pane.0 == id
            ==> post.panes@.contains_key(id) && post.panes@[id].info.state == to
            && post.panes@[id].parser == pre.panes@[id].parser),
        event matches Event::PaneExited { pane, code } ==> (pane.0 == id ==> post.panes@.contains_key(
            id,
        ) && post.panes@[id].info.exited == Some(code) && post.panes@[id].info.state
            == AgentState::Done),
        event is PaneOutput ==> post == pre,
{
}

/// What was made is gone to: a pane that was made is focused, and a tab that was made
/// is the active one.
pub proof fn what_was_made_is_gone_to(pre: App, post: App, response: Response)
    requires
        answered(pre, post, response),
    ensures
        response matches Response::PaneCreated { id } ==> post.focused == Some(id) && !post.zoom,
        response matches Response::TabCreated { id } ==> post.active_tab == Some(id),
        response is WorkspaceCreated && pre.fork.pending ==> post.mode == Mode::Launcher
            && !post.fork.pending,
        response is WorkspaceCreated && !pre.fork.pending ==> post == pre,
        response is Okay ==> post == pre,
{
}

/// A snapshot makes the pane's screen anew, in the size that it brings and with what it
/// brings; a delta adds to the screen what it brings; neither touches another pane.
pub proof fn output_reaches_its_pane(pre: App, post: App, data: PaneData, other: u64)
    requires
        other != data.pane.0,
    ensures
        received(pre, post, ServerFrame::PaneSnapshot(data)) ==> {
            let now = post.panes@[data.pane.0];
            &&& post.panes@.contains_key(data.pane.0)
            &&& made_with(now.parser).0 == data.rows && made_with(now.parser).1 == data.cols
            &&& data.rows >= 2 && 3 <= data.cols <= 65527 ==> fed(now.parser) == seq![data.bytes@]
            &&& now.scroll is None && now.damaged
            &&& post.panes@.contains_key(other) == pre.panes@.contains_key(other)
            &&& post.panes@[other] == pre.panes@[other]
        },
        received(pre, post, ServerFrame::PaneDelta(data)) && pre.panes@.contains_key(data.pane.0)
            && pre.panes@[data.pane.0].scroll is None ==> {
            let was = pre.panes@[data.pane.0];
            let now = post.panes@[data.pane.0];
            let made = made_with(was.parser);
            &&& made_with(now.parser) == made && now.damaged
            &&& made.0 >= 2 && 3 <= made.1 <= 65527 ==> fed(now.parser) == fed(was.parser).push(
                data.bytes@,
            )
            &&& post.panes@[other] == pre.panes@[other]
        },
{
    assert(Seq::<Seq<u8>>::empty().push(data.bytes@) =~= seq![data.bytes@]);
}

/// A notification with a title and a body shows both, title first, behind the pane's
/// name, and reaches the terminal as a bell and a message that says the same.
pub proof fn notices_say_what_was_sent(
    pre: App,
    post: App,
    pane: PaneId,
    title: String,
    body: String,
)
    requires
        evented(
            pre,
            post,
            Event::PaneNotification { pane, title: Some(title), body: Some(body) },
        ),
        pre.focused != Some(pane),
        pre.config.notifications,
    ensures
        ({
            let line = pane_title(pre, pane) + ": "@ + (title@ + ": "@ + body@);
            &&& post.message() == Some(line)
            &&& byte_strings(post.terminal_out@).last() == osc9_bytes(line)
            &&& byte_strings(post.terminal_out@).len() == byte_strings(pre.terminal_out@).len() + 2
        }),
        pre.panes@.contains_key(pane.0) ==> pane_title(pre, pane)
            == pre.panes@[pane.0].info.title@,
{
}

/// What the server tells of a workspace that was made is shown with its name and where
/// it lies, once the view has it.
pub proof fn made_workspaces_are_told_of(
    pre: App,
    post: App,
    id: WorkspaceId,
    w: WorkspaceView,
)
    requires
        answered(pre, post, Response::WorkspaceCreated { id }),
        pre.fork.pending,
        workspace_at(pre, id) == Some(w),
    ensures
        post.message() == Some("workspace "@ + w.name@ + " → "@ + w.dir@),
        post.launch@.target == Some(w.name@),
        landing(pre, id) matches Some(tab) ==> post.active_tab == Some(tab),
{
}

/// The workspace that is looked for by its number is the first that has it.
pub proof fn workspaces_are_found_by_number(app: App, i: int)
    requires
        0 <= i < app.workspaces@.len(),
        forall|j: int| 0 <= j < i ==> (#[trigger] app.workspaces@[j]).id != app.workspaces@[i].id,
    ensures
        workspace_at(app, app.workspaces@[i].id) == Some(app.workspaces@[i]),
{
    let p = workspace_is(app.workspaces@[i].id);
    crate::model::found_is_first(app.workspaces@, p, 0);
    assert(p(app.workspaces@[i]));
    let k = find_from(app.workspaces@, p, 0)->0;
    if k < i {
        assert(app.workspaces@[k].id != app.workspaces@[i].id);
    }
}

/// A new view leaves the client where it is: at its tab, and in its pane, as long as
/// they are there. Where it waits for what it asked for, it goes to the tab that the
/// server calls current.
pub proof fn views_leave_the_client_where_it_is(
    pre: App,
    post: App,
    workspaces: Vec<WorkspaceView>,
    tab: TabId,
)
    requires
        viewed(pre, post, workspaces),
    ensures
        !pre.adopt_active_view && pre.active_tab == Some(tab) && tab_where(
            workspaces@,
            tab_is(tab),
        ) is Some ==> post.active_tab == Some(tab),
        pre.adopt_active_view && current_tab(workspaces@) == Some(tab) ==> post.active_tab == Some(
            tab,
        ),
        post.active_tab == pre.active_tab && pre.focused is Some && post.tab_panes().contains(
            pre.focused->0,
        ) ==> post.focused == pre.focused,
        !post.adopt_active_view,
        post.workspaces == workspaces,
        post.session == pre.session,
        post.mode == pre.mode,
{
    let mid = App {
        workspaces,
        panes: post.panes,
        requested_sizes: post.requested_sizes,
        active_tab: tab_followed(pre, workspaces@),
        adopt_active_view: false,
        ..pre
    };
    if current_tab(workspaces@) == Some(tab) {
        let tabs = tabs_of(workspaces@);
        crate::model::found_is_first(tabs, tab_flagged(), 0);
        crate::model::found_is_first(tabs, tab_is(tab), 0);
        let k = find_from(tabs, tab_flagged(), 0)->0;
        assert(tab_is(tab)(tabs[k]));
    }
    assert(post.tab_panes() == App { cursor: cursor_found(mid), ..mid }.tab_panes());
}

} // verus!
