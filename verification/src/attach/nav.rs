//! The verbs behind the keys: tabs, splits, kills and scrollback.

use vstd::prelude::*;

use crate::attach::app::{says, App, Mode, PaneState};
use crate::attach::geometry::at_tab;
use crate::model::{
    find_from, list_tab_ids, tab_ids, tabs_of, Direction, PaneId, TabId, WorkspaceId,
};
use crate::protocol::{ask, no_frames, nothing, only, sent, Asked, Request, Sent, WireFrame};
use crate::text::{decimal, glue3, number};

verus! {

broadcast use {vstd::string::group_string_axioms, vstd::std_specs::hash::group_hash_axioms};

/// That a number is `id`.
pub open spec fn id_is(id: TabId) -> spec_fn(TabId) -> bool {
    |t: TabId| t == id
}

/// The place of the active tab among `ids`; the first where it is not there.
pub open spec fn tab_place(ids: Seq<TabId>, active: Option<TabId>) -> int {
    match active {
        Some(id) => match find_from(ids, id_is(id), 0) {
            Some(i) => i,
            None => 0,
        },
        None => 0,
    }
}

/// The place one further, or one back, around and around.
pub open spec fn stepped(place: int, count: int, forward: bool) -> int {
    if forward {
        if place + 1 < count {
            place + 1
        } else {
            0
        }
    } else {
        if place > 0 {
            place - 1
        } else {
            count - 1
        }
    }
}

/// What going to the next tab, or the one before, does.
pub open spec fn switched(pre: App, post: App, forward: bool, out: Seq<Sent>) -> bool {
    let ids = tab_ids(tabs_of(pre.workspaces@));
    if ids.len() == 0 {
        post == pre && out == nothing()
    } else {
        let id = ids[stepped(tab_place(ids, pre.active_tab), ids.len() as int, forward)];
        post == at_tab(pre, id) && out == only(Asked::TabSelect { id })
    }
}

/// What going to the tab `id` does.
pub open spec fn tab_selected(pre: App, post: App, id: TabId, out: Seq<Sent>) -> bool {
    post == at_tab(pre, id) && out == only(Asked::TabSelect { id })
}

/// What asking for a new tab does: it belongs to the workspace of the active
/// one.
pub open spec fn tab_asked(pre: App, post: App, out: Seq<Sent>) -> bool {
    post == pre && out == only(
        Asked::TabNew {
            workspace: match pre.owner() {
                Some(w) => Some(w.id),
                None => None,
            },
        },
    )
}

/// What splitting the focused pane does.
pub open spec fn split_asked(pre: App, post: App, direction: Direction, out: Seq<Sent>) -> bool {
    match pre.focused {
        Some(pane) => post == pre && out == only(Asked::PaneSplit { pane, direction }),
        None => {
            &&& post == (App { status: post.status, ..pre })
            &&& says(post.status, "no pane to split"@, pre.clock.now)
            &&& out == nothing()
        },
    }
}

/// What asking to kill the focused pane does.
pub open spec fn kill_questioned(pre: App, post: App, out: Seq<Sent>) -> bool {
    &&& match pre.focused {
        Some(pane) => {
            &&& post == (App { mode: Mode::ConfirmKill(pane), status: post.status, ..pre })
            &&& says(
                post.status,
                "kill pane "@ + decimal(pane.0 as nat) + "? (y/n)"@,
                pre.clock.now,
            )
        },
        None => {
            &&& post == (App { status: post.status, ..pre })
            &&& says(post.status, "no pane to kill"@, pre.clock.now)
        },
    }
    &&& out == nothing()
}

/// What moving the split around the focused pane does.
pub open spec fn resize_asked(
    pre: App,
    post: App,
    direction: Direction,
    delta: i32,
    out: Seq<Sent>,
) -> bool {
    &&& post == pre
    &&& out == match pre.focused {
        Some(pane) => only(Asked::PaneResizeSplit { pane, direction, delta }),
        None => nothing(),
    }
}

/// What browsing a pane's scrollback at `offset`, or no longer, does to it.
pub open spec fn scrolled(
    panes: Map<u64, PaneState>,
    pane: PaneId,
    offset: Option<usize>,
) -> Map<u64, PaneState> {
    if panes.contains_key(pane.0) {
        panes.insert(pane.0, PaneState { scroll: offset, damaged: true, ..panes[pane.0] })
    } else {
        panes
    }
}

/// What beginning to browse the focused pane's scrollback does.
pub open spec fn scroll_entered(pre: App, post: App, out: Seq<Sent>) -> bool {
    match pre.focused {
        Some(pane) => {
            &&& post == (App {
                panes: post.panes,
                mode: Mode::Scroll(pane),
                status: post.status,
                ..pre
            })
            &&& post.panes@ == scrolled(pre.panes@, pane, Some(0))
            &&& says(post.status, "scroll: up/down pgup/pgdn, q to exit"@, pre.clock.now)
            &&& out == only(Asked::PaneScroll { pane, offset: 0 })
        },
        None => post == pre && out == nothing(),
    }
}

/// What ending to browse a pane's scrollback does.
pub open spec fn scroll_left(pre: App, post: App, pane: PaneId, out: Seq<Sent>) -> bool {
    &&& post == (App { panes: post.panes, mode: Mode::Terminal, status: None, ..pre })
    &&& post.panes@ == scrolled(pre.panes@, pane, None)
    &&& out == only(Asked::PaneScroll { pane, offset: 0 })
}

/// What browsing a pane's scrollback at `offset` does.
pub open spec fn scroll_moved(
    pre: App,
    post: App,
    pane: PaneId,
    offset: usize,
    out: Seq<Sent>,
) -> bool {
    &&& post == (App { panes: post.panes, status: post.status, ..pre })
    &&& post.panes@ == scrolled(pre.panes@, pane, Some(offset))
    &&& says(
        post.status,
        "scroll -"@ + decimal(offset as nat) + " (q to exit)"@,
        pre.clock.now,
    )
    &&& out == only(Asked::PaneScroll { pane, offset })
}

fn find_id(ids: &Vec<TabId>, id: TabId) -> (r: Option<usize>)
    ensures
        match r {
            Some(i) => find_from(ids@, id_is(id), 0) == Some(i as int) && i < ids@.len(),
            None => find_from(ids@, id_is(id), 0) is None,
        },
{
    for i in 0..ids.len()
        invariant
            find_from(ids@, id_is(id), 0) == find_from(ids@, id_is(id), i as int),
    {
        if ids[i] == id {
            return Some(i);
        }
    }
    None
}

impl App {
    /// Go to the tab `id`.
    pub(crate) fn select_tab(&mut self, id: TabId) -> (r: Vec<WireFrame>)
        ensures
            tab_selected(*old(self), *final(self), id, sent(r@)),
    {
        self.active_tab = Some(id);
        self.zoom = false;
        self.refocus();
        ask(Request::TabSelect { id })
    }

    /// Go to the next tab, or the one before.
    pub(crate) fn switch_tab(&mut self, forward: bool) -> (r: Vec<WireFrame>)
        ensures
            switched(*old(self), *final(self), forward, sent(r@)),
    {
        let ids: Vec<TabId> = list_tab_ids(&self.workspaces);
        let count: usize = ids.len();
        if count == 0 {
            return no_frames();
        }
        let place: usize = match self.active_tab {
            Some(id) => match find_id(&ids, id) {
                Some(i) => i,
                None => 0,
            },
            None => 0,
        };
        let next: usize = if forward {
            if place < count - 1 {
                place + 1
            } else {
                0
            }
        } else if place > 0 {
            place - 1
        } else {
            count - 1
        };
        self.select_tab(ids[next])
    }

    /// Ask for a new tab.
    pub(crate) fn new_tab(&mut self) -> (r: Vec<WireFrame>)
        ensures
            tab_asked(*old(self), *final(self), sent(r@)),
    {
        let workspace: Option<WorkspaceId> = match self.active_workspace() {
            Some(w) => Some(w.id),
            None => None,
        };
        ask(Request::TabNew { workspace })
    }

    /// Leave.
    pub(crate) fn detach(&mut self) -> (r: Vec<WireFrame>)
        ensures
            *final(self) == (App { should_quit: true, ..*old(self) }),
            sent(r@) == only(Asked::Detach),
    {
        self.should_quit = true;
        ask(Request::Detach)
    }

    /// Split the focused pane.
    pub(crate) fn split(&mut self, direction: Direction) -> (r: Vec<WireFrame>)
        ensures
            split_asked(*old(self), *final(self), direction, sent(r@)),
    {
        match self.focused {
            Some(pane) => ask(Request::PaneSplit { pane, direction }),
            None => {
                self.set_status("no pane to split".to_owned());
                no_frames()
            },
        }
    }

    /// Ask whether to kill the focused pane.
    pub(crate) fn request_kill(&mut self) -> (r: Vec<WireFrame>)
        ensures
            kill_questioned(*old(self), *final(self), sent(r@)),
    {
        match self.focused {
            Some(pane) => {
                self.mode = Mode::ConfirmKill(pane);
                self.set_status(glue3("kill pane ", number(pane.0).as_str(), "? (y/n)"));
            },
            None => {
                self.set_status("no pane to kill".to_owned());
            },
        }
        no_frames()
    }

    /// Move the split around the focused pane.
    pub(crate) fn resize_split(&mut self, direction: Direction, delta: i32) -> (r: Vec<WireFrame>)
        ensures
            resize_asked(*old(self), *final(self), direction, delta, sent(r@)),
    {
        match self.focused {
            Some(pane) => ask(Request::PaneResizeSplit { pane, direction, delta }),
            None => no_frames(),
        }
    }

    fn set_scroll(&mut self, pane: PaneId, offset: Option<usize>)
        ensures
            *final(self) == (App { panes: final(self).panes, ..*old(self) }),
            final(self).panes@ == scrolled(old(self).panes@, pane, offset),
    {
        let ghost had = self.panes@;
        match self.panes.remove(&pane.0) {
            Some(s) => {
                let mut state: PaneState = s;
                state.scroll = offset;
                state.damaged = true;
                self.panes.insert(pane.0, state);
            },
            None => {},
        }
        assert(self.panes@ =~= scrolled(had, pane, offset));
    }

    /// How far back a pane's scrollback is browsed; 0 where it is not.
    pub(crate) fn scroll_offset(&self, pane: PaneId) -> (r: usize)
        ensures
            r == offset_of(*self, pane),
    {
        match self.panes.get(&pane.0) {
            Some(state) => match state.scroll {
                Some(n) => n,
                None => 0,
            },
            None => 0,
        }
    }

    /// Browse the focused pane's scrollback.
    pub(crate) fn enter_scroll(&mut self) -> (r: Vec<WireFrame>)
        ensures
            scroll_entered(*old(self), *final(self), sent(r@)),
    {
        match self.focused {
            Some(pane) => {
                self.mode = Mode::Scroll(pane);
                self.set_scroll(pane, Some(0));
                self.set_status("scroll: up/down pgup/pgdn, q to exit".to_owned());
                ask(Request::PaneScroll { pane, offset: 0 })
            },
            None => no_frames(),
        }
    }

    /// Browse a pane's scrollback no longer.
    pub(crate) fn exit_scroll(&mut self, pane: PaneId) -> (r: Vec<WireFrame>)
        ensures
            scroll_left(*old(self), *final(self), pane, sent(r@)),
    {
        self.set_scroll(pane, None);
        self.mode = Mode::Terminal;
        self.status = None;
        ask(Request::PaneScroll { pane, offset: 0 })
    }

    /// Browse a pane's scrollback at `offset`.
    pub(crate) fn scroll_to(&mut self, pane: PaneId, offset: usize) -> (r: Vec<WireFrame>)
        ensures
            scroll_moved(*old(self), *final(self), pane, offset, sent(r@)),
    {
        self.set_scroll(pane, Some(offset));
        self.set_status(glue3("scroll -", number(offset as u64).as_str(), " (q to exit)"));
        ask(Request::PaneScroll { pane, offset })
    }
}

/// How far back a pane's scrollback is browsed; 0 where it is not.
pub open spec fn offset_of(app: App, pane: PaneId) -> usize {
    if app.panes@.contains_key(pane.0) && app.panes@[pane.0].scroll is Some {
        app.panes@[pane.0].scroll->0
    } else {
        0
    }
}

// ---- laws ----------------------------------------------------------------

/// Going to the next tab and back again returns to where one was.
pub proof fn stepping_back_undoes_a_step(place: int, count: int, forward: bool)
    requires
        0 <= place < count,
    ensures
        0 <= stepped(place, count, forward) < count,
        stepped(stepped(place, count, forward), count, !forward) == place,
{
}

/// Ending to browse a scrollback undoes beginning it: the pane takes new output
/// again, and keys go to it.
pub proof fn leaving_the_scrollback_thaws_the_pane(
    pre: App,
    mid: App,
    post: App,
    pane: PaneId,
    out: Seq<Sent>,
    after: Seq<Sent>,
)
    requires
        pre.focused == Some(pane),
        pre.panes@.contains_key(pane.0),
        scroll_entered(pre, mid, out),
        scroll_left(mid, post, pane, after),
    ensures
        mid.panes@[pane.0].scroll == Some(0usize),
        post.panes@[pane.0].scroll is None,
        post.panes@[pane.0].parser == pre.panes@[pane.0].parser,
        post.mode == Mode::Terminal,
{
}

/// A new tab is asked for in the workspace that owns the active one.
pub proof fn new_tabs_join_the_active_workspace(pre: App, post: App, i: int, out: Seq<Sent>)
    requires
        tab_asked(pre, post, out),
        pre.active_tab is Some,
        0 <= i < pre.workspaces@.len(),
        crate::model::owns_tab(pre.active_tab->0)(pre.workspaces@[i]),
        forall|j: int|
            0 <= j < i ==> !crate::model::owns_tab(pre.active_tab->0)(
                #[trigger] pre.workspaces@[j],
            ),
    ensures
        post == pre,
        out == only(Asked::TabNew { workspace: Some(pre.workspaces@[i].id) }),
{
    let p = crate::model::owns_tab(pre.active_tab->0);
    crate::model::found_is_first(pre.workspaces@, p, 0);
    let k = find_from(pre.workspaces@, p, 0)->0;
    if k < i {
        assert(!p(pre.workspaces@[k]));
    }
}

/// To browse a scrollback begins at the newest line, in the focused pane, and to end it
/// returns the keys to the pane; the server is told both times.
pub proof fn browsing_begins_at_the_newest_line(pre: App, post: App, pane: PaneId, out: Seq<Sent>)
    requires
        pre.focused == Some(pane),
        scroll_entered(pre, post, out),
    ensures
        post.mode == Mode::Scroll(pane),
        out == only(Asked::PaneScroll { pane, offset: 0 }),
        pre.panes@.contains_key(pane.0) ==> post.panes@[pane.0].scroll == Some(0usize),
{
}

/// The question whether to kill names the focused pane, and nothing is asked where
/// there is none.
pub proof fn questions_name_the_pane(pre: App, post: App, out: Seq<Sent>)
    requires
        kill_questioned(pre, post, out),
    ensures
        out == nothing(),
        pre.focused matches Some(pane) ==> post.mode == Mode::ConfirmKill(pane) && post.message()
            == Some("kill pane "@ + decimal(pane.0 as nat) + "? (y/n)"@),
        pre.focused is None ==> post.mode == pre.mode,
{
}

} // verus!
