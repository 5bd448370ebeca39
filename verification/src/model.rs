//! What the server tells of workspaces, tabs and panes.

use vstd::prelude::*;

use crate::text::{copy_opt, opt_text};

verus! {

/// The number of a pane.
#[derive(Debug, Clone, Copy, PartialEq, Eq, PartialOrd, Ord, Hash, Structural)]
pub struct PaneId(pub u64);

/// The number of a tab.
#[derive(Debug, Clone, Copy, PartialEq, Eq, PartialOrd, Ord, Hash, Structural)]
pub struct TabId(pub u64);

/// The number of a workspace.
#[derive(Debug, Clone, Copy, PartialEq, Eq, PartialOrd, Ord, Hash, Structural)]
pub struct WorkspaceId(pub u64);

/// What an agent is doing.
#[derive(Debug, Clone, Copy, PartialEq, Eq, Structural)]
pub enum AgentState {
    Working,
    Blocked,
    Done,
    Idle,
    Unknown,
}

/// The axis along which a split places its two children: side by side
/// (`Horizontal`) or one above the other (`Vertical`).
#[derive(Debug, Clone, Copy, PartialEq, Eq, Structural)]
pub enum Direction {
    Horizontal,
    Vertical,
}

/// The panes of a tab as a binary tree of splits. `ratio` is the first child's
/// share of the axis, as the bit pattern of an IEEE 754 single.
#[derive(Debug, PartialEq)]
pub enum Layout {
    Leaf(PaneId),
    Split { direction: Direction, ratio: u32, first: Box<Layout>, second: Box<Layout> },
}

impl Clone for Layout {
    fn clone(&self) -> (r: Self)
        ensures
            r == *self,
        decreases self,
    {
        match self {
            Layout::Leaf(id) => Layout::Leaf(*id),
            Layout::Split { direction, ratio, first, second } => Layout::Split {
                direction: *direction,
                ratio: *ratio,
                first: Box::new((&**first).clone()),
                second: Box::new((&**second).clone()),
            },
        }
    }
}

/// An agent that an agent has started.
#[derive(Debug, PartialEq)]
pub struct SubagentInfo {
    pub desc: String,
    pub running: bool,
}

impl Clone for SubagentInfo {
    fn clone(&self) -> (r: Self)
        ensures
            r == *self,
    {
        SubagentInfo { desc: self.desc.clone(), running: self.running }
    }
}

/// One pane of a tab. `agent` names the agent that runs in it, and `exited` is
/// the code its command ended with.
#[derive(Debug, PartialEq)]
pub struct PaneInfo {
    pub id: PaneId,
    pub title: String,
    pub agent: Option<String>,
    pub state: AgentState,
    pub exited: Option<i32>,
    pub subagents: Vec<SubagentInfo>,
}

/// One pane of a tab, over texts.
#[verifier::ext_equal]
pub struct PaneLine {
    pub id: PaneId,
    pub title: Seq<char>,
    pub agent: Option<Seq<char>>,
    pub state: AgentState,
    pub exited: Option<i32>,
    pub subagents: Seq<SubagentInfo>,
}

impl View for PaneInfo {
    type V = PaneLine;

    open spec fn view(&self) -> PaneLine {
        PaneLine {
            id: self.id,
            title: self.title@,
            agent: opt_text(self.agent),
            state: self.state,
            exited: self.exited,
            subagents: self.subagents@,
        }
    }
}

impl Clone for PaneInfo {
    fn clone(&self) -> (r: Self)
        ensures
            r@ == self@,
    {
        PaneInfo {
            id: self.id,
            title: self.title.clone(),
            agent: copy_opt(&self.agent),
            state: self.state,
            exited: self.exited,
            subagents: self.subagents.clone(),
        }
    }
}

/// One tab of a workspace: its panes and how they share the screen.
#[derive(Debug, Clone, PartialEq)]
pub struct TabView {
    pub id: TabId,
    pub name: String,
    pub active: bool,
    pub layout: Option<Layout>,
    pub active_pane: Option<PaneId>,
    pub panes: Vec<PaneInfo>,
}

/// One workspace: a directory, and the tabs opened over it. `parent` is the
/// workspace it was forked from.
#[derive(Debug, Clone, PartialEq)]
pub struct WorkspaceView {
    pub id: WorkspaceId,
    pub name: String,
    pub dir: String,
    pub branch: Option<String>,
    pub changes: Option<String>,
    pub stale: bool,
    pub parent: Option<WorkspaceId>,
    pub tabs: Vec<TabView>,
}

/// Whether `layout` shows the pane `id`.
pub open spec fn shows(layout: Layout, id: PaneId) -> bool
    decreases layout,
{
    match layout {
        Layout::Leaf(p) => p == id,
        Layout::Split { first, second, .. } => shows(*first, id) || shows(*second, id),
    }
}

impl Layout {
    /// Whether the pane `id` is a leaf of this tree.
    pub fn contains(&self, id: PaneId) -> (r: bool)
        ensures
            r == shows(*self, id),
        decreases self,
    {
        match self {
            Layout::Leaf(p) => *p == id,
            Layout::Split { first, second, .. } => first.contains(id) || second.contains(id),
        }
    }
}

// ---- looking things up ---------------------------------------------------

/// The first place from `i` on where `p` holds.
pub open spec fn find_from<A>(s: Seq<A>, p: spec_fn(A) -> bool, i: int) -> Option<int>
    decreases s.len() - i,
{
    if i < 0 || i >= s.len() {
        None
    } else if p(s[i]) {
        Some(i)
    } else {
        find_from(s, p, i + 1)
    }
}

/// What is found is there, and nothing before it is.
pub proof fn found_is_first<A>(s: Seq<A>, p: spec_fn(A) -> bool, i: int)
    requires
        0 <= i,
    ensures
        match find_from(s, p, i) {
            Some(k) => i <= k < s.len() && p(s[k]) && forall|j: int| i <= j < k ==> !p(s[j]),
            None => forall|j: int| i <= j < s.len() ==> !p(s[j]),
        },
    decreases s.len() - i,
{
    if i < s.len() && !p(s[i]) {
        found_is_first(s, p, i + 1);
    }
}

/// That a workspace has the number `id`.
pub open spec fn workspace_is(id: WorkspaceId) -> spec_fn(WorkspaceView) -> bool {
    |w: WorkspaceView| w.id == id
}

/// That a tab has the number `id`.
pub open spec fn tab_is(id: TabId) -> spec_fn(TabView) -> bool {
    |t: TabView| t.id == id
}

/// That a workspace owns the tab `id`.
pub open spec fn owns_tab(id: TabId) -> spec_fn(WorkspaceView) -> bool {
    |w: WorkspaceView| find_from(w.tabs@, tab_is(id), 0) is Some
}

/// That a tab is its workspace's active one.
pub open spec fn tab_flagged() -> spec_fn(TabView) -> bool {
    |t: TabView| t.active
}

/// That a tab's layout shows the pane `id`.
pub open spec fn tab_shows(id: PaneId) -> spec_fn(TabView) -> bool {
    |t: TabView| t.layout matches Some(l) && shows(l, id)
}

/// The tabs of all workspaces, in order.
pub open spec fn tabs_of(ws: Seq<WorkspaceView>) -> Seq<TabView>
    decreases ws.len(),
{
    if ws.len() == 0 {
        Seq::empty()
    } else {
        tabs_of(ws.drop_last()) + ws.last().tabs@
    }
}

/// The first tab for which `p` holds.
pub open spec fn tab_where(ws: Seq<WorkspaceView>, p: spec_fn(TabView) -> bool) -> Option<TabView> {
    match find_from(tabs_of(ws), p, 0) {
        Some(i) => Some(tabs_of(ws)[i]),
        None => None,
    }
}

/// The panes of a layout, in order.
pub open spec fn leaves(layout: Layout) -> Seq<PaneId>
    decreases layout,
{
    match layout {
        Layout::Leaf(id) => seq![id],
        Layout::Split { first, second, .. } => leaves(*first) + leaves(*second),
    }
}

/// A layout shows its leaves.
pub proof fn leaves_are_shown(layout: Layout, id: PaneId)
    ensures
        leaves(layout).contains(id) == shows(layout, id),
    decreases layout,
{
    match layout {
        Layout::Leaf(p) => {
            assert(leaves(layout)[0] == p);
        },
        Layout::Split { first, second, .. } => {
            leaves_are_shown(*first, id);
            leaves_are_shown(*second, id);
            let a = leaves(*first);
            let b = leaves(*second);
            if a.contains(id) {
                let k = choose|k: int| 0 <= k < a.len() && a[k] == id;
                assert((a + b)[k] == id);
            }
            if b.contains(id) {
                let k = choose|k: int| 0 <= k < b.len() && b[k] == id;
                assert((a + b)[a.len() + k] == id);
            }
            if (a + b).contains(id) {
                let k = choose|k: int| 0 <= k < (a + b).len() && (a + b)[k] == id;
                if k < a.len() {
                    assert(a[k] == id);
                } else {
                    assert(b[k - a.len()] == id);
                }
            }
        },
    }
}

impl Layout {
    fn collect_panes(&self, out: &mut Vec<PaneId>)
        ensures
            final(out)@ == old(out)@ + leaves(*self),
        decreases self,
    {
        match self {
            Layout::Leaf(id) => {
                out.push(*id);
            },
            Layout::Split { first, second, .. } => {
                first.collect_panes(out);
                second.collect_panes(out);
            },
        }
    }

    /// The panes of this tree, in order.
    pub fn panes(&self) -> (r: Vec<PaneId>)
        ensures
            r@ == leaves(*self),
    {
        let mut out: Vec<PaneId> = Vec::new();
        self.collect_panes(&mut out);
        out
    }
}

/// The place of the workspace `id`.
pub fn find_workspace(ws: &Vec<WorkspaceView>, id: WorkspaceId) -> (r: Option<usize>)
    ensures
        match r {
            Some(i) => find_from(ws@, workspace_is(id), 0) == Some(i as int) && i < ws@.len(),
            None => find_from(ws@, workspace_is(id), 0) is None,
        },
{
    for i in 0..ws.len()
        invariant
            find_from(ws@, workspace_is(id), 0) == find_from(ws@, workspace_is(id), i as int),
    {
        if ws[i].id == id {
            return Some(i);
        }
    }
    None
}

/// The place of the tab `id` among `tabs`.
pub fn find_tab(tabs: &Vec<TabView>, id: TabId) -> (r: Option<usize>)
    ensures
        match r {
            Some(i) => find_from(tabs@, tab_is(id), 0) == Some(i as int) && i < tabs@.len(),
            None => find_from(tabs@, tab_is(id), 0) is None,
        },
{
    for i in 0..tabs.len()
        invariant
            find_from(tabs@, tab_is(id), 0) == find_from(tabs@, tab_is(id), i as int),
    {
        if tabs[i].id == id {
            return Some(i);
        }
    }
    None
}

/// The place of the active tab among `tabs`, or of the first.
pub open spec fn landing_tab(tabs: Seq<TabView>) -> Option<TabId> {
    match find_from(tabs, tab_flagged(), 0) {
        Some(i) => Some(tabs[i].id),
        None => if tabs.len() > 0 {
            Some(tabs[0].id)
        } else {
            None
        },
    }
}

/// The active tab among `tabs`, or else the first.
pub fn find_landing(tabs: &Vec<TabView>) -> (r: Option<TabId>)
    ensures
        r == landing_tab(tabs@),
{
    for i in 0..tabs.len()
        invariant
            find_from(tabs@, tab_flagged(), 0) == find_from(tabs@, tab_flagged(), i as int),
    {
        if tabs[i].active {
            return Some(tabs[i].id);
        }
    }
    if tabs.len() > 0 {
        Some(tabs[0].id)
    } else {
        None
    }
}

/// The place of the first workspace that owns the tab `id`.
pub fn find_owner(ws: &Vec<WorkspaceView>, id: TabId) -> (r: Option<usize>)
    ensures
        match r {
            Some(i) => find_from(ws@, owns_tab(id), 0) == Some(i as int) && i < ws@.len(),
            None => find_from(ws@, owns_tab(id), 0) is None,
        },
{
    for i in 0..ws.len()
        invariant
            find_from(ws@, owns_tab(id), 0) == find_from(ws@, owns_tab(id), i as int),
    {
        if find_tab(&ws[i].tabs, id).is_some() {
            return Some(i);
        }
    }
    None
}

/// What is found in the front part of a list is found in the whole.
pub proof fn found_in_front<A>(a: Seq<A>, b: Seq<A>, p: spec_fn(A) -> bool, i: int)
    requires
        0 <= i <= a.len(),
    ensures
        find_from(a, p, i) is Some ==> find_from(a + b, p, i) == find_from(a, p, i),
        find_from(a, p, i) is None ==> find_from(a + b, p, i) == (match find_from(b, p, 0) {
            Some(k) => Some(a.len() + k),
            None => None,
        }),
    decreases a.len() - i,
{
    if i < a.len() {
        assert((a + b)[i] == a[i]);
        if !p(a[i]) {
            found_in_front(a, b, p, i + 1);
        }
    } else {
        found_behind(a, b, p, 0);
    }
}

proof fn found_behind<A>(a: Seq<A>, b: Seq<A>, p: spec_fn(A) -> bool, i: int)
    requires
        0 <= i <= b.len(),
    ensures
        find_from(a + b, p, a.len() + i) == (match find_from(b, p, i) {
            Some(k) => Some(a.len() + k),
            None => None,
        }),
    decreases b.len() - i,
{
    if i < b.len() {
        assert((a + b)[a.len() + i] == b[i]);
        if !p(b[i]) {
            found_behind(a, b, p, i + 1);
        }
    }
}

/// The front workspaces' tabs are the front of all tabs.
pub proof fn tabs_in_front(ws: Seq<WorkspaceView>, i: int)
    requires
        0 <= i < ws.len(),
    ensures
        tabs_of(ws.take(i + 1)) == tabs_of(ws.take(i)) + ws[i].tabs@,
{
    assert(ws.take(i + 1).drop_last() =~= ws.take(i));
}

proof fn tabs_split(ws: Seq<WorkspaceView>, i: int)
    requires
        0 <= i <= ws.len(),
    ensures
        exists|rest: Seq<TabView>| tabs_of(ws) == #[trigger] (tabs_of(ws.take(i)) + rest),
    decreases ws.len() - i,
{
    if i == ws.len() {
        assert(ws.take(i) =~= ws);
        assert(tabs_of(ws) =~= tabs_of(ws.take(i)) + Seq::<TabView>::empty());
    } else {
        tabs_split(ws, i + 1);
        tabs_in_front(ws, i);
        let rest = choose|rest: Seq<TabView>| tabs_of(ws) == #[trigger] (tabs_of(ws.take(i + 1)) + rest);
        assert(tabs_of(ws) =~= tabs_of(ws.take(i)) + (ws[i].tabs@ + rest));
    }
}

/// The first tab for which `p` holds is the first such tab of the first
/// workspace that has one.
pub proof fn tab_where_found(ws: Seq<WorkspaceView>, p: spec_fn(TabView) -> bool, i: int, k: int)
    requires
        0 <= i < ws.len(),
        find_from(tabs_of(ws.take(i)), p, 0) is None,
        find_from(ws[i].tabs@, p, 0) == Some(k),
    ensures
        tab_where(ws, p) == Some(ws[i].tabs@[k]),
{
    tabs_in_front(ws, i);
    found_is_first(ws[i].tabs@, p, 0);
    let a = tabs_of(ws.take(i));
    let b = ws[i].tabs@;
    found_in_front(a, b, p, 0);
    tabs_split(ws, i + 1);
    let rest = choose|rest: Seq<TabView>| tabs_of(ws) == #[trigger] (tabs_of(ws.take(i + 1)) + rest);
    found_in_front(a + b, rest, p, 0);
    assert(tabs_of(ws)[a.len() + k] == b[k]);
}

/// The first tab with the number `id`.
pub fn find_tab_view<'a>(ws: &'a Vec<WorkspaceView>, id: TabId) -> (r: Option<&'a TabView>)
    ensures
        match tab_where(ws@, tab_is(id)) {
            Some(t) => r matches Some(x) && *x == t,
            None => r is None,
        },
{
    for i in 0..ws.len()
        invariant
            find_from(tabs_of(ws@.take(i as int)), tab_is(id), 0) is None,
    {
        match find_tab(&ws[i].tabs, id) {
            Some(k) => {
                proof {
                    tab_where_found(ws@, tab_is(id), i as int, k as int);
                }
                return Some(&ws[i].tabs[k]);
            },
            None => {},
        }
        proof {
            tabs_in_front(ws@, i as int);
            found_in_front(tabs_of(ws@.take(i as int)), ws@[i as int].tabs@, tab_is(id), 0);
        }
    }
    assert(ws@.take(ws@.len() as int) == ws@);
    None
}

/// The first active tab.
pub fn find_flagged(ws: &Vec<WorkspaceView>) -> (r: Option<TabId>)
    ensures
        r == (match tab_where(ws@, tab_flagged()) {
            Some(t) => Some(t.id),
            None => None,
        }),
{
    for i in 0..ws.len()
        invariant
            find_from(tabs_of(ws@.take(i as int)), tab_flagged(), 0) is None,
    {
        let tabs: &Vec<TabView> = &ws[i].tabs;
        for k in 0..tabs.len()
            invariant
                i < ws@.len(),
                tabs == &ws@[i as int].tabs,
                find_from(tabs_of(ws@.take(i as int)), tab_flagged(), 0) is None,
                find_from(tabs@, tab_flagged(), 0) == find_from(tabs@, tab_flagged(), k as int),
        {
            if tabs[k].active {
                proof {
                    tab_where_found(ws@, tab_flagged(), i as int, k as int);
                }
                return Some(tabs[k].id);
            }
        }
        proof {
            tabs_in_front(ws@, i as int);
            found_in_front(tabs_of(ws@.take(i as int)), ws@[i as int].tabs@, tab_flagged(), 0);
        }
    }
    assert(ws@.take(ws@.len() as int) == ws@);
    None
}

/// The first tab whose layout shows the pane `id`.
pub fn find_tab_of_pane(ws: &Vec<WorkspaceView>, id: PaneId) -> (r: Option<TabId>)
    ensures
        r == (match tab_where(ws@, tab_shows(id)) {
            Some(t) => Some(t.id),
            None => None,
        }),
{
    for i in 0..ws.len()
        invariant
            find_from(tabs_of(ws@.take(i as int)), tab_shows(id), 0) is None,
    {
        let tabs: &Vec<TabView> = &ws[i].tabs;
        for k in 0..tabs.len()
            invariant
                i < ws@.len(),
                tabs == &ws@[i as int].tabs,
                find_from(tabs_of(ws@.take(i as int)), tab_shows(id), 0) is None,
                find_from(tabs@, tab_shows(id), 0) == find_from(tabs@, tab_shows(id), k as int),
        {
            let shown: bool = match &tabs[k].layout {
                Some(l) => l.contains(id),
                None => false,
            };
            if shown {
                proof {
                    tab_where_found(ws@, tab_shows(id), i as int, k as int);
                }
                return Some(tabs[k].id);
            }
        }
        proof {
            tabs_in_front(ws@, i as int);
            found_in_front(tabs_of(ws@.take(i as int)), ws@[i as int].tabs@, tab_shows(id), 0);
        }
    }
    assert(ws@.take(ws@.len() as int) == ws@);
    None
}

/// The numbers of all tabs, in order.
pub open spec fn tab_ids(tabs: Seq<TabView>) -> Seq<TabId> {
    tabs.map_values(|t: TabView| t.id)
}

/// The numbers of all tabs, in order.
pub fn list_tab_ids(ws: &Vec<WorkspaceView>) -> (r: Vec<TabId>)
    ensures
        r@ == tab_ids(tabs_of(ws@)),
{
    let mut out: Vec<TabId> = Vec::new();
    assert(ws@.take(0) =~= Seq::empty());
    for i in 0..ws.len()
        invariant
            out@ == tab_ids(tabs_of(ws@.take(i as int))),
    {
        let tabs: &Vec<TabView> = &ws[i].tabs;
        let ghost have = out@;
        for k in 0..tabs.len()
            invariant
                out@ == have + tab_ids(tabs@.take(k as int)),
        {
            out.push(tabs[k].id);
            assert(tab_ids(tabs@.take(k + 1)) == tab_ids(tabs@.take(k as int)).push(
                tabs@[k as int].id,
            ));
        }
        assert(tabs@.take(tabs@.len() as int) == tabs@);
        proof {
            tabs_in_front(ws@, i as int);
        }
        assert(out@ == tab_ids(tabs_of(ws@.take(i + 1))));
    }
    assert(ws@.take(ws@.len() as int) == ws@);
    out
}

/// The tab that a jump to a workspace lands on is its active one, or else its first.
pub proof fn jumps_land_on_the_active_tab(tabs: Seq<TabView>, i: int)
    requires
        0 <= i < tabs.len(),
    ensures
        tabs[i].active && (forall|j: int| 0 <= j < i ==> !(#[trigger] tabs[j]).active)
            ==> landing_tab(tabs) == Some(tabs[i].id),
        (forall|j: int| 0 <= j < tabs.len() ==> !(#[trigger] tabs[j]).active) ==> landing_tab(tabs)
            == Some(tabs[0].id),
{
    found_is_first(tabs, tab_flagged(), 0);
    match find_from(tabs, tab_flagged(), 0) {
        Some(k) => {
            assert(tabs[k].active);
            if tabs[i].active && i < k {
                assert(tab_flagged()(tabs[i]));
            }
        },
        None => {
            if tabs[i].active {
                assert(tab_flagged()(tabs[i]));
            }
        },
    }
}

/// The tabs come workspace by workspace, and in each in its own order; the panes of a
/// layout those of its first child before those of its second.
pub proof fn tabs_and_panes_come_in_order(
    a: Seq<WorkspaceView>,
    w: WorkspaceView,
    direction: Direction,
    ratio: u32,
    first: Box<Layout>,
    second: Box<Layout>,
)
    ensures
        tabs_of(a.push(w)) == tabs_of(a) + w.tabs@,
        leaves(Layout::Split { direction, ratio, first, second }) == leaves(*first) + leaves(
            *second,
        ),
{
    assert(a.push(w).drop_last() =~= a);
}

} // verus!
