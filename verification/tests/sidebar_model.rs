//! The sidebar: the tree of projects and the queue of agents that wait.

use tutti::model::{
    AgentState, Direction, Layout, PaneId, PaneInfo, SubagentInfo, TabId, TabView, WorkspaceId,
    WorkspaceView,
};
use tutti::sidebar::{
    build, census, shorten_home, AgentCensus, EntryIdent, Section, SidebarEntry,
};

/// A leaf layout holding pane `id`.
fn leaf(id: u64) -> Layout {
    Layout::Leaf(PaneId(id))
}

/// A half-and-half split of `first` and `second` along `direction`.
fn split(direction: Direction, first: Layout, second: Layout) -> Layout {
    Layout::Split {
        direction,
        ratio: 0.5f32.to_bits(),
        first: Box::new(first),
        second: Box::new(second),
    }
}

/// A pane with an explicit title, optional agent kind, and state.
fn pane(id: u64, title: &str, agent: Option<&str>, state: AgentState) -> PaneInfo {
    PaneInfo {
        id: PaneId(id),
        title: title.into(),
        agent: agent.map(Into::into),
        state,
        exited: None,
        subagents: Vec::new(),
    }
}

/// An agent pane titled `pane-<id>`.
fn agent(id: u64, kind: &str, state: AgentState) -> PaneInfo {
    pane(id, &format!("pane-{id}"), Some(kind), state)
}

/// A tab carrying `layout` and `panes`; its active pane is the first one.
fn tab(id: u64, name: &str, active: bool, layout: Layout, panes: Vec<PaneInfo>) -> TabView {
    let active_pane = panes.first().map(|p| p.id);
    TabView {
        id: TabId(id),
        name: name.into(),
        active,
        layout: Some(layout),
        active_pane,
        panes,
    }
}

/// A workspace rooted at `/tmp/w` with `name`, optional branch, and `tabs`.
fn workspace(id: u64, name: &str, branch: Option<&str>, tabs: Vec<TabView>) -> WorkspaceView {
    WorkspaceView {
        id: WorkspaceId(id),
        name: name.into(),
        dir: "/tmp/w".to_string(),
        branch: branch.map(Into::into),
        changes: None,
        stale: false,
        parent: None,
        tabs,
    }
}


fn sub(desc: &str, running: bool) -> SubagentInfo {
    SubagentInfo { desc: desc.into(), running }
}

#[test]
fn shorten_home_prefers_tilde_and_skips_empty_dirs() {
    let home = Some("/Users/me".to_string());
    assert_eq!(shorten_home("/Users/me/develop/x", &home), Some("~/develop/x".into()));
    assert_eq!(shorten_home("/Users/me", &home), Some("~".into()));
    assert_eq!(shorten_home("/srv/data", &home), Some("/srv/data".into()));
    assert_eq!(shorten_home("", &home), None);
}

#[test]
fn census_counts_who_needs_attention() {
    let counted = census(&two_workspace_view());
    assert_eq!(counted, AgentCensus { blocked: 1, working: 1, done: 1 });
    assert!(!counted.is_empty());
    assert!(census(&[]).is_empty());
    let twice: Vec<WorkspaceView> =
        two_workspace_view().into_iter().chain(two_workspace_view()).collect();
    let both = census(&twice);
    assert_eq!(both.blocked, 2 * counted.blocked);
    assert_eq!(both.working, 2 * counted.working);
    assert_eq!(both.done, 2 * counted.done);
}

#[test]
fn projects_count_their_subtree() {
    let mut view = two_workspace_view();
    view[1].parent = Some(WorkspaceId(1));
    let sidebar = build(&view, Some(TabId(2)), &None);
    let SidebarEntry::Workspace(api) = &sidebar.entries[0] else {
        panic!("expected workspace row");
    };
    assert_eq!(api.census, AgentCensus { blocked: 1, working: 1, done: 1 });
    let SidebarEntry::Workspace(web) = &sidebar.entries[2] else {
        panic!("expected workspace row");
    };
    assert_eq!(web.census, AgentCensus { blocked: 1, working: 0, done: 1 });
    assert_eq!(sidebar.workspace_rows(), 2);
    assert!(!sidebar.is_empty());
}

/// One workspace (active tab) with two agents; the first carries two
/// subagents — one running, one done.
fn view_with_subagents() -> Vec<WorkspaceView> {
    let mut first = agent(1, "goose", AgentState::Working);
    first.subagents = vec![sub("build core", true), sub("write tests", false)];
    vec![workspace(
        1,
        "api",
        Some("main"),
        vec![tab(
            1,
            "1",
            true,
            split(Direction::Horizontal, leaf(1), leaf(2)),
            vec![first, agent(2, "codex", AgentState::Done)],
        )],
    )]
}

/// Two workspaces: `api` (tab 1) with a working agent and a plain shell;
/// `web` (tab 2, the active tab) with a blocked agent and a done agent.
fn two_workspace_view() -> Vec<WorkspaceView> {
    vec![
        workspace(
            1,
            "api",
            Some("main"),
            vec![tab(
                1,
                "1",
                false,
                split(Direction::Horizontal, leaf(1), leaf(2)),
                vec![
                    agent(1, "goose", AgentState::Working),
                    pane(2, "pane-2", None, AgentState::Idle),
                ],
            )],
        ),
        workspace(
            2,
            "web",
            None,
            vec![tab(
                2,
                "2",
                true,
                split(Direction::Horizontal, leaf(3), leaf(4)),
                vec![
                    agent(3, "codex", AgentState::Done),
                    agent(4, "goose", AgentState::Blocked),
                ],
            )],
        ),
    ]
}

#[test]
fn build_interleaves_each_workspace_with_its_agents_then_waiting() {
    let sidebar = build(&two_workspace_view(), Some(TabId(2)), &None);
    // api, its goose, web, its codex + goose (pane order), then the
    // waiting section: pane 4 (blocked) ahead of pane 3 (done).
    assert_eq!(sidebar.tree_count, 5);
    assert_eq!(sidebar.len(), 7);
    let names: Vec<String> = sidebar
        .entries
        .iter()
        .map(|e| match e {
            SidebarEntry::Workspace(w) => w.name.clone(),
            SidebarEntry::Agent(a) => format!("pane-{}", a.pane.0),
        })
        .collect();
    assert_eq!(
        names,
        vec![
            "api", "pane-1", "web", "pane-3", "pane-4", "pane-4", "pane-3"
        ]
    );
}

#[test]
fn tree_agents_keep_pane_order_not_attention_order() {
    // web's blocked agent (pane 4) follows its done agent (pane 3) in the
    // tree — a state change must never reshuffle rows under the cursor.
    let sidebar = build(&two_workspace_view(), Some(TabId(2)), &None);
    let panes: Vec<u64> = sidebar.entries[3..5]
        .iter()
        .map(|e| match e {
            SidebarEntry::Agent(a) => a.pane.0,
            _ => panic!("expected web's agent rows"),
        })
        .collect();
    assert_eq!(panes, vec![3, 4], "pane order, even though 4 is blocked");
}

#[test]
fn tree_agents_carry_guides_and_depth() {
    let sidebar = build(&two_workspace_view(), Some(TabId(2)), &None);
    let SidebarEntry::Agent(api_agent) = &sidebar.entries[1] else {
        panic!("expected api's agent row");
    };
    assert_eq!(
        api_agent.guide,
        Some('└'),
        "an only agent gets the last guide"
    );
    assert_eq!(api_agent.depth, 1);
    let SidebarEntry::Agent(mid) = &sidebar.entries[3] else {
        panic!("expected web's first agent row");
    };
    assert_eq!(mid.guide, Some('├'), "a non-last agent gets the mid guide");
}

#[test]
fn waiting_gathers_blocked_then_done_across_projects() {
    let sidebar = build(&two_workspace_view(), Some(TabId(2)), &None);
    let waiting: Vec<(u64, Option<char>, u8)> = sidebar.entries[sidebar.tree_count..]
        .iter()
        .map(|e| match e {
            SidebarEntry::Agent(a) => (a.pane.0, a.guide, a.depth),
            _ => panic!("expected waiting agent rows"),
        })
        .collect();
    assert_eq!(
        waiting,
        vec![(4, None, 0), (3, None, 0)],
        "blocked first, then done; waiting rows carry no tree dressing"
    );
}

#[test]
fn idents_distinguish_the_tree_row_from_its_waiting_copy() {
    let sidebar = build(&two_workspace_view(), Some(TabId(2)), &None);
    assert_eq!(
        sidebar.ident_at(0),
        Some(EntryIdent::Workspace(WorkspaceId(1)))
    );
    assert_eq!(sidebar.ident_at(4), Some(EntryIdent::Agent(PaneId(4))));
    assert_eq!(sidebar.ident_at(5), Some(EntryIdent::Waiting(PaneId(4))));
    assert_eq!(
        sidebar.index_of(EntryIdent::Waiting(PaneId(4))),
        Some(5),
        "the waiting copy resolves to the queue, not the tree row"
    );
    assert_eq!(sidebar.index_of(EntryIdent::Agent(PaneId(4))), Some(4));
    assert_eq!(sidebar.ident_at(7), None);
}

#[test]
fn waiting_rows_carry_the_project_name_and_no_subagents() {
    let mut view = view_with_subagents();
    view[0].tabs[0].panes[0].state = AgentState::Blocked; // subagent carrier
    let sidebar = build(&view, Some(TabId(1)), &None);
    let SidebarEntry::Agent(a) = &sidebar.entries[sidebar.tree_count] else {
        panic!("expected a waiting row");
    };
    assert_eq!(a.pane, PaneId(1), "the blocked agent leads the queue");
    assert_eq!(a.project_name, "api");
    assert!(
        a.subagents.is_empty(),
        "waiting rows strip subagents to stay two rows tall"
    );
}

#[test]
fn build_marks_the_active_workspace_and_jump_targets() {
    let sidebar = build(&two_workspace_view(), Some(TabId(2)), &None);
    let SidebarEntry::Workspace(api) = &sidebar.entries[0] else {
        panic!("expected workspace row");
    };
    let SidebarEntry::Workspace(web) = &sidebar.entries[2] else {
        panic!("expected workspace row");
    };
    assert!(!api.active, "api does not own the active tab");
    assert_eq!(
        api.jump_tab,
        TabId(1),
        "inactive workspace jumps to its tab"
    );
    assert_eq!(
        api.subtitle.as_deref(),
        Some("main"),
        "branch drives the subtitle"
    );
    assert!(web.active, "web owns the active tab");
    assert_eq!(web.jump_tab, TabId(2));
    assert_eq!(
        web.subtitle.as_deref(),
        Some("/tmp/w"),
        "no branch falls back to the dir, never the name"
    );
}

#[test]
fn build_carries_the_workspace_change_stat_and_stale_flag() {
    let mut view = two_workspace_view();
    view[0].changes = Some("2 files +5 −0".into());
    view[0].stale = true;
    let sidebar = build(&view, Some(TabId(2)), &None);
    let SidebarEntry::Workspace(api) = &sidebar.entries[0] else {
        panic!("expected workspace row");
    };
    let SidebarEntry::Workspace(web) = &sidebar.entries[2] else {
        panic!("expected workspace row");
    };
    assert_eq!(api.changes.as_deref(), Some("2 files +5 −0"));
    assert!(api.stale);
    assert_eq!(web.changes, None);
    assert!(!web.stale);
}

#[test]
fn build_nests_a_child_workspace_and_its_agents_under_the_parent() {
    let mut view = two_workspace_view();
    // Make `web` (id 2) a jj-workspace child of `api` (id 1).
    view[1].parent = Some(WorkspaceId(1));
    let sidebar = build(&view, Some(TabId(2)), &None);
    // api, api's agent, child web, then web's agents one level deeper.
    assert_eq!(sidebar.tree_count, 5);
    let SidebarEntry::Workspace(web) = &sidebar.entries[2] else {
        panic!("expected the nested child row");
    };
    assert_eq!(web.guide, Some('└'), "the only child gets the last guide");
    assert_eq!(web.project, WorkspaceId(1), "the child rolls up to api");
    let SidebarEntry::Agent(a) = &sidebar.entries[3] else {
        panic!("expected the child's agent row");
    };
    assert_eq!(a.depth, 2, "a child workspace's agents indent one deeper");
    assert_eq!(a.project, WorkspaceId(1), "child agents roll up to api");
}

#[test]
fn build_marks_all_but_the_last_child_with_the_mid_guide() {
    let mut view = vec![
        workspace(
            1,
            "api",
            Some("main"),
            vec![tab(
                1,
                "1",
                true,
                leaf(1),
                vec![pane(1, "sh", None, AgentState::Idle)],
            )],
        ),
        workspace(
            2,
            "feat-a",
            Some("main"),
            vec![tab(
                2,
                "2",
                false,
                leaf(2),
                vec![pane(2, "sh", None, AgentState::Idle)],
            )],
        ),
        workspace(
            3,
            "feat-b",
            Some("main"),
            vec![tab(
                3,
                "3",
                false,
                leaf(3),
                vec![pane(3, "sh", None, AgentState::Idle)],
            )],
        ),
    ];
    view[1].parent = Some(WorkspaceId(1));
    view[2].parent = Some(WorkspaceId(1));
    let sidebar = build(&view, Some(TabId(1)), &None);
    assert_eq!(sidebar.tree_count, 3);
    let guides: Vec<Option<char>> = sidebar.entries[..3]
        .iter()
        .map(|e| match e {
            SidebarEntry::Workspace(w) => w.guide,
            _ => panic!("expected workspace rows"),
        })
        .collect();
    assert_eq!(
        guides,
        vec![None, Some('├'), Some('└')],
        "parent flush-left, first child mid-guide, last child end-guide"
    );
}

#[test]
fn build_renders_a_child_top_level_when_its_parent_is_gone() {
    let mut view = vec![workspace(
        2,
        "web",
        None,
        vec![tab(
            2,
            "2",
            true,
            leaf(2),
            vec![pane(2, "sh", None, AgentState::Idle)],
        )],
    )];
    view[0].parent = Some(WorkspaceId(99)); // origin not present in the view
    let sidebar = build(&view, Some(TabId(2)), &None);
    let SidebarEntry::Workspace(web) = &sidebar.entries[0] else {
        panic!("expected a workspace row");
    };
    assert_eq!(
        web.guide, None,
        "a child whose origin was killed renders flush-left"
    );
}

#[test]
fn agent_rows_carry_tab_and_pane_jump_targets() {
    let sidebar = build(&two_workspace_view(), Some(TabId(2)), &None);
    let SidebarEntry::Agent(blocked) = &sidebar.entries[4] else {
        panic!("expected agent row");
    };
    assert_eq!(blocked.pane, PaneId(4));
    assert_eq!(blocked.tab, TabId(2), "agent jump carries its owning tab");
    assert_eq!(blocked.state, AgentState::Blocked);
}

#[test]
fn entry_at_row_maps_clicks_past_the_frame_headers() {
    let sidebar = build(&two_workspace_view(), Some(TabId(2)), &None);
    // Row 0 is the projects header (the top border) — a section toggle, not
    // an entry.
    assert_eq!(sidebar.entry_at_row(0), None);
    assert_eq!(sidebar.header_at_row(0), Some(Section::Projects));
    // Tree rows, two per entry: api 1-2, its agent 3-4, web 5-6, codex 7-8,
    // goose 9-10.
    assert_eq!(sidebar.entry_at_row(1), Some(0));
    assert_eq!(sidebar.entry_at_row(2), Some(0));
    assert_eq!(sidebar.entry_at_row(3), Some(1));
    assert_eq!(sidebar.entry_at_row(6), Some(2));
    assert_eq!(sidebar.entry_at_row(8), Some(3));
    assert_eq!(sidebar.entry_at_row(10), Some(4));
    // Row 11 is the waiting divider, then two rows per waiting entry.
    assert_eq!(sidebar.entry_at_row(11), None);
    assert_eq!(sidebar.header_at_row(11), Some(Section::Waiting));
    assert_eq!(sidebar.entry_at_row(12), Some(5));
    assert_eq!(sidebar.entry_at_row(14), Some(6));
    // Past the last waiting entry.
    assert_eq!(sidebar.entry_at_row(16), None);
}

#[test]
fn collapsing_projects_shifts_the_waiting_divider_up() {
    let mut sidebar = build(&two_workspace_view(), Some(TabId(2)), &None);
    sidebar.projects_collapsed = true;
    assert_eq!(sidebar.entry_at_row(1), None, "tree rows are hidden");
    assert_eq!(sidebar.header_at_row(1), Some(Section::Waiting));
    // Waiting rows follow immediately after the divider.
    assert_eq!(sidebar.entry_at_row(2), Some(5));
    assert_eq!(sidebar.entry_at_row(4), Some(6));
    assert!(!sidebar.is_visible(0), "a tree entry is not visible");
    assert!(sidebar.is_visible(5), "a waiting entry stays visible");
}

#[test]
fn collapsing_waiting_hides_the_queue_rows() {
    let mut sidebar = build(&two_workspace_view(), Some(TabId(2)), &None);
    sidebar.waiting_collapsed = true;
    assert_eq!(sidebar.entry_at_row(1), Some(0), "tree rows still map");
    assert_eq!(sidebar.header_at_row(11), Some(Section::Waiting));
    assert_eq!(sidebar.entry_at_row(12), None, "waiting rows are hidden");
    assert!(!sidebar.is_visible(5), "a waiting entry is not visible");
    assert!(sidebar.is_visible(0), "a tree entry stays visible");
}

#[test]
fn build_carries_subagents_onto_the_tree_row() {
    let sidebar = build(&view_with_subagents(), Some(TabId(1)), &None);
    let SidebarEntry::Agent(a) = &sidebar.entries[1] else {
        panic!("expected the first agent row");
    };
    assert_eq!(a.subagents.len(), 2);
    assert_eq!(a.subagents[0].desc, "build core");
    assert!(a.subagents[0].running, "the first subagent is running");
    assert!(!a.subagents[1].running, "the second subagent has finished");
}

#[test]
fn entry_at_row_skips_subagent_rows_and_shifts_the_next_agent_down() {
    let sidebar = build(&view_with_subagents(), Some(TabId(1)), &None);
    // One workspace: projects header row 0, workspace rows 1-2; agent entry
    // 1 (with two subagents) occupies rows 3-4 as its head.
    assert_eq!(sidebar.entry_at_row(1), Some(0), "the workspace row");
    assert_eq!(sidebar.entry_at_row(3), Some(1));
    assert_eq!(sidebar.entry_at_row(4), Some(1));
    // Its two subagent sub-rows (5-6) are display-only: not selectable.
    assert_eq!(sidebar.entry_at_row(5), None);
    assert_eq!(sidebar.entry_at_row(6), None);
    // The next agent is pushed down past the sub-rows, to 7-8.
    assert_eq!(sidebar.entry_at_row(7), Some(2));
    assert_eq!(sidebar.entry_at_row(8), Some(2));
    // Row 9 is the waiting divider (the done agent queues there), pushed
    // down past the subagent sub-rows; its entry sits at rows 10-11.
    assert_eq!(sidebar.entry_at_row(9), None, "the waiting divider");
    assert_eq!(sidebar.header_at_row(9), Some(Section::Waiting));
    assert_eq!(sidebar.entry_at_row(10), Some(3));
    assert_eq!(sidebar.entry_at_row(12), None, "past the last waiting row");
}
