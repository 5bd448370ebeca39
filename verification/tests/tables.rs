//! Lists as tables.

use tutti::model::{AgentState, PaneId, PaneInfo, TabId, WorkspaceId};
use tutti::protocol::{TabInfo, WorkspaceInfo};
use tutti::table::{panes, table, tabs, workspaces};

#[test]
fn pane_table_shows_agents_and_exit_codes() {
    let info = |id: u64, agent: Option<&str>, state: AgentState, exited: Option<i32>| PaneInfo {
        id: PaneId(id),
        title: "t".into(),
        agent: agent.map(Into::into),
        state,
        exited,
        subagents: Vec::new(),
    };
    assert_eq!(
        panes(&[
            info(1, Some("goose"), AgentState::Blocked, None),
            info(20, None, AgentState::Unknown, Some(-1)),
        ]),
        "ID  TITLE  AGENT  STATE    EXIT\n\
         1   t      goose  blocked  -\n\
         20  t      -      unknown  -1\n"
    );
}

#[test]
fn rows_may_end_early() {
    let row = |cells: &[&str]| cells.iter().map(|c| c.to_string()).collect::<Vec<String>>();
    assert_eq!(
        table(
            &["ID", "NAME", "DIR"],
            &[row(&["1", "a name"]), row(&[]), row(&["a long id"]), row(&["2", "", "/"])],
        ),
        "ID         NAME    DIR\n\
         1          a name\n\
         \n\
         a long id\n\
         2                  /\n"
    );
}

#[test]
fn workspace_table_aligns_columns() {
    let rendered = workspaces(&[
        WorkspaceInfo {
            id: WorkspaceId(1),
            name: "api".into(),
            dir: "/srv/api".into(),
        },
        WorkspaceInfo {
            id: WorkspaceId(22),
            name: "frontend".into(),
            dir: "/srv/web".into(),
        },
    ]);
    assert_eq!(
        rendered,
        "ID  NAME      DIR\n\
         1   api       /srv/api\n\
         22  frontend  /srv/web\n"
    );
}

#[test]
fn pane_table_shows_missing_agent_and_exit_as_dash() {
    let rendered = panes(&[PaneInfo {
        id: PaneId(3),
        title: "shell".into(),
        agent: None,
        state: AgentState::Idle,
        exited: None,
        subagents: Vec::new(),
    }]);
    assert_eq!(
        rendered,
        "ID  TITLE  AGENT  STATE  EXIT\n\
         3   shell  -      idle   -\n"
    );
}

#[test]
fn tab_table_marks_active() {
    let rendered = tabs(&[
        TabInfo {
            id: TabId(1),
            name: "main".into(),
            active: true,
        },
        TabInfo {
            id: TabId(2),
            name: "logs".into(),
            active: false,
        },
    ]);
    assert_eq!(
        rendered,
        "ID  NAME  ACTIVE\n\
         1   main  *\n\
         2   logs\n"
    );
}

#[test]
fn empty_list_renders_header_only() {
    assert_eq!(workspaces(&[]), "ID  NAME  DIR\n");
}
