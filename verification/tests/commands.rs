//! Commands, and what they print.

use tutti::cli::{
    absolutize, direction, emit, first_run, join_notices, listed_dirs, projects_to_create,
    start_report, stop_report, to_request, Command, Mount, Output, PaneAction, ServerAction,
    SplitDir, TabAction, WorkspaceAction,
};
use tutti::client::{
    keeps_waiting, not_running, parse_pane, parse_pid, server_exe, server_sibling, ErrorKind,
    StopOutcome,
};
use tutti::model::{AgentState, Direction, PaneId, PaneInfo, TabId, WorkspaceId};
use tutti::protocol::{Request, Response, TabInfo, WorkspaceInfo};

fn request_of(command: Command) -> Request {
    to_request(command, None, &Some("/home/me".to_string())).unwrap()
}

fn workspace(action: WorkspaceAction) -> Request {
    request_of(Command::Workspace { action })
}

fn tab(action: TabAction) -> Request {
    request_of(Command::Tab { action })
}

fn pane(action: PaneAction) -> Request {
    request_of(Command::Pane { action })
}

fn paths(all: &[&str]) -> Vec<String> {
    all.iter().map(|p| p.to_string()).collect()
}

#[test]
fn workspace_verbs_parse() {
    assert_eq!(
        workspace(WorkspaceAction::New { dir: "/srv/api".into() }),
        Request::WorkspaceNew { dir: "/srv/api".into() }
    );
    assert_eq!(workspace(WorkspaceAction::List), Request::WorkspaceList);
    assert_eq!(
        workspace(WorkspaceAction::Kill { id: 4, discard: false }),
        Request::WorkspaceKill { id: WorkspaceId(4), discard: false }
    );
}

#[test]
fn workspace_fork_update_and_discard_parse() {
    assert_eq!(
        workspace(WorkspaceAction::Kill { id: 4, discard: true }),
        Request::WorkspaceKill { id: WorkspaceId(4), discard: true }
    );
    assert_eq!(
        workspace(WorkspaceAction::Fork { id: 2, name: "feature".into(), revision: None }),
        Request::WorkspaceFork {
            id: WorkspaceId(2),
            name: "feature".into(),
            revision: None,
            dest: None,
        }
    );
    assert_eq!(
        workspace(WorkspaceAction::Fork {
            id: 2,
            name: "feature".into(),
            revision: Some("@-".into()),
        }),
        Request::WorkspaceFork {
            id: WorkspaceId(2),
            name: "feature".into(),
            revision: Some("@-".into()),
            dest: None,
        }
    );
    assert_eq!(
        workspace(WorkspaceAction::Update { id: 5 }),
        Request::WorkspaceUpdate { id: WorkspaceId(5) }
    );
    assert_eq!(
        workspace(WorkspaceAction::Merge { id: 6, push: false }),
        Request::WorkspaceMerge { id: WorkspaceId(6), push: false }
    );
    assert_eq!(
        workspace(WorkspaceAction::Merge { id: 6, push: true }),
        Request::WorkspaceMerge { id: WorkspaceId(6), push: true }
    );
}

#[test]
fn tab_verbs_parse() {
    assert_eq!(
        tab(TabAction::New { workspace: Some(2) }),
        Request::TabNew { workspace: Some(WorkspaceId(2)) }
    );
    assert_eq!(
        tab(TabAction::List { workspace: Some(2) }),
        Request::TabList { workspace: Some(WorkspaceId(2)) }
    );
    assert_eq!(tab(TabAction::Select { id: 9 }), Request::TabSelect { id: TabId(9) });
}

#[test]
fn tab_new_defaults_to_current_workspace() {
    assert_eq!(tab(TabAction::New { workspace: None }), Request::TabNew { workspace: None });
}

#[test]
fn pane_run_captures_command_after_double_dash() {
    assert_eq!(
        pane(PaneAction::Run {
            tab: Some(3),
            ephemeral: false,
            cmd: vec!["goose".into(), "--flag".into()],
        }),
        Request::PaneRun {
            tab: Some(TabId(3)),
            cmd: vec!["goose".to_string(), "--flag".to_string()],
            ephemeral: false,
        }
    );
}

#[test]
fn pane_run_ephemeral_flag_sets_the_field() {
    assert_eq!(
        pane(PaneAction::Run { tab: None, ephemeral: true, cmd: vec!["less".into()] }),
        Request::PaneRun { tab: None, cmd: vec!["less".into()], ephemeral: true }
    );
}

#[test]
fn workspace_diff_verb_parses() {
    assert_eq!(
        workspace(WorkspaceAction::Diff { id: 3, stat: false }),
        Request::WorkspaceDiff { id: WorkspaceId(3), stat: false }
    );
    assert_eq!(
        workspace(WorkspaceAction::Diff { id: 3, stat: true }),
        Request::WorkspaceDiff { id: WorkspaceId(3), stat: true }
    );
}

#[test]
fn pane_split_direction_maps_to_layout_axis() {
    assert_eq!(
        pane(PaneAction::Split { pane: 1, direction: SplitDir::Right }),
        Request::PaneSplit { pane: PaneId(1), direction: Direction::Horizontal }
    );
    assert_eq!(
        pane(PaneAction::Split { pane: 1, direction: SplitDir::Down }),
        Request::PaneSplit { pane: PaneId(1), direction: Direction::Vertical }
    );
    assert_eq!(direction(SplitDir::Right), Direction::Horizontal);
    assert_eq!(direction(SplitDir::Down), Direction::Vertical);
}

#[test]
fn sending_maps_text_and_keys() {
    assert_eq!(
        pane(PaneAction::Send { pane: 2, text: Some("hello".into()), keys: None }),
        Request::PaneSend { pane: PaneId(2), text: Some("hello".to_string()), keys: None }
    );
    assert_eq!(
        pane(PaneAction::Send { pane: 2, text: None, keys: Some("C-c Enter".into()) }),
        Request::PaneSend { pane: PaneId(2), text: None, keys: Some("C-c Enter".to_string()) }
    );
}

#[test]
fn pane_read_and_rename_parse() {
    assert_eq!(
        pane(PaneAction::Read { pane: 5, lines: Some(40), unwrapped: true }),
        Request::PaneRead { pane: PaneId(5), lines: Some(40), unwrapped: true }
    );
    assert_eq!(
        pane(PaneAction::Read { pane: 5, lines: None, unwrapped: false }),
        Request::PaneRead { pane: PaneId(5), lines: None, unwrapped: false }
    );
    assert_eq!(
        pane(PaneAction::Rename { pane: 5, title: "builder".into() }),
        Request::PaneRename { pane: PaneId(5), title: "builder".to_string() }
    );
}

#[test]
fn pane_kill_and_list_parse() {
    assert_eq!(pane(PaneAction::Kill { pane: 7 }), Request::PaneKill { pane: PaneId(7) });
    assert_eq!(pane(PaneAction::List), Request::PaneList);
}

#[test]
fn pane_focus_parses() {
    assert_eq!(pane(PaneAction::Focus { pane: 3 }), Request::PaneFocus { pane: PaneId(3) });
}

#[test]
fn some_commands_ask_nothing_of_the_daemon() {
    let asks = |command: Command| to_request(command, None, &None).is_some();
    assert!(!asks(Command::Server { action: ServerAction::Start { foreground: true } }));
    assert!(!asks(Command::Server { action: ServerAction::Stop }));
    assert!(!asks(Command::Attach));
    assert!(!asks(Command::AgentEvent));
    assert!(!asks(Command::Hooks { raw: false, install: true, project: false, yes: true }));
}

#[test]
fn workspace_new_absolutizes_a_relative_dir() {
    // A relative directory must reach the daemon as an absolute path, so that
    // it resolves against the client's directory and not the daemon's.
    let Request::WorkspaceNew { dir } = workspace(WorkspaceAction::New { dir: ".".into() }) else {
        panic!("expected a workspace-new request");
    };
    assert!(dir.starts_with('/'), "the dir is absolutized client-side: {dir:?}");
}

#[test]
fn real_paths_win_over_joined_ones() {
    let cwd = Some("/home/me".to_string());
    assert_eq!(absolutize("api".into(), Some("/srv/api".into()), &cwd), "/srv/api");
    assert_eq!(absolutize("api".into(), None, &cwd), "/home/me/api");
    assert_eq!(absolutize("/api".into(), None, &cwd), "/api");
    assert_eq!(absolutize("api".into(), None, &None), "api");
}

#[test]
fn projects_to_create_skips_already_mounted_dirs_and_trailing_slashes() {
    let existing = paths(&["/a/b"]);
    let projects = paths(&["/a/b/", "/c"]);
    let out = projects_to_create(&projects, &projects, &existing);
    assert_eq!(out, paths(&["/c"]), "the trailing-slash duplicate is skipped, /c is new");
}

#[test]
fn projects_to_create_dedups_via_canonicalization() {
    // A symlink and its target canonicalize to the same path.
    let existing = paths(&["/real"]);
    let projects = paths(&["/link", "/other"]);
    let actual = paths(&["/real", "/other"]);
    let out = projects_to_create(&projects, &actual, &existing);
    assert_eq!(out, paths(&["/other"]), "the symlink resolves to an existing dir");
}

#[test]
fn projects_named_twice_are_opened_once() {
    let projects = paths(&["/a", "/b", "/a/", "/c"]);
    let out = projects_to_create(&projects, &projects, &paths(&["/c"]));
    assert_eq!(out, paths(&["/a", "/b"]));
    assert!(projects_to_create(&projects, &projects, &projects).is_empty());
}

/// Open the projects that are not open yet: what was sent, and the notices.
fn mount_projects(
    projects: &[&str],
    existing: &[&str],
    reply: impl Fn(&[Request]) -> Response,
) -> (Vec<Request>, Vec<String>) {
    let projects = paths(projects);
    let dirs = projects_to_create(&projects, &projects, &paths(existing));
    let mut mount = Mount::new(dirs, "/bin/zsh".into());
    let mut sent = Vec::new();
    while let Some(request) = mount.request() {
        sent.push(request);
        assert!(mount.on_reply(&reply(&sent)), "the reply is expected");
    }
    (sent, mount.notices)
}

fn healthy(sent: &[Request]) -> Response {
    match sent.last() {
        Some(Request::WorkspaceNew { .. }) => Response::WorkspaceCreated { id: WorkspaceId(1) },
        Some(Request::PaneRun { .. }) => Response::PaneCreated { id: PaneId(1) },
        _ => Response::Okay,
    }
}

fn run_shell() -> Request {
    Request::PaneRun { tab: None, cmd: vec!["/bin/zsh".into()], ephemeral: false }
}

#[test]
fn mount_projects_requests_workspace_then_shell_per_project() {
    let (sent, notices) = mount_projects(&["/a", "/b"], &[], healthy);
    assert!(notices.is_empty());
    assert_eq!(
        sent,
        vec![
            Request::WorkspaceNew { dir: "/a".into() },
            run_shell(),
            Request::WorkspaceNew { dir: "/b".into() },
            run_shell(),
        ],
    );
}

#[test]
fn mount_projects_skips_a_dir_already_mounted() {
    let (sent, _) = mount_projects(&["/a", "/b"], &["/a"], healthy);
    assert_eq!(
        sent,
        vec![Request::WorkspaceNew { dir: "/b".into() }, run_shell()],
        "only the not-yet-mounted /b is created",
    );
}

#[test]
fn mount_projects_surfaces_a_failed_project_and_mounts_the_rest() {
    // The server errors at pane-run when the dir does not exist on disk.
    let (sent, notices) = mount_projects(&["/missing", "/ok"], &[], |sent| {
        let n = sent.len();
        let missing = Request::WorkspaceNew { dir: "/missing".into() };
        if n >= 2 && sent[n - 2] == missing && sent[n - 1] == run_shell() {
            Response::Error { message: "spawn pty: No such file or directory".into() }
        } else {
            healthy(sent)
        }
    });
    assert_eq!(notices.len(), 1);
    assert!(
        notices[0].contains("/missing"),
        "the notice names the failing path: {notices:?}"
    );
    assert!(
        sent.contains(&Request::WorkspaceNew { dir: "/ok".into() }),
        "the healthy project still mounts after the failure: {sent:?}"
    );
}

#[test]
fn mounting_refuses_answers_to_something_else() {
    let mut mount = Mount::new(paths(&["/a"]), "/bin/zsh".into());
    assert!(!mount.on_reply(&Response::PaneCreated { id: PaneId(1) }));
    assert_eq!(mount.request(), Some(Request::WorkspaceNew { dir: "/a".into() }));
    assert!(mount.on_reply(&Response::Error { message: "no".into() }));
    assert_eq!(mount.request(), None, "a workspace that failed gets no shell");
    assert_eq!(mount.notices, paths(&["/a: no"]));
    assert_eq!(join_notices(&mount.notices), Some("/a: no".to_string()));
    assert_eq!(join_notices(&paths(&["x", "y"])), Some("x; y".to_string()));
    assert_eq!(join_notices(&Vec::new()), None);
}

#[test]
fn empty_sessions_ask_for_a_first_project() {
    assert!(first_run(true, 0));
    assert!(!first_run(true, 1));
    assert!(!first_run(false, 0));
}

fn emitted(response: Response) -> Output {
    emit(&response, None)
}

#[test]
fn error_response_exits_nonzero() {
    assert_eq!(emitted(Response::Error { message: "boom".into() }).code, 1);
    assert_eq!(emitted(Response::Okay).code, 0);
}

#[test]
fn pane_read_prints_plain_lines() {
    assert_eq!(
        pane(PaneAction::Read { pane: 3, lines: Some(2), unwrapped: false }),
        Request::PaneRead { pane: PaneId(3), lines: Some(2), unwrapped: false }
    );
    let output = emitted(Response::Content { lines: vec!["first".into(), "second".into()] });
    assert_eq!(output.code, 0);
    assert_eq!(output.stdout, "first\nsecond\n");
}

#[test]
fn error_response_exits_nonzero_on_stderr() {
    let output = emitted(Response::Error { message: "no such pane".into() });
    assert_eq!(output.code, 1);
    assert!(output.stdout.is_empty(), "stdout must stay empty on error");
    let stderr = output.stderr;
    assert!(stderr.contains("no such pane"), "stderr was: {stderr}");
}

#[test]
fn answers_are_printed() {
    let line = |response: Response| emitted(response).stdout;
    assert_eq!(line(Response::WorkspaceCreated { id: WorkspaceId(3) }), "workspace 3 created\n");
    assert_eq!(line(Response::TabCreated { id: TabId(4) }), "tab 4 created\n");
    assert_eq!(line(Response::PaneCreated { id: PaneId(5) }), "pane 5 created\n");
    assert_eq!(
        line(Response::Merged { pushed: true, bookmark: "main".into() }),
        "merged into main and pushed\n"
    );
    assert_eq!(
        line(Response::Merged { pushed: false, bookmark: "main".into() }),
        "merged into main\n"
    );
    assert_eq!(
        line(Response::Attached { wire_rev: 1, session: "work".into(), workspaces: vec![] }),
        "attached to work\n"
    );
    let workspaces =
        vec![WorkspaceInfo { id: WorkspaceId(1), name: "api".into(), dir: "/srv/api".into() }];
    assert_eq!(
        line(Response::Workspaces { workspaces: workspaces.clone() }),
        "ID  NAME  DIR\n1   api   /srv/api\n"
    );
    assert_eq!(
        listed_dirs(&Response::Workspaces { workspaces }),
        Some(paths(&["/srv/api"]))
    );
    assert_eq!(listed_dirs(&Response::Okay), None);
    let tabs = vec![TabInfo { id: TabId(1), name: "main".into(), active: true }];
    assert!(line(Response::Tabs { tabs }).contains("main"));
    let info = PaneInfo {
        id: PaneId(1),
        title: "zsh".into(),
        agent: None,
        state: AgentState::Unknown,
        exited: None,
        subagents: Vec::new(),
    };
    assert!(line(Response::Panes { panes: vec![info] }).contains("zsh"));
}

#[test]
fn json_goes_where_the_answer_goes() {
    let fine = emit(&Response::Okay, Some("\"ok\"".into()));
    assert_eq!(fine, Output { stdout: "\"ok\"\n".into(), stderr: String::new(), code: 0 });
    let bad = emit(&Response::Error { message: "m".into() }, Some("{}".into()));
    assert_eq!(bad, Output { stdout: String::new(), stderr: "{}\n".into(), code: 1 });
}

#[test]
fn the_daemon_is_reported_on() {
    assert_eq!(start_report(false, "s").stdout, "tutti-server started for session 's'\n");
    assert_eq!(start_report(true, "s").stdout, "tutti-server already running for session 's'\n");
    assert_eq!(
        stop_report(StopOutcome::Signalled(42), "s").stdout,
        "stopped tutti-server (pid 42) for session 's'\n"
    );
    let none = stop_report(StopOutcome::NotRunning, "s");
    assert_eq!(none.stderr, "tutti-server not running for session 's'\n");
    assert_eq!(none.code, 0);
}

#[test]
fn numbers_are_read_as_the_standard_library_reads_them() {
    for text in [
        "", "0", "7", "+7", "-7", "+", "-", "--1", "+-1", "007", "7x", "x7", " 7", "1 2", "１",
        "2147483647", "2147483648", "-2147483648", "-2147483649", "18446744073709551615",
        "18446744073709551616", "99999999999999999999999",
    ] {
        assert_eq!(parse_pane(text), text.parse::<u64>().ok(), "{text:?}");
        assert_eq!(parse_pid(text), text.trim().parse::<i32>().ok(), "{text:?}");
    }
    assert_eq!(parse_pid(" 42\n"), Some(42));
}

#[test]
fn the_daemon_is_found_beside_the_client() {
    assert_eq!(server_sibling("/opt/bin/tutti"), "/opt/bin/tutti-server");
    assert_eq!(server_exe("/opt/bin/tutti", true), "/opt/bin/tutti-server");
    assert_eq!(server_exe("/opt/bin/tutti", false), "tutti-server");
    assert_eq!(server_sibling("tutti"), "tutti-server");
    assert_eq!(server_sibling("/tutti"), "/tutti-server");
    assert_eq!(server_sibling("/"), "/tutti-server", "the root has no name");
    assert_eq!(server_sibling("/opt/.."), "/opt/../tutti-server");
}

#[test]
fn refused_connections_mean_that_no_daemon_runs() {
    assert!(not_running(ErrorKind::NotFound));
    assert!(not_running(ErrorKind::ConnectionRefused));
    assert!(!not_running(ErrorKind::Other));
    assert!(keeps_waiting(ErrorKind::NotFound, true));
    assert!(!keeps_waiting(ErrorKind::NotFound, false));
    assert!(!keeps_waiting(ErrorKind::Other, true));
}
