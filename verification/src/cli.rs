//! The command line: what each command asks of the daemon, what is printed of
//! the answer, and how configured projects are opened.

use vstd::prelude::*;

use crate::client::{parse_pane, unsigned, StopOutcome};
use crate::hooks::{
    alike_settings_need_nothing, command_of, hook_command, meaning, merge_claude_hooks,
    merged_settings_have_hooks, merging, merging_keeps_keys_apart, merging_keeps_the_depth,
    merging_twice_adds_nothing, read_event, MergeError,
};
use crate::json::{
    json_reading, member, pretty_text, settled, tidy, Json, JsonTree, READ_DEPTH,
};
use crate::model::{Direction, PaneId, TabId, WorkspaceId};
use crate::path::{absolute, components, is_absolute, join, joined, same_path};
use crate::protocol::{Asked, Request, Response};
use crate::table;
use crate::table::{pane_cells, tab_cells, table_text, workspace_cells};
use crate::text::{
    decimal, glue, glue3, number, opt_str, opt_text, same, signed, signed_number, texts, trim,
    trimmed,
};

verus! {

broadcast use vstd::string::group_string_axioms;

// ---- commands ------------------------------------------------------------

/// What is done with the daemon.
#[derive(Debug, Clone, Copy, PartialEq, Eq, Structural)]
pub enum ServerAction {
    Start { foreground: bool },
    Stop,
}

/// What is done with workspaces.
#[allow(inconsistent_fields)]
#[derive(Debug, Clone, PartialEq)]
pub enum WorkspaceAction {
    New { dir: String },
    List,
    Kill { id: u64, discard: bool },
    Fork { id: u64, name: String, revision: Option<String> },
    Update { id: u64 },
    Merge { id: u64, push: bool },
    Diff { id: u64, stat: bool },
}

/// What is done with tabs.
#[derive(Debug, Clone, Copy, PartialEq, Eq)]
pub enum TabAction {
    New { workspace: Option<u64> },
    List { workspace: Option<u64> },
    Select { id: u64 },
}

/// Where a split puts the new pane.
#[derive(Debug, Clone, Copy, PartialEq, Eq, Structural)]
pub enum SplitDir {
    Right,
    Down,
}

/// What is done with panes.
#[allow(inconsistent_fields)]
#[derive(Debug, Clone, PartialEq)]
pub enum PaneAction {
    Run { tab: Option<u64>, ephemeral: bool, cmd: Vec<String> },
    Split { pane: u64, direction: SplitDir },
    List,
    Kill { pane: u64 },
    Rename { pane: u64, title: String },
    Send { pane: u64, text: Option<String>, keys: Option<String> },
    Read { pane: u64, lines: Option<usize>, unwrapped: bool },
    Focus { pane: u64 },
}

/// A command.
#[allow(inconsistent_fields)]
#[derive(Debug, Clone, PartialEq)]
pub enum Command {
    Server { action: ServerAction },
    Workspace { action: WorkspaceAction },
    Tab { action: TabAction },
    Pane { action: PaneAction },
    Attach,
    AgentEvent,
    Hooks { raw: bool, install: bool, project: bool, yes: bool },
}

/// The axis of a split: to the right makes columns, down makes rows.
pub open spec fn axis(dir: SplitDir) -> Direction {
    match dir {
        SplitDir::Right => Direction::Horizontal,
        SplitDir::Down => Direction::Vertical,
    }
}

/// The axis of a split.
pub fn direction(dir: SplitDir) -> (r: Direction)
    ensures
        r == axis(dir),
{
    match dir {
        SplitDir::Right => Direction::Horizontal,
        SplitDir::Down => Direction::Vertical,
    }
}

// ---- directories ---------------------------------------------------------

/// A directory as an absolute path: its real path where it has one, else below
/// the current directory unless it is absolute.
pub open spec fn absolutized(
    dir: Seq<char>,
    canonical: Option<Seq<char>>,
    cwd: Option<Seq<char>>,
) -> Seq<char> {
    match canonical {
        Some(path) => path,
        None => if absolute(dir) {
            dir
        } else {
            match cwd {
                Some(base) => joined(base, dir),
                None => dir,
            }
        },
    }
}

/// A directory as an absolute path. `canonical` is its real path, where it has
/// one, and `cwd` the current directory, where it is known.
pub fn absolutize(dir: String, canonical: Option<String>, cwd: &Option<String>) -> (r: String)
    ensures
        r@ == absolutized(dir@, opt_text(canonical), opt_text(*cwd)),
{
    match canonical {
        Some(path) => path,
        None => if is_absolute(dir.as_str()) {
            dir
        } else {
            match cwd {
                Some(base) => join(base.as_str(), dir.as_str()),
                None => dir,
            }
        },
    }
}

// ---- requests ------------------------------------------------------------

/// A workspace's number, where it is given.
pub open spec fn workspace_id(id: Option<u64>) -> Option<WorkspaceId> {
    match id {
        Some(n) => Some(WorkspaceId(n)),
        None => None,
    }
}

/// A tab's number, where it is given.
pub open spec fn tab_id(id: Option<u64>) -> Option<TabId> {
    match id {
        Some(n) => Some(TabId(n)),
        None => None,
    }
}

/// What a command asks of the daemon; nothing for those that ask nothing. A new
/// workspace's directory is made absolute.
pub open spec fn requested(
    command: Command,
    canonical: Option<Seq<char>>,
    cwd: Option<Seq<char>>,
) -> Option<Asked> {
    match command {
        Command::Workspace { action } => Some(
            match action {
                WorkspaceAction::New { dir } => Asked::WorkspaceNew {
                    dir: absolutized(dir@, canonical, cwd),
                },
                WorkspaceAction::List => Asked::WorkspaceList,
                WorkspaceAction::Kill { id, discard } => Asked::WorkspaceKill {
                    id: WorkspaceId(id),
                    discard,
                },
                WorkspaceAction::Fork { id, name, revision } => Asked::WorkspaceFork {
                    id: WorkspaceId(id),
                    name: name@,
                    revision: opt_text(revision),
                    dest: None,
                },
                WorkspaceAction::Update { id } => Asked::WorkspaceUpdate { id: WorkspaceId(id) },
                WorkspaceAction::Merge { id, push } => Asked::WorkspaceMerge {
                    id: WorkspaceId(id),
                    push,
                },
                WorkspaceAction::Diff { id, stat } => Asked::WorkspaceDiff {
                    id: WorkspaceId(id),
                    stat,
                },
            },
        ),
        Command::Tab { action } => Some(
            match action {
                TabAction::New { workspace } => Asked::TabNew {
                    workspace: workspace_id(workspace),
                },
                TabAction::List { workspace } => Asked::TabList {
                    workspace: workspace_id(workspace),
                },
                TabAction::Select { id } => Asked::TabSelect { id: TabId(id) },
            },
        ),
        Command::Pane { action } => Some(
            match action {
                PaneAction::Run { tab, ephemeral, cmd } => Asked::PaneRun {
                    tab: tab_id(tab),
                    cmd: texts(cmd@),
                    ephemeral,
                },
                PaneAction::Split { pane, direction } => Asked::PaneSplit {
                    pane: PaneId(pane),
                    direction: axis(direction),
                },
                PaneAction::List => Asked::PaneList,
                PaneAction::Kill { pane } => Asked::PaneKill { pane: PaneId(pane) },
                PaneAction::Rename { pane, title } => Asked::PaneRename {
                    pane: PaneId(pane),
                    title: title@,
                },
                PaneAction::Send { pane, text, keys } => Asked::PaneSend {
                    pane: PaneId(pane),
                    text: opt_text(text),
                    keys: opt_text(keys),
                },
                PaneAction::Read { pane, lines, unwrapped } => Asked::PaneRead {
                    pane: PaneId(pane),
                    lines,
                    unwrapped,
                },
                PaneAction::Focus { pane } => Asked::PaneFocus { pane: PaneId(pane) },
            },
        ),
        _ => None,
    }
}

fn workspace_number(id: Option<u64>) -> (r: Option<WorkspaceId>)
    ensures
        r == workspace_id(id),
{
    match id {
        Some(n) => Some(WorkspaceId(n)),
        None => None,
    }
}

fn tab_number(id: Option<u64>) -> (r: Option<TabId>)
    ensures
        r == tab_id(id),
{
    match id {
        Some(n) => Some(TabId(n)),
        None => None,
    }
}

/// What a command asks of the daemon; nothing for those that ask nothing.
/// `canonical` is the real path of a new workspace's directory, where it has
/// one, and `cwd` the current directory.
pub fn to_request(command: Command, canonical: Option<String>, cwd: &Option<String>) -> (r: Option<
    Request,
>)
    ensures
        (match r {
            Some(q) => Some(q@),
            None => None,
        }) == requested(command, opt_text(canonical), opt_text(*cwd)),
{
    match command {
        Command::Workspace { action } => Some(
            match action {
                WorkspaceAction::New { dir } => Request::WorkspaceNew {
                    dir: absolutize(dir, canonical, cwd),
                },
                WorkspaceAction::List => Request::WorkspaceList,
                WorkspaceAction::Kill { id, discard } => Request::WorkspaceKill {
                    id: WorkspaceId(id),
                    discard,
                },
                WorkspaceAction::Fork { id, name, revision } => Request::WorkspaceFork {
                    id: WorkspaceId(id),
                    name,
                    revision,
                    dest: None,
                },
                WorkspaceAction::Update { id } => Request::WorkspaceUpdate { id: WorkspaceId(id) },
                WorkspaceAction::Merge { id, push } => Request::WorkspaceMerge {
                    id: WorkspaceId(id),
                    push,
                },
                WorkspaceAction::Diff { id, stat } => Request::WorkspaceDiff {
                    id: WorkspaceId(id),
                    stat,
                },
            },
        ),
        Command::Tab { action } => Some(
            match action {
                TabAction::New { workspace } => Request::TabNew {
                    workspace: workspace_number(workspace),
                },
                TabAction::List { workspace } => Request::TabList {
                    workspace: workspace_number(workspace),
                },
                TabAction::Select { id } => Request::TabSelect { id: TabId(id) },
            },
        ),
        Command::Pane { action } => Some(
            match action {
                PaneAction::Run { tab, ephemeral, cmd } => Request::PaneRun {
                    tab: tab_number(tab),
                    cmd,
                    ephemeral,
                },
                PaneAction::Split { pane, direction: dir } => Request::PaneSplit {
                    pane: PaneId(pane),
                    direction: direction(dir),
                },
                PaneAction::List => Request::PaneList,
                PaneAction::Kill { pane } => Request::PaneKill { pane: PaneId(pane) },
                PaneAction::Rename { pane, title } => Request::PaneRename {
                    pane: PaneId(pane),
                    title,
                },
                PaneAction::Send { pane, text, keys } => Request::PaneSend {
                    pane: PaneId(pane),
                    text,
                    keys,
                },
                PaneAction::Read { pane, lines, unwrapped } => Request::PaneRead {
                    pane: PaneId(pane),
                    lines,
                    unwrapped,
                },
                PaneAction::Focus { pane } => Request::PaneFocus { pane: PaneId(pane) },
            },
        ),
        _ => None,
    }
}

// ---- hook events ---------------------------------------------------------

/// What a hook's event asks of the daemon: nothing outside a pane, and nothing
/// where the event means nothing. `pane` is the pane that the hook runs in.
pub open spec fn event_request(pane: Option<Seq<char>>, input: Seq<char>) -> Option<Asked> {
    let number = match pane {
        Some(p) => unsigned(p),
        None => None,
    };
    let event = match json_reading(input) {
        Ok(v) => meaning(v),
        Err(_) => None,
    };
    match (number, event) {
        (Some(n), Some(e)) if n <= u64::MAX => Some(
            Asked::AgentEvent { pane: PaneId(n as u64), event: e },
        ),
        _ => None,
    }
}

/// What a hook's event asks of the daemon.
pub fn agent_event_request(pane: Option<&str>, input: &str) -> (r: Option<Request>)
    ensures
        (match r {
            Some(q) => Some(q@),
            None => None,
        }) == event_request(opt_str(pane), input@),
{
    let number: u64 = match pane {
        Some(text) => match parse_pane(text) {
            Some(n) => n,
            None => {
                return None;
            },
        },
        None => {
            return None;
        },
    };
    match read_event(input) {
        Some(event) => Some(Request::AgentEvent { pane: PaneId(number), event }),
        None => None,
    }
}

// ---- answers -------------------------------------------------------------

/// What a command prints, and its exit code.
#[derive(Debug, Clone, PartialEq)]
pub struct Output {
    pub stdout: String,
    pub stderr: String,
    pub code: i32,
}

/// What a command prints, over characters.
#[verifier::ext_equal]
pub struct Printed {
    pub stdout: Seq<char>,
    pub stderr: Seq<char>,
    pub code: i32,
}

impl View for Output {
    type V = Printed;

    open spec fn view(&self) -> Printed {
        Printed { stdout: self.stdout@, stderr: self.stderr@, code: self.code }
    }
}

/// That this is printed.
pub open spec fn printed(text: Seq<char>) -> Printed {
    Printed { stdout: text, stderr: Seq::empty(), code: 0 }
}

/// That a line is printed.
pub open spec fn printed_line(text: Seq<char>) -> Printed {
    printed(text.push('\n'))
}

/// That a line is printed as a complaint.
pub open spec fn complained(text: Seq<char>, code: i32) -> Printed {
    Printed { stdout: Seq::empty(), stderr: text.push('\n'), code }
}

/// Each of the first `n` lines on a line of its own.
pub open spec fn lined(lines: Seq<Seq<char>>, n: int) -> Seq<char>
    decreases n,
{
    if n <= 0 {
        Seq::empty()
    } else {
        lined(lines, n - 1) + lines[n - 1].push('\n')
    }
}

/// What is printed of an answer. `json` is the answer as JSON, where that is
/// wanted.
pub open spec fn emitted(response: Response, json: Option<Seq<char>>) -> Printed {
    match json {
        Some(text) => if response is Error {
            complained(text, 1)
        } else {
            printed_line(text)
        },
        None => match response {
            Response::Error { message } => complained("error: "@ + message@, 1),
            Response::Okay => printed_line("ok"@),
            Response::WorkspaceCreated { id } => printed_line(
                "workspace "@ + decimal(id.0 as nat) + " created"@,
            ),
            Response::Merged { pushed, bookmark } => printed_line(
                "merged into "@ + bookmark@ + (if pushed {
                    " and pushed"@
                } else {
                    ""@
                }),
            ),
            Response::TabCreated { id } => printed_line(
                "tab "@ + decimal(id.0 as nat) + " created"@,
            ),
            Response::PaneCreated { id } => printed_line(
                "pane "@ + decimal(id.0 as nat) + " created"@,
            ),
            Response::Workspaces { workspaces } => printed(
                table_text(workspace_cells(workspaces@), 3),
            ),
            Response::Tabs { tabs } => printed(table_text(tab_cells(tabs@), 3)),
            Response::Panes { panes } => printed(table_text(pane_cells(panes@), 5)),
            Response::Content { lines } => printed(lined(texts(lines@), lines@.len() as int)),
            Response::Attached { session, workspaces: _, wire_rev: _ } => printed_line(
                "attached to "@ + session@,
            ),
        },
    }
}

fn print_text(text: String) -> (r: Output)
    ensures
        r@ == printed(text@),
{
    let ghost line = text@;
    let r: Output = Output { stdout: text, stderr: String::new(), code: 0 };
    assert(r@ =~= printed(line));
    r
}

fn print_line(text: String) -> (r: Output)
    ensures
        r@ == printed_line(text@),
{
    let mut line: String = text;
    line.push('\n');
    print_text(line)
}

fn complain(text: String, code: i32) -> (r: Output)
    ensures
        r@ == complained(text@, code),
{
    let ghost line = text@.push('\n');
    let mut out: String = text;
    out.push('\n');
    let r: Output = Output { stdout: String::new(), stderr: out, code };
    assert(r@ =~= (Printed { stdout: Seq::empty(), stderr: line, code }));
    r
}

/// What is printed of an answer. `json` is the answer as JSON, where that is
/// wanted.
pub fn emit(response: &Response, json: Option<String>) -> (r: Output)
    ensures
        r@ == emitted(*response, opt_text(json)),
{
    match json {
        Some(text) => {
            if matches!(response, Response::Error { .. }) {
                return complain(text, 1);
            }
            return print_line(text);
        },
        None => {},
    }
    match response {
        Response::Error { message } => complain(glue("error: ", message.as_str()), 1),
        Response::Okay => print_line("ok".to_owned()),
        Response::WorkspaceCreated { id } => print_line(
            glue3("workspace ", number(id.0).as_str(), " created"),
        ),
        Response::Merged { pushed, bookmark } => {
            let end: &'static str = if *pushed {
                " and pushed"
            } else {
                ""
            };
            print_line(glue3("merged into ", bookmark.as_str(), end))
        },
        Response::TabCreated { id } => print_line(
            glue3("tab ", number(id.0).as_str(), " created"),
        ),
        Response::PaneCreated { id } => print_line(
            glue3("pane ", number(id.0).as_str(), " created"),
        ),
        Response::Workspaces { workspaces } => print_text(table::workspaces(workspaces.as_slice())),
        Response::Tabs { tabs } => print_text(table::tabs(tabs.as_slice())),
        Response::Panes { panes } => print_text(table::panes(panes.as_slice())),
        Response::Content { lines } => {
            let ghost all = texts(lines@);
            let mut out: String = String::new();
            assert(out@ =~= lined(all, 0));
            for i in 0..lines.len()
                invariant
                    all == texts(lines@),
                    out@ == lined(all, i as int),
            {
                let ghost had = out@;
                out.append(lines[i].as_str());
                out.push('\n');
                assert(all[i as int] == lines@[i as int]@);
                assert(out@ =~= had + all[i as int].push('\n'));
            }
            print_text(out)
        },
        Response::Attached { session, .. } => print_line(glue("attached to ", session.as_str())),
    }
}

/// What is printed once the daemon was started, or found running.
pub fn start_report(running: bool, session: &str) -> (r: Output)
    ensures
        r@ == printed_line(
            (if running {
                "tutti-server already running for session '"@
            } else {
                "tutti-server started for session '"@
            }) + session@ + "'"@,
        ),
{
    let lead: &'static str = if running {
        "tutti-server already running for session '"
    } else {
        "tutti-server started for session '"
    };
    print_line(glue3(lead, session, "'"))
}

/// What is printed once the daemon was stopped, or found not running.
pub open spec fn stop_printed(outcome: StopOutcome, session: Seq<char>) -> Printed {
    match outcome {
        StopOutcome::Signalled(pid) => printed_line(
            "stopped tutti-server (pid "@ + signed(pid as int) + ") for session '"@ + session
                + "'"@,
        ),
        StopOutcome::NotRunning => complained(
            "tutti-server not running for session '"@ + session + "'"@,
            0,
        ),
    }
}

/// What is printed once the daemon was stopped, or found not running.
pub fn stop_report(outcome: StopOutcome, session: &str) -> (r: Output)
    ensures
        r@ == stop_printed(outcome, session@),
{
    match outcome {
        StopOutcome::Signalled(pid) => {
            let mut line: String = glue3(
                "stopped tutti-server (pid ",
                signed_number(pid).as_str(),
                ") for session '",
            );
            line.append(session);
            line.append("'");
            print_line(line)
        },
        StopOutcome::NotRunning => complain(
            glue3("tutti-server not running for session '", session, "'"),
            0,
        ),
    }
}

// ---- projects ------------------------------------------------------------

/// Whether one of the texts names the path that `p` names.
pub open spec fn among(s: Seq<Seq<char>>, p: Seq<char>) -> bool {
    exists|i: int| 0 <= i < s.len() && components(#[trigger] s[i]) == components(p)
}

/// The places, among the first `n`, of the projects that are to be opened: those
/// whose real path is neither open nor that of an earlier project.
pub open spec fn missing(actual: Seq<Seq<char>>, mounted: Seq<Seq<char>>, n: int) -> Seq<int>
    decreases n,
{
    if n <= 0 {
        Seq::empty()
    } else if among(mounted, actual[n - 1]) || among(actual.take(n - 1), actual[n - 1]) {
        missing(actual, mounted, n - 1)
    } else {
        missing(actual, mounted, n - 1).push(n - 1)
    }
}

/// The projects at these places.
pub open spec fn at_places(projects: Seq<Seq<char>>, places: Seq<int>) -> Seq<Seq<char>> {
    Seq::new(places.len(), |i: int| projects[places[i]])
}

fn listed(list: &Vec<String>, end: usize, p: &str) -> (r: bool)
    requires
        end <= list@.len(),
    ensures
        r == among(texts(list@).take(end as int), p@),
{
    let ghost all = texts(list@).take(end as int);
    for i in 0..end
        invariant
            end <= list@.len(),
            all == texts(list@).take(end as int),
            forall|j: int| 0 <= j < i ==> components(#[trigger] all[j]) != components(p@),
    {
        assert(all[i as int] == list@[i as int]@);
        if same_path(list[i].as_str(), p) {
            return true;
        }
    }
    false
}

/// The configured projects that are to be opened. `actual` are their real paths,
/// and `mounted` those of the workspaces that are open.
pub fn projects_to_create(projects: &Vec<String>, actual: &Vec<String>, mounted: &Vec<String>) -> (r: Vec<
    String,
>)
    requires
        projects@.len() == actual@.len(),
    ensures
        texts(r@) == at_places(
            texts(projects@),
            missing(texts(actual@), texts(mounted@), projects@.len() as int),
        ),
{
    let mut out: Vec<String> = Vec::new();
    let ghost all = texts(projects@);
    let ghost paths = texts(actual@);
    let ghost there = texts(mounted@);
    assert(texts(out@) =~= at_places(all, missing(paths, there, 0)));
    for i in 0..projects.len()
        invariant
            projects@.len() == actual@.len(),
            all == texts(projects@),
            paths == texts(actual@),
            there == texts(mounted@),
            texts(out@) == at_places(all, missing(paths, there, i as int)),
    {
        assert(all[i as int] == projects@[i as int]@);
        assert(paths[i as int] == actual@[i as int]@);
        assert(there.take(mounted@.len() as int) =~= there);
        let ghost had = texts(out@);
        if !listed(mounted, mounted.len(), actual[i].as_str()) && !listed(actual, i, actual[i].as_str()) {
            out.push(projects[i].clone());
            assert(texts(out@) =~= had.push(all[i as int]));
            assert(texts(out@) =~= at_places(all, missing(paths, there, i + 1)));
        }
    }
    out
}

/// The directories of the workspaces in an answer, where it lists them.
pub fn listed_dirs(response: &Response) -> (r: Option<Vec<String>>)
    ensures
        match *response {
            Response::Workspaces { workspaces } => r matches Some(dirs) && texts(dirs@)
                == Seq::new(workspaces@.len(), |i: int| workspaces@[i].dir@),
            _ => r is None,
        },
{
    match response {
        Response::Workspaces { workspaces } => {
            let ghost all = Seq::new(workspaces@.len(), |i: int| workspaces@[i].dir@);
            let mut out: Vec<String> = Vec::new();
            assert(texts(out@) =~= all.take(0));
            for i in 0..workspaces.len()
                invariant
                    all == Seq::new(workspaces@.len(), |i: int| workspaces@[i].dir@),
                    texts(out@) == all.take(i as int),
            {
                let ghost had = texts(out@);
                out.push(workspaces[i].dir.clone());
                assert(texts(out@) =~= had.push(all[i as int]));
                assert(texts(out@) =~= all.take(i + 1));
            }
            assert(all.take(all.len() as int) =~= all);
            Some(out)
        },
        _ => None,
    }
}

/// Projects that are being opened, one after the other: each is a workspace,
/// then a shell in it. `opened` tells that the workspace of the next one is
/// there. What goes wrong with one is noted, and the rest go on.
pub struct Mount {
    pub dirs: Vec<String>,
    pub next: usize,
    pub opened: bool,
    pub shell: String,
    pub notices: Vec<String>,
}

impl Mount {
    /// The next project is one of them, or all are done.
    pub open spec fn well_formed(&self) -> bool {
        self.next <= self.dirs@.len() && (self.opened ==> self.next < self.dirs@.len())
    }

    /// What is to be asked of the daemon next; nothing once all are done.
    pub open spec fn wanted(&self) -> Option<Asked> {
        if self.next >= self.dirs@.len() {
            None
        } else if self.opened {
            Some(
                Asked::PaneRun { tab: None, cmd: seq![self.shell@], ephemeral: false },
            )
        } else {
            Some(Asked::WorkspaceNew { dir: self.dirs@[self.next as int]@ })
        }
    }

    /// How many answers can still come.
    pub open spec fn remaining(&self) -> int {
        2 * (self.dirs@.len() - self.next) - (if self.opened {
            1int
        } else {
            0
        })
    }

    /// Begin to open projects.
    pub fn new(dirs: Vec<String>, shell: String) -> (r: Mount)
        ensures
            r.well_formed(),
            r.dirs == dirs,
            r.shell == shell,
            r.next == 0,
            !r.opened,
            texts(r.notices@) == Seq::<Seq<char>>::empty(),
    {
        let r: Mount = Mount { dirs, next: 0, opened: false, shell, notices: Vec::new() };
        assert(texts(r.notices@) =~= Seq::empty());
        r
    }

    /// What is to be asked of the daemon next; nothing once all are done.
    pub fn request(&self) -> (r: Option<Request>)
        ensures
            (match r {
                Some(q) => Some(q@),
                None => None,
            }) == self.wanted(),
    {
        if self.next >= self.dirs.len() {
            return None;
        }
        if self.opened {
            let cmd: Vec<String> = vec![self.shell.clone()];
            assert(texts(cmd@) =~= seq![self.shell@]);
            Some(Request::PaneRun { tab: None, cmd, ephemeral: false })
        } else {
            Some(Request::WorkspaceNew { dir: self.dirs[self.next].clone() })
        }
    }

    /// Take the daemon's answer to what was asked; tells whether it is one that
    /// can be given to that.
    pub fn on_reply(&mut self, response: &Response) -> (r: bool)
        requires
            old(self).well_formed(),
            old(self).next < old(self).dirs@.len(),
        ensures
            final(self).well_formed(),
            replied(*old(self), *final(self), *response, r),
    {
        let ghost pre = *self;
        assert(self.dirs.len() == self.dirs@.len());
        match response {
            Response::Error { message } => {
                let notice: String = glue3(
                    self.dirs[self.next].as_str(),
                    ": ",
                    message.as_str(),
                );
                let ghost line = notice@;
                self.notices.push(notice);
                assert(texts(self.notices@) =~= texts(pre.notices@).push(line));
                self.next = self.next + 1;
                self.opened = false;
                true
            },
            Response::WorkspaceCreated { .. } => {
                if self.opened {
                    return false;
                }
                self.opened = true;
                true
            },
            Response::PaneCreated { .. } | Response::Okay => {
                if !self.opened {
                    return false;
                }
                self.next = self.next + 1;
                self.opened = false;
                true
            },
            _ => false,
        }
    }
}

/// What an answer does to the projects that are being opened.
pub open spec fn replied(pre: Mount, post: Mount, response: Response, expected: bool) -> bool {
    let done = (Mount { next: (pre.next + 1) as usize, opened: false, ..pre });
    match response {
        Response::Error { message } => {
            &&& expected
            &&& post == (Mount { notices: post.notices, ..done })
            &&& texts(post.notices@) == texts(pre.notices@).push(
                pre.dirs@[pre.next as int]@ + ": "@ + message@,
            )
        },
        Response::WorkspaceCreated { id: _ } if !pre.opened => expected && post == (Mount {
            opened: true,
            ..pre
        }),
        Response::PaneCreated { id: _ } if pre.opened => expected && post == done,
        Response::Okay if pre.opened => expected && post == done,
        _ => !expected && post == pre,
    }
}

/// The first `n` notices in a row.
pub open spec fn in_a_row(notices: Seq<Seq<char>>, n: int) -> Seq<char>
    decreases n,
{
    if n <= 0 {
        Seq::empty()
    } else if n == 1 {
        notices[0]
    } else {
        in_a_row(notices, n - 1) + "; "@ + notices[n - 1]
    }
}

/// The notices as one message, if there are any.
pub fn join_notices(notices: &Vec<String>) -> (r: Option<String>)
    ensures
        notices@.len() == 0 ==> r is None,
        notices@.len() > 0 ==> (r matches Some(m) && m@ == in_a_row(
            texts(notices@),
            notices@.len() as int,
        )),
{
    if notices.len() == 0 {
        return None;
    }
    let ghost all = texts(notices@);
    assert(all[0] == notices@[0]@);
    let mut out: String = notices[0].clone();
    for i in 1..notices.len()
        invariant
            all == texts(notices@),
            out@ == in_a_row(all, i as int),
    {
        let ghost had = out@;
        assert(all[i as int] == notices@[i as int]@);
        out.append("; ");
        out.append(notices[i].as_str());
        assert(out@ =~= had + "; "@ + all[i as int]);
    }
    Some(out)
}

/// Whether to prompt for the first project, at the current directory: in a session
/// that is empty and has no projects configured.
pub fn first_run(was_empty: bool, config_projects: usize) -> (r: bool)
    ensures
        r == (was_empty && config_projects == 0),
{
    was_empty && config_projects == 0
}

// ---- installing hooks ----------------------------------------------------

/// The settings file of an agent, below a directory.
pub open spec fn below_dir(agent: Seq<char>) -> Seq<char> {
    "."@ + agent + "/settings.json"@
}

/// The settings file of an agent: the project's, or the one in the home directory.
pub open spec fn settings_file(
    agent: Seq<char>,
    project: bool,
    home: Option<Seq<char>>,
) -> Option<Seq<char>> {
    if project {
        Some(below_dir(agent))
    } else {
        match home {
            Some(h) => Some(joined(h, below_dir(agent))),
            None => None,
        }
    }
}

/// The settings file of an agent; none where the home directory is needed and not
/// known.
pub fn settings_path(agent: &str, project: bool, home: Option<&str>) -> (r: Option<String>)
    ensures
        opt_text(r) == settings_file(agent@, project, opt_str(home)),
{
    let file: String = glue3(".", agent, "/settings.json");
    if project {
        Some(file)
    } else {
        match home {
            Some(h) => Some(join(h, file.as_str())),
            None => None,
        }
    }
}

/// What the change to the settings file is, before it is made. `before` are the
/// hooks that are there, as JSON, and `after` those that will be.
pub open spec fn preview(
    path: Seq<char>,
    added: Seq<char>,
    before: Option<Seq<char>>,
    after: Seq<char>,
) -> Seq<char> {
    path + ": adding tutti hooks for "@ + added + "\n\n--- hooks before ---\n"@ + (match before {
        Some(b) => b,
        None => "(no hooks yet)"@,
    }) + "\n--- hooks after ---\n"@ + after + "\n\n"@
}

/// The first `n` names with commas between.
pub open spec fn with_commas(names: Seq<Seq<char>>, n: int) -> Seq<char>
    decreases n,
{
    if n <= 0 {
        Seq::empty()
    } else if n == 1 {
        names[0]
    } else {
        with_commas(names, n - 1) + ", "@ + names[n - 1]
    }
}

/// What the change to the settings file is, before it is made.
pub fn install_preview(path: &str, added: &Vec<String>, before: Option<&str>, after: &str) -> (r:
    String)
    ensures
        r@ == preview(
            path@,
            with_commas(texts(added@), added@.len() as int),
            opt_str(before),
            after@,
        ),
{
    let ghost all = texts(added@);
    let mut names: String = String::new();
    assert(names@ =~= with_commas(all, 0));
    for i in 0..added.len()
        invariant
            all == texts(added@),
            names@ == with_commas(all, i as int),
    {
        let ghost had = names@;
        assert(all[i as int] == added@[i as int]@);
        if i > 0 {
            names.append(", ");
        }
        names.append(added[i].as_str());
        assert(names@ =~= with_commas(all, i + 1));
    }
    let mut out: String = glue3(path, ": adding tutti hooks for ", names.as_str());
    out.append("\n\n--- hooks before ---\n");
    match before {
        Some(b) => out.append(b),
        None => out.append("(no hooks yet)"),
    }
    out.append("\n--- hooks after ---\n");
    out.append(after);
    out.append("\n\n");
    out
}

/// Whether an answer says yes.
pub open spec fn consents(answer: Seq<char>) -> bool {
    trimmed(answer) == "y"@ || trimmed(answer) == "Y"@ || trimmed(answer) == "yes"@
}

/// Whether an answer agrees to write the settings file.
pub fn agrees(answer: &str) -> (r: bool)
    ensures
        r == consents(answer@),
{
    let a: String = trim(answer);
    same(a.as_str(), "y") || same(a.as_str(), "Y") || same(a.as_str(), "yes")
}

/// Why hooks cannot be installed.
#[derive(Debug, Clone, PartialEq)]
pub enum InstallError {
    /// The settings file is no JSON; what the reader says of it.
    Syntax(String),
    /// It is not of the shape that settings have.
    Shape(MergeError),
}

/// Why hooks cannot be installed, over texts.
pub enum Refusal {
    Syntax(Seq<char>),
    Shape(MergeError),
}

/// A change to a settings file: what is shown of it, and the new text.
#[derive(Debug, Clone, PartialEq)]
pub struct Change {
    pub preview: String,
    pub settings: String,
}

/// What a settings file holds; null where there is none.
pub open spec fn existing_settings(text: Option<Seq<char>>) -> Result<JsonTree, Seq<char>> {
    match text {
        Some(t) => json_reading(t),
        None => Ok(JsonTree::Null),
    }
}

/// The hooks of a settings file, as a text.
pub open spec fn hooks_text(tree: JsonTree) -> Option<Seq<char>> {
    match member(tree, "hooks"@) {
        Some(hooks) => Some(pretty_text(settled(hooks))),
        None => None,
    }
}

/// What installing the hooks of an agent does to a settings file with this text:
/// nothing where they are there, else what is shown, and the new text.
pub open spec fn installing(
    agent: Seq<char>,
    path: Seq<char>,
    text: Option<Seq<char>>,
) -> Result<Option<(Seq<char>, Seq<char>)>, Refusal> {
    match existing_settings(text) {
        Err(message) => Err(Refusal::Syntax(message)),
        Ok(before) => match merging(command_of(agent), before) {
            Err(e) => Err(Refusal::Shape(e)),
            Ok(None) => Ok(None),
            Ok(Some((after, added))) => Ok(
                Some(
                    (
                        preview(
                            path,
                            with_commas(added, added.len() as int),
                            hooks_text(before),
                            hooks_text(after)->0,
                        ),
                        pretty_text(settled(after)),
                    ),
                ),
            ),
        },
    }
}

/// Plan the installation of an agent's hooks into the settings file at `path`,
/// which holds `text` where it exists. Installing is idempotent: once the new text
/// is written, another installation changes nothing.
pub fn plan_install(agent: &str, path: &str, text: Option<&str>) -> (r: Result<
    Option<Change>,
    InstallError,
>)
    ensures
        (match r {
            Ok(Some(c)) => Ok(Some((c.preview@, c.settings@))),
            Ok(None) => Ok(None),
            Err(InstallError::Syntax(m)) => Err(Refusal::Syntax(m@)),
            Err(InstallError::Shape(e)) => Err(Refusal::Shape(e)),
        }) == installing(agent@, path@, opt_str(text)),
        r matches Ok(Some(c)) ==> (installing(agent@, path@, Some(c.settings@)) matches Ok(None)),
{
    let existing: Json = match text {
        Some(t) => match Json::parse(t) {
            Ok(v) => v,
            Err(message) => {
                return Err(InstallError::Syntax(message));
            },
        },
        None => Json::Null,
    };
    let ghost tree = existing@;
    let before: Option<String> = match existing.get("hooks") {
        Some(hooks) => Some(hooks.pretty()),
        None => None,
    };
    let command: String = hook_command(agent);
    match merge_claude_hooks(command.as_str(), existing) {
        Err(e) => Err(InstallError::Shape(e)),
        Ok(None) => Ok(None),
        Ok(Some((merged, added))) => {
            proof {
                assert(tidy(tree));
                merged_settings_have_hooks(command@, tree);
                merging_twice_adds_nothing(command@, tree);
                merging_keeps_keys_apart(command@, tree);
                merging_keeps_the_depth(command@, tree, READ_DEPTH as int);
            }
            let settings: String = merged.pretty();
            proof {
                alike_settings_need_nothing(command@, merged@, settled(merged@));
                alike_settings_need_nothing(
                    command@,
                    settled(merged@),
                    json_reading(settings@)->Ok_0,
                );
            }
            let after: String = match merged.get("hooks") {
                Some(hooks) => hooks.pretty(),
                None => String::new(),
            };
            let shown: Option<&str> = match &before {
                Some(b) => Some(b.as_str()),
                None => None,
            };
            Ok(
                Some(
                    Change {
                        preview: install_preview(path, &added, shown, after.as_str()),
                        settings,
                    },
                ),
            )
        },
    }
}

// ---- laws ----------------------------------------------------------------

proof fn missing_are_new(actual: Seq<Seq<char>>, mounted: Seq<Seq<char>>, n: int, i: int)
    requires
        0 <= n <= actual.len(),
        0 <= i < missing(actual, mounted, n).len(),
    ensures
        0 <= missing(actual, mounted, n)[i] < n,
        !among(mounted, actual[missing(actual, mounted, n)[i]]),
    decreases n,
{
    if i < missing(actual, mounted, n - 1).len() {
        missing_are_new(actual, mounted, n - 1, i);
    }
}

/// No path is opened twice, and none that is open: the real paths of the projects
/// that are to be opened are new, and differ from one another.
pub proof fn projects_are_opened_once(
    actual: Seq<Seq<char>>,
    mounted: Seq<Seq<char>>,
    n: int,
    i: int,
    j: int,
)
    requires
        0 <= n <= actual.len(),
        0 <= i <= j < missing(actual, mounted, n).len(),
    ensures
        0 <= missing(actual, mounted, n)[i] <= missing(actual, mounted, n)[j] < n,
        !among(mounted, actual[missing(actual, mounted, n)[j]]),
        i < j ==> components(actual[missing(actual, mounted, n)[i]]) != components(
            actual[missing(actual, mounted, n)[j]],
        ),
    decreases n,
{
    let all = missing(actual, mounted, n);
    let shorter = missing(actual, mounted, n - 1);
    missing_are_new(actual, mounted, n, j);
    missing_are_new(actual, mounted, n, i);
    if j < shorter.len() {
        projects_are_opened_once(actual, mounted, n - 1, i, j);
    } else if i < j {
        missing_are_new(actual, mounted, n - 1, i);
        assert(all[i] == shorter[i]);
        assert(actual.take(n - 1)[all[i]] == actual[all[i]]);
    }
}

/// Every project is opened, or its real path is open already or that of a
/// project before it.
pub proof fn no_project_is_forgotten(
    actual: Seq<Seq<char>>,
    mounted: Seq<Seq<char>>,
    n: int,
    p: int,
)
    requires
        0 <= p < n <= actual.len(),
    ensures
        missing(actual, mounted, n).contains(p) || among(mounted, actual[p]) || among(
            actual.take(p),
            actual[p],
        ),
    decreases n,
{
    let all = missing(actual, mounted, n);
    let shorter = missing(actual, mounted, n - 1);
    if p < n - 1 {
        no_project_is_forgotten(actual, mounted, n - 1, p);
        if shorter.contains(p) {
            let k = choose|k: int| 0 <= k < shorter.len() && shorter[k] == p;
            assert(all[k] == p);
        }
    } else if !among(mounted, actual[p]) && !among(actual.take(p), actual[p]) {
        assert(all.last() == p);
    }
}

/// Opening is idempotent: where every project is open, nothing is to be opened.
pub proof fn open_projects_stay(actual: Seq<Seq<char>>, mounted: Seq<Seq<char>>, n: int)
    requires
        0 <= n <= actual.len(),
        forall|i: int| 0 <= i < n ==> among(mounted, #[trigger] actual[i]),
    ensures
        missing(actual, mounted, n).len() == 0,
    decreases n,
{
    if n > 0 {
        open_projects_stay(actual, mounted, n - 1);
        assert(among(mounted, actual[n - 1]));
    }
}

/// Every answer that is expected brings the opening of projects closer to its
/// end, whether a project could be opened or not.
pub proof fn every_answer_counts(pre: Mount, post: Mount, response: Response)
    requires
        pre.well_formed(),
        pre.next < pre.dirs@.len(),
        replied(pre, post, response, true),
    ensures
        0 <= post.remaining() < pre.remaining(),
        post.dirs == pre.dirs,
        post.remaining() == 0 <==> post.wanted() is None,
{
    assert(pre.dirs.len() == pre.dirs@.len());
}

/// A command on panes asks for just that, of just that pane: a split to the right
/// makes columns and one down makes rows, and what is sent, read or renamed is what
/// was given.
pub proof fn pane_commands_ask_what_they_say(
    action: PaneAction,
    canonical: Option<Seq<char>>,
    cwd: Option<Seq<char>>,
)
    ensures
        ({
            let asked = requested(Command::Pane { action }, canonical, cwd);
            match action {
                PaneAction::Run { tab, ephemeral, cmd } => asked matches Some(
                    Asked::PaneRun { tab: t, cmd: c, ephemeral: e },
                ) && c == texts(cmd@) && e == ephemeral && (tab is Some == t is Some) && (tab
                    is Some ==> t->0 == TabId(tab->0)),
                PaneAction::Split { pane, direction } => asked matches Some(
                    Asked::PaneSplit { pane: p, direction: d },
                ) && p.0 == pane && (d == Direction::Horizontal) == (direction == SplitDir::Right),
                PaneAction::List => asked == Some(Asked::PaneList),
                PaneAction::Kill { pane } => asked == Some(Asked::PaneKill { pane: PaneId(pane) }),
                PaneAction::Rename { pane, title } => asked == Some(
                    Asked::PaneRename { pane: PaneId(pane), title: title@ },
                ),
                PaneAction::Send { pane, text, keys } => asked matches Some(
                    Asked::PaneSend { pane: p, text: t, keys: k },
                ) && p.0 == pane && t == opt_text(text) && k == opt_text(keys),
                PaneAction::Read { pane, lines, unwrapped } => asked matches Some(
                    Asked::PaneRead { pane: p, lines: n, unwrapped: u },
                ) && p.0 == pane && n == lines && u == unwrapped,
                PaneAction::Focus { pane } => asked == Some(
                    Asked::PaneFocus { pane: PaneId(pane) },
                ),
            }
        }),
{
}

/// A command on workspaces and tabs asks for just that, of just that one; only a new
/// workspace's directory is changed, to the real path where there is one.
pub proof fn other_commands_ask_what_they_say(
    action: WorkspaceAction,
    tab: TabAction,
    canonical: Option<Seq<char>>,
    cwd: Option<Seq<char>>,
)
    ensures
        ({
            let asked = requested(Command::Workspace { action }, canonical, cwd);
            match action {
                WorkspaceAction::New { dir } => asked matches Some(Asked::WorkspaceNew { dir: d })
                    && (canonical is Some ==> d == canonical->0) && (canonical is None && absolute(
                    dir@,
                ) ==> d == dir@) && (canonical is None && !absolute(dir@) && cwd is Some ==> d
                    == joined(cwd->0, dir@)),
                WorkspaceAction::List => asked == Some(Asked::WorkspaceList),
                WorkspaceAction::Kill { id, discard } => asked matches Some(
                    Asked::WorkspaceKill { id: i, discard: d },
                ) && i.0 == id && d == discard,
                WorkspaceAction::Fork { id, name, revision } => asked matches Some(
                    Asked::WorkspaceFork { id: i, name: n, revision: r, dest },
                ) && i.0 == id && n == name@ && r == opt_text(revision) && dest is None,
                WorkspaceAction::Update { id } => asked matches Some(
                    Asked::WorkspaceUpdate { id: i },
                ) && i.0 == id,
                WorkspaceAction::Merge { id, push } => asked matches Some(
                    Asked::WorkspaceMerge { id: i, push: p },
                ) && i.0 == id && p == push,
                WorkspaceAction::Diff { id, stat } => asked matches Some(
                    Asked::WorkspaceDiff { id: i, stat: s },
                ) && i.0 == id && s == stat,
            }
        }),
        ({
            let asked = requested(Command::Tab { action: tab }, canonical, cwd);
            match tab {
                TabAction::New { workspace } => asked matches Some(Asked::TabNew { workspace: w })
                    && (w is Some == workspace is Some) && (w is Some ==> w->0 == WorkspaceId(workspace->0)),
                TabAction::List { workspace } => asked matches Some(
                    Asked::TabList { workspace: w },
                ) && (w is Some == workspace is Some) && (w is Some ==> w->0 == WorkspaceId(workspace->0)),
                TabAction::Select { id } => asked matches Some(Asked::TabSelect { id: i }) && i.0
                    == id,
            }
        }),
        requested(Command::Attach, canonical, cwd) is None,
        requested(Command::AgentEvent, canonical, cwd) is None,
{
}

/// Only an error exits with a code other than 0, and only an error is a complaint;
/// everything else is printed, and with a line's end. As JSON, what is printed is
/// the JSON itself.
pub proof fn errors_exit_nonzero(response: Response, json: Option<Seq<char>>)
    ensures
        (emitted(response, json).code != 0) == (response is Error),
        response is Error ==> emitted(response, json).stdout.len() == 0 && emitted(
            response,
            json,
        ).stderr.len() > 0,
        !(response is Error) ==> emitted(response, json).stderr.len() == 0,
        json is Some && !(response is Error) ==> emitted(response, json).stdout == json->0.push('\n'),
        json is Some && response is Error ==> emitted(response, json).stderr == json->0.push('\n'),
{
}

/// What was made is told by its kind and its number, a merge by its bookmark and
/// whether it was pushed, an error by its message, and what a pane shows line by
/// line.
pub proof fn answers_tell_what_came(response: Response)
    ensures
        ({
            let out = emitted(response, None).stdout;
            match response {
                Response::WorkspaceCreated { id } => out == ("workspace "@ + decimal(id.0 as nat)
                    + " created"@).push('\n'),
                Response::TabCreated { id } => out == ("tab "@ + decimal(id.0 as nat)
                    + " created"@).push('\n'),
                Response::PaneCreated { id } => out == ("pane "@ + decimal(id.0 as nat)
                    + " created"@).push('\n'),
                Response::Merged { pushed, bookmark } => if pushed {
                    out == ("merged into "@ + bookmark@ + " and pushed"@).push('\n')
                } else {
                    out == ("merged into "@ + bookmark@).push('\n')
                },
                Response::Okay => out == "ok"@.push('\n'),
                Response::Error { message } => emitted(response, None).stderr == ("error: "@
                    + message@).push('\n'),
                Response::Workspaces { workspaces } => out == table_text(
                    workspace_cells(workspaces@),
                    3,
                ),
                Response::Tabs { tabs } => out == table_text(tab_cells(tabs@), 3),
                Response::Panes { panes } => out == table_text(pane_cells(panes@), 5),
                Response::Content { lines } => lines@.len() == 1 ==> out == lines@[0]@.push('\n'),
                Response::Attached { session, .. } => out == ("attached to "@ + session@).push('\n'),
            }
        }),
{
    reveal_strlit("");
    match response {
        Response::Merged { pushed, bookmark } => {
            assert("merged into "@ + bookmark@ + ""@ =~= "merged into "@ + bookmark@);
        },
        Response::Content { lines } => {
            reveal_with_fuel(lined, 2);
            if lines@.len() == 1 {
                assert(lined(texts(lines@), 1) =~= lines@[0]@.push('\n'));
            }
        },
        _ => {},
    }
}

/// Of what is printed line by line, every line is there, in order: the text of a
/// list of lines and one more is the text of the list and that line.
pub proof fn lines_come_in_order(lines: Seq<Seq<char>>, n: int, i: int)
    requires
        0 <= i < n <= lines.len(),
    ensures
        ({
            let at = lined(lines, i).len() as int;
            let end = at + lines[i].len();
            &&& end < lined(lines, n).len()
            &&& lined(lines, n).subrange(at, end) == lines[i]
            &&& lined(lines, n)[end] == '\n'
        }),
    decreases n,
{
    if i < n - 1 {
        lines_come_in_order(lines, n - 1, i);
        let part = lined(lines, n - 1);
        let at = lined(lines, i).len() as int;
        let end = at + lines[i].len();
        assert(lined(lines, n).subrange(at, end) =~= part.subrange(at, end));
    } else {
        let at = lined(lines, i).len() as int;
        assert(lined(lines, n).subrange(at, at + lines[i].len()) =~= lines[i]);
    }
}

/// Stopping a daemon is told with its process number, and that there was none is
/// said without being a failure.
pub proof fn stopping_is_told(pid: i32, session: Seq<char>)
    ensures
        stop_printed(StopOutcome::Signalled(pid), session).stderr.len() == 0,
        stop_printed(StopOutcome::Signalled(pid), session).stdout == ("stopped tutti-server (pid "@
            + signed(pid as int) + ") for session '"@ + session + "'"@).push('\n'),
        stop_printed(StopOutcome::NotRunning, session).stdout.len() == 0,
        stop_printed(StopOutcome::NotRunning, session).stderr.len() > 0,
        stop_printed(StopOutcome::NotRunning, session).code == 0,
        stop_printed(StopOutcome::Signalled(pid), session).code == 0,
{
}

/// A project is opened as a workspace in its own directory, and then a shell runs in
/// it; an error with one is noted under its directory, and the next one is taken.
pub proof fn projects_open_in_turn(pre: Mount, post: Mount, response: Response)
    requires
        pre.well_formed(),
        pre.next < pre.dirs@.len(),
        replied(pre, post, response, true),
    ensures
        !pre.opened ==> pre.wanted() == Some(
            Asked::WorkspaceNew { dir: pre.dirs@[pre.next as int]@ },
        ),
        pre.opened ==> (pre.wanted() matches Some(Asked::PaneRun { tab, cmd, ephemeral }) && cmd
            == seq![pre.shell@] && tab is None && !ephemeral),
        response is WorkspaceCreated ==> post.opened && post.next == pre.next,
        response is PaneCreated || response is Error ==> !post.opened && post.next == pre.next + 1,
        response is Error ==> post.notices@.len() == pre.notices@.len() + 1,
        !(response is Error) ==> post.notices == pre.notices,
{
    assert(pre.dirs.len() == pre.dirs@.len());
    assert(texts(post.notices@).len() == post.notices@.len());
    assert(texts(pre.notices@).len() == pre.notices@.len());
}

/// An agent's settings lie in its own directory: below the home directory, or in the
/// project where that is asked for, whatever the home directory is.
pub proof fn settings_lie_where_asked(agent: Seq<char>, home: Seq<char>)
    ensures
        settings_file(agent, true, None) == Some("."@ + agent + "/settings.json"@),
        settings_file(agent, true, Some(home)) == settings_file(agent, true, None),
        settings_file(agent, false, Some(home)) == Some(
            joined(home, "."@ + agent + "/settings.json"@),
        ),
        settings_file(agent, false, None) is None,
{
}

/// Nothing is written without a yes: an answer consents only where it is one, and
/// silence, a no or anything longer does not.
pub proof fn only_a_yes_consents(answer: Seq<char>)
    ensures
        consents(answer) ==> trimmed(answer).len() == 1 || trimmed(answer).len() == 3,
        consents(answer) ==> trimmed(answer)[0] == 'y' || trimmed(answer)[0] == 'Y',
        trimmed(answer) == seq!['y'] ==> consents(answer),
        trimmed(answer) == seq!['y', 'e', 's'] ==> consents(answer),
        trimmed(answer).len() == 0 ==> !consents(answer),
        trimmed(answer).len() > 0 && (trimmed(answer)[0] == 'n' || trimmed(answer)[0] == 'N')
            ==> !consents(answer),
{
    reveal_strlit("y");
    reveal_strlit("Y");
    reveal_strlit("yes");
    assert("y"@ =~= seq!['y']);
    assert("yes"@ =~= seq!['y', 'e', 's']);
}

} // verus!
