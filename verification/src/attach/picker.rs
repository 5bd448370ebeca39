//! The launcher: what should run here?

use vstd::prelude::*;

use crate::attach::app::{
    asked, no_launch, App, Launch, LaunchState, Mode, Query, Question,
};
use crate::key::{KeyCode, KeyEvent};
use crate::launcher::{
    build_rows, first_selectable, insert_sessions, is_first, is_next, is_previous, launcher_lines,
    next_selectable, prev_selectable, with_sessions, AgentSpec, LaunchKind, LaunchLine, LauncherRow,
    ResumeSession,
};
use crate::model::{find_tab_of_pane, tab_shows, tab_where, PaneId, TabId, WorkspaceId};
use crate::protocol::{ask, control, no_frames, nothing, only, sent, Asked, Request, Sent, WireFrame};
use crate::text::{opt_str, opt_text, texts, trim, trimmed};

verus! {

broadcast use vstd::string::group_string_axioms;

// ---- opening -------------------------------------------------------------

/// The conversations to look for: those about `dir`, where both it and the
/// place they lie in are known.
pub open spec fn sessions_wanted(app: App, dir: Option<Seq<char>>) -> Option<
    (Seq<char>, Seq<char>),
> {
    match dir {
        Some(d) => match app.place.resume_home {
            Some(h) => Some((d, h@)),
            None => None,
        },
        None => None,
    }
}

/// What opening the launcher does: it is shown without rows, and its rows are
/// asked for.
pub open spec fn launcher_opened(
    pre: App,
    post: App,
    launch: LaunchState,
    dir: Option<Seq<char>>,
) -> bool {
    &&& post == (App {
        launch: post.launch,
        query: post.query,
        mode: Mode::Launcher,
        prefix_since: None,
        status: None,
        ..pre
    })
    &&& post.launch@ == launch
    &&& asked(post.query) == Some(Question::Launcher { sessions: sessions_wanted(pre, dir) })
}

/// A launcher that was just opened.
pub open spec fn fresh_launch(after_add: bool, target: Option<Seq<char>>) -> LaunchState {
    LaunchState { after_add, target, ..no_launch() }
}

/// What a pane's exit leaves: the tab it was in.
pub open spec fn tab_of(app: App, pane: PaneId) -> Option<TabId> {
    match tab_where(app.workspaces@, tab_shows(pane)) {
        Some(t) => Some(t.id),
        None => None,
    }
}

impl App {
    /// The tab whose layout shows `pane`.
    pub(crate) fn tab_of_pane(&self, pane: PaneId) -> (r: Option<TabId>)
        ensures
            r == tab_of(*self, pane),
    {
        find_tab_of_pane(&self.workspaces, pane)
    }

    /// Open the launcher. `after_add` tells that it opened for a project that
    /// was just added, `target` names the workspace, and `dir` is its
    /// directory.
    pub fn open_launcher(
        &mut self,
        after_add: bool,
        target: Option<String>,
        dir: Option<&str>,
    )
        ensures
            launcher_opened(
                *old(self),
                *final(self),
                fresh_launch(after_add, opt_text(target)),
                opt_str(dir),
            ),
    {
        let sessions: Option<(String, String)> = match dir {
            Some(d) => match &self.place.resume_home {
                Some(h) => Some((d.to_owned(), h.clone())),
                None => None,
            },
            None => None,
        };
        let ghost want = fresh_launch(after_add, opt_text(target));
        self.launch = Launch {
            rows: Vec::new(),
            selected: 0,
            after_add,
            command: String::new(),
            new_tab: None,
            replace: None,
            target,
        };
        assert(self.launch@ =~= want);
        self.mode = Mode::Launcher;
        self.prefix_since = None;
        self.status = None;
        self.query = Some(Query::Launcher { sessions });
    }

    /// The launcher's rows are known: the agents of the catalogue, which of
    /// them are installed, and the conversations that can be picked up again.
    pub fn on_probe(
        &mut self,
        agents: &Vec<AgentSpec>,
        installed: &Vec<bool>,
        sessions: &Vec<ResumeSession>,
    )
        requires
            agents@.len() == installed@.len(),
        ensures
            *final(self) == (App { launch: final(self).launch, ..*old(self) }),
            final(self).launch@ == (LaunchState {
                rows: with_sessions(
                    launcher_lines(agents@, installed@, old(self).place.shell@),
                    sessions@,
                ),
                selected: final(self).launch.selected,
                ..old(self).launch@
            }),
            is_first(final(self).launch.rows@, final(self).launch.selected as int),
            final(self).well_formed(),
    {
        let base: Vec<LauncherRow> = build_rows(agents, installed, self.place.shell.as_str());
        let rows: Vec<LauncherRow> = insert_sessions(base, sessions.as_slice());
        self.launch.selected = first_selectable(rows.as_slice());
        self.launch.rows = rows;
    }
}

// ---- choosing ------------------------------------------------------------

/// What closing the launcher does.
pub open spec fn launcher_closed(pre: App, post: App) -> bool {
    &&& post == (App { launch: post.launch, mode: Mode::Terminal, status: None, ..pre })
    &&& post.launch@ == (LaunchState { selected: pre.launch.selected, ..no_launch() })
}

/// A pane that runs `cmd` in a tab, or in the current one.
pub open spec fn running(tab: Option<TabId>, cmd: Seq<Seq<char>>) -> Sent {
    Sent::Control(Asked::PaneRun { tab, cmd, ephemeral: false })
}

/// The requests that run `cmd` where the launcher is aimed at: in a tab of its
/// own, in the place of a pane that has exited, or in the current tab.
pub open spec fn run_requests(app: App, cmd: Seq<Seq<char>>) -> Seq<Sent> {
    match app.launch.new_tab {
        Some(workspace) => seq![
            Sent::Control(Asked::TabNew { workspace: Some(workspace) }),
            running(None, cmd),
        ],
        None => match app.launch.replace {
            Some(corpse) if tab_of(app, corpse) is Some => seq![
                running(tab_of(app, corpse), cmd),
                Sent::Control(Asked::PaneKill { pane: corpse }),
            ],
            _ => seq![running(None, cmd)],
        },
    }
}

/// What running `cmd` from the launcher does.
pub open spec fn launched(pre: App, post: App, cmd: Seq<Seq<char>>, out: Seq<Sent>) -> bool {
    launcher_closed(pre, post) && out == run_requests(pre, cmd)
}

/// What choosing the `i`th row does: a row that can be chosen runs what it
/// stands for, or asks for a command; any other choice is ignored.
pub open spec fn row_chosen(pre: App, post: App, i: int, out: Seq<Sent>) -> bool {
    if 0 <= i < pre.launch.rows@.len() && pre.launch.rows@[i].available {
        match pre.launch.rows@[i].kind@ {
            LaunchLine::Agent(cmd) => launched(pre, post, seq![cmd], out),
            LaunchLine::Shell => launched(pre, post, seq![pre.place.shell@], out),
            LaunchLine::Command => {
                &&& post == (App { launch: post.launch, mode: Mode::LauncherCommand, ..pre })
                &&& post.launch@ == (LaunchState { command: Seq::empty(), ..pre.launch@ })
                &&& out == nothing()
            },
            LaunchLine::Resume(cmd) => launched(pre, post, cmd, out),
        }
    } else {
        post == pre && out == nothing()
    }
}

/// What a key does while the launcher is open.
pub open spec fn launcher_key(pre: App, post: App, key: KeyEvent, out: Seq<Sent>) -> bool {
    match key.code {
        KeyCode::Down => launcher_stepped(pre, post, true) && out == nothing(),
        KeyCode::Up => launcher_stepped(pre, post, false) && out == nothing(),
        KeyCode::Char(c) => if c == 'j' {
            launcher_stepped(pre, post, true) && out == nothing()
        } else if c == 'k' {
            launcher_stepped(pre, post, false) && out == nothing()
        } else if '1' <= c <= '9' {
            row_chosen(pre, post, c as int - '1' as int, out)
        } else {
            post == pre && out == nothing()
        },
        KeyCode::Enter => row_chosen(pre, post, pre.launch.selected as int, out),
        KeyCode::Esc => if pre.launch.after_add {
            launched(pre, post, seq![pre.place.shell@], out)
        } else {
            launcher_closed(pre, post) && out == nothing()
        },
        _ => post == pre && out == nothing(),
    }
}

/// What a step of the launcher's selection does.
pub open spec fn launcher_stepped(pre: App, post: App, down: bool) -> bool {
    &&& post == (App {
        launch: Launch { selected: post.launch.selected, ..pre.launch },
        ..pre
    })
    &&& if down {
        is_next(pre.launch.rows@, pre.launch.selected as int, post.launch.selected as int)
    } else {
        is_previous(pre.launch.rows@, pre.launch.selected as int, post.launch.selected as int)
    }
}

/// What a key does while a command is typed in the launcher.
pub open spec fn command_key(pre: App, post: App, key: KeyEvent, out: Seq<Sent>) -> bool {
    let with_command = |command: Seq<char>|
        post == (App { launch: post.launch, ..pre }) && post.launch@ == (LaunchState {
            command,
            ..pre.launch@
        }) && out == nothing();
    match key.code {
        KeyCode::Char(c) => if key.modifiers.control || key.modifiers.alt {
            post == pre && out == nothing()
        } else {
            with_command(pre.launch.command@.push(c))
        },
        KeyCode::Backspace => with_command(dropped(pre.launch.command@)),
        KeyCode::Esc => {
            &&& post == (App { launch: post.launch, mode: Mode::Launcher, ..pre })
            &&& post.launch@ == (LaunchState { command: Seq::empty(), ..pre.launch@ })
            &&& out == nothing()
        },
        KeyCode::Enter => if trimmed(pre.launch.command@).len() == 0 {
            post == pre && out == nothing()
        } else {
            launched(
                pre,
                post,
                seq![pre.place.shell@, "-lc"@, trimmed(pre.launch.command@)],
                out,
            )
        },
        _ => post == pre && out == nothing(),
    }
}

/// `s` without its last character, if it has one.
pub open spec fn dropped(s: Seq<char>) -> Seq<char> {
    if s.len() > 0 {
        s.drop_last()
    } else {
        s
    }
}

impl App {
    /// Close the launcher.
    pub(crate) fn close_launcher(&mut self)
        ensures
            launcher_closed(*old(self), *final(self)),
    {
        let selected: usize = self.launch.selected;
        self.mode = Mode::Terminal;
        self.launch = Launch {
            rows: Vec::new(),
            selected,
            after_add: false,
            command: String::new(),
            new_tab: None,
            replace: None,
            target: None,
        };
        assert(self.launch@ =~= (LaunchState { selected, ..no_launch() }));
        self.status = None;
    }

    /// Close the launcher and run `cmd` where it is aimed at.
    fn launch_frames(&mut self, cmd: Vec<String>) -> (r: Vec<WireFrame>)
        ensures
            launched(*old(self), *final(self), texts(cmd@), sent(r@)),
    {
        let new_tab: Option<WorkspaceId> = self.launch.new_tab;
        let replace: Option<PaneId> = self.launch.replace;
        let ghost line = texts(cmd@);
        let ghost pre = *self;
        self.close_launcher();
        match new_tab {
            Some(workspace) => {
                let mut out: Vec<WireFrame> = ask(Request::TabNew { workspace: Some(workspace) });
                let ghost first = sent(out@);
                out.push(control(Request::PaneRun { tab: None, cmd, ephemeral: false }));
                assert(sent(out@) == first.push(running(None, line)));
                assert(sent(out@) == run_requests(pre, line));
                return out;
            },
            None => {},
        }
        match replace {
            Some(corpse) => match self.tab_of_pane(corpse) {
                Some(tab) => {
                    let mut out: Vec<WireFrame> = ask(
                        Request::PaneRun { tab: Some(tab), cmd, ephemeral: false },
                    );
                    let ghost first = sent(out@);
                    out.push(control(Request::PaneKill { pane: corpse }));
                    assert(sent(out@) == first.push(
                        Sent::Control(Asked::PaneKill { pane: corpse }),
                    ));
                    assert(tab_of(pre, corpse) == Some(tab));
                    assert(sent(out@) == run_requests(pre, line));
                    return out;
                },
                None => {
                    assert(tab_of(pre, corpse) is None);
                },
            },
            None => {},
        }
        ask(Request::PaneRun { tab: None, cmd, ephemeral: false })
    }

    fn launch_one(&mut self, cmd: String) -> (r: Vec<WireFrame>)
        ensures
            launched(*old(self), *final(self), seq![cmd@], sent(r@)),
    {
        let ghost line = cmd@;
        let cmds: Vec<String> = vec![cmd];
        assert(texts(cmds@) == seq![line]);
        self.launch_frames(cmds)
    }

    /// Run the login shell.
    fn launch_shell_and_close(&mut self) -> (r: Vec<WireFrame>)
        ensures
            launched(*old(self), *final(self), seq![old(self).place.shell@], sent(r@)),
    {
        let shell: String = self.place.shell.clone();
        self.launch_one(shell)
    }

    /// Choose the row at `idx`.
    fn launch_index(&mut self, idx: usize) -> (r: Vec<WireFrame>)
        ensures
            row_chosen(*old(self), *final(self), idx as int, sent(r@)),
            old(self).launch.selected <= old(self).launch.rows@.len() ==> final(self).well_formed(),
    {
        if idx >= self.launch.rows.len() || !self.launch.rows[idx].selectable() {
            return no_frames();
        }
        let kind: LaunchKind = self.launch.rows[idx].kind.clone();
        match kind {
            LaunchKind::Agent(cmd) => self.launch_one(cmd),
            LaunchKind::Shell => self.launch_shell_and_close(),
            LaunchKind::Command => {
                let ghost pre = *self;
                self.launch.command = String::new();
                assert(self.launch@ =~= (LaunchState { command: Seq::empty(), ..pre.launch@ }));
                self.mode = Mode::LauncherCommand;
                no_frames()
            },
            LaunchKind::Resume(cmd) => self.launch_frames(cmd),
        }
    }

    /// A key while the launcher is open.
    pub(crate) fn on_key_launcher(&mut self, key: KeyEvent) -> (r: Vec<WireFrame>)
        requires
            old(self).launch.selected <= old(self).launch.rows@.len(),
        ensures
            launcher_key(*old(self), *final(self), key, sent(r@)),
            final(self).well_formed(),
    {
        match key.code {
            KeyCode::Char('j') | KeyCode::Down => {
                self.launch.selected = next_selectable(
                    self.launch.rows.as_slice(),
                    self.launch.selected,
                );
                no_frames()
            },
            KeyCode::Char('k') | KeyCode::Up => {
                self.launch.selected = prev_selectable(
                    self.launch.rows.as_slice(),
                    self.launch.selected,
                );
                no_frames()
            },
            KeyCode::Char(c) => if '1' <= c && c <= '9' {
                let idx: usize = c as u32 as usize - 49;
                self.launch_index(idx)
            } else {
                no_frames()
            },
            KeyCode::Enter => {
                let idx: usize = self.launch.selected;
                self.launch_index(idx)
            },
            KeyCode::Esc => if self.launch.after_add {
                self.launch_shell_and_close()
            } else {
                self.close_launcher();
                no_frames()
            },
            _ => no_frames(),
        }
    }

    /// A key while a command is typed in the launcher.
    pub(crate) fn on_key_launcher_command(&mut self, key: KeyEvent) -> (r: Vec<WireFrame>)
        ensures
            command_key(*old(self), *final(self), key, sent(r@)),
            old(self).launch.selected <= old(self).launch.rows@.len() ==> final(self).well_formed(),
    {
        let ghost pre = *self;
        match key.code {
            KeyCode::Char(c) => {
                if !key.modifiers.control && !key.modifiers.alt {
                    self.launch.command.push(c);
                    assert(self.launch@ =~= (LaunchState {
                        command: pre.launch.command@.push(c),
                        ..pre.launch@
                    }));
                }
                no_frames()
            },
            KeyCode::Backspace => {
                self.launch.command.pop();
                assert(self.launch@ =~= (LaunchState {
                    command: dropped(pre.launch.command@),
                    ..pre.launch@
                }));
                no_frames()
            },
            KeyCode::Esc => {
                self.launch.command = String::new();
                assert(self.launch@ =~= (LaunchState { command: Seq::empty(), ..pre.launch@ }));
                self.mode = Mode::Launcher;
                no_frames()
            },
            KeyCode::Enter => {
                let input: String = trim(self.launch.command.as_str());
                if input.as_str().is_empty() {
                    return no_frames();
                }
                let ghost line = input@;
                let cmd: Vec<String> = vec![self.place.shell.clone(), "-lc".to_owned(), input];
                assert(texts(cmd@) == seq![pre.place.shell@, "-lc"@, line]);
                self.launch_frames(cmd)
            },
            _ => no_frames(),
        }
    }
}

// ---- laws ----------------------------------------------------------------

/// Whatever the launcher is aimed at, choosing a command asks for exactly one
/// pane that runs it; a tab of its own is made before the pane, and a pane that
/// is replaced goes after it.
pub proof fn one_pane_is_run(app: App, cmd: Seq<Seq<char>>)
    ensures
        ({
            let out = run_requests(app, cmd);
            &&& 1 <= out.len() <= 2
            &&& exists|i: int|
                0 <= i < out.len() && (#[trigger] out[i]) == running(
                    if app.launch.new_tab is None && app.launch.replace is Some {
                        tab_of(app, app.launch.replace->0)
                    } else {
                        None
                    },
                    cmd,
                )
            &&& app.launch.new_tab is Some ==> out[0] == Sent::Control(
                Asked::TabNew { workspace: app.launch.new_tab },
            )
        }),
{
    let out = run_requests(app, cmd);
    if app.launch.new_tab is Some {
        assert(out[1] == running(None, cmd));
    } else {
        assert(out[0] is Control);
    }
}

/// What is not installed never runs: choosing a row that cannot be chosen, by its
/// number or otherwise, changes nothing and sends nothing.
pub proof fn absent_agents_never_run(pre: App, post: App, i: int, out: Seq<Sent>)
    requires
        row_chosen(pre, post, i, out),
        !(0 <= i < pre.launch.rows@.len() && pre.launch.rows@[i].available),
    ensures
        post == pre,
        out == nothing(),
{
}

/// The launcher's selection never steps onto a row that cannot be chosen.
pub proof fn selections_stay_available(pre: App, post: App, down: bool)
    requires
        launcher_stepped(pre, post, down),
        pre.launch.selected < pre.launch.rows@.len(),
        pre.launch.rows@[pre.launch.selected as int].available,
    ensures
        post.launch.selected < post.launch.rows@.len(),
        post.launch.rows@[post.launch.selected as int].available,
{
}

/// In the launcher, down and `j` go down and never up, up and `k` up and never down,
/// to the nearest row that can be chosen; nothing is sent.
pub proof fn the_selection_goes_the_right_way(pre: App, post: App, key: KeyEvent, out: Seq<Sent>)
    requires
        launcher_key(pre, post, key, out),
        pre.launch.selected < pre.launch.rows@.len(),
    ensures
        key.code == KeyCode::Down || key.code == KeyCode::Char('j') ==> {
            &&& post.launch.selected >= pre.launch.selected && out == nothing()
            &&& forall|i: int|
                pre.launch.selected < i < pre.launch.rows@.len() && (
                #[trigger] pre.launch.rows@[i]).available ==> pre.launch.selected
                    < post.launch.selected <= i
        },
        key.code == KeyCode::Up || key.code == KeyCode::Char('k') ==> {
            &&& post.launch.selected <= pre.launch.selected && out == nothing()
            &&& forall|i: int|
                0 <= i < pre.launch.selected && (#[trigger] pre.launch.rows@[i]).available ==> i
                    <= post.launch.selected < pre.launch.selected
        },
{
}

/// A digit chooses the row with that number, counted from 1, and Enter the row that
/// is selected: an agent's row runs the agent, a conversation's picks it up again
/// with its own command, the shell's runs the shell, and the last asks what to run.
pub proof fn choices_run_their_row(pre: App, post: App, key: KeyEvent, i: int, out: Seq<Sent>)
    requires
        launcher_key(pre, post, key, out),
        0 <= i < pre.launch.rows@.len(),
        pre.launch.rows@[i].available,
        (key.code == KeyCode::Enter && pre.launch.selected == i) || (key.code matches KeyCode::Char(c)
            && i < 9 && c as int == 49 + i),
        pre.launch.new_tab is None,
        pre.launch.replace is None,
    ensures
        match pre.launch.rows@[i].kind@ {
            LaunchLine::Agent(cmd) => post.mode == Mode::Terminal && out == only(
                Asked::PaneRun { tab: None, cmd: seq![cmd], ephemeral: false },
            ),
            LaunchLine::Shell => post.mode == Mode::Terminal && out == only(
                Asked::PaneRun { tab: None, cmd: seq![pre.place.shell@], ephemeral: false },
            ),
            LaunchLine::Command => post.mode == Mode::LauncherCommand && out == nothing(),
            LaunchLine::Resume(cmd) => post.mode == Mode::Terminal && out == only(
                Asked::PaneRun { tab: None, cmd, ephemeral: false },
            ),
        },
{
}

/// What is typed as a command runs in the login shell, without the white space around
/// it, and only where something was typed; each character is added at the end, and
/// Backspace takes the last away.
pub proof fn typed_commands_run_in_the_shell(
    pre: App,
    post: App,
    key: KeyEvent,
    out: Seq<Sent>,
)
    requires
        command_key(pre, post, key, out),
        pre.launch.new_tab is None,
        pre.launch.replace is None,
    ensures
        key.code == KeyCode::Enter && trimmed(pre.launch.command@).len() > 0 ==> out.len() == 1
            && (out[0] matches Sent::Control(Asked::PaneRun { tab, cmd, ephemeral }) && tab is None
            && !ephemeral && cmd.len() == 3 && cmd[0] == pre.place.shell@ && cmd[1] == "-lc"@
            && cmd[2] == trimmed(pre.launch.command@)) && post.mode == Mode::Terminal,
        key.code == KeyCode::Enter && trimmed(pre.launch.command@).len() == 0 ==> post == pre && out
            == nothing(),
        key.code matches KeyCode::Char(c) ==> (!key.modifiers.control && !key.modifiers.alt
            ==> post.launch@.command == pre.launch@.command.push(c) && out == nothing()),
        key.code == KeyCode::Backspace && pre.launch@.command.len() > 0 ==> post.launch@.command
            == pre.launch@.command.drop_last(),
{
}

} // verus!
