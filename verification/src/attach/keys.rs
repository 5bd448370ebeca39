//! Keys: to the focused pane, behind the prefix, in the scrollback.

use vstd::prelude::*;

use crate::attach::app::{says, App, LaunchState, Mode, SIDEBAR_MIN_TOTAL};
use crate::attach::frames::{answered, received};
use crate::attach::geometry::{
    focus_rect, inner_of, moved, next_in, reachable, rect_of, FocusDir,
};
use crate::attach::nav::{
    kill_questioned, offset_of, resize_asked, scroll_entered, scroll_left, scroll_moved,
    split_asked, switched, tab_asked,
};
use crate::attach::panel::{
    agent_kill_key, cleanup_key, merge_key, owner_of, pane_kill_key, sidebar_entered, sidebar_key,
    workspace_kill_key, yes,
};
use crate::attach::picker::{command_key, fresh_launch, launcher_key, launcher_opened, tab_of};
use crate::attach::prompt::{dest_key, name_key, project_key, project_prompted};
use crate::config::{
    binding_lines, bound_action, detach_stays_reachable, first_action, keymap, Action,
    PrefixAction, Preset, RESIZE_DELTA,
};
use crate::input::{encode_key, key_bytes};
use crate::key::{key_label, label_of, KeyCode, KeyEvent};
use crate::layout::Rect;
use crate::model::{find_from, find_owner, tabs_of, Direction, PaneId, TabId, WorkspaceId};
use crate::protocol::{
    ask, no_frames, nothing, only, sent, typed, Asked, Request, Response, Sent, ServerFrame,
    WireFrame,
};
use crate::text::glue;

verus! {

broadcast use {vstd::string::group_string_axioms, vstd::std_specs::hash::group_hash_axioms};

// ---- direct bindings -----------------------------------------------------

/// Whether a pane lies in that direction of the focused one.
pub open spec fn can_move(app: App, dir: FocusDir) -> bool {
    focus_rect(app) is Some && exists|i: int|
        #[trigger] reachable(app.rects@, app.focused->0, focus_rect(app)->0, dir, i)
}

/// What a move of the focus does, with nothing beyond the edge.
pub open spec fn focus_moved(pre: App, post: App, dir: FocusDir) -> bool {
    moved(pre, post, dir, can_move(pre, dir))
}

/// What a move of the focus does, with the sidebar and the other tabs beyond
/// the edges.
pub open spec fn focus_or_tabbed(pre: App, post: App, dir: FocusDir, out: Seq<Sent>) -> bool {
    if can_move(pre, dir) {
        moved(pre, post, dir, true) && out == nothing()
    } else {
        match dir {
            FocusDir::Left => if pre.sidebar_rect is Some {
                sidebar_entered(pre, post) && out == nothing()
            } else {
                switched(pre, post, false, out)
            },
            FocusDir::Right => switched(pre, post, true, out),
            FocusDir::Up | FocusDir::Down => post == pre && out == nothing(),
        }
    }
}

/// What the action of a direct binding does.
pub open spec fn acted(pre: App, post: App, action: Action, out: Seq<Sent>) -> bool {
    match action {
        Action::FocusLeft => focus_or_tabbed(pre, post, FocusDir::Left, out),
        Action::FocusRight => focus_or_tabbed(pre, post, FocusDir::Right, out),
        Action::FocusUp => focus_moved(pre, post, FocusDir::Up) && out == nothing(),
        Action::FocusDown => focus_moved(pre, post, FocusDir::Down) && out == nothing(),
        Action::ResizeLeft => resize_asked(
            pre,
            post,
            Direction::Horizontal,
            (0 - RESIZE_DELTA) as i32,
            out,
        ),
        Action::ResizeRight => resize_asked(pre, post, Direction::Horizontal, RESIZE_DELTA, out),
        Action::ResizeUp => resize_asked(
            pre,
            post,
            Direction::Vertical,
            (0 - RESIZE_DELTA) as i32,
            out,
        ),
        Action::ResizeDown => resize_asked(pre, post, Direction::Vertical, RESIZE_DELTA, out),
        Action::KillPane => kill_questioned(pre, post, out),
    }
}

// ---- the terminal --------------------------------------------------------

/// Whether the focused pane's program has exited.
pub open spec fn focus_exited(app: App) -> bool {
    match app.focused {
        Some(pane) => app.panes@.contains_key(pane.0) && app.panes@[pane.0].info.exited is Some,
        None => false,
    }
}

/// What starting something else in the place of an exited pane does.
pub open spec fn relaunched(pre: App, post: App, pane: PaneId) -> bool {
    match tab_of(pre, pane) {
        Some(tab) => match owner_of(pre, tab) {
            Some(w) => launcher_opened(
                pre,
                post,
                LaunchState { replace: Some(pane), ..fresh_launch(false, Some(w.name@)) },
                Some(w.dir@),
            ),
            None => post == pre,
        },
        None => post == pre,
    }
}

/// What sending a key to the focused pane sends.
pub open spec fn forwarded(app: App, key: KeyEvent) -> Seq<Sent> {
    match app.focused {
        Some(pane) => match key_bytes(key) {
            Some(bytes) => seq![Sent::Input { pane, bytes }],
            None => nothing(),
        },
        None => nothing(),
    }
}

/// What a key does that is meant for the focused pane: the prefix waits for
/// another, a direct binding is performed, a pane that has exited is replaced
/// or closed, and everything else goes to the pane's program.
pub open spec fn terminal_key(pre: App, post: App, key: KeyEvent, out: Seq<Sent>) -> bool {
    let action = first_action(pre.config.keys.bindings@, key);
    let plain = key.modifiers.none_held();
    if pre.config.prefix.is_pressed(key) {
        &&& post == (App { mode: Mode::Prefix, prefix_since: Some(pre.clock.now), ..pre })
        &&& out == nothing()
    } else if action is Some {
        acted(pre, post, action->0, out)
    } else if plain && focus_exited(pre) && key.code == KeyCode::Char('r') {
        relaunched(pre, post, pre.focused->0) && out == nothing()
    } else if plain && focus_exited(pre) && key.code == KeyCode::Char('x') {
        post == pre && out == only(Asked::PaneKill { pane: pre.focused->0 })
    } else if plain && pre.focused is None && key.code == KeyCode::Char('a') {
        project_prompted(App { mode: Mode::Sidebar, ..pre }, post) && out == nothing()
    } else {
        post == pre && out == forwarded(pre, key)
    }
}

// ---- the prefix ----------------------------------------------------------

/// What opening the launcher over the active workspace does.
pub open spec fn run_opened(pre: App, post: App) -> bool {
    match pre.owner() {
        Some(w) => launcher_opened(pre, post, fresh_launch(false, Some(w.name@)), Some(w.dir@)),
        None => launcher_opened(pre, post, fresh_launch(false, None), None),
    }
}

/// What turning mouse capture on or off does.
pub open spec fn mouse_toggled(pre: App, post: App) -> bool {
    &&& post == (App { mouse_capture: !pre.mouse_capture, status: post.status, ..pre })
    &&& says(
        post.status,
        if post.mouse_capture {
            "mouse on"@
        } else {
            "mouse off — select/copy with the terminal"@
        },
        pre.clock.now,
    )
}

/// What the action of a key behind the prefix does.
pub open spec fn prefixed(pre: App, post: App, action: PrefixAction, out: Seq<Sent>) -> bool {
    match action {
        PrefixAction::SplitRight => split_asked(pre, post, Direction::Horizontal, out),
        PrefixAction::SplitDown => split_asked(pre, post, Direction::Vertical, out),
        PrefixAction::FocusLeft => focus_moved(pre, post, FocusDir::Left) && out == nothing(),
        PrefixAction::FocusDown => focus_moved(pre, post, FocusDir::Down) && out == nothing(),
        PrefixAction::FocusUp => focus_moved(pre, post, FocusDir::Up) && out == nothing(),
        PrefixAction::FocusRight => focus_moved(pre, post, FocusDir::Right) && out == nothing(),
        PrefixAction::FocusCycle => {
            &&& out == nothing()
            &&& if pre.tab_panes().len() > 0 {
                post == (App {
                    focused: Some(pre.tab_panes()[next_in(pre.tab_panes(), pre.focused)]),
                    ..pre
                })
            } else {
                post == pre
            }
        },
        PrefixAction::KillPane => kill_questioned(pre, post, out),
        PrefixAction::Zoom => {
            post == (App {
                zoom: if pre.focused is Some {
                    !pre.zoom
                } else {
                    pre.zoom
                },
                ..pre
            }) && out == nothing()
        },
        PrefixAction::Scrollback => scroll_entered(pre, post, out),
        PrefixAction::TabNext => switched(pre, post, true, out),
        PrefixAction::TabPrev => switched(pre, post, false, out),
        PrefixAction::TabNew => tab_asked(pre, post, out),
        PrefixAction::Sidebar => sidebar_entered(pre, post) && out == nothing(),
        PrefixAction::Run => run_opened(pre, post) && out == nothing(),
        PrefixAction::MouseToggle => mouse_toggled(pre, post) && out == nothing(),
        PrefixAction::Detach => {
            post == (App { should_quit: true, ..pre }) && out == only(Asked::Detach)
        },
        PrefixAction::Help => post == (App { mode: Mode::Help, ..pre }) && out == nothing(),
    }
}

/// What the key behind the prefix does: Esc leaves, the prefix again goes to
/// the pane, a bound key is performed, and any other is told of.
pub open spec fn prefix_key(pre: App, post: App, key: KeyEvent, out: Seq<Sent>) -> bool {
    let left = App { mode: Mode::Terminal, prefix_since: None, status: None, ..pre };
    if key.code == KeyCode::Esc {
        post == left && out == nothing()
    } else if pre.config.prefix.is_pressed(key) {
        post == left && out == forwarded(pre, key)
    } else {
        match bound_action(binding_lines(pre.config.prefix_bindings@), key.code) {
            Some(action) => prefixed(left, post, action, out),
            None => {
                &&& post == (App { status: post.status, ..left })
                &&& says(
                    post.status,
                    "unknown prefix key: "@ + label_of(key.code),
                    pre.clock.now,
                )
                &&& out == nothing()
            },
        }
    }
}

// ---- the scrollback ------------------------------------------------------

/// How many lines a page of a pane has.
pub open spec fn page_of(app: App, pane: PaneId) -> int {
    match rect_of(app.rects@, pane) {
        Some(rect) => inner_of(rect).0 as int,
        None => 1,
    }
}

/// `n` lines further back, or forth, from `from`; not beyond the newest line.
pub open spec fn scrolled_by(from: usize, n: int) -> usize {
    if from + n < 0 {
        0
    } else if from + n > usize::MAX {
        usize::MAX
    } else {
        (from + n) as usize
    }
}

/// What a key does while a scrollback is browsed.
pub open spec fn scroll_key(
    pre: App,
    post: App,
    key: KeyEvent,
    pane: PaneId,
    out: Seq<Sent>,
) -> bool {
    let at = offset_of(pre, pane);
    let page = page_of(pre, pane);
    if key.code == KeyCode::Up {
        scroll_moved(pre, post, pane, scrolled_by(at, 1), out)
    } else if key.code == KeyCode::Down {
        scroll_moved(pre, post, pane, scrolled_by(at, -1), out)
    } else if key.code == KeyCode::PageUp {
        scroll_moved(pre, post, pane, scrolled_by(at, page), out)
    } else if key.code == KeyCode::PageDown {
        scroll_moved(pre, post, pane, scrolled_by(at, -page), out)
    } else if key.code == KeyCode::Char('q') || key.code == KeyCode::Esc {
        scroll_left(pre, post, pane, out)
    } else {
        post == pre && out == nothing()
    }
}

// ---- every key -----------------------------------------------------------

/// What a key does.
pub open spec fn pressed(pre: App, post: App, key: KeyEvent, out: Seq<Sent>) -> bool {
    match pre.mode {
        Mode::Terminal => terminal_key(pre, post, key, out),
        Mode::Prefix => prefix_key(pre, post, key, out),
        Mode::ConfirmKill(pane) => pane_kill_key(pre, post, key, pane, out),
        Mode::ConfirmKillWorkspace(id) => workspace_kill_key(pre, post, key, id, out),
        Mode::ConfirmKillAgent(pane) => agent_kill_key(pre, post, key, pane, out),
        Mode::ConfirmMerge(id) => merge_key(pre, post, key, id, out),
        Mode::ConfirmCleanup(id) => cleanup_key(pre, post, key, id, out),
        Mode::Scroll(pane) => scroll_key(pre, post, key, pane, out),
        Mode::Sidebar => sidebar_key(pre, post, key, out),
        Mode::SidebarPrompt => project_key(pre, post, key) && out == nothing(),
        Mode::SidebarWorkspaceName => name_key(pre, post, key) && out == nothing(),
        Mode::SidebarWorkspaceDest => dest_key(pre, post, key, out),
        Mode::Launcher => launcher_key(pre, post, key, out),
        Mode::LauncherCommand => command_key(pre, post, key, out),
        Mode::Help => post == (App { mode: Mode::Terminal, ..pre }) && out == nothing(),
    }
}

impl App {
    fn shift_focus(&mut self, dir: FocusDir) -> (r: bool)
        ensures
            focus_moved(*old(self), *final(self), dir),
            r == can_move(*old(self), dir),
    {
        let ghost pre = *self;
        let r: bool = self.move_focus(dir);
        proof {
            if r {
                let i = choose|i: int|
                    #[trigger] crate::attach::geometry::nearest(
                        pre.rects@,
                        pre.focused->0,
                        focus_rect(pre)->0,
                        dir,
                        i,
                    ) && *self == (App { focused: Some(pre.rects@[i].0), ..pre });
                assert(reachable(pre.rects@, pre.focused->0, focus_rect(pre)->0, dir, i));
            }
        }
        r
    }

    fn focus_or_tab(&mut self, dir: FocusDir) -> (r: Vec<WireFrame>)
        ensures
            focus_or_tabbed(*old(self), *final(self), dir, sent(r@)),
    {
        if self.shift_focus(dir) {
            return no_frames();
        }
        match dir {
            FocusDir::Left => {
                if self.sidebar_rect.is_some() {
                    self.focus_sidebar();
                    no_frames()
                } else {
                    self.switch_tab(false)
                }
            },
            FocusDir::Right => self.switch_tab(true),
            FocusDir::Up | FocusDir::Down => no_frames(),
        }
    }

    fn direct_action(&mut self, action: Action) -> (r: Vec<WireFrame>)
        ensures
            acted(*old(self), *final(self), action, sent(r@)),
            old(self).well_formed() ==> final(self).well_formed(),
    {
        match action {
            Action::FocusLeft => self.focus_or_tab(FocusDir::Left),
            Action::FocusRight => self.focus_or_tab(FocusDir::Right),
            Action::FocusUp => {
                self.shift_focus(FocusDir::Up);
                no_frames()
            },
            Action::FocusDown => {
                self.shift_focus(FocusDir::Down);
                no_frames()
            },
            Action::ResizeLeft => self.resize_split(Direction::Horizontal, -RESIZE_DELTA),
            Action::ResizeRight => self.resize_split(Direction::Horizontal, RESIZE_DELTA),
            Action::ResizeUp => self.resize_split(Direction::Vertical, -RESIZE_DELTA),
            Action::ResizeDown => self.resize_split(Direction::Vertical, RESIZE_DELTA),
            Action::KillPane => self.request_kill(),
        }
    }

    fn relaunch_exited(&mut self, pane: PaneId)
        ensures
            relaunched(*old(self), *final(self), pane),
            old(self).well_formed() ==> final(self).well_formed(),
    {
        let tab: TabId = match self.tab_of_pane(pane) {
            Some(tab) => tab,
            None => {
                return;
            },
        };
        match find_owner(&self.workspaces, tab) {
            Some(i) => {
                let name: String = self.workspaces[i].name.clone();
                let dir: String = self.workspaces[i].dir.clone();
                self.open_launcher(false, Some(name), Some(dir.as_str()));
                let ghost fresh = self.launch@;
                self.launch.replace = Some(pane);
                assert(self.launch@ =~= (LaunchState { replace: Some(pane), ..fresh }));
            },
            None => {},
        }
    }

    fn forward(&self, key: KeyEvent) -> (r: Vec<WireFrame>)
        ensures
            sent(r@) == forwarded(*self, key),
    {
        match self.focused {
            Some(pane) => match encode_key(key) {
                Some(bytes) => typed(pane, bytes),
                None => no_frames(),
            },
            None => no_frames(),
        }
    }

    fn on_key_terminal(&mut self, key: KeyEvent) -> (r: Vec<WireFrame>)
        ensures
            terminal_key(*old(self), *final(self), key, sent(r@)),
            old(self).well_formed() ==> final(self).well_formed(),
    {
        if self.config.prefix.matches(key) {
            self.mode = Mode::Prefix;
            self.prefix_since = Some(self.clock.now);
            return no_frames();
        }
        match self.config.keys.action_for(key) {
            Some(action) => {
                return self.direct_action(action);
            },
            None => {},
        }
        if key.modifiers.is_empty() {
            match self.focused {
                Some(pane) => {
                    let exited: bool = match self.panes.get(&pane.0) {
                        Some(state) => state.info.exited.is_some(),
                        None => false,
                    };
                    if exited {
                        match key.code {
                            KeyCode::Char('r') => {
                                self.relaunch_exited(pane);
                                return no_frames();
                            },
                            KeyCode::Char('x') => {
                                return ask(Request::PaneKill { pane });
                            },
                            _ => {},
                        }
                    }
                },
                None => {
                    if matches!(key.code, KeyCode::Char('a')) {
                        self.mode = Mode::Sidebar;
                        self.open_project_prompt();
                        return no_frames();
                    }
                },
            }
        }
        self.forward(key)
    }

    fn open_run(&mut self)
        ensures
            run_opened(*old(self), *final(self)),
    {
        let mut name: Option<String> = None;
        let mut dir: Option<String> = None;
        match self.active_workspace() {
            Some(w) => {
                name = Some(w.name.clone());
                dir = Some(w.dir.clone());
            },
            None => {},
        }
        match dir {
            Some(d) => self.open_launcher(false, name, Some(d.as_str())),
            None => self.open_launcher(false, name, None),
        }
    }

    fn toggle_mouse(&mut self)
        ensures
            mouse_toggled(*old(self), *final(self)),
    {
        self.mouse_capture = !self.mouse_capture;
        if self.mouse_capture {
            self.set_status("mouse on".to_owned());
        } else {
            self.set_status("mouse off — select/copy with the terminal".to_owned());
        }
    }

    /// Perform the action of a key behind the prefix, returning what is to be sent.
    pub fn prefix_action(&mut self, action: PrefixAction) -> (r: Vec<WireFrame>)
        ensures
            prefixed(*old(self), *final(self), action, sent(r@)),
            old(self).well_formed() ==> final(self).well_formed(),
    {
        match action {
            PrefixAction::SplitRight => self.split(Direction::Horizontal),
            PrefixAction::SplitDown => self.split(Direction::Vertical),
            PrefixAction::FocusLeft => {
                self.shift_focus(FocusDir::Left);
                no_frames()
            },
            PrefixAction::FocusDown => {
                self.shift_focus(FocusDir::Down);
                no_frames()
            },
            PrefixAction::FocusUp => {
                self.shift_focus(FocusDir::Up);
                no_frames()
            },
            PrefixAction::FocusRight => {
                self.shift_focus(FocusDir::Right);
                no_frames()
            },
            PrefixAction::FocusCycle => {
                self.focus_cycle();
                no_frames()
            },
            PrefixAction::KillPane => self.request_kill(),
            PrefixAction::Zoom => {
                if self.focused.is_some() {
                    self.zoom = !self.zoom;
                }
                no_frames()
            },
            PrefixAction::Scrollback => self.enter_scroll(),
            PrefixAction::TabNext => self.switch_tab(true),
            PrefixAction::TabPrev => self.switch_tab(false),
            PrefixAction::TabNew => self.new_tab(),
            PrefixAction::Sidebar => {
                self.focus_sidebar();
                no_frames()
            },
            PrefixAction::Run => {
                self.open_run();
                no_frames()
            },
            PrefixAction::MouseToggle => {
                self.toggle_mouse();
                no_frames()
            },
            PrefixAction::Detach => self.detach(),
            PrefixAction::Help => {
                self.mode = Mode::Help;
                no_frames()
            },
        }
    }

    fn on_key_prefix(&mut self, key: KeyEvent) -> (r: Vec<WireFrame>)
        ensures
            prefix_key(*old(self), *final(self), key, sent(r@)),
            old(self).well_formed() ==> final(self).well_formed(),
    {
        self.mode = Mode::Terminal;
        self.prefix_since = None;
        self.status = None;
        if matches!(key.code, KeyCode::Esc) {
            return no_frames();
        }
        if self.config.prefix.matches(key) {
            return self.forward(key);
        }
        match self.config.prefix_action(key.code) {
            Some(action) => self.prefix_action(action),
            None => {
                let label: String = key_label(key.code);
                self.set_status(glue("unknown prefix key: ", label.as_str()));
                no_frames()
            },
        }
    }

    fn on_key_scroll(&mut self, key: KeyEvent, pane: PaneId) -> (r: Vec<WireFrame>)
        ensures
            scroll_key(*old(self), *final(self), key, pane, sent(r@)),
            old(self).well_formed() ==> final(self).well_formed(),
    {
        let rows: u16 = self.inner_rows(pane);
        let page: usize = if rows > 1 {
            rows as usize
        } else {
            1
        };
        let current: usize = self.scroll_offset(pane);
        match key.code {
            KeyCode::Up => self.scroll_to(pane, current.saturating_add(1)),
            KeyCode::Down => self.scroll_to(pane, current.saturating_sub(1)),
            KeyCode::PageUp => self.scroll_to(pane, current.saturating_add(page)),
            KeyCode::PageDown => self.scroll_to(pane, current.saturating_sub(page)),
            KeyCode::Char('q') | KeyCode::Esc => self.exit_scroll(pane),
            _ => no_frames(),
        }
    }

    /// Handle a key, returning what is to be sent to the server.
    pub fn on_key(&mut self, key: KeyEvent) -> (r: Vec<WireFrame>)
        requires
            old(self).well_formed(),
        ensures
            pressed(*old(self), *final(self), key, sent(r@)),
            final(self).well_formed(),
    {
        match self.mode {
            Mode::Terminal => self.on_key_terminal(key),
            Mode::Prefix => self.on_key_prefix(key),
            Mode::ConfirmKill(pane) => self.on_key_confirm(key, pane),
            Mode::ConfirmKillWorkspace(id) => self.on_key_confirm_workspace(key, id),
            Mode::ConfirmKillAgent(pane) => self.on_key_confirm_agent(key, pane),
            Mode::ConfirmMerge(id) => self.on_key_confirm_merge(key, id),
            Mode::ConfirmCleanup(id) => self.on_key_confirm_cleanup(key, id),
            Mode::Scroll(pane) => self.on_key_scroll(key, pane),
            Mode::Sidebar => self.on_key_sidebar(key),
            Mode::SidebarPrompt => self.on_key_prompt(key),
            Mode::SidebarWorkspaceName => self.on_key_workspace_name(key),
            Mode::SidebarWorkspaceDest => self.on_key_workspace_dest(key),
            Mode::Launcher => self.on_key_launcher(key),
            Mode::LauncherCommand => self.on_key_launcher_command(key),
            Mode::Help => {
                self.mode = Mode::Terminal;
                no_frames()
            },
        }
    }
}

// ---- laws ----------------------------------------------------------------

/// Any key closes the help and does nothing else.
pub proof fn help_closes_on_any_key(pre: App, post: App, key: KeyEvent, out: Seq<Sent>)
    requires
        pre.mode == Mode::Help,
        pressed(pre, post, key, out),
    ensures
        post == (App { mode: Mode::Terminal, ..pre }),
        out == nothing(),
{
}

/// The prefix pressed twice goes to the focused pane, once.
pub proof fn the_prefix_twice_reaches_the_pane(
    pre: App,
    mid: App,
    post: App,
    key: KeyEvent,
    first: Seq<Sent>,
    second: Seq<Sent>,
)
    requires
        pre.mode == Mode::Terminal,
        pre.config.prefix.is_pressed(key),
        key.code != KeyCode::Esc,
        pressed(pre, mid, key, first),
        pressed(mid, post, key, second),
    ensures
        first == nothing(),
        second == forwarded(pre, key),
        post == (App { prefix_since: None, status: None, ..pre }),
{
}

/// With either keymap, `d` behind the prefix detaches, unless it is the prefix
/// itself.
pub proof fn detaching_takes_two_keys(
    pre: App,
    mid: App,
    post: App,
    preset: Preset,
    prefix: KeyEvent,
    key: KeyEvent,
    first: Seq<Sent>,
    second: Seq<Sent>,
)
    requires
        pre.mode == Mode::Terminal,
        pre.config.prefix.is_pressed(prefix),
        binding_lines(pre.config.prefix_bindings@) == keymap(preset),
        key.code == KeyCode::Char('d'),
        !pre.config.prefix.is_pressed(key),
        pressed(pre, mid, prefix, first),
        pressed(mid, post, key, second),
    ensures
        post.should_quit,
        first + second == only(Asked::Detach),
{
    detach_stays_reachable();
    assert(first + second == second);
}

/// A key that nothing is bound to goes to the focused pane's program and
/// changes nothing.
pub proof fn unbound_keys_reach_the_pane(pre: App, post: App, key: KeyEvent, out: Seq<Sent>)
    requires
        pre.mode == Mode::Terminal,
        pre.focused is Some,
        !focus_exited(pre),
        !pre.config.prefix.is_pressed(key),
        first_action(pre.config.keys.bindings@, key) is None,
        pressed(pre, post, key, out),
    ensures
        post == pre,
        out == forwarded(pre, key),
{
}

/// A pane is killed only after a yes, and it is the one that was focused when
/// the question was asked.
pub proof fn panes_are_killed_after_a_yes(
    pre: App,
    mid: App,
    post: App,
    key: KeyEvent,
    first: Seq<Sent>,
    second: Seq<Sent>,
)
    requires
        pre.focused is Some,
        kill_questioned(pre, mid, first),
        pressed(mid, post, key, second),
    ensures
        first == nothing(),
        second == (if yes(key) {
            only(Asked::PaneKill { pane: pre.focused->0 })
        } else {
            nothing()
        }),
        post.panes == pre.panes,
{
}

/// Whether a key in a mode may kill what `sent` kills: the pane that was asked
/// about, on a yes; the workspace that was asked about, with its checkout on `D`
/// or after a merge; the focused pane, whose program has exited; and the pane
/// that something else takes the place of.
pub open spec fn kill_granted(app: App, key: KeyEvent, sent: Sent) -> bool {
    match sent {
        Sent::Control(Asked::PaneKill { pane }) => match app.mode {
            Mode::ConfirmKill(p) => p == pane && yes(key),
            Mode::ConfirmKillAgent(p) => p == pane && yes(key),
            Mode::Terminal => app.focused == Some(pane) && focus_exited(app),
            Mode::Launcher | Mode::LauncherCommand => app.launch.replace == Some(pane),
            _ => false,
        },
        Sent::Control(Asked::WorkspaceKill { id, discard }) => match app.mode {
            Mode::ConfirmKillWorkspace(w) => w == id && (if discard {
                key.code == KeyCode::Char('D')
            } else {
                yes(key)
            }),
            Mode::ConfirmCleanup(w) => w == id && discard && yes(key),
            _ => false,
        },
        _ => true,
    }
}

proof fn terminal_kills_are_granted(pre: App, post: App, key: KeyEvent, out: Seq<Sent>)
    requires
        pre.mode == Mode::Terminal,
        terminal_key(pre, post, key, out),
    ensures
        forall|i: int| 0 <= i < out.len() ==> kill_granted(pre, key, #[trigger] out[i]),
{
}

proof fn prefix_kills_are_granted(pre: App, post: App, key: KeyEvent, out: Seq<Sent>)
    requires
        pre.mode == Mode::Prefix,
        prefix_key(pre, post, key, out),
    ensures
        forall|i: int| 0 <= i < out.len() ==> kill_granted(pre, key, #[trigger] out[i]),
{
}

proof fn sidebar_kills_are_granted(pre: App, post: App, key: KeyEvent, out: Seq<Sent>)
    requires
        pre.mode == Mode::Sidebar,
        sidebar_key(pre, post, key, out),
    ensures
        forall|i: int| 0 <= i < out.len() ==> kill_granted(pre, key, #[trigger] out[i]),
{
}

proof fn prompt_kills_are_granted(pre: App, post: App, key: KeyEvent, out: Seq<Sent>)
    requires
        pre.mode == Mode::SidebarPrompt || pre.mode == Mode::SidebarWorkspaceName || pre.mode
            == Mode::SidebarWorkspaceDest,
        pressed(pre, post, key, out),
    ensures
        forall|i: int| 0 <= i < out.len() ==> kill_granted(pre, key, #[trigger] out[i]),
{
}

proof fn launcher_kills_are_granted(pre: App, post: App, key: KeyEvent, out: Seq<Sent>)
    requires
        pre.mode == Mode::Launcher || pre.mode == Mode::LauncherCommand,
        pressed(pre, post, key, out),
    ensures
        forall|i: int| 0 <= i < out.len() ==> kill_granted(pre, key, #[trigger] out[i]),
{
}

/// No key kills anything unasked, in any mode: what it kills is what the question
/// that it answers was about, or a pane whose program has exited.
pub proof fn nothing_is_killed_unasked(pre: App, post: App, key: KeyEvent, out: Seq<Sent>)
    requires
        pressed(pre, post, key, out),
    ensures
        forall|i: int| 0 <= i < out.len() ==> kill_granted(pre, key, #[trigger] out[i]),
{
    match pre.mode {
        Mode::Terminal => terminal_kills_are_granted(pre, post, key, out),
        Mode::Prefix => prefix_kills_are_granted(pre, post, key, out),
        Mode::Sidebar => sidebar_kills_are_granted(pre, post, key, out),
        Mode::SidebarPrompt | Mode::SidebarWorkspaceName | Mode::SidebarWorkspaceDest => {
            prompt_kills_are_granted(pre, post, key, out);
        },
        Mode::Launcher | Mode::LauncherCommand => launcher_kills_are_granted(pre, post, key, out),
        _ => {},
    }
}

/// Esc, which no chord is, goes back: it leaves the prefix, the help, the sidebar,
/// a question and the launcher without sending anything, except that a project
/// that was just added gets its shell.
pub proof fn esc_goes_back(pre: App, post: App, key: KeyEvent, out: Seq<Sent>)
    requires
        key.code == KeyCode::Esc,
        first_action(pre.config.keys.bindings@, key) is None,
        pressed(pre, post, key, out),
    ensures
        match pre.mode {
            Mode::Prefix | Mode::Help | Mode::Sidebar | Mode::ConfirmKill(_) => {
                post.mode == Mode::Terminal && out == nothing()
            },
            Mode::ConfirmKillWorkspace(_) | Mode::ConfirmKillAgent(_) | Mode::ConfirmMerge(_)
            | Mode::ConfirmCleanup(_) => post.mode == Mode::Sidebar && out == nothing(),
            Mode::Launcher => post.mode == Mode::Terminal && (!pre.launch.after_add ==> out
                == nothing()),
            Mode::LauncherCommand => post.mode == Mode::Launcher && out == nothing(),
            Mode::SidebarWorkspaceDest => post.mode == Mode::SidebarWorkspaceName && out
                == nothing(),
            Mode::SidebarPrompt | Mode::SidebarWorkspaceName => out == nothing(),
            _ => true,
        },
{
}

/// What some keys behind the prefix do, and send: the mouse is handed back or
/// taken again, the focused pane fills the tab or no longer does, a client that
/// detaches says so and ends, and a pane is not killed before a yes.
pub proof fn prefix_actions_send_little(
    pre: App,
    post: App,
    action: PrefixAction,
    out: Seq<Sent>,
)
    requires
        prefixed(pre, post, action, out),
    ensures
        action == PrefixAction::MouseToggle ==> out == nothing() && post.mouse_capture
            == !pre.mouse_capture,
        action == PrefixAction::Zoom ==> out == nothing() && post.zoom == (if pre.focused is Some {
            !pre.zoom
        } else {
            pre.zoom
        }),
        action == PrefixAction::Detach ==> out == only(Asked::Detach) && post.should_quit,
        action == PrefixAction::KillPane ==> out == nothing(),
        action != PrefixAction::MouseToggle ==> post.mouse_capture == pre.mouse_capture,
        action != PrefixAction::Detach ==> post.should_quit == pre.should_quit,
{
}

/// Handing the mouse back and taking it again sends nothing and changes nothing
/// but the message.
pub proof fn the_mouse_comes_back(
    pre: App,
    mid: App,
    post: App,
    first: Seq<Sent>,
    second: Seq<Sent>,
)
    requires
        prefixed(pre, mid, PrefixAction::MouseToggle, first),
        prefixed(mid, post, PrefixAction::MouseToggle, second),
    ensures
        post == (App { status: post.status, ..pre }),
        mid.mouse_capture != pre.mouse_capture,
        first + second == nothing(),
{
    assert(first + second =~= nothing());
}

/// Zooming twice sends nothing and changes nothing.
pub proof fn zooming_twice_changes_nothing(
    pre: App,
    mid: App,
    post: App,
    first: Seq<Sent>,
    second: Seq<Sent>,
)
    requires
        prefixed(pre, mid, PrefixAction::Zoom, first),
        prefixed(mid, post, PrefixAction::Zoom, second),
    ensures
        post == pre,
        first + second == nothing(),
{
    assert(first + second =~= nothing());
}

/// A yes to the question whether to merge a workspace asks the server to merge it.
/// As long as the merge is under way, the answer to it is told of, with the
/// bookmark and whether it was pushed, and asks whether to discard that workspace;
/// the merge is then no longer under way, and another answer changes nothing.
pub proof fn merges_offer_to_clean_up(
    asked: App,
    told: App,
    key: KeyEvent,
    id: WorkspaceId,
    out: Seq<Sent>,
    pre: App,
    post: App,
    again: App,
    pushed: bool,
    bookmark: String,
    other: Response,
)
    requires
        asked.mode == Mode::ConfirmMerge(id),
        yes(key),
        pressed(asked, told, key, out),
        pre.merge_pending == told.merge_pending,
        answered(pre, post, Response::Merged { pushed, bookmark }),
        other is Merged,
        answered(post, again, other),
    ensures
        out == only(Asked::WorkspaceMerge { id, push: true }),
        post.mode == Mode::ConfirmCleanup(id),
        post.merge_pending is None,
        post.message() == Some(
            "merged into "@ + bookmark@ + (if pushed {
                " and pushed"@
            } else {
                Seq::empty()
            }) + " — clean up workspace? y/N"@,
        ),
        again == post,
{
}

proof fn terminal_keeps_merges(pre: App, post: App, key: KeyEvent, out: Seq<Sent>)
    requires
        pre.mode == Mode::Terminal,
        pressed(pre, post, key, out),
    ensures
        post.merge_pending == pre.merge_pending,
{
}

proof fn prefix_keeps_merges(pre: App, post: App, key: KeyEvent, out: Seq<Sent>)
    requires
        pre.mode == Mode::Prefix,
        pressed(pre, post, key, out),
    ensures
        post.merge_pending == pre.merge_pending,
{
}

proof fn sidebar_keeps_merges(pre: App, post: App, key: KeyEvent, out: Seq<Sent>)
    requires
        pre.mode == Mode::Sidebar,
        pressed(pre, post, key, out),
    ensures
        post.merge_pending == pre.merge_pending,
{
}

proof fn prompts_keep_merges(pre: App, post: App, key: KeyEvent, out: Seq<Sent>)
    requires
        pre.mode == Mode::SidebarPrompt || pre.mode == Mode::SidebarWorkspaceName || pre.mode
            == Mode::SidebarWorkspaceDest,
        pressed(pre, post, key, out),
    ensures
        post.merge_pending == pre.merge_pending,
{
}

proof fn launcher_keeps_merges(pre: App, post: App, key: KeyEvent, out: Seq<Sent>)
    requires
        pre.mode == Mode::Launcher || pre.mode == Mode::LauncherCommand,
        pressed(pre, post, key, out),
    ensures
        post.merge_pending == pre.merge_pending,
{
}

/// No key but a yes to the question whether to merge starts a merge or ends one.
pub proof fn keys_leave_merges_alone(pre: App, post: App, key: KeyEvent, out: Seq<Sent>)
    requires
        pressed(pre, post, key, out),
        !(pre.mode is ConfirmMerge && yes(key)),
    ensures
        post.merge_pending == pre.merge_pending,
{
    match pre.mode {
        Mode::Terminal => terminal_keeps_merges(pre, post, key, out),
        Mode::Prefix => prefix_keeps_merges(pre, post, key, out),
        Mode::Sidebar => sidebar_keeps_merges(pre, post, key, out),
        Mode::SidebarPrompt | Mode::SidebarWorkspaceName | Mode::SidebarWorkspaceDest => {
            prompts_keep_merges(pre, post, key, out);
        },
        Mode::Launcher | Mode::LauncherCommand => launcher_keeps_merges(pre, post, key, out),
        _ => {},
    }
}

/// A merge stays under way until it is answered or a request fails: no other frame
/// starts one or ends it.
pub proof fn frames_leave_merges_alone(pre: App, post: App, frame: ServerFrame)
    requires
        received(pre, post, frame),
        !(frame matches ServerFrame::Response(r) && (r is Merged || r is Error)),
    ensures
        post.merge_pending == pre.merge_pending,
{
}

/// Whether the focus went to a pane that lies where `near` says, and went at all
/// where some other pane lies where `sure` says.
pub open spec fn focus_went(
    pre: App,
    post: App,
    near: spec_fn(Rect) -> bool,
    sure: spec_fn(Rect) -> bool,
) -> bool {
    &&& post.focused != pre.focused ==> exists|i: int|
        0 <= i < pre.rects@.len() && post.focused == Some(#[trigger] pre.rects@[i].0) && near(
            pre.rects@[i].1,
        )
    &&& (exists|i: int|
        0 <= i < pre.rects@.len() && Some(#[trigger] pre.rects@[i].0) != pre.focused && sure(
            pre.rects@[i].1,
        )) ==> post.focused != pre.focused
}

/// Where the focus is after a move that went.
proof fn moved_to(pre: App, post: App, dir: FocusDir) -> (k: int)
    requires
        moved(pre, post, dir, true),
    ensures
        reachable(pre.rects@, pre.focused->0, focus_rect(pre)->0, dir, k),
        post == (App { focused: Some(pre.rects@[k].0), ..pre }),
{
    let k = choose|i: int|
        #[trigger] crate::attach::geometry::nearest(
            pre.rects@,
            pre.focused->0,
            focus_rect(pre)->0,
            dir,
            i,
        ) && post == (App { focused: Some(pre.rects@[i].0), ..pre });
    assert(reachable(pre.rects@, pre.focused->0, focus_rect(pre)->0, dir, k));
    k
}

proof fn moves_go(pre: App, post: App, dir: FocusDir, near: spec_fn(Rect) -> bool, sure: spec_fn(
    Rect,
) -> bool)
    requires
        focus_moved(pre, post, dir),
        focus_rect(pre) is Some,
        forall|to: Rect| dir.admits(focus_rect(pre)->0, to) ==> #[trigger] near(to),
        forall|to: Rect| #[trigger] sure(to) ==> dir.admits(focus_rect(pre)->0, to),
    ensures
        focus_went(pre, post, near, sure),
{
    let from = focus_rect(pre)->0;
    let current = pre.focused->0;
    if can_move(pre, dir) {
        let i = moved_to(pre, post, dir);
        assert(near(pre.rects@[i].1));
        assert(post.focused == Some(pre.rects@[i].0));
    } else {
        assert forall|i: int|
            0 <= i < pre.rects@.len() && Some(#[trigger] pre.rects@[i].0)
                != pre.focused implies !sure(pre.rects@[i].1) by {
            assert(!reachable(pre.rects@, current, from, dir, i));
        }
    }
}

/// The focus goes where it is sent. What is focused after `FocusUp` ends no lower
/// than where the focused pane begins, but for a shared line, and begins higher
/// where it is more than a line high; where some pane lies wholly above, the focus
/// does go. It is the same below, on the left and on the right, and with a direct
/// key as with one behind the prefix.
pub proof fn the_focus_goes_where_it_is_sent(pre: App, post: App, from: Rect, out: Seq<Sent>)
    requires
        focus_rect(pre) == Some(from),
    ensures
        acted(pre, post, Action::FocusUp, out) || prefixed(pre, post, PrefixAction::FocusUp, out)
            ==> focus_went(
            pre,
            post,
            |to: Rect| to.y + to.height <= from.y + 1 && (to.height > 1 ==> to.y < from.y),
            |to: Rect| to.y + to.height <= from.y,
        ),
        acted(pre, post, Action::FocusDown, out) || prefixed(
            pre,
            post,
            PrefixAction::FocusDown,
            out,
        ) ==> focus_went(
            pre,
            post,
            |to: Rect| to.y + 1 >= from.y + from.height && (from.height > 1 ==> to.y > from.y),
            |to: Rect| to.y >= from.y + from.height,
        ),
        prefixed(pre, post, PrefixAction::FocusLeft, out) ==> focus_went(
            pre,
            post,
            |to: Rect| to.x + to.width <= from.x + 1 && (to.width > 1 ==> to.x < from.x),
            |to: Rect| to.x + to.width <= from.x,
        ),
        prefixed(pre, post, PrefixAction::FocusRight, out) ==> focus_went(
            pre,
            post,
            |to: Rect| to.x + 1 >= from.x + from.width && (from.width > 1 ==> to.x > from.x),
            |to: Rect| to.x >= from.x + from.width,
        ),
{
    if focus_moved(pre, post, FocusDir::Up) {
        moves_go(
            pre,
            post,
            FocusDir::Up,
            |to: Rect| to.y + to.height <= from.y + 1 && (to.height > 1 ==> to.y < from.y),
            |to: Rect| to.y + to.height <= from.y,
        );
    }
    if focus_moved(pre, post, FocusDir::Down) {
        moves_go(
            pre,
            post,
            FocusDir::Down,
            |to: Rect| to.y + 1 >= from.y + from.height && (from.height > 1 ==> to.y > from.y),
            |to: Rect| to.y >= from.y + from.height,
        );
    }
    if focus_moved(pre, post, FocusDir::Left) {
        moves_go(
            pre,
            post,
            FocusDir::Left,
            |to: Rect| to.x + to.width <= from.x + 1 && (to.width > 1 ==> to.x < from.x),
            |to: Rect| to.x + to.width <= from.x,
        );
    }
    if focus_moved(pre, post, FocusDir::Right) {
        moves_go(
            pre,
            post,
            FocusDir::Right,
            |to: Rect| to.x + 1 >= from.x + from.width && (from.width > 1 ==> to.x > from.x),
            |to: Rect| to.x >= from.x + from.width,
        );
    }
}

/// To the left and to the right, a direct key goes to another pane of the tab where
/// one lies there, and neither to the sidebar nor to another tab.
pub proof fn neighbours_come_before_the_edges(
    pre: App,
    post: App,
    from: Rect,
    i: int,
    out: Seq<Sent>,
)
    requires
        focus_rect(pre) == Some(from),
        0 <= i < pre.rects@.len(),
        Some(pre.rects@[i].0) != pre.focused,
    ensures
        acted(pre, post, Action::FocusLeft, out) && pre.rects@[i].1.x + pre.rects@[i].1.width
            <= from.x ==> {
            &&& exists|k: int|
                0 <= k < pre.rects@.len() && post.focused == Some(#[trigger] pre.rects@[k].0)
                    && pre.rects@[k].1.x + pre.rects@[k].1.width <= from.x + 1
            &&& post.focused != pre.focused && out == nothing()
            &&& post.mode == pre.mode && post.active_tab == pre.active_tab
        },
        acted(pre, post, Action::FocusRight, out) && pre.rects@[i].1.x >= from.x + from.width ==> {
            &&& exists|k: int|
                0 <= k < pre.rects@.len() && post.focused == Some(#[trigger] pre.rects@[k].0)
                    && pre.rects@[k].1.x + 1 >= from.x + from.width
            &&& post.focused != pre.focused && out == nothing()
            &&& post.mode == pre.mode && post.active_tab == pre.active_tab
        },
{
    let current = pre.focused->0;
    if pre.rects@[i].1.x + pre.rects@[i].1.width <= from.x {
        assert(reachable(pre.rects@, current, focus_rect(pre)->0, FocusDir::Left, i));
        assert(can_move(pre, FocusDir::Left));
        if acted(pre, post, Action::FocusLeft, out) {
            let k = moved_to(pre, post, FocusDir::Left);
        }
    }
    if pre.rects@[i].1.x >= from.x + from.width {
        assert(reachable(pre.rects@, current, focus_rect(pre)->0, FocusDir::Right, i));
        assert(can_move(pre, FocusDir::Right));
        if acted(pre, post, Action::FocusRight, out) {
            let k = moved_to(pre, post, FocusDir::Right);
        }
    }
}

/// With one pane on the screen there is nowhere to go within it: to the left lies
/// the sidebar where it is shown, and else the tab before, to the right the next
/// tab, and above and below nothing.
pub proof fn a_lone_pane_lies_at_every_edge(pre: App, post: App, out: Seq<Sent>)
    requires
        pre.rects@.len() == 1,
        pre.focused == Some(pre.rects@[0].0),
    ensures
        acted(pre, post, Action::FocusUp, out) || acted(pre, post, Action::FocusDown, out) ==> post
            == pre && out == nothing(),
        acted(pre, post, Action::FocusLeft, out) && pre.sidebar_rect is Some ==> out == nothing()
            && (pre.last_content_width >= SIDEBAR_MIN_TOTAL ==> post.mode == Mode::Sidebar),
        acted(pre, post, Action::FocusLeft, out) && pre.sidebar_rect is None ==> prefixed(
            pre,
            post,
            PrefixAction::TabPrev,
            out,
        ),
        acted(pre, post, Action::FocusRight, out) ==> prefixed(
            pre,
            post,
            PrefixAction::TabNext,
            out,
        ),
{
    assert(!can_move(pre, FocusDir::Left));
    assert(!can_move(pre, FocusDir::Right));
    assert(!can_move(pre, FocusDir::Up));
    assert(!can_move(pre, FocusDir::Down));
}

proof fn going_back(pre: App, mid: App, post: App, there: FocusDir, back: FocusDir)
    requires
        pre.rects@.len() == 2,
        pre.rects@[0].0 != pre.rects@[1].0,
        pre.focused == Some(pre.rects@[0].0) || pre.focused == Some(pre.rects@[1].0),
        focus_moved(pre, mid, there),
        focus_moved(mid, post, back),
        ({
            let at: int = if pre.focused == Some(pre.rects@[0].0) {
                0
            } else {
                1
            };
            &&& there.admits(pre.rects@[at].1, pre.rects@[1 - at].1)
            &&& back.admits(pre.rects@[1 - at].1, pre.rects@[at].1)
        }),
    ensures
        mid.focused is Some && mid.focused != pre.focused,
        post == pre,
{
    let at: int = if pre.focused == Some(pre.rects@[0].0) {
        0
    } else {
        1
    };
    let rects = pre.rects@;
    crate::model::found_is_first(rects, crate::attach::geometry::rect_is(rects[at].0), 0);
    crate::model::found_is_first(rects, crate::attach::geometry::rect_is(rects[1 - at].0), 0);
    assert(rect_of(rects, rects[at].0) == Some(rects[at].1)) by {
        assert(crate::attach::geometry::rect_is(rects[at].0)(rects[at]));
    }
    assert(rect_of(rects, rects[1 - at].0) == Some(rects[1 - at].1)) by {
        assert(crate::attach::geometry::rect_is(rects[1 - at].0)(rects[1 - at]));
    }
    assert(focus_rect(pre) == Some(rects[at].1));
    assert(reachable(rects, pre.focused->0, focus_rect(pre)->0, there, 1 - at));
    assert(can_move(pre, there));
    let there_at = moved_to(pre, mid, there);
    assert(mid.focused == Some(rects[1 - at].0));
    assert(focus_rect(mid) == Some(rects[1 - at].1));
    assert(reachable(mid.rects@, mid.focused->0, focus_rect(mid)->0, back, at));
    assert(can_move(mid, back));
    let back_at = moved_to(mid, post, back);
}

/// Of two panes one above the other, down and then up returns to the upper one, and
/// up and then down to the lower one.
pub proof fn down_and_up_return(
    pre: App,
    mid: App,
    post: App,
    upper: int,
    first: Seq<Sent>,
    second: Seq<Sent>,
)
    requires
        pre.rects@.len() == 2,
        pre.rects@[0].0 != pre.rects@[1].0,
        upper == 0 || upper == 1,
        pre.rects@[upper].1.y + pre.rects@[upper].1.height <= pre.rects@[1 - upper].1.y,
    ensures
        pre.focused == Some(pre.rects@[upper].0) && acted(pre, mid, Action::FocusDown, first)
            && acted(mid, post, Action::FocusUp, second) ==> mid.focused == Some(
            pre.rects@[1 - upper].0,
        ) && post == pre,
        pre.focused == Some(pre.rects@[1 - upper].0) && acted(pre, mid, Action::FocusUp, first)
            && acted(mid, post, Action::FocusDown, second) ==> mid.focused == Some(
            pre.rects@[upper].0,
        ) && post == pre,
{
    let rects = pre.rects@;
    if pre.focused == Some(rects[upper].0) && acted(pre, mid, Action::FocusDown, first) && acted(
        mid,
        post,
        Action::FocusUp,
        second,
    ) {
        going_back(pre, mid, post, FocusDir::Down, FocusDir::Up);
        only_two_to_focus(pre, mid, FocusDir::Down);
    }
    if pre.focused == Some(rects[1 - upper].0) && acted(pre, mid, Action::FocusUp, first) && acted(
        mid,
        post,
        Action::FocusDown,
        second,
    ) {
        going_back(pre, mid, post, FocusDir::Up, FocusDir::Down);
        only_two_to_focus(pre, mid, FocusDir::Up);
    }
}

proof fn only_two_to_focus(pre: App, post: App, dir: FocusDir)
    requires
        pre.rects@.len() == 2,
        focus_moved(pre, post, dir),
        post.focused != pre.focused,
    ensures
        post.focused == Some(pre.rects@[0].0) || post.focused == Some(pre.rects@[1].0),
{
    if can_move(pre, dir) {
        let i = moved_to(pre, post, dir);
    }
}

/// Of two panes side by side, right and then left returns to the left one, and left
/// and then right to the right one.
pub proof fn right_and_left_return(
    pre: App,
    mid: App,
    post: App,
    left: int,
    first: Seq<Sent>,
    second: Seq<Sent>,
)
    requires
        pre.rects@.len() == 2,
        pre.rects@[0].0 != pre.rects@[1].0,
        left == 0 || left == 1,
        pre.rects@[left].1.x + pre.rects@[left].1.width <= pre.rects@[1 - left].1.x,
    ensures
        pre.focused == Some(pre.rects@[left].0) && prefixed(
            pre,
            mid,
            PrefixAction::FocusRight,
            first,
        ) && prefixed(mid, post, PrefixAction::FocusLeft, second) ==> mid.focused == Some(
            pre.rects@[1 - left].0,
        ) && post == pre,
        pre.focused == Some(pre.rects@[1 - left].0) && prefixed(
            pre,
            mid,
            PrefixAction::FocusLeft,
            first,
        ) && prefixed(mid, post, PrefixAction::FocusRight, second) ==> mid.focused == Some(
            pre.rects@[left].0,
        ) && post == pre,
{
    let rects = pre.rects@;
    if pre.focused == Some(rects[left].0) && prefixed(pre, mid, PrefixAction::FocusRight, first)
        && prefixed(mid, post, PrefixAction::FocusLeft, second) {
        going_back(pre, mid, post, FocusDir::Right, FocusDir::Left);
        only_two_to_focus(pre, mid, FocusDir::Right);
    }
    if pre.focused == Some(rects[1 - left].0) && prefixed(pre, mid, PrefixAction::FocusLeft, first)
        && prefixed(mid, post, PrefixAction::FocusRight, second) {
        going_back(pre, mid, post, FocusDir::Left, FocusDir::Right);
        only_two_to_focus(pre, mid, FocusDir::Left);
    }
}

/// While a scrollback is browsed, up and page up go back and never forth, down and
/// page down forth and never back; a page goes no less far than a line. Only at the
/// newest line does down stay, and the server is asked for just that offset.
pub proof fn scrolling_goes_the_right_way(
    pre: App,
    post: App,
    key: KeyEvent,
    pane: PaneId,
    out: Seq<Sent>,
)
    requires
        pre.mode == Mode::Scroll(pane),
        pre.panes@.contains_key(pane.0),
        pre.panes@[pane.0].scroll is Some,
        pressed(pre, post, key, out),
        key.code == KeyCode::Up || key.code == KeyCode::Down || key.code == KeyCode::PageUp
            || key.code == KeyCode::PageDown,
    ensures
        post.mode == pre.mode,
        post.panes@.contains_key(pane.0),
        post.panes@[pane.0].scroll is Some,
        ({
            let was = pre.panes@[pane.0].scroll->0;
            let is = post.panes@[pane.0].scroll->0;
            let rows = match rect_of(pre.rects@, pane) {
                Some(rect) => inner_of(rect).0 as int,
                None => 1,
            };
            &&& out == only(Asked::PaneScroll { pane, offset: is })
            &&& key.code == KeyCode::Up && was < usize::MAX ==> is == was + 1
            &&& key.code == KeyCode::Down && was > 0 ==> is == was - 1
            &&& key.code == KeyCode::Down && was == 0 ==> is == 0
            &&& key.code == KeyCode::PageUp ==> is >= was && (was + rows <= usize::MAX ==> is == was
                + rows)
            &&& key.code == KeyCode::PageDown ==> is <= was && (was >= rows ==> is == was - rows)
                && (was < rows ==> is == 0)
        }),
{
}

/// Page up and then page down returns to where one was, and so do up and down.
pub proof fn scrolling_back_and_forth_returns(
    pre: App,
    mid: App,
    post: App,
    there: KeyEvent,
    back: KeyEvent,
    pane: PaneId,
    first: Seq<Sent>,
    second: Seq<Sent>,
)
    requires
        pre.mode == Mode::Scroll(pane),
        pre.panes@.contains_key(pane.0),
        pre.panes@[pane.0].scroll is Some,
        pre.panes@[pane.0].scroll->0 + 0x1_0000 <= usize::MAX,
        pressed(pre, mid, there, first),
        pressed(mid, post, back, second),
        (there.code == KeyCode::PageUp && back.code == KeyCode::PageDown) || (there.code
            == KeyCode::Up && back.code == KeyCode::Down),
    ensures
        post.panes@[pane.0].scroll == pre.panes@[pane.0].scroll,
        mid.panes@[pane.0].scroll->0 > pre.panes@[pane.0].scroll->0,
{
    scrolling_goes_the_right_way(pre, mid, there, pane, first);
    scrolling_goes_the_right_way(mid, post, back, pane, second);
}

/// A resize asks for the focused pane's own split: to the left and to the right for
/// the one between panes side by side, up and down for the one between panes above
/// each other; right and down move it as far as left and up move it back.
pub proof fn resizes_go_the_right_way(pre: App, post: App, pane: PaneId, out: Seq<Sent>)
    requires
        pre.focused == Some(pane),
    ensures
        acted(pre, post, Action::ResizeLeft, out) ==> post == pre && out == only(
            Asked::PaneResizeSplit {
                pane,
                direction: Direction::Horizontal,
                delta: (-RESIZE_DELTA) as i32,
            },
        ),
        acted(pre, post, Action::ResizeRight, out) ==> post == pre && out == only(
            Asked::PaneResizeSplit {
                pane,
                direction: Direction::Horizontal,
                delta: RESIZE_DELTA,
            },
        ),
        acted(pre, post, Action::ResizeUp, out) ==> post == pre && out == only(
            Asked::PaneResizeSplit {
                pane,
                direction: Direction::Vertical,
                delta: (-RESIZE_DELTA) as i32,
            },
        ),
        acted(pre, post, Action::ResizeDown, out) ==> post == pre && out == only(
            Asked::PaneResizeSplit { pane, direction: Direction::Vertical, delta: RESIZE_DELTA },
        ),
        RESIZE_DELTA > 0,
{
}

/// A split asks for a pane beside or below the focused one, and the two are told
/// apart.
pub proof fn splits_go_the_right_way(pre: App, post: App, pane: PaneId, out: Seq<Sent>)
    requires
        pre.focused == Some(pane),
    ensures
        prefixed(pre, post, PrefixAction::SplitRight, out) ==> post == pre && out == only(
            Asked::PaneSplit { pane, direction: Direction::Horizontal },
        ),
        prefixed(pre, post, PrefixAction::SplitDown, out) ==> post == pre && out == only(
            Asked::PaneSplit { pane, direction: Direction::Vertical },
        ),
{
}

/// The next tab is the one after the active one in the order of the workspaces, and
/// the one before is the one before; past the last comes the first.
pub proof fn tabs_come_in_order(pre: App, post: App, i: int, out: Seq<Sent>)
    requires
        0 <= i < tabs_of(pre.workspaces@).len(),
        pre.active_tab == Some(tabs_of(pre.workspaces@)[i].id),
        forall|j: int|
            0 <= j < i ==> (#[trigger] tabs_of(pre.workspaces@)[j]).id != tabs_of(
                pre.workspaces@,
            )[i].id,
    ensures
        ({
            let tabs = tabs_of(pre.workspaces@);
            let after = if i + 1 < tabs.len() {
                tabs[i + 1].id
            } else {
                tabs[0].id
            };
            let before = if i > 0 {
                tabs[i - 1].id
            } else {
                tabs[tabs.len() - 1].id
            };
            &&& prefixed(pre, post, PrefixAction::TabNext, out) ==> post.active_tab == Some(after)
                && out == only(Asked::TabSelect { id: after })
            &&& prefixed(pre, post, PrefixAction::TabPrev, out) ==> post.active_tab == Some(before)
                && out == only(Asked::TabSelect { id: before })
        }),
{
    let tabs = tabs_of(pre.workspaces@);
    let ids = crate::model::tab_ids(tabs);
    let is = crate::attach::nav::id_is(tabs[i].id);
    assert(forall|j: int| 0 <= j < tabs.len() ==> ids[j] == tabs[j].id);
    crate::model::found_is_first(ids, is, 0);
    assert(is(ids[i]));
    assert(find_from(ids, is, 0) == Some(i)) by {
        let k = find_from(ids, is, 0)->0;
        if k < i {
            assert(ids[k] == tabs[k].id);
        }
    }
}

/// What is said of the mouse is what it is: that it is on just where it was taken, and
/// off, and how to select then, where it was handed back.
pub proof fn the_mouse_is_told_of(pre: App, post: App)
    requires
        mouse_toggled(pre, post),
    ensures
        post.mouse_capture ==> post.message() == Some("mouse on"@),
        !post.mouse_capture ==> post.message() == Some(
            "mouse off — select/copy with the terminal"@,
        ),
{
}

/// A key that nothing is bound to behind the prefix is told of by its name, and does
/// nothing.
pub proof fn unknown_keys_are_told_of(pre: App, post: App, key: KeyEvent, out: Seq<Sent>)
    requires
        pre.mode == Mode::Prefix,
        pressed(pre, post, key, out),
        key.code != KeyCode::Esc,
        !pre.config.prefix.is_pressed(key),
        bound_action(binding_lines(pre.config.prefix_bindings@), key.code) is None,
    ensures
        post.message() == Some("unknown prefix key: "@ + label_of(key.code)),
        post.mode == Mode::Terminal,
        post.focused == pre.focused,
        out == nothing(),
{
}

/// The other keys behind the prefix do what they are named for: the sidebar takes the
/// keys where it fits, the launcher opens for the workspace in which one is, the help
/// opens, the scrollback of the focused pane is browsed, and the focus goes to the next
/// pane of the tab.
pub proof fn prefix_actions_do_what_they_are_named(
    pre: App,
    post: App,
    action: PrefixAction,
    out: Seq<Sent>,
)
    requires
        prefixed(pre, post, action, out),
    ensures
        action == PrefixAction::Sidebar && pre.last_content_width >= SIDEBAR_MIN_TOTAL ==> post.mode
            == Mode::Sidebar && out == nothing(),
        action == PrefixAction::Run ==> post.mode == Mode::Launcher && out == nothing(),
        action == PrefixAction::Run ==> (pre.owner() matches Some(w) ==> post.launch@.target == Some(
            w.name@,
        )),
        action == PrefixAction::Help ==> post.mode == Mode::Help && out == nothing(),
        action == PrefixAction::Scrollback ==> (pre.focused matches Some(p) ==> post.mode
            == Mode::Scroll(p)),
        action == PrefixAction::TabNew ==> post == pre && out.len() == 1 && (out[0] matches Sent::Control(
            Asked::TabNew { .. },
        )),
        action == PrefixAction::FocusCycle ==> out == nothing() && post.mode == pre.mode,
{
}

/// In an exited pane, `r` starts something else in its place and `x` closes it; with no
/// pane at all, `a` asks for a project.
pub proof fn exited_panes_take_two_keys(
    pre: App,
    post: App,
    key: KeyEvent,
    pane: PaneId,
    out: Seq<Sent>,
)
    requires
        pre.mode == Mode::Terminal,
        pressed(pre, post, key, out),
        !pre.config.prefix.is_pressed(key),
        first_action(pre.config.keys.bindings@, key) is None,
        key.modifiers.none_held(),
    ensures
        focus_exited(pre) && pre.focused == Some(pane) && key.code == KeyCode::Char('x') ==> out
            == only(Asked::PaneKill { pane }) && post == pre,
        focus_exited(pre) && pre.focused == Some(pane) && key.code == KeyCode::Char('r') ==> out
            == nothing() && (tab_of(pre, pane) matches Some(t) ==> (owner_of(pre, t) is Some
            ==> post.mode == Mode::Launcher && post.launch@.replace == Some(pane))),
        pre.focused is None && key.code == KeyCode::Char('a') ==> post.mode == Mode::SidebarPrompt
            && out == nothing(),
{
}

} // verus!
