//! The prompts at the sidebar's foot: adding a project, and making a workspace
//! in two steps, its name and its place.

use vstd::prelude::*;

use crate::attach::app::{asked, says, App, Fork, Mode, Prompt, PromptLine, Query, Question};
use crate::attach::frames::workspace_at;
use crate::attach::picker::{dropped, fresh_launch, launcher_opened};
use crate::dirs::{
    fill_in, filled, fork_name, is_valid_fork_name, jj_mark_paths, jj_marks, jj_root, jj_root_of,
    last_part, pick_completions, prefilled, prompt_prefill, resolve_dir, resolved,
    shown_completions, sibling, sibling_dest_prefill, split_input, workspace_name_from_dir,
};
use crate::key::{KeyCode, KeyEvent};
use crate::model::{find_workspace, WorkspaceId, WorkspaceView};
use crate::path::{base_name, file_name, join, joined, parent, parent_of};
use crate::protocol::{ask, no_frames, nothing, only, sent, Asked, Request, Sent, WireFrame};
use crate::text::{glue, opt_text, texts, trim, trimmed};

verus! {

broadcast use vstd::string::group_string_axioms;

// ---- completions ---------------------------------------------------------

/// The directory whose contents complete what is typed.
pub open spec fn listing_base(app: App, text: Seq<char>) -> Seq<char> {
    resolved(text.take(last_part(text)), opt_text(app.place.home), app.place.cwd@)
}

/// What typing does: the prompt holds `text`, its first completion is the one
/// that is highlighted, and its completions are asked for.
pub open spec fn retyped(pre: App, post: App, text: Seq<char>) -> bool {
    &&& post == (App { prompt: post.prompt, query: post.query, ..pre })
    &&& post.prompt@ == (PromptLine { text, selected: 0, ..pre.prompt@ })
    &&& asked(post.query) == Some(Question::List { base: listing_base(pre, text) })
}

/// The completion that is highlighted.
pub open spec fn highlighted(app: App) -> Option<Seq<char>> {
    if app.prompt.selected < app.prompt.completions@.len() {
        Some(app.prompt.completions@[app.prompt.selected as int]@)
    } else {
        None
    }
}

/// What a key does to a directory that is typed: characters and Backspace edit
/// it, Tab fills in the highlighted completion, and the arrows move the
/// highlight.
pub open spec fn dir_key(pre: App, post: App, key: KeyEvent) -> bool {
    match key.code {
        KeyCode::Char(c) => if key.modifiers.control || key.modifiers.alt {
            post == pre
        } else {
            retyped(pre, post, pre.prompt.text@.push(c))
        },
        KeyCode::Backspace => retyped(pre, post, dropped(pre.prompt.text@)),
        KeyCode::Tab => match highlighted(pre) {
            Some(name) => retyped(pre, post, filled(pre.prompt.text@, name)),
            None => post == pre,
        },
        KeyCode::Down => post == (App {
            prompt: Prompt {
                selected: if pre.prompt.completions@.len() == 0 {
                    pre.prompt.selected
                } else if pre.prompt.selected + 1 < pre.prompt.completions@.len() {
                    (pre.prompt.selected + 1) as usize
                } else {
                    (pre.prompt.completions@.len() - 1) as usize
                },
                ..pre.prompt
            },
            ..pre
        }),
        KeyCode::Up => post == (App {
            prompt: Prompt {
                selected: if pre.prompt.selected > 0 {
                    (pre.prompt.selected - 1) as usize
                } else {
                    0
                },
                ..pre.prompt
            },
            ..pre
        }),
        _ => post == pre,
    }
}

/// An empty prompt.
pub open spec fn no_prompt() -> PromptLine {
    PromptLine { text: Seq::empty(), completions: Seq::empty(), selected: 0 }
}

impl App {
    fn refresh_completions(&mut self)
        ensures
            *final(self) == (App { query: final(self).query, ..*old(self) }),
            asked(final(self).query) == Some(
                Question::List { base: listing_base(*old(self), old(self).prompt.text@) },
            ),
    {
        let (dir, _) = split_input(self.prompt.text.as_str());
        let base: String = resolve_dir(
            dir.as_str(),
            &self.place.home,
            self.place.cwd.as_str(),
        );
        self.query = Some(Query::List { base });
    }

    fn retype(&mut self, text: String)
        ensures
            retyped(*old(self), *final(self), text@),
    {
        let ghost pre = *self;
        let ghost line = text@;
        self.prompt.text = text;
        self.prompt.selected = 0;
        assert(self.prompt@ =~= (PromptLine { text: line, selected: 0, ..pre.prompt@ }));
        self.refresh_completions();
    }

    /// The directories that may complete what is typed are known.
    pub fn on_listing(&mut self, names: &Vec<String>)
        ensures
            *final(self) == (App { prompt: final(self).prompt, ..*old(self) }),
            ({
                let text = old(self).prompt.text@;
                let shown = shown_completions(texts(names@), text.skip(last_part(text)));
                final(self).prompt@ == (PromptLine {
                    text,
                    completions: shown,
                    selected: if old(self).prompt.selected < shown.len() {
                        old(self).prompt.selected
                    } else {
                        0
                    },
                })
            }),
    {
        let (_, comp) = split_input(self.prompt.text.as_str());
        self.prompt.completions = pick_completions(names, comp.as_str());
        assert(texts(self.prompt.completions@).len() == self.prompt.completions@.len());
        if self.prompt.selected >= self.prompt.completions.len() {
            self.prompt.selected = 0;
        }
    }

    /// Fill in the highlighted completion.
    fn complete_selection(&mut self)
        ensures
            match highlighted(*old(self)) {
                Some(name) => retyped(
                    *old(self),
                    *final(self),
                    filled(old(self).prompt.text@, name),
                ),
                None => *final(self) == *old(self),
            },
    {
        if self.prompt.selected < self.prompt.completions.len() {
            let text: String = fill_in(
                self.prompt.text.as_str(),
                self.prompt.completions[self.prompt.selected].as_str(),
            );
            self.retype(text);
        }
    }

    fn edit_dir(&mut self, key: KeyEvent)
        ensures
            dir_key(*old(self), *final(self), key),
    {
        match key.code {
            KeyCode::Char(c) => {
                if !key.modifiers.control && !key.modifiers.alt {
                    let mut text: String = self.prompt.text.clone();
                    text.push(c);
                    self.retype(text);
                }
            },
            KeyCode::Backspace => {
                let mut text: String = self.prompt.text.clone();
                text.pop();
                self.retype(text);
            },
            KeyCode::Tab => {
                self.complete_selection();
            },
            KeyCode::Down => {
                let count: usize = self.prompt.completions.len();
                if count > 0 {
                    self.prompt.selected = if self.prompt.selected < count - 1 {
                        self.prompt.selected + 1
                    } else {
                        count - 1
                    };
                }
            },
            KeyCode::Up => {
                self.prompt.selected = self.prompt.selected.saturating_sub(1);
            },
            _ => {},
        }
    }

    fn clear_prompt(&mut self)
        ensures
            *final(self) == (App { prompt: final(self).prompt, ..*old(self) }),
            final(self).prompt@ == no_prompt(),
    {
        self.prompt = Prompt { text: String::new(), completions: Vec::new(), selected: 0 };
        assert(self.prompt@ =~= no_prompt());
    }
}

// ---- adding a project ----------------------------------------------------

/// What opening the add-project prompt does.
pub open spec fn project_prompted(pre: App, post: App) -> bool {
    retyped(
        App { mode: Mode::SidebarPrompt, status: None, ..pre },
        post,
        prefilled(dirs_of(pre.workspaces@), opt_text(pre.place.home)),
    )
}

/// The directories of workspaces.
pub open spec fn dirs_of(ws: Seq<WorkspaceView>) -> Seq<Seq<char>> {
    ws.map_values(|w: WorkspaceView| w.dir@)
}

/// What submitting the add-project prompt does: nothing typed closes it, and
/// else the directory is looked for.
pub open spec fn project_submitted(pre: App, post: App) -> bool {
    let input = trimmed(pre.prompt.text@);
    if input.len() == 0 {
        &&& post == (App {
            prompt: post.prompt,
            status: None,
            mode: Mode::Terminal,
            ..pre
        })
        &&& post.prompt@ == no_prompt()
    } else {
        &&& post == (App { query: post.query, ..pre })
        &&& asked(post.query) == Some(
            Question::Locate {
                typed: resolved(input, opt_text(pre.place.home), pre.place.cwd@),
                completed: match highlighted(pre) {
                    Some(name) => Some(
                        resolved(
                            trimmed(filled(pre.prompt.text@, name)),
                            opt_text(pre.place.home),
                            pre.place.cwd@,
                        ),
                    ),
                    None => None,
                },
            },
        )
    }
}

/// What adding the project at `dir` does: the workspace is asked for, its tab
/// will be followed, and the launcher opens to choose its first pane.
pub open spec fn project_added(pre: App, post: App, dir: Seq<char>, out: Seq<Sent>) -> bool {
    &&& exists|mid: App|
        {
            &&& mid == (App {
                prompt: mid.prompt,
                status: None,
                adopt_active_view: true,
                ..pre
            })
            &&& mid.prompt@ == no_prompt()
            &&& #[trigger] launcher_opened(mid, post, fresh_launch(true, base_name(dir)), Some(dir))
        }
    &&& out == only(Asked::WorkspaceNew { dir })
}

/// What a key does while a project's directory is typed.
pub open spec fn project_key(pre: App, post: App, key: KeyEvent) -> bool {
    match key.code {
        KeyCode::Esc => {
            &&& post == (App { prompt: post.prompt, status: None, mode: Mode::Sidebar, ..pre })
            &&& post.prompt@ == no_prompt()
        },
        KeyCode::Enter => project_submitted(pre, post),
        _ => dir_key(pre, post, key),
    }
}

impl App {
    /// Ask where to start, beginning with `dir`.
    pub fn start_first_run_prompt(&mut self, dir: String)
        ensures
            retyped(App { mode: Mode::SidebarPrompt, ..*old(self) }, *final(self), dir@),
    {
        self.mode = Mode::SidebarPrompt;
        self.retype(dir);
    }

    /// Open the add-project prompt, beginning with the directory that holds the
    /// workspaces.
    pub(crate) fn open_project_prompt(&mut self)
        ensures
            project_prompted(*old(self), *final(self)),
    {
        let mut dirs: Vec<String> = Vec::new();
        assert(texts(dirs@) == dirs_of(self.workspaces@.take(0)));
        for i in 0..self.workspaces.len()
            invariant
                texts(dirs@) == dirs_of(self.workspaces@.take(i as int)),
        {
            let ghost have = texts(dirs@);
            dirs.push(self.workspaces[i].dir.clone());
            assert(texts(dirs@) == have.push(self.workspaces@[i as int].dir@));
            assert(dirs_of(self.workspaces@.take(i + 1)) == have.push(
                self.workspaces@[i as int].dir@,
            ));
        }
        assert(self.workspaces@.take(self.workspaces@.len() as int) == self.workspaces@);
        let text: String = prompt_prefill(&dirs, &self.place.home);
        self.mode = Mode::SidebarPrompt;
        self.status = None;
        self.retype(text);
    }

    fn submit_prompt(&mut self)
        ensures
            project_submitted(*old(self), *final(self)),
    {
        let input: String = trim(self.prompt.text.as_str());
        if input.as_str().is_empty() {
            self.clear_prompt();
            self.status = None;
            self.mode = Mode::Terminal;
            return;
        }
        let typed: String = resolve_dir(
            input.as_str(),
            &self.place.home,
            self.place.cwd.as_str(),
        );
        let completed: Option<String> = if self.prompt.selected < self.prompt.completions.len() {
            let text: String = fill_in(
                self.prompt.text.as_str(),
                self.prompt.completions[self.prompt.selected].as_str(),
            );
            Some(
                resolve_dir(
                    trim(text.as_str()).as_str(),
                    &self.place.home,
                    self.place.cwd.as_str(),
                ),
            )
        } else {
            None
        };
        self.query = Some(Query::Locate { typed, completed });
    }

    /// The directory that was typed is known: `found` where it is there, else
    /// `fallback`, the one that its completion names.
    pub fn on_located(&mut self, found: Option<String>, fallback: Option<String>) -> (r: Vec<
        WireFrame,
    >)
        ensures
            match found {
                Some(dir) => project_added(*old(self), *final(self), dir@, sent(r@)),
                None => match fallback {
                    Some(dir) => project_added(*old(self), *final(self), dir@, sent(r@)),
                    None => {
                        &&& *final(self) == (App { status: final(self).status, ..*old(self) })
                        &&& says(
                            final(self).status,
                            "no such directory: "@ + trimmed(old(self).prompt.text@),
                            old(self).clock.now,
                        )
                        &&& sent(r@) == nothing()
                    },
                },
            },
            old(self).well_formed() ==> final(self).well_formed(),
    {
        let dir: String = match found {
            Some(d) => d,
            None => match fallback {
                Some(d) => d,
                None => {
                    let input: String = trim(self.prompt.text.as_str());
                    self.set_status(glue("no such directory: ", input.as_str()));
                    return no_frames();
                },
            },
        };
        self.clear_prompt();
        self.status = None;
        self.adopt_active_view = true;
        let name: Option<String> = workspace_name_from_dir(dir.as_str());
        let ghost mid = *self;
        self.open_launcher(true, name, Some(dir.as_str()));
        assert(launcher_opened(mid, *self, fresh_launch(true, base_name(dir@)), Some(dir@)));
        ask(Request::WorkspaceNew { dir })
    }

    /// A key while a project's directory is typed.
    pub(crate) fn on_key_prompt(&mut self, key: KeyEvent) -> (r: Vec<WireFrame>)
        ensures
            project_key(*old(self), *final(self), key),
            old(self).well_formed() ==> final(self).well_formed(),
            sent(r@) == nothing(),
    {
        match key.code {
            KeyCode::Esc => {
                self.mode = Mode::Sidebar;
                self.clear_prompt();
                self.status = None;
            },
            KeyCode::Enter => {
                self.submit_prompt();
            },
            _ => {
                self.edit_dir(key);
            },
        }
        no_frames()
    }
}

// ---- making a workspace --------------------------------------------------

/// The directory of the workspace that the new one is forked from.
pub open spec fn fork_dir(app: App) -> Option<Seq<char>> {
    match app.fork.target {
        Some(id) => match workspace_at(app, id) {
            Some(w) => Some(w.dir@),
            None => None,
        },
        None => None,
    }
}

/// What going on from the name to the place does: the name is kept, and the
/// prompt begins with `text`.
pub open spec fn dest_prompted(pre: App, post: App, text: Seq<char>) -> bool {
    &&& post.fork.name@ == trimmed(pre.prompt.text@)
    &&& retyped(
        App {
            fork: Fork { name: post.fork.name, ..pre.fork },
            mode: Mode::SidebarWorkspaceDest,
            status: None,
            ..pre
        },
        post,
        text,
    )
}

/// What submitting the name does: one that cannot be a name is refused, and
/// else its place is proposed, once it is known what lies above the directory.
pub open spec fn name_submitted(pre: App, post: App) -> bool {
    if !fork_name(trimmed(pre.prompt.text@)) {
        &&& post == (App { status: post.status, ..pre })
        &&& says(
            post.status,
            "workspace name: letters, digits, '-' or '_' only"@,
            pre.clock.now,
        )
    } else {
        match fork_dir(pre) {
            Some(dir) => {
                &&& post == (App { query: post.query, ..pre })
                &&& asked(post.query) == Some(Question::DestMarks { marks: jj_marks(dir) })
            },
            None => dest_prompted(pre, post, Seq::empty()),
        }
    }
}

/// What a key does while a workspace's name is typed.
pub open spec fn name_key(pre: App, post: App, key: KeyEvent) -> bool {
    match key.code {
        KeyCode::Char(c) => if key.modifiers.control || key.modifiers.alt {
            post == pre
        } else {
            name_typed(pre, post, pre.prompt.text@.push(c))
        },
        KeyCode::Backspace => name_typed(pre, post, dropped(pre.prompt.text@)),
        KeyCode::Esc => name_typed(
            App { mode: Mode::Sidebar, status: None, ..pre },
            post,
            Seq::empty(),
        ),
        KeyCode::Enter => name_submitted(pre, post),
        _ => post == pre,
    }
}

/// The prompt holds `text`.
pub open spec fn name_typed(pre: App, post: App, text: Seq<char>) -> bool {
    &&& post == (App { prompt: post.prompt, ..pre })
    &&& post.prompt@ == (PromptLine { text, ..pre.prompt@ })
}

/// The path that was typed for the new workspace.
pub open spec fn dest_typed(app: App) -> Seq<char> {
    resolved(trimmed(app.prompt.text@), opt_text(app.place.home), app.place.cwd@)
}

/// What asking for the new workspace does.
pub open spec fn fork_asked(pre: App, post: App, dest: Option<Seq<char>>, out: Seq<Sent>) -> bool {
    match pre.fork.target {
        Some(id) => {
            &&& post == (App {
                prompt: post.prompt,
                fork: Fork { name: post.fork.name, pending: true, ..pre.fork },
                mode: Mode::Sidebar,
                status: None,
                ..pre
            })
            &&& post.prompt@ == no_prompt()
            &&& post.fork.name@ == Seq::<char>::empty()
            &&& out == only(
                Asked::WorkspaceFork { id, name: pre.fork.name@, revision: None, dest },
            )
        },
        None => post == pre && out == nothing(),
    }
}

/// Where a workspace is made: below the real path of the directory that is to hold
/// it, where there is one, and under its own name. What has no parent or no name
/// is taken as it is.
pub open spec fn dest_below(typed: Seq<char>, canonical: Option<Seq<char>>) -> Seq<char> {
    match (parent_of(typed), base_name(typed)) {
        (Some(above), Some(leaf)) => match canonical {
            Some(c) => joined(c, leaf),
            None => joined(above, leaf),
        },
        _ => typed,
    }
}

/// What submitting the place does: nothing typed leaves it to the server, and
/// else the directory that will hold the workspace is looked for.
pub open spec fn dest_submitted(pre: App, post: App, out: Seq<Sent>) -> bool {
    if pre.fork.target is None {
        post == pre && out == nothing()
    } else if trimmed(pre.prompt.text@).len() == 0 {
        fork_asked(pre, post, None, out)
    } else if parent_of(dest_typed(pre)) is Some && base_name(dest_typed(pre)) is Some {
        &&& post == (App { query: post.query, ..pre })
        &&& asked(post.query) == Some(
            Question::DestParent { parent: parent_of(dest_typed(pre))->0 },
        )
        &&& out == nothing()
    } else {
        fork_asked(pre, post, Some(dest_typed(pre)), out)
    }
}

/// What a key does while a workspace's place is typed.
pub open spec fn dest_key(pre: App, post: App, key: KeyEvent, out: Seq<Sent>) -> bool {
    match key.code {
        KeyCode::Esc => {
            &&& post == (App {
                prompt: post.prompt,
                fork: Fork { name: post.fork.name, ..pre.fork },
                mode: Mode::SidebarWorkspaceName,
                status: None,
                ..pre
            })
            &&& post.fork.name@ == Seq::<char>::empty()
            &&& post.prompt@ == (PromptLine { text: pre.fork.name@, ..no_prompt() })
            &&& out == nothing()
        },
        KeyCode::Enter => dest_submitted(pre, post, out),
        _ => dir_key(pre, post, key) && out == nothing(),
    }
}

impl App {
    fn fork_dir_of(&self) -> (r: Option<String>)
        ensures
            opt_text(r) == fork_dir(*self),
    {
        match self.fork.target {
            Some(id) => match find_workspace(&self.workspaces, id) {
                Some(i) => Some(self.workspaces[i].dir.clone()),
                None => None,
            },
            None => None,
        }
    }

    fn prompt_dest(&mut self, text: String)
        ensures
            dest_prompted(*old(self), *final(self), text@),
    {
        self.fork.name = trim(self.prompt.text.as_str());
        self.mode = Mode::SidebarWorkspaceDest;
        self.status = None;
        self.retype(text);
    }

    fn advance_to_dest_step(&mut self)
        ensures
            name_submitted(*old(self), *final(self)),
    {
        let name: String = trim(self.prompt.text.as_str());
        if !is_valid_fork_name(name.as_str()) {
            self.set_status("workspace name: letters, digits, '-' or '_' only".to_owned());
            return;
        }
        match self.fork_dir_of() {
            Some(dir) => {
                self.query = Some(Query::DestMarks { marks: jj_mark_paths(dir.as_str()) });
            },
            None => {
                self.prompt_dest(String::new());
            },
        }
    }

    /// It is known which of the paths above the workspace's directory mark a
    /// repository: propose a place beside it.
    pub fn on_dest_marks(&mut self, found: &Vec<bool>)
        ensures
            dest_prompted(
                *old(self),
                *final(self),
                match fork_dir(*old(self)) {
                    Some(dir) => sibling(
                        dir,
                        jj_root_of(dir, found@),
                        trimmed(old(self).prompt.text@),
                        opt_text(old(self).place.home),
                    ),
                    None => Seq::empty(),
                },
            ),
            final(self).well_formed(),
    {
        let name: String = trim(self.prompt.text.as_str());
        let text: String = match self.fork_dir_of() {
            Some(dir) => {
                let root: Option<String> = jj_root(dir.as_str(), found);
                sibling_dest_prefill(dir.as_str(), &root, name.as_str(), &self.place.home)
            },
            None => String::new(),
        };
        self.prompt_dest(text);
    }

    fn write_name(&mut self, text: String)
        ensures
            name_typed(*old(self), *final(self), text@),
    {
        let ghost pre = *self;
        let ghost line = text@;
        self.prompt.text = text;
        assert(self.prompt@ =~= (PromptLine { text: line, ..pre.prompt@ }));
    }

    /// A key while a workspace's name is typed.
    pub(crate) fn on_key_workspace_name(&mut self, key: KeyEvent) -> (r: Vec<WireFrame>)
        ensures
            name_key(*old(self), *final(self), key),
            old(self).well_formed() ==> final(self).well_formed(),
            sent(r@) == nothing(),
    {
        match key.code {
            KeyCode::Char(c) => {
                if !key.modifiers.control && !key.modifiers.alt {
                    let mut text: String = self.prompt.text.clone();
                    text.push(c);
                    self.write_name(text);
                }
            },
            KeyCode::Backspace => {
                let mut text: String = self.prompt.text.clone();
                text.pop();
                self.write_name(text);
            },
            KeyCode::Esc => {
                self.mode = Mode::Sidebar;
                self.status = None;
                self.write_name(String::new());
            },
            KeyCode::Enter => {
                self.advance_to_dest_step();
            },
            _ => {},
        }
        no_frames()
    }

    fn ask_fork(&mut self, dest: Option<String>) -> (r: Vec<WireFrame>)
        ensures
            fork_asked(*old(self), *final(self), opt_text(dest), sent(r@)),
    {
        let id: WorkspaceId = match self.fork.target {
            Some(id) => id,
            None => {
                return no_frames();
            },
        };
        let name: String = self.fork.name.clone();
        self.fork.name = String::new();
        assert(self.fork.name@ == Seq::<char>::empty());
        self.clear_prompt();
        self.mode = Mode::Sidebar;
        self.status = None;
        self.fork.pending = true;
        ask(Request::WorkspaceFork { id, name, revision: None, dest })
    }

    fn submit_workspace(&mut self) -> (r: Vec<WireFrame>)
        ensures
            dest_submitted(*old(self), *final(self), sent(r@)),
    {
        if self.fork.target.is_none() {
            return no_frames();
        }
        let input: String = trim(self.prompt.text.as_str());
        if input.as_str().is_empty() {
            return self.ask_fork(None);
        }
        let typed: String = resolve_dir(
            input.as_str(),
            &self.place.home,
            self.place.cwd.as_str(),
        );
        match parent(typed.as_str()) {
            Some(above) => {
                if file_name(typed.as_str()).is_some() {
                    self.query = Some(Query::DestParent { parent: above });
                    return no_frames();
                }
            },
            None => {},
        }
        self.ask_fork(Some(typed))
    }

    /// The real path of the directory that will hold the new workspace is
    /// known, or that there is none.
    pub fn on_dest_parent(&mut self, canonical: Option<String>) -> (r: Vec<WireFrame>)
        ensures
            fork_asked(
                *old(self),
                *final(self),
                Some(dest_below(dest_typed(*old(self)), opt_text(canonical))),
                sent(r@),
            ),
            old(self).well_formed() ==> final(self).well_formed(),
    {
        let typed: String = resolve_dir(
            trim(self.prompt.text.as_str()).as_str(),
            &self.place.home,
            self.place.cwd.as_str(),
        );
        let above: Option<String> = parent(typed.as_str());
        let leaf: Option<String> = file_name(typed.as_str());
        let dest: String = match (above, leaf) {
            (Some(above), Some(leaf)) => match canonical {
                Some(c) => join(c.as_str(), leaf.as_str()),
                None => join(above.as_str(), leaf.as_str()),
            },
            _ => typed,
        };
        self.ask_fork(Some(dest))
    }

    /// A key while a workspace's place is typed.
    pub(crate) fn on_key_workspace_dest(&mut self, key: KeyEvent) -> (r: Vec<WireFrame>)
        ensures
            dest_key(*old(self), *final(self), key, sent(r@)),
            old(self).well_formed() ==> final(self).well_formed(),
    {
        match key.code {
            KeyCode::Esc => {
                let name: String = self.fork.name.clone();
                self.fork.name = String::new();
                assert(self.fork.name@ == Seq::<char>::empty());
                let ghost line = name@;
                self.prompt = Prompt { text: name, completions: Vec::new(), selected: 0 };
                assert(self.prompt@ =~= (PromptLine { text: line, ..no_prompt() }));
                self.mode = Mode::SidebarWorkspaceName;
                self.status = None;
                no_frames()
            },
            KeyCode::Enter => self.submit_workspace(),
            _ => {
                self.edit_dir(key);
                no_frames()
            },
        }
    }
}

// ---- laws ----------------------------------------------------------------

/// Backspace undoes a character that was typed.
pub proof fn backspace_undoes_typing(text: Seq<char>, c: char)
    ensures
        dropped(text.push(c)) == text,
{
    assert(text.push(c).drop_last() =~= text);
}

/// Going back from the place to the name gives the name back as it was typed,
/// without the white space around it.
pub proof fn going_back_restores_the_name(
    pre: App,
    mid: App,
    post: App,
    text: Seq<char>,
    key: KeyEvent,
    out: Seq<Sent>,
)
    requires
        dest_prompted(pre, mid, text),
        key.code == KeyCode::Esc,
        dest_key(mid, post, key, out),
    ensures
        post.mode == Mode::SidebarWorkspaceName,
        post.prompt.text@ == trimmed(pre.prompt.text@),
        post.fork.target == pre.fork.target,
{
    assert(post.prompt@.text == mid.fork.name@);
}

/// In a directory prompt, a character is added at the end and Backspace takes the
/// last away; Tab fills the highlighted completion in; down moves the highlight
/// towards the last completion and up towards the first, by one.
pub proof fn directory_keys_edit_the_prompt(pre: App, post: App, key: KeyEvent)
    requires
        dir_key(pre, post, key),
    ensures
        key.code matches KeyCode::Char(c) ==> (!key.modifiers.control && !key.modifiers.alt
            ==> post.prompt@.text == pre.prompt@.text.push(c)),
        key.code == KeyCode::Backspace && pre.prompt@.text.len() > 0 ==> post.prompt@.text
            == pre.prompt@.text.drop_last(),
        key.code == KeyCode::Tab && pre.prompt.selected < pre.prompt.completions@.len() ==> {
            let name = pre.prompt.completions@[pre.prompt.selected as int]@;
            &&& post.prompt@.text.len() >= name.len() + 1
            &&& post.prompt@.text.last() == '/'
            &&& post.prompt@.text.subrange(
                post.prompt@.text.len() - 1 - name.len(),
                post.prompt@.text.len() - 1,
            ) == name
        },
        key.code == KeyCode::Down && pre.prompt.selected + 1 < pre.prompt.completions@.len()
            ==> post.prompt.selected == pre.prompt.selected + 1,
        key.code == KeyCode::Up && pre.prompt.selected > 0 ==> post.prompt.selected
            == pre.prompt.selected - 1,
        key.code == KeyCode::Down || key.code == KeyCode::Up ==> post.prompt.text
            == pre.prompt.text,
{
    assert(pre.prompt.completions.len() == pre.prompt.completions@.len());
    if key.code == KeyCode::Tab && pre.prompt.selected < pre.prompt.completions@.len() {
        reveal_strlit("/");
        let name = pre.prompt.completions@[pre.prompt.selected as int]@;
        let text = post.prompt@.text;
        assert(text == filled(pre.prompt.text@, name));
        assert(text.subrange(text.len() - 1 - name.len(), text.len() - 1) =~= name);
    }
}

/// A workspace is forked from the one that was chosen, under the name that was typed
/// and at the place that was typed; without a place the server chooses it.
pub proof fn forks_are_as_typed(
    pre: App,
    post: App,
    dest: Option<Seq<char>>,
    id: WorkspaceId,
    out: Seq<Sent>,
)
    requires
        fork_asked(pre, post, dest, out),
        pre.fork.target == Some(id),
    ensures
        out.len() == 1,
        out[0] matches Sent::Control(Asked::WorkspaceFork { id: i, name, revision, dest: d }) && i
            == id && name == pre.fork.name@ && revision is None && d == dest,
        post.fork.pending,
        post.mode == Mode::Sidebar,
{
}

/// A new workspace lies directly below the directory that was typed for it, by its
/// real path where it has one, and keeps the name that was typed last.
pub proof fn places_keep_their_name(typed: Seq<char>, canonical: Option<Seq<char>>)
    requires
        parent_of(typed) is Some,
        base_name(typed) is Some,
    ensures
        canonical is Some ==> dest_below(typed, canonical) == joined(
            canonical->0,
            base_name(typed)->0,
        ),
        canonical is None ==> dest_below(typed, canonical) == joined(
            parent_of(typed)->0,
            base_name(typed)->0,
        ),
{
}

/// A project that is added is opened at its own directory, named after it, and the
/// client then waits to be shown it and asks what to run there.
pub proof fn added_projects_are_followed(pre: App, post: App, dir: Seq<char>, out: Seq<Sent>)
    requires
        project_added(pre, post, dir, out),
    ensures
        out == only(Asked::WorkspaceNew { dir }),
        post.mode == Mode::Launcher,
        post.adopt_active_view,
        post.launch@.after_add,
        post.launch@.target == base_name(dir),
        post.prompt@ == no_prompt(),
{
}

/// What is submitted as a project's directory is looked for as it was typed, without
/// the white space around it; nothing typed closes the prompt.
pub proof fn submitted_directories_are_looked_for(pre: App, post: App, key: KeyEvent)
    requires
        project_key(pre, post, key),
    ensures
        key.code == KeyCode::Enter && trimmed(pre.prompt.text@).len() == 0 ==> post.mode
            == Mode::Terminal && post.prompt@ == no_prompt(),
        key.code == KeyCode::Enter && trimmed(pre.prompt.text@).len() > 0 ==> (asked(
            post.query,
        ) matches Some(Question::Locate { typed, completed }) && typed == resolved(
            trimmed(pre.prompt.text@),
            opt_text(pre.place.home),
            pre.place.cwd@,
        ) && (completed is Some == (pre.prompt.selected < pre.prompt.completions@.len()))),
        key.code == KeyCode::Esc ==> post.mode == Mode::Sidebar && post.prompt@ == no_prompt(),
{
}

/// A workspace's name is refused where it could not be one, and the prompt then keeps
/// what was typed; else the place is asked for next.
pub proof fn bad_names_are_refused(pre: App, post: App, key: KeyEvent)
    requires
        name_key(pre, post, key),
        key.code == KeyCode::Enter,
    ensures
        !fork_name(trimmed(pre.prompt.text@)) ==> post.prompt == pre.prompt && post.mode == pre.mode
            && post.message() is Some,
        fork_name(trimmed(pre.prompt.text@)) && fork_dir(pre) is Some ==> (asked(
            post.query,
        ) matches Some(Question::DestMarks { marks }) && marks == jj_marks(fork_dir(pre)->0)),
        fork_name(trimmed(pre.prompt.text@)) && fork_dir(pre) is None ==> post.mode
            == Mode::SidebarWorkspaceDest,
{
}

} // verus!
