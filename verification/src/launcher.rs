//! The launcher's rows: what can be run in a pane, which of it is installed,
//! and how the selection moves.

use vstd::prelude::*;

use crate::path::{join, joined};
use crate::text::{
    after_prefix, begins, chars_of, copy_texts, decimal, glue, glue3, number, opt_text,
    range_string, same, texts,
};

verus! {

broadcast use vstd::string::group_string_axioms;

/// What a launcher row runs when chosen.
#[derive(Debug, PartialEq, Eq)]
pub enum LaunchKind {
    /// This agent binary.
    Agent(String),
    /// The login shell.
    Shell,
    /// A command line that is asked for.
    Command,
    /// A conversation that is picked up again with this command.
    Resume(Vec<String>),
}

/// One row: its label, what it runs, and whether it can be chosen.
#[derive(Debug, Clone, PartialEq, Eq)]
pub struct LauncherRow {
    pub name: String,
    pub role: String,
    pub kind: LaunchKind,
    pub available: bool,
}

/// An agent of the catalogue. The first of `process_names` is its command.
#[derive(Debug, Clone, PartialEq)]
pub struct AgentSpec {
    pub kind: String,
    pub display: String,
    pub url: String,
    pub process_names: Vec<String>,
}

/// A conversation of an agent that can be picked up again, `age` seconds old.
#[derive(Debug, Clone, PartialEq)]
pub struct ResumeSession {
    pub agent: String,
    pub id: String,
    pub title: Option<String>,
    pub age: u64,
    pub cmd: Vec<String>,
}

/// What a row runs, over texts.
pub enum LaunchLine {
    Agent(Seq<char>),
    Shell,
    Command,
    Resume(Seq<Seq<char>>),
}

/// What a row says, over texts.
pub struct RowLine {
    pub name: Seq<char>,
    pub role: Seq<char>,
    pub kind: LaunchLine,
    pub available: bool,
}

impl View for LaunchKind {
    type V = LaunchLine;

    open spec fn view(&self) -> LaunchLine {
        match self {
            LaunchKind::Agent(s) => LaunchLine::Agent(s@),
            LaunchKind::Shell => LaunchLine::Shell,
            LaunchKind::Command => LaunchLine::Command,
            LaunchKind::Resume(cmd) => LaunchLine::Resume(texts(cmd@)),
        }
    }
}

impl Clone for LaunchKind {
    fn clone(&self) -> (r: Self)
        ensures
            r@ == self@,
    {
        match self {
            LaunchKind::Agent(s) => LaunchKind::Agent(s.clone()),
            LaunchKind::Shell => LaunchKind::Shell,
            LaunchKind::Command => LaunchKind::Command,
            LaunchKind::Resume(cmd) => LaunchKind::Resume(copy_texts(cmd)),
        }
    }
}

impl View for LauncherRow {
    type V = RowLine;

    open spec fn view(&self) -> RowLine {
        RowLine {
            name: self.name@,
            role: self.role@,
            kind: self.kind@,
            available: self.available,
        }
    }
}

/// What a list of rows says.
pub open spec fn row_lines(s: Seq<LauncherRow>) -> Seq<RowLine> {
    s.map_values(|r: LauncherRow| r@)
}

impl LauncherRow {
    /// Whether the row can be chosen.
    pub fn selectable(&self) -> (r: bool)
        ensures
            r == self.available,
    {
        self.available
    }
}

// ---- finding what is installed -------------------------------------------

/// The parts of `s` between colons.
pub open spec fn colon_parts(s: Seq<char>) -> Seq<Seq<char>>
    decreases s.len(),
{
    if s.len() == 0 {
        seq![Seq::empty()]
    } else {
        let rest = colon_parts(s.drop_last());
        if s.last() == ':' {
            rest.push(Seq::empty())
        } else {
            rest.drop_last().push(rest.last().push(s.last()))
        }
    }
}

/// The files that the command `name` may be, on the search path `path`; none
/// where there is no search path.
pub open spec fn candidates(name: Seq<char>, path: Option<Seq<char>>) -> Seq<Seq<char>> {
    match path {
        None => Seq::empty(),
        Some(p) => colon_parts(p).map_values(|dir: Seq<char>| joined(dir, name)),
    }
}

proof fn colon_parts_some(s: Seq<char>)
    ensures
        colon_parts(s).len() > 0,
    decreases s.len(),
{
    if s.len() > 0 {
        colon_parts_some(s.drop_last());
    }
}

fn split_path(path: &str) -> (r: Vec<String>)
    ensures
        texts(r@) == colon_parts(path@),
{
    let cs: Vec<char> = chars_of(path);
    let mut out: Vec<String> = Vec::new();
    let mut part: String = String::new();
    assert(cs@.take(0) == Seq::<char>::empty());
    assert(texts(out@).push(part@) == colon_parts(cs@.take(0)));
    for i in 0..cs.len()
        invariant
            cs@ == path@,
            texts(out@).push(part@) == colon_parts(cs@.take(i as int)),
    {
        assert(cs@.take(i + 1).drop_last() == cs@.take(i as int));
        let ghost have = texts(out@);
        let ghost cur = part@;
        assert(have.push(cur).drop_last() == have);
        if cs[i] == ':' {
            out.push(part);
            part = String::new();
            assert(texts(out@) == have.push(cur));
        } else {
            part.push(cs[i]);
        }
    }
    assert(cs@.take(cs@.len() as int) == cs@);
    let ghost have = texts(out@);
    let ghost cur = part@;
    out.push(part);
    assert(texts(out@) == have.push(cur));
    out
}

/// The files that the command `name` may be, on the search path `path`.
pub fn path_candidates(name: &str, path: &Option<String>) -> (r: Vec<String>)
    ensures
        texts(r@) == candidates(name@, opt_text(*path)),
{
    let mut out: Vec<String> = Vec::new();
    match path {
        None => {
            assert(texts(out@) == Seq::<Seq<char>>::empty());
        },
        Some(p) => {
            let dirs: Vec<String> = split_path(p.as_str());
            let ghost f = |dir: Seq<char>| joined(dir, name@);
            let ghost all = texts(dirs@);
            for i in 0..dirs.len()
                invariant
                    all == texts(dirs@),
                    f == (|dir: Seq<char>| joined(dir, name@)),
                    texts(out@) == all.take(i as int).map_values(f),
            {
                let ghost have = texts(out@);
                out.push(join(dirs[i].as_str(), name));
                assert(texts(out@) == have.push(f(all[i as int])));
                assert(all.take(i + 1).map_values(f) == have.push(f(all[i as int])));
            }
            assert(all.take(all.len() as int) == all);
        },
    }
    out
}

/// The files that the first `n` commands of an agent may be, on the search path
/// `path`.
pub open spec fn files_of(names: Seq<Seq<char>>, path: Option<Seq<char>>, n: int) -> Seq<Seq<char>>
    decreases n,
{
    if n <= 0 {
        Seq::empty()
    } else {
        files_of(names, path, n - 1) + candidates(names[n - 1], path)
    }
}

/// The files that an agent's commands may be, on the search path `path`.
pub fn agent_files(spec: &AgentSpec, path: &Option<String>) -> (r: Vec<String>)
    ensures
        texts(r@) == files_of(
            texts(spec.process_names@),
            opt_text(*path),
            spec.process_names@.len() as int,
        ),
{
    let names: &Vec<String> = &spec.process_names;
    let ghost all = texts(names@);
    let mut out: Vec<String> = Vec::new();
    assert(texts(out@) == Seq::<Seq<char>>::empty());
    for i in 0..names.len()
        invariant
            all == texts(names@),
            texts(out@) == files_of(all, opt_text(*path), i as int),
    {
        let ghost have = texts(out@);
        let mut more: Vec<String> = path_candidates(names[i].as_str(), path);
        let ghost found = texts(more@);
        assert(all[i as int] == names@[i as int]@);
        out.append(&mut more);
        assert(texts(out@) =~= have + found);
    }
    out
}

/// Whether a command is found on the search path, going by which of the files that
/// it may be can be executed.
pub fn on_path(executable: &[bool]) -> (r: bool)
    ensures
        r == exists|i: int| 0 <= i < executable@.len() && #[trigger] executable@[i],
{
    for i in 0..executable.len()
        invariant
            forall|j: int| 0 <= j < i ==> !#[trigger] executable@[j],
    {
        if executable[i] {
            return true;
        }
    }
    false
}

/// The login shell: `$SHELL`, or `/bin/sh` where it is not set.
pub fn login_shell(shell: Option<String>) -> (r: String)
    ensures
        match shell {
            Some(s) => r == s,
            None => r@ == "/bin/sh"@,
        },
{
    match shell {
        Some(s) => s,
        None => "/bin/sh".to_owned(),
    }
}

// ---- the rows ------------------------------------------------------------

/// A link without its scheme and `www.`.
pub open spec fn shortened_url(url: Seq<char>) -> Seq<char> {
    let bare = if begins(url, "https://"@) {
        url.skip("https://"@.len() as int)
    } else {
        url
    };
    if begins(bare, "www."@) {
        bare.skip("www."@.len() as int)
    } else {
        bare
    }
}

/// A link without its scheme and `www.`.
pub fn short_url(url: &str) -> (r: String)
    ensures
        r@ == shortened_url(url@),
{
    let bare: String = match after_prefix(url, "https://") {
        Some(rest) => rest,
        None => url.to_owned(),
    };
    match after_prefix(bare.as_str(), "www.") {
        Some(rest) => rest,
        None => bare,
    }
}

/// The command of an agent: its first process name, or else its own.
pub open spec fn command_of(spec: AgentSpec) -> Seq<char> {
    if spec.process_names@.len() > 0 {
        spec.process_names@[0]@
    } else {
        spec.kind@
    }
}

/// The row of an agent: an installed one shows the product's name, another its
/// link as well.
pub open spec fn agent_line(spec: AgentSpec, available: bool) -> RowLine {
    RowLine {
        name: spec.kind@,
        role: if available {
            spec.display@
        } else {
            spec.display@ + " · "@ + shortened_url(spec.url@)
        },
        kind: LaunchLine::Agent(command_of(spec)),
        available,
    }
}

/// The rows of those of the first `n` agents that are installed, or that are
/// not.
pub open spec fn agent_lines(
    specs: Seq<AgentSpec>,
    installed: Seq<bool>,
    available: bool,
    n: int,
) -> Seq<RowLine>
    decreases n,
{
    if n <= 0 {
        Seq::empty()
    } else {
        let rest = agent_lines(specs, installed, available, n - 1);
        if installed[n - 1] == available {
            rest.push(agent_line(specs[n - 1], available))
        } else {
            rest
        }
    }
}

/// The two rows that are always there.
pub open spec fn fixed_lines(shell: Seq<char>) -> Seq<RowLine> {
    seq![
        RowLine { name: "shell"@, role: shell, kind: LaunchLine::Shell, available: true },
        RowLine {
            name: "command…"@,
            role: "type any command"@,
            kind: LaunchLine::Command,
            available: true,
        },
    ]
}

/// The launcher's rows: the installed agents, the shell and the free command,
/// then the rest of the catalogue.
pub open spec fn launcher_lines(
    specs: Seq<AgentSpec>,
    installed: Seq<bool>,
    shell: Seq<char>,
) -> Seq<RowLine> {
    agent_lines(specs, installed, true, specs.len() as int) + fixed_lines(shell) + agent_lines(
        specs,
        installed,
        false,
        specs.len() as int,
    )
}

fn agent_row(spec: &AgentSpec, available: bool) -> (r: LauncherRow)
    ensures
        r@ == agent_line(*spec, available),
{
    let command: String = if spec.process_names.len() > 0 {
        spec.process_names[0].clone()
    } else {
        spec.kind.clone()
    };
    let role: String = if available {
        spec.display.clone()
    } else {
        glue3(spec.display.as_str(), " · ", short_url(spec.url.as_str()).as_str())
    };
    LauncherRow { name: spec.kind.clone(), role, kind: LaunchKind::Agent(command), available }
}

fn append_agent_rows(
    rows: &mut Vec<LauncherRow>,
    specs: &Vec<AgentSpec>,
    installed: &Vec<bool>,
    available: bool,
)
    requires
        specs@.len() == installed@.len(),
    ensures
        row_lines(final(rows)@) == row_lines(old(rows)@) + agent_lines(
            specs@,
            installed@,
            available,
            specs@.len() as int,
        ),
{
    let ghost start = row_lines(rows@);
    for i in 0..specs.len()
        invariant
            specs@.len() == installed@.len(),
            row_lines(rows@) == start + agent_lines(specs@, installed@, available, i as int),
    {
        let ghost have = row_lines(rows@);
        if installed[i] == available {
            rows.push(agent_row(&specs[i], available));
            assert(row_lines(rows@) == have.push(agent_line(specs@[i as int], available)));
        }
    }
}

/// Build the rows. `installed` tells for each agent whether its command was
/// found, and `shell` is the login shell.
pub fn build_rows(specs: &Vec<AgentSpec>, installed: &Vec<bool>, shell: &str) -> (r: Vec<
    LauncherRow,
>)
    requires
        specs@.len() == installed@.len(),
    ensures
        row_lines(r@) == launcher_lines(specs@, installed@, shell@),
{
    let mut rows: Vec<LauncherRow> = Vec::new();
    append_agent_rows(&mut rows, specs, installed, true);
    let ghost have = row_lines(rows@);
    assert(have == agent_lines(specs@, installed@, true, specs@.len() as int));
    rows.push(
        LauncherRow {
            name: "shell".to_owned(),
            role: shell.to_owned(),
            kind: LaunchKind::Shell,
            available: true,
        },
    );
    rows.push(
        LauncherRow {
            name: "command…".to_owned(),
            role: "type any command".to_owned(),
            kind: LaunchKind::Command,
            available: true,
        },
    );
    assert(row_lines(rows@) == have + fixed_lines(shell@));
    append_agent_rows(&mut rows, specs, installed, false);
    rows
}

/// The place of the first row from `i` on that cannot be chosen, or the end.
pub open spec fn catalog_from(rows: Seq<RowLine>, i: int) -> int
    decreases rows.len() - i,
{
    if i < 0 || i >= rows.len() {
        rows.len() as int
    } else if !rows[i].available {
        i
    } else {
        catalog_from(rows, i + 1)
    }
}

/// Where the rows that cannot be chosen begin.
pub fn catalog_start(rows: &[LauncherRow]) -> (r: usize)
    ensures
        r == catalog_from(row_lines(rows@), 0),
        r <= rows@.len(),
{
    let ghost all = row_lines(rows@);
    for i in 0..rows.len()
        invariant
            all == row_lines(rows@),
            catalog_from(all, 0) == catalog_from(all, i as int),
    {
        assert(all[i as int] == rows@[i as int]@);
        if !rows[i].available {
            return i;
        }
    }
    rows.len()
}

/// A compact age: `now`, or minutes, hours or days.
pub open spec fn age_text(secs: nat) -> Seq<char> {
    if secs < 60 {
        "now"@
    } else if secs < 3600 {
        decimal(secs / 60) + "m"@
    } else if secs < 86_400 {
        decimal(secs / 3600) + "h"@
    } else {
        decimal(secs / 86_400) + "d"@
    }
}

/// A compact age.
pub fn age_label(secs: u64) -> (r: String)
    ensures
        r@ == age_text(secs as nat),
{
    if secs < 60 {
        "now".to_owned()
    } else if secs < 3600 {
        glue(number(secs / 60).as_str(), "m")
    } else if secs < 86_400 {
        glue(number(secs / 3600).as_str(), "h")
    } else {
        glue(number(secs / 86_400).as_str(), "d")
    }
}

/// `text` cut to `max` characters, the last one `…` where it was longer.
pub open spec fn truncated(text: Seq<char>, max: nat) -> Seq<char> {
    if text.len() <= max {
        text
    } else if max == 0 {
        seq!['…']
    } else {
        text.take(max - 1).push('…')
    }
}

/// `text` cut to `max` characters, the last one `…` where it was longer.
pub fn truncate(text: &str, max: usize) -> (r: String)
    ensures
        r@ == truncated(text@, max as nat),
{
    let cs: Vec<char> = chars_of(text);
    if cs.len() <= max {
        return text.to_owned();
    }
    let keep: usize = max.saturating_sub(1);
    let mut cut: String = range_string(cs.as_slice(), 0, keep);
    cut.push('…');
    assert(cut@ == truncated(text@, max as nat));
    cut
}

/// Whether a row of that name can be chosen.
pub open spec fn offers(rows: Seq<RowLine>, name: Seq<char>) -> bool {
    exists|i: int| 0 <= i < rows.len() && (#[trigger] rows[i]).name == name && rows[i].available
}

/// The row of a conversation: its agent, its age and its first words. It can be
/// chosen where its agent can.
pub open spec fn resume_line(session: ResumeSession, rows: Seq<RowLine>) -> RowLine {
    RowLine {
        name: "resume"@,
        role: session.agent@ + " · "@ + age_text(session.age as nat) + " · "@ + truncated(
            match session.title {
                Some(t) => t@,
                None => "untitled"@,
            },
            28,
        ),
        kind: LaunchLine::Resume(texts(session.cmd@)),
        available: offers(rows, session.agent@),
    }
}

/// The rows of conversations, in order.
pub open spec fn resume_lines(sessions: Seq<ResumeSession>, rows: Seq<RowLine>) -> Seq<RowLine> {
    sessions.map_values(|s: ResumeSession| resume_line(s, rows))
}

fn is_offered(rows: &[LauncherRow], name: &str) -> (r: bool)
    ensures
        r == offers(row_lines(rows@), name@),
{
    let ghost all = row_lines(rows@);
    for i in 0..rows.len()
        invariant
            all == row_lines(rows@),
            forall|j: int| 0 <= j < i ==> !((#[trigger] all[j]).name == name@ && all[j].available),
    {
        assert(all[i as int] == rows@[i as int]@);
        if rows[i].available && same(rows[i].name.as_str(), name) {
            return true;
        }
    }
    false
}

/// The rows of conversations.
pub fn resume_rows(sessions: &[ResumeSession], rows: &[LauncherRow]) -> (r: Vec<LauncherRow>)
    ensures
        row_lines(r@) == resume_lines(sessions@, row_lines(rows@)),
{
    let mut out: Vec<LauncherRow> = Vec::new();
    for i in 0..sessions.len()
        invariant
            row_lines(out@) == resume_lines(sessions@.take(i as int), row_lines(rows@)),
    {
        let s: &ResumeSession = &sessions[i];
        let title: &str = match &s.title {
            Some(t) => t.as_str(),
            None => "untitled",
        };
        let mut role: String = glue3(s.agent.as_str(), " · ", age_label(s.age).as_str());
        role.append(" · ");
        role.append(truncate(title, 28).as_str());
        let ghost have = row_lines(out@);
        out.push(
            LauncherRow {
                name: "resume".to_owned(),
                role,
                kind: LaunchKind::Resume(copy_texts(&s.cmd)),
                available: is_offered(rows, s.agent.as_str()),
            },
        );
        assert(row_lines(out@) == have.push(resume_line(*s, row_lines(rows@))));
        assert(resume_lines(sessions@.take(i + 1), row_lines(rows@)) == have.push(resume_line(*s, row_lines(rows@))));
    }
    assert(sessions@.take(sessions@.len() as int) == sessions@);
    out
}

/// The launcher's rows with those of conversations before the rows that cannot
/// be chosen.
pub open spec fn with_sessions(base: Seq<RowLine>, sessions: Seq<ResumeSession>) -> Seq<RowLine> {
    let at = catalog_from(base, 0);
    base.take(at) + resume_lines(sessions, base) + base.skip(at)
}

/// Put the rows of conversations before the rows that cannot be chosen.
pub fn insert_sessions(rows: Vec<LauncherRow>, sessions: &[ResumeSession]) -> (r: Vec<LauncherRow>)
    ensures
        row_lines(r@) == with_sessions(row_lines(rows@), sessions@),
{
    let mut resume: Vec<LauncherRow> = resume_rows(sessions, rows.as_slice());
    let at: usize = catalog_start(rows.as_slice());
    let mut out: Vec<LauncherRow> = rows;
    let ghost base = row_lines(out@);
    let ghost mid = row_lines(resume@);
    let mut tail: Vec<LauncherRow> = out.split_off(at);
    out.append(&mut resume);
    out.append(&mut tail);
    assert(row_lines(out@) == base.take(at as int) + mid + base.skip(at as int));
    out
}

// ---- the selection -------------------------------------------------------

/// Whether `r` is the first row that can be chosen, or 0 where none can.
pub open spec fn is_first(rows: Seq<LauncherRow>, r: int) -> bool {
    ||| 0 <= r < rows.len() && rows[r].available && forall|i: int|
        0 <= i < r ==> !(#[trigger] rows[i]).available
    ||| r == 0 && forall|i: int| 0 <= i < rows.len() ==> !(#[trigger] rows[i]).available
}

/// Whether `r` is the next row after `from` that can be chosen, or `from` where
/// none is.
pub open spec fn is_next(rows: Seq<LauncherRow>, from: int, r: int) -> bool {
    ||| from < r < rows.len() && rows[r].available && forall|i: int|
        from < i < r ==> !(#[trigger] rows[i]).available
    ||| r == from && forall|i: int| from < i < rows.len() ==> !(#[trigger] rows[i]).available
}

/// Whether `r` is the last row before `from` that can be chosen, or `from`
/// where none is.
pub open spec fn is_previous(rows: Seq<LauncherRow>, from: int, r: int) -> bool {
    ||| 0 <= r < from && rows[r].available && forall|i: int|
        r < i < from ==> !(#[trigger] rows[i]).available
    ||| r == from && forall|i: int| 0 <= i < from ==> !(#[trigger] rows[i]).available
}

/// The first row that can be chosen, or 0.
pub fn first_selectable(rows: &[LauncherRow]) -> (r: usize)
    ensures
        is_first(rows@, r as int),
{
    for i in 0..rows.len()
        invariant
            forall|j: int| 0 <= j < i ==> !(#[trigger] rows@[j]).available,
    {
        if rows[i].selectable() {
            return i;
        }
    }
    0
}

/// The next row after `from` that can be chosen; `from` where none is.
pub fn next_selectable(rows: &[LauncherRow], from: usize) -> (r: usize)
    ensures
        is_next(rows@, from as int, r as int),
{
    let mut i: usize = from;
    while i < rows.len() && i + 1 < rows.len()
        invariant
            from <= i,
            forall|j: int| from < j <= i && j < rows@.len() ==> !(#[trigger] rows@[j]).available,
        decreases rows.len() - i,
    {
        i = i + 1;
        if rows[i].selectable() {
            return i;
        }
    }
    from
}

/// The last row before `from` that can be chosen; `from` where none is.
pub fn prev_selectable(rows: &[LauncherRow], from: usize) -> (r: usize)
    requires
        from <= rows@.len(),
    ensures
        is_previous(rows@, from as int, r as int),
{
    let mut i: usize = from;
    while i > 0
        invariant
            i <= from <= rows@.len(),
            forall|j: int| i <= j < from ==> !(#[trigger] rows@[j]).available,
        decreases i,
    {
        i = i - 1;
        if rows[i].selectable() {
            return i;
        }
    }
    from
}

// ---- laws ----------------------------------------------------------------

/// Every agent of the catalogue has one row, besides the two that are always
/// there, and the rows that can be chosen stand before those that cannot.
pub proof fn every_agent_has_a_row(specs: Seq<AgentSpec>, installed: Seq<bool>, shell: Seq<char>)
    requires
        specs.len() == installed.len(),
    ensures
        launcher_lines(specs, installed, shell).len() == specs.len() + 2,
        forall|i: int, j: int|
            0 <= i < j < launcher_lines(specs, installed, shell).len() && (#[trigger] launcher_lines(
                specs,
                installed,
                shell,
            )[j]).available ==> (#[trigger] launcher_lines(specs, installed, shell)[i]).available,
{
    let n = specs.len() as int;
    agent_lines_count(specs, installed, n);
    let have = agent_lines(specs, installed, true, n);
    let rest = agent_lines(specs, installed, false, n);
    let all = launcher_lines(specs, installed, shell);
    assert forall|i: int, j: int|
        0 <= i < j < all.len() && (#[trigger] all[j]).available implies (
    #[trigger] all[i]).available by {
        if j >= have.len() + 2 {
            assert(all[j] == rest[j - have.len() - 2]);
        }
        if i < have.len() {
            assert(all[i] == have[i]);
        } else if i < have.len() + 2 {
            assert(all[i] == fixed_lines(shell)[i - have.len()]);
        }
    }
}

proof fn agent_lines_count(specs: Seq<AgentSpec>, installed: Seq<bool>, n: int)
    requires
        0 <= n <= specs.len(),
        specs.len() == installed.len(),
    ensures
        agent_lines(specs, installed, true, n).len() + agent_lines(specs, installed, false, n).len()
            == n,
        forall|i: int|
            0 <= i < agent_lines(specs, installed, true, n).len() ==> (#[trigger] agent_lines(
                specs,
                installed,
                true,
                n,
            )[i]).available,
        forall|i: int|
            0 <= i < agent_lines(specs, installed, false, n).len() ==> !(#[trigger] agent_lines(
                specs,
                installed,
                false,
                n,
            )[i]).available,
    decreases n,
{
    if n > 0 {
        agent_lines_count(specs, installed, n - 1);
    }
}

/// A text that was cut is exactly `max` characters long, and one that fits is
/// kept whole.
pub proof fn truncation_fits(text: Seq<char>, max: nat)
    requires
        max > 0,
    ensures
        truncated(text, max).len() <= max,
        text.len() > max ==> truncated(text, max).len() == max,
        text.len() <= max ==> truncated(text, max) == text,
{
}

/// Where an agent stands in the launcher tells whether it is installed: those that
/// are come first, in the catalogue's order, and can be chosen; those that are not
/// come last and cannot. Each runs its own command.
pub proof fn agents_stand_where_they_belong(
    specs: Seq<AgentSpec>,
    installed: Seq<bool>,
    shell: Seq<char>,
    i: int,
)
    requires
        specs.len() == installed.len(),
        0 <= i < specs.len(),
    ensures
        exists|k: int|
            #![trigger launcher_lines(specs, installed, shell)[k]]
            {
                let row = launcher_lines(specs, installed, shell)[k];
                &&& 0 <= k < launcher_lines(specs, installed, shell).len()
                &&& row.name == specs[i].kind@
                &&& row.available == installed[i]
                &&& row.kind == LaunchLine::Agent(command_of(specs[i]))
            },
{
    let n = specs.len() as int;
    let here = installed[i];
    let k = agent_found(specs, installed, n, i);
    let have = agent_lines(specs, installed, true, n);
    let rows = launcher_lines(specs, installed, shell);
    if here {
        assert(rows[k] == have[k]);
    } else {
        let at = have.len() + 2 + k;
        assert(rows[at] == agent_lines(specs, installed, false, n)[k]);
    }
}

proof fn agent_found(specs: Seq<AgentSpec>, installed: Seq<bool>, n: int, i: int) -> (k: int)
    requires
        specs.len() == installed.len(),
        0 <= i < n <= specs.len(),
    ensures
        0 <= k < agent_lines(specs, installed, installed[i], n).len(),
        agent_lines(specs, installed, installed[i], n)[k] == agent_line(specs[i], installed[i]),
    decreases n,
{
    if i == n - 1 {
        agent_lines(specs, installed, installed[i], n - 1).len() as int
    } else {
        agent_found(specs, installed, n - 1, i)
    }
}

/// The shell and the free command can always be chosen, the shell before the other,
/// right after the agents that are installed.
pub proof fn the_shell_is_always_there(
    specs: Seq<AgentSpec>,
    installed: Seq<bool>,
    shell: Seq<char>,
)
    requires
        specs.len() == installed.len(),
    ensures
        ({
            let rows = launcher_lines(specs, installed, shell);
            let at = agent_lines(specs, installed, true, specs.len() as int).len() as int;
            &&& rows[at].kind == LaunchLine::Shell && rows[at].available && rows[at].role == shell
            &&& rows[at + 1].kind == LaunchLine::Command && rows[at + 1].available
            &&& forall|j: int|
                0 <= j < at ==> (#[trigger] rows[j]).available && rows[j].kind is Agent
        }),
{
    let n = specs.len() as int;
    agent_lines_count(specs, installed, n);
    agents_only(specs, installed, true, n);
    let have = agent_lines(specs, installed, true, n);
    let rows = launcher_lines(specs, installed, shell);
    assert(rows[have.len() as int] == fixed_lines(shell)[0]);
    assert(rows[have.len() as int + 1] == fixed_lines(shell)[1]);
    assert forall|j: int| 0 <= j < have.len() implies (#[trigger] rows[j]).available
        && rows[j].kind is Agent by {
        assert(rows[j] == have[j]);
    }
}

proof fn agents_only(specs: Seq<AgentSpec>, installed: Seq<bool>, available: bool, n: int)
    ensures
        forall|j: int|
            0 <= j < agent_lines(specs, installed, available, n).len() ==> (#[trigger] agent_lines(
                specs,
                installed,
                available,
                n,
            )[j]).kind is Agent,
    decreases n,
{
    if n > 0 {
        agents_only(specs, installed, available, n - 1);
    }
}

/// An agent's command is the first of its process names, and its kind where it has
/// none.
pub proof fn commands_are_process_names(spec: AgentSpec)
    ensures
        spec.process_names@.len() > 0 ==> command_of(spec) == spec.process_names@[0]@,
        spec.process_names@.len() == 0 ==> command_of(spec) == spec.kind@,
{
}

/// A conversation's row runs the conversation's own command, names its agent first,
/// and can be chosen just where its agent can; the other rows stay as they are.
pub proof fn conversations_keep_their_command(
    base: Seq<RowLine>,
    sessions: Seq<ResumeSession>,
    i: int,
)
    requires
        0 <= i < sessions.len(),
    ensures
        ({
            let rows = with_sessions(base, sessions);
            let at = catalog_from(base, 0);
            &&& rows.len() == base.len() + sessions.len()
            &&& rows[at + i].kind == LaunchLine::Resume(texts(sessions[i].cmd@))
            &&& rows[at + i].available == offers(base, sessions[i].agent@)
            &&& begins(rows[at + i].role, sessions[i].agent@)
            &&& forall|j: int| 0 <= j < at ==> #[trigger] rows[j] == base[j]
            &&& forall|j: int|
                at <= j < base.len() ==> #[trigger] base[j] == rows[j + sessions.len()]
        }),
{
    catalog_bounds(base, 0);
    let at = catalog_from(base, 0);
    let rows = with_sessions(base, sessions);
    let more = resume_lines(sessions, base);
    assert(more[i] == resume_line(sessions[i], base));
    assert(rows[at + i] == more[i]);
    let role = rows[at + i].role;
    assert(role.take(sessions[i].agent@.len() as int) =~= sessions[i].agent@);
    assert forall|j: int| at <= j < base.len() implies #[trigger] base[j] == rows[j
        + sessions.len()] by {
        assert(base.skip(at)[j - at] == base[j]);
    }
}

proof fn catalog_bounds(rows: Seq<RowLine>, i: int)
    requires
        0 <= i <= rows.len(),
    ensures
        i <= catalog_from(rows, i) <= rows.len(),
    decreases rows.len() - i,
{
    if i < rows.len() && rows[i].available {
        catalog_bounds(rows, i + 1);
    }
}

/// An age is told in the largest unit that it fills: under a minute as now, then in
/// minutes, hours and days, each with its own letter.
pub proof fn ages_are_told_in_their_unit(secs: nat)
    ensures
        secs < 60 ==> age_text(secs) == "now"@,
        60 <= secs < 60 * 60 ==> age_text(secs) == decimal(secs / 60) + "m"@,
        60 * 60 <= secs < 24 * 60 * 60 ==> age_text(secs) == decimal(secs / (60 * 60)) + "h"@,
        24 * 60 * 60 <= secs ==> age_text(secs) == decimal(secs / (24 * 60 * 60)) + "d"@,
{
}

/// A text that is cut keeps its beginning and says that it was cut.
pub proof fn truncation_keeps_the_beginning(text: Seq<char>, max: nat, i: int)
    requires
        0 <= i < max - 1,
        text.len() > max,
    ensures
        truncated(text, max)[i] == text[i],
        truncated(text, max).last() == '…',
{
}

/// The files that a command may be are one for each directory of the search path, in
/// its order, and each is the command in that directory.
pub proof fn candidates_lie_in_the_path(name: Seq<char>, path: Seq<char>, i: int)
    requires
        0 <= i < colon_parts(path).len(),
    ensures
        candidates(name, Some(path)).len() == colon_parts(path).len(),
        candidates(name, Some(path))[i] == joined(colon_parts(path)[i], name),
        candidates(name, None).len() == 0,
{
}

} // verus!
