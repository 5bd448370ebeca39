//! The rows of the launcher.

use tutti::launcher::{
    age_label, agent_files, build_rows, catalog_start, first_selectable, insert_sessions,
    next_selectable, on_path, path_candidates, prev_selectable, resume_rows, short_url, truncate, AgentSpec, LaunchKind,
    LauncherRow, ResumeSession,
};

fn agent_row(name: &str, available: bool) -> LauncherRow {
    LauncherRow {
        name: name.into(),
        role: name.into(),
        kind: LaunchKind::Agent(name.into()),
        available,
    }
}

fn catalog() -> Vec<AgentSpec> {
    let spec = |kind: &str, display: &str, url: &str| AgentSpec {
        kind: kind.into(),
        display: display.into(),
        url: url.into(),
        process_names: vec![kind.into()],
    };
    vec![
        spec("aider", "Aider", "https://aider.chat/"),
        spec("goose", "Goose", "https://github.com/block/goose"),
        spec("codex", "Codex CLI", "https://github.com/openai/codex"),
    ]
}

/// Which of `files` are among the executables.
fn probed(files: Vec<String>, executables: &[&str]) -> Vec<bool> {
    files.iter().map(|f| executables.contains(&f.as_str())).collect()
}

/// Whether `name` is among the executables, looked for along `path`.
fn found(name: &str, path: Option<&str>, executables: &[&str]) -> bool {
    on_path(&probed(path_candidates(name, &path.map(Into::into)), executables))
}

#[test]
fn on_path_finds_only_executables_present_on_the_fake_path() {
    let executables = ["/fake/myagent"];

    assert!(found("myagent", Some("/fake"), &executables));
    assert!(!found("missing", Some("/fake"), &executables));
    assert!(!found("plainfile", Some("/fake"), &executables));
    assert!(!found("myagent", None, &executables), "an unset PATH finds nothing");
    assert!(found("myagent", Some("/usr/bin:/fake:/bin"), &executables));
}

#[test]
fn an_agent_is_found_under_any_of_its_names() {
    let mut agent = catalog().remove(1);
    agent.process_names = vec!["goose".into(), "gander".into()];
    let path = Some("/a:/b".to_string());
    let files = agent_files(&agent, &path);
    assert_eq!(files, ["/a/goose", "/b/goose", "/a/gander", "/b/gander"]);
    assert!(on_path(&probed(files.clone(), &["/b/gander"])));
    assert!(!on_path(&probed(files, &["/c/gander"])));
    assert!(agent_files(&agent, &None).is_empty());
    assert!(!on_path(&[]));
}

#[test]
fn build_rows_lists_agents_then_shell_and_command_with_availability() {
    // Only `goose` is installed; `codex` stays unavailable.
    let rows = build_rows(&catalog(), &vec![false, true, false], "/bin/zsh");
    // Installed agents lead, the fixed rows follow, and the rest of the
    // catalog sits dim at the foot with its project links.
    assert_eq!(rows[0].name, "goose");
    assert!(rows[0].available, "goose is installed");
    assert_eq!(rows[0].role, "Goose", "an installed row shows the product name");
    assert_eq!(rows[0].kind, LaunchKind::Agent("goose".into()));
    assert!(matches!(rows[1].kind, LaunchKind::Shell));
    assert!(matches!(rows[2].kind, LaunchKind::Command));
    assert!(
        rows[1].available && rows[2].available,
        "the fixed rows are always selectable"
    );
    assert_eq!(catalog_start(&rows), 3, "the dim catalog starts after the fixed rows");
    assert_eq!(rows.len(), catalog().len() + 2, "every catalog agent gets a row");
    let codex = rows[3..].iter().find(|r| r.name == "codex").unwrap();
    assert!(!codex.available, "codex is not installed");
    assert_eq!(
        codex.role, "Codex CLI · github.com/openai/codex",
        "an uninstalled row links to the project, scheme stripped"
    );
    assert!(
        rows[3..].iter().all(|r| !r.available),
        "everything after the fixed rows is the uninstalled catalog"
    );
}

fn sessions() -> Vec<ResumeSession> {
    vec![
        ResumeSession {
            agent: "goose".into(),
            id: "abc".into(),
            title: Some("fix the sidebar filtering because it is way too long".into()),
            age: 2 * 3600,
            cmd: vec!["goose".into(), "--resume".into(), "abc".into()],
        },
        ResumeSession {
            agent: "codex".into(),
            id: "def".into(),
            title: None,
            age: 30,
            cmd: vec!["codex".into(), "resume".into()],
        },
    ]
}

#[test]
fn resume_rows_label_age_and_gate_on_the_agents_availability() {
    let fixed = vec![agent_row("goose", true), agent_row("codex", false)];

    let rows = resume_rows(&sessions(), &fixed);
    assert_eq!(rows.len(), 2);
    assert_eq!(rows[0].name, "resume");
    assert_eq!(rows[0].role, "goose · 2h · fix the sidebar filtering b…");
    assert_eq!(
        rows[0].kind,
        LaunchKind::Resume(vec!["goose".into(), "--resume".into(), "abc".into()])
    );
    assert!(rows[0].available, "goose is installed, so resumable");
    assert_eq!(rows[1].role, "codex · now · untitled");
    assert!(
        !rows[1].available,
        "a conversation for an absent binary cannot resume"
    );
}

#[test]
fn navigation_skips_unavailable_rows() {
    let rows = vec![
        agent_row("a", true),
        agent_row("b", false),
        agent_row("c", true),
    ];
    assert_eq!(first_selectable(&rows), 0);
    assert_eq!(
        next_selectable(&rows, 0),
        2,
        "j jumps past the unavailable middle row"
    );
    assert_eq!(prev_selectable(&rows, 2), 0, "k jumps back past it");
    assert_eq!(next_selectable(&rows, 2), 2, "stays put at the end");
    assert_eq!(prev_selectable(&rows, 0), 0, "stays put at the start");
}

#[test]
fn conversations_stand_before_the_uninstalled_catalog() {
    let rows = build_rows(&catalog(), &vec![false, true, false], "/bin/zsh");
    let all = insert_sessions(rows, &sessions());
    let names: Vec<&str> = all.iter().map(|r| r.name.as_str()).collect();
    assert_eq!(names.iter().filter(|n| **n == "resume").count(), 2);
    assert_eq!(names.last(), Some(&"codex"));
    let last_resume = names.iter().rposition(|n| *n == "resume").unwrap();
    assert!(last_resume < names.iter().position(|n| *n == "aider").unwrap());
}

#[test]
fn ages_and_texts_are_shortened() {
    assert_eq!(age_label(0), "now");
    assert_eq!(age_label(59), "now");
    assert_eq!(age_label(60), "1m");
    assert_eq!(age_label(3599), "59m");
    assert_eq!(age_label(3600), "1h");
    assert_eq!(age_label(86399), "23h");
    assert_eq!(age_label(86400), "1d");
    assert_eq!(truncate("abcdef", 6), "abcdef");
    assert_eq!(truncate("abcdef", 4), "abc…");
    assert_eq!(short_url("https://www.aider.chat"), "aider.chat");
    assert_eq!(short_url("http://aider.chat"), "http://aider.chat");
}
