//! Hooks of coding agents.

use tutti::cli::{
    agent_event_request, agrees, install_preview, plan_install, settings_path, Change,
    InstallError,
};
use tutti::hooks::{
    claude_hooks_json, claude_hooks_snippet, hook_command, map_claude_event,
    merge_claude_hooks, read_event, MergeError,
};
use tutti::json::Json;
use tutti::model::PaneId;
use tutti::protocol::{AgentHookEvent, Request};

/// The command of the hooks.
const RUN: &str = "tutti agent-event goose";

fn merged(text: &str) -> Option<(Json, Vec<String>)> {
    merge_claude_hooks(RUN, Json::parse(text).unwrap()).unwrap()
}

#[test]
fn json_is_read_and_written() {
    let value = Json::parse("{\"b\": [1, null, true], \"a\": \"x\"}").unwrap();
    assert_eq!(value.get_text("a"), Some("x"));
    assert_eq!(value.get("missing"), None);
    assert_eq!(
        value.get("b"),
        Some(&Json::List(vec![Json::Number("1".into()), Json::Null, Json::Bool(true)]))
    );
    let text = value.pretty();
    assert!(text.contains("\n  \"a\": \"x\""), "{text}");
    assert_eq!(Json::parse(&text).unwrap().get_text("a"), Some("x"));
    assert!(Json::parse("{").is_err());
}

#[test]
fn merging_into_nothing_adds_every_event() {
    let (settings, added) = merged("null").unwrap();
    assert_eq!(
        added,
        vec!["PreToolUse", "PostToolUse", "SubagentStop", "Notification", "Stop"]
    );
    assert_eq!(settings, claude_hooks_json(RUN));
}

#[test]
fn merging_keeps_foreign_settings_and_hooks() {
    let text = "{\"model\": \"x\", \"hooks\": {\"Stop\": [{\"hooks\": [{\"command\": \"beep\"}]}]}}";
    let (settings, added) = merged(text).unwrap();
    assert_eq!(added.len(), 5);
    assert_eq!(settings.get_text("model"), Some("x"));
    let Some(Json::List(stop)) = settings.get("hooks").unwrap().get("Stop") else {
        panic!("the stop hooks are a list");
    };
    assert_eq!(stop.len(), 2, "the foreign hook stays, ahead of the new one");
    let Some(Json::List(first)) = stop[0].get("hooks") else {
        panic!("the foreign group keeps its hooks");
    };
    assert_eq!(first[0].get_text("command"), Some("beep"));
}

#[test]
fn hooks_report_to_the_client() {
    assert_eq!(hook_command("goose"), RUN);
    let text = claude_hooks_snippet(RUN);
    assert_eq!(Json::parse(&text).unwrap().pretty(), text);
    assert_eq!(text.matches(RUN).count(), 5);
    let stop = "{\"hooks\": {\"Stop\": [{\"hooks\": [{\"command\": \"x\"}]}]}}";
    let (settings, _) = merge_claude_hooks("x", Json::parse(stop).unwrap()).unwrap().unwrap();
    let Some(Json::List(groups)) = settings.get("hooks").unwrap().get("Stop") else {
        panic!("the stop hooks are a list");
    };
    assert_eq!(groups.len(), 1, "an event that is reported stays as it is");
}

#[test]
fn merging_twice_changes_nothing() {
    let (settings, _) = merged("{\"model\": \"x\"}").unwrap();
    assert!(merged(&settings.pretty()).is_none());
}

#[test]
fn merging_refuses_settings_of_another_shape() {
    let fault = |text: &str| merge_claude_hooks(RUN, Json::parse(text).unwrap()).unwrap_err();
    assert_eq!(fault("[]"), MergeError::Settings);
    assert_eq!(fault("{\"hooks\": 3}"), MergeError::Hooks);
    assert_eq!(fault("{\"hooks\": {\"Stop\": {}}}"), MergeError::Event);
}

#[test]
fn events_are_sent_from_panes_only() {
    let stop = "{\"hook_event_name\": \"Stop\"}";
    assert_eq!(
        agent_event_request(Some("7"), stop),
        Some(Request::AgentEvent { pane: PaneId(7), event: AgentHookEvent::Done })
    );
    assert_eq!(agent_event_request(None, stop), None);
    assert_eq!(agent_event_request(Some("seven"), stop), None);
    assert_eq!(agent_event_request(Some("7"), "not json"), None);
    assert_eq!(agent_event_request(Some("7"), "{}"), None);
    assert_eq!(read_event(stop), Some(AgentHookEvent::Done));
}

#[test]
fn installing_shows_the_change_and_asks() {
    assert_eq!(settings_path("goose", true, None), Some(".goose/settings.json".to_string()));
    assert_eq!(
        settings_path("goose", false, Some("/home/me")),
        Some("/home/me/.goose/settings.json".to_string())
    );
    assert_eq!(settings_path("goose", false, None), None);
    assert_eq!(
        install_preview("p", &vec!["A".into(), "B".into()], None, "{}"),
        "p: adding tutti hooks for A, B\n\n--- hooks before ---\n(no hooks yet)\n--- hooks after ---\n{}\n\n"
    );
    assert!(agrees(" yes\n") && agrees("y") && agrees("Y\n"));
    assert!(!agrees("n") && !agrees(""));
}

fn ev(json: &str) -> Option<AgentHookEvent> {
    map_claude_event(&Json::parse(json).unwrap())
}

#[test]
fn pre_tool_use_task_becomes_subagent_started() {
    let out = ev(r#"{
        "hook_event_name": "PreToolUse",
        "tool_name": "Task",
        "tool_input": { "description": "build the core", "title": "core" }
    }"#);
    assert_eq!(
        out,
        Some(AgentHookEvent::SubagentStarted {
            id: "build the core".into(),
            desc: "build the core".into(),
        })
    );
}

#[test]
fn task_without_description_falls_back_to_title_then_placeholder() {
    let title = ev(r#"{
        "hook_event_name": "PreToolUse",
        "tool_name": "Task",
        "tool_input": { "title": "only a title" }
    }"#);
    assert_eq!(
        title,
        Some(AgentHookEvent::SubagentStarted {
            id: "only a title".into(),
            desc: "only a title".into(),
        })
    );
    let bare =
        ev(r#"{ "hook_event_name": "PreToolUse", "tool_name": "Task", "tool_input": {} }"#);
    assert_eq!(
        bare,
        Some(AgentHookEvent::SubagentStarted {
            id: "subagent".into(),
            desc: "subagent".into(),
        })
    );
}

#[test]
fn other_tools_and_post_tool_use_become_activity() {
    assert_eq!(
        ev(r#"{ "hook_event_name": "PreToolUse", "tool_name": "Bash", "tool_input": {} }"#),
        Some(AgentHookEvent::Activity {
            detail: Some("Bash".into())
        })
    );
    assert_eq!(
        ev(r#"{ "hook_event_name": "PostToolUse", "tool_name": "Edit" }"#),
        Some(AgentHookEvent::Activity {
            detail: Some("Edit".into())
        })
    );
}

#[test]
fn subagent_stop_reads_agent_id_then_type() {
    assert_eq!(
        ev(r#"{ "hook_event_name": "SubagentStop", "agent_id": "abc" }"#),
        Some(AgentHookEvent::SubagentStopped { id: "abc".into() })
    );
    assert_eq!(
        ev(r#"{ "hook_event_name": "SubagentStop", "agent_type": "Explore" }"#),
        Some(AgentHookEvent::SubagentStopped {
            id: "Explore".into()
        })
    );
}

#[test]
fn notification_becomes_blocked_with_message() {
    assert_eq!(
        ev(r#"{ "hook_event_name": "Notification", "message": "allow edit?" }"#),
        Some(AgentHookEvent::Blocked {
            message: Some("allow edit?".into())
        })
    );
}

#[test]
fn stop_becomes_done() {
    assert_eq!(
        ev(r#"{ "hook_event_name": "Stop", "last_assistant_message": "all set" }"#),
        Some(AgentHookEvent::Done)
    );
}

#[test]
fn irrelevant_or_malformed_events_map_to_nothing() {
    assert_eq!(ev(r#"{ "hook_event_name": "SessionStart" }"#), None);
    assert_eq!(ev(r#"{ "hook_event_name": "PreCompact" }"#), None);
    // Missing the event name entirely.
    assert_eq!(ev(r#"{ "tool_name": "Bash" }"#), None);
}

#[test]
fn unknown_fields_are_tolerated() {
    // A future schema adds fields we do not read; the mapping still works.
    let out = ev(r#"{
        "hook_event_name": "Stop",
        "session_id": "x",
        "cwd": "/tmp",
        "effort": { "level": "high" },
        "brand_new_field": [1, 2, 3]
    }"#);
    assert_eq!(out, Some(AgentHookEvent::Done));
}

#[test]
fn snippet_is_valid_json_naming_every_event_and_the_command() {
    let value = claude_hooks_json(RUN);
    let hooks = value.get("hooks").unwrap();
    for event in [
        "PreToolUse",
        "PostToolUse",
        "SubagentStop",
        "Notification",
        "Stop",
    ] {
        assert!(hooks.get(event).is_some(), "missing {event}");
    }
    assert!(claude_hooks_snippet(RUN).contains(RUN));
}

fn plan(text: Option<&str>) -> Result<Option<Change>, InstallError> {
    plan_install("goose", "settings.json", text)
}

#[test]
fn installing_twice_changes_nothing() {
    let existing = "{\"model\": \"x\", \"limit\": 12, \"hooks\": {\"Stop\": []}}";
    let change = plan(Some(existing)).unwrap().unwrap();
    assert!(change.preview.starts_with("settings.json: adding tutti hooks for PreToolUse, "));
    assert!(change.preview.contains("--- hooks before ---\n{\n  \"Stop\": []\n}\n"));
    assert_eq!(plan(Some(&change.settings)), Ok(None));

    let fresh = plan(None).unwrap().unwrap();
    assert!(fresh.preview.contains("(no hooks yet)"));
    assert_eq!(fresh.settings, claude_hooks_snippet(RUN));
    assert_eq!(plan(Some(&fresh.settings)), Ok(None));
}

#[test]
fn installing_twice_changes_nothing_whatever_the_numbers() {
    for number in ["0.1", "1.7976931348623157e308", "5e-324", "-0.0", "123456789012345678901"] {
        let existing = format!("{{\"n\": {number}, \"z\": [{{\"a\": {number}}}]}}");
        let change = plan(Some(&existing)).unwrap().unwrap();
        assert_eq!(plan(Some(&change.settings)), Ok(None), "{number}");
    }
}

#[test]
fn installing_twice_changes_nothing_however_deep() {
    let nested = |n: usize| format!("{{\"d\": {}{}}}", "[".repeat(n), "]".repeat(n));
    let change = plan(Some(&nested(126))).unwrap().unwrap();
    assert_eq!(plan(Some(&change.settings)), Ok(None));
    assert!(matches!(plan(Some(&nested(127))), Err(InstallError::Syntax(_))), "too deep to be read");
}

#[test]
fn settings_that_are_no_settings_are_refused() {
    assert!(matches!(plan(Some("{")), Err(InstallError::Syntax(_))));
    assert_eq!(plan(Some("3")), Err(InstallError::Shape(MergeError::Settings)));
    assert_eq!(plan(Some("{\"hooks\": []}")), Err(InstallError::Shape(MergeError::Hooks)));
    assert_eq!(
        plan(Some("{\"hooks\": {\"Stop\": 1}}")),
        Err(InstallError::Shape(MergeError::Event))
    );
}
