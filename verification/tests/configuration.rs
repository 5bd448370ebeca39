//! The configuration.

use tutti::config::{
    config_path, expand_home, Action, Chord, Config, ConfigError, Icons, PrefixAction, Preset,
    SidebarVisibility,
};
use tutti::key::{key_label, KeyCode, KeyEvent, KeyModifiers};

fn ctrl(c: char) -> KeyEvent {
    KeyEvent::new(KeyCode::Char(c), KeyModifiers::control())
}

fn alt(c: char) -> KeyEvent {
    KeyEvent::new(KeyCode::Char(c), KeyModifiers::alt())
}

fn plain(c: char) -> KeyEvent {
    KeyEvent::new(KeyCode::Char(c), KeyModifiers::none())
}

fn fails(text: &str) -> ConfigError {
    Config::parse(text, &None).unwrap_err()
}

#[test]
fn expand_home_expands_tilde_only() {
    let home = Some("/home/alice".to_string());
    assert_eq!(expand_home("~", &home), "/home/alice");
    assert_eq!(expand_home("~/develop/x", &home), "/home/alice/develop/x");
    assert_eq!(expand_home("/abs", &home), "/abs");
    assert_eq!(expand_home("~", &None), "~", "without a home, ~ is taken literally");
}

#[test]
fn an_empty_file_gives_the_defaults() {
    let parsed = Config::parse("", &None).unwrap();
    let default = Config::default();
    assert_eq!(parsed.prefix, default.prefix);
    assert_eq!(parsed.mouse, default.mouse);
    assert_eq!(parsed.icons, Icons::Unicode);
    assert!(parsed.chrome_background);
    for key in [ctrl('h'), ctrl('j'), alt('k'), alt('x'), plain('q')] {
        assert_eq!(parsed.keys.action_for(key), default.keys.action_for(key));
    }
}

#[test]
fn faults_name_what_is_wrong() {
    assert!(fails("icons = \"emoji\"\n").message().contains("\"emoji\""));
    assert!(fails("mouse = 3\n").message().contains("mouse"));
    assert!(fails("prefix = \"C-\"\n").message().contains("C-"));
    assert!(fails("this is not toml").message().contains("this is"));
    assert!(fails("[keys]\nfocus_left = true\n").message().contains("focus_left"));
}

#[test]
fn project_dirs_expand_the_home_directory() {
    let home = Some("/home/alice".to_string());
    let cfg = Config::parse("[[projects]]\ndir = \"~/src\"\n", &home).unwrap();
    assert_eq!(cfg.projects, vec!["/home/alice/src".to_string()]);
}

#[test]
fn labels_are_short() {
    assert_eq!(Chord::parse("C-b").unwrap().label(), "C-b");
    assert_eq!(Chord::parse("A-x").unwrap().label(), "A-x");
    assert_eq!(Chord::parse("%").unwrap().label(), "%");
    assert_eq!(key_label(KeyCode::Left), "←");
    assert_eq!(key_label(KeyCode::F(5)), "F(5)");
}

#[test]
fn the_file_lies_below_the_configuration_directory() {
    let home = Some("/home/alice".to_string());
    assert_eq!(config_path(&Some("/cfg".to_string()), &home), "/cfg/tutti/config.toml");
    assert_eq!(config_path(&None, &home), "/home/alice/.config/tutti/config.toml");
}

const EXAMPLE: &str = r#"
prefix = "C-b"
mouse = true

[keys]
focus_left  = "C-h"
focus_down  = "C-j"
focus_up    = "C-k"
focus_right = "C-l"
resize_left  = "A-h"
resize_down  = "A-j"
resize_up    = "A-k"
resize_right = "A-l"
kill_pane    = "A-x"
"#;

#[test]
fn chord_parses_ctrl_alt_and_bare() {
    assert_eq!(
        Chord::parse("C-x").unwrap(),
        Chord {
            code: KeyCode::Char('x'),
            mods: KeyModifiers::control()
        }
    );
    assert_eq!(
        Chord::parse("A-x").unwrap(),
        Chord {
            code: KeyCode::Char('x'),
            mods: KeyModifiers::alt()
        }
    );
    assert_eq!(
        Chord::parse("x").unwrap(),
        Chord {
            code: KeyCode::Char('x'),
            mods: KeyModifiers::none()
        }
    );
}

#[test]
fn chord_matching_is_modifier_exact() {
    let c = Chord::parse("C-h").unwrap();
    assert!(c.matches(ctrl('h')));
    assert!(!c.matches(plain('h')));
    assert!(!c.matches(alt('h')));
}

#[test]
fn default_prefix_matches_ctrl_b_only() {
    let config = Config::default();
    assert!(config.prefix.matches(ctrl('b')));
    assert!(!config.prefix.matches(plain('b')));
}

#[test]
fn defaults_when_file_missing() {
    let config = Config::default();
    assert!(config.mouse);
    assert_eq!(config.keys.action_for(ctrl('h')), Some(Action::FocusLeft));
    assert_eq!(config.keys.action_for(ctrl('l')), Some(Action::FocusRight));
    assert_eq!(config.keys.action_for(alt('j')), Some(Action::ResizeDown));
    assert_eq!(config.keys.action_for(alt('x')), Some(Action::KillPane));
}

#[test]
fn parses_full_example() {
    let config = Config::parse(EXAMPLE, &None).unwrap();
    assert!(config.mouse);
    assert!(config.prefix.matches(ctrl('b')));
    assert_eq!(config.keys.action_for(ctrl('k')), Some(Action::FocusUp));
    assert_eq!(config.keys.action_for(alt('l')), Some(Action::ResizeRight));
    assert_eq!(config.keys.action_for(alt('x')), Some(Action::KillPane));
}

#[test]
fn none_disables_a_binding() {
    let config = Config::parse("[keys]\nfocus_left = \"none\"\n", &None).unwrap();
    assert_eq!(config.keys.action_for(ctrl('h')), None);
    // The others keep their defaults.
    assert_eq!(config.keys.action_for(ctrl('l')), Some(Action::FocusRight));
}

#[test]
fn custom_prefix_and_mouse_off() {
    let config = Config::parse("prefix = \"C-a\"\nmouse = false\n", &None).unwrap();
    assert!(config.prefix.matches(ctrl('a')));
    assert!(!config.mouse);
}

#[test]
fn malformed_chord_names_the_entry() {
    let err = Config::parse("[keys]\nfocus_left = \"C-\"\n", &None).unwrap_err();
    assert!(
        err.message().contains("focus_left"),
        "error should name the offending entry: {err:?}"
    );
}

#[test]
fn unknown_action_is_rejected() {
    let err = Config::parse("[keys]\nfocus_lft = \"C-h\"\n", &None).unwrap_err();
    assert!(
        err.message().contains("focus_lft"),
        "error should name the unknown key: {err:?}"
    );
}

#[test]
fn unknown_top_level_key_is_rejected() {
    let err = Config::parse("prefixx = \"C-a\"\n", &None).unwrap_err();
    assert!(
        err.message().contains("prefixx"),
        "error should name the unknown key: {err:?}"
    );
}

#[test]
fn preset_selection_changes_prefix_bindings() {
    let default = Config::default();
    assert_eq!(default.preset, Preset::Default);
    assert_eq!(
        default.prefix_action(KeyCode::Char('%')),
        Some(PrefixAction::SplitRight)
    );

    let vim = Config::parse("preset = \"vim\"\n", &None).unwrap();
    assert_eq!(vim.preset, Preset::Vim);
    assert_eq!(
        vim.prefix_action(KeyCode::Char('v')),
        Some(PrefixAction::SplitRight)
    );
    assert_eq!(
        vim.prefix_action(KeyCode::Char('s')),
        Some(PrefixAction::SplitDown)
    );
    assert_eq!(
        vim.prefix_action(KeyCode::Char('q')),
        Some(PrefixAction::KillPane)
    );
    // The default's `%` is not a vim binding.
    assert_eq!(vim.prefix_action(KeyCode::Char('%')), None);
}

#[test]
fn both_presets_keep_detach_reachable() {
    assert_eq!(
        Config::default().prefix_key(PrefixAction::Detach),
        Some(KeyCode::Char('q'))
    );
    let vim = Config::parse("preset = \"vim\"\n", &None).unwrap();
    assert_eq!(
        vim.prefix_action(KeyCode::Char('d')),
        Some(PrefixAction::Detach)
    );
    assert_eq!(
        vim.prefix_key(PrefixAction::Detach),
        Some(KeyCode::Char('d'))
    );
}

#[test]
fn whichkey_rows_are_the_dispatch_table() {
    // Every row the which-key popup renders dispatches to its own action —
    // one source of truth for both presets.
    for cfg in [
        Config::default(),
        Config::parse("preset = \"vim\"\n", &None).unwrap(),
    ] {
        assert!(!cfg.prefix_bindings().is_empty());
        for binding in cfg.prefix_bindings() {
            assert_eq!(cfg.prefix_action(binding.key), Some(binding.action));
        }
    }
}

#[test]
fn keys_override_beats_preset_default() {
    // A [keys] entry wins over the preset-provided default binding table.
    let cfg = Config::parse("preset = \"vim\"\n[keys]\nfocus_left = \"none\"\n", &None).unwrap();
    assert_eq!(cfg.keys.action_for(ctrl('h')), None);

    let cfg = Config::parse("[keys]\nfocus_left = \"C-y\"\n", &None).unwrap();
    assert_eq!(cfg.keys.action_for(ctrl('y')), Some(Action::FocusLeft));
    assert_eq!(cfg.keys.action_for(ctrl('h')), None);
}

#[test]
fn unknown_preset_is_rejected() {
    let err = Config::parse("preset = \"zap\"\n", &None).unwrap_err();
    assert!(
        err.message().contains("zap"),
        "error should name the preset: {err:?}"
    );
}

#[test]
fn sidebar_defaults_to_on_and_parses_values() {
    assert_eq!(Config::default().sidebar, SidebarVisibility::On);
    assert_eq!(
        Config::parse("sidebar = \"on\"\n", &None).unwrap().sidebar,
        SidebarVisibility::On
    );
    assert_eq!(
        Config::parse("sidebar = \"off\"\n", &None).unwrap().sidebar,
        SidebarVisibility::Off
    );
    assert_eq!(
        Config::parse("sidebar = \"auto\"\n", &None).unwrap().sidebar,
        SidebarVisibility::Auto
    );
}

#[test]
fn projects_default_empty_and_parse_a_dir_list() {
    assert!(Config::default().projects.is_empty());
    let cfg =
        Config::parse("[[projects]]\ndir = \"/srv/api\"\n\n[[projects]]\ndir = \"/srv/web\"\n", &None)
            .unwrap();
    assert_eq!(
        cfg.projects,
        vec!["/srv/api".to_string(), "/srv/web".to_string()]
    );
}

#[test]
fn projects_may_be_lists() {
    let cfg = Config::parse("projects = [[\"/a\"], { dir = \"/b\" }, [\"/c\", 3]]\n", &None).unwrap();
    assert_eq!(cfg.projects, vec!["/a".to_string(), "/b".to_string(), "/c".to_string()]);
    assert!(fails("projects = [[]]\n").message().contains("dir"));
    assert!(fails("projects = [[1]]\n").message().contains("dir"));
    assert!(fails("projects = [\"/a\"]\n").message().contains("projects"));
}

#[test]
fn keys_may_be_a_list_of_all_of_them() {
    let chords = "\"C-a\", \"none\", \"C-c\", \"C-d\", \"C-e\", \"C-f\", \"C-g\", \"C-n\"";
    let cfg = Config::parse(&format!("keys = [{chords}, \"C-o\"]\n"), &None).unwrap();
    assert_eq!(cfg.keys.action_for(ctrl('a')), Some(Action::FocusLeft));
    assert_eq!(cfg.keys.action_for(ctrl('j')), None);
    assert_eq!(cfg.keys.action_for(ctrl('c')), Some(Action::FocusUp));
    assert_eq!(cfg.keys.action_for(ctrl('o')), Some(Action::KillPane));
    assert!(Config::parse(&format!("keys = [{chords}, \"C-o\", 3]\n"), &None).is_ok());
    assert!(fails(&format!("keys = [{chords}]\n")).message().contains("keys"));
    assert!(fails(&format!("keys = [{chords}, 3]\n")).message().contains("kill_pane"));
    assert!(fails("keys = 3\n").message().contains("keys"));
}

#[test]
fn project_requires_a_dir() {
    let err = Config::parse("[[projects]]\n", &None).unwrap_err();
    assert!(
        err.message().contains("dir"),
        "error should name the missing key: {err:?}"
    );
}

#[test]
fn unknown_sidebar_value_is_rejected() {
    let err = Config::parse("sidebar = \"maybe\"\n", &None).unwrap_err();
    assert!(
        err.message().contains("maybe"),
        "error should name the offending value: {err:?}"
    );
}

#[test]
fn notifications_default_on_and_toggle_off() {
    assert!(Config::default().notifications);
    assert!(
        !Config::parse("notifications = false\n", &None)
            .unwrap()
            .notifications
    );
    assert!(
        Config::parse("notifications = true\n", &None)
            .unwrap()
            .notifications
    );
}

#[test]
fn both_presets_bind_the_sidebar_key() {
    for cfg in [
        Config::default(),
        Config::parse("preset = \"vim\"\n", &None).unwrap(),
    ] {
        assert_eq!(
            cfg.prefix_action(KeyCode::Char('w')),
            Some(PrefixAction::Sidebar),
            "w should focus the sidebar in every preset"
        );
    }
}
