//! Paths, held against those of the standard library.

use std::path::Path;

use tutti::dirs::{
    common_parent, fill_in, is_jj_workspace, jj_mark_paths, jj_root, prompt_prefill, resolve_dir,
    sibling_dest_prefill, split_input, workspace_name_from_dir,
};
use tutti::path::{ancestors, file_name, is_absolute, join, parent, parts, same_path, strip_prefix};

fn samples() -> Vec<&'static str> {
    vec![
        "", "/", "//", ".", "..", "./", "../", "/.", "/..", "a", "a/", "/a", "/a/", "a/b", "/a/b",
        "/a//b", "/a/./b", "/a/../b", "a/.", "a/..", "./a", "././a", "/a/b/.", "/a/b/..", "//a",
        "a//", "~", "~/x", "/home/me/src", "a/./b/", "...", "/...", "ä/ö",
    ]
}

#[test]
fn single_paths_agree() {
    for s in samples() {
        let p = Path::new(s);
        assert_eq!(is_absolute(s), p.is_absolute(), "{s:?}");
        assert_eq!(
            file_name(s),
            p.file_name().map(|n| n.to_str().unwrap().to_string()),
            "{s:?}"
        );
        assert_eq!(parent(s), p.parent().map(|n| n.to_str().unwrap().to_string()), "{s:?}");
        let theirs: Vec<String> =
            p.components().map(|c| c.as_os_str().to_str().unwrap().to_string()).collect();
        assert_eq!(parts(s), theirs, "{s:?}");
        let theirs: Vec<String> =
            p.ancestors().map(|a| a.to_str().unwrap().to_string()).collect();
        assert_eq!(ancestors(s), theirs, "{s:?}");
    }
}

#[test]
fn pairs_of_paths_agree() {
    for a in samples() {
        for b in samples() {
            let (p, q) = (Path::new(a), Path::new(b));
            assert_eq!(join(a, b), p.join(q).to_str().unwrap(), "{a:?} {b:?}");
            assert_eq!(same_path(a, b), p == q, "{a:?} {b:?}");
            assert_eq!(
                strip_prefix(a, b),
                p.strip_prefix(q).ok().map(|r| r.to_str().unwrap().to_string()),
                "{a:?} {b:?}"
            );
        }
    }
}

#[test]
fn typed_paths_split_at_the_last_slash() {
    assert_eq!(split_input("/a/bc"), ("/a/".to_string(), "bc".to_string()));
    assert_eq!(split_input("bc"), (String::new(), "bc".to_string()));
    assert_eq!(fill_in("/a/b", "beta"), "/a/beta/");
}

#[test]
fn projects_below_one_directory_share_a_parent() {
    let dirs = |all: &[&str]| all.iter().map(|d| d.to_string()).collect::<Vec<_>>();
    assert_eq!(common_parent(&dirs(&["/src/a", "/src/b"])), Some("/src".to_string()));
    assert_eq!(common_parent(&dirs(&[])), None);
}

#[test]
fn marks_tell_a_repository() {
    let marks = jj_mark_paths("/a/b");
    assert_eq!(marks, vec!["/a/b/.jj", "/a/.jj", "/.jj"]);
    assert_eq!(jj_root("/a/b", &vec![false, true, false]), Some("/a".to_string()));
    assert!(is_jj_workspace("/a/b", &vec![false, true, false]));
    assert_eq!(jj_root("/a/b", &vec![false, false, false]), None);
    assert!(!is_jj_workspace("/a/b", &vec![false, false, false]));
}

#[test]
fn new_workspaces_go_beside_the_repository() {
    let home = Some("/home/me".to_string());
    assert_eq!(
        sibling_dest_prefill("/home/me/src/api/sub", &Some("/home/me/src/api".into()), "fix", &home),
        "~/src/api-fix"
    );
    assert_eq!(workspace_name_from_dir("/src/api-fix"), Some("api-fix".to_string()));
    assert_eq!(workspace_name_from_dir("/"), None);
}

#[test]
fn the_prefill_names_the_common_parent() {
    let cases: [(&[&str], &str); 7] = [
        (&["/home/al/src/a", "/home/al/src/b"], "~/src/"),
        (&["/home/al/./src//x/a"], "~/src//x/"),
        (&["/home/al/a", "/home/al/b"], "~/"),
        (&["/home/alice/a", "/home/alice/b"], "/home/alice/"),
        (&["/srv/a"], "/srv/"),
        (&["/home/a", "/home/b"], "/home/"),
        (&["/home/al/~/a"], "~/~/"),
    ];
    for (list, typed) in cases {
        let dirs: Vec<String> = list.iter().map(|d| d.to_string()).collect();
        let base = common_parent(&dirs).unwrap();
        for home in ["/home/al", "/home//al/", "/"] {
            let home = Some(home.to_string());
            let text = prompt_prefill(&dirs, &home);
            assert!(text.ends_with('/'));
            assert!(same_path(&resolve_dir(&text, &home, "/elsewhere"), &base), "{text} {base}");
        }
        assert_eq!(prompt_prefill(&dirs, &Some("/home/al".to_string())), typed);
    }
}
