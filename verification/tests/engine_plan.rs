//! Planning a hook run: placeholder expansion, the should-run flag,
//! the error taxonomy, and post-run reconciliation.

use git_hooks::config::Hook;
use git_hooks::engine::{files_to_re_add, interpret_hook_exit, plan_invocation, setup_plan, HookError};
use git_hooks::config::ExternalHookRepo;
use git_hooks::git::CmdOutput;
use git_hooks::utils::FsEntry;

fn entry(path: &str) -> FsEntry {
    FsEntry {
        path: path.to_string(),
        is_dir: false,
    }
}

fn hook(action: Option<&str>, patterns: Option<Vec<&str>>) -> Hook {
    Hook {
        name: "lint".to_string(),
        on_event: None,
        on_file_regex: patterns.map(|ps| ps.into_iter().map(|p| p.to_string()).collect()),
        action: action.map(|a| a.to_string()),
        setup_script: None,
    }
}

fn plan(
    h: &Hook,
    entries: Vec<FsEntry>,
    changed: Vec<FsEntry>,
) -> Result<git_hooks::engine::Invocation, HookError> {
    plan_invocation(
        h,
        &"/repo".to_string(),
        "/usr/bin:/bin",
        "/repo/.git/hook-repos/src",
        &entries,
        &changed,
    )
}

#[test]
fn root_placeholder_expands_to_the_root() {
    let h = hook(Some("fmt {root} --check"), None);
    let inv = plan(&h, vec![], vec![]).unwrap();
    assert_eq!(inv.cmd, "fmt".to_string());
    assert_eq!(inv.args, vec!["/repo".to_string(), "--check".to_string()]);
    assert_eq!(inv.cwd, "/repo".to_string());
    assert_eq!(
        inv.path_value,
        "/repo/.git/hook-repos/src:/usr/bin:/bin".to_string()
    );
}

#[test]
fn changed_files_placeholder_expands_to_matching_files() {
    let h = hook(Some("echo {changed_files}"), Some(vec![".*\\.txt$"]));
    let inv = plan(&h, vec![], vec![entry("a.txt"), entry("b.rs")]).unwrap();
    assert_eq!(inv.cmd, "echo".to_string());
    assert_eq!(inv.args, vec!["a.txt".to_string()]);
}

#[test]
fn files_placeholder_walks_the_tree() {
    let h = hook(Some("check {files}"), None);
    let entries = vec![
        FsEntry {
            path: "/repo".to_string(),
            is_dir: true,
        },
        entry("/repo/a.txt"),
        entry("/repo/.git/config"),
        entry("/repo/b.rs"),
    ];
    let inv = plan(&h, entries, vec![]).unwrap();
    assert_eq!(
        inv.args,
        vec!["/repo/a.txt".to_string(), "/repo/b.rs".to_string()]
    );
}

#[test]
fn empty_match_keeps_earlier_literals_and_drops_later_ones() {
    // A files placeholder that selects nothing is no error: the hook
    // still runs, with the literals accepted before the placeholder;
    // literals after it are dropped.
    let h = hook(Some("echo before {changed_files} after"), Some(vec![".*\\.txt$"]));
    let inv = plan(&h, vec![], vec![entry("only.rs")]).unwrap();
    assert_eq!(inv.cmd, "echo".to_string());
    assert_eq!(inv.args, vec!["before".to_string()]);
}

#[test]
fn missing_action_fails_fast() {
    let h = hook(None, None);
    let e = plan(&h, vec![], vec![]).unwrap_err();
    assert!(matches!(e, HookError::MissingAction { hook } if hook == "lint"));
}

#[test]
fn empty_action_fails_fast() {
    let h = hook(Some(""), None);
    let e = plan(&h, vec![], vec![]).unwrap_err();
    assert!(matches!(e, HookError::EmptyAction { hook } if hook == "lint"));
}

#[test]
fn reserved_placeholder_fails_fast() {
    let h = hook(Some("run {file}"), None);
    let e = plan(&h, vec![], vec![]).unwrap_err();
    assert!(matches!(e, HookError::UnimplementedPlaceholder { token } if token == "{file}"));
    let h = hook(Some("run {changed_file}"), None);
    let e = plan(&h, vec![], vec![]).unwrap_err();
    assert!(
        matches!(e, HookError::UnimplementedPlaceholder { token } if token == "{changed_file}")
    );
}

#[test]
fn invalid_pattern_fails_the_hook() {
    let h = hook(Some("echo {changed_files}"), Some(vec!["["]));
    let e = plan(&h, vec![], vec![entry("a.txt")]).unwrap_err();
    assert!(matches!(e, HookError::InvalidRegex { pattern } if pattern == "["));
}

#[test]
fn exit_interpretation_carries_hook_and_code() {
    let ok = CmdOutput {
        success: true,
        code: Some(0),
        stdout: String::new(),
        stderr: String::new(),
    };
    assert!(interpret_hook_exit(&"lint".to_string(), &ok).is_ok());
    let bad = CmdOutput {
        success: false,
        code: Some(3),
        stdout: String::new(),
        stderr: String::new(),
    };
    let e = interpret_hook_exit(&"lint".to_string(), &bad).unwrap_err();
    assert!(
        matches!(e, HookError::ExecutionFailure { hook, code } if hook == "lint" && code == Some(3))
    );
}

#[test]
fn re_add_keeps_files_staged_and_touched() {
    let index = vec!["a.txt".to_string(), "c.txt".to_string()];
    let changed = vec!["a.txt".to_string(), "b.txt".to_string(), "c.txt".to_string()];
    assert_eq!(
        files_to_re_add(&index, &changed),
        vec!["a.txt".to_string(), "c.txt".to_string()]
    );
    assert_eq!(
        files_to_re_add(&Vec::new(), &changed),
        Vec::<String>::new()
    );
}

#[test]
fn setup_plan_lists_scripts_in_hook_order() {
    let repo = ExternalHookRepo {
        url: "dummy".to_string(),
        version: None,
        hooks: vec![
            Hook {
                name: "a".to_string(),
                on_event: None,
                on_file_regex: None,
                action: None,
                setup_script: Some("install-a.sh".to_string()),
            },
            Hook {
                name: "b".to_string(),
                on_event: None,
                on_file_regex: None,
                action: Some("b".to_string()),
                setup_script: None,
            },
            Hook {
                name: "c".to_string(),
                on_event: None,
                on_file_regex: None,
                action: None,
                setup_script: Some("install-c.sh".to_string()),
            },
        ],
    };
    assert_eq!(
        setup_plan(&repo),
        vec!["install-a.sh".to_string(), "install-c.sh".to_string()]
    );
}
