//! Selecting hooks for an event, the run verdict, the installer's
//! script computations, and the whole pre-commit story end to end.

use git_hooks::config::{ExternalHookRepo, Hook, HookConfig};
use git_hooks::dispatch::{
    hook_script_content, hook_script_path, interpret_confirmation, plan_dispatch, run_outcome,
    RunOutcome,
};
use git_hooks::engine::plan_invocation;
use git_hooks::events::HookEvent;
use git_hooks::git::CmdOutput;
use git_hooks::utils::FsEntry;

fn lint_config() -> HookConfig {
    HookConfig {
        hooks: vec![Hook {
            name: "lint".to_string(),
            on_event: None,
            on_file_regex: None,
            action: None,
            setup_script: None,
        }],
        repos: vec![ExternalHookRepo {
            url: "https://example.invalid/hooks".to_string(),
            version: None,
            hooks: vec![Hook {
                name: "lint".to_string(),
                on_event: Some(vec![HookEvent::PreCommit]),
                on_file_regex: Some(vec![".*\\.txt$".to_string()]),
                action: Some("echo {changed_files}".to_string()),
                setup_script: None,
            }],
        }],
    }
}

#[test]
fn end_to_end_pre_commit_run() {
    let conf = lint_config();
    // Dispatching pre-commit selects the lint hook of the only source.
    let selected = plan_dispatch(&conf, HookEvent::PreCommit);
    assert_eq!(selected, vec![(0usize, 0usize)]);
    // Planning it with one staged file a.txt spawns `echo a.txt`.
    let hook = &conf.repos[0].hooks[0];
    let inv = plan_invocation(
        hook,
        &"/repo".to_string(),
        "/usr/bin",
        "/repo/.git/hook-repos/hooks",
        &vec![],
        &vec![FsEntry {
            path: "a.txt".to_string(),
            is_dir: false,
        }],
    )
    .unwrap();
    assert_eq!(inv.cmd, "echo".to_string());
    assert_eq!(inv.args, vec!["a.txt".to_string()]);
    // A clean exit reports success for the whole run.
    let out = CmdOutput {
        success: true,
        code: Some(0),
        stdout: String::new(),
        stderr: String::new(),
    };
    assert!(git_hooks::engine::interpret_hook_exit(&hook.name, &out).is_ok());
    assert_eq!(run_outcome(true, false), RunOutcome::AllPassed);
    // Dispatching post-commit selects nothing: nothing to do, no error,
    // and no process is ever planned.
    let selected = plan_dispatch(&conf, HookEvent::PostCommit);
    assert!(selected.is_empty());
    assert_eq!(run_outcome(false, false), RunOutcome::NothingToDo);
}

#[test]
fn inert_hook_is_never_dispatched() {
    // The hook stands in the source's manifest with a matching event,
    // but its name is absent from the top-level hook list.
    let mut conf = lint_config();
    conf.hooks.clear();
    let selected = plan_dispatch(&conf, HookEvent::PreCommit);
    assert!(selected.is_empty());
}

#[test]
fn default_event_is_pre_commit() {
    let mut conf = lint_config();
    conf.repos[0].hooks[0].on_event = None;
    assert_eq!(plan_dispatch(&conf, HookEvent::PreCommit), vec![(0usize, 0usize)]);
    assert!(plan_dispatch(&conf, HookEvent::PrePush).is_empty());
}

#[test]
fn selection_covers_every_source_in_order() {
    let mut conf = lint_config();
    let second = ExternalHookRepo {
        url: "https://example.invalid/more".to_string(),
        version: None,
        hooks: vec![
            Hook {
                name: "other".to_string(),
                on_event: Some(vec![HookEvent::PreCommit]),
                on_file_regex: None,
                action: Some("true".to_string()),
                setup_script: None,
            },
            Hook {
                name: "lint".to_string(),
                on_event: Some(vec![HookEvent::PreCommit, HookEvent::PrePush]),
                on_file_regex: None,
                action: Some("true".to_string()),
                setup_script: None,
            },
        ],
    };
    conf.repos.push(second);
    // Only hooks named in the top-level list run; `other` is inert.
    assert_eq!(
        plan_dispatch(&conf, HookEvent::PreCommit),
        vec![(0usize, 0usize), (1usize, 1usize)]
    );
    assert_eq!(plan_dispatch(&conf, HookEvent::PrePush), vec![(1usize, 1usize)]);
}

#[test]
fn failed_hooks_fail_the_run_after_all_ran() {
    assert_eq!(run_outcome(true, true), RunOutcome::SomeFailed);
}

#[test]
fn installer_script_path_and_content() {
    assert_eq!(
        hook_script_path("/repo", HookEvent::PreCommit),
        "/repo/.git/hooks/pre-commit".to_string()
    );
    assert_eq!(
        hook_script_content(HookEvent::PrePush),
        "#!/bin/bash -e\ngit-hooks run pre-push\n".to_string()
    );
}

#[test]
fn confirmation_answers() {
    assert_eq!(interpret_confirmation("Y"), Some(true));
    assert_eq!(interpret_confirmation("y\n"), Some(true));
    assert_eq!(interpret_confirmation("N"), Some(false));
    assert_eq!(interpret_confirmation(" n "), Some(false));
    assert_eq!(interpret_confirmation("yes"), None);
    assert_eq!(interpret_confirmation(""), None);
}
