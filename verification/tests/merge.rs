//! The config merger: field-level overrides, idempotence, and the
//! override authority of the top-level hook list.

use git_hooks::config::{ExternalHookRepo, Hook, HookConfig};
use git_hooks::events::HookEvent;

fn sample_config() -> HookConfig {
    HookConfig {
        hooks: vec![Hook {
            name: "test1".to_string(),
            on_event: None,
            on_file_regex: None,
            action: Some("exe2".to_string()),
            setup_script: None,
        }],
        repos: vec![ExternalHookRepo {
            url: "dummy".to_string(),
            hooks: vec![Hook {
                name: "test1".to_string(),
                on_event: Some(vec![HookEvent::PreCommit]),
                on_file_regex: Some(vec![".*".to_string()]),
                action: Some("exe1".to_string()),
                setup_script: Some("hello.sh".to_string()),
            }],
            version: None,
        }],
    }
}

#[test]
fn test_merge() {
    let mut conf = sample_config();
    assert_ne!(conf.hooks[0].action, conf.repos[0].hooks[0].action);
    conf.update_repos_config();
    assert_eq!(conf.hooks[0].action, conf.repos[0].hooks[0].action);
}

#[test]
fn merge_is_field_level() {
    // The override sets only `action`: everything else of the source
    // hook must stay exactly as it was.
    let mut conf = sample_config();
    conf.update_repos_config();
    let merged = &conf.repos[0].hooks[0];
    assert_eq!(merged.action, Some("exe2".to_string()));
    assert_eq!(merged.on_event, Some(vec![HookEvent::PreCommit]));
    assert_eq!(merged.on_file_regex, Some(vec![".*".to_string()]));
    assert_eq!(merged.setup_script, Some("hello.sh".to_string()));
    assert_eq!(merged.name, "test1".to_string());
}

#[test]
fn merge_twice_changes_nothing() {
    let mut once = sample_config();
    once.update_repos_config();
    let mut twice = sample_config();
    twice.update_repos_config();
    twice.update_repos_config();
    let a = &once.repos[0].hooks[0];
    let b = &twice.repos[0].hooks[0];
    assert_eq!(a.name, b.name);
    assert_eq!(a.on_event, b.on_event);
    assert_eq!(a.on_file_regex, b.on_file_regex);
    assert_eq!(a.action, b.action);
    assert_eq!(a.setup_script, b.setup_script);
}

#[test]
fn merge_without_matching_override_is_noop() {
    let mut conf = sample_config();
    conf.hooks[0].name = "other".to_string();
    conf.update_repos_config();
    let merged = &conf.repos[0].hooks[0];
    assert_eq!(merged.action, Some("exe1".to_string()));
    assert_eq!(merged.setup_script, Some("hello.sh".to_string()));
}

#[test]
fn merge_takes_first_override_of_a_name() {
    let mut conf = sample_config();
    conf.hooks.push(Hook {
        name: "test1".to_string(),
        on_event: None,
        on_file_regex: None,
        action: Some("exe3".to_string()),
        setup_script: None,
    });
    conf.update_repos_config();
    assert_eq!(conf.repos[0].hooks[0].action, Some("exe2".to_string()));
}

#[test]
fn hook_clone_is_deep() {
    let h = Hook {
        name: "n".to_string(),
        on_event: Some(vec![HookEvent::PrePush, HookEvent::Update]),
        on_file_regex: Some(vec!["a".to_string(), "b".to_string()]),
        action: None,
        setup_script: Some("s".to_string()),
    };
    let c = h.clone();
    assert_eq!(c.name, h.name);
    assert_eq!(c.on_event, h.on_event);
    assert_eq!(c.on_file_regex, h.on_file_regex);
    assert_eq!(c.action, h.action);
    assert_eq!(c.setup_script, h.setup_script);
}
