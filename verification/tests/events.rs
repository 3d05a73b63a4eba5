//! The lifecycle event set and its kebab-case string form.

use git_hooks::events::{all_events, HookEvent};

#[test]
fn kebab_case_round_trips() {
    for e in all_events() {
        let s = e.to_kebab_case();
        assert_eq!(HookEvent::from_kebab_case(s), Some(e));
    }
}

#[test]
fn kebab_case_spellings() {
    assert_eq!(HookEvent::PreCommit.to_kebab_case(), "pre-commit");
    assert_eq!(HookEvent::CommitMsg.to_kebab_case(), "commit-msg");
    assert_eq!(HookEvent::PrepareCommitMsg.to_kebab_case(), "prepare-commit-msg");
    assert_eq!(HookEvent::Update.to_kebab_case(), "update");
}

#[test]
fn invalid_event_strings_are_rejected() {
    assert_eq!(HookEvent::from_kebab_case("precommit"), None);
    assert_eq!(HookEvent::from_kebab_case("PreCommit"), None);
    assert_eq!(HookEvent::from_kebab_case(""), None);
}

#[test]
fn the_event_set_is_closed() {
    let all = all_events();
    assert_eq!(all.len(), 12);
    assert_eq!(all[0], HookEvent::ApplyPatchMsg);
    assert_eq!(all[11], HookEvent::Update);
}
