//! The closed set of lifecycle events a hook can be bound to, with the
//! kebab-case string form used by the configuration format and by the
//! dispatcher scripts.

use vstd::prelude::*;

verus! {

/// A lifecycle trigger of the version-control system.
#[derive(Copy, Clone, Debug, PartialEq, Eq, Structural)]
pub enum HookEvent {
    ApplyPatchMsg,
    CommitMsg,
    PostCommit,
    PostUpdate,
    PreApplyPatch,
    PreCommit,
    PreMergeCommit,
    PrePush,
    PreRebase,
    PreReceive,
    PrepareCommitMsg,
    Update,
}

/// The kebab-case spelling of an event.
pub open spec fn spec_kebab_case(e: HookEvent) -> Seq<char> {
    match e {
        HookEvent::ApplyPatchMsg => "apply-patch-msg"@,
        HookEvent::CommitMsg => "commit-msg"@,
        HookEvent::PostCommit => "post-commit"@,
        HookEvent::PostUpdate => "post-update"@,
        HookEvent::PreApplyPatch => "pre-apply-patch"@,
        HookEvent::PreCommit => "pre-commit"@,
        HookEvent::PreMergeCommit => "pre-merge-commit"@,
        HookEvent::PrePush => "pre-push"@,
        HookEvent::PreRebase => "pre-rebase"@,
        HookEvent::PreReceive => "pre-receive"@,
        HookEvent::PrepareCommitMsg => "prepare-commit-msg"@,
        HookEvent::Update => "update"@,
    }
}

/// The event whose kebab-case spelling is `s`, if any.
pub open spec fn spec_from_kebab_case(s: Seq<char>) -> Option<HookEvent> {
    if s == "apply-patch-msg"@ {
        Some(HookEvent::ApplyPatchMsg)
    } else if s == "commit-msg"@ {
        Some(HookEvent::CommitMsg)
    } else if s == "post-commit"@ {
        Some(HookEvent::PostCommit)
    } else if s == "post-update"@ {
        Some(HookEvent::PostUpdate)
    } else if s == "pre-apply-patch"@ {
        Some(HookEvent::PreApplyPatch)
    } else if s == "pre-commit"@ {
        Some(HookEvent::PreCommit)
    } else if s == "pre-merge-commit"@ {
        Some(HookEvent::PreMergeCommit)
    } else if s == "pre-push"@ {
        Some(HookEvent::PrePush)
    } else if s == "pre-rebase"@ {
        Some(HookEvent::PreRebase)
    } else if s == "pre-receive"@ {
        Some(HookEvent::PreReceive)
    } else if s == "prepare-commit-msg"@ {
        Some(HookEvent::PrepareCommitMsg)
    } else if s == "update"@ {
        Some(HookEvent::Update)
    } else {
        None
    }
}

impl HookEvent {
    /// The string form used in configuration files and hook file names.
    pub fn to_kebab_case(&self) -> (r: &'static str)
        ensures
            r@ == spec_kebab_case(*self),
    {
        match self {
            HookEvent::ApplyPatchMsg => "apply-patch-msg",
            HookEvent::CommitMsg => "commit-msg",
            HookEvent::PostCommit => "post-commit",
            HookEvent::PostUpdate => "post-update",
            HookEvent::PreApplyPatch => "pre-apply-patch",
            HookEvent::PreCommit => "pre-commit",
            HookEvent::PreMergeCommit => "pre-merge-commit",
            HookEvent::PrePush => "pre-push",
            HookEvent::PreRebase => "pre-rebase",
            HookEvent::PreReceive => "pre-receive",
            HookEvent::PrepareCommitMsg => "prepare-commit-msg",
            HookEvent::Update => "update",
        }
    }

    /// Parses the kebab-case string form; invalid strings are rejected.
    pub fn from_kebab_case(s: &str) -> (r: Option<HookEvent>)
        ensures
            r == spec_from_kebab_case(s@),
    {
        let t = s.to_owned();
        if t == "apply-patch-msg".to_owned() {
            Some(HookEvent::ApplyPatchMsg)
        } else if t == "commit-msg".to_owned() {
            Some(HookEvent::CommitMsg)
        } else if t == "post-commit".to_owned() {
            Some(HookEvent::PostCommit)
        } else if t == "post-update".to_owned() {
            Some(HookEvent::PostUpdate)
        } else if t == "pre-apply-patch".to_owned() {
            Some(HookEvent::PreApplyPatch)
        } else if t == "pre-commit".to_owned() {
            Some(HookEvent::PreCommit)
        } else if t == "pre-merge-commit".to_owned() {
            Some(HookEvent::PreMergeCommit)
        } else if t == "pre-push".to_owned() {
            Some(HookEvent::PrePush)
        } else if t == "pre-rebase".to_owned() {
            Some(HookEvent::PreRebase)
        } else if t == "pre-receive".to_owned() {
            Some(HookEvent::PreReceive)
        } else if t == "prepare-commit-msg".to_owned() {
            Some(HookEvent::PrepareCommitMsg)
        } else if t == "update".to_owned() {
            Some(HookEvent::Update)
        } else {
            None
        }
    }
}

/// Every event, in the order the installer writes dispatcher scripts for.
pub open spec fn spec_all_events() -> Seq<HookEvent> {
    seq![
        HookEvent::ApplyPatchMsg,
        HookEvent::CommitMsg,
        HookEvent::PostCommit,
        HookEvent::PostUpdate,
        HookEvent::PreApplyPatch,
        HookEvent::PreCommit,
        HookEvent::PreMergeCommit,
        HookEvent::PrePush,
        HookEvent::PreRebase,
        HookEvent::PreReceive,
        HookEvent::PrepareCommitMsg,
        HookEvent::Update,
    ]
}

/// Every event, in the order the installer writes dispatcher scripts for.
pub fn all_events() -> (r: Vec<HookEvent>)
    ensures
        r@ == spec_all_events(),
{
    let r: Vec<HookEvent> = vec![
        HookEvent::ApplyPatchMsg,
        HookEvent::CommitMsg,
        HookEvent::PostCommit,
        HookEvent::PostUpdate,
        HookEvent::PreApplyPatch,
        HookEvent::PreCommit,
        HookEvent::PreMergeCommit,
        HookEvent::PrePush,
        HookEvent::PreRebase,
        HookEvent::PreReceive,
        HookEvent::PrepareCommitMsg,
        HookEvent::Update,
    ];
    proof {
        assert(r@ =~= spec_all_events());
    }
    r
}

} // verus!
