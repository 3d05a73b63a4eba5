//! The dispatch driver's decisions: which hooks of which sources run
//! for a lifecycle event — those whose trigger events include the event
//! and whose name stands in the top-level hook list — and how a whole
//! run's outcome is reported. Also the small computations of the
//! installer and of the interactive confirmation.

use vstd::prelude::*;
use vstd::string::StringExecFns;

use crate::config::Hook;
use crate::config::HookConfig;
use crate::config::HookConfigView;
use crate::config::HookView;
use crate::config::hooks_view;
use crate::config::string_eq;
use crate::events::HookEvent;
use crate::events::spec_kebab_case;
use crate::utils::spec_trim;
use crate::utils::trim;

verus! {

/// The events a hook is triggered by: its `on_event` list, or
/// pre-commit alone when it has none.
pub open spec fn spec_hook_events(h: HookView) -> Seq<HookEvent> {
    match h.on_event {
        Some(es) => es,
        None => seq![HookEvent::PreCommit],
    }
}

/// The names of a hook list, in order.
pub open spec fn spec_hook_names(hs: Seq<HookView>) -> Seq<Seq<char>> {
    hs.map_values(|h: HookView| h.name)
}

/// Whether the hook at position `j` of source `i` runs for `event`:
/// its trigger events include the event, and its name is active — it
/// stands in the top-level hook list.
pub open spec fn spec_selected(c: HookConfigView, event: HookEvent, i: int, j: int) -> bool {
    &&& 0 <= i < c.repos.len()
    &&& 0 <= j < c.repos[i].hooks.len()
    &&& spec_hook_events(c.repos[i].hooks[j]).contains(event)
    &&& spec_hook_names(c.hooks).contains(c.repos[i].hooks[j].name)
}

fn events_contain(v: &Vec<HookEvent>, e: HookEvent) -> (r: bool)
    ensures
        r == v@.contains(e),
{
    let mut i: usize = 0;
    while i < v.len()
        invariant
            i <= v@.len(),
            forall|k: int| 0 <= k < i ==> v@[k] != e,
        decreases v@.len() - i,
    {
        if v[i] == e {
            return true;
        }
        i = i + 1;
    }
    false
}

/// Whether the hook's trigger events (pre-commit when it names none)
/// include `event`.
pub fn hook_triggers_on(h: &Hook, event: HookEvent) -> (r: bool)
    ensures
        r == spec_hook_events(h@).contains(event),
{
    match &h.on_event {
        Some(es) => events_contain(es, event),
        None => {
            let r = event == HookEvent::PreCommit;
            proof {
                let s = seq![HookEvent::PreCommit];
                if event == HookEvent::PreCommit {
                    assert(s[0] == event);
                    assert(s.contains(event));
                } else {
                    assert(forall|k: int| 0 <= k < s.len() ==> s[k] != event);
                }
            }
            r
        },
    }
}

/// Whether `name` stands in the top-level hook list: the membership
/// that makes a merged hook dispatchable at all.
pub fn is_active(hooks: &Vec<Hook>, name: &String) -> (r: bool)
    ensures
        r == spec_hook_names(hooks_view(hooks@)).contains(name@),
{
    let ghost names = spec_hook_names(hooks_view(hooks@));
    let mut i: usize = 0;
    while i < hooks.len()
        invariant
            i <= hooks@.len(),
            names == spec_hook_names(hooks_view(hooks@)),
            names.len() == hooks@.len(),
            forall|k: int| 0 <= k < i ==> names[k] != name@,
        decreases hooks@.len() - i,
    {
        proof {
            assert(names[i as int] == hooks_view(hooks@)[i as int].name);
            assert(hooks_view(hooks@)[i as int] == hooks@[i as int]@);
        }
        if string_eq(&hooks[i].name, name) {
            return true;
        }
        i = i + 1;
    }
    false
}

/// The positions selected for `event`, source by source and hook by
/// hook: exactly those the selection predicate admits, in strictly
/// increasing position order.
pub fn plan_dispatch(config: &HookConfig, event: HookEvent) -> (r: Vec<(usize, usize)>)
    ensures
        forall|k: int|
            0 <= k < r@.len() ==> spec_selected(
                config@,
                event,
                r@[k].0 as int,
                r@[k].1 as int,
            ),
        forall|i: usize, j: usize|
            spec_selected(config@, event, i as int, j as int) ==> r@.contains((i, j)),
        forall|k1: int, k2: int|
            0 <= k1 < k2 < r@.len() ==> (r@[k1].0 < r@[k2].0 || (r@[k1].0 == r@[k2].0 && r@[k1].1
                < r@[k2].1)),
{
    let ghost c = config@;
    let mut out: Vec<(usize, usize)> = Vec::new();
    let mut i: usize = 0;
    while i < config.repos.len()
        invariant
            i <= config.repos@.len(),
            c == config@,
            c.repos.len() == config.repos@.len(),
            forall|k: int|
                0 <= k < out@.len() ==> spec_selected(c, event, out@[k].0 as int, out@[k].1 as int),
            forall|k: int| 0 <= k < out@.len() ==> (out@[k].0 as int) < i,
            forall|k1: int, k2: int|
                0 <= k1 < k2 < out@.len() ==> (out@[k1].0 < out@[k2].0 || (out@[k1].0 == out@[k2].0
                    && out@[k1].1 < out@[k2].1)),
            forall|i2: usize, j2: usize|
                (i2 as int) < i && spec_selected(c, event, i2 as int, j2 as int) ==> out@.contains(
                    (i2, j2),
                ),
        decreases config.repos@.len() - i,
    {
        let repo = &config.repos[i];
        proof {
            assert(c.repos[i as int] == config.repos@[i as int]@);
        }
        let mut j: usize = 0;
        while j < repo.hooks.len()
            invariant
                j <= repo.hooks@.len(),
                i < config.repos@.len(),
                repo == &config.repos@[i as int],
                c == config@,
                c.repos.len() == config.repos@.len(),
                c.repos[i as int] == config.repos@[i as int]@,
                c.repos[i as int].hooks.len() == repo.hooks@.len(),
                forall|k: int|
                    0 <= k < out@.len() ==> spec_selected(
                        c,
                        event,
                        out@[k].0 as int,
                        out@[k].1 as int,
                    ),
                forall|k: int|
                    0 <= k < out@.len() ==> ((out@[k].0 as int) < i || (out@[k].0 == i && (
                    out@[k].1 as int) < j)),
                forall|k1: int, k2: int|
                    0 <= k1 < k2 < out@.len() ==> (out@[k1].0 < out@[k2].0 || (out@[k1].0
                        == out@[k2].0 && out@[k1].1 < out@[k2].1)),
                forall|i2: usize, j2: usize|
                    ((i2 as int) < i || (i2 as int == i && (j2 as int) < j)) && spec_selected(
                        c,
                        event,
                        i2 as int,
                        j2 as int,
                    ) ==> out@.contains((i2, j2)),
            decreases repo.hooks@.len() - j,
        {
            let h = &repo.hooks[j];
            proof {
                assert(c.repos[i as int].hooks[j as int] == repo.hooks@[j as int]@);
            }
            if hook_triggers_on(h, event) && is_active(&config.hooks, &h.name) {
                let ghost before = out@;
                out.push((i, j));
                proof {
                    assert(out@ == before.push((i, j)));
                    assert(out@[before.len() as int] == (i, j));
                    assert(spec_selected(c, event, i as int, j as int));
                    assert forall|i2: usize, j2: usize|
                        ((i2 as int) < i || (i2 as int == i && (j2 as int) < j + 1))
                            && spec_selected(c, event, i2 as int, j2 as int) implies out@.contains(
                        (i2, j2),
                    ) by {
                        if (i2 as int) < i || (i2 as int == i && (j2 as int) < j) {
                            let k = choose|k: int| 0 <= k < before.len() && before[k] == (i2, j2);
                            assert(out@[k] == (i2, j2));
                        } else {
                            assert(i2 == i && j2 == j);
                            assert(out@[before.len() as int] == (i2, j2));
                        }
                    }
                }
            } else {
                proof {
                    assert(!spec_selected(c, event, i as int, j as int));
                    assert forall|i2: usize, j2: usize|
                        ((i2 as int) < i || (i2 as int == i && (j2 as int) < j + 1))
                            && spec_selected(c, event, i2 as int, j2 as int) implies out@.contains(
                        (i2, j2),
                    ) by {
                        assert((i2 as int) < i || (i2 as int == i && (j2 as int) < j));
                    }
                }
            }
            j = j + 1;
        }
        i = i + 1;
    }
    out
}

/// An inert hook — one standing in a source's manifest whose name is
/// absent from the top-level hook list — is never selected for
/// dispatch, whatever its own trigger events say.
pub proof fn lemma_inert_hook_never_dispatched(
    c: HookConfigView,
    event: HookEvent,
    i: int,
    j: int,
)
    requires
        0 <= i < c.repos.len(),
        0 <= j < c.repos[i].hooks.len(),
        !spec_hook_names(c.hooks).contains(c.repos[i].hooks[j].name),
    ensures
        !spec_selected(c, event, i, j),
{
}

/// How one dispatch run ended.
#[derive(Copy, Clone, Debug, PartialEq, Eq, Structural)]
pub enum RunOutcome {
    /// No hook matched the event: reported informationally, no error.
    NothingToDo,
    /// At least one hook ran and every one of them succeeded.
    AllPassed,
    /// At least one hook failed; the others were still attempted.
    SomeFailed,
}

/// The run's aggregate verdict, from whether any hook ran and whether
/// any failed.
pub fn run_outcome(executed_any: bool, failed_any: bool) -> (r: RunOutcome)
    ensures
        !executed_any ==> r == RunOutcome::NothingToDo,
        executed_any && !failed_any ==> r == RunOutcome::AllPassed,
        executed_any && failed_any ==> r == RunOutcome::SomeFailed,
{
    if !executed_any {
        RunOutcome::NothingToDo
    } else if failed_any {
        RunOutcome::SomeFailed
    } else {
        RunOutcome::AllPassed
    }
}

/// Where the installer writes the dispatcher script for `event`: under
/// the repository's hook directory, named after the event.
pub fn hook_script_path(root: &str, event: HookEvent) -> (r: String)
    ensures
        r@ == root@ + "/.git/hooks/"@ + spec_kebab_case(event),
{
    let mut out = root.to_owned();
    out.append("/.git/hooks/");
    out.append(event.to_kebab_case());
    out
}

/// What the installer writes into a dispatcher script: a shell stub
/// that hands the event back to the runner.
pub fn hook_script_content(event: HookEvent) -> (r: String)
    ensures
        r@ == "#!/bin/bash -e\ngit-hooks run "@ + spec_kebab_case(event) + "\n"@,
{
    let mut out = "#!/bin/bash -e\ngit-hooks run ".to_owned();
    out.append(event.to_kebab_case());
    out.append("\n");
    out
}

/// What a confirmation prompt's answer means: yes for `Y`/`y`, no for
/// `N`/`n`, anything else asks again.
pub open spec fn spec_confirmation(s: Seq<char>) -> Option<bool> {
    let t = spec_trim(s);
    if t == "Y"@ || t == "y"@ {
        Some(true)
    } else if t == "N"@ || t == "n"@ {
        Some(false)
    } else {
        None
    }
}

/// Reads a confirmation answer; `None` when the input is neither a yes
/// nor a no and the prompt must be repeated.
pub fn interpret_confirmation(input: &str) -> (r: Option<bool>)
    ensures
        r == spec_confirmation(input@),
{
    let t = trim(input);
    if t == "Y".to_owned() || t == "y".to_owned() {
        Some(true)
    } else if t == "N".to_owned() || t == "n".to_owned() {
        Some(false)
    } else {
        None
    }
}

} // verus!
