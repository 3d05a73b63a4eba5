//! The hook definition model: one hook, an external hook source, and the
//! top-level configuration, together with the merger that applies the
//! local override list to every source's hook list, field by field.

use vstd::prelude::*;

use crate::events::HookEvent;

verus! {

/// One hook: a named, event-triggered action bound to a file-pattern
/// filter. The name is the only merge and lookup key.
pub struct Hook {
    pub name: String,
    pub on_event: Option<Vec<HookEvent>>,
    pub on_file_regex: Option<Vec<String>>,
    pub action: Option<String>,
    pub setup_script: Option<String>,
}

/// An external repository supplying hook definitions. Its `hooks` list is
/// populated from the repository's own manifest after materialization,
/// never from the top-level configuration.
pub struct ExternalHookRepo {
    pub hooks: Vec<Hook>,
    pub url: String,
    pub version: Option<String>,
}

/// The top-level configuration: external source declarations and the
/// local hook list, which is both the override authority and the set of
/// names that may be dispatched at all.
pub struct HookConfig {
    pub repos: Vec<ExternalHookRepo>,
    pub hooks: Vec<Hook>,
}

#[verifier::ext_equal]
pub ghost struct HookView {
    pub name: Seq<char>,
    pub on_event: Option<Seq<HookEvent>>,
    pub on_file_regex: Option<Seq<Seq<char>>>,
    pub action: Option<Seq<char>>,
    pub setup_script: Option<Seq<char>>,
}

#[verifier::ext_equal]
pub ghost struct ExternalHookRepoView {
    pub hooks: Seq<HookView>,
    pub url: Seq<char>,
    pub version: Option<Seq<char>>,
}

#[verifier::ext_equal]
pub ghost struct HookConfigView {
    pub repos: Seq<ExternalHookRepoView>,
    pub hooks: Seq<HookView>,
}

pub open spec fn opt_str_view(o: Option<String>) -> Option<Seq<char>> {
    match o {
        Some(s) => Some(s@),
        None => None,
    }
}

pub open spec fn strs_view(v: Seq<String>) -> Seq<Seq<char>> {
    v.map_values(|s: String| s@)
}

pub open spec fn opt_strs_view(o: Option<Vec<String>>) -> Option<Seq<Seq<char>>> {
    match o {
        Some(v) => Some(strs_view(v@)),
        None => None,
    }
}

pub open spec fn opt_events_view(o: Option<Vec<HookEvent>>) -> Option<Seq<HookEvent>> {
    match o {
        Some(v) => Some(v@),
        None => None,
    }
}

impl View for Hook {
    type V = HookView;

    open spec fn view(&self) -> HookView {
        HookView {
            name: self.name@,
            on_event: opt_events_view(self.on_event),
            on_file_regex: opt_strs_view(self.on_file_regex),
            action: opt_str_view(self.action),
            setup_script: opt_str_view(self.setup_script),
        }
    }
}

pub open spec fn hooks_view(hs: Seq<Hook>) -> Seq<HookView> {
    hs.map_values(|h: Hook| h@)
}

impl View for ExternalHookRepo {
    type V = ExternalHookRepoView;

    open spec fn view(&self) -> ExternalHookRepoView {
        ExternalHookRepoView {
            hooks: hooks_view(self.hooks@),
            url: self.url@,
            version: opt_str_view(self.version),
        }
    }
}

impl View for HookConfig {
    type V = HookConfigView;

    open spec fn view(&self) -> HookConfigView {
        HookConfigView {
            repos: self.repos@.map_values(|r: ExternalHookRepo| r@),
            hooks: hooks_view(self.hooks@),
        }
    }
}

/// Field-level override: each of the four overridable fields is replaced
/// by the override's value exactly when the override has it set; an unset
/// override field leaves the source hook's value intact. The name is
/// never changed.
pub open spec fn spec_override_hook(ov: HookView, h: HookView) -> HookView {
    HookView {
        name: h.name,
        on_event: if ov.on_event is Some {
            ov.on_event
        } else {
            h.on_event
        },
        on_file_regex: if ov.on_file_regex is Some {
            ov.on_file_regex
        } else {
            h.on_file_regex
        },
        action: if ov.action is Some {
            ov.action
        } else {
            h.action
        },
        setup_script: if ov.setup_script is Some {
            ov.setup_script
        } else {
            h.setup_script
        },
    }
}

/// The first hook in `ovs` named `name`, if any.
pub open spec fn spec_find_override(ovs: Seq<HookView>, name: Seq<char>) -> Option<HookView>
    decreases ovs.len(),
{
    if ovs.len() == 0 {
        None
    } else if ovs[0].name == name {
        Some(ovs[0])
    } else {
        spec_find_override(ovs.skip(1), name)
    }
}

/// One source hook after merging: overridden by the first same-named
/// entry of the local override list, or left as it is when none exists.
pub open spec fn spec_merge_one(ovs: Seq<HookView>, h: HookView) -> HookView {
    match spec_find_override(ovs, h.name) {
        Some(ov) => spec_override_hook(ov, h),
        None => h,
    }
}

/// A source after merging: every hook of its list merged against the
/// local override list; origin and pinned revision untouched.
pub open spec fn spec_merged_repo(ovs: Seq<HookView>, r: ExternalHookRepoView) -> ExternalHookRepoView {
    ExternalHookRepoView {
        hooks: r.hooks.map_values(|h: HookView| spec_merge_one(ovs, h)),
        url: r.url,
        version: r.version,
    }
}

/// The whole configuration after merging: every source merged against the
/// local hook list, which itself stays as it is.
pub open spec fn spec_merged_config(c: HookConfigView) -> HookConfigView {
    HookConfigView {
        repos: c.repos.map_values(|r: ExternalHookRepoView| spec_merged_repo(c.hooks, r)),
        hooks: c.hooks,
    }
}

pub(crate) fn string_eq(a: &String, b: &String) -> (r: bool)
    ensures
        r == (a@ == b@),
{
    a.eq(b)
}

fn clone_string_opt(o: &Option<String>) -> (r: Option<String>)
    ensures
        r == *o,
{
    match o {
        Some(s) => Some(s.clone()),
        None => None,
    }
}

fn clone_events_opt(o: &Option<Vec<HookEvent>>) -> (r: Option<Vec<HookEvent>>)
    ensures
        opt_events_view(r) == opt_events_view(*o),
{
    match o {
        Some(v) => {
            let mut out: Vec<HookEvent> = Vec::new();
            let mut i: usize = 0;
            while i < v.len()
                invariant
                    i <= v.len(),
                    out@ == v@.subrange(0, i as int),
                decreases v.len() - i,
            {
                out.push(v[i]);
                i = i + 1;
            }
            proof {
                assert(out@ =~= v@);
            }
            Some(out)
        },
        None => None,
    }
}

fn clone_strings_opt(o: &Option<Vec<String>>) -> (r: Option<Vec<String>>)
    ensures
        opt_strs_view(r) == opt_strs_view(*o),
{
    match o {
        Some(v) => {
            let mut out: Vec<String> = Vec::new();
            let mut i: usize = 0;
            while i < v.len()
                invariant
                    i <= v.len(),
                    out@ == v@.subrange(0, i as int),
                decreases v.len() - i,
            {
                out.push(v[i].clone());
                i = i + 1;
            }
            proof {
                assert(out@ =~= v@);
            }
            Some(out)
        },
        None => None,
    }
}

impl Clone for Hook {
    /// A deep copy: the copy's view equals the original's.
    fn clone(&self) -> (r: Self)
        ensures
            r@ == self@,
    {
        Hook {
            name: self.name.clone(),
            on_event: clone_events_opt(&self.on_event),
            on_file_regex: clone_strings_opt(&self.on_file_regex),
            action: clone_string_opt(&self.action),
            setup_script: clone_string_opt(&self.setup_script),
        }
    }
}

/// The override applied to one source hook.
fn apply_override(ov: &Hook, h: &Hook) -> (r: Hook)
    ensures
        r@ == spec_override_hook(ov@, h@),
{
    Hook {
        name: h.name.clone(),
        on_event: if ov.on_event.is_some() {
            clone_events_opt(&ov.on_event)
        } else {
            clone_events_opt(&h.on_event)
        },
        on_file_regex: if ov.on_file_regex.is_some() {
            clone_strings_opt(&ov.on_file_regex)
        } else {
            clone_strings_opt(&h.on_file_regex)
        },
        action: if ov.action.is_some() {
            clone_string_opt(&ov.action)
        } else {
            clone_string_opt(&h.action)
        },
        setup_script: if ov.setup_script.is_some() {
            clone_string_opt(&ov.setup_script)
        } else {
            clone_string_opt(&h.setup_script)
        },
    }
}

proof fn lemma_find_override_step(ovs: Seq<HookView>, name: Seq<char>, i: int)
    requires
        0 <= i < ovs.len(),
        forall|k: int| 0 <= k < i ==> ovs[k].name != name,
        ovs[i].name != name,
    ensures
        spec_find_override(ovs.skip(i), name) == spec_find_override(ovs.skip(i + 1), name),
{
    assert(ovs.skip(i).len() > 0);
    assert(ovs.skip(i)[0] == ovs[i]);
    assert(ovs.skip(i).skip(1) =~= ovs.skip(i + 1));
}

/// The first override named like `name`, as the merger looks it up.
fn find_override<'a>(overrides: &'a Vec<Hook>, name: &String) -> (r: Option<&'a Hook>)
    ensures
        match r {
            Some(ov) => spec_find_override(hooks_view(overrides@), name@) == Some(ov@),
            None => spec_find_override(hooks_view(overrides@), name@) is None,
        },
{
    let ghost ovs = hooks_view(overrides@);
    proof {
        assert(ovs.skip(0) =~= ovs);
    }
    let mut i: usize = 0;
    while i < overrides.len()
        invariant
            i <= overrides.len(),
            ovs == hooks_view(overrides@),
            ovs.len() == overrides@.len(),
            forall|k: int| 0 <= k < i ==> ovs[k].name != name@,
            spec_find_override(ovs, name@) == spec_find_override(ovs.skip(i as int), name@),
        decreases overrides.len() - i,
    {
        proof {
            assert(ovs[i as int] == overrides@[i as int]@);
        }
        if string_eq(&overrides[i].name, name) {
            proof {
                assert(ovs.skip(i as int)[0] == ovs[i as int]);
            }
            return Some(&overrides[i]);
        }
        proof {
            lemma_find_override_step(ovs, name@, i as int);
        }
        i = i + 1;
    }
    proof {
        assert(ovs.skip(overrides@.len() as int) =~= Seq::<HookView>::empty());
    }
    None
}

/// One source hook merged against the local override list.
fn merge_hook(overrides: &Vec<Hook>, h: &Hook) -> (r: Hook)
    ensures
        r@ == spec_merge_one(hooks_view(overrides@), h@),
{
    match find_override(overrides, &h.name) {
        Some(ov) => apply_override(ov, h),
        None => h.clone(),
    }
}

impl HookConfig {
    /// Applies the local hook list as the override authority: for every
    /// hook in every source, a same-named local entry overwrites each of
    /// the four overridable fields it has set, and nothing else changes.
    pub fn update_repos_config(&mut self)
        ensures
            final(self)@ == spec_merged_config(old(self)@),
    {
        let ghost ovs = hooks_view(old(self).hooks@);
        let mut new_repos: Vec<ExternalHookRepo> = Vec::new();
        let mut i: usize = 0;
        while i < self.repos.len()
            invariant
                *self == *old(self),
                i <= self.repos@.len(),
                new_repos@.len() == i,
                ovs == hooks_view(self.hooks@),
                forall|k: int|
                    0 <= k < i ==> #[trigger] new_repos@[k]@ == spec_merged_repo(
                        ovs,
                        self.repos@[k]@,
                    ),
            decreases self.repos@.len() - i,
        {
            let repo = &self.repos[i];
            let mut new_hooks: Vec<Hook> = Vec::new();
            let mut j: usize = 0;
            while j < repo.hooks.len()
                invariant
                    j <= repo.hooks@.len(),
                    new_hooks@.len() == j,
                    ovs == hooks_view(self.hooks@),
                    repo == &self.repos@[i as int],
                    i < self.repos@.len(),
                    forall|k: int|
                        0 <= k < j ==> #[trigger] new_hooks@[k]@ == spec_merge_one(
                            ovs,
                            repo.hooks@[k]@,
                        ),
                decreases repo.hooks@.len() - j,
            {
                let merged = merge_hook(&self.hooks, &repo.hooks[j]);
                new_hooks.push(merged);
                j = j + 1;
            }
            let new_repo = ExternalHookRepo {
                hooks: new_hooks,
                url: repo.url.clone(),
                version: clone_string_opt(&repo.version),
            };
            proof {
                assert(hooks_view(new_repo.hooks@) =~= spec_merged_repo(ovs, self.repos@[i as int]@).hooks);
                assert(new_repo@ =~~= spec_merged_repo(ovs, self.repos@[i as int]@));
            }
            new_repos.push(new_repo);
            i = i + 1;
        }
        self.repos = new_repos;
        proof {
            assert(final(self)@.repos =~~= spec_merged_config(old(self)@).repos);
            assert(final(self)@ =~~= spec_merged_config(old(self)@));
        }
    }
}

/// Merge idempotence: merging the same override list a second time
/// changes nothing, because a merged hook keeps its name, so the second
/// pass finds the same override and overwrites each field with the value
/// it already has.
pub proof fn lemma_merge_idempotent(c: HookConfigView)
    ensures
        spec_merged_config(spec_merged_config(c)) == spec_merged_config(c),
{
    let m = spec_merged_config(c);
    assert forall|k: int| 0 <= k < m.repos.len() implies #[trigger] spec_merged_repo(
        m.hooks,
        m.repos[k],
    ) =~~= m.repos[k] by {
        let r = c.repos[k];
        assert(m.repos[k] == spec_merged_repo(c.hooks, r));
        assert forall|j: int| 0 <= j < r.hooks.len() implies #[trigger] spec_merge_one(
            c.hooks,
            spec_merge_one(c.hooks, r.hooks[j]),
        ) == spec_merge_one(c.hooks, r.hooks[j]) by {
            lemma_merge_one_idempotent(c.hooks, r.hooks[j]);
        }
        assert(spec_merged_repo(m.hooks, m.repos[k]).hooks =~= m.repos[k].hooks);
    }
    assert(spec_merged_config(m).repos =~~= m.repos);
    assert(spec_merged_config(m) =~~= m);
}

/// Merging one hook twice against the same override list equals merging
/// it once.
pub proof fn lemma_merge_one_idempotent(ovs: Seq<HookView>, h: HookView)
    ensures
        spec_merge_one(ovs, spec_merge_one(ovs, h)) == spec_merge_one(ovs, h),
{
    assert(spec_merge_one(ovs, h).name == h.name);
}

/// Field-level override: an override that sets only `action` replaces
/// the source hook's action and leaves its events, file patterns and
/// setup script exactly as they were.
pub proof fn lemma_action_only_override(ovs: Seq<HookView>, h: HookView, ov: HookView)
    requires
        spec_find_override(ovs, h.name) == Some(ov),
        ov.action is Some,
        ov.on_event is None,
        ov.on_file_regex is None,
        ov.setup_script is None,
    ensures
        spec_merge_one(ovs, h).action == ov.action,
        spec_merge_one(ovs, h).on_event == h.on_event,
        spec_merge_one(ovs, h).on_file_regex == h.on_file_regex,
        spec_merge_one(ovs, h).setup_script == h.setup_script,
        spec_merge_one(ovs, h).name == h.name,
{
}

} // verus!
