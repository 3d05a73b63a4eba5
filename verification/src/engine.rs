//! The execution engine's decisions: given a resolved hook, the
//! repository root and what the collaborators report (the walked file
//! tree, the changed-file list), produce the exact command invocation to
//! spawn — command name, expanded argument list, working directory and
//! augmented search path — or the error that stops the hook. Also the
//! post-run reconciliation: which files the hook touched that must be
//! staged again.

use vstd::prelude::*;

use crate::config::ExternalHookRepo;
use crate::config::Hook;
use crate::config::HookView;
use crate::config::strs_view;
use crate::shell::spec_tokenize;
use crate::shell::tokenize;
use crate::tokens::ActionFileToken;
use crate::tokens::spec_token_from_str;
use crate::utils::FsEntry;
use crate::utils::FsEntryView;
use crate::utils::entries_view;
use crate::utils::get_files;
use crate::utils::prefix_path;
use crate::utils::spec_get_files;
use crate::git::CmdOutput;

verus! {

/// Why a hook could not be run, or why its run counts as failed.
#[derive(Debug)]
pub enum HookError {
    /// A hook without an action reached the engine; such a hook must be
    /// rejected before execution is attempted.
    MissingAction { hook: String },
    /// The hook's action string holds no word at all.
    EmptyAction { hook: String },
    /// An `on_file_regex` pattern is not a valid regular expression: a
    /// configuration error, fatal to the hook.
    InvalidRegex { pattern: String },
    /// A reserved singular placeholder was met; it is never silently
    /// ignored.
    UnimplementedPlaceholder { token: String },
    /// The spawned command failed, with the hook's name and the exit
    /// code it reported, if any.
    ExecutionFailure { hook: String, code: Option<i32> },
}

/// One fully resolved command invocation: what to spawn, with which
/// arguments, where, and with which search-path value.
#[derive(Debug)]
pub struct Invocation {
    pub cmd: String,
    pub args: Vec<String>,
    pub cwd: String,
    pub path_value: String,
}

#[verifier::ext_equal]
pub ghost struct InvocationView {
    pub cmd: Seq<char>,
    pub args: Seq<Seq<char>>,
    pub cwd: Seq<char>,
    pub path_value: Seq<char>,
}

impl View for Invocation {
    type V = InvocationView;

    open spec fn view(&self) -> InvocationView {
        InvocationView {
            cmd: self.cmd@,
            args: strs_view(self.args@),
            cwd: self.cwd@,
            path_value: self.path_value@,
        }
    }
}

/// What stops an argument expansion.
pub ghost enum ExpandError {
    /// A reserved singular placeholder.
    Unimplemented { token: Seq<char> },
    /// A pattern that is not a valid regular expression.
    BadPattern { pattern: Seq<char> },
}

/// The file patterns a hook selects with: its `on_file_regex` list, or
/// match-everything when it has none.
pub open spec fn spec_hook_patterns(h: HookView) -> Seq<Seq<char>> {
    match h.on_file_regex {
        Some(ps) => ps,
        None => seq![".*"@],
    }
}

/// Argument expansion, token by token, carrying the arguments accepted
/// so far and the should-run flag. A files placeholder appends the
/// selected files and clears the flag when it selected none; the root
/// placeholder appends the root unconditionally; a literal is kept only
/// while the flag still stands — one files placeholder with zero
/// matches silences every later literal, but never the command itself.
pub open spec fn spec_expand_acc(
    tokens: Seq<Seq<char>>,
    patterns: Seq<Seq<char>>,
    root: Seq<char>,
    entries: Seq<FsEntryView>,
    changed: Seq<FsEntryView>,
    acc: Seq<Seq<char>>,
    should_run: bool,
) -> Result<(Seq<Seq<char>>, bool), ExpandError>
    decreases tokens.len(),
{
    if tokens.len() == 0 {
        Ok((acc, should_run))
    } else {
        let t = tokens[0];
        match spec_token_from_str(t) {
            Some(ActionFileToken::File) => Err(ExpandError::Unimplemented { token: t }),
            Some(ActionFileToken::ChangedFile) => Err(ExpandError::Unimplemented { token: t }),
            Some(ActionFileToken::Files) => match spec_get_files(entries, patterns) {
                Err(p) => Err(ExpandError::BadPattern { pattern: p }),
                Ok(files) => spec_expand_acc(
                    tokens.skip(1),
                    patterns,
                    root,
                    entries,
                    changed,
                    acc + files,
                    files.len() > 0,
                ),
            },
            Some(ActionFileToken::ChangedFiles) => match spec_get_files(changed, patterns) {
                Err(p) => Err(ExpandError::BadPattern { pattern: p }),
                Ok(files) => spec_expand_acc(
                    tokens.skip(1),
                    patterns,
                    root,
                    entries,
                    changed,
                    acc + files,
                    files.len() > 0,
                ),
            },
            Some(ActionFileToken::Root) => spec_expand_acc(
                tokens.skip(1),
                patterns,
                root,
                entries,
                changed,
                acc.push(root),
                should_run,
            ),
            None => if should_run {
                spec_expand_acc(
                    tokens.skip(1),
                    patterns,
                    root,
                    entries,
                    changed,
                    acc.push(t),
                    should_run,
                )
            } else {
                spec_expand_acc(tokens.skip(1), patterns, root, entries, changed, acc, should_run)
            },
        }
    }
}

/// The expanded argument list of a token sequence, started with nothing
/// accepted and the should-run flag standing.
pub open spec fn spec_expand(
    tokens: Seq<Seq<char>>,
    patterns: Seq<Seq<char>>,
    root: Seq<char>,
    entries: Seq<FsEntryView>,
    changed: Seq<FsEntryView>,
) -> Result<(Seq<Seq<char>>, bool), ExpandError> {
    spec_expand_acc(tokens, patterns, root, entries, changed, Seq::empty(), true)
}

proof fn lemma_expand_skip(
    tokens: Seq<Seq<char>>,
    patterns: Seq<Seq<char>>,
    root: Seq<char>,
    entries: Seq<FsEntryView>,
    changed: Seq<FsEntryView>,
    i: int,
)
    requires
        0 <= i < tokens.len(),
    ensures
        tokens.skip(i)[0] == tokens[i],
        tokens.skip(i).skip(1) =~= tokens.skip(i + 1),
        tokens.skip(i).len() == tokens.len() - i,
{
}

/// Expands the argument tokens of a hook's action: placeholders become
/// the selected file lists or the root path, literals are kept while
/// the should-run flag stands. Returns the final argument list; a
/// reserved placeholder or an invalid pattern stops the hook instead.
pub fn expand_args(
    arg_tokens: &Vec<String>,
    patterns: &Vec<String>,
    root: &String,
    entries: &Vec<FsEntry>,
    changed: &Vec<FsEntry>,
) -> (r: Result<Vec<String>, HookError>)
    ensures
        ({
            let expanded = spec_expand(
                strs_view(arg_tokens@),
                strs_view(patterns@),
                root@,
                entries_view(entries@),
                entries_view(changed@),
            );
            match r {
                Ok(args) => expanded matches Ok(p) && p.0 == strs_view(args@),
                Err(e) => match e {
                    HookError::UnimplementedPlaceholder { token } => expanded == Err::<
                        (Seq<Seq<char>>, bool),
                        ExpandError,
                    >(ExpandError::Unimplemented { token: token@ }),
                    HookError::InvalidRegex { pattern } => expanded == Err::<
                        (Seq<Seq<char>>, bool),
                        ExpandError,
                    >(ExpandError::BadPattern { pattern: pattern@ }),
                    _ => false,
                },
            }
        }),
{
    let ghost toks = strs_view(arg_tokens@);
    let ghost pats = strs_view(patterns@);
    let ghost es = entries_view(entries@);
    let ghost cs = entries_view(changed@);
    let mut out: Vec<String> = Vec::new();
    let mut should_run: bool = true;
    proof {
        assert(toks.skip(0) =~= toks);
        assert(strs_view(out@) =~= Seq::<Seq<char>>::empty());
    }
    let mut i: usize = 0;
    while i < arg_tokens.len()
        invariant
            i <= arg_tokens@.len(),
            toks == strs_view(arg_tokens@),
            pats == strs_view(patterns@),
            es == entries_view(entries@),
            cs == entries_view(changed@),
            toks.len() == arg_tokens@.len(),
            spec_expand(toks, pats, root@, es, cs) == spec_expand_acc(
                toks.skip(i as int),
                pats,
                root@,
                es,
                cs,
                strs_view(out@),
                should_run,
            ),
        decreases arg_tokens@.len() - i,
    {
        proof {
            assert(toks[i as int] == arg_tokens@[i as int]@);
            lemma_expand_skip(toks, pats, root@, es, cs, i as int);
        }
        let tok = &arg_tokens[i];
        match ActionFileToken::from_str(tok.as_str()) {
            Some(ActionFileToken::File) => {
                return Err(HookError::UnimplementedPlaceholder { token: tok.clone() });
            },
            Some(ActionFileToken::ChangedFile) => {
                return Err(HookError::UnimplementedPlaceholder { token: tok.clone() });
            },
            Some(ActionFileToken::Files) => {
                match get_files(entries, patterns) {
                    Err(e) => {
                        return Err(HookError::InvalidRegex { pattern: e.pattern });
                    },
                    Ok(mut files) => {
                        should_run = files.len() > 0;
                        let ghost before = out@;
                        let ghost got = strs_view(files@);
                        out.append(&mut files);
                        proof {
                            assert(strs_view(out@) =~= strs_view(before) + got);
                        }
                    },
                }
            },
            Some(ActionFileToken::ChangedFiles) => {
                match get_files(changed, patterns) {
                    Err(e) => {
                        return Err(HookError::InvalidRegex { pattern: e.pattern });
                    },
                    Ok(mut files) => {
                        should_run = files.len() > 0;
                        let ghost before = out@;
                        let ghost got = strs_view(files@);
                        out.append(&mut files);
                        proof {
                            assert(strs_view(out@) =~= strs_view(before) + got);
                        }
                    },
                }
            },
            Some(ActionFileToken::Root) => {
                let ghost before = out@;
                out.push(root.clone());
                proof {
                    assert(strs_view(out@) =~= strs_view(before).push(root@));
                }
            },
            None => {
                if should_run {
                    let ghost before = out@;
                    out.push(tok.clone());
                    proof {
                        assert(strs_view(out@) =~= strs_view(before).push(toks[i as int]));
                    }
                }
            },
        }
        i = i + 1;
    }
    proof {
        assert(toks.skip(arg_tokens@.len() as int) =~= Seq::<Seq<char>>::empty());
    }
    Ok(out)
}

proof fn lemma_expand_literals_prefix(
    lits: Seq<Seq<char>>,
    rest: Seq<Seq<char>>,
    patterns: Seq<Seq<char>>,
    root: Seq<char>,
    entries: Seq<FsEntryView>,
    changed: Seq<FsEntryView>,
    acc: Seq<Seq<char>>,
)
    requires
        forall|k: int| 0 <= k < lits.len() ==> spec_token_from_str(lits[k]) is None,
    ensures
        spec_expand_acc(lits + rest, patterns, root, entries, changed, acc, true)
            == spec_expand_acc(rest, patterns, root, entries, changed, acc + lits, true),
    decreases lits.len(),
{
    if lits.len() == 0 {
        assert(lits + rest =~= rest);
        assert(acc + lits =~= acc);
    } else {
        assert((lits + rest)[0] == lits[0]);
        assert((lits + rest).skip(1) =~= lits.skip(1) + rest);
        lemma_expand_literals_prefix(
            lits.skip(1),
            rest,
            patterns,
            root,
            entries,
            changed,
            acc.push(lits[0]),
        );
        assert(acc.push(lits[0]) + lits.skip(1) =~= acc + lits);
    }
}

proof fn lemma_expand_literals_dropped(
    lits: Seq<Seq<char>>,
    patterns: Seq<Seq<char>>,
    root: Seq<char>,
    entries: Seq<FsEntryView>,
    changed: Seq<FsEntryView>,
    acc: Seq<Seq<char>>,
)
    requires
        forall|k: int| 0 <= k < lits.len() ==> spec_token_from_str(lits[k]) is None,
    ensures
        spec_expand_acc(lits, patterns, root, entries, changed, acc, false) == Ok::<
            (Seq<Seq<char>>, bool),
            ExpandError,
        >((acc, false)),
    decreases lits.len(),
{
    if lits.len() > 0 {
        lemma_expand_literals_dropped(lits.skip(1), patterns, root, entries, changed, acc);
    }
}

/// A `{changed_files}` placeholder whose patterns select no changed
/// file does not fail the hook: the expansion still succeeds, keeps
/// every literal that preceded the placeholder, and only drops the
/// literals after it — the command still runs with what was accepted.
pub proof fn lemma_empty_changed_files_keeps_prefix(
    before: Seq<Seq<char>>,
    tok: Seq<char>,
    after: Seq<Seq<char>>,
    patterns: Seq<Seq<char>>,
    root: Seq<char>,
    entries: Seq<FsEntryView>,
    changed: Seq<FsEntryView>,
)
    requires
        forall|k: int| 0 <= k < before.len() ==> spec_token_from_str(before[k]) is None,
        forall|k: int| 0 <= k < after.len() ==> spec_token_from_str(after[k]) is None,
        spec_token_from_str(tok) == Some(ActionFileToken::ChangedFiles),
        spec_get_files(changed, patterns) == Ok::<Seq<Seq<char>>, Seq<char>>(Seq::empty()),
    ensures
        spec_expand(before + seq![tok] + after, patterns, root, entries, changed) == Ok::<
            (Seq<Seq<char>>, bool),
            ExpandError,
        >((before, false)),
{
    let mid = seq![tok] + after;
    assert(before + seq![tok] + after =~= before + mid);
    lemma_expand_literals_prefix(
        before,
        mid,
        patterns,
        root,
        entries,
        changed,
        Seq::empty(),
    );
    assert(Seq::<Seq<char>>::empty() + before =~= before);
    assert(mid[0] == tok);
    assert(mid.skip(1) =~= after);
    assert(before + Seq::<Seq<char>>::empty() =~= before);
    lemma_expand_literals_dropped(after, patterns, root, entries, changed, before);
}

/// A `{changed_files}` placeholder whose patterns select a non-empty
/// file list expands to exactly that list in place: the literals before
/// it are kept, the selected files follow, the literals after it are
/// kept too, and the hook is still due to run.
pub proof fn lemma_changed_files_expansion(
    before: Seq<Seq<char>>,
    tok: Seq<char>,
    after: Seq<Seq<char>>,
    patterns: Seq<Seq<char>>,
    root: Seq<char>,
    entries: Seq<FsEntryView>,
    changed: Seq<FsEntryView>,
    files: Seq<Seq<char>>,
)
    requires
        forall|k: int| 0 <= k < before.len() ==> spec_token_from_str(before[k]) is None,
        forall|k: int| 0 <= k < after.len() ==> spec_token_from_str(after[k]) is None,
        spec_token_from_str(tok) == Some(ActionFileToken::ChangedFiles),
        spec_get_files(changed, patterns) == Ok::<Seq<Seq<char>>, Seq<char>>(files),
        files.len() > 0,
    ensures
        spec_expand(before + seq![tok] + after, patterns, root, entries, changed) == Ok::<
            (Seq<Seq<char>>, bool),
            ExpandError,
        >((before + files + after, true)),
{
    let mid = seq![tok] + after;
    assert(before + seq![tok] + after =~= before + mid);
    lemma_expand_literals_prefix(
        before,
        mid,
        patterns,
        root,
        entries,
        changed,
        Seq::empty(),
    );
    assert(Seq::<Seq<char>>::empty() + before =~= before);
    assert(mid[0] == tok);
    assert(mid.skip(1) =~= after);
    lemma_expand_literals_prefix(
        after,
        Seq::empty(),
        patterns,
        root,
        entries,
        changed,
        before + files,
    );
    assert(after + Seq::<Seq<char>>::empty() =~= after);
    assert((before + files) + after =~= before + files + after);
}

/// What a planned hook run is, before anything touched the system.
pub ghost enum PlanError {
    /// The hook has no action at all.
    MissingAction,
    /// The action string holds no word.
    EmptyAction,
    /// A reserved singular placeholder stands among the tokens.
    Unimplemented { token: Seq<char> },
    /// A file pattern is not a valid regular expression.
    BadPattern { pattern: Seq<char> },
}

/// The whole planning step of one hook run: tokenize the action, expand
/// the argument tokens against the hook's patterns, and assemble the
/// invocation — run at the repository root, with the source's working
/// copy put in front of the search path.
pub open spec fn spec_plan(
    hook: HookView,
    root: Seq<char>,
    base_path: Seq<char>,
    repo_path: Seq<char>,
    entries: Seq<FsEntryView>,
    changed: Seq<FsEntryView>,
) -> Result<InvocationView, PlanError> {
    match hook.action {
        None => Err(PlanError::MissingAction),
        Some(action) => match spec_tokenize(action) {
            None => Err(PlanError::EmptyAction),
            Some(ct) => match spec_expand(
                ct.1,
                spec_hook_patterns(hook),
                root,
                entries,
                changed,
            ) {
                Err(ExpandError::Unimplemented { token }) => Err(
                    PlanError::Unimplemented { token },
                ),
                Err(ExpandError::BadPattern { pattern }) => Err(PlanError::BadPattern { pattern }),
                Ok(p) => Ok(
                    InvocationView {
                        cmd: ct.0,
                        args: p.0,
                        cwd: root,
                        path_value: repo_path + ":"@ + base_path,
                    },
                ),
            },
        },
    }
}

/// Plans one hook run: the command to spawn at the repository root with
/// the source's working copy ahead of the search path, or the error
/// that stops the hook. `base_path` is the current search-path value;
/// `entries` is the walked file tree for `{files}`; `changed` the
/// staged changed files for `{changed_files}`.
pub fn plan_invocation(
    hook: &Hook,
    root: &String,
    base_path: &str,
    repo_path: &str,
    entries: &Vec<FsEntry>,
    changed: &Vec<FsEntry>,
) -> (r: Result<Invocation, HookError>)
    ensures
        ({
            let plan = spec_plan(
                hook@,
                root@,
                base_path@,
                repo_path@,
                entries_view(entries@),
                entries_view(changed@),
            );
            match r {
                Ok(inv) => plan == Ok::<InvocationView, PlanError>(inv@),
                Err(e) => match e {
                    HookError::MissingAction { hook: hn } => plan == Err::<
                        InvocationView,
                        PlanError,
                    >(PlanError::MissingAction) && hn@ == hook@.name,
                    HookError::EmptyAction { hook: hn } => plan == Err::<
                        InvocationView,
                        PlanError,
                    >(PlanError::EmptyAction) && hn@ == hook@.name,
                    HookError::UnimplementedPlaceholder { token } => plan == Err::<
                        InvocationView,
                        PlanError,
                    >(PlanError::Unimplemented { token: token@ }),
                    HookError::InvalidRegex { pattern } => plan == Err::<
                        InvocationView,
                        PlanError,
                    >(PlanError::BadPattern { pattern: pattern@ }),
                    HookError::ExecutionFailure { .. } => false,
                },
            }
        }),
{
    let action = match &hook.action {
        None => {
            return Err(HookError::MissingAction { hook: hook.name.clone() });
        },
        Some(a) => a,
    };
    let (cmd, arg_tokens) = match tokenize(action.as_str()) {
        None => {
            return Err(HookError::EmptyAction { hook: hook.name.clone() });
        },
        Some(ct) => ct,
    };
    let default_patterns: Vec<String> = vec![".*".to_owned()];
    let patterns: &Vec<String> = match &hook.on_file_regex {
        Some(ps) => ps,
        None => &default_patterns,
    };
    proof {
        assert(strs_view(patterns@) =~= spec_hook_patterns(hook@));
    }
    let args = match expand_args(&arg_tokens, patterns, root, entries, changed) {
        Err(e) => {
            return Err(e);
        },
        Ok(args) => args,
    };
    let inv = Invocation {
        cmd,
        args,
        cwd: root.clone(),
        path_value: prefix_path(repo_path, base_path),
    };
    Ok(inv)
}

/// Success when the hook's command succeeded; else the failure record
/// the dispatcher aggregates: the hook's name and the exit code.
pub fn interpret_hook_exit(hook_name: &String, out: &CmdOutput) -> (r: Result<(), HookError>)
    ensures
        r is Ok <==> out.success,
        r matches Err(e) ==> (e matches HookError::ExecutionFailure { hook, code } && hook@
            == hook_name@ && code == out.code),
{
    if out.success {
        Ok(())
    } else {
        Err(HookError::ExecutionFailure { hook: hook_name.clone(), code: out.code })
    }
}

/// The changed files that were already staged: what a successful hook
/// run must stage again, in the order the changed-file listing reports
/// them.
pub open spec fn spec_files_to_re_add(
    index_files: Seq<Seq<char>>,
    changed: Seq<Seq<char>>,
) -> Seq<Seq<char>>
    decreases changed.len(),
{
    if changed.len() == 0 {
        Seq::empty()
    } else if index_files.contains(changed[0]) {
        seq![changed[0]] + spec_files_to_re_add(index_files, changed.skip(1))
    } else {
        spec_files_to_re_add(index_files, changed.skip(1))
    }
}

fn strings_contain(v: &Vec<String>, s: &String) -> (r: bool)
    ensures
        r == strs_view(v@).contains(s@),
{
    let mut i: usize = 0;
    while i < v.len()
        invariant
            i <= v@.len(),
            forall|k: int| 0 <= k < i ==> strs_view(v@)[k] != s@,
        decreases v@.len() - i,
    {
        proof {
            assert(strs_view(v@)[i as int] == v@[i as int]@);
        }
        if crate::config::string_eq(&v[i], s) {
            return true;
        }
        i = i + 1;
    }
    proof {
        assert(forall|k: int| 0 <= k < strs_view(v@).len() ==> strs_view(v@)[k] != s@);
    }
    false
}

proof fn lemma_re_add_step(index_files: Seq<Seq<char>>, changed: Seq<Seq<char>>, i: int)
    requires
        0 <= i < changed.len(),
    ensures
        spec_files_to_re_add(index_files, changed.skip(i)) == (if index_files.contains(
            changed[i],
        ) {
            seq![changed[i]] + spec_files_to_re_add(index_files, changed.skip(i + 1))
        } else {
            spec_files_to_re_add(index_files, changed.skip(i + 1))
        }),
{
    assert(changed.skip(i)[0] == changed[i]);
    assert(changed.skip(i).skip(1) =~= changed.skip(i + 1));
}

/// The post-run reconciliation decision: the files of the changed list
/// that also stand in the staged list — those a hook modified after
/// they were staged — which must be added to the index again.
pub fn files_to_re_add(index_files: &Vec<String>, changed_files: &Vec<String>) -> (r: Vec<String>)
    ensures
        strs_view(r@) == spec_files_to_re_add(
            strs_view(index_files@),
            strs_view(changed_files@),
        ),
{
    let ghost idx = strs_view(index_files@);
    let ghost cs = strs_view(changed_files@);
    let mut out: Vec<String> = Vec::new();
    proof {
        assert(cs.skip(0) =~= cs);
        assert(strs_view(out@) =~= Seq::<Seq<char>>::empty());
    }
    let mut i: usize = 0;
    while i < changed_files.len()
        invariant
            i <= changed_files@.len(),
            idx == strs_view(index_files@),
            cs == strs_view(changed_files@),
            cs.len() == changed_files@.len(),
            spec_files_to_re_add(idx, cs) == strs_view(out@) + spec_files_to_re_add(
                idx,
                cs.skip(i as int),
            ),
        decreases changed_files@.len() - i,
    {
        proof {
            assert(cs[i as int] == changed_files@[i as int]@);
            lemma_re_add_step(idx, cs, i as int);
        }
        if strings_contain(index_files, &changed_files[i]) {
            let ghost before = out@;
            out.push(changed_files[i].clone());
            proof {
                assert(strs_view(out@) =~= strs_view(before).push(cs[i as int]));
                assert(strs_view(before) + (seq![cs[i as int]] + spec_files_to_re_add(
                    idx,
                    cs.skip(i as int + 1),
                )) =~= strs_view(out@) + spec_files_to_re_add(idx, cs.skip(i as int + 1)));
            }
        }
        i = i + 1;
    }
    proof {
        assert(cs.skip(changed_files@.len() as int) =~= Seq::<Seq<char>>::empty());
        assert(strs_view(out@) + Seq::<Seq<char>>::empty() =~= strs_view(out@));
    }
    out
}

/// The setup scripts of a source's hooks, in hook order: each is run
/// once, right after the source is materialized, with the source's
/// working copy ahead of the search path.
pub open spec fn spec_setup_commands(hooks: Seq<HookView>) -> Seq<Seq<char>>
    decreases hooks.len(),
{
    if hooks.len() == 0 {
        Seq::empty()
    } else {
        match hooks[0].setup_script {
            Some(s) => seq![s] + spec_setup_commands(hooks.skip(1)),
            None => spec_setup_commands(hooks.skip(1)),
        }
    }
}

proof fn lemma_setup_step(hooks: Seq<HookView>, i: int)
    requires
        0 <= i < hooks.len(),
    ensures
        spec_setup_commands(hooks.skip(i)) == (match hooks[i].setup_script {
            Some(s) => seq![s] + spec_setup_commands(hooks.skip(i + 1)),
            None => spec_setup_commands(hooks.skip(i + 1)),
        }),
{
    assert(hooks.skip(i)[0] == hooks[i]);
    assert(hooks.skip(i).skip(1) =~= hooks.skip(i + 1));
}

/// The setup commands a freshly materialized source asks for: the
/// `setup_script` of each of its hooks that has one, in hook order.
pub fn setup_plan(repo: &ExternalHookRepo) -> (r: Vec<String>)
    ensures
        strs_view(r@) == spec_setup_commands(repo@.hooks),
{
    let ghost hs = repo@.hooks;
    let mut out: Vec<String> = Vec::new();
    proof {
        assert(hs.skip(0) =~= hs);
        assert(strs_view(out@) =~= Seq::<Seq<char>>::empty());
        assert(strs_view(out@) + spec_setup_commands(hs) =~= spec_setup_commands(hs));
    }
    let mut i: usize = 0;
    while i < repo.hooks.len()
        invariant
            i <= repo.hooks@.len(),
            hs == repo@.hooks,
            hs.len() == repo.hooks@.len(),
            spec_setup_commands(hs) == strs_view(out@) + spec_setup_commands(hs.skip(i as int)),
        decreases repo.hooks@.len() - i,
    {
        proof {
            assert(hs[i as int] == repo.hooks@[i as int]@);
            lemma_setup_step(hs, i as int);
        }
        match &repo.hooks[i].setup_script {
            Some(script) => {
                let ghost before = out@;
                out.push(script.clone());
                proof {
                    assert(strs_view(out@) =~= strs_view(before).push(hs[i as int].setup_script->0));
                    assert(strs_view(before) + (seq![hs[i as int].setup_script->0]
                        + spec_setup_commands(hs.skip(i as int + 1))) =~= strs_view(out@)
                        + spec_setup_commands(hs.skip(i as int + 1)));
                }
            },
            None => {},
        }
        i = i + 1;
    }
    proof {
        assert(hs.skip(repo.hooks@.len() as int) =~= Seq::<HookView>::empty());
        assert(strs_view(out@) + Seq::<Seq<char>>::empty() =~= strs_view(out@));
    }
    out
}

} // verus!
