//! The pattern matcher and file selector: given a path and a list of
//! regular-expression patterns, decide whether a hook is interested in
//! the path; directories and anything under the VCS metadata directory
//! are excluded unconditionally. Also the small path computations the
//! rest of the engine needs.

use vstd::prelude::*;
use vstd::string::StrSliceExecFns;
use vstd::string::StringExecFns;

use crate::config::strs_view;

verus! {

/// Whether `pattern` compiles as a regular expression: valid syntax,
/// within the compiler's fixed default limits.
pub uninterp spec fn regex_valid(pattern: Seq<char>) -> bool;

/// Whether an unanchored search of `pattern` finds a match in `text`.
pub uninterp spec fn regex_match(pattern: Seq<char>, text: Seq<char>) -> bool;

/// Relies on regex::Regex::new and regex::Regex::is_match: an unanchored
/// search of the compiled pattern in `text`, whose outcome depends on
/// the pattern and the text alone; `None` exactly when the pattern does
/// not compile.
#[verifier::external_body]
fn regex_is_match(pattern: &str, text: &str) -> (r: Option<bool>)
    ensures
        r is Some <==> regex_valid(pattern@),
        r matches Some(m) ==> m == regex_match(pattern@, text@),
{
    match regex::Regex::new(pattern) {
        Ok(re) => Some(re.is_match(text)),
        Err(_) => None,
    }
}

/// A pattern that is not a valid regular expression: a configuration
/// error, fatal to the run.
#[derive(Debug)]
pub struct PatternError {
    pub pattern: String,
}

/// `needle` occurs in `hay` starting at position `i`.
pub open spec fn contains_at(hay: Seq<char>, needle: Seq<char>, i: int) -> bool {
    0 <= i && i + needle.len() <= hay.len() && hay.subrange(i, i + needle.len()) == needle
}

/// `.git` stands as a whole path component at position `i`: bounded by
/// the start of the path or a separator on the left, and by the end of
/// the path or a separator on the right.
pub open spec fn spec_git_component_at(p: Seq<char>, i: int) -> bool {
    &&& contains_at(p, ".git"@, i)
    &&& (i == 0 || p[i - 1] == '/')
    &&& (i + 4 == p.len() || p[i + 4] == '/')
}

/// A path under the VCS metadata directory: one of its components is
/// `.git` — the path is `.git` itself, starts with `.git/`, ends with
/// `/.git`, or holds `/.git/`. Such paths are excluded from matching
/// unconditionally. A name that merely contains those letters, such as
/// `.gitignore` or anything under `.github/`, is not excluded.
pub open spec fn spec_in_git_dir(path: Seq<char>) -> bool {
    exists|i: int| spec_git_component_at(path, i)
}

/// Whether one of the path's components is `.git`.
fn is_git_path(path: &str) -> (r: bool)
    ensures
        r == spec_in_git_dir(path@),
{
    let n = path.unicode_len();
    if n < 4 {
        proof {
            reveal_strlit(".git");
            assert forall|k: int| !spec_git_component_at(path@, k) by {
                assert(!contains_at(path@, ".git"@, k));
            }
        }
        return false;
    }
    let mut i: usize = 0;
    while i <= n - 4
        invariant
            4 <= n,
            n == path@.len(),
            i <= n,
            forall|k: int| 0 <= k < i ==> !spec_git_component_at(path@, k),
        decreases n - i,
    {
        if path.get_char(i) == '.' && path.get_char(i + 1) == 'g' && path.get_char(i + 2) == 'i'
            && path.get_char(i + 3) == 't' && (i == 0 || path.get_char(i - 1) == '/') && (i + 4
            == n || path.get_char(i + 4) == '/') {
            proof {
                reveal_strlit(".git");
                let sub = path@.subrange(i as int, i as int + 4);
                assert(sub[0] == path@[i as int]);
                assert(sub[1] == path@[i as int + 1]);
                assert(sub[2] == path@[i as int + 2]);
                assert(sub[3] == path@[i as int + 3]);
                assert(sub =~= ".git"@);
                assert(contains_at(path@, ".git"@, i as int));
                assert(spec_git_component_at(path@, i as int));
            }
            return true;
        }
        proof {
            reveal_strlit(".git");
            assert(!spec_git_component_at(path@, i as int)) by {
                if contains_at(path@, ".git"@, i as int) {
                    let sub = path@.subrange(i as int, i as int + 4);
                    assert(sub[0] == path@[i as int]);
                    assert(sub[1] == path@[i as int + 1]);
                    assert(sub[2] == path@[i as int + 2]);
                    assert(sub[3] == path@[i as int + 3]);
                    assert(path@[i as int] == '.');
                    assert(path@[i as int + 1] == 'g');
                    assert(path@[i as int + 2] == 'i');
                    assert(path@[i as int + 3] == 't');
                }
            }
        }
        i = i + 1;
    }
    proof {
        reveal_strlit(".git");
        assert forall|k: int| !spec_git_component_at(path@, k) by {
            if k >= i {
                assert(k + 4 > n);
                assert(!contains_at(path@, ".git"@, k));
            } else if k < 0 {
                assert(!contains_at(path@, ".git"@, k));
            }
        }
    }
    false
}

/// Scans the patterns in order: the first invalid pattern is reported as
/// an error; the first valid pattern that matches ends the scan with a
/// positive answer; a full scan without a match is a negative answer.
/// An invalid pattern standing after the first match is never reached.
pub open spec fn spec_match_scan(path: Seq<char>, patterns: Seq<Seq<char>>) -> Result<
    bool,
    Seq<char>,
>
    decreases patterns.len(),
{
    if patterns.len() == 0 {
        Ok(false)
    } else if !regex_valid(patterns[0]) {
        Err(patterns[0])
    } else if regex_match(patterns[0], path) {
        Ok(true)
    } else {
        spec_match_scan(path, patterns.skip(1))
    }
}

/// What the matcher answers: directories and VCS-internal paths never
/// match, whatever the patterns; any other path is scanned against the
/// patterns in order.
pub open spec fn spec_matches(path: Seq<char>, is_dir: bool, patterns: Seq<Seq<char>>) -> Result<
    bool,
    Seq<char>,
> {
    if is_dir {
        Ok(false)
    } else if spec_in_git_dir(path) {
        Ok(false)
    } else {
        spec_match_scan(path, patterns)
    }
}

proof fn lemma_match_scan_step(path: Seq<char>, patterns: Seq<Seq<char>>, i: int)
    requires
        0 <= i < patterns.len(),
        regex_valid(patterns[i]),
        !regex_match(patterns[i], path),
    ensures
        spec_match_scan(path, patterns.skip(i)) == spec_match_scan(path, patterns.skip(i + 1)),
{
    assert(patterns.skip(i)[0] == patterns[i]);
    assert(patterns.skip(i).skip(1) =~= patterns.skip(i + 1));
}

/// Whether a filesystem path is eligible for a hook: never for a
/// directory, never for a path under the VCS metadata directory, else
/// exactly when some pattern of the list matches its string form. An
/// invalid pattern reached by the scan is a configuration error.
pub fn matches(path: &str, is_dir: bool, patterns: &Vec<String>) -> (r: Result<
    bool,
    PatternError,
>)
    ensures
        is_dir ==> r == Ok::<bool, PatternError>(false),
        spec_in_git_dir(path@) ==> r == Ok::<bool, PatternError>(false),
        r is Ok ==> spec_matches(path@, is_dir, strs_view(patterns@)) == Ok::<bool, Seq<char>>(
            r->Ok_0,
        ),
        r is Err ==> spec_matches(path@, is_dir, strs_view(patterns@)) == Err::<bool, Seq<char>>(
            r->Err_0.pattern@,
        ),
{
    if is_dir {
        return Ok(false);
    }
    if is_git_path(path) {
        return Ok(false);
    }
    let ghost pats = strs_view(patterns@);
    proof {
        assert(pats.skip(0) =~= pats);
    }
    let mut i: usize = 0;
    while i < patterns.len()
        invariant
            i <= patterns@.len(),
            pats == strs_view(patterns@),
            pats.len() == patterns@.len(),
            !is_dir,
            !spec_in_git_dir(path@),
            spec_match_scan(path@, pats) == spec_match_scan(path@, pats.skip(i as int)),
        decreases patterns@.len() - i,
    {
        proof {
            assert(pats[i as int] == patterns@[i as int]@);
            assert(pats.skip(i as int)[0] == pats[i as int]);
        }
        match regex_is_match(patterns[i].as_str(), path) {
            None => {
                return Err(PatternError { pattern: patterns[i].clone() });
            },
            Some(true) => {
                return Ok(true);
            },
            Some(false) => {
                proof {
                    lemma_match_scan_step(path@, pats, i as int);
                }
            },
        }
        i = i + 1;
    }
    proof {
        assert(pats.skip(patterns@.len() as int) =~= Seq::<Seq<char>>::empty());
    }
    Ok(false)
}

/// One visited filesystem entry, as the walker reports it: the path's
/// string form and whether it denotes a directory.
pub struct FsEntry {
    pub path: String,
    pub is_dir: bool,
}

#[verifier::ext_equal]
pub ghost struct FsEntryView {
    pub path: Seq<char>,
    pub is_dir: bool,
}

impl View for FsEntry {
    type V = FsEntryView;

    open spec fn view(&self) -> FsEntryView {
        FsEntryView { path: self.path@, is_dir: self.is_dir }
    }
}

pub open spec fn entries_view(es: Seq<FsEntry>) -> Seq<FsEntryView> {
    es.map_values(|e: FsEntry| e@)
}

/// The paths of the visited entries that the matcher accepts, in visit
/// order; the first configuration error the scan runs into is reported
/// instead.
pub open spec fn spec_get_files(entries: Seq<FsEntryView>, patterns: Seq<Seq<char>>) -> Result<
    Seq<Seq<char>>,
    Seq<char>,
>
    decreases entries.len(),
{
    if entries.len() == 0 {
        Ok(Seq::empty())
    } else {
        match spec_matches(entries[0].path, entries[0].is_dir, patterns) {
            Err(p) => Err(p),
            Ok(true) => match spec_get_files(entries.skip(1), patterns) {
                Ok(rest) => Ok(seq![entries[0].path] + rest),
                Err(p) => Err(p),
            },
            Ok(false) => spec_get_files(entries.skip(1), patterns),
        }
    }
}

proof fn lemma_get_files_step(entries: Seq<FsEntryView>, patterns: Seq<Seq<char>>, i: int)
    requires
        0 <= i < entries.len(),
    ensures
        spec_get_files(entries.skip(i), patterns) == (match spec_matches(
            entries[i].path,
            entries[i].is_dir,
            patterns,
        ) {
            Err(p) => Err::<Seq<Seq<char>>, Seq<char>>(p),
            Ok(true) => match spec_get_files(entries.skip(i + 1), patterns) {
                Ok(rest) => Ok::<Seq<Seq<char>>, Seq<char>>(seq![entries[i].path] + rest),
                Err(p) => Err::<Seq<Seq<char>>, Seq<char>>(p),
            },
            Ok(false) => spec_get_files(entries.skip(i + 1), patterns),
        }),
{
    assert(entries.skip(i)[0] == entries[i]);
    assert(entries.skip(i).skip(1) =~= entries.skip(i + 1));
}

/// The file list a hook runs against in "all files" mode: every visited
/// entry whose path the matcher accepts, in visit order. An invalid
/// pattern reached by any scan is a configuration error.
pub fn get_files(entries: &Vec<FsEntry>, patterns: &Vec<String>) -> (r: Result<
    Vec<String>,
    PatternError,
>)
    ensures
        r is Ok ==> spec_get_files(entries_view(entries@), strs_view(patterns@)) == Ok::<
            Seq<Seq<char>>,
            Seq<char>,
        >(strs_view(r->Ok_0@)),
        r is Err ==> spec_get_files(entries_view(entries@), strs_view(patterns@)) == Err::<
            Seq<Seq<char>>,
            Seq<char>,
        >(r->Err_0.pattern@),
{
    let ghost es = entries_view(entries@);
    let ghost pats = strs_view(patterns@);
    let mut out: Vec<String> = Vec::new();
    proof {
        assert(es.skip(0) =~= es);
        if spec_get_files(es, pats) is Ok {
            assert(strs_view(out@) + spec_get_files(es, pats)->Ok_0 =~= spec_get_files(
                es,
                pats,
            )->Ok_0);
        }
    }
    let mut i: usize = 0;
    while i < entries.len()
        invariant
            i <= entries@.len(),
            es == entries_view(entries@),
            pats == strs_view(patterns@),
            es.len() == entries@.len(),
            (match spec_get_files(es.skip(i as int), pats) {
                Ok(rest) => spec_get_files(es, pats) == Ok::<Seq<Seq<char>>, Seq<char>>(
                    strs_view(out@) + rest,
                ),
                Err(p) => spec_get_files(es, pats) == Err::<Seq<Seq<char>>, Seq<char>>(p),
            }),
        decreases entries@.len() - i,
    {
        proof {
            assert(es[i as int] == entries@[i as int]@);
            lemma_get_files_step(es, pats, i as int);
        }
        let entry = &entries[i];
        match matches(entry.path.as_str(), entry.is_dir, patterns) {
            Err(e) => {
                return Err(e);
            },
            Ok(true) => {
                let ghost before = out@;
                out.push(entry.path.clone());
                proof {
                    assert(strs_view(out@) =~= strs_view(before) + seq![es[i as int].path]);
                    if spec_get_files(es.skip(i as int + 1), pats) is Ok {
                        let rest = spec_get_files(es.skip(i as int + 1), pats)->Ok_0;
                        assert(strs_view(before) + (seq![es[i as int].path] + rest) =~= strs_view(
                            out@,
                        ) + rest);
                    }
                }
            },
            Ok(false) => {},
        }
        i = i + 1;
    }
    proof {
        assert(es.skip(entries@.len() as int) =~= Seq::<FsEntryView>::empty());
        assert(strs_view(out@) + Seq::<Seq<char>>::empty() =~= strs_view(out@));
    }
    Ok(out)
}

/// The last `/`-separated segment of a URL or path: what stands after
/// the final slash, or the whole string when it holds none.
pub open spec fn spec_last_segment(s: Seq<char>) -> Seq<char>
    decreases s.len(),
{
    if s.len() == 0 {
        s
    } else if s[s.len() - 1] == '/' {
        Seq::empty()
    } else {
        spec_last_segment(s.take(s.len() - 1)).push(s[s.len() - 1])
    }
}

proof fn lemma_last_segment_no_slash(s: Seq<char>)
    requires
        forall|j: int| 0 <= j < s.len() ==> s[j] != '/',
    ensures
        spec_last_segment(s) == s,
    decreases s.len(),
{
    if s.len() == 0 {
    } else {
        lemma_last_segment_no_slash(s.take(s.len() - 1));
        assert(s =~= s.take(s.len() - 1).push(s[s.len() - 1]));
    }
}

proof fn lemma_last_segment_after_slash(s: Seq<char>, k: int)
    requires
        0 <= k < s.len(),
        s[k] == '/',
        forall|j: int| k < j < s.len() ==> s[j] != '/',
    ensures
        spec_last_segment(s) == s.subrange(k + 1, s.len() as int),
    decreases s.len(),
{
    if k == s.len() - 1 {
        assert(s.subrange(k + 1, s.len() as int) =~= Seq::<char>::empty());
    } else {
        let t = s.take(s.len() - 1);
        lemma_last_segment_after_slash(t, k);
        assert(spec_last_segment(s) == spec_last_segment(t).push(s[s.len() - 1]));
        assert(t.subrange(k + 1, t.len() as int).push(s[s.len() - 1]) =~= s.subrange(
            k + 1,
            s.len() as int,
        ));
    }
}

/// The directory a source's working copy lives in: under the repository
/// root's VCS metadata directory, in a folder named after the last
/// segment of the source's origin URL.
pub fn get_local_repo_path(root: &str, url: &str) -> (r: String)
    ensures
        r@ == root@ + "/.git/hook-repos/"@ + spec_last_segment(url@),
{
    let n = url.unicode_len();
    let mut j: usize = n;
    while j > 0
        invariant
            j <= n,
            n == url@.len(),
            forall|k: int| j <= k < n ==> url@[k] != '/',
        decreases j,
    {
        if url.get_char(j - 1) == '/' {
            proof {
                lemma_last_segment_after_slash(url@, j - 1);
            }
            let seg = url.substring_char(j, n);
            let mut out = root.to_owned();
            out.append("/.git/hook-repos/");
            out.append(seg);
            return out;
        }
        j = j - 1;
    }
    proof {
        lemma_last_segment_no_slash(url@);
    }
    let mut out = root.to_owned();
    out.append("/.git/hook-repos/");
    out.append(url);
    out
}

/// A search path with `p` put in front: commands in `p` take precedence
/// over those already reachable through `path_var`.
pub fn prefix_path(p: &str, path_var: &str) -> (r: String)
    ensures
        r@ == p@ + ":"@ + path_var@,
{
    let mut out = p.to_owned();
    out.append(":");
    out.append(path_var);
    out
}

/// Whether a character counts as trimmable whitespace: the blanks and
/// line breaks command output is padded with.
pub open spec fn spec_is_space(c: char) -> bool {
    c == ' ' || c == '\t' || c == '\n' || c == '\r'
}

/// `s` without leading whitespace.
pub open spec fn spec_trim_start(s: Seq<char>) -> Seq<char>
    decreases s.len(),
{
    if s.len() == 0 {
        s
    } else if spec_is_space(s[0]) {
        spec_trim_start(s.skip(1))
    } else {
        s
    }
}

/// `s` without trailing whitespace.
pub open spec fn spec_trim_end(s: Seq<char>) -> Seq<char>
    decreases s.len(),
{
    if s.len() == 0 {
        s
    } else if spec_is_space(s[s.len() - 1]) {
        spec_trim_end(s.take(s.len() - 1))
    } else {
        s
    }
}

/// `s` without leading and trailing whitespace.
pub open spec fn spec_trim(s: Seq<char>) -> Seq<char> {
    spec_trim_end(spec_trim_start(s))
}

proof fn lemma_trim_start_at(s: Seq<char>, a: int)
    requires
        0 <= a <= s.len(),
        forall|k: int| 0 <= k < a ==> spec_is_space(s[k]),
        a < s.len() ==> !spec_is_space(s[a]),
    ensures
        spec_trim_start(s) == s.skip(a),
    decreases a,
{
    if a == 0 {
        assert(s.skip(0) =~= s);
    } else {
        assert(spec_is_space(s[0]));
        lemma_trim_start_at(s.skip(1), a - 1);
        assert(s.skip(1).skip(a - 1) =~= s.skip(a));
    }
}

proof fn lemma_trim_end_at(s: Seq<char>, b: int)
    requires
        0 <= b <= s.len(),
        forall|k: int| b <= k < s.len() ==> spec_is_space(s[k]),
        b > 0 ==> !spec_is_space(s[b - 1]),
    ensures
        spec_trim_end(s) == s.take(b),
    decreases s.len() - b,
{
    if b == s.len() {
        assert(s.take(b) =~= s);
    } else {
        assert(spec_is_space(s[s.len() - 1]));
        lemma_trim_end_at(s.take(s.len() - 1), b);
        assert(s.take(s.len() - 1).take(b) =~= s.take(b));
    }
}

/// `s` with leading and trailing whitespace removed: how a resolved
/// hash is read out of command output.
pub fn trim(s: &str) -> (r: String)
    ensures
        r@ == spec_trim(s@),
{
    let n = s.unicode_len();
    let mut a: usize = 0;
    while a < n && is_space_char(s.get_char(a))
        invariant
            a <= n,
            n == s@.len(),
            forall|k: int| 0 <= k < a ==> spec_is_space(s@[k]),
        decreases n - a,
    {
        a = a + 1;
    }
    proof {
        lemma_trim_start_at(s@, a as int);
    }
    let mut b: usize = n;
    while b > a && is_space_char(s.get_char(b - 1))
        invariant
            a <= b <= n,
            n == s@.len(),
            a < n ==> !spec_is_space(s@[a as int]),
            forall|k: int| b <= k < n ==> spec_is_space(s@[k]),
        decreases b,
    {
        b = b - 1;
    }
    proof {
        let t = s@.skip(a as int);
        lemma_trim_end_at(t, b - a);
        assert(t.take(b - a) =~= s@.subrange(a as int, b as int));
    }
    s.substring_char(a, b).to_owned()
}

/// Whether the character is trimmable whitespace.
fn is_space_char(c: char) -> (r: bool)
    ensures
        r == spec_is_space(c),
{
    c == ' ' || c == '\t' || c == '\n' || c == '\r'
}

} // verus!
