//! The version-control collaborator, split into what can be decided and
//! interpreted here and what only a process runner can do. Each
//! operation is described as a [`GitRequest`] (the exact argument list
//! and working directory for one `git` invocation); the caller runs it
//! and hands back a [`CmdOutput`], which the matching `*_output`
//! function interprets.

use vstd::prelude::*;
use vstd::string::StrSliceExecFns;
use vstd::string::StringExecFns;

use crate::config::opt_str_view;
use crate::config::strs_view;
use crate::utils::spec_trim;
use crate::utils::trim;

verus! {

/// One `git` invocation to perform: its arguments (after the program
/// name) and the directory to run it in, if any.
#[derive(Debug)]
pub struct GitRequest {
    pub args: Vec<String>,
    pub cwd: Option<String>,
}

/// What running a command produced: whether it exited successfully, its
/// exit code when there was one, and both captured streams in full.
pub struct CmdOutput {
    pub success: bool,
    pub code: Option<i32>,
    pub stdout: String,
    pub stderr: String,
}

/// A failed interaction with the version-control system.
#[derive(Debug)]
pub enum GitError {
    /// The command itself reported failure; carries what it wrote to
    /// its error stream.
    CommandFailed { stderr: String },
    /// A reference could not be resolved in a repository.
    ReferenceNotFound { reference: String, repo: String },
    /// The command succeeded but its output did not have the promised
    /// shape.
    MalformedOutput,
}

/// Success when the command succeeded, else the command's error stream.
pub fn expect_success(out: &CmdOutput) -> (r: Result<(), GitError>)
    ensures
        r is Ok <==> out.success,
        r matches Err(e) ==> (e matches GitError::CommandFailed { stderr } && stderr@
            == out.stderr@),
{
    if out.success {
        Ok(())
    } else {
        Err(GitError::CommandFailed { stderr: out.stderr.clone() })
    }
}

/// The request that initializes a new repository, in `dir` when given,
/// else in the current directory.
pub fn init(dir: Option<&str>) -> (r: GitRequest)
    ensures
        strs_view(r.args@) == seq!["init"@],
        opt_str_view(r.cwd) == (match dir {
            Some(d) => Some(d@),
            None => None,
        }),
{
    let args: Vec<String> = vec!["init".to_owned()];
    let cwd = match dir {
        Some(d) => Some(d.to_owned()),
        None => None,
    };
    proof {
        assert(strs_view(args@) =~= seq!["init"@]);
    }
    GitRequest { args, cwd }
}

/// The request that resolves `reference` to a commit hash in the
/// current directory.
pub fn get_hash(reference: &str) -> (r: GitRequest)
    ensures
        strs_view(r.args@) == seq!["rev-parse"@, reference@],
        r.cwd is None,
{
    let args: Vec<String> = vec!["rev-parse".to_owned(), reference.to_owned()];
    proof {
        assert(strs_view(args@) =~= seq!["rev-parse"@, reference@]);
    }
    GitRequest { args, cwd: None }
}

/// The resolved hash: the command's output with surrounding whitespace
/// trimmed; the error stream when the reference did not resolve.
pub fn get_hash_output(out: &CmdOutput) -> (r: Result<String, GitError>)
    ensures
        r is Ok <==> out.success,
        r matches Ok(h) ==> h@ == spec_trim(out.stdout@),
        r matches Err(e) ==> (e matches GitError::CommandFailed { stderr } && stderr@
            == out.stderr@),
{
    if out.success {
        Ok(trim(out.stdout.as_str()))
    } else {
        Err(GitError::CommandFailed { stderr: out.stderr.clone() })
    }
}

/// The request that verifies `reference` exists in `repo`: the first
/// half of a checkout.
pub fn checkout_verify(reference: &str, repo: &str) -> (r: GitRequest)
    ensures
        strs_view(r.args@) == seq!["rev-parse"@, "--verify"@, reference@],
        opt_str_view(r.cwd) == Some(repo@),
{
    let args: Vec<String> = vec!["rev-parse".to_owned(), "--verify".to_owned(), reference.to_owned()];
    proof {
        assert(strs_view(args@) =~= seq!["rev-parse"@, "--verify"@, reference@]);
    }
    GitRequest { args, cwd: Some(repo.to_owned()) }
}

/// The second half of a checkout: given what the verification request
/// produced, either the request that moves `repo` to `reference`, or
/// the error that the reference cannot be found there.
pub fn checkout(reference: &str, repo: &str, verify: &CmdOutput) -> (r: Result<
    GitRequest,
    GitError,
>)
    ensures
        r is Ok <==> verify.success,
        r matches Ok(req) ==> strs_view(req.args@) == seq!["checkout"@, reference@]
            && opt_str_view(req.cwd) == Some(repo@),
        r matches Err(e) ==> (e matches GitError::ReferenceNotFound { reference: rf, repo: rp }
            && rf@ == reference@ && rp@ == repo@),
{
    if verify.success {
        let args: Vec<String> = vec!["checkout".to_owned(), reference.to_owned()];
        proof {
            assert(strs_view(args@) =~= seq!["checkout"@, reference@]);
        }
        Ok(GitRequest { args, cwd: Some(repo.to_owned()) })
    } else {
        Err(GitError::ReferenceNotFound { reference: reference.to_owned(), repo: repo.to_owned() })
    }
}

/// How a working copy was brought up to date: freshly cloned, or
/// fast-forwarded in place.
#[derive(Copy, Clone, Debug, PartialEq, Eq, Structural)]
pub enum PullMode {
    Cloned,
    Updated,
}

/// The request that brings a working copy of `source` up to date at
/// `target`: a pull when `target` already is a directory, else a clone.
/// (A caller that clones must create the target directory first.)
pub fn pull(source: &str, target: &str, target_is_dir: bool) -> (r: (PullMode, GitRequest))
    ensures
        target_is_dir ==> r.0 == PullMode::Updated && strs_view(r.1.args@) == seq!["pull"@]
            && opt_str_view(r.1.cwd) == Some(target@),
        !target_is_dir ==> r.0 == PullMode::Cloned && strs_view(r.1.args@) == seq![
            "clone"@,
            source@,
            target@,
        ] && r.1.cwd is None,
{
    if target_is_dir {
        let args: Vec<String> = vec!["pull".to_owned()];
        proof {
            assert(strs_view(args@) =~= seq!["pull"@]);
        }
        (PullMode::Updated, GitRequest { args, cwd: Some(target.to_owned()) })
    } else {
        let args: Vec<String> = vec!["clone".to_owned(), source.to_owned(), target.to_owned()];
        proof {
            assert(strs_view(args@) =~= seq!["clone"@, source@, target@]);
        }
        (PullMode::Cloned, GitRequest { args, cwd: None })
    }
}

/// What a completed pull or clone hands back: the cloned path for a
/// clone, the command's output for a pull; the error stream on failure.
pub fn pull_output(mode: PullMode, target: &str, out: &CmdOutput) -> (r: Result<String, GitError>)
    ensures
        r is Ok <==> out.success,
        (out.success && mode == PullMode::Cloned) ==> (r matches Ok(s) && s@ == target@),
        (out.success && mode == PullMode::Updated) ==> (r matches Ok(s) && s@ == out.stdout@),
        r matches Err(e) ==> (e matches GitError::CommandFailed { stderr } && stderr@
            == out.stderr@),
{
    if out.success {
        match mode {
            PullMode::Cloned => Ok(target.to_owned()),
            PullMode::Updated => Ok(out.stdout.clone()),
        }
    } else {
        Err(GitError::CommandFailed { stderr: out.stderr.clone() })
    }
}

/// The request that stages the given files, run at the repository root.
pub fn add(files: &Vec<String>, root: &str) -> (r: GitRequest)
    ensures
        strs_view(r.args@) == seq!["add"@] + strs_view(files@),
        opt_str_view(r.cwd) == Some(root@),
{
    let mut args: Vec<String> = vec!["add".to_owned()];
    let mut i: usize = 0;
    while i < files.len()
        invariant
            i <= files@.len(),
            strs_view(args@) == seq!["add"@] + strs_view(files@.subrange(0, i as int)),
        decreases files@.len() - i,
    {
        let ghost before = args@;
        args.push(files[i].clone());
        proof {
            assert(strs_view(args@) =~= strs_view(before) + seq![files@[i as int]@]);
            assert(strs_view(args@) =~= seq!["add"@] + strs_view(files@.subrange(0, i as int + 1)));
        }
        i = i + 1;
    }
    proof {
        assert(files@.subrange(0, files@.len() as int) =~= files@);
    }
    GitRequest { args, cwd: Some(root.to_owned()) }
}

/// The request that lists changed files: those added, copied or
/// modified in the index when `in_index` is set, else the untracked,
/// not-ignored files of the working tree. Run at the repository root.
pub fn changed_files(in_index: bool, root: &str) -> (r: GitRequest)
    ensures
        in_index ==> strs_view(r.args@) == seq![
            "diff"@,
            "--name-only"@,
            "--diff-filter=ACM"@,
            "--cached"@,
        ],
        !in_index ==> strs_view(r.args@) == seq!["ls-files"@, "--others"@, "--exclude-standard"@],
        opt_str_view(r.cwd) == Some(root@),
{
    if in_index {
        let args: Vec<String> = vec![
            "diff".to_owned(),
            "--name-only".to_owned(),
            "--diff-filter=ACM".to_owned(),
            "--cached".to_owned(),
        ];
        proof {
            assert(strs_view(args@) =~= seq![
                "diff"@,
                "--name-only"@,
                "--diff-filter=ACM"@,
                "--cached"@,
            ]);
        }
        GitRequest { args, cwd: Some(root.to_owned()) }
    } else {
        let args: Vec<String> = vec![
            "ls-files".to_owned(),
            "--others".to_owned(),
            "--exclude-standard".to_owned(),
        ];
        proof {
            assert(strs_view(args@) =~= seq!["ls-files"@, "--others"@, "--exclude-standard"@]);
        }
        GitRequest { args, cwd: Some(root.to_owned()) }
    }
}

/// The changed-file list: one path per output line; the error stream
/// when the listing failed.
pub fn changed_files_output(out: &CmdOutput) -> (r: Result<Vec<String>, GitError>)
    ensures
        r is Ok <==> out.success,
        r matches Ok(files) ==> strs_view(files@) == spec_split_lines(out.stdout@),
        r matches Err(e) ==> (e matches GitError::CommandFailed { stderr } && stderr@
            == out.stderr@),
{
    if out.success {
        Ok(split_lines(out.stdout.as_str()))
    } else {
        Err(GitError::CommandFailed { stderr: out.stderr.clone() })
    }
}

/// The request that prints the repository's top-level directory; fails
/// when run outside a repository.
pub fn root() -> (r: GitRequest)
    ensures
        strs_view(r.args@) == seq!["rev-parse"@, "--show-toplevel"@],
        r.cwd is None,
{
    let args: Vec<String> = vec!["rev-parse".to_owned(), "--show-toplevel".to_owned()];
    proof {
        assert(strs_view(args@) =~= seq!["rev-parse"@, "--show-toplevel"@]);
    }
    GitRequest { args, cwd: None }
}

/// The repository root: the command's single output line without its
/// trailing newline. Output without one is malformed; a failing command
/// surfaces its error stream.
pub fn root_output(out: &CmdOutput) -> (r: Result<String, GitError>)
    ensures
        r is Ok <==> (out.success && out.stdout@.len() > 0 && out.stdout@[out.stdout@.len() - 1]
            == '\n'),
        r matches Ok(s) ==> s@ == out.stdout@.take(out.stdout@.len() - 1),
        !out.success ==> (r matches Err(e) && e matches GitError::CommandFailed { stderr }
            && stderr@ == out.stderr@),
        (out.success && !(out.stdout@.len() > 0 && out.stdout@[out.stdout@.len() - 1] == '\n'))
            ==> r == Err::<String, GitError>(GitError::MalformedOutput),
{
    if !out.success {
        return Err(GitError::CommandFailed { stderr: out.stderr.clone() });
    }
    let s = out.stdout.as_str();
    let n = s.unicode_len();
    if n > 0 && s.get_char(n - 1) == '\n' {
        Ok(s.substring_char(0, n - 1).to_owned())
    } else {
        Err(GitError::MalformedOutput)
    }
}

/// A line with one trailing carriage return removed.
pub open spec fn spec_strip_cr(l: Seq<char>) -> Seq<char> {
    if l.len() > 0 && l[l.len() - 1] == '\r' {
        l.take(l.len() - 1)
    } else {
        l
    }
}

/// Line splitting, scanning `s` with `cur` holding the line read so
/// far: lines end at a newline (a carriage return just before it is
/// dropped), and a last line without one still counts unless empty.
pub open spec fn spec_lines_acc(s: Seq<char>, cur: Seq<char>) -> Seq<Seq<char>>
    decreases s.len(),
{
    if s.len() == 0 {
        if cur.len() == 0 {
            Seq::empty()
        } else {
            seq![cur]
        }
    } else if s[0] == '\n' {
        seq![spec_strip_cr(cur)] + spec_lines_acc(s.skip(1), Seq::empty())
    } else {
        spec_lines_acc(s.skip(1), cur.push(s[0]))
    }
}

/// The lines of `s`, as the changed-file listing is parsed.
pub open spec fn spec_split_lines(s: Seq<char>) -> Seq<Seq<char>> {
    spec_lines_acc(s, Seq::empty())
}

/// Splits output into lines: a line ends at a newline, a carriage
/// return just before the newline is dropped, and a trailing line
/// without a newline still counts unless it is empty.
pub fn split_lines(s: &str) -> (r: Vec<String>)
    ensures
        strs_view(r@) == spec_split_lines(s@),
{
    let n = s.unicode_len();
    let mut out: Vec<String> = Vec::new();
    let mut start: usize = 0;
    let mut i: usize = 0;
    proof {
        assert(s@.skip(0) =~= s@);
        assert(s@.subrange(0, 0) =~= Seq::<char>::empty());
        assert(strs_view(out@) + spec_lines_acc(s@, Seq::empty()) =~= spec_lines_acc(
            s@,
            Seq::empty(),
        ));
    }
    while i < n
        invariant
            start <= i <= n,
            n == s@.len(),
            spec_split_lines(s@) == strs_view(out@) + spec_lines_acc(
                s@.skip(i as int),
                s@.subrange(start as int, i as int),
            ),
        decreases n - i,
    {
        let ghost cur = s@.subrange(start as int, i as int);
        proof {
            assert(s@.skip(i as int)[0] == s@[i as int]);
            assert(s@.skip(i as int).skip(1) =~= s@.skip(i as int + 1));
        }
        let c = s.get_char(i);
        if c == '\n' {
            let line = if i > start && s.get_char(i - 1) == '\r' {
                s.substring_char(start, i - 1)
            } else {
                s.substring_char(start, i)
            };
            proof {
                if cur.len() > 0 && cur[cur.len() - 1] == '\r' {
                    assert(cur.take(cur.len() - 1) =~= s@.subrange(start as int, i as int - 1));
                }
                assert(line@ == spec_strip_cr(cur));
            }
            let ghost before = out@;
            out.push(line.to_owned());
            proof {
                assert(strs_view(out@) =~= strs_view(before) + seq![spec_strip_cr(cur)]);
                assert(s@.subrange(i as int + 1, i as int + 1) =~= Seq::<char>::empty());
                assert(strs_view(before) + (seq![spec_strip_cr(cur)] + spec_lines_acc(
                    s@.skip(i as int + 1),
                    Seq::empty(),
                )) =~= strs_view(out@) + spec_lines_acc(s@.skip(i as int + 1), Seq::empty()));
            }
            start = i + 1;
        } else {
            proof {
                assert(cur.push(s@[i as int]) =~= s@.subrange(start as int, i as int + 1));
            }
        }
        i = i + 1;
    }
    proof {
        assert(s@.skip(n as int) =~= Seq::<char>::empty());
    }
    if start < n {
        let ghost before = out@;
        let last = s.substring_char(start, n);
        out.push(last.to_owned());
        proof {
            assert(strs_view(out@) =~= strs_view(before) + seq![s@.subrange(start as int, n as int)]);
        }
    } else {
        proof {
            assert(s@.subrange(start as int, n as int).len() == 0);
        }
    }
    proof {
        assert(strs_view(out@) =~= spec_split_lines(s@));
    }
    out
}

} // verus!
