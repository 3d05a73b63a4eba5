//! The version-control requests and how their output is interpreted.

use git_hooks::git::{
    add, changed_files, changed_files_output, checkout, checkout_verify, expect_success, get_hash,
    get_hash_output, init, pull, pull_output, root, root_output, split_lines, CmdOutput, GitError,
    PullMode,
};
use git_hooks::utils::trim;

fn ok_output(stdout: &str) -> CmdOutput {
    CmdOutput {
        success: true,
        code: Some(0),
        stdout: stdout.to_string(),
        stderr: String::new(),
    }
}

fn failed_output(stderr: &str) -> CmdOutput {
    CmdOutput {
        success: false,
        code: Some(1),
        stdout: String::new(),
        stderr: stderr.to_string(),
    }
}

#[test]
fn init_request() {
    let req = init(Some("/tmp/x"));
    assert_eq!(req.args, vec!["init".to_string()]);
    assert_eq!(req.cwd, Some("/tmp/x".to_string()));
    let here = init(None);
    assert_eq!(here.cwd, None);
}

#[test]
fn get_hash_request_and_output() {
    let req = get_hash("HEAD");
    assert_eq!(req.args, vec!["rev-parse".to_string(), "HEAD".to_string()]);
    assert_eq!(req.cwd, None);
    let h = get_hash_output(&ok_output("0e74c2b9c6b1cf4ff36d7eedbee8e8093acacaac\n")).unwrap();
    assert_eq!(h, "0e74c2b9c6b1cf4ff36d7eedbee8e8093acacaac".to_string());
    let e = get_hash_output(&failed_output("unknown revision")).unwrap_err();
    assert!(matches!(e, GitError::CommandFailed { stderr } if stderr == "unknown revision"));
}

#[test]
fn test_checkout() {
    let hash = "99586a59496151167dc730c62d5405d7a6401bf6";
    let verify = checkout_verify(hash, "/tmp/clone");
    assert_eq!(
        verify.args,
        vec![
            "rev-parse".to_string(),
            "--verify".to_string(),
            hash.to_string()
        ]
    );
    assert_eq!(verify.cwd, Some("/tmp/clone".to_string()));
    let req = checkout(hash, "/tmp/clone", &ok_output(&format!("{}\n", hash))).unwrap();
    assert_eq!(req.args, vec!["checkout".to_string(), hash.to_string()]);
    assert_eq!(req.cwd, Some("/tmp/clone".to_string()));
    // After the checkout, resolving HEAD reports the pinned hash.
    let head = get_hash("HEAD");
    assert_eq!(head.args, vec!["rev-parse".to_string(), "HEAD".to_string()]);
    let resolved = get_hash_output(&ok_output(&format!("{}\n", hash))).unwrap();
    assert_eq!(resolved, hash.to_string());
}

#[test]
fn checkout_goes_through_verification() {
    let verify = checkout_verify("v1", "/repo");
    assert_eq!(
        verify.args,
        vec!["rev-parse".to_string(), "--verify".to_string(), "v1".to_string()]
    );
    assert_eq!(verify.cwd, Some("/repo".to_string()));
    let req = checkout("v1", "/repo", &ok_output("abc\n")).unwrap();
    assert_eq!(req.args, vec!["checkout".to_string(), "v1".to_string()]);
    assert_eq!(req.cwd, Some("/repo".to_string()));
    let e = checkout("v1", "/repo", &failed_output("bad ref")).unwrap_err();
    assert!(
        matches!(e, GitError::ReferenceNotFound { reference, repo } if reference == "v1" && repo == "/repo")
    );
}

#[test]
fn pull_clones_when_target_is_missing() {
    let (mode, req) = pull("https://example.invalid/r", "/tmp/t", false);
    assert_eq!(mode, PullMode::Cloned);
    assert_eq!(
        req.args,
        vec![
            "clone".to_string(),
            "https://example.invalid/r".to_string(),
            "/tmp/t".to_string()
        ]
    );
    assert_eq!(req.cwd, None);
    let done = pull_output(mode, "/tmp/t", &ok_output("")).unwrap();
    assert_eq!(done, "/tmp/t".to_string());
}

#[test]
fn pull_updates_in_place_when_target_exists() {
    let (mode, req) = pull("https://example.invalid/r", "/tmp/t", true);
    assert_eq!(mode, PullMode::Updated);
    assert_eq!(req.args, vec!["pull".to_string()]);
    assert_eq!(req.cwd, Some("/tmp/t".to_string()));
    let done = pull_output(mode, "/tmp/t", &ok_output("Already up to date.\n")).unwrap();
    assert_eq!(done, "Already up to date.\n".to_string());
    let e = pull_output(mode, "/tmp/t", &failed_output("no remote")).unwrap_err();
    assert!(matches!(e, GitError::CommandFailed { stderr } if stderr == "no remote"));
}

#[test]
fn add_stages_the_given_files_at_the_root() {
    let req = add(&vec!["a.txt".to_string(), "b.txt".to_string()], "/repo");
    assert_eq!(
        req.args,
        vec!["add".to_string(), "a.txt".to_string(), "b.txt".to_string()]
    );
    assert_eq!(req.cwd, Some("/repo".to_string()));
}

#[test]
fn changed_files_requests_differ_by_mode() {
    let staged = changed_files(true, "/repo");
    assert_eq!(
        staged.args,
        vec![
            "diff".to_string(),
            "--name-only".to_string(),
            "--diff-filter=ACM".to_string(),
            "--cached".to_string()
        ]
    );
    assert_eq!(staged.cwd, Some("/repo".to_string()));
    let untracked = changed_files(false, "/repo");
    assert_eq!(
        untracked.args,
        vec![
            "ls-files".to_string(),
            "--others".to_string(),
            "--exclude-standard".to_string()
        ]
    );
}

#[test]
fn staged_listing_contains_exactly_the_staged_file() {
    // After staging a brand-new file and nothing else, the staged
    // listing holds exactly that file, and the untracked listing no
    // longer holds it: the two listings come from two different
    // commands, whose output is parsed line by line.
    let staged = changed_files_output(&ok_output("tests.txt\n")).unwrap();
    assert_eq!(staged, vec!["tests.txt".to_string()]);
    let untracked = changed_files_output(&ok_output("")).unwrap();
    assert!(untracked.is_empty());
}

#[test]
fn changed_files_output_surfaces_failure() {
    let e = changed_files_output(&failed_output("not a git repository")).unwrap_err();
    assert!(matches!(e, GitError::CommandFailed { stderr } if stderr == "not a git repository"));
}

#[test]
fn root_request_and_output() {
    let req = root();
    assert_eq!(
        req.args,
        vec!["rev-parse".to_string(), "--show-toplevel".to_string()]
    );
    assert_eq!(req.cwd, None);
    let r = root_output(&ok_output("/tmp/my-repo\n")).unwrap();
    assert_eq!(r, "/tmp/my-repo".to_string());
    let e = root_output(&ok_output("/tmp/my-repo")).unwrap_err();
    assert!(matches!(e, GitError::MalformedOutput));
    let e = root_output(&failed_output("not a git repository")).unwrap_err();
    assert!(matches!(e, GitError::CommandFailed { stderr } if stderr == "not a git repository"));
}

#[test]
fn expect_success_mirrors_the_exit() {
    assert!(expect_success(&ok_output("")).is_ok());
    let e = expect_success(&failed_output("boom")).unwrap_err();
    assert!(matches!(e, GitError::CommandFailed { stderr } if stderr == "boom"));
}

#[test]
fn split_lines_edges() {
    assert_eq!(split_lines(""), Vec::<String>::new());
    assert_eq!(split_lines("a"), vec!["a".to_string()]);
    assert_eq!(split_lines("a\n"), vec!["a".to_string()]);
    assert_eq!(
        split_lines("a\nb\n"),
        vec!["a".to_string(), "b".to_string()]
    );
    assert_eq!(
        split_lines("a\r\nb"),
        vec!["a".to_string(), "b".to_string()]
    );
    assert_eq!(
        split_lines("a\n\nb"),
        vec!["a".to_string(), String::new(), "b".to_string()]
    );
    assert_eq!(split_lines("\n"), vec![String::new()]);
}

#[test]
fn trim_edges() {
    assert_eq!(trim("  abc \n"), "abc".to_string());
    assert_eq!(trim("abc"), "abc".to_string());
    assert_eq!(trim(" \t\r\n "), String::new());
    assert_eq!(trim(""), String::new());
    assert_eq!(trim("a b"), "a b".to_string());
}
