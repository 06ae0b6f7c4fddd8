use gwt::commands::clone_repository;
use gwt::error::GwtError;
use gwt::git::{Git, GitCloneArgs, Output, RunOutcome};

fn strings(v: &[&str]) -> Vec<String> {
    v.iter().map(|s| s.to_string()).collect()
}

fn ok(out: &str) -> RunOutcome {
    RunOutcome::Exited { success: true, output: Output { stdout: out.as_bytes().to_vec(), stderr: vec![] } }
}

fn failed() -> RunOutcome {
    RunOutcome::Exited { success: false, output: Output { stdout: b"partial".to_vec(), stderr: b"fatal".to_vec() } }
}

#[test]
fn git_executable_defaults_to_git() {
    assert_eq!(Git::new(None).executable_path(), "git");
    assert_eq!(Git::new(Some("/opt/git".to_string())).executable_path(), "/opt/git");
}

#[test]
fn git_command_lines() {
    let git = Git::new(Some("mygit".to_string()));
    let c = git.tracked_branches_command();
    assert_eq!(c.program, "mygit");
    assert_eq!(c.args, strings(&["config", "get", "--all", "--show-names", "--regexp", "^branch.*merge$"]));
    assert_eq!(git.list_worktrees_command().args, strings(&["worktree", "list", "--porcelain"]));
    assert_eq!(git.remove_section_command("branch.x").args, strings(&["config", "remove-section", "branch.x"]));
    assert_eq!(git.show_toplevel_command().args, strings(&["rev-parse", "--show-toplevel"]));
    assert_eq!(
        git.worktree_root_command().args,
        strings(&["rev-parse", "--path-format=absolute", "--git-common-dir"])
    );
    let add = git.add_worktree_command("nb", &b"/ws/x".to_vec(), Some("abc")).unwrap();
    assert_eq!(add.args, strings(&["worktree", "add", "-b", "nb", "/ws/x", "abc"]));
    let add = git.add_worktree_command("nb", &b"rel".to_vec(), None).unwrap();
    assert_eq!(add.args, strings(&["worktree", "add", "-b", "nb", "rel"]));
    let bad = git.add_worktree_command("nb", &vec![0xff, 0x41], None).unwrap_err();
    assert!(matches!(bad, GwtError::InvalidUtf8(ref d) if d == &vec![0xff, 0x41]));
    assert_eq!(bad.message(), "Invalid UTF-8: '\u{fffd}A'");
}

#[test]
fn run_results() {
    let git = Git::new(None);
    assert_eq!(git.run_result(ok("x")).unwrap().stdout, b"x".to_vec());
    let both = RunOutcome::Exited { success: true, output: Output { stdout: b"o".to_vec(), stderr: b"warning".to_vec() } };
    let out = git.run_result(both).unwrap();
    assert_eq!(out.stdout, b"o".to_vec());
    assert_eq!(out.stderr, b"warning".to_vec());
    let e = git.run_result(failed()).unwrap_err();
    assert_eq!(e.message(), "Git operation failed");
    let e = git.run_result(RunOutcome::NotStarted("No such file or directory (os error 2)".to_string())).unwrap_err();
    assert_eq!(e.message(), "Git error: No such file or directory (os error 2)");
    assert!(git.clone(ok("")).is_ok());
    assert!(git.remove_section(failed()).is_err());
    assert!(git.add_worktree(ok("")).is_ok());
}

#[test]
fn toplevel_and_root_from_output() {
    let git = Git::new(None);
    assert_eq!(git.show_toplevel(ok("/ws/main\n")).unwrap(), b"/ws/main".to_vec());
    assert!(git.show_toplevel(failed()).is_err());
    assert_eq!(git.get_worktree_root(ok("/tmp/x/test-repo.git\n")).unwrap(), b"/tmp/x".to_vec());
    assert_eq!(git.get_worktree_root(ok("/ws/.bare/\n")).unwrap(), b"/ws".to_vec());
    assert_eq!(git.get_worktree_root(ok("/repo\n")).unwrap(), b"/".to_vec());
    assert!(matches!(git.get_worktree_root(ok("/\n")), Err(GwtError::NoWorktreeRoot)));
}

#[test]
fn tracked_branches_and_worktrees_from_output() {
    let git = Git::new(None);
    let mut b = git.get_tracked_branches(ok("branch.main.merge refs/heads/main\nbranch.feature.merge refs/heads/feature\n")).unwrap();
    b.sort();
    assert_eq!(b, strings(&["feature", "main"]));
    assert!(matches!(git.get_tracked_branches(failed()), Err(GwtError::GitFailed)));
    let ws = git.list_worktrees(ok("worktree /a\nbranch refs/heads/x\n")).unwrap();
    assert_eq!(ws.branches(), strings(&["x"]));
    assert!(matches!(git.list_worktrees(ok("garbage")), Err(GwtError::ParseWorktree)));
    // invalid UTF-8 in output is read lossily
    let out = RunOutcome::Exited {
        success: true,
        output: Output { stdout: b"branch.a\xffb.merge x\n".to_vec(), stderr: vec![] },
    };
    assert_eq!(git.get_tracked_branches(out).unwrap(), vec!["a\u{fffd}b".to_string()]);
}

#[test]
fn clone_args_for_workspace() {
    let a = clone_repository("file:///r/test-repo.git", &b"/tmp/ws".to_vec());
    assert_eq!(a.dir, b"/tmp/ws/.bare".to_vec());
    assert_eq!(
        a.to_args().unwrap(),
        strings(&[
            "clone",
            "--bare",
            "--config",
            "remote.origin.fetch=+refs/heads/*:refs/remotes/origin/*",
            "--",
            "file:///r/test-repo.git",
            "/tmp/ws/.bare"
        ])
    );
    let git = Git::new(None);
    assert_eq!(git.clone_command(&a).unwrap().args.len(), 7);
}

#[test]
fn clone_args_plain_and_invalid() {
    let a = GitCloneArgs { url: "u".to_string(), dir: b"d".to_vec(), bare: false, config: vec![] };
    assert_eq!(a.to_args().unwrap(), strings(&["clone", "--", "u", "d"]));
    let two = GitCloneArgs {
        url: "u".to_string(),
        dir: b"d".to_vec(),
        bare: true,
        config: vec![("a".to_string(), "1".to_string()), ("b".to_string(), "2".to_string())],
    };
    assert_eq!(two.to_args().unwrap(), strings(&["clone", "--bare", "--config", "a=1", "--config", "b=2", "--", "u", "d"]));
    let bad = GitCloneArgs { url: "u".to_string(), dir: vec![b'/', 0xc3], bare: true, config: vec![] };
    assert!(matches!(bad.to_args(), Err(GwtError::InvalidUtf8(_))));
}

#[test]
fn clone_url_and_dir_stay_after_separator() {
    let cfg = vec![("remote.origin.fetch".to_string(), "+refs/heads/*:refs/remotes/origin/*".to_string())];
    let a = GitCloneArgs { url: "file:///r.git".to_string(), dir: b"/w/.bare".to_vec(), bare: true, config: cfg.clone() };
    let b = GitCloneArgs { url: "--upload-pack=evil".to_string(), dir: b"-x".to_vec(), bare: true, config: cfg };
    let v = a.to_args().unwrap();
    let w = b.to_args().unwrap();
    assert_eq!(v.len(), w.len());
    let n = v.len();
    assert_eq!(v[..n - 2], w[..n - 2]);
    assert_eq!(v[n - 3], "--");
    assert_eq!(w[n - 2..], strings(&["--upload-pack=evil", "-x"])[..]);
}
