use gwt::cli::{AddArgs, Commands, InitArgs};
use gwt::error::GwtError;
use gwt::flow::{add, init, purge, start, Event, Next, Step, Workflow};
use gwt::git::{Git, Output, RunOutcome};
use gwt::logger::Level;

fn strings(v: &[&str]) -> Vec<String> {
    v.iter().map(|s| s.to_string()).collect()
}

fn ok(out: &str) -> Event {
    Event::Ran(RunOutcome::Exited { success: true, output: Output { stdout: out.as_bytes().to_vec(), stderr: vec![] } })
}

fn failed() -> Event {
    failed_with("fatal: not a git repository")
}

fn failed_with(stderr: &str) -> Event {
    Event::Ran(RunOutcome::Exited { success: false, output: Output { stdout: vec![], stderr: stderr.as_bytes().to_vec() } })
}

fn run_args(step: &Step) -> Vec<String> {
    match &step.next {
        Next::Run(c) => c.args.clone(),
        other => panic!("expected a command, got {:?}", other),
    }
}

fn finish(step: Step) -> Result<(), GwtError> {
    match step.next {
        Next::Finish(r) => r,
        other => panic!("expected the end, got {:?}", other),
    }
}

#[test]
fn add_in_a_worktree() {
    let (f, s) = add(Git::new(None), "nb".to_string(), None, b"new-worktree".to_vec());
    assert_eq!(run_args(&s), strings(&["rev-parse", "--show-toplevel"]));
    assert!(f.accepts(&ok("")));
    assert!(!f.accepts(&Event::Exists(true)));
    let (f, s) = f.resume(ok("/ws/main\n"));
    assert_eq!(run_args(&s), strings(&["worktree", "add", "-b", "nb", "/ws/main/new-worktree"]));
    let (f, s) = f.resume(ok(""));
    assert_eq!(s.logs.len(), 1);
    assert_eq!(s.logs[0].level, Level::Info);
    assert_eq!(s.logs[0].message, "Added worktree at /ws/main/new-worktree. Checked out nb at HEAD");
    assert!(finish(s).is_ok());
    assert!(!f.accepts(&ok("")));
}

#[test]
fn add_in_a_bare_repository_uses_its_parent() {
    let (f, _) = add(Git::new(None), "new-branch".to_string(), Some("abc123".to_string()), b"feat".to_vec());
    let (f, s) = f.resume(failed());
    assert_eq!(run_args(&s), strings(&["rev-parse", "--path-format=absolute", "--git-common-dir"]));
    let (f, s) = f.resume(ok("/tmp/x/test-repo.git\n"));
    assert_eq!(run_args(&s), strings(&["worktree", "add", "-b", "new-branch", "/tmp/x/feat", "abc123"]));
    let (_, s) = f.resume(ok(""));
    assert_eq!(s.logs[0].message, "Added worktree at /tmp/x/feat. Checked out new-branch at abc123");
}

#[test]
fn add_with_absolute_path() {
    let (f, _) = add(Git::new(None), "b".to_string(), None, b"/elsewhere/wt".to_vec());
    let (_, s) = f.resume(ok("/ws/main\n"));
    assert_eq!(run_args(&s), strings(&["worktree", "add", "-b", "b", "/elsewhere/wt"]));
}

#[test]
fn add_fails_outside_repo() {
    let (f, _) = add(Git::new(None), "some-branch".to_string(), None, b"some-path".to_vec());
    let (f, _) = f.resume(failed());
    let (_, s) = f.resume(failed());
    let err = finish(s).unwrap_err();
    assert_eq!(err.message(), "Git operation failed");
}

#[test]
fn add_reports_a_failed_worktree_add() {
    let (f, _) = add(Git::new(None), "b".to_string(), None, b"p".to_vec());
    let (f, _) = f.resume(ok("/ws\n"));
    let (_, s) = f.resume(Event::Ran(RunOutcome::NotStarted("boom".to_string())));
    assert!(s.logs.is_empty());
    assert_eq!(finish(s).unwrap_err().message(), "Git error: boom");
}

#[test]
fn start_picks_the_default_paths() {
    for (cmd, expected) in [
        (Commands::AddFeat(AddArgs { branch: "b".to_string(), commit: None }), "feat"),
        (Commands::AddFix(AddArgs { branch: "b".to_string(), commit: None }), "fix"),
        (Commands::AddPr(AddArgs { branch: "b".to_string(), commit: None }), "pr"),
        (Commands::Add { path: b"new-worktree".to_vec(), args: AddArgs { branch: "b".to_string(), commit: None } }, "new-worktree"),
    ] {
        let (w, s) = start(cmd, Git::new(None));
        assert_eq!(run_args(&s), strings(&["rev-parse", "--show-toplevel"]));
        let (_, s) = w.resume(ok("/repo\n"));
        assert_eq!(run_args(&s), strings(&["worktree", "add", "-b", "b", &format!("/repo/{expected}")]));
    }
    let (w, s) = start(Commands::Purge, Git::new(None));
    assert!(matches!(w, Workflow::Purge(_)));
    assert_eq!(run_args(&s)[0], "config");
}

#[test]
fn init_creates_workspace_with_correct_name() {
    let url = "file:///tmp/r/test-repo.git".to_string();
    let (f, s) = init(Git::new(None), url.clone(), None);
    assert!(matches!(s.next, Next::CurrentDir));
    let (f, s) = f.resume(Event::CurrentDir(Ok(b"/tmp/r".to_vec())));
    assert!(matches!(s.next, Next::PathExists(ref p) if p == b"/tmp/r/test-repo-workspace"));
    let (f, s) = f.resume(Event::Exists(false));
    assert!(matches!(s.next, Next::CreateDirAll(ref p) if p == b"/tmp/r/test-repo-workspace"));
    let (f, s) = f.resume(Event::Created(Ok(())));
    assert_eq!(s.logs[0].message, "Created '/tmp/r/test-repo-workspace'");
    assert_eq!(
        run_args(&s),
        strings(&[
            "clone",
            "--bare",
            "--config",
            "remote.origin.fetch=+refs/heads/*:refs/remotes/origin/*",
            "--",
            "file:///tmp/r/test-repo.git",
            "/tmp/r/test-repo-workspace/.bare"
        ])
    );
    let (_, s) = f.resume(ok(""));
    assert_eq!(s.logs[0].message, "Initialized '/tmp/r/test-repo-workspace/.bare'");
    assert!(finish(s).is_ok());
}

#[test]
fn init_creates_workspace_with_custom_name() {
    let (w, _) = start(
        Commands::Init(InitArgs { url: "file:///r/test-repo.git".to_string(), name: Some("my-custom-workspace".to_string()) }),
        Git::new(None),
    );
    let (_, s) = w.resume(Event::CurrentDir(Ok(b"/home".to_vec())));
    assert!(matches!(s.next, Next::PathExists(ref p) if p == b"/home/my-custom-workspace"));
}

#[test]
fn init_failures() {
    let (_, s) = init(Git::new(None), "not-a-url".to_string(), None);
    assert_eq!(finish(s).unwrap_err().message(), "Invalid repo URL");
    let (f, _) = init(Git::new(None), "x/r.git".to_string(), None);
    let (f, _) = f.resume(Event::CurrentDir(Ok(b"/w".to_vec())));
    let (_, s) = f.resume(Event::Exists(true));
    assert_eq!(finish(s).unwrap_err().message(), "Directory '/w/r-workspace' already exists");
    let (f, _) = init(Git::new(None), "x/r.git".to_string(), None);
    let (_, s) = f.resume(Event::CurrentDir(Err("denied".to_string())));
    assert_eq!(finish(s).unwrap_err().message(), "denied");
    let (f, _) = init(Git::new(None), "x/r.git".to_string(), None);
    let (f, _) = f.resume(Event::CurrentDir(Ok(b"/w".to_vec())));
    let (f, _) = f.resume(Event::Exists(false));
    assert!(!f.accepts(&ok("")));
    let (f, s) = f.resume(Event::Created(Ok(())));
    assert_eq!(s.logs.len(), 1);
    let (_, s) = f.resume(failed());
    assert_eq!(s.logs.len(), 1);
    assert_eq!(s.logs[0].level, Level::Debug);
    assert_eq!(finish(s).unwrap_err().message(), "Git operation failed");
}

#[test]
fn purge_removes_orphaned_branch_config() {
    let (f, s) = purge(Git::new(None));
    assert_eq!(run_args(&s), strings(&["config", "get", "--all", "--show-names", "--regexp", "^branch.*merge$"]));
    let (f, s) = f.resume(ok("branch.main.merge refs/heads/main\nbranch.feature.merge refs/heads/feature\n"));
    assert_eq!(run_args(&s), strings(&["worktree", "list", "--porcelain"]));
    let (mut f, mut s) = f.resume(ok("worktree /tmp/test-repo.git\nbare\n\n"));
    let mut removed = vec![];
    loop {
        match s.next {
            Next::Run(c) => {
                assert_eq!(c.args[..2], strings(&["config", "remove-section"])[..]);
                removed.push(c.args[2].clone());
                let (g, t) = f.resume(ok(""));
                f = g;
                s = t;
                assert_eq!(s.logs[0].level, Level::Info);
                assert!(s.logs[0].message.starts_with("Removed config section: 'branch."));
            }
            Next::Finish(r) => {
                assert!(r.is_ok());
                break;
            }
            other => panic!("unexpected {:?}", other),
        }
    }
    removed.sort();
    assert_eq!(removed, strings(&["branch.feature", "branch.main"]));
}

#[test]
fn purge_keeps_checked_out_branches_and_goes_on_after_failures() {
    let (f, _) = purge(Git::new(None));
    let (f, _) = f.resume(ok("branch.main.merge x\nbranch.old.merge y\nbranch.gone.merge z\n"));
    let (f, s) = f.resume(ok("worktree /ws/main\nHEAD 1\nbranch refs/heads/main\n"));
    assert_eq!(run_args(&s), strings(&["config", "remove-section", "branch.old"]));
    let (f, s) = f.resume(failed());
    assert_eq!(s.logs[0].level, Level::Debug);
    assert_eq!(s.logs[1].level, Level::Warn);
    assert_eq!(s.logs[1].message, "Failed to remove config section 'branch.old': Git operation failed");
    assert_eq!(run_args(&s), strings(&["config", "remove-section", "branch.gone"]));
    let (_, s) = f.resume(ok(""));
    assert_eq!(s.logs[0].message, "Removed config section: 'branch.gone'");
    assert!(finish(s).is_ok());
}

#[test]
fn purge_without_tracked_branches_fails_like_git() {
    let (f, _) = purge(Git::new(None));
    let (_, s) = f.resume(failed());
    assert_eq!(finish(s).unwrap_err().message(), "Git operation failed");
}

#[test]
fn purge_with_nothing_stale_finishes() {
    let (f, _) = purge(Git::new(None));
    let (f, _) = f.resume(ok("branch.main.merge x\n"));
    let (_, s) = f.resume(ok("worktree /ws/main\nbranch refs/heads/main\n"));
    assert!(s.logs.is_empty());
    assert!(finish(s).is_ok());
}

#[test]
fn purge_clears_dotted_branch_names() {
    let (f, _) = purge(Git::new(None));
    let (f, _) = f.resume(ok("branch.v1.2.merge refs/heads/v1.2\nbranch.main.merge refs/heads/main\n"));
    let (f, s) = f.resume(ok("worktree /ws/main\nbranch refs/heads/main\n"));
    assert_eq!(run_args(&s), strings(&["config", "remove-section", "branch.v1.2"]));
    let (_, s) = f.resume(ok(""));
    assert_eq!(s.logs[0].message, "Removed config section: 'branch.v1.2'");
    assert!(finish(s).is_ok());
}

#[test]
fn failed_runs_log_stderr_at_debug() {
    let (f, _) = add(Git::new(None), "b".to_string(), None, b"p".to_vec());
    let (f, s) = f.resume(failed_with("fatal: this operation must be run in a work tree"));
    assert_eq!(s.logs.len(), 1);
    assert_eq!(s.logs[0].level, Level::Debug);
    assert_eq!(s.logs[0].message, "Git error: fatal: this operation must be run in a work tree");
    let (_, s) = f.resume(failed_with("fatal: not a git repository"));
    assert_eq!(s.logs[0].message, "Git error: fatal: not a git repository");
    assert_eq!(finish(s).unwrap_err().message(), "Git operation failed");

    let (f, _) = purge(Git::new(None));
    let (f, _) = f.resume(ok("branch.old.merge x\n"));
    let (f, _) = f.resume(ok("worktree /ws/.bare\nbare\n"));
    let (_, s) = f.resume(failed_with("no such section"));
    assert_eq!(s.logs.len(), 2);
    assert_eq!((s.logs[0].level, s.logs[0].message.as_str()), (Level::Debug, "Git error: no such section"));
    assert_eq!(s.logs[1].level, Level::Warn);

    let (f, _) = purge(Git::new(None));
    let (_, s) = f.resume(Event::Ran(RunOutcome::NotStarted("gone".to_string())));
    assert!(s.logs.is_empty());
    assert_eq!(finish(s).unwrap_err().message(), "Git error: gone");
}

#[test]
fn purge_tries_other_branch_settings_and_warns() {
    let (f, _) = purge(Git::new(None));
    let (f, _) = f.resume(ok("branch.autosetupmerge always\n"));
    let (f, s) = f.resume(ok("worktree /ws/.bare\nbare\n"));
    assert_eq!(run_args(&s), strings(&["config", "remove-section", "branch.autosetupmerge always"]));
    let (_, s) = f.resume(failed_with("fatal: no such section"));
    assert_eq!(s.logs[1].level, Level::Warn);
    assert!(finish(s).is_ok());
}
