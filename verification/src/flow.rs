//! The commands as state machines. Each step names the next outside action
//! (run git, look at the file system, or finish) together with the lines to
//! log; the caller performs the action and resumes the machine with what
//! came of it.
use vstd::prelude::*;
use vstd::string::*;
use vstd::utf8::{decode_utf8, encode_utf8, valid_utf8};

use crate::cli::{AddArgs, Commands};
use crate::commands::{
    clone_repository, stale_section_names, stale_sections, workspace_name, workspace_name_of,
};
use crate::error::{message_of, GwtError};
use crate::git::{
    add_worktree_args, arg_views, list_worktrees_args, outcome_error,
    outcome_stdout, remove_section_args, show_toplevel_args, tracked_branch_set,
    tracked_branches_args, worktree_root_args, Command, Git, RunOutcome,
};
use crate::logger::{Level, LogLine};
use crate::path::{
    is_absolute, join, join_path, lossy_string, SLASH, lossy_utf8, parent, path_is_absolute, slice_bytes,
    strip_newline,
};
use crate::text::string_views;
use crate::worktree::{branch_set, opt_view, parse_worktrees};

verus! {

/// The next outside action.
#[derive(Debug)]
pub enum Next {
    /// Run this command.
    Run(Command),
    /// Find the current directory.
    CurrentDir,
    /// Find whether this path exists.
    PathExists(Vec<u8>),
    /// Create this directory and its missing parents.
    CreateDirAll(Vec<u8>),
    /// The command is over, with this result.
    Finish(Result<(), GwtError>),
}

/// One step of a command: lines to log, then the next action.
#[derive(Debug)]
pub struct Step {
    pub logs: Vec<LogLine>,
    pub next: Next,
}

/// What came of an action.
#[derive(Debug)]
pub enum Event {
    /// What came of running a command.
    Ran(RunOutcome),
    /// The current directory, or why it is not known.
    CurrentDir(Result<Vec<u8>, String>),
    /// Whether the path exists.
    Exists(bool),
    /// Whether the directory was created, or why not.
    Created(Result<(), String>),
}

/// The step logs nothing.
pub open spec fn quiet(step: Step) -> bool {
    log_views(step.logs@) == Seq::<(Level, Seq<char>)>::empty()
}

/// The step runs git with `args`.
pub open spec fn runs(step: Step, git: Git, args: Seq<Seq<char>>) -> bool {
    step.next matches Next::Run(c) && c.program@ == git@ && arg_views(c) == args
}

/// The step logs one line, of `level`, with `message`.
pub open spec fn logs_one(step: Step, level: Level, message: Seq<char>) -> bool {
    log_views(step.logs@) == seq![(level, message)]
}

/// The level and text of each line.
pub open spec fn log_views(v: Seq<LogLine>) -> Seq<(Level, Seq<char>)> {
    v.map_values(|l: LogLine| (l.level, l.message@))
}

/// The step logs exactly `expected`.
pub open spec fn logs_are(step: Step, expected: Seq<(Level, Seq<char>)>) -> bool {
    log_views(step.logs@) == expected
}

/// What a run logs: after a run that ended in failure, a debug line with
/// what git wrote to stderr; nothing otherwise.
pub open spec fn run_log(o: RunOutcome) -> Seq<(Level, Seq<char>)> {
    match o {
        RunOutcome::Exited { success, output } => if success {
            seq![]
        } else {
            seq![(Level::Debug, "Git error: "@ + lossy_utf8(output.stderr@))]
        },
        RunOutcome::NotStarted(_) => seq![],
    }
}

/// The lines that a run logs.
fn run_logs(o: &RunOutcome) -> (res: Vec<LogLine>)
    ensures
        log_views(res@) == run_log(*o),
{
    match o {
        RunOutcome::Exited { success, output } => if *success {
            let v = no_logs();
            assert(log_views(v@) =~= seq![]);
            v
        } else {
            let shown = lossy_string(output.stderr.as_slice());
            let v = one_log(Level::Debug, String::from_str("Git error: ").concat(shown.as_str()));
            assert(log_views(v@) =~= run_log(*o));
            v
        },
        RunOutcome::NotStarted(_) => {
            let v = no_logs();
            assert(log_views(v@) =~= seq![]);
            v
        },
    }
}

/// No lines to log.
fn no_logs() -> (res: Vec<LogLine>)
    ensures
        res@.len() == 0,
        log_views(res@) == Seq::<(Level, Seq<char>)>::empty(),
{
    let v = Vec::new();
    assert(log_views(v@) =~= Seq::<(Level, Seq<char>)>::empty());
    v
}

/// One line to log.
fn one_log(level: Level, message: String) -> (res: Vec<LogLine>)
    ensures
        res@.len() == 1,
        res@[0].level == level,
        res@[0].message == message,
        log_views(res@) == seq![(level, message@)],
{
    let mut v = Vec::new();
    v.push(LogLine { level, message });
    assert(log_views(v@) =~= seq![(level, v@[0].message@)]);
    v
}

// ---------------------------------------------------------------------------
// add
/// Where an `add` is.
pub enum AddStage {
    /// Waiting for the top of the current worktree.
    Toplevel,
    /// Waiting for the directory that holds the shared repository.
    WorktreeRoot,
    /// Waiting for the new worktree at `target`.
    Adding { target: Vec<u8> },
    /// Over.
    Done,
}

/// Adding a worktree: a new branch checked out at a path.
pub struct AddFlow {
    pub git: Git,
    pub branch: String,
    pub commit: Option<String>,
    pub path: Vec<u8>,
    pub stage: AddStage,
}

/// The line that reports an added worktree.
pub open spec fn added_message(target: Seq<u8>, branch: Seq<char>, commit: Option<Seq<char>>) -> Seq<
    char,
> {
    "Added worktree at "@ + lossy_utf8(target) + ". Checked out "@ + branch + " at "@
        + match commit {
        Some(c) => c,
        None => "HEAD"@,
    }
}

/// The path of the new worktree: `path` itself where it is absolute, else
/// `path` under `root`.
pub open spec fn worktree_target(root: Seq<u8>, path: Seq<u8>) -> Seq<u8> {
    join(root, path)
}

/// The new worktree is at `path` itself where that starts at the root
/// `/`; otherwise it is exactly `root`, one `/` (unless `root` is empty or
/// ends in one already), then `path`: nothing is added or taken away.
pub proof fn worktree_target_law(root: Seq<u8>, path: Seq<u8>)
    ensures
        path.len() > 0 && path[0] == SLASH ==> worktree_target(root, path) == path,
        !(path.len() > 0 && path[0] == SLASH) && root.len() > 0 && root.last() != SLASH
            ==> worktree_target(root, path) == root + seq![SLASH] + path,
        !(path.len() > 0 && path[0] == SLASH) && (root.len() == 0 || root.last() == SLASH)
            ==> worktree_target(root, path) == root + path,
        !(path.len() > 0 && path[0] == SLASH) ==> worktree_target(root, path).take(
            root.len() as int,
        ) == root && worktree_target(root, path).skip(
            worktree_target(root, path).len() - path.len(),
        ) == path,
{
    let t = worktree_target(root, path);
    if !(path.len() > 0 && path[0] == SLASH) {
        assert(t.take(root.len() as int) =~= root);
        assert(t.skip(t.len() - path.len()) =~= path);
    }
}

/// The line that reports an added worktree.
fn added_message_of(target: &Vec<u8>, branch: &String, commit: &Option<String>) -> (res: String)
    ensures
        res@ == added_message(target@, branch@, opt_view(*commit)),
{
    let at = match commit {
        Some(c) => c.clone(),
        None => String::from_str("HEAD"),
    };
    let shown = lossy_string(target.as_slice());
    String::from_str("Added worktree at ").concat(shown.as_str()).concat(". Checked out ").concat(
        branch.as_str(),
    ).concat(" at ").concat(at.as_str())
}

/// The path of the new worktree.
fn target_path(root: &Vec<u8>, path: &Vec<u8>) -> (res: Vec<u8>)
    ensures
        res@ == worktree_target(root@, path@),
{
    if !path_is_absolute(path) {
        join_path(root, path)
    } else {
        slice_bytes(path, 0, path.len())
    }
}

/// How an `add` starts: it asks for the top of the current worktree.
pub open spec fn add_started(
    f: AddFlow,
    step: Step,
    git: Git,
    branch: String,
    commit: Option<String>,
    path: Seq<u8>,
) -> bool {
    &&& f.git == git
    &&& f.branch == branch
    &&& f.commit == commit
    &&& f.path@ == path
    &&& f.stage is Toplevel
    &&& quiet(step)
    &&& runs(step, git, show_toplevel_args())
}

/// Starts adding a worktree for a new branch `branch` at `path` (under the
/// worktree root where relative), checked out at `commit`, else at `HEAD`:
/// first asks git for the top of the current worktree.
pub fn add(git: Git, branch: String, commit: Option<String>, path: Vec<u8>) -> (res: (AddFlow, Step))
    ensures
        add_started(res.0, res.1, git, branch, commit, path@),
{
    let c = git.show_toplevel_command();
    (AddFlow { git, branch, commit, path, stage: AddStage::Toplevel }, Step { logs: no_logs(), next: Next::Run(c) })
}

impl AddFlow {
    /// The flow is waiting for `e`: the outcome of its command, unless it is over.
    pub open spec fn awaits(&self, e: &Event) -> bool {
        !(self.stage is Done) && e is Ran
    }

    /// Whether the flow is waiting for `e`.
    pub fn accepts(&self, e: &Event) -> (res: bool)
        ensures
            res == self.awaits(e),
    {
        match (&self.stage, e) {
            (AddStage::Done, _) => false,
            (_, Event::Ran(_)) => true,
            _ => false,
        }
    }

    /// The step once the root is known: add the worktree at the target
    /// path, or fail where that path is not valid UTF-8.
    pub open spec fn adding_step(self, root: Seq<u8>, next: AddFlow, step: Step) -> bool {
        let target = worktree_target(root, self.path@);
        if valid_utf8(target) {
            &&& next.stage matches AddStage::Adding { target: t } && t@ == target
            &&& quiet(step)
            &&& runs(
                step,
                self.git,
                add_worktree_args(self.branch@, decode_utf8(target), opt_view(self.commit)),
            )
        } else {
            &&& next.stage is Done
            &&& quiet(step)
            &&& step.next matches Next::Finish(Err(GwtError::InvalidUtf8(d))) && d@ == target
        }
    }

    /// The request (git, branch, commit, path) stays as it was.
    pub open spec fn same_request(self, other: AddFlow) -> bool {
        other.git == self.git && other.branch == self.branch && other.commit == self.commit
            && other.path == self.path
    }

    /// Once the root is known: the target path, and the command that adds
    /// the worktree there (or the failure where the path is not UTF-8).
    fn enter_adding(
        git: Git,
        branch: String,
        commit: Option<String>,
        path: Vec<u8>,
        root: Vec<u8>,
    ) -> (res: (AddFlow, Step))
        ensures
            (AddFlow { git, branch, commit, path, stage: AddStage::Done }).adding_step(
                root@,
                res.0,
                res.1,
            ),
            res.0.git == git && res.0.branch == branch && res.0.commit == commit && res.0.path
                == path,
    {
        let target = target_path(&root, &path);
        let c = match &commit {
            Some(x) => git.add_worktree_command(branch.as_str(), &target, Some(x.as_str())),
            None => git.add_worktree_command(branch.as_str(), &target, None),
        };
        match c {
            Ok(c) => (
                AddFlow { git, branch, commit, path, stage: AddStage::Adding { target } },
                Step { logs: no_logs(), next: Next::Run(c) },
            ),
            Err(e) => (
                AddFlow { git, branch, commit, path, stage: AddStage::Done },
                Step { logs: no_logs(), next: Next::Finish(Err(e)) },
            ),
        }
    }

    /// The step that the flow takes on `event`: see `resume`.
    pub open spec fn follows(self, event: Event, next: AddFlow, step: Step) -> bool {
        &&& (self.same_request(next))
        &&& (event matches Event::Ran(o) ==> match self.stage {
            AddStage::Toplevel => match outcome_stdout(o) {
                Some(out) => self.adding_step(strip_newline(out), next, step),
                None => next.stage is WorktreeRoot && logs_are(step, run_log(o)) && runs(
                    step,
                    self.git,
                    worktree_root_args(),
                ),
            },
            AddStage::WorktreeRoot => match outcome_stdout(o) {
                Some(out) => match parent(strip_newline(out)) {
                    Some(root) => self.adding_step(root, next, step),
                    None => next.stage is Done && quiet(step) && (step.next matches Next::Finish(
                        Err(GwtError::NoWorktreeRoot),
                    )),
                },
                None => next.stage is Done && logs_are(step, run_log(o)) && step.next == Next::Finish(
                    Err(outcome_error(o)),
                ),
            },
            AddStage::Adding { target } => match outcome_stdout(o) {
                Some(_) => next.stage is Done && logs_one(
                    step,
                    Level::Info,
                    added_message(target@, self.branch@, opt_view(self.commit)),
                ) && step.next == Next::Finish(Ok(())),
                None => next.stage is Done && logs_are(step, run_log(o)) && step.next == Next::Finish(
                    Err(outcome_error(o)),
                ),
            },
            AddStage::Done => false,
        })
    }

    /// Goes on with what came of the last command. Where the top of the
    /// current worktree is not known, the directory that holds the shared
    /// repository serves as root; once the worktree is added, reports it.
    pub fn resume(self, event: Event) -> (res: (AddFlow, Step))
        requires
            self.awaits(&event),
        ensures
            self.follows(event, res.0, res.1),
    {
        let outcome = match event {
            Event::Ran(o) => o,
            _ => {
                return (self, Step { logs: no_logs(), next: Next::CurrentDir });
            },
        };
        let logs = run_logs(&outcome);
        let AddFlow { git, branch, commit, path, stage } = self;
        match stage {
            AddStage::Toplevel => match git.show_toplevel(outcome) {
                Ok(root) => AddFlow::enter_adding(git, branch, commit, path, root),
                Err(_) => {
                    let c = git.worktree_root_command();
                    (
                        AddFlow { git, branch, commit, path, stage: AddStage::WorktreeRoot },
                        Step { logs, next: Next::Run(c) },
                    )
                },
            },
            AddStage::WorktreeRoot => match git.get_worktree_root(outcome) {
                Ok(root) => AddFlow::enter_adding(git, branch, commit, path, root),
                Err(e) => (
                    AddFlow { git, branch, commit, path, stage: AddStage::Done },
                    Step { logs, next: Next::Finish(Err(e)) },
                ),
            },
            AddStage::Adding { target } => match git.add_worktree(outcome) {
                Ok(()) => {
                    let message = added_message_of(&target, &branch, &commit);
                    (
                        AddFlow { git, branch, commit, path, stage: AddStage::Done },
                        Step { logs: one_log(Level::Info, message), next: Next::Finish(Ok(())) },
                    )
                },
                Err(e) => (
                    AddFlow { git, branch, commit, path, stage: AddStage::Done },
                    Step { logs, next: Next::Finish(Err(e)) },
                ),
            },
            AddStage::Done => (
                AddFlow { git, branch, commit, path, stage: AddStage::Done },
                Step { logs: no_logs(), next: Next::CurrentDir },
            ),
        }
    }
}

// ---------------------------------------------------------------------------
// init
/// Where an `init` is.
pub enum InitStage {
    /// Waiting for the current directory; the workspace name.
    CurrentDir { name: String },
    /// Waiting to know whether the workspace directory exists.
    Exists { dir: Vec<u8> },
    /// Waiting for the workspace directory to be created.
    Create { dir: Vec<u8> },
    /// Waiting for the clone into `repo_dir`.
    Clone { repo_dir: Vec<u8> },
    /// Over.
    Done,
}

/// Initializing a workspace: a new directory holding a bare clone.
pub struct InitFlow {
    pub git: Git,
    pub url: String,
    pub stage: InitStage,
}

/// The arguments of the clone that fills a workspace whose repository
/// directory is `repo_dir` (given as text).
pub open spec fn workspace_clone_args(url: Seq<char>, repo_dir: Seq<char>) -> Seq<Seq<char>> {
    seq![
        "clone"@,
        "--bare"@,
        "--config"@,
        "remote.origin.fetch"@ + "="@ + "+refs/heads/*:refs/remotes/origin/*"@,
        "--"@,
        url,
        repo_dir,
    ]
}

/// The directory of the shared repository in a workspace.
pub open spec fn repository_dir(workspace_dir: Seq<u8>) -> Seq<u8> {
    join(workspace_dir, encode_utf8(".bare"@))
}

/// How an `init` starts: it names the workspace and asks for the current
/// directory, or fails where it cannot name it.
pub open spec fn init_started(
    f: InitFlow,
    step: Step,
    git: Git,
    url: String,
    name: Option<Seq<char>>,
) -> bool {
    &&& f.git == git
    &&& f.url == url
    &&& quiet(step)
    &&& match workspace_name_of(url@, name) {
        Some(n) => (f.stage matches InitStage::CurrentDir { name: m } && m@ == n)
            && step.next is CurrentDir,
        None => f.stage is Done && step.next == Next::Finish(Err(GwtError::InvalidRepoUrl)),
    }
}

/// Starts initializing a workspace for the repository at `url`, named
/// `name` or else after the repository: fails at once where no name is
/// given and the URL names no repository; else asks for the current directory.
pub fn init(git: Git, url: String, name: Option<String>) -> (res: (InitFlow, Step))
    ensures
        init_started(res.0, res.1, git, url, opt_view(name)),
{
    let named = match &name {
        Some(n) => workspace_name(url.as_str(), Some(n.as_str())),
        None => workspace_name(url.as_str(), None),
    };
    match named {
        Ok(n) => (
            InitFlow { git, url, stage: InitStage::CurrentDir { name: n } },
            Step { logs: no_logs(), next: Next::CurrentDir },
        ),
        Err(_) => (
            InitFlow { git, url, stage: InitStage::Done },
            Step { logs: no_logs(), next: Next::Finish(Err(GwtError::InvalidRepoUrl)) },
        ),
    }
}

impl InitFlow {
    /// The flow is waiting for `e`: the answer to its last action.
    pub open spec fn awaits(&self, e: &Event) -> bool {
        match self.stage {
            InitStage::CurrentDir { .. } => e is CurrentDir,
            InitStage::Exists { .. } => e is Exists,
            InitStage::Create { .. } => e is Created,
            InitStage::Clone { .. } => e is Ran,
            InitStage::Done => false,
        }
    }

    /// Whether the flow is waiting for `e`.
    pub fn accepts(&self, e: &Event) -> (res: bool)
        ensures
            res == self.awaits(e),
    {
        match (&self.stage, e) {
            (InitStage::CurrentDir { .. }, Event::CurrentDir(_)) => true,
            (InitStage::Exists { .. }, Event::Exists(_)) => true,
            (InitStage::Create { .. }, Event::Created(_)) => true,
            (InitStage::Clone { .. }, Event::Ran(_)) => true,
            _ => false,
        }
    }

    /// The step that the flow takes on `event`: see `resume`.
    pub open spec fn follows(self, event: Event, next: InitFlow, step: Step) -> bool {
        &&& (next.git == self.git)
        &&& (next.url == self.url)
        &&& (match self.stage {
            InitStage::CurrentDir { name } => event matches Event::CurrentDir(c) ==> match c {
                Ok(cwd) => {
                    let dir = join(cwd@, encode_utf8(name@));
                    &&& next.stage matches InitStage::Exists { dir: d } && d@ == dir
                    &&& quiet(step)
                    &&& step.next matches Next::PathExists(p) && p@ == dir
                },
                Err(m) => next.stage is Done && quiet(step) && step.next == Next::Finish(
                    Err(GwtError::Io(m)),
                ),
            },
            InitStage::Exists { dir } => event matches Event::Exists(b) ==> if b {
                &&& next.stage is Done
                &&& quiet(step)
                &&& step.next matches Next::Finish(Err(GwtError::DirectoryExists(d))) && d@
                    == dir@
            } else {
                &&& next.stage matches InitStage::Create { dir: d } && d@ == dir@
                &&& quiet(step)
                &&& step.next matches Next::CreateDirAll(p) && p@ == dir@
            },
            InitStage::Create { dir } => event matches Event::Created(c) ==> match c {
                Ok(()) => {
                    let repo = repository_dir(dir@);
                    &&& logs_one(step, Level::Info, "Created '"@ + lossy_utf8(dir@) + "'"@)
                    &&& if valid_utf8(repo) {
                        &&& next.stage matches InitStage::Clone { repo_dir: r } && r@ == repo
                        &&& runs(
                            step,
                            self.git,
                            workspace_clone_args(self.url@, decode_utf8(repo)),
                        )
                    } else {
                        &&& next.stage is Done
                        &&& step.next matches Next::Finish(Err(GwtError::InvalidUtf8(d)))
                            && d@ == repo
                    }
                },
                Err(m) => next.stage is Done && quiet(step) && step.next == Next::Finish(
                    Err(GwtError::Io(m)),
                ),
            },
            InitStage::Clone { repo_dir } => event matches Event::Ran(o) ==> match outcome_stdout(
                o,
            ) {
                Some(_) => next.stage is Done && logs_one(
                    step,
                    Level::Info,
                    "Initialized '"@ + lossy_utf8(repo_dir@) + "'"@,
                ) && step.next == Next::Finish(Ok(())),
                None => next.stage is Done && logs_are(step, run_log(o)) && step.next == Next::Finish(
                    Err(outcome_error(o)),
                ),
            },
            InitStage::Done => false,
        })
    }

    /// Goes on with the answer to the last action: the workspace directory
    /// is `<current dir>/<name>`; it must not exist; it is created (and
    /// reported), then the repository is cloned bare into its `.bare`
    /// (and reported).
    pub fn resume(self, event: Event) -> (res: (InitFlow, Step))
        requires
            self.awaits(&event),
        ensures
            self.follows(event, res.0, res.1),
    {
        let InitFlow { git, url, stage } = self;
        match (stage, event) {
            (InitStage::CurrentDir { name }, Event::CurrentDir(c)) => match c {
                Ok(cwd) => {
                    let name_bytes = name.as_str().as_bytes_vec();
                    assert(name_bytes@ == encode_utf8(name@));
                    let dir = join_path(&cwd, &name_bytes);
                    let probe = slice_bytes(&dir, 0, dir.len());
                    assert(probe@ =~= dir@);
                    (
                        InitFlow { git, url, stage: InitStage::Exists { dir } },
                        Step { logs: no_logs(), next: Next::PathExists(probe) },
                    )
                },
                Err(m) => (
                    InitFlow { git, url, stage: InitStage::Done },
                    Step { logs: no_logs(), next: Next::Finish(Err(GwtError::Io(m))) },
                ),
            },
            (InitStage::Exists { dir }, Event::Exists(b)) => if b {
                (
                    InitFlow { git, url, stage: InitStage::Done },
                    Step { logs: no_logs(), next: Next::Finish(Err(GwtError::DirectoryExists(dir))) },
                )
            } else {
                let target = slice_bytes(&dir, 0, dir.len());
                assert(target@ =~= dir@);
                (
                    InitFlow { git, url, stage: InitStage::Create { dir } },
                    Step { logs: no_logs(), next: Next::CreateDirAll(target) },
                )
            },
            (InitStage::Create { dir }, Event::Created(c)) => match c {
                Ok(()) => {
                    let shown = lossy_string(dir.as_slice());
                    let created = String::from_str("Created '").concat(shown.as_str()).concat("'");
                    let args = clone_repository(url.as_str(), &dir);
                    proof {
                        let cfg = args.config@;
                        assert(cfg.drop_last() =~= seq![]);
                        assert(crate::git::config_args(cfg.drop_last()) =~= seq![]);
                        assert(cfg.last() == cfg[0]);
                        assert(crate::git::config_args(cfg) =~= seq![
                            "--config"@,
                            cfg[0].0@ + "="@ + cfg[0].1@,
                        ]);
                        if valid_utf8(args.dir@) {
                            assert(seq!["clone"@] + seq!["--bare"@] + crate::git::config_args(cfg)
                                + seq!["--"@, url@, decode_utf8(args.dir@)] =~= workspace_clone_args(
                                url@,
                                decode_utf8(args.dir@),
                            ));
                        }
                    }
                    match git.clone_command(&args) {
                        Ok(c) => {
                            let repo_dir = args.dir;
                            (
                                InitFlow { git, url, stage: InitStage::Clone { repo_dir } },
                                Step { logs: one_log(Level::Info, created), next: Next::Run(c) },
                            )
                        },
                        Err(e) => (
                            InitFlow { git, url, stage: InitStage::Done },
                            Step { logs: one_log(Level::Info, created), next: Next::Finish(Err(e)) },
                        ),
                    }
                },
                Err(m) => (
                    InitFlow { git, url, stage: InitStage::Done },
                    Step { logs: no_logs(), next: Next::Finish(Err(GwtError::Io(m))) },
                ),
            },
            (InitStage::Clone { repo_dir }, Event::Ran(o)) => {
                let logs = run_logs(&o);
                match git.clone(o) {
                Ok(()) => {
                    let shown = lossy_string(repo_dir.as_slice());
                    let done = String::from_str("Initialized '").concat(shown.as_str()).concat("'");
                    (
                        InitFlow { git, url, stage: InitStage::Done },
                        Step { logs: one_log(Level::Info, done), next: Next::Finish(Ok(())) },
                    )
                },
                Err(e) => (
                    InitFlow { git, url, stage: InitStage::Done },
                    Step { logs, next: Next::Finish(Err(e)) },
                ),
            }
            },
            (stage, _) => (InitFlow { git, url, stage }, Step { logs: no_logs(), next: Next::CurrentDir }),
        }
    }
}

// ---------------------------------------------------------------------------
// purge
/// Where a `purge` is.
pub enum PurgeStage {
    /// Waiting for the branches that track an upstream.
    Tracking,
    /// Waiting for the worktree list; the tracking branches.
    Worktrees { tracking: Vec<String> },
    /// Waiting for the removal of `sections[index]`.
    Removing { sections: Vec<String>, index: usize },
    /// Over.
    Done,
}

/// Purging the config sections of branches that no worktree uses.
pub struct PurgeFlow {
    pub git: Git,
    pub stage: PurgeStage,
}

/// The line that reports the removal of `name`, or its failure with `error`.
pub open spec fn removal_message(name: Seq<char>, error: Option<GwtError>) -> Seq<char> {
    match error {
        None => "Removed config section: '"@ + name + "'"@,
        Some(e) => "Failed to remove config section '"@ + name + "': "@ + message_of(&e),
    }
}

/// How a `purge` starts: it asks for the branches that track an upstream.
pub open spec fn purge_started(f: PurgeFlow, step: Step, git: Git) -> bool {
    &&& f.git == git
    &&& f.stage is Tracking
    &&& quiet(step)
    &&& runs(step, git, tracked_branches_args())
}

/// Starts purging: first asks git for the branches that track an upstream.
pub fn purge(git: Git) -> (res: (PurgeFlow, Step))
    ensures
        purge_started(res.0, res.1, git),
{
    let c = git.tracked_branches_command();
    (PurgeFlow { git, stage: PurgeStage::Tracking }, Step { logs: no_logs(), next: Next::Run(c) })
}

impl PurgeFlow {
    /// The flow is waiting for `e`: the outcome of its command, unless it is over.
    pub open spec fn awaits(&self, e: &Event) -> bool {
        &&& e is Ran
        &&& match self.stage {
            PurgeStage::Removing { sections, index } => index < sections@.len(),
            PurgeStage::Done => false,
            _ => true,
        }
    }

    /// Whether the flow is waiting for `e`.
    pub fn accepts(&self, e: &Event) -> (res: bool)
        ensures
            res == self.awaits(e),
    {
        match (&self.stage, e) {
            (PurgeStage::Done, _) => false,
            (PurgeStage::Removing { sections, index }, Event::Ran(_)) => *index < sections.len(),
            (_, Event::Ran(_)) => true,
            _ => false,
        }
    }

    /// The step that removes `sections[index]`, or finishes once all are done.
    pub open spec fn removal_step(self, sections: Seq<Seq<char>>, index: int, next: PurgeFlow, step: Step) -> bool {
        if index < sections.len() {
            &&& next.stage matches PurgeStage::Removing { sections: s, index: i }
                && string_views(s@) == sections && i == index
            &&& runs(step, self.git, remove_section_args(sections[index]))
        } else {
            &&& next.stage is Done
            &&& step.next == Next::Finish(Ok(()))
        }
    }

    /// The step that the flow takes on `event`: see `resume`.
    pub open spec fn follows(self, event: Event, next: PurgeFlow, step: Step) -> bool {
        &&& (next.git == self.git)
        &&& (event matches Event::Ran(o) ==> match self.stage {
            PurgeStage::Tracking => match outcome_stdout(o) {
                Some(out) => {
                    &&& next.stage matches PurgeStage::Worktrees { tracking: t }
                        && string_views(t@).no_duplicates() && forall|b: Seq<char>|
                        string_views(t@).contains(b) <==> tracked_branch_set(
                            lossy_utf8(out),
                        ).contains(b)
                    &&& quiet(step)
                    &&& runs(step, self.git, list_worktrees_args())
                },
                None => next.stage is Done && logs_are(step, run_log(o)) && step.next == Next::Finish(
                    Err(outcome_error(o)),
                ),
            },
            PurgeStage::Worktrees { tracking } => match outcome_stdout(o) {
                Some(out) => match parse_worktrees(lossy_utf8(out)) {
                    Some(ws) => quiet(step) && self.removal_step(
                        stale_section_names(string_views(tracking@), branch_set(ws)),
                        0,
                        next,
                        step,
                    ),
                    None => next.stage is Done && quiet(step) && (step.next matches Next::Finish(
                        Err(GwtError::ParseWorktree),
                    )),
                },
                None => next.stage is Done && logs_are(step, run_log(o)) && step.next == Next::Finish(
                    Err(outcome_error(o)),
                ),
            },
            PurgeStage::Removing { sections, index } => {
                let name = string_views(sections@)[index as int];
                let error = match outcome_stdout(o) {
                    Some(_) => None,
                    None => Some(outcome_error(o)),
                };
                &&& logs_are(
                    step,
                    run_log(o).push(
                        (
                            if error is None {
                                Level::Info
                            } else {
                                Level::Warn
                            },
                            removal_message(name, error),
                        ),
                    ),
                )
                &&& self.removal_step(string_views(sections@), index + 1, next, step)
            },
            PurgeStage::Done => false,
        })
    }

    /// Goes on with what came of the last command: with the tracking
    /// branches and the worktrees known, removes the section of each
    /// tracking branch that no worktree has checked out, one by one, logging
    /// each removal or its failure; a failed removal stops nothing, and the
    /// purge then succeeds.
    pub fn resume(self, event: Event) -> (res: (PurgeFlow, Step))
        requires
            self.awaits(&event),
        ensures
            self.follows(event, res.0, res.1),
    {
        let outcome = match event {
            Event::Ran(o) => o,
            _ => {
                return (self, Step { logs: no_logs(), next: Next::CurrentDir });
            },
        };
        let logs = run_logs(&outcome);
        let PurgeFlow { git, stage } = self;
        match stage {
            PurgeStage::Tracking => match git.get_tracked_branches(outcome) {
                Ok(tracking) => {
                    let c = git.list_worktrees_command();
                    (
                        PurgeFlow { git, stage: PurgeStage::Worktrees { tracking } },
                        Step { logs: no_logs(), next: Next::Run(c) },
                    )
                },
                Err(e) => (
                    PurgeFlow { git, stage: PurgeStage::Done },
                    Step { logs, next: Next::Finish(Err(e)) },
                ),
            },
            PurgeStage::Worktrees { tracking } => match git.list_worktrees(outcome) {
                Ok(ws) => {
                    let used = ws.branches();
                    let sections = stale_sections(&tracking, &used);
                    proof {
                        assert(crate::commands::string_set(used@) =~= branch_set(ws@));
                    }
                    if sections.len() == 0 {
                        (
                            PurgeFlow { git, stage: PurgeStage::Done },
                            Step { logs: no_logs(), next: Next::Finish(Ok(())) },
                        )
                    } else {
                        let c = git.remove_section_command(sections[0].as_str());
                        (
                            PurgeFlow { git, stage: PurgeStage::Removing { sections, index: 0 } },
                            Step { logs: no_logs(), next: Next::Run(c) },
                        )
                    }
                },
                Err(e) => (
                    PurgeFlow { git, stage: PurgeStage::Done },
                    Step { logs, next: Next::Finish(Err(e)) },
                ),
            },
            PurgeStage::Removing { sections, index } => {
                assert(index < sections@.len());
                let name = &sections[index];
                let line = match git.remove_section(outcome) {
                    Ok(()) => LogLine {
                        level: Level::Info,
                        message: String::from_str("Removed config section: '").concat(
                            name.as_str(),
                        ).concat("'"),
                    },
                    Err(e) => {
                        let why = e.message();
                        LogLine {
                            level: Level::Warn,
                            message: String::from_str("Failed to remove config section '").concat(
                                name.as_str(),
                            ).concat("': ").concat(why.as_str()),
                        }
                    },
                };
                let mut logs = logs;
                let ghost before = logs@;
                let ghost shown = (line.level, line.message@);
                logs.push(line);
                assert(log_views(logs@) =~= log_views(before).push(shown));
                if index < sections.len() - 1 {
                    let c = git.remove_section_command(sections[index + 1].as_str());
                    (
                        PurgeFlow { git, stage: PurgeStage::Removing { sections, index: index + 1 } },
                        Step { logs, next: Next::Run(c) },
                    )
                } else {
                    (PurgeFlow { git, stage: PurgeStage::Done }, Step { logs, next: Next::Finish(Ok(())) })
                }
            },
            PurgeStage::Done => (
                PurgeFlow { git, stage: PurgeStage::Done },
                Step { logs: no_logs(), next: Next::CurrentDir },
            ),
        }
    }
}

// ---------------------------------------------------------------------------
// any command
/// A running command.
pub enum Workflow {
    Add(AddFlow),
    Init(InitFlow),
    Purge(PurgeFlow),
}

/// The path that `add-feat` uses.
pub open spec fn feat_path() -> Seq<u8> {
    encode_utf8("feat"@)
}

/// The path that `add-fix` uses.
pub open spec fn fix_path() -> Seq<u8> {
    encode_utf8("fix"@)
}

/// The path that `add-pr` uses.
pub open spec fn pr_path() -> Seq<u8> {
    encode_utf8("pr"@)
}

/// How the flow of an add subcommand starts.
pub open spec fn add_command_started(w: Workflow, step: Step, git: Git, args: AddArgs, path: Seq<u8>) -> bool {
    w matches Workflow::Add(f) && add_started(f, step, git, args.branch, args.commit, path)
}

/// Starts the command that the command line asks for: `add` at the path
/// given, `add-feat`, `add-fix` and `add-pr` at `feat`, `fix` and `pr`,
/// `init` and `purge`.
pub fn start(command: Commands, git: Git) -> (res: (Workflow, Step))
    ensures
        match command {
            Commands::Add { path, args } => add_command_started(res.0, res.1, git, args, path@),
            Commands::AddFeat(args) => add_command_started(res.0, res.1, git, args, feat_path()),
            Commands::AddFix(args) => add_command_started(res.0, res.1, git, args, fix_path()),
            Commands::AddPr(args) => add_command_started(res.0, res.1, git, args, pr_path()),
            Commands::Init(args) => res.0 matches Workflow::Init(f) && init_started(
                f,
                res.1,
                git,
                args.url,
                opt_view(args.name),
            ),
            Commands::Purge => res.0 matches Workflow::Purge(f) && purge_started(f, res.1, git),
        },
{
    match command {
        Commands::Add { path, args } => {
            let (f, step) = self::add(git, args.branch, args.commit, path);
            (Workflow::Add(f), step)
        },
        Commands::AddFeat(args) => {
            let (f, step) = self::add(git, args.branch, args.commit, "feat".as_bytes_vec());
            (Workflow::Add(f), step)
        },
        Commands::AddFix(args) => {
            let (f, step) = self::add(git, args.branch, args.commit, "fix".as_bytes_vec());
            (Workflow::Add(f), step)
        },
        Commands::AddPr(args) => {
            let (f, step) = self::add(git, args.branch, args.commit, "pr".as_bytes_vec());
            (Workflow::Add(f), step)
        },
        Commands::Init(args) => {
            let (f, step) = init(git, args.url, args.name);
            (Workflow::Init(f), step)
        },
        Commands::Purge => {
            let (f, step) = purge(git);
            (Workflow::Purge(f), step)
        },
    }
}

impl Workflow {
    /// The command is waiting for `e`.
    pub open spec fn awaits(&self, e: &Event) -> bool {
        match self {
            Workflow::Add(f) => f.awaits(e),
            Workflow::Init(f) => f.awaits(e),
            Workflow::Purge(f) => f.awaits(e),
        }
    }

    /// Whether the command is waiting for `e`.
    pub fn accepts(&self, e: &Event) -> (res: bool)
        ensures
            res == self.awaits(e),
    {
        match self {
            Workflow::Add(f) => f.accepts(e),
            Workflow::Init(f) => f.accepts(e),
            Workflow::Purge(f) => f.accepts(e),
        }
    }

    /// Goes on with what came of the last action.
    pub fn resume(self, event: Event) -> (res: (Workflow, Step))
        requires
            self.awaits(&event),
        ensures
            match self {
                Workflow::Add(f) => res.0 matches Workflow::Add(g) && f.follows(event, g, res.1),
                Workflow::Init(f) => res.0 matches Workflow::Init(g) && f.follows(event, g, res.1),
                Workflow::Purge(f) => res.0 matches Workflow::Purge(g) && f.follows(event, g, res.1),
            },
    {
        match self {
            Workflow::Add(f) => {
                let (g, step) = f.resume(event);
                (Workflow::Add(g), step)
            },
            Workflow::Init(f) => {
                let (g, step) = f.resume(event);
                (Workflow::Init(g), step)
            },
            Workflow::Purge(f) => {
                let (g, step) = f.resume(event);
                (Workflow::Purge(g), step)
            },
        }
    }
}

} // verus!
