//! The command line of the helper, as plain values.
use vstd::prelude::*;

verus! {

/// The parsed command line: one subcommand.
pub struct Cli {
    pub command: Commands,
}

/// The subcommands.
pub enum Commands {
    /// Add a new worktree at `path`.
    Add { path: Vec<u8>, args: AddArgs },
    /// Add a new worktree for feature development (at `feat`).
    AddFeat(AddArgs),
    /// Add a new worktree for fix development (at `fix`).
    AddFix(AddArgs),
    /// Add a new worktree for PR development (at `pr`).
    AddPr(AddArgs),
    /// Initialize a new workspace.
    Init(InitArgs),
    /// Purge stale branch configurations.
    Purge,
}

/// The arguments of the add subcommands.
pub struct AddArgs {
    /// Create a new branch named `branch` and check it out into the new
    /// worktree; refused where the branch exists.
    pub branch: String,
    /// Start at this commit-ish, else at `HEAD`.
    pub commit: Option<String>,
}

/// The arguments of `init`.
pub struct InitArgs {
    /// The repository to clone from.
    pub url: String,
    /// The workspace name; `<repo>-workspace` where not given.
    pub name: Option<String>,
}

} // verus!
