//! The ways a command of the helper fails, and what it reports for each.
use vstd::prelude::*;
use vstd::string::*;

use crate::path::{lossy_string, lossy_utf8};

verus! {

/// Why a command failed.
#[derive(Debug)]
pub enum GwtError {
    /// The git executable could not be started; the reason.
    GitNotStarted(String),
    /// Git ran and reported failure.
    GitFailed,
    /// A path that had to be passed to git as text is not valid UTF-8.
    InvalidUtf8(Vec<u8>),
    /// The worktree listing could not be read.
    ParseWorktree,
    /// Git named no directory that holds the repository.
    NoWorktreeRoot,
    /// The repository URL does not end in `/<name>.git`.
    InvalidRepoUrl,
    /// The workspace directory to create exists already.
    DirectoryExists(Vec<u8>),
    /// A file system operation failed; its message.
    Io(String),
}

/// The message that reports `e`.
pub open spec fn message_of(e: &GwtError) -> Seq<char> {
    match e {
        GwtError::GitNotStarted(m) => "Git error: "@ + m@,
        GwtError::GitFailed => "Git operation failed"@,
        GwtError::InvalidUtf8(p) => "Invalid UTF-8: '"@ + lossy_utf8(p@) + "'"@,
        GwtError::ParseWorktree => "Failed to parse the worktree list"@,
        GwtError::NoWorktreeRoot => "Failed to find the worktree root"@,
        GwtError::InvalidRepoUrl => "Invalid repo URL"@,
        GwtError::DirectoryExists(p) => "Directory '"@ + lossy_utf8(p@) + "' already exists"@,
        GwtError::Io(m) => m@,
    }
}

impl GwtError {
    /// The message that reports this error.
    pub fn message(&self) -> (res: String)
        ensures
            res@ == message_of(self),
    {
        match self {
            GwtError::GitNotStarted(m) => String::from_str("Git error: ").concat(m.as_str()),
            GwtError::GitFailed => String::from_str("Git operation failed"),
            GwtError::InvalidUtf8(p) => {
                let shown = lossy_string(p.as_slice());
                String::from_str("Invalid UTF-8: '").concat(shown.as_str()).concat("'")
            },
            GwtError::ParseWorktree => String::from_str("Failed to parse the worktree list"),
            GwtError::NoWorktreeRoot => String::from_str("Failed to find the worktree root"),
            GwtError::InvalidRepoUrl => String::from_str("Invalid repo URL"),
            GwtError::DirectoryExists(p) => {
                let shown = lossy_string(p.as_slice());
                String::from_str("Directory '").concat(shown.as_str()).concat("' already exists")
            },
            GwtError::Io(m) => m.clone(),
        }
    }
}

} // verus!
