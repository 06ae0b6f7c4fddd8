//! A helper for working with git worktrees: it adds worktrees for new
//! branches, initializes a workspace around a bare clone, and purges the
//! config of branches that no worktree uses.
//!
//! The library decides and computes; running git and touching the file
//! system is left to its caller, which performs each step that a command's
//! state machine (`flow`) names and feeds back what came of it.
pub mod cli;
pub mod commands;
pub mod error;
pub mod flow;
pub mod git;
pub mod logger;
pub mod path;
pub mod text;
pub mod worktree;
