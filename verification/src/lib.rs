//! Verified core of a git-worktree manager.
//!
//! The crate holds the decision logic of the tool: parsing the tracked-item
//! configuration, parsing the output of the version-control commands, choosing
//! the authoritative copy of each tracked item and planning its replication
//! across worktrees, and the step-by-step orchestration of the add, remove and
//! clone workflows.  All filesystem access and command invocation stays with
//! the caller, which feeds plain values in and carries the planned actions out.
//!
//! Strings are represented as vectors of characters so that every contract can
//! speak of a `Seq<char>` view.

pub mod text;
pub mod config;
pub mod sync;
pub mod gitout;
pub mod file_ops;
pub mod lifecycle;
pub mod clone_setup;
pub mod init;
