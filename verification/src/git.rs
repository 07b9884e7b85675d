//! The version-control collaborator, seen from the library: plain commands
//! and queries on the working copy. The library only decides; running the
//! commands is the surrounding program's part.

pub mod store;

use vstd::prelude::*;

verus! {

/// The working-copy operations the coordination commands drive. What they do
/// happens outside the library, so nothing is promised of their results;
/// every caller handles every outcome.
pub trait Git {
    /// Runs a version-control command with the given arguments.
    fn run(&self, args: &[&str]) -> Result<(), String>;

    /// Is the working tree free of uncommitted changes?
    fn tree_is_clean(&self) -> Result<bool, String>;

    /// Does the named branch exist?
    fn has_branch(&self, branch: &str) -> Result<bool, String>;

    /// The branch currently checked out, when one is.
    fn current_branch(&self) -> Result<Option<String>, String>;

    /// The porcelain list of changed files, empty when the tree is clean.
    fn dirty_files(&self) -> Result<String, String>;
}

/// One file recorded as one commit on a coordination reference.
pub struct CommitFile<'a> {
    pub filename: &'a str,
    pub data: &'a [u8],
    pub message: &'a str,
    pub reference: &'a str,
}

} // verus!
