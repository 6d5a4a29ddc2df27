//! The boundary to version control: what the engine asks of a repository.

use vstd::prelude::*;
use crate::errors::VcsError;

verus! {

/// Read access to a repository's version control state. The git-backed
/// adapter runs `git`; other adapters can implement this trait without
/// changing the callers.
pub trait VcsAdapter {
    /// Whether `repo_root` is a repository.
    fn is_repo(&self, repo_root: &str) -> bool;

    /// The checked-out branch.
    fn detect_head_branch(&self, repo_root: &str) -> Result<String, VcsError>;

    /// The checked-out commit.
    fn detect_head_commit(&self, repo_root: &str) -> Result<String, VcsError>;
}

/// The git-backed adapter.
#[derive(Debug, Default, Clone, Copy)]
pub struct GitVcsAdapter;

/// The adapter used when none is configured.
pub fn default_vcs_adapter() -> (r: GitVcsAdapter)
    ensures
        r == GitVcsAdapter,
{
    GitVcsAdapter
}

} // verus!
