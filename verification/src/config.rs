//! Run configuration: the parsed command-line arguments and the branch pair
//! shared by every stage of a run.
use vstd::prelude::*;

verus! {

/// The configuration of one run: owner, branch pair, repositories to work
/// on, and the accounts whose review each newly created pull request asks
/// for.
pub struct Args {
    /// Base branch the pull requests merge into.
    pub base: String,
    /// Head branch holding the proposed changes.
    pub head: String,
    /// Account owning every repository of the run.
    pub owner: String,
    /// Names of the repositories to open pull requests in.
    pub repo: Vec<String>,
    /// Accounts whose review each newly created pull request asks for.
    pub reviewer: Vec<String>,
}

impl Args {
    /// A run needs at least one repository; the review list may be empty.
    pub open spec fn wf(&self) -> bool {
        self.repo@.len() > 0
    }

    /// Whether this configuration names at least one repository.
    pub fn is_valid(&self) -> (r: bool)
        ensures
            r == self.wf(),
    {
        self.repo.len() > 0
    }
}

/// The (base, head) branch pair, constant for the whole run.
pub struct BranchPair {
    /// Base branch the pull requests merge into.
    pub base: String,
    /// Head branch holding the proposed changes.
    pub head: String,
}

} // verus!
