//! The report lines of a run, and the shared error-formatting utility.
//!
//! Every notable event of a run — a skip, a failure, a success — becomes one
//! line attributed to the repository it concerns. The builders here state
//! the exact text of each line, so the callers' contracts pin the report
//! down to the character.
use vstd::prelude::*;
use vstd::string::StringExecFns;

use crate::decimal::spec_decimal;
use crate::decimal::u64_to_string;

verus! {

/// A failure of one remote call, as handed back by the caller of the
/// external client: the optional human-readable message of the structured
/// remote error, where the failure carried one.
pub struct RemoteError {
    /// The remote service's message, present when the failure was a
    /// structured error rather than a transport-level one.
    pub message: Option<String>,
}

/// The text `generate_error` reports: the contextual message alone for a
/// transport-level failure, or the context followed by the remote
/// service's own message.
pub open spec fn spec_error_text(context: Seq<char>, e: RemoteError) -> Seq<char> {
    match e.message {
        Some(m) => context + ": "@ + m@,
        None => context,
    }
}

/// Converts a remote-call failure into the reported error line: always an
/// `Err`, carrying the contextual message, extended with the remote
/// service's message when the failure carried one.
pub fn generate_error(message: String, e: &RemoteError) -> (r: Result<(), String>)
    ensures
        r matches Err(t) && t@ == spec_error_text(message@, *e),
{
    let ghost context = message@;
    match &e.message {
        Some(m) => {
            let mut t = message;
            t.append(": ");
            t.append(m.as_str());
            proof {
                assert(t@ =~= spec_error_text(context, *e));
            }
            Err(t)
        },
        None => Err(message),
    }
}

/// The notice for a repository whose branches hold no new commits.
pub open spec fn spec_sync_notice(repo: Seq<char>, head: Seq<char>, base: Seq<char>) -> Seq<
    char,
> {
    repo + "'s "@ + head + " and "@ + base + " branches are in sync, skipping."@
}

/// Builds the "branches are in sync" notice for one repository.
pub fn sync_notice(repo: &str, head: &str, base: &str) -> (r: String)
    ensures
        r@ == spec_sync_notice(repo@, head@, base@),
{
    let mut r = String::from_str(repo);
    r.append("'s ");
    r.append(head);
    r.append(" and ");
    r.append(base);
    r.append(" branches are in sync, skipping.");
    proof {
        assert(r@ =~= spec_sync_notice(repo@, head@, base@));
    }
    r
}

/// The context reported when a comparison call fails.
pub open spec fn spec_compare_context(repo: Seq<char>, head: Seq<char>, base: Seq<char>) -> Seq<
    char,
> {
    "Error comparing "@ + repo + "'s "@ + head + " and "@ + base + " branches"@
}

/// Builds the context for a failed comparison call.
pub fn compare_context(repo: &str, head: &str, base: &str) -> (r: String)
    ensures
        r@ == spec_compare_context(repo@, head@, base@),
{
    let mut r = String::from_str("Error comparing ");
    r.append(repo);
    r.append("'s ");
    r.append(head);
    r.append(" and ");
    r.append(base);
    r.append(" branches");
    proof {
        assert(r@ =~= spec_compare_context(repo@, head@, base@));
    }
    r
}

/// The notice for a repository that already has an open pull request.
pub open spec fn spec_already_open_notice(repo: Seq<char>) -> Seq<char> {
    repo + " already has an opened Pull request"@
}

/// Builds the "already has an opened Pull request" notice.
pub fn already_open_notice(repo: &str) -> (r: String)
    ensures
        r@ == spec_already_open_notice(repo@),
{
    let mut r = String::from_str(repo);
    r.append(" already has an opened Pull request");
    r
}

/// The notice announcing the creation of a pull request.
pub open spec fn spec_creating_notice(repo: Seq<char>) -> Seq<char> {
    "Creating Pull request for "@ + repo + "..."@
}

/// Builds the "Creating Pull request" notice.
pub fn creating_notice(repo: &str) -> (r: String)
    ensures
        r@ == spec_creating_notice(repo@),
{
    let mut r = String::from_str("Creating Pull request for ");
    r.append(repo);
    r.append("...");
    proof {
        assert(r@ =~= spec_creating_notice(repo@));
    }
    r
}

/// The context reported when listing a repository's pull requests fails.
pub open spec fn spec_fetch_failed_context(repo: Seq<char>) -> Seq<char> {
    "Failed to fetch "@ + repo + "'s pull requests."@
}

/// Builds the context for a failed list call.
pub fn fetch_failed_context(repo: &str) -> (r: String)
    ensures
        r@ == spec_fetch_failed_context(repo@),
{
    let mut r = String::from_str("Failed to fetch ");
    r.append(repo);
    r.append("'s pull requests.");
    proof {
        assert(r@ =~= spec_fetch_failed_context(repo@));
    }
    r
}

/// The context reported when creating a pull request fails.
pub open spec fn spec_create_failed_context(repo: Seq<char>) -> Seq<char> {
    "Failed creating a Pull request in "@ + repo
}

/// Builds the context for a failed create call.
pub fn create_failed_context(repo: &str) -> (r: String)
    ensures
        r@ == spec_create_failed_context(repo@),
{
    let mut r = String::from_str("Failed creating a Pull request in ");
    r.append(repo);
    r
}

/// The confirmation logged after a successful review request.
pub open spec fn spec_review_ok_notice(repo: Seq<char>) -> Seq<char> {
    "Review requested for "@ + repo
}

/// Builds the review-request confirmation line.
pub fn review_ok_notice(repo: &str) -> (r: String)
    ensures
        r@ == spec_review_ok_notice(repo@),
{
    let mut r = String::from_str("Review requested for ");
    r.append(repo);
    r
}

/// The context reported when the review request fails, naming the
/// repository and the pull request's numeric id.
pub open spec fn spec_review_failed_context(repo: Seq<char>, pr_id: nat) -> Seq<char> {
    "Failed to request review for "@ + repo + "'s Pull request with ID:"@ + spec_decimal(pr_id)
}

/// Builds the context for a failed review request.
pub fn review_failed_context(repo: &str, pr_id: u64) -> (r: String)
    ensures
        r@ == spec_review_failed_context(repo@, pr_id as nat),
{
    let mut r = String::from_str("Failed to request review for ");
    r.append(repo);
    r.append("'s Pull request with ID:");
    let id = u64_to_string(pr_id);
    r.append(id.as_str());
    proof {
        assert(r@ =~= spec_review_failed_context(repo@, pr_id as nat));
    }
    r
}

} // verus!
