//! Reduction of the comparison round: keeps the repositories whose head
//! branch holds commits missing from the base branch, and emits one report
//! line for every repository that is skipped or whose comparison failed.
//!
//! The comparison calls themselves are issued by the binary around this
//! library, one per repository, all launched together; their outcomes come
//! back here as plain values, one per repository in input order.
use vstd::prelude::*;

use crate::config::BranchPair;
use crate::messages::RemoteError;
use crate::messages::compare_context;
use crate::messages::generate_error;
use crate::messages::spec_compare_context;
use crate::messages::spec_error_text;
use crate::messages::spec_sync_notice;
use crate::messages::sync_notice;

verus! {

/// The successful outcome of one comparison call: how many commits exist on
/// the head branch that are not reachable from the base branch.
pub struct ComparisonResult {
    /// Commits present in head but not in base.
    pub total_commits: u32,
}

/// The outcome of one repository's comparison call.
pub enum ComparisonOutcome {
    /// The call succeeded with a commit count.
    Compared(ComparisonResult),
    /// The call failed; the failure is reported and the repository is
    /// excluded from further processing.
    CallFailed(RemoteError),
}

/// Whether an outcome puts its repository into the working set.
pub open spec fn spec_has_changes(o: ComparisonOutcome) -> bool {
    o matches ComparisonOutcome::Compared(c) && c.total_commits > 0
}

/// The repositories kept by the filter, in input order: exactly those whose
/// comparison succeeded with at least one commit of difference.
pub open spec fn spec_changed_repos(
    repos: Seq<Seq<char>>,
    outcomes: Seq<ComparisonOutcome>,
) -> Seq<Seq<char>>
    decreases repos.len(),
{
    if repos.len() == 0 {
        Seq::empty()
    } else if spec_has_changes(outcomes[0]) {
        seq![repos[0]] + spec_changed_repos(repos.drop_first(), outcomes.drop_first())
    } else {
        spec_changed_repos(repos.drop_first(), outcomes.drop_first())
    }
}

/// The report lines of the comparison round, in input order: a sync notice
/// for every repository without new commits, an error line for every failed
/// call, nothing for a repository that enters the working set.
pub open spec fn spec_compare_report(
    repos: Seq<Seq<char>>,
    outcomes: Seq<ComparisonOutcome>,
    head: Seq<char>,
    base: Seq<char>,
) -> Seq<Seq<char>>
    decreases repos.len(),
{
    if repos.len() == 0 {
        Seq::empty()
    } else {
        let rest = spec_compare_report(repos.drop_first(), outcomes.drop_first(), head, base);
        match outcomes[0] {
            ComparisonOutcome::Compared(c) => if c.total_commits > 0 {
                rest
            } else {
                seq![spec_sync_notice(repos[0], head, base)] + rest
            },
            ComparisonOutcome::CallFailed(e) => seq![
                spec_error_text(spec_compare_context(repos[0], head, base), e),
            ] + rest,
        }
    }
}

/// Reduces the comparison outcomes to the working set of a run.
///
/// Returns the names of the repositories with at least one commit of
/// difference, in input order, together with the report lines for the
/// repositories that were skipped or whose comparison failed.
pub fn get_repos_with_changes(
    repositories: &Vec<String>,
    outcomes: &Vec<ComparisonOutcome>,
    pair: &BranchPair,
) -> (r: (Vec<String>, Vec<String>))
    requires
        repositories@.len() == outcomes@.len(),
    ensures
        r.0.deep_view() == spec_changed_repos(repositories.deep_view(), outcomes@),
        r.1.deep_view() == spec_compare_report(
            repositories.deep_view(),
            outcomes@,
            pair.head@,
            pair.base@,
        ),
{
    let ghost all_repos = repositories.deep_view();
    let ghost all_outcomes = outcomes@;
    let mut changed: Vec<String> = Vec::new();
    let mut report: Vec<String> = Vec::new();
    let mut i: usize = 0;
    proof {
        assert(all_repos.skip(0) =~= all_repos);
        assert(all_outcomes.skip(0) =~= all_outcomes);
        assert(changed.deep_view() =~= Seq::<Seq<char>>::empty());
        assert(report.deep_view() =~= Seq::<Seq<char>>::empty());
        assert(changed.deep_view() + spec_changed_repos(all_repos, all_outcomes)
            =~= spec_changed_repos(all_repos, all_outcomes));
        assert(report.deep_view() + spec_compare_report(all_repos, all_outcomes, pair.head@, pair.base@)
            =~= spec_compare_report(all_repos, all_outcomes, pair.head@, pair.base@));
    }
    while i < repositories.len()
        invariant
            repositories@.len() == outcomes@.len(),
            i <= repositories@.len(),
            all_repos == repositories.deep_view(),
            all_outcomes == outcomes@,
            spec_changed_repos(all_repos, all_outcomes) == changed.deep_view()
                + spec_changed_repos(all_repos.skip(i as int), all_outcomes.skip(i as int)),
            spec_compare_report(all_repos, all_outcomes, pair.head@, pair.base@)
                == report.deep_view() + spec_compare_report(
                all_repos.skip(i as int),
                all_outcomes.skip(i as int),
                pair.head@,
                pair.base@,
            ),
        decreases repositories@.len() - i,
    {
        proof {
            assert(all_repos.skip(i as int)[0] == all_repos[i as int]);
            assert(all_repos.skip(i as int).drop_first() =~= all_repos.skip(i + 1));
            assert(all_outcomes.skip(i as int).drop_first() =~= all_outcomes.skip(i + 1));
        }
        let repo = &repositories[i];
        match &outcomes[i] {
            ComparisonOutcome::Compared(c) => {
                if c.total_commits > 0 {
                    changed.push(repo.clone());
                } else {
                    report.push(sync_notice(repo.as_str(), pair.head.as_str(), pair.base.as_str()));
                }
            },
            ComparisonOutcome::CallFailed(e) => {
                let context = compare_context(repo.as_str(), pair.head.as_str(), pair.base.as_str());
                match generate_error(context, e) {
                    Ok(_) => {},
                    Err(line) => report.push(line),
                }
            },
        }
        i = i + 1;
        proof {
            assert(changed.deep_view() + spec_changed_repos(
                all_repos.skip(i as int),
                all_outcomes.skip(i as int),
            ) =~= spec_changed_repos(all_repos, all_outcomes));
            assert(report.deep_view() + spec_compare_report(
                all_repos.skip(i as int),
                all_outcomes.skip(i as int),
                pair.head@,
                pair.base@,
            ) =~= spec_compare_report(all_repos, all_outcomes, pair.head@, pair.base@));
        }
    }
    proof {
        assert(all_repos.skip(repositories@.len() as int) =~= Seq::<Seq<char>>::empty());
        assert(all_outcomes.skip(repositories@.len() as int) =~= Seq::<ComparisonOutcome>::empty());
        assert(changed.deep_view() =~= spec_changed_repos(all_repos, all_outcomes));
        assert(report.deep_view() =~= spec_compare_report(
            all_repos,
            all_outcomes,
            pair.head@,
            pair.base@,
        ));
    }
    (changed, report)
}

/// Every repository the filter keeps comes from the input list.
pub proof fn lemma_changed_repos_subset(repos: Seq<Seq<char>>, outcomes: Seq<ComparisonOutcome>)
    requires
        repos.len() == outcomes.len(),
    ensures
        forall|x: Seq<char>| #[trigger] spec_changed_repos(repos, outcomes).contains(x)
            ==> repos.contains(x),
    decreases repos.len(),
{
    if repos.len() > 0 {
        lemma_changed_repos_subset(repos.drop_first(), outcomes.drop_first());
        assert forall|x: Seq<char>| #[trigger] spec_changed_repos(repos, outcomes).contains(x)
            implies repos.contains(x) by {
            let changed = spec_changed_repos(repos, outcomes);
            let rest = spec_changed_repos(repos.drop_first(), outcomes.drop_first());
            let k = choose|k: int| 0 <= k < changed.len() && changed[k] == x;
            if spec_has_changes(outcomes[0]) {
                if k == 0 {
                    assert(repos[0] == x);
                } else {
                    assert(rest[k - 1] == x);
                    assert(rest.contains(x));
                    let j = choose|j: int|
                        0 <= j < repos.drop_first().len() && repos.drop_first()[j] == x;
                    assert(repos[j + 1] == x);
                }
            } else {
                assert(rest[k] == x);
                assert(rest.contains(x));
                let j = choose|j: int|
                    0 <= j < repos.drop_first().len() && repos.drop_first()[j] == x;
                assert(repos[j + 1] == x);
            }
        }
    }
}

/// A repository enters the working set exactly when its own comparison
/// succeeded with at least one commit of difference: nothing another
/// repository's outcome does can add it or remove it.
pub proof fn lemma_changed_repos_membership(
    repos: Seq<Seq<char>>,
    outcomes: Seq<ComparisonOutcome>,
    i: int,
)
    requires
        repos.len() == outcomes.len(),
        0 <= i < repos.len(),
        forall|j: int, k: int| 0 <= j < k < repos.len() ==> repos[j] != repos[k],
    ensures
        spec_changed_repos(repos, outcomes).contains(repos[i]) <==> spec_has_changes(outcomes[i]),
    decreases repos.len(),
{
    let changed = spec_changed_repos(repos, outcomes);
    let rest = spec_changed_repos(repos.drop_first(), outcomes.drop_first());
    if i == 0 {
        if spec_has_changes(outcomes[0]) {
            assert(changed[0] == repos[0]);
            assert(changed.contains(repos[0]));
        } else {
            lemma_changed_repos_subset(repos.drop_first(), outcomes.drop_first());
            if changed.contains(repos[0]) {
                assert(repos.drop_first().contains(repos[0]));
                let j = choose|j: int|
                    0 <= j < repos.drop_first().len() && repos.drop_first()[j] == repos[0];
                assert(repos[j + 1] == repos[0]);
                assert(false);
            }
        }
    } else {
        assert forall|j: int, k: int| 0 <= j < k < repos.drop_first().len()
            implies repos.drop_first()[j] != repos.drop_first()[k] by {
            assert(repos.drop_first()[j] == repos[j + 1]);
            assert(repos.drop_first()[k] == repos[k + 1]);
        }
        lemma_changed_repos_membership(repos.drop_first(), outcomes.drop_first(), i - 1);
        assert(repos.drop_first()[i - 1] == repos[i]);
        if spec_has_changes(outcomes[i]) {
            assert(rest.contains(repos[i]));
            let k = choose|k: int| 0 <= k < rest.len() && rest[k] == repos[i];
            if spec_has_changes(outcomes[0]) {
                assert(changed[k + 1] == repos[i]);
            } else {
                assert(changed[k] == repos[i]);
            }
            assert(changed.contains(repos[i]));
        } else {
            if changed.contains(repos[i]) {
                let k = choose|k: int| 0 <= k < changed.len() && changed[k] == repos[i];
                if spec_has_changes(outcomes[0]) {
                    if k == 0 {
                        assert(repos[0] == repos[i]);
                        assert(false);
                    } else {
                        assert(rest[k - 1] == repos[i]);
                        assert(rest.contains(repos[i]));
                        assert(false);
                    }
                } else {
                    assert(rest[k] == repos[i]);
                    assert(rest.contains(repos[i]));
                    assert(false);
                }
            }
        }
    }
}

/// A comparison failure, or any other outcome, for one repository never
/// changes whether a different repository enters the working set: each
/// repository's membership depends on its own outcome alone.
pub proof fn lemma_comparator_failure_isolated(
    repos: Seq<Seq<char>>,
    outcomes_one: Seq<ComparisonOutcome>,
    outcomes_two: Seq<ComparisonOutcome>,
    i: int,
)
    requires
        repos.len() == outcomes_one.len(),
        repos.len() == outcomes_two.len(),
        0 <= i < repos.len(),
        forall|j: int, k: int| 0 <= j < k < repos.len() ==> repos[j] != repos[k],
        outcomes_one[i] == outcomes_two[i],
    ensures
        spec_changed_repos(repos, outcomes_one).contains(repos[i]) <==> spec_changed_repos(
            repos,
            outcomes_two,
        ).contains(repos[i]),
{
    lemma_changed_repos_membership(repos, outcomes_one, i);
    lemma_changed_repos_membership(repos, outcomes_two, i);
}

/// A repository whose branches are in sync is left out of the working set
/// — so no list or create call is ever issued for it — and the run reports
/// the sync notice for it.
pub proof fn lemma_in_sync_repo_skipped(
    repos: Seq<Seq<char>>,
    outcomes: Seq<ComparisonOutcome>,
    head: Seq<char>,
    base: Seq<char>,
    i: int,
)
    requires
        repos.len() == outcomes.len(),
        0 <= i < repos.len(),
        forall|j: int, k: int| 0 <= j < k < repos.len() ==> repos[j] != repos[k],
        outcomes[i] matches ComparisonOutcome::Compared(c) && c.total_commits == 0,
    ensures
        !spec_changed_repos(repos, outcomes).contains(repos[i]),
        spec_compare_report(repos, outcomes, head, base).contains(
            spec_sync_notice(repos[i], head, base),
        ),
{
    lemma_changed_repos_membership(repos, outcomes, i);
    lemma_compare_report_has_sync_notice(repos, outcomes, head, base, i);
}

/// The comparison report carries the sync notice of every repository whose
/// branches are in sync.
proof fn lemma_compare_report_has_sync_notice(
    repos: Seq<Seq<char>>,
    outcomes: Seq<ComparisonOutcome>,
    head: Seq<char>,
    base: Seq<char>,
    i: int,
)
    requires
        repos.len() == outcomes.len(),
        0 <= i < repos.len(),
        outcomes[i] matches ComparisonOutcome::Compared(c) && c.total_commits == 0,
    ensures
        spec_compare_report(repos, outcomes, head, base).contains(
            spec_sync_notice(repos[i], head, base),
        ),
    decreases repos.len(),
{
    let report = spec_compare_report(repos, outcomes, head, base);
    let rest = spec_compare_report(repos.drop_first(), outcomes.drop_first(), head, base);
    if i == 0 {
        assert(report[0] == spec_sync_notice(repos[0], head, base));
        assert(report.contains(spec_sync_notice(repos[0], head, base)));
    } else {
        lemma_compare_report_has_sync_notice(
            repos.drop_first(),
            outcomes.drop_first(),
            head,
            base,
            i - 1,
        );
        assert(repos.drop_first()[i - 1] == repos[i]);
        let notice = spec_sync_notice(repos[i], head, base);
        let k = choose|k: int| 0 <= k < rest.len() && rest[k] == notice;
        let shift = report.len() - rest.len();
        assert(report[k + shift] == notice);
        assert(report.contains(notice));
    }
}

} // verus!
