use release_prs::compare::ComparisonOutcome;
use release_prs::compare::ComparisonResult;
use release_prs::config::Args;
use release_prs::config::BranchPair;
use release_prs::compare::get_repos_with_changes;
use release_prs::messages::RemoteError;
use release_prs::messages::generate_error;

fn pair(base: &str, head: &str) -> BranchPair {
    BranchPair { base: base.to_string(), head: head.to_string() }
}

#[test]
fn one_changed_one_in_sync() {
    let repos = vec!["svc-a".to_string(), "svc-b".to_string()];
    let outcomes = vec![
        ComparisonOutcome::Compared(ComparisonResult { total_commits: 3 }),
        ComparisonOutcome::Compared(ComparisonResult { total_commits: 0 }),
    ];
    let (changed, report) = get_repos_with_changes(&repos, &outcomes, &pair("main", "release"));
    assert_eq!(changed, vec!["svc-a".to_string()]);
    assert_eq!(
        report,
        vec!["svc-b's release and main branches are in sync, skipping.".to_string()]
    );
}

#[test]
fn all_in_sync_keeps_nothing() {
    let repos = vec!["one".to_string(), "two".to_string()];
    let outcomes = vec![
        ComparisonOutcome::Compared(ComparisonResult { total_commits: 0 }),
        ComparisonOutcome::Compared(ComparisonResult { total_commits: 0 }),
    ];
    let (changed, report) = get_repos_with_changes(&repos, &outcomes, &pair("main", "dev"));
    assert!(changed.is_empty());
    assert_eq!(report.len(), 2);
    assert_eq!(report[0], "one's dev and main branches are in sync, skipping.");
    assert_eq!(report[1], "two's dev and main branches are in sync, skipping.");
}

#[test]
fn comparison_failure_is_isolated() {
    let repos = vec!["bad".to_string(), "good".to_string()];
    let outcomes = vec![
        ComparisonOutcome::CallFailed(RemoteError { message: None }),
        ComparisonOutcome::Compared(ComparisonResult { total_commits: 1 }),
    ];
    let (changed, report) = get_repos_with_changes(&repos, &outcomes, &pair("main", "release"));
    assert_eq!(changed, vec!["good".to_string()]);
    assert_eq!(
        report,
        vec!["Error comparing bad's release and main branches".to_string()]
    );
}

#[test]
fn comparison_failure_keeps_remote_message() {
    let repos = vec!["svc".to_string()];
    let outcomes = vec![ComparisonOutcome::CallFailed(RemoteError {
        message: Some("Not Found".to_string()),
    })];
    let (changed, report) = get_repos_with_changes(&repos, &outcomes, &pair("main", "release"));
    assert!(changed.is_empty());
    assert_eq!(
        report,
        vec!["Error comparing svc's release and main branches: Not Found".to_string()]
    );
}

#[test]
fn empty_input_yields_nothing() {
    let repos: Vec<String> = vec![];
    let outcomes: Vec<ComparisonOutcome> = vec![];
    let (changed, report) = get_repos_with_changes(&repos, &outcomes, &pair("main", "release"));
    assert!(changed.is_empty());
    assert!(report.is_empty());
}

#[test]
fn generate_error_prefers_structured_message() {
    let e = RemoteError { message: Some("rate limited".to_string()) };
    let r = generate_error("context".to_string(), &e);
    assert_eq!(r, Err("context: rate limited".to_string()));
}

#[test]
fn generate_error_without_cause_keeps_context() {
    let e = RemoteError { message: None };
    let r = generate_error("context".to_string(), &e);
    assert_eq!(r, Err("context".to_string()));
}

#[test]
fn args_need_a_repository() {
    let empty = Args {
        base: "main".to_string(),
        head: "release".to_string(),
        owner: "acme".to_string(),
        repo: vec![],
        reviewer: vec![],
    };
    assert!(!empty.is_valid());
    let one = Args {
        base: "main".to_string(),
        head: "release".to_string(),
        owner: "acme".to_string(),
        repo: vec!["svc".to_string()],
        reviewer: vec![],
    };
    assert!(one.is_valid());
}
