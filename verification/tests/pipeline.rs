use release_prs::messages::RemoteError;
use release_prs::pipeline::Outcome;
use release_prs::pipeline::PipelineEvent;
use release_prs::pipeline::PipelineState;
use release_prs::pipeline::PullRequest;
use release_prs::pipeline::advance;

#[test]
fn existing_pr_finishes_without_create() {
    let repo = "svc".to_string();
    let listed = PipelineEvent::Listed(Ok(vec![PullRequest { number: 41 }]));
    let (state, report) = advance(&repo, PipelineState::ListOpenPrs, listed);
    assert_eq!(state, PipelineState::Done { outcome: Outcome::Exists });
    assert_eq!(report, vec!["svc already has an opened Pull request".to_string()]);
}

#[test]
fn empty_list_moves_to_create() {
    let repo = "svc".to_string();
    let listed = PipelineEvent::Listed(Ok(vec![]));
    let (state, report) = advance(&repo, PipelineState::ListOpenPrs, listed);
    assert_eq!(state, PipelineState::CreatePr);
    assert_eq!(report, vec!["Creating Pull request for svc...".to_string()]);
}

#[test]
fn list_failure_is_terminal() {
    let repo = "svc".to_string();
    let listed = PipelineEvent::Listed(Err(RemoteError { message: None }));
    let (state, report) = advance(&repo, PipelineState::ListOpenPrs, listed);
    assert_eq!(state, PipelineState::Done { outcome: Outcome::Failed });
    assert_eq!(report, vec!["Failed to fetch svc's pull requests.".to_string()]);
}

#[test]
fn created_pr_moves_to_review() {
    let repo = "svc".to_string();
    let created = PipelineEvent::CreateDone(Ok(PullRequest { number: 7 }));
    let (state, report) = advance(&repo, PipelineState::CreatePr, created);
    assert_eq!(state, PipelineState::RequestReview { pr_id: 7 });
    assert!(report.is_empty());
}

#[test]
fn create_failure_is_terminal() {
    let repo = "svc".to_string();
    let created = PipelineEvent::CreateDone(Err(RemoteError {
        message: Some("Validation Failed".to_string()),
    }));
    let (state, report) = advance(&repo, PipelineState::CreatePr, created);
    assert_eq!(state, PipelineState::Done { outcome: Outcome::Failed });
    assert_eq!(
        report,
        vec!["Failed creating a Pull request in svc: Validation Failed".to_string()]
    );
}

#[test]
fn review_success_completes_pipeline() {
    let repo = "svc".to_string();
    let reviewed = PipelineEvent::Reviewed(Ok(()));
    let (state, report) = advance(&repo, PipelineState::RequestReview { pr_id: 7 }, reviewed);
    assert_eq!(state, PipelineState::Done { outcome: Outcome::Created });
    assert_eq!(report, vec!["Review requested for svc".to_string()]);
}

#[test]
fn review_failure_reports_but_keeps_creation() {
    let repo = "svc".to_string();
    let reviewed = PipelineEvent::Reviewed(Err(RemoteError { message: None }));
    let (state, report) = advance(
        &repo,
        PipelineState::RequestReview { pr_id: 12345 },
        reviewed,
    );
    assert_eq!(state, PipelineState::Done { outcome: Outcome::Created });
    assert_eq!(
        report,
        vec!["Failed to request review for svc's Pull request with ID:12345".to_string()]
    );
}

#[test]
fn full_run_for_a_fresh_repository() {
    let repo = "svc".to_string();
    let (state, _) = advance(
        &repo,
        PipelineState::ListOpenPrs,
        PipelineEvent::Listed(Ok(vec![])),
    );
    let (state, _) = advance(
        &repo,
        state,
        PipelineEvent::CreateDone(Ok(PullRequest { number: 2 })),
    );
    assert_eq!(state, PipelineState::RequestReview { pr_id: 2 });
    let (state, report) = advance(&repo, state, PipelineEvent::Reviewed(Ok(())));
    assert_eq!(state, PipelineState::Done { outcome: Outcome::Created });
    assert_eq!(report, vec!["Review requested for svc".to_string()]);
}
