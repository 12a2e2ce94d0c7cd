//! The per-repository pull-request pipeline: an explicit state machine with
//! the terminal outcomes `Exists`, `Created` and `Failed`.
//!
//! Each repository of the working set runs one pipeline, independent of
//! every other repository's. The binary around this library performs the
//! remote calls that a state asks for — list open pull requests, create a
//! pull request, ask for reviews — and feeds each outcome back in as an
//! event; `advance` computes the next state and the report lines of the
//! step. Within one pipeline the steps are strictly sequential: the list
//! must complete before a create, the create before a review request.
use vstd::prelude::*;

use crate::messages::RemoteError;
use crate::messages::already_open_notice;
use crate::messages::create_failed_context;
use crate::messages::creating_notice;
use crate::messages::fetch_failed_context;
use crate::messages::generate_error;
use crate::messages::review_failed_context;
use crate::messages::review_ok_notice;
use crate::messages::spec_already_open_notice;
use crate::messages::spec_create_failed_context;
use crate::messages::spec_creating_notice;
use crate::messages::spec_error_text;
use crate::messages::spec_fetch_failed_context;
use crate::messages::spec_review_failed_context;
use crate::messages::spec_review_ok_notice;

verus! {

/// An open pull request as the pipeline sees it: its numeric id.
pub struct PullRequest {
    /// The pull request's number within its repository.
    pub number: u64,
}

/// The terminal outcome of one repository's pipeline.
#[derive(PartialEq, Eq, Structural, Clone, Copy, Debug)]
pub enum Outcome {
    /// An open pull request for the branch pair already existed.
    Exists,
    /// A pull request was created; review dispatch has completed.
    Created,
    /// A remote call failed before a pull request existed for the run.
    Failed,
}

/// The state of one repository's pipeline. Every non-terminal state names
/// the remote call whose outcome the pipeline waits for next.
#[derive(PartialEq, Eq, Structural, Clone, Copy, Debug)]
pub enum PipelineState {
    /// Waiting for the list of open pull requests matching the branch pair.
    ListOpenPrs,
    /// The list came back empty: waiting for the create call's outcome.
    CreatePr,
    /// The pull request was created: waiting for the review request's
    /// outcome.
    RequestReview {
        /// The number of the newly created pull request.
        pr_id: u64,
    },
    /// The pipeline has finished with a terminal outcome.
    Done {
        /// The terminal outcome.
        outcome: Outcome,
    },
}

/// The outcome of the remote call a pipeline state was waiting for.
pub enum PipelineEvent {
    /// The list call finished: the open pull requests matching the branch
    /// pair, or the call's failure.
    Listed(Result<Vec<PullRequest>, RemoteError>),
    /// The create call finished: the new pull request, or the call's
    /// failure.
    CreateDone(Result<PullRequest, RemoteError>),
    /// The review request finished.
    Reviewed(Result<(), RemoteError>),
}

/// Whether an event answers the call the state waits for.
pub open spec fn spec_event_matches(s: PipelineState, e: PipelineEvent) -> bool {
    match (s, e) {
        (PipelineState::ListOpenPrs, PipelineEvent::Listed(_)) => true,
        (PipelineState::CreatePr, PipelineEvent::CreateDone(_)) => true,
        (PipelineState::RequestReview { .. }, PipelineEvent::Reviewed(_)) => true,
        _ => false,
    }
}

/// The transition function of the pipeline. A state absorbs an event that
/// does not answer its pending call; `advance` rules those out.
pub open spec fn spec_step(s: PipelineState, e: PipelineEvent) -> PipelineState {
    match (s, e) {
        (PipelineState::ListOpenPrs, PipelineEvent::Listed(res)) => match res {
            Ok(prs) => if prs@.len() > 0 {
                PipelineState::Done { outcome: Outcome::Exists }
            } else {
                PipelineState::CreatePr
            },
            Err(_) => PipelineState::Done { outcome: Outcome::Failed },
        },
        (PipelineState::CreatePr, PipelineEvent::CreateDone(res)) => match res {
            Ok(pr) => PipelineState::RequestReview { pr_id: pr.number },
            Err(_) => PipelineState::Done { outcome: Outcome::Failed },
        },
        (PipelineState::RequestReview { .. }, PipelineEvent::Reviewed(_)) => PipelineState::Done {
            outcome: Outcome::Created,
        },
        _ => s,
    }
}

/// The report lines of one step, attributed to the repository.
pub open spec fn spec_step_report(
    repo: Seq<char>,
    s: PipelineState,
    e: PipelineEvent,
) -> Seq<Seq<char>> {
    match (s, e) {
        (PipelineState::ListOpenPrs, PipelineEvent::Listed(res)) => match res {
            Ok(prs) => if prs@.len() > 0 {
                seq![spec_already_open_notice(repo)]
            } else {
                seq![spec_creating_notice(repo)]
            },
            Err(err) => seq![spec_error_text(spec_fetch_failed_context(repo), err)],
        },
        (PipelineState::CreatePr, PipelineEvent::CreateDone(res)) => match res {
            Ok(_) => Seq::empty(),
            Err(err) => seq![spec_error_text(spec_create_failed_context(repo), err)],
        },
        (PipelineState::RequestReview { pr_id }, PipelineEvent::Reviewed(res)) => match res {
            Ok(_) => seq![spec_review_ok_notice(repo)],
            Err(err) => seq![
                spec_error_text(spec_review_failed_context(repo, pr_id as nat), err),
            ],
        },
        _ => Seq::empty(),
    }
}

/// Advances one repository's pipeline by the outcome of the remote call its
/// state was waiting for, returning the next state and the report lines of
/// the step.
pub fn advance(repo: &String, state: PipelineState, event: PipelineEvent) -> (r: (
    PipelineState,
    Vec<String>,
))
    requires
        spec_event_matches(state, event),
    ensures
        r.0 == spec_step(state, event),
        r.1.deep_view() == spec_step_report(repo@, state, event),
{
    let ghost s0 = state;
    let ghost e0 = event;
    let mut report: Vec<String> = Vec::new();
    let next: PipelineState = match (state, event) {
        (PipelineState::ListOpenPrs, PipelineEvent::Listed(res)) => match res {
            Ok(prs) => if prs.len() > 0 {
                report.push(already_open_notice(repo.as_str()));
                PipelineState::Done { outcome: Outcome::Exists }
            } else {
                report.push(creating_notice(repo.as_str()));
                PipelineState::CreatePr
            },
            Err(err) => {
                match generate_error(fetch_failed_context(repo.as_str()), &err) {
                    Ok(_) => {},
                    Err(line) => report.push(line),
                }
                PipelineState::Done { outcome: Outcome::Failed }
            },
        },
        (PipelineState::CreatePr, PipelineEvent::CreateDone(res)) => match res {
            Ok(pr) => PipelineState::RequestReview { pr_id: pr.number },
            Err(err) => {
                match generate_error(create_failed_context(repo.as_str()), &err) {
                    Ok(_) => {},
                    Err(line) => report.push(line),
                }
                PipelineState::Done { outcome: Outcome::Failed }
            },
        },
        (PipelineState::RequestReview { pr_id }, PipelineEvent::Reviewed(res)) => {
            match res {
                Ok(_) => report.push(review_ok_notice(repo.as_str())),
                Err(err) => {
                    match generate_error(review_failed_context(repo.as_str(), pr_id), &err) {
                        Ok(_) => {},
                        Err(line) => report.push(line),
                    }
                },
            }
            PipelineState::Done { outcome: Outcome::Created }
        },
        (s, _) => s,
    };
    proof {
        assert(report.deep_view() =~= spec_step_report(repo@, s0, e0));
    }
    (next, report)
}

/// Whether a sequence of events answers, in order, the calls the pipeline
/// asks for along its run from `s`.
pub open spec fn spec_events_wf(s: PipelineState, events: Seq<PipelineEvent>) -> bool
    decreases events.len(),
{
    events.len() == 0 || (spec_event_matches(s, events[0]) && spec_events_wf(
        spec_step(s, events[0]),
        events.drop_first(),
    ))
}

/// The states a pipeline visits from `s` under `events`, one per event.
pub open spec fn spec_trace(s: PipelineState, events: Seq<PipelineEvent>) -> Seq<PipelineState>
    decreases events.len(),
{
    if events.len() == 0 {
        Seq::empty()
    } else {
        seq![spec_step(s, events[0])] + spec_trace(spec_step(s, events[0]), events.drop_first())
    }
}

/// A trace visits one state per event.
pub proof fn lemma_trace_len(s: PipelineState, events: Seq<PipelineEvent>)
    ensures
        spec_trace(s, events).len() == events.len(),
    decreases events.len(),
{
    if events.len() > 0 {
        lemma_trace_len(spec_step(s, events[0]), events.drop_first());
    }
}

/// A finished pipeline stays finished: no event moves it out of its
/// terminal state.
pub proof fn lemma_done_is_terminal(outcome: Outcome, events: Seq<PipelineEvent>)
    ensures
        forall|j: int| 0 <= j < events.len()
            ==> spec_trace(PipelineState::Done { outcome }, events)[j] == (PipelineState::Done {
            outcome,
        }),
    decreases events.len(),
{
    if events.len() > 0 {
        lemma_done_is_terminal(outcome, events.drop_first());
        let done = PipelineState::Done { outcome };
        let trace = spec_trace(done, events);
        let rest = spec_trace(done, events.drop_first());
        lemma_trace_len(done, events.drop_first());
        assert forall|j: int| 0 <= j < events.len() implies trace[j] == done by {
            if j > 0 {
                assert(trace[j] == rest[j - 1]);
            }
        }
    }
}

/// The pipeline reaches its create step only by a list call that came back
/// empty: from any state, under the event that answers it, the next state
/// is `CreatePr` exactly when the state was `ListOpenPrs` and the listed
/// open pull requests were none.
pub proof fn lemma_create_only_after_empty_list(s: PipelineState, e: PipelineEvent)
    requires
        spec_event_matches(s, e),
    ensures
        spec_step(s, e) == PipelineState::CreatePr <==> s == PipelineState::ListOpenPrs
            && (e matches PipelineEvent::Listed(res) && res matches Ok(prs) && prs@.len() == 0),
{
}

/// The pipeline reaches its review step only by a create call that
/// succeeded, and it carries that pull request's number.
pub proof fn lemma_review_only_after_create_success(s: PipelineState, e: PipelineEvent)
    requires
        spec_event_matches(s, e),
    ensures
        (spec_step(s, e) matches PipelineState::RequestReview { pr_id }) <==> (s
            == PipelineState::CreatePr && (e matches PipelineEvent::CreateDone(res)
            && res matches Ok(pr) && pr.number == spec_step(s, e)->RequestReview_pr_id)),
{
}

/// A repository that already has an open pull request matching the branch
/// pair finishes at once with outcome `Exists`; its pipeline never reaches
/// the create step, so no create call is issued for it.
pub proof fn lemma_existing_pr_blocks_create(events: Seq<PipelineEvent>)
    requires
        spec_events_wf(PipelineState::ListOpenPrs, events),
        events.len() > 0,
        events[0] matches PipelineEvent::Listed(res) && res matches Ok(prs) && prs@.len() > 0,
    ensures
        forall|j: int| 0 <= j < events.len()
            ==> spec_trace(PipelineState::ListOpenPrs, events)[j] == (PipelineState::Done {
            outcome: Outcome::Exists,
        }),
{
    let done = PipelineState::Done { outcome: Outcome::Exists };
    let trace = spec_trace(PipelineState::ListOpenPrs, events);
    let rest = spec_trace(done, events.drop_first());
    lemma_done_is_terminal(Outcome::Exists, events.drop_first());
    lemma_trace_len(done, events.drop_first());
    assert forall|j: int| 0 <= j < events.len() implies trace[j] == done by {
        if j > 0 {
            assert(trace[j] == rest[j - 1]);
        }
    }
}

/// Once a pull request has been created, the review step completes the
/// pipeline with outcome `Created`, whatever the review call returned: a
/// review failure does not downgrade the creation.
pub proof fn lemma_review_completes_pipeline(pr_id: u64, events: Seq<PipelineEvent>)
    requires
        spec_events_wf(PipelineState::RequestReview { pr_id }, events),
        events.len() > 0,
    ensures
        forall|j: int| 0 <= j < events.len()
            ==> spec_trace(PipelineState::RequestReview { pr_id }, events)[j]
            == (PipelineState::Done { outcome: Outcome::Created }),
{
    let done = PipelineState::Done { outcome: Outcome::Created };
    let trace = spec_trace(PipelineState::RequestReview { pr_id }, events);
    let rest = spec_trace(done, events.drop_first());
    lemma_done_is_terminal(Outcome::Created, events.drop_first());
    lemma_trace_len(done, events.drop_first());
    assert forall|j: int| 0 <= j < events.len() implies trace[j] == done by {
        if j > 0 {
            assert(trace[j] == rest[j - 1]);
        }
    }
}

/// For a repository with changes and no open pull request, exactly one
/// create call is issued — the pipeline enters `CreatePr` once and never
/// again — and exactly one review request follows exactly when the create
/// call succeeded, however many accounts the review request names.
pub proof fn lemma_fresh_repo_creates_once(events: Seq<PipelineEvent>)
    requires
        spec_events_wf(PipelineState::ListOpenPrs, events),
        events.len() > 0,
        events[0] matches PipelineEvent::Listed(res) && res matches Ok(prs) && prs@.len() == 0,
    ensures
        spec_trace(PipelineState::ListOpenPrs, events)[0] == PipelineState::CreatePr,
        forall|j: int| 1 <= j < events.len()
            ==> spec_trace(PipelineState::ListOpenPrs, events)[j] != PipelineState::CreatePr,
        events.len() > 1 ==> ((spec_trace(PipelineState::ListOpenPrs, events)[1]
            matches PipelineState::RequestReview { .. }) <==> (events[1]
            matches PipelineEvent::CreateDone(res) && res matches Ok(_))),
        forall|j: int| 2 <= j < events.len() ==> !(#[trigger] spec_trace(
            PipelineState::ListOpenPrs,
            events,
        )[j] matches PipelineState::RequestReview { .. }),
{
    let trace = spec_trace(PipelineState::ListOpenPrs, events);
    let tail = events.drop_first();
    let rest = spec_trace(PipelineState::CreatePr, tail);
    lemma_trace_len(PipelineState::CreatePr, tail);
    assert(trace[0] == PipelineState::CreatePr);
    assert(spec_events_wf(PipelineState::CreatePr, tail));
    assert(forall|j: int| 1 <= j < events.len() ==> trace[j] == rest[j - 1]);
    if tail.len() > 0 {
        // The create call's outcome decides between the review step and a
        // terminal failure; either way the create step is never revisited.
        assert(spec_event_matches(PipelineState::CreatePr, tail[0]));
        let s1 = spec_step(PipelineState::CreatePr, tail[0]);
        let rest2 = spec_trace(s1, tail.drop_first());
        lemma_trace_len(s1, tail.drop_first());
        assert(spec_events_wf(s1, tail.drop_first()));
        assert(forall|j: int| 1 <= j < tail.len() ==> rest[j] == rest2[j - 1]);
        match tail[0] {
            PipelineEvent::CreateDone(res) => match res {
                Ok(pr) => {
                    assert(s1 == (PipelineState::RequestReview { pr_id: pr.number }));
                    if tail.drop_first().len() > 0 {
                        lemma_review_completes_pipeline(pr.number, tail.drop_first());
                    }
                },
                Err(_) => {
                    assert(s1 == (PipelineState::Done { outcome: Outcome::Failed }));
                    lemma_done_is_terminal(Outcome::Failed, tail.drop_first());
                },
            },
            _ => {
                assert(false);
            },
        }
    }
}

/// A create-call failure is terminal: when no create call succeeded in a
/// repository's run, its pipeline never reaches the review step, so no
/// review request is ever issued for it.
pub proof fn lemma_create_failure_blocks_review(events: Seq<PipelineEvent>)
    requires
        spec_events_wf(PipelineState::ListOpenPrs, events),
        forall|k: int| 0 <= k < events.len() ==> !(#[trigger] events[k]
            matches PipelineEvent::CreateDone(res) && res matches Ok(_)),
    ensures
        forall|j: int| 0 <= j < events.len() ==> !(#[trigger] spec_trace(
            PipelineState::ListOpenPrs,
            events,
        )[j] matches PipelineState::RequestReview { .. }),
{
    lemma_without_create_success_no_review(PipelineState::ListOpenPrs, events);
}

/// Generalisation over the start state: from any state short of the review
/// step, a run whose events hold no successful create outcome never visits
/// the review step.
proof fn lemma_without_create_success_no_review(s: PipelineState, events: Seq<PipelineEvent>)
    requires
        spec_events_wf(s, events),
        !(s matches PipelineState::RequestReview { .. }),
        forall|k: int| 0 <= k < events.len() ==> !(#[trigger] events[k]
            matches PipelineEvent::CreateDone(res) && res matches Ok(_)),
    ensures
        forall|j: int| 0 <= j < events.len() ==> !(#[trigger] spec_trace(s, events)[j]
            matches PipelineState::RequestReview { .. }),
    decreases events.len(),
{
    if events.len() > 0 {
        let s1 = spec_step(s, events[0]);
        let trace = spec_trace(s, events);
        let rest = spec_trace(s1, events.drop_first());
        lemma_trace_len(s1, events.drop_first());
        lemma_review_only_after_create_success(s, events[0]);
        assert(!(s1 matches PipelineState::RequestReview { .. }));
        assert forall|k: int| 0 <= k < events.drop_first().len()
            implies !(#[trigger] events.drop_first()[k] matches PipelineEvent::CreateDone(res)
            && res matches Ok(_)) by {
            assert(events.drop_first()[k] == events[k + 1]);
        }
        lemma_without_create_success_no_review(s1, events.drop_first());
        assert forall|j: int| 0 <= j < events.len() implies !(#[trigger] trace[j]
            matches PipelineState::RequestReview { .. }) by {
            if j > 0 {
                assert(trace[j] == rest[j - 1]);
            }
        }
    }
}

} // verus!
