use bountyhub_runner::client::{ClientError, ConnectionError};
use bountyhub_runner::runner::{after_poll, PollAction};
use bountyhub_runner::ctx::{background, CtxTree};
use bountyhub_runner::runner::JobTable;

#[test]
fn cancelling_a_job_cancels_only_its_context() {
    let mut tree = CtxTree::new();
    let root = background(&mut tree);
    let mut table = JobTable::new();
    let a = root.with_cancel(&mut tree);
    let b = root.with_cancel(&mut tree);
    table.start(10, a);
    table.start(20, b);
    assert!(table.cancel(20, &mut tree));
    assert!(b.is_done(&tree));
    assert!(!a.is_done(&tree));
    assert!(!table.cancel(30, &mut tree));
    assert!(!a.is_done(&tree));
}

#[test]
fn finished_jobs_are_forgotten() {
    let mut tree = CtxTree::new();
    let root = background(&mut tree);
    let mut table = JobTable::new();
    for id in 0..4u128 {
        let c = root.with_cancel(&mut tree);
        table.start(id, c);
    }
    assert_eq!(table.remove_finished(&vec![true, false, true, false]), 2);
    assert_eq!(table.len(), 2);
    assert!(!table.cancel(0, &mut tree));
    assert!(table.cancel(1, &mut tree));
}

#[test]
fn poll_failures_are_paused_only_when_retryable() {
    assert_eq!(after_poll(None), PollAction::Deliver);
    assert_eq!(after_poll(Some(ClientError::ServerError(503))), PollAction::PauseAndRetry);
    assert_eq!(after_poll(Some(ClientError::ConnectionError(ConnectionError::TimeoutError))), PollAction::PauseAndRetry);
    assert_eq!(after_poll(Some(ClientError::UnauthorizedError)), PollAction::Retry);
    assert_eq!(after_poll(Some(ClientError::ResponseError(404))), PollAction::Retry);
}
