use bountyhub_runner::recoil::{Error as RetryError, State};
use bountyhub_runner::client::{
    attempt_state, escape_default, gave_up, ClientError, ConnectionError, LogDestination, LogLine, PoolConfig,
    TimelineRequestStepOutcome, TimelineRequestStepState,
};

#[test]
fn step_state_is_done() {
    assert!(!TimelineRequestStepState::Running.is_done());
    assert!(TimelineRequestStepState::Succeeded.is_done());
    assert!(TimelineRequestStepState::Failed { outcome: TimelineRequestStepOutcome::Skipped }.is_done());
    assert!(TimelineRequestStepState::Cancelled.is_done());
    assert!(TimelineRequestStepState::Skipped.is_done());
}

#[test]
fn step_state_text() {
    assert_eq!(
        TimelineRequestStepState::Failed { outcome: TimelineRequestStepOutcome::Succeeded }.to_string(),
        "failed (outcome = succeeded)"
    );
    assert_eq!(TimelineRequestStepState::Running.to_string(), "running");
}

#[test]
fn escaping_matches_std() {
    for s in ["plain", "tab\tand\nnewline", "quote ' \" \\", "héllo ☃ \u{7f} \u{1F600}", ""] {
        assert_eq!(escape_default(s), s.escape_default().to_string(), "{s:?}");
    }
}

#[test]
fn log_lines_are_escaped() {
    let l = LogLine::stdout(3, "a\nb");
    assert_eq!(l.dst, LogDestination::Stdout);
    assert_eq!(l.step_index, 3);
    assert_eq!(l.line, "a\\nb");
    assert!(l.timestamp > 0);
    let l = LogLine::stderr(4, "x");
    assert_eq!(l.dst, LogDestination::Stderr);
    assert_eq!(LogLine::at(LogDestination::Stderr, 1, "é", 42).line, "\\u{e9}");
}

#[test]
fn status_classification() {
    assert_eq!(ClientError::from_status(500), ClientError::ServerError(500));
    assert_eq!(ClientError::from_status(503), ClientError::ServerError(503));
    assert_eq!(ClientError::from_status(401), ClientError::UnauthorizedError);
    assert_eq!(ClientError::from_status(403), ClientError::UnauthorizedError);
    assert_eq!(ClientError::from_status(409), ClientError::ConflictError);
    assert_eq!(ClientError::from_status(404), ClientError::ResponseError(404));
    assert!(ClientError::from_status(502).is_retryable());
    assert!(!ClientError::from_status(404).is_retryable());
    assert!(ClientError::ConnectionError(ConnectionError::TimeoutError).is_retryable());
    assert!(!ClientError::CancellationError.is_retryable());
    assert_eq!(ClientError::CancellationError.to_string(), "Operation cancelled");
}

#[test]
fn standard_pool() {
    let p = PoolConfig::standard(&"runner/0.1 (cli)".to_string());
    assert_eq!(p.default_client.timeout_read, 30);
    assert_eq!(p.long_poll_client.timeout_write, 10);
    assert_eq!(p.stream_client.timeout_read, 45 * 60);
    assert_eq!(p.assets_client.user_agent, "runner/0.1 (cli)");
}

#[test]
fn attempts_decide_done_retry_or_fail() {
    assert!(matches!(attempt_state::<u8>(None), State::Fail(ClientError::CancellationError)));
    assert!(matches!(attempt_state(Some(Ok(7u8))), State::Done(7)));
    assert!(matches!(attempt_state::<u8>(Some(Err(ClientError::ServerError(503)))), State::Retry(())));
    assert!(matches!(
        attempt_state::<u8>(Some(Err(ClientError::ConnectionError(ConnectionError::TimeoutError)))),
        State::Retry(())
    ));
    assert!(matches!(attempt_state::<u8>(Some(Err(ClientError::ConflictError))), State::Fail(ClientError::ConflictError)));
    assert_eq!(gave_up(RetryError::MaxRetriesReached), ClientError::ConnectionError(ConnectionError::MaxRetriesError));
    assert_eq!(gave_up(RetryError::Custom(ClientError::ConflictError)), ClientError::ConflictError);
}

#[test]
fn clients_in_use_wait_two_minutes_on_long_polls() {
    let pool = PoolConfig::in_use(&"runner".to_string());
    assert_eq!(pool.long_poll_client.timeout_write, 120);
    assert_eq!(pool.long_poll_client.timeout_read, 120);
    assert_eq!(pool.default_client.timeout_read, 30);
}
