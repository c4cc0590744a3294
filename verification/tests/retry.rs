//! Which failures are retried, and when.

use daft_backends::error::OssError;
use daft_backends::retry::{
    calculate_retry_delay, is_not_found_error, is_passing_message, is_retryable_error,
    RetryDecision, RetryState, BASE_DELAY_MS, LAST_BACKOFF_ATTEMPT, MAX_DELAY_MS,
};

fn api(code: &str) -> OssError {
    OssError::ApiError { code: code.to_string(), message: "no".to_string() }
}

fn status(status: u16) -> OssError {
    OssError::StatusError { status, message: "no".to_string() }
}

fn other(message: &str) -> OssError {
    OssError::Other(message.to_string())
}

#[test]
fn retryable_errors() {
    assert!(is_retryable_error(&OssError::ReqwestError("reset".to_string())));
    assert!(is_retryable_error(&OssError::IoError("reset".to_string())));
    for code in ["InternalError", "ServiceUnavailable", "RequestTimeTooSkewed", "Throttling"] {
        assert!(is_retryable_error(&api(code)), "{code}");
    }
    for code in ["NoSuchKey", "AccessDenied", "throttling", ""] {
        assert!(!is_retryable_error(&api(code)), "{code}");
    }
    for number in [500, 503, 599, 429, 408, 65535] {
        assert!(is_retryable_error(&status(number)), "{number}");
    }
    for number in [499, 404, 400, 200, 0] {
        assert!(!is_retryable_error(&status(number)), "{number}");
    }
    assert!(!is_retryable_error(&OssError::Malformed("timeout".to_string())));
}

#[test]
fn retryable_messages() {
    for message in ["Connection TIMEOUT", "a Broken Pipe", "Throttled", "THROTTLING", "timeout"] {
        assert!(is_retryable_error(&other(message)), "{message}");
    }
    for message in ["time out", "broken  pipe", "", "timeou"] {
        assert!(!is_retryable_error(&other(message)), "{message}");
    }
    assert!(is_passing_message("a timeout"));
    assert!(!is_passing_message("a TIMEOUT"));
}

#[test]
fn missing_objects() {
    assert!(is_not_found_error(&api("NoSuchKey")));
    assert!(is_not_found_error(&api("NoSuchBucket")));
    assert!(!is_not_found_error(&api("NoSuchUpload")));
    assert!(is_not_found_error(&status(404)));
    assert!(!is_not_found_error(&status(410)));
    assert!(!is_not_found_error(&other("NoSuchKey")));
    for error in [api("NoSuchKey"), api("NoSuchBucket"), status(404)] {
        assert!(!is_retryable_error(&error));
    }
}

#[test]
fn delays() {
    let delays: Vec<u64> = (0..8).map(calculate_retry_delay).collect();
    assert_eq!(delays, vec![200, 400, 800, 1600, 3200, 6400, 10000, 10000]);
    assert_eq!(calculate_retry_delay(LAST_BACKOFF_ATTEMPT), MAX_DELAY_MS);
    assert_eq!(calculate_retry_delay(0), 2 * BASE_DELAY_MS);
}

#[test]
fn retries_until_success() {
    let mut state = RetryState::new(3);
    match state.step::<u8>(Err(status(503))) {
        RetryDecision::RetryAfter { delay_ms, error } => {
            assert_eq!(delay_ms, 200);
            assert!(matches!(error, OssError::StatusError { status: 503, .. }));
        }
        decision => panic!("unexpected decision {decision:?}"),
    }
    assert_eq!(state.current_attempt(), 1);
    assert!(matches!(state.step::<u8>(Err(status(503))), RetryDecision::RetryAfter { delay_ms: 400, .. }));
    assert!(matches!(state.step(Ok(7)), RetryDecision::Return(Ok(7))));
    assert_eq!(state.current_attempt(), 2);
}

#[test]
fn attempts_are_bounded() {
    let mut state = RetryState::new(2);
    let mut attempts = 0;
    loop {
        attempts += 1;
        match state.step::<()>(Err(status(500))) {
            RetryDecision::RetryAfter { .. } => {}
            RetryDecision::Return(result) => {
                assert!(matches!(result, Err(OssError::StatusError { status: 500, .. })));
                break;
            }
        }
    }
    assert_eq!(attempts, 3);
}

#[test]
fn no_retry_without_cause() {
    let mut state = RetryState::new(5);
    assert!(matches!(state.step::<()>(Err(api("NoSuchKey"))), RetryDecision::Return(Err(_))));
    assert_eq!(state.current_attempt(), 0);
    let mut state = RetryState::new(0);
    assert!(matches!(state.step::<()>(Err(status(500))), RetryDecision::Return(Err(_))));
    assert_eq!(state.current_attempt(), 0);
}

#[test]
fn delays_that_do_not_fit() {
    let mut state = RetryState::new(100);
    for _ in 0..57 {
        assert!(matches!(state.try_step::<()>(Err(status(500))), Ok(RetryDecision::RetryAfter { .. })));
    }
    assert_eq!(state.current_attempt(), 57);
    assert!(matches!(
        state.try_step::<()>(Err(status(500))),
        Err(Err(OssError::StatusError { status: 500, .. }))
    ));
    assert_eq!(state.current_attempt(), 57);
    assert!(matches!(state.try_step(Ok(1)), Ok(RetryDecision::Return(Ok(1)))));
    assert!(matches!(state.step(Ok(2)), RetryDecision::Return(Ok(2))));
}
