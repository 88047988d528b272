use txio_cli::json::{Json, JsonNumber};
use txio_cli::rpc::{
    backoff_delay, is_retryable_status, posted_result, jitter, next_action, retry_after_or_backoff, rpc_outcome,
    AttemptEvent, RetryAction, RetryDelay, RetryFailure, MAX_ATTEMPTS, MAX_BACKOFF_MS,
};

#[test]
fn only_transient_http_statuses_are_retryable() {
    assert!(is_retryable_status(429));
    assert!(is_retryable_status(502));
    assert!(is_retryable_status(503));
    assert!(is_retryable_status(504));
    assert!(!is_retryable_status(400));
    assert!(!is_retryable_status(404));
    assert!(!is_retryable_status(500));
    assert!(!is_retryable_status(200));
}

#[test]
fn backoff_stays_within_bounds() {
    for attempt in 1..=MAX_ATTEMPTS + 5 {
        let delay = backoff_delay(attempt);
        assert!(delay <= MAX_BACKOFF_MS);
    }
}

#[test]
fn retry_after_seconds_are_respected_and_capped() {
    assert_eq!(retry_after_or_backoff(Some("2"), 1), RetryDelay::Exactly(2000));
    assert_eq!(retry_after_or_backoff(Some("9999"), 1), RetryDelay::Exactly(4000));
}

#[test]
fn backoff_doubles_up_to_the_ceiling() {
    assert_eq!(backoff_delay(0), 500);
    assert_eq!(backoff_delay(1), 500);
    assert_eq!(backoff_delay(2), 1000);
    assert_eq!(backoff_delay(3), 2000);
    assert_eq!(backoff_delay(u32::MAX), 2000);
    assert_eq!(retry_after_or_backoff(Some("Wed, 21 Oct 2015"), 2), RetryDelay::UpTo(1000));
    assert_eq!(retry_after_or_backoff(Some(" 0 "), 2), RetryDelay::Exactly(0));
    assert_eq!(retry_after_or_backoff(None, 1), RetryDelay::UpTo(500));
}

#[test]
fn jitter_mixes_the_seed() {
    assert_eq!(jitter(0), jitter(0));
    assert_ne!(jitter(0), jitter(1));
}

#[test]
fn retry_policy_decisions() {
    let answered = |status: u16| AttemptEvent::Answered { status, retry_after: None };
    assert_eq!(next_action(1, &answered(200)), RetryAction::ReadBody);
    assert_eq!(next_action(1, &AttemptEvent::BodyRead), RetryAction::Deliver);
    assert_eq!(
        next_action(1, &answered(429)),
        RetryAction::RetryAfter(RetryDelay::UpTo(500))
    );
    assert_eq!(
        next_action(3, &answered(429)),
        RetryAction::Fail(RetryFailure::Exhausted { status: 429, attempts: 3 })
    );
    assert_eq!(next_action(1, &answered(404)), RetryAction::Fail(RetryFailure::Status(404)));
    assert_eq!(
        next_action(
            1,
            &AttemptEvent::Answered { status: 503, retry_after: Some("0".to_string()) }
        ),
        RetryAction::RetryAfter(RetryDelay::Exactly(0))
    );
    assert_eq!(
        next_action(2, &AttemptEvent::TransportFailed { transient: true }),
        RetryAction::RetryAfter(RetryDelay::UpTo(1000))
    );
    assert_eq!(
        next_action(1, &AttemptEvent::TransportFailed { transient: false }),
        RetryAction::Fail(RetryFailure::Transport)
    );
    assert_eq!(
        next_action(1, &AttemptEvent::BodyFailed { truncated: false }),
        RetryAction::Fail(RetryFailure::Decode)
    );
    assert_eq!(
        next_action(3, &AttemptEvent::BodyFailed { truncated: true }),
        RetryAction::Fail(RetryFailure::Decode)
    );
}

fn obj(members: Vec<(&str, Json)>) -> Json {
    Json::Object(members.into_iter().map(|(k, v)| (k.to_string(), v)).collect())
}

#[test]
fn rpc_answers_are_read() {
    let ok = obj(vec![("result", Json::String("ok".to_string()))]);
    match rpc_outcome(&ok, true) {
        Ok(Some(Json::String(s))) => assert_eq!(s, "ok"),
        other => panic!("unexpected {other:?}"),
    }
    assert!(matches!(rpc_outcome(&obj(vec![]), true), Ok(None)));
    let err = obj(vec![(
        "error",
        obj(vec![
            ("message", Json::String("boom".to_string())),
            ("code", Json::Number(JsonNumber::NegInt(-32000))),
        ]),
    )]);
    let e = rpc_outcome(&err, true).unwrap_err();
    assert_eq!(e.describe(), "boom (Code: -32000)");
    // without error reporting the error member is ignored
    assert!(matches!(rpc_outcome(&err, false), Ok(None)));
    let bare = obj(vec![("error", Json::Null)]);
    assert_eq!(rpc_outcome(&bare, true).unwrap_err().describe(), "Unknown RPC Error (Code: 0)");
}

#[test]
fn posted_calls_hand_back_the_result_member() {
    let body = obj(vec![
        ("jsonrpc", Json::String("2.0".to_string())),
        ("id", Json::Number(JsonNumber::PosInt(1))),
        ("result", Json::String("ok".to_string())),
    ]);
    match posted_result(&body) {
        Some(Json::String(s)) => assert_eq!(s, "ok"),
        other => panic!("unexpected {other:?}"),
    }
    assert!(posted_result(&obj(vec![])).is_none());
}
