use credprobe::retry::{more_tries_allowed, probe_script, MAX_TRIES, RETRY_LIMIT};
use credprobe::types::{FatalReason, Outcome, TryOutcome};

fn b(s: &str) -> Vec<u8> {
    s.as_bytes().to_vec()
}

fn reply(status: u16, body: &str) -> TryOutcome {
    TryOutcome::Reply { status, body: b(body) }
}

#[test]
fn budget_is_one_try_plus_the_retries() {
    assert_eq!(MAX_TRIES, RETRY_LIMIT + 1);
    assert!(more_tries_allowed(0));
    assert!(more_tries_allowed(MAX_TRIES - 1));
    assert!(!more_tries_allowed(MAX_TRIES));
}

#[test]
fn first_try_reply_is_a_success() {
    let script = vec![reply(200, "Welcome")];
    match probe_script(&script) {
        Outcome::Success { status, body } => {
            assert_eq!(status, 200);
            assert_eq!(body, b("Welcome"));
        }
        other => panic!("expected a success, got {:?}", other),
    }
}

#[test]
fn two_transient_failures_then_a_reply_succeed() {
    let script = vec![TryOutcome::NetworkError, TryOutcome::NetworkError, reply(200, "ok")];
    match probe_script(&script) {
        Outcome::Success { status, body } => {
            assert_eq!(status, 200);
            assert_eq!(body, b("ok"));
        }
        other => panic!("expected a success, got {:?}", other),
    }
}

#[test]
fn a_reply_on_the_last_retry_still_succeeds() {
    let script = vec![
        TryOutcome::NetworkError,
        TryOutcome::NetworkError,
        TryOutcome::NetworkError,
        reply(200, "late"),
    ];
    match probe_script(&script) {
        Outcome::Success { status, body } => {
            assert_eq!(status, 200);
            assert_eq!(body, b("late"));
        }
        other => panic!("expected a success, got {:?}", other),
    }
}

#[test]
fn a_reply_past_the_budget_is_never_seen() {
    let script = vec![
        TryOutcome::NetworkError,
        TryOutcome::NetworkError,
        TryOutcome::NetworkError,
        TryOutcome::NetworkError,
        reply(200, "too late"),
    ];
    match probe_script(&script) {
        Outcome::FatalFailure { reason } => {
            assert_eq!(reason, FatalReason::NetworkExhausted);
        }
        other => panic!("expected a fatal failure, got {:?}", other),
    }
}

#[test]
fn an_endpoint_that_never_answers_is_fatal() {
    let script: Vec<TryOutcome> = Vec::new();
    match probe_script(&script) {
        Outcome::FatalFailure { reason } => {
            assert_eq!(reason, FatalReason::NetworkExhausted);
        }
        other => panic!("expected a fatal failure, got {:?}", other),
    }
}

#[test]
fn a_non_200_reply_is_still_the_retry_loops_success() {
    // the retry policy takes the first reply whatever its status; judging
    // the status is the classifier's business
    let script = vec![TryOutcome::NetworkError, reply(503, "busy")];
    match probe_script(&script) {
        Outcome::Success { status, body } => {
            assert_eq!(status, 503);
            assert_eq!(body, b("busy"));
        }
        other => panic!("expected a success, got {:?}", other),
    }
}
