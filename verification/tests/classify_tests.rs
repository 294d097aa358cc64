use credprobe::classify::{contains_bytes, judge_response, Decision, EXPECTED_STATUS};
use credprobe::types::{FatalReason, Outcome};

fn b(s: &str) -> Vec<u8> {
    s.as_bytes().to_vec()
}

#[test]
fn contains_finds_inner_substring() {
    assert!(contains_bytes(&b("Warning: Invalid username or password"), &b("Invalid username")));
}

#[test]
fn contains_finds_substring_at_start() {
    assert!(contains_bytes(&b("Incorrect password entered"), &b("Incorrect password")));
}

#[test]
fn contains_finds_substring_at_end() {
    assert!(contains_bytes(&b("error: Incorrect password"), &b("Incorrect password")));
}

#[test]
fn contains_rejects_absent_substring() {
    assert!(!contains_bytes(&b("Welcome back, admin"), &b("Invalid username")));
}

#[test]
fn contains_rejects_partial_overlap() {
    assert!(!contains_bytes(&b("Invalid user"), &b("Invalid username")));
}

#[test]
fn contains_rejects_needle_longer_than_hay() {
    assert!(!contains_bytes(&b("no"), &b("Incorrect password")));
}

#[test]
fn contains_accepts_equal_strings() {
    assert!(contains_bytes(&b("Invalid username"), &b("Invalid username")));
}

#[test]
fn contains_accepts_empty_needle() {
    assert!(contains_bytes(&b("anything"), &b("")));
    assert!(contains_bytes(&b(""), &b("")));
}

#[test]
fn judge_confirms_body_without_marker() {
    let outcome = Outcome::Success { status: EXPECTED_STATUS, body: b("Welcome back, admin") };
    assert_eq!(judge_response(&outcome, &b("Invalid username")), Decision::Positive);
}

#[test]
fn judge_rejects_body_with_marker() {
    let outcome = Outcome::Success { status: EXPECTED_STATUS, body: b("Invalid username") };
    assert_eq!(judge_response(&outcome, &b("Invalid username")), Decision::Negative);
}

#[test]
fn judge_aborts_on_unexpected_status() {
    let outcome = Outcome::Success { status: 500, body: b("Internal Server Error") };
    assert_eq!(
        judge_response(&outcome, &b("Invalid username")),
        Decision::Abort { reason: FatalReason::UnexpectedStatus { status: 500 } }
    );
}

#[test]
fn judge_aborts_on_fatal_failure() {
    let outcome = Outcome::FatalFailure { reason: FatalReason::NetworkExhausted };
    assert_eq!(
        judge_response(&outcome, &b("Invalid username")),
        Decision::Abort { reason: FatalReason::NetworkExhausted }
    );
}

#[test]
fn judge_aborts_on_unresolved_transient_failure() {
    let outcome = Outcome::TransientFailure;
    assert_eq!(
        judge_response(&outcome, &b("Invalid username")),
        Decision::Abort { reason: FatalReason::NetworkExhausted }
    );
}
