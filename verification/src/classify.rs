//! The response classifier. A response is judged by differential content:
//! a phase supplies the signature substring of the negative answer
//! ("identity unknown" in phase one, "credential incorrect" in phase two),
//! and a body that does not contain that signature is read as positive.
//! A status other than 200, and a network failure that retries did not
//! resolve, abort the whole run rather than being classified.

use crate::types::{FatalReason, Outcome, OutcomeView};
use vstd::prelude::*;

verus! {

/// The only status the endpoint is assumed to answer with; anything else
/// means the probe itself is broken and the run must stop.
pub const EXPECTED_STATUS: u16 = 200;

/// The needle occurs in the haystack starting at position `i`.
pub open spec fn matches_at(hay: Seq<u8>, needle: Seq<u8>, i: int) -> bool {
    &&& 0 <= i
    &&& i + needle.len() <= hay.len()
    &&& hay.subrange(i, i + needle.len() as int) == needle
}

/// The needle occurs somewhere in the haystack.
pub open spec fn contains_marker(hay: Seq<u8>, needle: Seq<u8>) -> bool {
    exists|i: int| matches_at(hay, needle, i)
}

/// Compare the needle against the bytes of the haystack starting at `i`.
fn match_at(hay: &Vec<u8>, needle: &Vec<u8>, i: usize) -> (r: bool)
    requires
        i + needle@.len() <= hay@.len(),
    ensures
        r == matches_at(hay@, needle@, i as int),
{
    let hay_len = hay.len();
    let mut j: usize = 0;
    while j < needle.len()
        invariant
            i + needle@.len() <= hay@.len(),
            hay@.len() == hay_len,
            j <= needle@.len(),
            forall|m: int| 0 <= m < j ==> hay@[i + m] == needle@[m],
        decreases needle@.len() - j,
    {
        if hay[i + j] != needle[j] {
            proof {
                assert(!matches_at(hay@, needle@, i as int)) by {
                    if matches_at(hay@, needle@, i as int) {
                        assert(hay@.subrange(i as int, i + needle@.len() as int)[j as int]
                            == hay@[i + j]);
                    }
                }
            }
            return false;
        }
        j = j + 1;
    }
    proof {
        assert(hay@.subrange(i as int, i + needle@.len() as int) =~= needle@);
    }
    true
}

/// Substring search: does `hay` contain `needle` as a contiguous run of
/// bytes anywhere? The empty needle is contained in every haystack.
pub fn contains_bytes(hay: &Vec<u8>, needle: &Vec<u8>) -> (r: bool)
    ensures
        r == contains_marker(hay@, needle@),
{
    if needle.len() > hay.len() {
        return false;
    }
    if needle.len() == 0 {
        proof {
            assert(hay@.subrange(0, 0) =~= needle@);
            assert(matches_at(hay@, needle@, 0));
        }
        return true;
    }
    let last_start = hay.len() - needle.len();
    let mut i: usize = 0;
    while i <= last_start
        invariant
            1 <= needle@.len() <= hay@.len(),
            hay@.len() <= usize::MAX,
            last_start == hay@.len() - needle@.len(),
            i <= last_start + 1,
            forall|k: int| 0 <= k < i ==> !matches_at(hay@, needle@, k),
        decreases last_start - i + 1,
    {
        if match_at(hay, needle, i) {
            return true;
        }
        i = i + 1;
    }
    false
}

/// What the orchestrator does with one probe outcome: record a positive,
/// pass over a negative, or abort the run.
#[derive(Clone, Copy, Debug, PartialEq, Eq, Structural)]
pub enum Decision {
    Positive,
    Negative,
    Abort { reason: FatalReason },
}

/// The classification rule. A 200 reply whose body lacks the negative
/// signature is positive; one that carries it is negative. Any other
/// status aborts with that status. A fatal failure propagates its reason;
/// a failure still marked transient counts as an unresolved network
/// failure, which also aborts.
pub open spec fn decision_of(outcome: OutcomeView, marker: Seq<u8>) -> Decision {
    match outcome {
        OutcomeView::Success { status, body } => {
            if status != EXPECTED_STATUS {
                Decision::Abort { reason: FatalReason::UnexpectedStatus { status } }
            } else if !contains_marker(body, marker) {
                Decision::Positive
            } else {
                Decision::Negative
            }
        },
        OutcomeView::TransientFailure => Decision::Abort {
            reason: FatalReason::NetworkExhausted,
        },
        OutcomeView::FatalFailure { reason } => Decision::Abort { reason },
    }
}

/// Classify one final outcome against the phase's negative signature.
pub fn judge_response(outcome: &Outcome, marker: &Vec<u8>) -> (d: Decision)
    ensures
        d == decision_of(outcome@, marker@),
{
    match outcome {
        Outcome::Success { status, body } => {
            if *status != EXPECTED_STATUS {
                Decision::Abort { reason: FatalReason::UnexpectedStatus { status: *status } }
            } else if !contains_bytes(body, marker) {
                Decision::Positive
            } else {
                Decision::Negative
            }
        },
        Outcome::TransientFailure => Decision::Abort {
            reason: FatalReason::NetworkExhausted,
        },
        Outcome::FatalFailure { reason } => Decision::Abort { reason: *reason },
    }
}

} // verus!
