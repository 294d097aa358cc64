//! The retry policy. Each attempt is issued once and, on network-level
//! failure, reissued up to `RETRY_LIMIT` more times with a fixed delay
//! between tries; the first reply, whatever its status, is the attempt's
//! success outcome, and spending the whole budget without a reply is fatal.
//! A script — the per-try outcomes in the order the tries would be issued —
//! stands for the network's behaviour, so the policy is a function from
//! script to final outcome.

use crate::types::{clone_bytes, FatalReason, Outcome, OutcomeView, TryOutcome, TryOutcomeView};
use vstd::prelude::*;

verus! {

/// How many times a transiently failed request is reissued.
pub const RETRY_LIMIT: usize = 3;

/// The most requests one attempt can put on the wire: the first try plus
/// the retries.
pub const MAX_TRIES: usize = 4;

/// What the network answers to try number `i` of a script: the scripted
/// outcome, and a network failure for every try past the script's end (a
/// short script stands for an endpoint that stops answering).
pub open spec fn try_at(script: Seq<TryOutcomeView>, i: int) -> TryOutcomeView {
    if 0 <= i < script.len() {
        script[i]
    } else {
        TryOutcomeView::NetworkError
    }
}

/// The outcome of the retry loop once tries `0 .. i` have all failed: the
/// first reply among the remaining tries within the budget, else fatal.
pub open spec fn probe_from(script: Seq<TryOutcomeView>, i: int) -> OutcomeView
    decreases MAX_TRIES - i,
{
    if i >= MAX_TRIES {
        OutcomeView::FatalFailure { reason: FatalReason::NetworkExhausted }
    } else {
        match try_at(script, i) {
            TryOutcomeView::Reply { status, body } => OutcomeView::Success { status, body },
            TryOutcomeView::NetworkError => probe_from(script, i + 1),
        }
    }
}

/// The final outcome the retry policy produces for a script: the first
/// reply within the try budget, or a fatal failure when every allowed try
/// fails at the network level.
pub open spec fn probe_outcome(script: Seq<TryOutcomeView>) -> OutcomeView {
    probe_from(script, 0)
}

/// The per-try decision the retry loop runs on: may another request be
/// issued after `tries_done` tries have already failed?
pub fn more_tries_allowed(tries_done: usize) -> (r: bool)
    ensures
        r == (tries_done < MAX_TRIES),
{
    tries_done < MAX_TRIES
}

/// Run the retry policy over a script of per-try outcomes.
pub fn probe_script(script: &Vec<TryOutcome>) -> (out: Outcome)
    ensures
        out@ == probe_outcome(crate::types::script_view(script@)),
{
    let ghost v = crate::types::script_view(script@);
    let mut i: usize = 0;
    while i < MAX_TRIES
        invariant
            v == crate::types::script_view(script@),
            i <= MAX_TRIES,
            probe_outcome(v) == probe_from(v, i as int),
            forall|j: int| 0 <= j < i ==> try_at(v, j) is NetworkError,
        decreases MAX_TRIES - i,
    {
        if i < script.len() {
            match &script[i] {
                TryOutcome::Reply { status, body } => {
                    let out = Outcome::Success { status: *status, body: clone_bytes(body) };
                    proof {
                        assert(try_at(v, i as int) == script[i as int]@);
                        assert(out@ =~= probe_from(v, i as int));
                    }
                    return out;
                },
                TryOutcome::NetworkError => {
                    proof {
                        assert(try_at(v, i as int) == script[i as int]@);
                    }
                },
            }
        } else {
            proof {
                assert(try_at(v, i as int) is NetworkError);
            }
        }
        i = i + 1;
    }
    Outcome::FatalFailure { reason: FatalReason::NetworkExhausted }
}

/// The retry law, success side: when the first `k` tries fail at the
/// network level, `k` is within the try budget, and try `k` gets a reply,
/// the attempt's outcome is a success carrying exactly that reply.
pub proof fn lemma_retry_reaches_reply(
    script: Seq<TryOutcomeView>,
    k: int,
    status: u16,
    body: Seq<u8>,
)
    requires
        0 <= k < MAX_TRIES,
        forall|j: int| 0 <= j < k ==> try_at(script, j) is NetworkError,
        try_at(script, k) == (TryOutcomeView::Reply { status, body }),
    ensures
        probe_outcome(script) == (OutcomeView::Success { status, body }),
{
    lemma_probe_from_reaches_reply(script, 0, k, status, body);
}

proof fn lemma_probe_from_reaches_reply(
    script: Seq<TryOutcomeView>,
    i: int,
    k: int,
    status: u16,
    body: Seq<u8>,
)
    requires
        0 <= i <= k < MAX_TRIES,
        forall|j: int| i <= j < k ==> try_at(script, j) is NetworkError,
        try_at(script, k) == (TryOutcomeView::Reply { status, body }),
    ensures
        probe_from(script, i) == (OutcomeView::Success { status, body }),
    decreases k - i,
{
    if i < k {
        lemma_probe_from_reaches_reply(script, i + 1, k, status, body);
    }
}

/// The retry law, failure side: when every try within the budget fails at
/// the network level, the attempt's outcome is a fatal failure for spent
/// retries — the dispatcher never drops the attempt silently.
pub proof fn lemma_retry_exhausted(script: Seq<TryOutcomeView>)
    requires
        forall|j: int| 0 <= j < MAX_TRIES ==> try_at(script, j) is NetworkError,
    ensures
        probe_outcome(script) == (OutcomeView::FatalFailure {
            reason: FatalReason::NetworkExhausted,
        }),
{
    lemma_probe_from_exhausted(script, 0);
}

proof fn lemma_probe_from_exhausted(script: Seq<TryOutcomeView>, i: int)
    requires
        0 <= i,
        forall|j: int| i <= j < MAX_TRIES ==> try_at(script, j) is NetworkError,
    ensures
        probe_from(script, i) == (OutcomeView::FatalFailure {
            reason: FatalReason::NetworkExhausted,
        }),
    decreases MAX_TRIES - i,
{
    if i < MAX_TRIES {
        lemma_probe_from_exhausted(script, i + 1);
    }
}

/// A result emitted by the retry policy is never still transient: it is a
/// success or a fatal failure, so every attempt resolves.
pub proof fn lemma_probe_resolves(script: Seq<TryOutcomeView>)
    ensures
        !(probe_outcome(script) is TransientFailure),
{
    lemma_probe_from_resolves(script, 0);
}

proof fn lemma_probe_from_resolves(script: Seq<TryOutcomeView>, i: int)
    ensures
        !(probe_from(script, i) is TransientFailure),
    decreases MAX_TRIES - i,
{
    if i < MAX_TRIES {
        if try_at(script, i) is NetworkError {
            lemma_probe_from_resolves(script, i + 1);
        }
    }
}

} // verus!
