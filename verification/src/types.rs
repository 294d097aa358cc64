//! The engine's data model: attempts, per-try outcomes as the network
//! reports them, final probe outcomes, and the result record that carries
//! its originating attempt for correlation. Identities, credentials and
//! response bodies are byte strings; each exec type has a mathematical view
//! over `Seq<u8>` that the contracts speak of.

use vstd::prelude::*;

verus! {

/// One (identity, credential) pair to test against the login endpoint.
/// Immutable once created; consumed exactly once by the dispatcher.
#[derive(Debug)]
pub struct Attempt {
    pub identity: Vec<u8>,
    pub credential: Vec<u8>,
}

/// The mathematical value of an [`Attempt`].
#[verifier::ext_equal]
pub struct AttemptView {
    pub identity: Seq<u8>,
    pub credential: Seq<u8>,
}

impl View for Attempt {
    type V = AttemptView;

    open spec fn view(&self) -> AttemptView {
        AttemptView { identity: self.identity@, credential: self.credential@ }
    }
}

/// What one issued request came back with: either the endpoint replied
/// (with a status code and a body), or the request failed at the network
/// level (connection error, timeout, reset) before any reply arrived.
#[derive(Debug)]
pub enum TryOutcome {
    Reply { status: u16, body: Vec<u8> },
    NetworkError,
}

/// The mathematical value of a [`TryOutcome`].
#[verifier::ext_equal]
pub enum TryOutcomeView {
    Reply { status: u16, body: Seq<u8> },
    NetworkError,
}

impl View for TryOutcome {
    type V = TryOutcomeView;

    open spec fn view(&self) -> TryOutcomeView {
        match self {
            TryOutcome::Reply { status, body } => TryOutcomeView::Reply {
                status: *status,
                body: body@,
            },
            TryOutcome::NetworkError => TryOutcomeView::NetworkError,
        }
    }
}

/// Why a run cannot go on: the retry budget was spent without a reply, or
/// the endpoint answered with a status other than 200, which means the
/// probing assumptions do not hold for this target.
#[derive(Clone, Copy, Debug, PartialEq, Eq, Structural)]
pub enum FatalReason {
    NetworkExhausted,
    UnexpectedStatus { status: u16 },
}

/// The final outcome of dispatching one attempt. A transient failure is a
/// single failed try; the retry policy either resolves it into a success or
/// escalates it, so a result emitted by the dispatcher never carries it.
#[derive(Debug)]
pub enum Outcome {
    Success { status: u16, body: Vec<u8> },
    TransientFailure,
    FatalFailure { reason: FatalReason },
}

/// The mathematical value of an [`Outcome`].
#[verifier::ext_equal]
pub enum OutcomeView {
    Success { status: u16, body: Seq<u8> },
    TransientFailure,
    FatalFailure { reason: FatalReason },
}

impl View for Outcome {
    type V = OutcomeView;

    open spec fn view(&self) -> OutcomeView {
        match self {
            Outcome::Success { status, body } => OutcomeView::Success {
                status: *status,
                body: body@,
            },
            Outcome::TransientFailure => OutcomeView::TransientFailure,
            Outcome::FatalFailure { reason } => OutcomeView::FatalFailure { reason: *reason },
        }
    }
}

/// The outcome of one attempt, carrying the attempt itself: results may
/// arrive in any order, so correlation is by this record, never by position.
#[derive(Debug)]
pub struct ProbeResult {
    pub attempt: Attempt,
    pub outcome: Outcome,
}

/// The mathematical value of a [`ProbeResult`].
#[verifier::ext_equal]
pub struct ProbeResultView {
    pub attempt: AttemptView,
    pub outcome: OutcomeView,
}

impl View for ProbeResult {
    type V = ProbeResultView;

    open spec fn view(&self) -> ProbeResultView {
        ProbeResultView { attempt: self.attempt@, outcome: self.outcome@ }
    }
}

/// The view of a whole script of per-try outcomes.
pub open spec fn script_view(s: Seq<TryOutcome>) -> Seq<TryOutcomeView> {
    s.map_values(|t: TryOutcome| t@)
}

/// The views of a sequence of attempts.
pub open spec fn attempts_view(s: Seq<Attempt>) -> Seq<AttemptView> {
    s.map_values(|a: Attempt| a@)
}

/// Copy a byte string.
pub fn clone_bytes(v: &Vec<u8>) -> (r: Vec<u8>)
    ensures
        r@ == v@,
{
    let mut r: Vec<u8> = Vec::new();
    let mut i: usize = 0;
    while i < v.len()
        invariant
            i <= v.len(),
            r@ == v@.subrange(0, i as int),
        decreases v.len() - i,
    {
        r.push(v[i]);
        i = i + 1;
        proof {
            assert(r@ =~= v@.subrange(0, i as int));
        }
    }
    proof {
        assert(r@ =~= v@);
    }
    r
}

/// Copy an attempt.
pub fn clone_attempt(a: &Attempt) -> (r: Attempt)
    ensures
        r@ == a@,
{
    let r = Attempt { identity: clone_bytes(&a.identity), credential: clone_bytes(&a.credential) };
    proof {
        assert(r@ =~= a@);
    }
    r
}

} // verus!
