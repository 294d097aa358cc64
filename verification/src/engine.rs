//! The dispatcher and orchestrator model: building each phase's attempt
//! sequence, dispatching every attempt exactly once under the retry policy,
//! and folding the classified results into the phase's findings or the
//! run's abort.
//!
//! A run over a phase processes its attempts against the network's scripted
//! behaviour and either confirms a subset of them (the identities phase one
//! keeps, the credential pairs phase two reports) or stops at the first
//! fatal outcome. Results of a concurrent run may arrive in any order;
//! correlation is by the attempt each result carries, and the laws below
//! show that the confirmed set does not depend on arrival order.

use crate::classify::{decision_of, judge_response, Decision};
use crate::retry::{probe_outcome, probe_script};
use crate::types::{
    attempts_view, clone_attempt, clone_bytes, script_view, Attempt, AttemptView, FatalReason,
    ProbeResult, ProbeResultView, TryOutcome, TryOutcomeView,
};
use vstd::prelude::*;

verus! {

/// The views of a sequence of per-attempt scripts.
pub open spec fn scripts_view(s: Seq<Vec<TryOutcome>>) -> Seq<Seq<TryOutcomeView>> {
    s.map_values(|v: Vec<TryOutcome>| script_view(v@))
}

/// Phase one's attempt source: every identity in the list, paired with the
/// fixed placeholder credential.
pub fn make_identity_attempts(identities: &Vec<Vec<u8>>, placeholder: &Vec<u8>) -> (out: Vec<
    Attempt,
>)
    ensures
        out@.len() == identities@.len(),
        forall|i: int|
            0 <= i < out@.len() ==> out@[i]@ == (AttemptView {
                identity: identities@[i]@,
                credential: placeholder@,
            }),
{
    let mut out: Vec<Attempt> = Vec::new();
    let mut i: usize = 0;
    while i < identities.len()
        invariant
            i <= identities@.len(),
            out@.len() == i,
            forall|k: int|
                0 <= k < i ==> out@[k]@ == (AttemptView {
                    identity: identities@[k]@,
                    credential: placeholder@,
                }),
        decreases identities.len() - i,
    {
        let a = Attempt {
            identity: clone_bytes(&identities[i]),
            credential: clone_bytes(placeholder),
        };
        proof {
            assert(a@ =~= (AttemptView {
                identity: identities@[i as int]@,
                credential: placeholder@,
            }));
        }
        out.push(a);
        i = i + 1;
    }
    out
}

proof fn lemma_row_index_bound(ii: int, jj: int, i: int, plen: int)
    requires
        0 <= ii < i,
        0 <= jj < plen,
    ensures
        0 <= ii * plen + jj,
        ii * plen + jj < i * plen,
{
    assert(ii * plen + jj < i * plen) by (nonlinear_arith)
        requires
            0 <= ii < i,
            0 <= jj < plen,
    ;
    assert(0 <= ii * plen + jj) by (nonlinear_arith)
        requires
            0 <= ii,
            0 <= jj,
            0 <= plen,
    ;
}

/// Phase two's attempt source: the cross product of the confirmed
/// identities and the credential list, one attempt for every pair, grouped
/// by identity and in list order within each group.
pub fn cross_product(users: &Vec<Vec<u8>>, passwords: &Vec<Vec<u8>>) -> (out: Vec<Attempt>)
    ensures
        out@.len() == users@.len() * passwords@.len(),
        forall|i: int, j: int|
            0 <= i < users@.len() && 0 <= j < passwords@.len() ==> out@[i * passwords@.len() + j]@
                == (AttemptView { identity: users@[i]@, credential: passwords@[j]@ }),
{
    let ghost plen = passwords@.len() as int;
    let mut out: Vec<Attempt> = Vec::new();
    let mut i: usize = 0;
    while i < users.len()
        invariant
            plen == passwords@.len(),
            i <= users@.len(),
            out@.len() == i * plen,
            forall|ii: int, j: int|
                0 <= ii < i && 0 <= j < plen ==> out@[ii * plen + j]@ == (AttemptView {
                    identity: users@[ii]@,
                    credential: passwords@[j]@,
                }),
        decreases users.len() - i,
    {
        let mut j: usize = 0;
        while j < passwords.len()
            invariant
                plen == passwords@.len(),
                i < users@.len(),
                j <= plen,
                out@.len() == i * plen + j,
                forall|ii: int, jj: int|
                    0 <= ii < i && 0 <= jj < plen ==> out@[ii * plen + jj]@ == (AttemptView {
                        identity: users@[ii]@,
                        credential: passwords@[jj]@,
                    }),
                forall|jj: int|
                    0 <= jj < j ==> out@[i * plen + jj]@ == (AttemptView {
                        identity: users@[i as int]@,
                        credential: passwords@[jj]@,
                    }),
            decreases passwords.len() - j,
        {
            let a = Attempt {
                identity: clone_bytes(&users[i]),
                credential: clone_bytes(&passwords[j]),
            };
            proof {
                assert(a@ =~= (AttemptView {
                    identity: users@[i as int]@,
                    credential: passwords@[j as int]@,
                }));
            }
            out.push(a);
            j = j + 1;
            proof {
                assert forall|ii: int, jj: int|
                    0 <= ii < i && 0 <= jj < plen implies out@[ii * plen + jj]@ == (AttemptView {
                    identity: users@[ii]@,
                    credential: passwords@[jj]@,
                }) by {
                    lemma_row_index_bound(ii, jj, i as int, plen);
                };
            }
        }
        proof {
            assert forall|ii: int, jj: int|
                0 <= ii < i + 1 && 0 <= jj < plen implies out@[ii * plen + jj]@ == (AttemptView {
                identity: users@[ii]@,
                credential: passwords@[jj]@,
            }) by {
                lemma_row_index_bound(ii, jj, i + 1, plen);
                if ii == i {
                    assert(ii * plen + jj == i * plen + jj);
                }
            };
            assert((i + 1) * plen == i * plen + plen) by (nonlinear_arith);
        }
        i = i + 1;
    }
    out
}

/// Dispatch every attempt exactly once: run the retry policy over each
/// attempt's script and emit one result per attempt, each carrying its
/// originating attempt. Nothing is dropped and nothing is duplicated.
pub fn dispatch_all(attempts: &Vec<Attempt>, scripts: &Vec<Vec<TryOutcome>>) -> (results: Vec<
    ProbeResult,
>)
    requires
        scripts@.len() == attempts@.len(),
    ensures
        results@.len() == attempts@.len(),
        forall|i: int| 0 <= i < results@.len() ==> results@[i]@.attempt == attempts@[i]@,
        forall|i: int|
            0 <= i < results@.len() ==> results@[i]@.outcome == probe_outcome(
                scripts_view(scripts@)[i],
            ),
{
    let mut results: Vec<ProbeResult> = Vec::new();
    let mut i: usize = 0;
    while i < attempts.len()
        invariant
            scripts@.len() == attempts@.len(),
            i <= attempts@.len(),
            results@.len() == i,
            forall|k: int| 0 <= k < i ==> results@[k]@.attempt == attempts@[k]@,
            forall|k: int|
                0 <= k < i ==> results@[k]@.outcome == probe_outcome(scripts_view(scripts@)[k]),
        decreases attempts.len() - i,
    {
        let outcome = probe_script(&scripts[i]);
        proof {
            assert(scripts_view(scripts@)[i as int] == script_view(scripts@[i as int]@));
        }
        let r = ProbeResult { attempt: clone_attempt(&attempts[i]), outcome };
        results.push(r);
        i = i + 1;
    }
    results
}

/// Conservation of attempts: a batch of results that pairs off one-to-one
/// with the input attempts carries, as a multiset, exactly the input
/// attempts — each fed attempt appears in the emitted results exactly once,
/// with no duplication and no loss, whatever order the results stand in.
pub proof fn lemma_dispatch_conserves_attempts(
    attempts: Seq<AttemptView>,
    results: Seq<ProbeResultView>,
)
    requires
        results.len() == attempts.len(),
        forall|i: int| 0 <= i < results.len() ==> results[i].attempt == attempts[i],
    ensures
        results.map_values(|r: ProbeResultView| r.attempt).to_multiset() == attempts.to_multiset(),
{
    assert(results.map_values(|r: ProbeResultView| r.attempt) =~= attempts);
}

/// Conservation under any arrival order: however a concurrent run
/// interleaves its workers, a delivery holding the same results as the
/// emitted batch — in whatever order — carries, as a multiset, exactly the
/// fed attempts: each exactly once, none lost, none duplicated.
pub proof fn lemma_conservation_any_arrival_order(
    attempts: Seq<AttemptView>,
    results: Seq<ProbeResultView>,
    arrived: Seq<ProbeResultView>,
)
    requires
        results.len() == attempts.len(),
        forall|i: int| 0 <= i < results.len() ==> results[i].attempt == attempts[i],
        arrived.to_multiset() == results.to_multiset(),
    ensures
        arrived.map_values(|r: ProbeResultView| r.attempt).to_multiset()
            == attempts.to_multiset(),
{
    lemma_map_values_permutation(arrived, results, |r: ProbeResultView| r.attempt);
    lemma_dispatch_conserves_attempts(attempts, results);
}

proof fn lemma_map_values_permutation<A, B>(s1: Seq<A>, s2: Seq<A>, f: spec_fn(A) -> B)
    requires
        s1.to_multiset() == s2.to_multiset(),
    ensures
        s1.map_values(f).to_multiset() == s2.map_values(f).to_multiset(),
    decreases s1.len(),
{
    broadcast use vstd::seq_lib::group_to_multiset_ensures;

    if s1.len() == 0 {
        assert(s1.to_multiset().len() == 0);
        assert(s2.to_multiset().len() == s2.len());
        assert(s2.len() == 0);
        assert(s1.map_values(f) =~= s2.map_values(f));
    } else {
        let x = s1.last();
        assert(s1.contains(x));
        assert(s2.to_multiset().count(x) > 0);
        assert(s2.contains(x));
        let i = choose|i: int| 0 <= i < s2.len() && s2[i] == x;
        assert(s1 =~= s1.drop_last().push(x));
        assert(s1.to_multiset() =~= s1.drop_last().to_multiset().insert(x));
        assert(s2.remove(i).to_multiset() =~= s2.to_multiset().remove(x));
        assert(s1.drop_last().to_multiset() =~= s2.remove(i).to_multiset());
        lemma_map_values_permutation(s1.drop_last(), s2.remove(i), f);
        assert(s1.map_values(f) =~= s1.drop_last().map_values(f).push(f(x)));
        assert(s1.map_values(f).to_multiset() =~= s1.drop_last().map_values(f).to_multiset()
            .insert(f(x)));
        assert(s2.remove(i).map_values(f) =~= s2.map_values(f).remove(i));
        assert(s2.map_values(f).remove(i).to_multiset() =~= s2.map_values(f).to_multiset()
            .remove(f(x)));
        assert(s2.map_values(f).to_multiset().count(f(x)) > 0) by {
            assert(s2.map_values(f)[i] == f(x));
            assert(s2.map_values(f).contains(f(x)));
        };
        assert(s2.map_values(f).to_multiset().remove(f(x)).insert(f(x)) =~= s2.map_values(
            f,
        ).to_multiset());
    }
}

/// Where a run stops: what the orchestrator aborted on, and why.
#[derive(Debug)]
pub struct AbortReport {
    pub attempt: Attempt,
    pub reason: FatalReason,
}

/// The mathematical value of an [`AbortReport`].
#[verifier::ext_equal]
pub struct AbortReportView {
    pub attempt: AttemptView,
    pub reason: FatalReason,
}

impl View for AbortReport {
    type V = AbortReportView;

    open spec fn view(&self) -> AbortReportView {
        AbortReportView { attempt: self.attempt@, reason: self.reason }
    }
}

/// The decision the classifier reaches for attempt `i` of a run.
pub open spec fn decision_at(scripts: Seq<Seq<TryOutcomeView>>, marker: Seq<u8>, i: int) -> Decision {
    decision_of(probe_outcome(scripts[i]), marker)
}

/// The attempts among the first `n` that the run confirms, in attempt
/// order.
pub open spec fn confirmed_upto(
    attempts: Seq<AttemptView>,
    scripts: Seq<Seq<TryOutcomeView>>,
    marker: Seq<u8>,
    n: int,
) -> Seq<AttemptView>
    decreases n,
{
    if n <= 0 {
        Seq::empty()
    } else {
        let pre = confirmed_upto(attempts, scripts, marker, n - 1);
        if decision_at(scripts, marker, n - 1) is Positive {
            pre.push(attempts[n - 1])
        } else {
            pre
        }
    }
}

/// The index of the first attempt among `0 .. n` whose decision aborts the
/// run, if any.
pub open spec fn first_abort(scripts: Seq<Seq<TryOutcomeView>>, marker: Seq<u8>, n: int) -> Option<
    int,
>
    decreases n,
{
    if n <= 0 {
        None
    } else {
        match first_abort(scripts, marker, n - 1) {
            Option::Some(k) => Option::Some(k),
            Option::None => {
                if decision_at(scripts, marker, n - 1) is Abort {
                    Option::Some(n - 1)
                } else {
                    Option::None
                }
            },
        }
    }
}

/// What `first_abort` finds is the first abort: an abort decision, with
/// none before it; and where it finds none, no attempt in range aborts.
pub proof fn lemma_first_abort_characterized(
    scripts: Seq<Seq<TryOutcomeView>>,
    marker: Seq<u8>,
    n: int,
)
    ensures
        first_abort(scripts, marker, n) matches Option::Some(k) ==> 0 <= k < n && decision_at(
            scripts,
            marker,
            k,
        ) is Abort && (forall|j: int| 0 <= j < k ==> !(decision_at(scripts, marker, j) is Abort)),
        first_abort(scripts, marker, n) is None ==> (forall|j: int|
            0 <= j < n ==> !(decision_at(scripts, marker, j) is Abort)),
    decreases n,
{
    if n > 0 {
        lemma_first_abort_characterized(scripts, marker, n - 1);
    }
}

proof fn lemma_first_abort_extend(scripts: Seq<Seq<TryOutcomeView>>, marker: Seq<u8>, m: int, n: int)
    requires
        0 <= m <= n,
        first_abort(scripts, marker, m) is Some,
    ensures
        first_abort(scripts, marker, n) == first_abort(scripts, marker, m),
    decreases n - m,
{
    if m < n {
        lemma_first_abort_extend(scripts, marker, m, n - 1);
    }
}

/// Run one phase: dispatch the attempts in order, classify each outcome
/// against the phase's negative signature, and collect the confirmed
/// attempts. The run returns them all exactly when no outcome aborts; it
/// stops at the first aborting outcome, reporting the offending attempt
/// and the reason, with no attempt after it dispatched.
pub fn run_probes(attempts: &Vec<Attempt>, scripts: &Vec<Vec<TryOutcome>>, marker: &Vec<u8>) -> (r:
    Result<Vec<Attempt>, AbortReport>)
    requires
        scripts@.len() == attempts@.len(),
    ensures
        match r {
            Result::Ok(confirmed) => {
                &&& first_abort(scripts_view(scripts@), marker@, attempts@.len() as int) is None
                &&& attempts_view(confirmed@) == confirmed_upto(
                    attempts_view(attempts@),
                    scripts_view(scripts@),
                    marker@,
                    attempts@.len() as int,
                )
            },
            Result::Err(report) => {
                &&& first_abort(scripts_view(scripts@), marker@, attempts@.len() as int)
                    matches Option::Some(k) && report@.attempt == attempts_view(attempts@)[k]
                    && decision_at(scripts_view(scripts@), marker@, k) == (Decision::Abort {
                    reason: report@.reason,
                })
            },
        },
{
    let ghost av = attempts_view(attempts@);
    let ghost sv = scripts_view(scripts@);
    let ghost n = attempts@.len() as int;
    let mut confirmed: Vec<Attempt> = Vec::new();
    let mut i: usize = 0;
    while i < attempts.len()
        invariant
            scripts@.len() == attempts@.len(),
            av == attempts_view(attempts@),
            sv == scripts_view(scripts@),
            n == attempts@.len() as int,
            i <= attempts@.len(),
            first_abort(sv, marker@, i as int) is None,
            attempts_view(confirmed@) == confirmed_upto(av, sv, marker@, i as int),
        decreases attempts.len() - i,
    {
        let outcome = probe_script(&scripts[i]);
        proof {
            assert(sv[i as int] == script_view(scripts@[i as int]@));
        }
        let d = judge_response(&outcome, marker);
        proof {
            assert(d == decision_at(sv, marker@, i as int));
        }
        match d {
            Decision::Abort { reason } => {
                let report = AbortReport { attempt: clone_attempt(&attempts[i]), reason };
                proof {
                    assert(first_abort(sv, marker@, i + 1) == Option::Some(i as int));
                    lemma_first_abort_extend(sv, marker@, i + 1, n);
                    assert(report@.attempt == av[i as int]);
                }
                return Result::Err(report);
            },
            Decision::Positive => {
                confirmed.push(clone_attempt(&attempts[i]));
                proof {
                    assert(attempts_view(confirmed@) =~= confirmed_upto(av, sv, marker@, i + 1));
                }
            },
            Decision::Negative => {
                proof {
                    assert(confirmed_upto(av, sv, marker@, i + 1) == confirmed_upto(
                        av,
                        sv,
                        marker@,
                        i as int,
                    ));
                }
            },
        }
        i = i + 1;
    }
    Result::Ok(confirmed)
}

/// The set of attempts a batch of results confirms: those that some result
/// carries with a positive classification.
pub open spec fn confirmed_set(results: Seq<ProbeResultView>, marker: Seq<u8>) -> Set<AttemptView> {
    Set::new(
        |a: AttemptView|
            exists|i: int|
                0 <= i < results.len() && results[i].attempt == a && decision_of(
                    results[i].outcome,
                    marker,
                ) is Positive,
    )
}

/// Arrival order does not matter: two result batches that hold the same
/// results as multisets — as when one concurrent run delivers the same
/// results in another order — confirm exactly the same set of attempts.
pub proof fn lemma_confirmed_set_ignores_arrival_order(
    r1: Seq<ProbeResultView>,
    r2: Seq<ProbeResultView>,
    marker: Seq<u8>,
)
    requires
        r1.to_multiset() == r2.to_multiset(),
    ensures
        confirmed_set(r1, marker) == confirmed_set(r2, marker),
{
    lemma_confirmed_subset(r1, r2, marker);
    lemma_confirmed_subset(r2, r1, marker);
    assert(confirmed_set(r1, marker) =~= confirmed_set(r2, marker));
}

proof fn lemma_confirmed_subset(r1: Seq<ProbeResultView>, r2: Seq<ProbeResultView>, marker: Seq<u8>)
    requires
        r1.to_multiset() == r2.to_multiset(),
    ensures
        forall|a: AttemptView|
            confirmed_set(r1, marker).contains(a) ==> confirmed_set(r2, marker).contains(a),
{
    broadcast use vstd::seq_lib::group_to_multiset_ensures;

    assert forall|a: AttemptView| confirmed_set(r1, marker).contains(a) implies confirmed_set(
        r2,
        marker,
    ).contains(a) by {
        let i = choose|i: int|
            0 <= i < r1.len() && r1[i].attempt == a && decision_of(r1[i].outcome, marker)
                is Positive;
        let r = r1[i];
        assert(r1.contains(r));
        assert(r2.to_multiset().count(r) > 0);
        assert(r2.contains(r));
        let j = choose|j: int| 0 <= j < r2.len() && r2[j] == r;
        assert(0 <= j < r2.len() && r2[j].attempt == a && decision_of(r2[j].outcome, marker)
            is Positive);
    };
}

/// What the sequential run confirms is the confirmed set of its results:
/// running the orchestrator fold over a one-result-per-attempt batch
/// yields, as a set, exactly the attempts confirmed by those results. With
/// the conservation and order-independence laws this makes the confirmed
/// findings of a run a function of the fed attempts and the network's
/// behaviour alone, independent of concurrency and arrival order.
pub proof fn lemma_run_agrees_with_results(
    attempts: Seq<AttemptView>,
    scripts: Seq<Seq<TryOutcomeView>>,
    marker: Seq<u8>,
    results: Seq<ProbeResultView>,
)
    requires
        results.len() == attempts.len(),
        scripts.len() == attempts.len(),
        forall|i: int| 0 <= i < results.len() ==> results[i].attempt == attempts[i],
        forall|i: int| 0 <= i < results.len() ==> results[i].outcome == probe_outcome(scripts[i]),
    ensures
        confirmed_upto(attempts, scripts, marker, attempts.len() as int).to_set() == confirmed_set(
            results,
            marker,
        ),
{
    let ghost n = attempts.len() as int;
    assert forall|a: AttemptView|
        confirmed_upto(attempts, scripts, marker, n).to_set().contains(a) <==> confirmed_set(
            results,
            marker,
        ).contains(a) by {
        lemma_confirmed_upto_contains(attempts, scripts, marker, n, a);
        if confirmed_upto(attempts, scripts, marker, n).contains(a) {
            let i = choose|i: int|
                0 <= i < n && attempts[i] == a && decision_at(scripts, marker, i) is Positive;
            assert(0 <= i < results.len() && results[i].attempt == a && decision_of(
                results[i].outcome,
                marker,
            ) is Positive);
        }
        if confirmed_set(results, marker).contains(a) {
            let i = choose|i: int|
                0 <= i < results.len() && results[i].attempt == a && decision_of(
                    results[i].outcome,
                    marker,
                ) is Positive;
            assert(0 <= i < n && attempts[i] == a && decision_at(scripts, marker, i) is Positive);
        }
    };
    assert(confirmed_upto(attempts, scripts, marker, n).to_set() =~= confirmed_set(
        results,
        marker,
    ));
}

proof fn lemma_confirmed_upto_contains(
    attempts: Seq<AttemptView>,
    scripts: Seq<Seq<TryOutcomeView>>,
    marker: Seq<u8>,
    n: int,
    a: AttemptView,
)
    requires
        n <= attempts.len(),
    ensures
        confirmed_upto(attempts, scripts, marker, n).contains(a) <==> exists|i: int|
            0 <= i < n && attempts[i] == a && decision_at(scripts, marker, i) is Positive,
    decreases n,
{
    broadcast use vstd::seq_lib::lemma_seq_contains_after_push;

    if n > 0 {
        lemma_confirmed_upto_contains(attempts, scripts, marker, n - 1, a);
        if confirmed_upto(attempts, scripts, marker, n).contains(a) {
            if confirmed_upto(attempts, scripts, marker, n - 1).contains(a) {
                let i = choose|i: int|
                    0 <= i < n - 1 && attempts[i] == a && decision_at(scripts, marker, i)
                        is Positive;
                assert(0 <= i < n && attempts[i] == a && decision_at(scripts, marker, i)
                    is Positive);
            } else {
                assert(attempts[n - 1] == a && decision_at(scripts, marker, n - 1) is Positive);
            }
        }
        if exists|i: int| 0 <= i < n && attempts[i] == a && decision_at(scripts, marker, i)
            is Positive {
            let i = choose|i: int|
                0 <= i < n && attempts[i] == a && decision_at(scripts, marker, i) is Positive;
            if i < n - 1 {
                assert(confirmed_upto(attempts, scripts, marker, n - 1).contains(a));
            }
        }
    }
}

} // verus!
