use vstd::prelude::*;
use crate::history::{count_issued, lemma_count_issued_prefix, run, step, Call};
use crate::storage::{HostView, Ledger};

verus! {

/// A registry that has just been set up gives its first claim the id 0.
pub proof fn lemma_fresh_registry_counts_from_zero(ledger: Ledger)
    ensures
        HostView::fresh(ledger).next_claim_id == 0,
{
}

/// Only the issuing of a claim moves the claim counter, and it moves it by one.
pub proof fn lemma_step_counts_issued(s: HostView, call: Call)
    requires
        s.next_claim_id < u64::MAX,
    ensures
        step(s, call).next_claim_id == s.next_claim_id + (if call is AddClaim {
            1int
        } else {
            0int
        }),
{
}

/// After any run of calls the claim counter has moved by the number of
/// claims that were issued in it.
pub proof fn lemma_run_counts_issued(s: HostView, calls: Seq<Call>)
    requires
        s.next_claim_id + count_issued(calls) <= u64::MAX,
    ensures
        run(s, calls).next_claim_id == s.next_claim_id + count_issued(calls),
    decreases calls.len(),
{
    if calls.len() > 0 {
        lemma_run_counts_issued(s, calls.drop_last());
        if calls.last() is AddClaim {
            lemma_step_counts_issued(run(s, calls.drop_last()), calls.last());
        }
    }
}

/// The id that the `n`-th call of a run hands out, where that call issues a
/// claim: the counter's value before the call.
pub open spec fn issued_id(s: HostView, calls: Seq<Call>, n: int) -> u64 {
    run(s, calls.take(n)).next_claim_id
}

/// A claim gets as its id the counter's value at the start, and the number
/// of claims issued before it: ids are handed out in order, without gaps.
pub proof fn lemma_ids_count_up(s: HostView, calls: Seq<Call>, n: int)
    requires
        s.next_claim_id + count_issued(calls) <= u64::MAX,
        0 <= n < calls.len(),
        calls[n] is AddClaim,
    ensures
        issued_id(s, calls, n) == s.next_claim_id + count_issued(calls.take(n)),
        step(run(s, calls.take(n)), calls[n]).claim(issued_id(s, calls, n)) is Some,
{
    lemma_count_issued_prefix(calls, n);
    lemma_run_counts_issued(s, calls.take(n));
}

/// Of two claims issued in one run the later has the greater id: no id is
/// handed out twice.
pub proof fn lemma_ids_increase(s: HostView, calls: Seq<Call>, m: int, n: int)
    requires
        s.next_claim_id + count_issued(calls) <= u64::MAX,
        0 <= m < n < calls.len(),
        calls[m] is AddClaim,
        calls[n] is AddClaim,
    ensures
        issued_id(s, calls, m) < issued_id(s, calls, n),
{
    lemma_ids_count_up(s, calls, m);
    lemma_ids_count_up(s, calls, n);
    let upto = calls.take(n);
    lemma_count_issued_prefix(upto, m + 1);
    assert(upto.take(m + 1) =~= calls.take(m + 1));
    assert(calls.take(m + 1).drop_last() =~= calls.take(m));
    assert(calls.take(m + 1).last() == calls[m]);
}

/// In a registry that was set up empty, a claim gets as its id the number
/// of claims issued before it: the ids are 0, 1, 2 and so on.
pub proof fn lemma_ids_since_set_up(ledger: Ledger, calls: Seq<Call>, n: int)
    requires
        count_issued(calls) <= u64::MAX,
        0 <= n < calls.len(),
        calls[n] is AddClaim,
    ensures
        issued_id(HostView::fresh(ledger), calls, n) == count_issued(calls.take(n)),
        run(HostView::fresh(ledger), calls).next_claim_id == count_issued(calls),
{
    lemma_ids_count_up(HostView::fresh(ledger), calls, n);
    lemma_run_counts_issued(HostView::fresh(ledger), calls);
}

} // verus!
