use vstd::prelude::*;
use crate::contract::{settle_effect, settle_outcome};
use crate::errors::Error;
use crate::history::{count_issued, run, step, Call};
use crate::laws::agreement::{entries_agree, lemma_run_keeps_agreement};
use crate::laws::ids::lemma_run_counts_issued;
use crate::storage::HostView;
use crate::types::{ClaimStatus, ClaimView, DataKeyView};

verus! {

/// Nobody but the issuer recorded in a claim can settle it, whatever its
/// status: the call is refused and changes nothing.
pub proof fn lemma_only_the_issuer_settles(
    s: HostView,
    caller: Seq<u8>,
    claim_id: u64,
    verdict: ClaimStatus,
)
    requires
        s.claim(claim_id).is_some(),
        s.claim(claim_id).unwrap().issuer != caller,
    ensures
        settle_outcome(s, caller, claim_id) == Err::<(), Error>(Error::UnauthorizedApproval),
        settle_effect(s, caller, claim_id, verdict) == s,
{
}

/// A claim is settled once: after its issuer has approved or rejected it,
/// it holds that verdict, and a second verdict of either kind is refused
/// with the error that names the first.
pub proof fn lemma_second_verdict_is_refused(
    s: HostView,
    issuer: Seq<u8>,
    claim_id: u64,
    verdict: ClaimStatus,
)
    requires
        settle_outcome(s, issuer, claim_id).is_ok(),
        verdict != ClaimStatus::Pending,
    ensures
        s.claim(claim_id).unwrap().status == ClaimStatus::Pending,
        settle_effect(s, issuer, claim_id, verdict).claim(claim_id) == Some(
            ClaimView { status: verdict, ..s.claim(claim_id).unwrap() },
        ),
        settle_outcome(settle_effect(s, issuer, claim_id, verdict), issuer, claim_id) == (
        if verdict == ClaimStatus::Approved {
            Err::<(), Error>(Error::ClaimAlreadyApproved)
        } else {
            Err::<(), Error>(Error::ClaimAlreadyRejected)
        }),
{
}

/// Tells whether a claim is kept under `id` that has been approved or rejected.
pub open spec fn holds_verdict(s: HostView, id: u64) -> bool {
    &&& s.persistent.dom().contains(DataKeyView::Claim(id))
    &&& s.persistent[DataKeyView::Claim(id)].value is Claim
    &&& s.persistent[DataKeyView::Claim(id)].value->Claim_0.status != ClaimStatus::Pending
}

/// No call changes a claim that has been approved or rejected.
pub proof fn lemma_step_keeps_verdict(s: HostView, call: Call, id: u64)
    requires
        entries_agree(s),
        call is AddClaim ==> s.next_claim_id < u64::MAX,
        holds_verdict(s, id),
    ensures
        holds_verdict(step(s, call), id),
        step(s, call).persistent[DataKeyView::Claim(id)] == s.persistent[DataKeyView::Claim(id)],
{
}

/// No run of calls changes a claim that has been approved or rejected.
pub proof fn lemma_run_keeps_verdict(s: HostView, calls: Seq<Call>, id: u64)
    requires
        entries_agree(s),
        s.next_claim_id + count_issued(calls) <= u64::MAX,
        holds_verdict(s, id),
    ensures
        holds_verdict(run(s, calls), id),
        run(s, calls).persistent[DataKeyView::Claim(id)] == s.persistent[DataKeyView::Claim(id)],
    decreases calls.len(),
{
    if calls.len() > 0 {
        lemma_run_keeps_verdict(s, calls.drop_last(), id);
        lemma_run_keeps_agreement(s, calls.drop_last());
        lemma_run_counts_issued(s, calls.drop_last());
        lemma_step_keeps_verdict(run(s, calls.drop_last()), calls.last(), id);
    }
}

/// A claim leaves its pending status at most once: once it has been
/// approved or rejected, it reads the same after any run of calls, for as
/// long as it can be read at all.
pub proof fn lemma_verdict_is_final(s: HostView, calls: Seq<Call>, id: u64)
    requires
        entries_agree(s),
        s.next_claim_id + count_issued(calls) <= u64::MAX,
        s.claim(id).is_some(),
        s.claim(id).unwrap().status != ClaimStatus::Pending,
    ensures
        run(s, calls).claim(id).is_none() || run(s, calls).claim(id) == s.claim(id),
{
    lemma_run_keeps_verdict(s, calls, id);
}

} // verus!
