use vstd::prelude::*;
use crate::contract::{settle_effect, settle_outcome};
use crate::reputation::{
    claim_points, claim_type_points, claims_score, job_completed_tag, points_at,
    reputation_score, JOB_COMPLETED,
};
use crate::storage::HostView;
use crate::types::{ClaimStatus, ClaimView};
use vstd::string::*;

verus! {

/// The claim type that stands for a finished job, byte by byte.
pub proof fn lemma_job_completed_tag()
    ensures
        job_completed_tag() == seq![
            106u8, 111u8, 98u8, 95u8, 99u8, 111u8, 109u8, 112u8, 108u8, 101u8, 116u8, 101u8,
            100u8,
        ],
{
    reveal_strlit("job_completed");
    is_ascii_spec_bytes(JOB_COMPLETED);
    assert(job_completed_tag() =~= seq![
        106u8, 111u8, 98u8, 95u8, 99u8, 111u8, 109u8, 112u8, 108u8, 101u8, 116u8, 101u8,
        100u8,
    ]);
}

/// What a claim is worth: ten points where it is approved and of the type
/// for a finished job, five where it is approved and of any other type,
/// nothing while it is pending or once it is rejected.
pub proof fn lemma_claim_points(claim: ClaimView)
    ensures
        claim_points(claim) == (if claim.status != ClaimStatus::Approved {
            0nat
        } else if claim.claim_type == job_completed_tag() {
            10nat
        } else {
            5nat
        }),
{
}

/// Each claim in a receiver's list adds what it is worth to the score, and
/// nothing else does.
pub proof fn lemma_claims_score_adds_up(s: HostView, ids: Seq<u64>, id: u64)
    ensures
        claims_score(s, Seq::<u64>::empty()) == 0,
        claims_score(s, ids.push(id)) == claims_score(s, ids) + points_at(s, id),
{
    assert(ids.push(id).drop_last() =~= ids);
}

/// Claims of which none is approved are worth nothing.
pub proof fn lemma_unapproved_claims_score_nothing(s: HostView, ids: Seq<u64>)
    requires
        forall|i: int|
            0 <= i < ids.len() && s.claim(#[trigger] ids[i]).is_some() ==> s.claim(
                ids[i],
            ).unwrap().status != ClaimStatus::Approved,
    ensures
        claims_score(s, ids) == 0,
    decreases ids.len(),
{
    if ids.len() > 0 {
        let before = ids.drop_last();
        assert forall|i: int|
            0 <= i < before.len() && s.claim(#[trigger] before[i]).is_some() implies s.claim(
            before[i],
        ).unwrap().status != ClaimStatus::Approved by {
            assert(before[i] == ids[i]);
        }
        lemma_unapproved_claims_score_nothing(s, before);
        assert(ids.last() == ids[ids.len() - 1]);
    }
}

/// An address that has joined just now and has no approved claim has the
/// score 0.
pub proof fn lemma_new_member_scores_nothing(s: HostView, account: Seq<u8>)
    requires
        s.profile(account).is_some(),
        s.profile(account).unwrap().joined_at == s.ledger.timestamp,
        forall|i: int|
            0 <= i < s.user_claims(account).len() && s.claim(
                #[trigger] s.user_claims(account)[i],
            ).is_some() ==> s.claim(s.user_claims(account)[i]).unwrap().status
                != ClaimStatus::Approved,
    ensures
        reputation_score(s, account) == 0,
{
    lemma_unapproved_claims_score_nothing(s, s.user_claims(account));
}

/// An address without a profile has the score 0.
pub proof fn lemma_stranger_scores_nothing(s: HostView, account: Seq<u8>)
    requires
        s.profile(account).is_none(),
    ensures
        reputation_score(s, account) == 0,
{
}

/// How often `id` stands in `ids`.
pub open spec fn count_of(ids: Seq<u64>, id: u64) -> nat
    decreases ids.len(),
{
    if ids.len() == 0 {
        0
    } else {
        count_of(ids.drop_last(), id) + (if ids.last() == id {
            1nat
        } else {
            0nat
        })
    }
}

/// Approving a claim adds what its type is worth to what a list of claims
/// is worth, once for each time that the claim's id stands in the list.
pub proof fn lemma_approval_adds_points(s: HostView, issuer: Seq<u8>, claim_id: u64, ids: Seq<u64>)
    requires
        settle_outcome(s, issuer, claim_id).is_ok(),
    ensures
        claims_score(settle_effect(s, issuer, claim_id, ClaimStatus::Approved), ids)
            == claims_score(s, ids) + count_of(ids, claim_id) * claim_type_points(
            s.claim(claim_id).unwrap().claim_type,
        ),
    decreases ids.len(),
{
    let after = settle_effect(s, issuer, claim_id, ClaimStatus::Approved);
    let points = claim_type_points(s.claim(claim_id).unwrap().claim_type);
    if ids.len() == 0 {
        assert(0 * points == 0);
    } else {
        lemma_approval_adds_points(s, issuer, claim_id, ids.drop_last());
        let n = count_of(ids.drop_last(), claim_id);
        if ids.last() == claim_id {
            assert(points_at(after, ids.last()) == points);
            assert(points_at(s, ids.last()) == 0);
            assert((n + 1) * points == n * points + points) by (nonlinear_arith);
        } else {
            assert(after.claim(ids.last()) == s.claim(ids.last()));
            assert(count_of(ids, claim_id) == n);
        }
    }
}

/// Approving a claim raises its receiver's score by what the claim's type
/// is worth, where the receiver has a profile and the claim stands once in
/// the receiver's list: by ten for a finished job, by five for anything else.
pub proof fn lemma_approval_raises_score(s: HostView, issuer: Seq<u8>, claim_id: u64, receiver: Seq<u8>)
    requires
        settle_outcome(s, issuer, claim_id).is_ok(),
        s.profile(receiver).is_some(),
        count_of(s.user_claims(receiver), claim_id) == 1,
    ensures
        reputation_score(settle_effect(s, issuer, claim_id, ClaimStatus::Approved), receiver)
            == reputation_score(s, receiver) + claim_type_points(
            s.claim(claim_id).unwrap().claim_type,
        ),
{
    lemma_approval_adds_points(s, issuer, claim_id, s.user_claims(receiver));
    let after = settle_effect(s, issuer, claim_id, ClaimStatus::Approved);
    assert(after.user_claims(receiver) == s.user_claims(receiver));
    assert(after.profile(receiver) == s.profile(receiver));
}

/// Rejecting a claim leaves every score as it was.
pub proof fn lemma_rejection_keeps_scores(s: HostView, issuer: Seq<u8>, claim_id: u64, ids: Seq<u64>)
    requires
        settle_outcome(s, issuer, claim_id).is_ok(),
    ensures
        claims_score(settle_effect(s, issuer, claim_id, ClaimStatus::Rejected), ids)
            == claims_score(s, ids),
    decreases ids.len(),
{
    if ids.len() > 0 {
        lemma_rejection_keeps_scores(s, issuer, claim_id, ids.drop_last());
        let after = settle_effect(s, issuer, claim_id, ClaimStatus::Rejected);
        if ids.last() != claim_id {
            assert(after.claim(ids.last()) == s.claim(ids.last()));
        }
    }
}

} // verus!
