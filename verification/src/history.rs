use vstd::prelude::*;
use crate::contract::{
    add_claim_effect, link_did_effect, link_did_outcome, register_profile_effect,
    register_profile_outcome, settle_effect, settle_outcome, update_profile_effect,
    update_profile_outcome, ProfileData,
};
use crate::errors::Error;
use crate::storage::{HostView, Ledger};
use crate::types::ClaimStatus;

verus! {

/// One thing that happens to the registry: an operation that may change
/// it, or the passing of time.
pub enum Call {
    RegisterProfile { owner: Seq<u8>, data: ProfileData },
    UpdateProfileData { owner: Seq<u8>, data: ProfileData },
    AddClaim { issuer: Seq<u8>, receiver: Seq<u8>, claim_type: Seq<u8>, proof_hash: Seq<u8> },
    ApproveClaim { issuer: Seq<u8>, claim_id: u64 },
    RejectClaim { issuer: Seq<u8>, claim_id: u64 },
    LinkDid { owner: Seq<u8>, did: Seq<u8> },
    Advance { ledger: Ledger },
}

/// The registry after `call`.
pub open spec fn step(s: HostView, call: Call) -> HostView {
    match call {
        Call::RegisterProfile { owner, data } => register_profile_effect(s, owner, data),
        Call::UpdateProfileData { owner, data } => update_profile_effect(s, owner, data),
        Call::AddClaim { issuer, receiver, claim_type, proof_hash } => add_claim_effect(
            s,
            issuer,
            receiver,
            claim_type,
            proof_hash,
        ),
        Call::ApproveClaim { issuer, claim_id } => settle_effect(
            s,
            issuer,
            claim_id,
            ClaimStatus::Approved,
        ),
        Call::RejectClaim { issuer, claim_id } => settle_effect(
            s,
            issuer,
            claim_id,
            ClaimStatus::Rejected,
        ),
        Call::LinkDid { owner, did } => link_did_effect(s, owner, did),
        Call::Advance { ledger } => s.advance(ledger),
    }
}

/// The error with which `call` is refused, if it is refused.
pub open spec fn refusal(s: HostView, call: Call) -> Option<Error> {
    let outcome = match call {
        Call::RegisterProfile { owner, data } => register_profile_outcome(
            s,
            owner,
            data.metadata_uri,
        ),
        Call::UpdateProfileData { owner, data } => update_profile_outcome(
            s,
            owner,
            data.metadata_uri,
        ),
        Call::AddClaim { .. } => Ok(()),
        Call::ApproveClaim { issuer, claim_id } => settle_outcome(s, issuer, claim_id),
        Call::RejectClaim { issuer, claim_id } => settle_outcome(s, issuer, claim_id),
        Call::LinkDid { owner, did } => link_did_outcome(s, owner, did),
        Call::Advance { .. } => Ok(()),
    };
    match outcome {
        Ok(_) => None,
        Err(error) => Some(error),
    }
}

/// The registry after all of `calls`, one after the other.
pub open spec fn run(s: HostView, calls: Seq<Call>) -> HostView
    decreases calls.len(),
{
    if calls.len() == 0 {
        s
    } else {
        step(run(s, calls.drop_last()), calls.last())
    }
}

/// How many of `calls` issue a claim.
pub open spec fn count_issued(calls: Seq<Call>) -> nat
    decreases calls.len(),
{
    if calls.len() == 0 {
        0
    } else {
        count_issued(calls.drop_last()) + (if calls.last() is AddClaim {
            1nat
        } else {
            0nat
        })
    }
}

/// A call never turns the clock back.
pub proof fn lemma_step_keeps_time_order(s: HostView, call: Call)
    ensures
        s.ledger.precedes(step(s, call).ledger),
{
}

/// No run of calls turns the clock back.
pub proof fn lemma_run_keeps_time_order(s: HostView, calls: Seq<Call>)
    ensures
        s.ledger.precedes(run(s, calls).ledger),
    decreases calls.len(),
{
    if calls.len() > 0 {
        lemma_run_keeps_time_order(s, calls.drop_last());
        lemma_step_keeps_time_order(run(s, calls.drop_last()), calls.last());
    }
}

/// Among the first calls of a run no more claims are issued than in all of it.
pub proof fn lemma_count_issued_prefix(calls: Seq<Call>, n: int)
    requires
        0 <= n <= calls.len(),
    ensures
        count_issued(calls.take(n)) <= count_issued(calls),
    decreases calls.len(),
{
    if n == calls.len() {
        assert(calls.take(n) =~= calls);
    } else {
        lemma_count_issued_prefix(calls.drop_last(), n);
        assert(calls.drop_last().take(n) =~= calls.take(n));
    }
}

} // verus!
