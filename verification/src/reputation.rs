use vstd::prelude::*;
use vstd::string::*;
use crate::storage::HostView;
use crate::types::{ClaimStatus, ClaimView};

verus! {

/// The claim type that stands for a finished job.
pub const JOB_COMPLETED: &'static str = "job_completed";

/// What an approved claim of the type for a finished job is worth.
pub const JOB_COMPLETED_POINTS: u32 = 10;

/// What an approved claim of any other type is worth.
pub const DEFAULT_POINTS: u32 = 5;

/// The seconds of a week.
pub const SECONDS_PER_WEEK: u64 = 604800;

/// The bytes of the claim type that stands for a finished job.
pub open spec fn job_completed_tag() -> Seq<u8> {
    JOB_COMPLETED.spec_bytes()
}

/// The scoring rule: what an approved claim of a type is worth.
pub open spec fn claim_type_points(claim_type: Seq<u8>) -> nat {
    if claim_type == job_completed_tag() {
        JOB_COMPLETED_POINTS as nat
    } else {
        DEFAULT_POINTS as nat
    }
}

/// What one claim adds to its receiver's score: only an approved claim counts.
pub open spec fn claim_points(claim: ClaimView) -> nat {
    if claim.status == ClaimStatus::Approved {
        claim_type_points(claim.claim_type)
    } else {
        0
    }
}

/// What the claim kept under `id` adds to a score: nothing where no such
/// claim is kept.
pub open spec fn points_at(s: HostView, id: u64) -> nat {
    match s.claim(id) {
        Some(claim) => claim_points(claim),
        None => 0,
    }
}

/// What the claims with the given ids add up to.
pub open spec fn claims_score(s: HostView, ids: Seq<u64>) -> nat
    decreases ids.len(),
{
    if ids.len() == 0 {
        0
    } else {
        claims_score(s, ids.drop_last()) + points_at(s, ids.last())
    }
}

/// One point for each full week between joining and now.
pub open spec fn age_score(joined_at: u64, now: u64) -> nat {
    if now > joined_at {
        ((now - joined_at) / (SECONDS_PER_WEEK as int)) as nat
    } else {
        0
    }
}

/// The reputation of `account`: nothing without a profile; else what its
/// approved claims are worth, and one point for each full week of membership.
pub open spec fn reputation_score(s: HostView, account: Seq<u8>) -> nat {
    match s.profile(account) {
        Some(profile) => claims_score(s, s.user_claims(account)) + age_score(
            profile.joined_at,
            s.ledger.timestamp,
        ),
        None => 0,
    }
}

/// The claims under the first ids of a list are worth no more than those
/// under all of them.
pub proof fn lemma_claims_score_grows(s: HostView, ids: Seq<u64>, n: int)
    requires
        0 <= n <= ids.len(),
    ensures
        claims_score(s, ids.take(n)) <= claims_score(s, ids),
    decreases ids.len(),
{
    if n == ids.len() {
        assert(ids.take(n) =~= ids);
    } else {
        lemma_claims_score_grows(s, ids.drop_last(), n);
        assert(ids.drop_last().take(n) =~= ids.take(n));
    }
}

/// What an approved claim of a type is worth.
pub fn points_for_type(claim_type: &Vec<u8>) -> (points: u32)
    ensures
        points == claim_type_points(claim_type@),
{
    let tag = JOB_COMPLETED.as_bytes();
    if claim_type.len() != tag.len() {
        return DEFAULT_POINTS;
    }
    let mut i: usize = 0;
    while i < tag.len()
        invariant
            i <= tag@.len(),
            tag@ == job_completed_tag(),
            claim_type@.len() == tag@.len(),
            forall|j: int| 0 <= j < i ==> claim_type@[j] == tag@[j],
        decreases tag@.len() - i,
    {
        if claim_type[i] != tag[i] {
            return DEFAULT_POINTS;
        }
        i += 1;
    }
    assert(claim_type@ =~= tag@);
    JOB_COMPLETED_POINTS
}

/// The full weeks between joining and now.
pub fn weeks_since(joined_at: u64, now: u64) -> (weeks: u64)
    ensures
        weeks == age_score(joined_at, now),
{
    if now > joined_at {
        (now - joined_at) / SECONDS_PER_WEEK
    } else {
        0
    }
}

} // verus!
