use vstd::prelude::*;
use crate::contract::claims_at;
use crate::history::{count_issued, run, step, Call};
use crate::laws::ids::lemma_run_counts_issued;
use crate::storage::{HostView, Ledger};
use crate::store::ValueView;
use crate::types::{ClaimView, DataKeyView};

verus! {

/// The claim kept under `id`, whether or not its lifetime has run out.
pub open spec fn kept_claim(s: HostView, id: u64) -> Option<ClaimView> {
    if s.persistent.dom().contains(DataKeyView::Claim(id)) {
        match s.persistent[DataKeyView::Claim(id)].value {
            ValueView::Claim(claim) => Some(claim),
            _ => None,
        }
    } else {
        None
    }
}

/// The list of claims received that is kept for `receiver`, whether or not
/// its lifetime has run out.
pub open spec fn kept_user_claims(s: HostView, receiver: Seq<u8>) -> Seq<u64> {
    if s.persistent.dom().contains(DataKeyView::UserClaims(receiver)) {
        match s.persistent[DataKeyView::UserClaims(receiver)].value {
            ValueView::ClaimIds(ids) => ids,
            _ => Seq::empty(),
        }
    } else {
        Seq::empty()
    }
}

/// The list of claims issued that is kept for `issuer`, whether or not its
/// lifetime has run out.
pub open spec fn kept_issuer_claims(s: HostView, issuer: Seq<u8>) -> Seq<u64> {
    if s.persistent.dom().contains(DataKeyView::IssuerClaims(issuer)) {
        match s.persistent[DataKeyView::IssuerClaims(issuer)].value {
            ValueView::ClaimIds(ids) => ids,
            _ => Seq::empty(),
        }
    } else {
        Seq::empty()
    }
}

/// Tells whether the entries agree with each other and with the counter:
/// the counter has passed the id of every claim that is kept or listed, a
/// claim carries the id under which it is kept, and a claim in the list of
/// a receiver or of an issuer names that receiver or that issuer.
pub open spec fn entries_agree(s: HostView) -> bool {
    &&& forall|id: u64| #[trigger]
        s.persistent.dom().contains(DataKeyView::Claim(id)) ==> id < s.next_claim_id
    &&& forall|id: u64| #[trigger]
        kept_claim(s, id).is_some() ==> kept_claim(s, id).unwrap().id == id
    &&& forall|receiver: Seq<u8>, k: int|
        0 <= k < kept_user_claims(s, receiver).len() ==> {
            let id = #[trigger] kept_user_claims(s, receiver)[k];
            &&& id < s.next_claim_id
            &&& kept_claim(s, id).is_some() ==> kept_claim(s, id).unwrap().receiver == receiver
        }
    &&& forall|issuer: Seq<u8>, k: int|
        0 <= k < kept_issuer_claims(s, issuer).len() ==> {
            let id = #[trigger] kept_issuer_claims(s, issuer)[k];
            &&& id < s.next_claim_id
            &&& kept_claim(s, id).is_some() ==> kept_claim(s, id).unwrap().issuer == issuer
        }
}

/// In a registry that has just been set up the entries agree: there are none.
pub proof fn lemma_fresh_entries_agree(ledger: Ledger)
    ensures
        entries_agree(HostView::fresh(ledger)),
{
}

/// A call leaves the entries in agreement.
pub proof fn lemma_step_keeps_agreement(s: HostView, call: Call)
    requires
        entries_agree(s),
        call is AddClaim ==> s.next_claim_id < u64::MAX,
    ensures
        entries_agree(step(s, call)),
{
    let after = step(s, call);
    assert forall|id: u64| #[trigger]
        after.persistent.dom().contains(DataKeyView::Claim(id)) implies id
        < after.next_claim_id by {
        if !s.persistent.dom().contains(DataKeyView::Claim(id)) {
            assert(call is AddClaim);
        }
    }
    assert forall|id: u64| #[trigger] kept_claim(after, id).is_some() implies kept_claim(
        after,
        id,
    ).unwrap().id == id by {
        if kept_claim(s, id).is_some() {
            assert(kept_claim(s, id).unwrap().id == id);
        }
    }
    assert forall|receiver: Seq<u8>, k: int|
        0 <= k < kept_user_claims(after, receiver).len() implies {
        let id = #[trigger] kept_user_claims(after, receiver)[k];
        &&& id < after.next_claim_id
        &&& kept_claim(after, id).is_some() ==> kept_claim(after, id).unwrap().receiver
            == receiver
    } by {
        let id = kept_user_claims(after, receiver)[k];
        let live = s.user_claims(receiver);
        if kept_user_claims(after, receiver) == kept_user_claims(s, receiver) {
            assert(kept_user_claims(s, receiver)[k] == id);
        } else {
            assert(kept_user_claims(after, receiver) == live.push(s.next_claim_id));
            if k < live.len() {
                assert(live == kept_user_claims(s, receiver));
                assert(kept_user_claims(s, receiver)[k] == id);
            }
        }
        if kept_claim(s, id).is_some() {
            assert(s.persistent.dom().contains(DataKeyView::Claim(id)));
        }
    }
    assert forall|issuer: Seq<u8>, k: int|
        0 <= k < kept_issuer_claims(after, issuer).len() implies {
        let id = #[trigger] kept_issuer_claims(after, issuer)[k];
        &&& id < after.next_claim_id
        &&& kept_claim(after, id).is_some() ==> kept_claim(after, id).unwrap().issuer == issuer
    } by {
        let id = kept_issuer_claims(after, issuer)[k];
        let live = s.issuer_claims(issuer);
        if kept_issuer_claims(after, issuer) == kept_issuer_claims(s, issuer) {
            assert(kept_issuer_claims(s, issuer)[k] == id);
        } else {
            assert(kept_issuer_claims(after, issuer) == live.push(s.next_claim_id));
            if k < live.len() {
                assert(live == kept_issuer_claims(s, issuer));
                assert(kept_issuer_claims(s, issuer)[k] == id);
            }
        }
        if kept_claim(s, id).is_some() {
            assert(s.persistent.dom().contains(DataKeyView::Claim(id)));
        }
    }
}

/// A run of calls leaves the entries in agreement.
pub proof fn lemma_run_keeps_agreement(s: HostView, calls: Seq<Call>)
    requires
        entries_agree(s),
        s.next_claim_id + count_issued(calls) <= u64::MAX,
    ensures
        entries_agree(run(s, calls)),
    decreases calls.len(),
{
    if calls.len() > 0 {
        lemma_run_keeps_agreement(s, calls.drop_last());
        lemma_run_counts_issued(s, calls.drop_last());
        lemma_step_keeps_agreement(run(s, calls.drop_last()), calls.last());
    }
}

/// Where each of `ids` that names a claim names one about `receiver`, the
/// claims read under them are all about `receiver`.
pub proof fn lemma_claims_at_are_received(s: HostView, ids: Seq<u64>, receiver: Seq<u8>)
    requires
        forall|k: int|
            0 <= k < ids.len() && s.claim(#[trigger] ids[k]).is_some() ==> s.claim(
                ids[k],
            ).unwrap().receiver == receiver,
    ensures
        forall|j: int|
            0 <= j < claims_at(s, ids).len() ==> (#[trigger] claims_at(s, ids)[j]).receiver
                == receiver,
    decreases ids.len(),
{
    if ids.len() > 0 {
        let before = ids.drop_last();
        assert forall|k: int|
            0 <= k < before.len() && s.claim(#[trigger] before[k]).is_some() implies s.claim(
            before[k],
        ).unwrap().receiver == receiver by {
            assert(before[k] == ids[k]);
        }
        lemma_claims_at_are_received(s, before, receiver);
        assert(ids.last() == ids[ids.len() - 1]);
    }
}

/// Where each of `ids` that names a claim names one of `issuer`, the
/// claims read under them are all of `issuer`.
pub proof fn lemma_claims_at_are_issued(s: HostView, ids: Seq<u64>, issuer: Seq<u8>)
    requires
        forall|k: int|
            0 <= k < ids.len() && s.claim(#[trigger] ids[k]).is_some() ==> s.claim(
                ids[k],
            ).unwrap().issuer == issuer,
    ensures
        forall|j: int|
            0 <= j < claims_at(s, ids).len() ==> (#[trigger] claims_at(s, ids)[j]).issuer
                == issuer,
    decreases ids.len(),
{
    if ids.len() > 0 {
        let before = ids.drop_last();
        assert forall|k: int|
            0 <= k < before.len() && s.claim(#[trigger] before[k]).is_some() implies s.claim(
            before[k],
        ).unwrap().issuer == issuer by {
            assert(before[k] == ids[k]);
        }
        lemma_claims_at_are_issued(s, before, issuer);
        assert(ids.last() == ids[ids.len() - 1]);
    }
}

/// Every claim that is read from the list of a receiver is about that
/// receiver, and every claim that is read from the list of an issuer is of
/// that issuer.
pub proof fn lemma_listed_claims_match(s: HostView, account: Seq<u8>)
    requires
        entries_agree(s),
    ensures
        forall|j: int|
            0 <= j < claims_at(s, s.user_claims(account)).len() ==> (#[trigger] claims_at(
                s,
                s.user_claims(account),
            )[j]).receiver == account,
        forall|j: int|
            0 <= j < claims_at(s, s.issuer_claims(account)).len() ==> (#[trigger] claims_at(
                s,
                s.issuer_claims(account),
            )[j]).issuer == account,
{
    let received = s.user_claims(account);
    assert forall|k: int|
        0 <= k < received.len() && s.claim(#[trigger] received[k]).is_some() implies s.claim(
        received[k],
    ).unwrap().receiver == account by {
        assert(kept_user_claims(s, account)[k] == received[k]);
        assert(kept_claim(s, received[k]) == s.claim(received[k]));
    }
    lemma_claims_at_are_received(s, received, account);
    let issued = s.issuer_claims(account);
    assert forall|k: int|
        0 <= k < issued.len() && s.claim(#[trigger] issued[k]).is_some() implies s.claim(
        issued[k],
    ).unwrap().issuer == account by {
        assert(kept_issuer_claims(s, account)[k] == issued[k]);
        assert(kept_claim(s, issued[k]) == s.claim(issued[k]));
    }
    lemma_claims_at_are_issued(s, issued, account);
}

} // verus!
