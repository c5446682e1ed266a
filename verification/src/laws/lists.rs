use vstd::prelude::*;
use crate::contract::{add_claim_effect, issued_claim};
use crate::history::{
    count_issued, lemma_run_keeps_time_order, lemma_step_keeps_time_order, run, Call,
};
use crate::laws::ids::lemma_run_counts_issued;
use crate::storage::{HostView, Ledger, CLAIM_LIFETIME};
use crate::types::DataKeyView;

verus! {

/// The address about which `call` issues a claim, if it issues one.
pub open spec fn receiver_of(call: Call) -> Option<Seq<u8>> {
    match call {
        Call::AddClaim { receiver, .. } => Some(receiver),
        _ => None,
    }
}

/// The address that issues a claim by `call`, if it issues one.
pub open spec fn issuer_of(call: Call) -> Option<Seq<u8>> {
    match call {
        Call::AddClaim { issuer, .. } => Some(issuer),
        _ => None,
    }
}

/// The ids of the claims that `calls` issue about `receiver`, in the order
/// of the calls, where the first claim issued by any of them gets `start`.
pub open spec fn ids_received(calls: Seq<Call>, receiver: Seq<u8>, start: u64) -> Seq<u64>
    decreases calls.len(),
{
    if calls.len() == 0 {
        Seq::empty()
    } else if receiver_of(calls.last()) == Some(receiver) {
        ids_received(calls.drop_last(), receiver, start).push(
            (start + count_issued(calls.drop_last())) as u64,
        )
    } else {
        ids_received(calls.drop_last(), receiver, start)
    }
}

/// The ids of the claims that `issuer` issues by `calls`, in the order of
/// the calls, where the first claim issued by any of them gets `start`.
pub open spec fn ids_issued(calls: Seq<Call>, issuer: Seq<u8>, start: u64) -> Seq<u64>
    decreases calls.len(),
{
    if calls.len() == 0 {
        Seq::empty()
    } else if issuer_of(calls.last()) == Some(issuer) {
        ids_issued(calls.drop_last(), issuer, start).push(
            (start + count_issued(calls.drop_last())) as u64,
        )
    } else {
        ids_issued(calls.drop_last(), issuer, start)
    }
}

/// Tells whether the entry under `key`, if one is kept, will still be alive
/// at the ledger `until`.
pub open spec fn lives_until(s: HostView, key: DataKeyView, until: int) -> bool {
    s.persistent.dom().contains(key) ==> s.persistent[key].live_until >= until
}

/// The list of the claims that an address has received grows by the ids
/// of the claims issued about it, in the order of issuing, and by nothing
/// else, for as long as no lifetime of the list runs out: the run ends by
/// the ledger `until`, which the list as it was reaches, and which is no
/// later than one claim lifetime after the start.
pub proof fn lemma_user_claims_follow_issuing(
    s: HostView,
    calls: Seq<Call>,
    receiver: Seq<u8>,
    until: int,
)
    requires
        s.next_claim_id + count_issued(calls) <= u64::MAX,
        run(s, calls).ledger.sequence <= until <= s.ledger.sequence + CLAIM_LIFETIME,
        lives_until(s, DataKeyView::UserClaims(receiver), until),
    ensures
        run(s, calls).user_claims(receiver) == s.user_claims(receiver) + ids_received(
            calls,
            receiver,
            s.next_claim_id,
        ),
        lives_until(run(s, calls), DataKeyView::UserClaims(receiver), until),
    decreases calls.len(),
{
    if calls.len() == 0 {
        assert(s.user_claims(receiver) + Seq::<u64>::empty() =~= s.user_claims(receiver));
    } else {
        let before = calls.drop_last();
        let mid = run(s, before);
        lemma_step_keeps_time_order(mid, calls.last());
        lemma_run_keeps_time_order(s, before);
        lemma_user_claims_follow_issuing(s, before, receiver, until);
        lemma_run_counts_issued(s, before);
        if receiver_of(calls.last()) == Some(receiver) {
            let id = mid.next_claim_id;
            assert(run(s, calls).user_claims(receiver) == mid.user_claims(receiver).push(id));
            assert(mid.user_claims(receiver).push(id) =~= s.user_claims(receiver) + ids_received(
                calls,
                receiver,
                s.next_claim_id,
            ));
        } else {
            assert(run(s, calls).user_claims(receiver) == mid.user_claims(receiver));
        }
    }
}

/// The list of the claims that an address has issued grows by the ids of
/// the claims that it issues, in the order of issuing, and by nothing else,
/// for as long as no lifetime of the list runs out: the run ends by the
/// ledger `until`, which the list as it was reaches, and which is no later
/// than one claim lifetime after the start.
pub proof fn lemma_issuer_claims_follow_issuing(
    s: HostView,
    calls: Seq<Call>,
    issuer: Seq<u8>,
    until: int,
)
    requires
        s.next_claim_id + count_issued(calls) <= u64::MAX,
        run(s, calls).ledger.sequence <= until <= s.ledger.sequence + CLAIM_LIFETIME,
        lives_until(s, DataKeyView::IssuerClaims(issuer), until),
    ensures
        run(s, calls).issuer_claims(issuer) == s.issuer_claims(issuer) + ids_issued(
            calls,
            issuer,
            s.next_claim_id,
        ),
        lives_until(run(s, calls), DataKeyView::IssuerClaims(issuer), until),
    decreases calls.len(),
{
    if calls.len() == 0 {
        assert(s.issuer_claims(issuer) + Seq::<u64>::empty() =~= s.issuer_claims(issuer));
    } else {
        let before = calls.drop_last();
        let mid = run(s, before);
        lemma_step_keeps_time_order(mid, calls.last());
        lemma_run_keeps_time_order(s, before);
        lemma_issuer_claims_follow_issuing(s, before, issuer, until);
        lemma_run_counts_issued(s, before);
        if issuer_of(calls.last()) == Some(issuer) {
            let id = mid.next_claim_id;
            assert(run(s, calls).issuer_claims(issuer) == mid.issuer_claims(issuer).push(id));
            assert(mid.issuer_claims(issuer).push(id) =~= s.issuer_claims(issuer) + ids_issued(
                calls,
                issuer,
                s.next_claim_id,
            ));
        } else {
            assert(run(s, calls).issuer_claims(issuer) == mid.issuer_claims(issuer));
        }
    }
}

/// How many of `calls` issue a claim about `receiver`.
pub open spec fn count_received(calls: Seq<Call>, receiver: Seq<u8>) -> nat
    decreases calls.len(),
{
    if calls.len() == 0 {
        0
    } else {
        count_received(calls.drop_last(), receiver) + (if receiver_of(calls.last()) == Some(
            receiver,
        ) {
            1nat
        } else {
            0nat
        })
    }
}

/// How many of `calls` issue a claim of `issuer`.
pub open spec fn count_issued_by(calls: Seq<Call>, issuer: Seq<u8>) -> nat
    decreases calls.len(),
{
    if calls.len() == 0 {
        0
    } else {
        count_issued_by(calls.drop_last(), issuer) + (if issuer_of(calls.last()) == Some(issuer) {
            1nat
        } else {
            0nat
        })
    }
}

/// There are as many ids of claims received as calls that issue a claim
/// about the receiver.
pub proof fn lemma_ids_received_len(calls: Seq<Call>, receiver: Seq<u8>, start: u64)
    ensures
        ids_received(calls, receiver, start).len() == count_received(calls, receiver),
    decreases calls.len(),
{
    if calls.len() > 0 {
        lemma_ids_received_len(calls.drop_last(), receiver, start);
    }
}

/// There are as many ids of claims issued as calls by which the issuer
/// issues a claim.
pub proof fn lemma_ids_issued_len(calls: Seq<Call>, issuer: Seq<u8>, start: u64)
    ensures
        ids_issued(calls, issuer, start).len() == count_issued_by(calls, issuer),
    decreases calls.len(),
{
    if calls.len() > 0 {
        lemma_ids_issued_len(calls.drop_last(), issuer, start);
    }
}

/// The ids of the claims received are exactly the ids handed out by the
/// calls that issue a claim about the receiver.
pub proof fn lemma_ids_received_are_exact(calls: Seq<Call>, receiver: Seq<u8>, start: u64, id: u64)
    requires
        start + count_issued(calls) <= u64::MAX,
    ensures
        ids_received(calls, receiver, start).contains(id) <==> exists|n: int|
            0 <= n < calls.len() && receiver_of(#[trigger] calls[n]) == Some(receiver) && id
                == start + count_issued(calls.take(n)),
    decreases calls.len(),
{
    if calls.len() == 0 {
    } else {
        let before = calls.drop_last();
        let last = calls.len() - 1;
        lemma_ids_received_are_exact(before, receiver, start, id);
        assert(calls.take(last) =~= before);
        let ids = ids_received(calls, receiver, start);
        if ids.contains(id) {
            let i = choose|i: int| 0 <= i < ids.len() && ids[i] == id;
            if receiver_of(calls.last()) == Some(receiver) && i == ids.len() - 1 {
                assert(receiver_of(calls[last]) == Some(receiver) && id == start + count_issued(
                    calls.take(last),
                ));
            } else {
                assert(ids_received(before, receiver, start)[i] == id);
                let n = choose|n: int|
                    0 <= n < before.len() && receiver_of(#[trigger] before[n]) == Some(receiver)
                        && id == start + count_issued(before.take(n));
                assert(before.take(n) =~= calls.take(n));
                assert(receiver_of(calls[n]) == Some(receiver));
            }
        }
        if exists|n: int|
            0 <= n < calls.len() && receiver_of(#[trigger] calls[n]) == Some(receiver) && id
                == start + count_issued(calls.take(n)) {
            let n = choose|n: int|
                0 <= n < calls.len() && receiver_of(#[trigger] calls[n]) == Some(receiver) && id
                    == start + count_issued(calls.take(n));
            if n == last {
                assert(ids[ids.len() - 1] == id);
            } else {
                assert(before.take(n) =~= calls.take(n));
                assert(receiver_of(before[n]) == Some(receiver));
                let prior = ids_received(before, receiver, start);
                let i = choose|i: int| 0 <= i < prior.len() && prior[i] == id;
                assert(ids[i] == id);
            }
        }
    }
}

/// The ids of the claims issued are exactly the ids handed out by the
/// calls by which the issuer issues a claim.
pub proof fn lemma_ids_issued_are_exact(calls: Seq<Call>, issuer: Seq<u8>, start: u64, id: u64)
    requires
        start + count_issued(calls) <= u64::MAX,
    ensures
        ids_issued(calls, issuer, start).contains(id) <==> exists|n: int|
            0 <= n < calls.len() && issuer_of(#[trigger] calls[n]) == Some(issuer) && id == start
                + count_issued(calls.take(n)),
    decreases calls.len(),
{
    if calls.len() == 0 {
    } else {
        let before = calls.drop_last();
        let last = calls.len() - 1;
        lemma_ids_issued_are_exact(before, issuer, start, id);
        assert(calls.take(last) =~= before);
        let ids = ids_issued(calls, issuer, start);
        if ids.contains(id) {
            let i = choose|i: int| 0 <= i < ids.len() && ids[i] == id;
            if issuer_of(calls.last()) == Some(issuer) && i == ids.len() - 1 {
                assert(issuer_of(calls[last]) == Some(issuer) && id == start + count_issued(
                    calls.take(last),
                ));
            } else {
                assert(ids_issued(before, issuer, start)[i] == id);
                let n = choose|n: int|
                    0 <= n < before.len() && issuer_of(#[trigger] before[n]) == Some(issuer) && id
                        == start + count_issued(before.take(n));
                assert(before.take(n) =~= calls.take(n));
                assert(issuer_of(calls[n]) == Some(issuer));
            }
        }
        if exists|n: int|
            0 <= n < calls.len() && issuer_of(#[trigger] calls[n]) == Some(issuer) && id == start
                + count_issued(calls.take(n)) {
            let n = choose|n: int|
                0 <= n < calls.len() && issuer_of(#[trigger] calls[n]) == Some(issuer) && id
                    == start + count_issued(calls.take(n));
            if n == last {
                assert(ids[ids.len() - 1] == id);
            } else {
                assert(before.take(n) =~= calls.take(n));
                assert(issuer_of(before[n]) == Some(issuer));
                let prior = ids_issued(before, issuer, start);
                let i = choose|i: int| 0 <= i < prior.len() && prior[i] == id;
                assert(ids[i] == id);
            }
        }
    }
}

/// Issuing keeps the claim under the id that the counter showed, pending,
/// with the issuer, the receiver, the type and the proof as given; the id
/// is then the last in the receiver's list and in the issuer's list.
pub proof fn lemma_issuing_keeps_the_claim(
    s: HostView,
    issuer: Seq<u8>,
    receiver: Seq<u8>,
    claim_type: Seq<u8>,
    proof_hash: Seq<u8>,
)
    ensures
        add_claim_effect(s, issuer, receiver, claim_type, proof_hash).claim(s.next_claim_id)
            == Some(issued_claim(s.next_claim_id, issuer, receiver, claim_type, proof_hash)),
        add_claim_effect(s, issuer, receiver, claim_type, proof_hash).user_claims(receiver)
            == s.user_claims(receiver).push(s.next_claim_id),
        add_claim_effect(s, issuer, receiver, claim_type, proof_hash).issuer_claims(issuer)
            == s.issuer_claims(issuer).push(s.next_claim_id),
{
}

/// In a registry that was set up empty, for as long as no claim lifetime
/// has run out since, the list of an address as receiver holds exactly the
/// ids of the claims issued about it, and its list as issuer exactly the
/// ids of the claims that it issued, each in the order of issuing and as
/// many as there were such calls; the ids count the claims from 0.
pub proof fn lemma_lists_since_set_up(ledger: Ledger, calls: Seq<Call>, account: Seq<u8>)
    requires
        count_issued(calls) <= u64::MAX,
        run(HostView::fresh(ledger), calls).ledger.sequence <= ledger.sequence + CLAIM_LIFETIME,
    ensures
        run(HostView::fresh(ledger), calls).user_claims(account) == ids_received(
            calls,
            account,
            0,
        ),
        run(HostView::fresh(ledger), calls).issuer_claims(account) == ids_issued(
            calls,
            account,
            0,
        ),
        ids_received(calls, account, 0).len() == count_received(calls, account),
        ids_issued(calls, account, 0).len() == count_issued_by(calls, account),
{
    let s = HostView::fresh(ledger);
    let until = ledger.sequence + CLAIM_LIFETIME;
    lemma_user_claims_follow_issuing(s, calls, account, until);
    lemma_issuer_claims_follow_issuing(s, calls, account, until);
    lemma_ids_received_len(calls, account, 0);
    lemma_ids_issued_len(calls, account, 0);
    assert(Seq::<u64>::empty() + ids_received(calls, account, 0) =~= ids_received(
        calls,
        account,
        0,
    ));
    assert(Seq::<u64>::empty() + ids_issued(calls, account, 0) =~= ids_issued(calls, account, 0));
}

} // verus!
