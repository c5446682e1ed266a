use vstd::prelude::*;
use crate::auth::{is_valid_did, is_valid_metadata_uri};
use crate::contract::{
    link_did_effect, link_did_outcome, register_profile_effect, register_profile_outcome,
    registered_profile, ProfileData,
};
use crate::errors::Error;
use crate::history::{lemma_run_keeps_time_order, refusal, run, step, Call};
use crate::storage::{HostView, Ledger, PROFILE_LIFETIME};
use crate::types::DataKeyView;

verus! {

/// A registry that has just been set up holds no profile.
pub proof fn lemma_fresh_registry_has_no_profile(ledger: Ledger, owner: Seq<u8>)
    ensures
        HostView::fresh(ledger).profile(owner).is_none(),
{
}

/// Where an address has no profile before a call and has one after it, the
/// call was a registration of that address, and it succeeded.
pub proof fn lemma_profile_appears_by_registration(s: HostView, call: Call, owner: Seq<u8>)
    requires
        s.profile(owner).is_none(),
        step(s, call).profile(owner).is_some(),
    ensures
        call is RegisterProfile,
        call->RegisterProfile_owner == owner,
        refusal(s, call).is_none(),
{
}

/// An address has no profile for as long as no registration of it has
/// succeeded, whatever else is called.
pub proof fn lemma_no_profile_before_registration(s: HostView, calls: Seq<Call>, owner: Seq<u8>)
    requires
        s.profile(owner).is_none(),
        forall|i: int|
            0 <= i < calls.len() && calls[i] is RegisterProfile
                && calls[i]->RegisterProfile_owner == owner ==> refusal(
                run(s, calls.take(i)),
                #[trigger] calls[i],
            ).is_some(),
    ensures
        run(s, calls).profile(owner).is_none(),
    decreases calls.len(),
{
    if calls.len() > 0 {
        let before = calls.drop_last();
        assert forall|i: int|
            0 <= i < before.len() && before[i] is RegisterProfile
                && before[i]->RegisterProfile_owner == owner implies refusal(
            run(s, before.take(i)),
            #[trigger] before[i],
        ).is_some() by {
            assert(before.take(i) =~= calls.take(i));
            assert(before[i] == calls[i]);
        }
        lemma_no_profile_before_registration(s, before, owner);
        let last = calls.len() - 1;
        assert(calls.take(last) =~= before);
        assert(calls.last() == calls[last]);
        if run(s, calls).profile(owner).is_some() {
            lemma_profile_appears_by_registration(run(s, before), calls.last(), owner);
        }
    }
}

/// A registration that succeeds leaves the profile as it was asked for:
/// with the caller's fields, without a DID, joined at the time of the call.
pub proof fn lemma_registration_keeps_the_profile(s: HostView, owner: Seq<u8>, data: ProfileData)
    requires
        register_profile_outcome(s, owner, data.metadata_uri).is_ok(),
    ensures
        register_profile_effect(s, owner, data).profile(owner) == Some(
            registered_profile(s, owner, data),
        ),
        registered_profile(s, owner, data).metadata_uri == data.metadata_uri,
        registered_profile(s, owner, data).did.is_none(),
        registered_profile(s, owner, data).joined_at == s.ledger.timestamp,
{
}

/// An address that has a profile cannot be registered again.
pub proof fn lemma_registration_is_refused_twice(s: HostView, owner: Seq<u8>, metadata_uri: Seq<u8>)
    requires
        s.profile(owner).is_some(),
        is_valid_metadata_uri(metadata_uri),
    ensures
        register_profile_outcome(s, owner, metadata_uri) == Err::<(), Error>(
            Error::ProfileAlreadyExists,
        ),
{
}

/// Tells whether the profile of `owner` is kept and will still be alive at
/// the ledger `until`.
pub open spec fn profile_lives_until(s: HostView, owner: Seq<u8>, until: int) -> bool {
    &&& s.persistent.dom().contains(DataKeyView::Profile(owner))
    &&& s.persistent[DataKeyView::Profile(owner)].value is Profile
    &&& s.persistent[DataKeyView::Profile(owner)].live_until >= until
}

/// A call leaves a profile in place, and alive for as long as before or longer,
/// where the clock stood no earlier than one profile lifetime before `until`.
pub proof fn lemma_step_keeps_profile(s: HostView, call: Call, owner: Seq<u8>, until: int)
    requires
        profile_lives_until(s, owner, until),
        until <= s.ledger.sequence + PROFILE_LIFETIME,
    ensures
        profile_lives_until(step(s, call), owner, until),
{
}

/// A run of calls leaves a profile in place, and alive until `until`, where
/// the clock at its start stood no earlier than one profile lifetime before
/// `until`.
pub proof fn lemma_run_keeps_profile(s: HostView, calls: Seq<Call>, owner: Seq<u8>, until: int)
    requires
        profile_lives_until(s, owner, until),
        until <= s.ledger.sequence + PROFILE_LIFETIME,
    ensures
        profile_lives_until(run(s, calls), owner, until),
    decreases calls.len(),
{
    if calls.len() > 0 {
        lemma_run_keeps_profile(s, calls.drop_last(), owner, until);
        lemma_run_keeps_time_order(s, calls.drop_last());
        lemma_step_keeps_profile(run(s, calls.drop_last()), calls.last(), owner, until);
    }
}

/// Once an address is registered it has a profile, and cannot be
/// registered again, whatever is called afterwards, for as long as the
/// profile's lifetime has not run out: that is at least until one profile
/// lifetime after the registration.
pub proof fn lemma_registration_is_once(
    s: HostView,
    owner: Seq<u8>,
    data: ProfileData,
    calls: Seq<Call>,
    metadata_uri: Seq<u8>,
)
    requires
        register_profile_outcome(s, owner, data.metadata_uri).is_ok(),
        is_valid_metadata_uri(metadata_uri),
        run(register_profile_effect(s, owner, data), calls).ledger.sequence <= s.ledger.sequence
            + PROFILE_LIFETIME,
    ensures
        run(register_profile_effect(s, owner, data), calls).profile(owner).is_some(),
        register_profile_outcome(
            run(register_profile_effect(s, owner, data), calls),
            owner,
            metadata_uri,
        ) == Err::<(), Error>(Error::ProfileAlreadyExists),
{
    let registered = register_profile_effect(s, owner, data);
    let until = s.ledger.sequence + PROFILE_LIFETIME;
    lemma_run_keeps_profile(registered, calls, owner, until);
}

/// A DID of fewer than ten bytes is refused, and the registry, with the
/// DID that the profile holds, stays as it was.
pub proof fn lemma_short_did_is_refused(s: HostView, owner: Seq<u8>, did: Seq<u8>)
    requires
        did.len() < 10,
    ensures
        link_did_outcome(s, owner, did) == Err::<(), Error>(Error::InvalidDid),
        link_did_effect(s, owner, did) == s,
{
}

/// A DID that is linked replaces the one linked before: after two links
/// the profile holds the second DID.
pub proof fn lemma_latest_did_wins(s: HostView, owner: Seq<u8>, first: Seq<u8>, second: Seq<u8>)
    requires
        s.profile(owner).is_some(),
        is_valid_did(first),
        is_valid_did(second),
    ensures
        link_did_outcome(s, owner, first).is_ok(),
        link_did_effect(s, owner, first).profile(owner).unwrap().did == Some(first),
        link_did_outcome(link_did_effect(s, owner, first), owner, second).is_ok(),
        link_did_effect(link_did_effect(s, owner, first), owner, second).profile(
            owner,
        ).unwrap().did == Some(second),
{
}

/// Registrations of two different addresses do not get in each other's
/// way: in either order both succeed or fail as they would alone, and the
/// same entries are kept.
pub proof fn lemma_registrations_commute(
    s: HostView,
    first: Seq<u8>,
    first_data: ProfileData,
    second: Seq<u8>,
    second_data: ProfileData,
)
    requires
        first != second,
    ensures
        register_profile_outcome(
            register_profile_effect(s, first, first_data),
            second,
            second_data.metadata_uri,
        ) == register_profile_outcome(s, second, second_data.metadata_uri),
        register_profile_outcome(
            register_profile_effect(s, second, second_data),
            first,
            first_data.metadata_uri,
        ) == register_profile_outcome(s, first, first_data.metadata_uri),
        register_profile_effect(
            register_profile_effect(s, first, first_data),
            second,
            second_data,
        ).persistent == register_profile_effect(
            register_profile_effect(s, second, second_data),
            first,
            first_data,
        ).persistent,
{
    assert(register_profile_effect(
        register_profile_effect(s, first, first_data),
        second,
        second_data,
    ).persistent =~= register_profile_effect(
        register_profile_effect(s, second, second_data),
        first,
        first_data,
    ).persistent);
}

} // verus!
