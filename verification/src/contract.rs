use vstd::prelude::*;
use crate::auth::{
    is_valid_did, is_valid_metadata_uri, validate_claim_ownership, validate_did,
    validate_metadata_uri,
};
use crate::errors::Error;
use crate::events::{
    ClaimAddedEvent, ClaimApprovedEvent, ClaimRejectedEvent, DidLinkedEvent, Event, EventView,
    ProfileRegisteredEvent,
};
use crate::reputation::{
    claims_score, lemma_claims_score_grows, points_for_type, reputation_score, weeks_since,
};
use crate::storage::{
    add_issuer_claim, add_user_claim, get_claim, get_issuer_claims, get_next_claim_id,
    get_profile, get_user_claims, has_profile, increment_next_claim_id, optional_claim_view,
    optional_profile_view, set_claim, set_profile, Host, HostView,
};
use crate::store::ValueView;
use crate::types::{
    copy_bytes, linked_accounts_view, optional_bytes_view,
    optional_digest_view, Address, Claim, ClaimStatus, ClaimView, DataKeyView, LinkedAccount,
    LinkedAccountView, Profile, ProfileView,
};

verus! {

/// What a caller supplies of a profile: all of it but the owner, the DID
/// and the time of joining.
pub struct ProfileData {
    pub metadata_uri: Seq<u8>,
    pub display_name: Seq<u8>,
    pub country_code: Option<Seq<u8>>,
    pub email_hash: Option<Seq<u8>>,
    pub linked_accounts: Seq<LinkedAccountView>,
}

/// Whether `owner` may be registered with the given metadata URI: the URI
/// is looked at first, then whether a profile is already there.
pub open spec fn register_profile_outcome(s: HostView, owner: Seq<u8>, metadata_uri: Seq<u8>) -> Result<
    (),
    Error,
> {
    if !is_valid_metadata_uri(metadata_uri) {
        Err(Error::InvalidMetadataUri)
    } else if s.profile(owner).is_some() {
        Err(Error::ProfileAlreadyExists)
    } else {
        Ok(())
    }
}

/// The profile that registering creates: without a DID, joined now.
pub open spec fn registered_profile(s: HostView, owner: Seq<u8>, data: ProfileData) -> ProfileView {
    ProfileView {
        owner,
        metadata_uri: data.metadata_uri,
        did: None,
        display_name: data.display_name,
        country_code: data.country_code,
        email_hash: data.email_hash,
        linked_accounts: data.linked_accounts,
        joined_at: s.ledger.timestamp,
    }
}

/// The registry after `owner` asked to be registered: on success the new
/// profile is written and announced; on failure nothing has changed.
pub open spec fn register_profile_effect(s: HostView, owner: Seq<u8>, data: ProfileData) -> HostView {
    if register_profile_outcome(s, owner, data.metadata_uri).is_ok() {
        s.set(
            DataKeyView::Profile(owner),
            ValueView::Profile(registered_profile(s, owner, data)),
        ).publish(EventView::ProfileRegistered { owner, metadata_uri: data.metadata_uri })
    } else {
        s
    }
}

/// Whether the profile of `owner` may be updated with the given metadata
/// URI: the URI is looked at first, then whether there is a profile.
pub open spec fn update_profile_outcome(s: HostView, owner: Seq<u8>, metadata_uri: Seq<u8>) -> Result<
    (),
    Error,
> {
    if !is_valid_metadata_uri(metadata_uri) {
        Err(Error::InvalidMetadataUri)
    } else if s.profile(owner).is_none() {
        Err(Error::ProfileNotFound)
    } else {
        Ok(())
    }
}

/// A profile with its changeable fields replaced: the owner, the DID and
/// the time of joining stay.
pub open spec fn updated_profile(profile: ProfileView, data: ProfileData) -> ProfileView {
    ProfileView {
        metadata_uri: data.metadata_uri,
        display_name: data.display_name,
        country_code: data.country_code,
        email_hash: data.email_hash,
        linked_accounts: data.linked_accounts,
        ..profile
    }
}

/// The registry after `owner` asked for an update of the profile.
pub open spec fn update_profile_effect(s: HostView, owner: Seq<u8>, data: ProfileData) -> HostView {
    if update_profile_outcome(s, owner, data.metadata_uri).is_ok() {
        s.set(
            DataKeyView::Profile(owner),
            ValueView::Profile(updated_profile(s.profile(owner).unwrap(), data)),
        )
    } else {
        s
    }
}

/// Whether `did` may be linked to the profile of `owner`: the DID is looked
/// at first, then whether there is a profile.
pub open spec fn link_did_outcome(s: HostView, owner: Seq<u8>, did: Seq<u8>) -> Result<(), Error> {
    if !is_valid_did(did) {
        Err(Error::InvalidDid)
    } else if s.profile(owner).is_none() {
        Err(Error::ProfileNotFound)
    } else {
        Ok(())
    }
}

/// The registry after `owner` asked to link `did`: on success the profile
/// holds the new DID, whatever it held before, and the link is announced.
pub open spec fn link_did_effect(s: HostView, owner: Seq<u8>, did: Seq<u8>) -> HostView {
    if link_did_outcome(s, owner, did).is_ok() {
        s.set(
            DataKeyView::Profile(owner),
            ValueView::Profile(ProfileView { did: Some(did), ..s.profile(owner).unwrap() }),
        ).publish(EventView::DidLinked { owner, did })
    } else {
        s
    }
}

/// The claim that issuing creates: it waits for its issuer's verdict.
pub open spec fn issued_claim(
    id: u64,
    issuer: Seq<u8>,
    receiver: Seq<u8>,
    claim_type: Seq<u8>,
    proof_hash: Seq<u8>,
) -> ClaimView {
    ClaimView { id, issuer, receiver, claim_type, proof_hash, status: ClaimStatus::Pending }
}

/// The registry after a claim was issued: the counter has moved on, the
/// claim is kept under the id that the counter showed, the id is the last
/// in the receiver's list and in the issuer's list, and the claim is announced.
pub open spec fn add_claim_effect(
    s: HostView,
    issuer: Seq<u8>,
    receiver: Seq<u8>,
    claim_type: Seq<u8>,
    proof_hash: Seq<u8>,
) -> HostView {
    let id = s.next_claim_id;
    let counted = s.increment_next_claim_id();
    let kept = counted.set(
        DataKeyView::Claim(id),
        ValueView::Claim(issued_claim(id, issuer, receiver, claim_type, proof_hash)),
    );
    let received = kept.set(
        DataKeyView::UserClaims(receiver),
        ValueView::ClaimIds(kept.user_claims(receiver).push(id)),
    );
    let issued = received.set(
        DataKeyView::IssuerClaims(issuer),
        ValueView::ClaimIds(received.issuer_claims(issuer).push(id)),
    );
    issued.publish(EventView::ClaimAdded { claim_id: id, issuer, receiver, claim_type })
}

/// Whether a claim in the given status may still be settled: only a
/// pending claim may; an approved or rejected one stays as it is.
pub open spec fn settle_status_outcome(status: ClaimStatus) -> Result<(), Error> {
    match status {
        ClaimStatus::Pending => Ok(()),
        ClaimStatus::Approved => Err(Error::ClaimAlreadyApproved),
        ClaimStatus::Rejected => Err(Error::ClaimAlreadyRejected),
    }
}

/// Whether `caller` may settle the claim: the claim must be there, the
/// caller must be its issuer, and it must still be pending, in this order.
pub open spec fn settle_outcome(s: HostView, caller: Seq<u8>, claim_id: u64) -> Result<(), Error> {
    match s.claim(claim_id) {
        None => Err(Error::ClaimNotFound),
        Some(claim) => if claim.issuer != caller {
            Err(Error::UnauthorizedApproval)
        } else {
            settle_status_outcome(claim.status)
        },
    }
}

/// The notification that goes out when a claim is settled.
pub open spec fn settled_event(claim: ClaimView, verdict: ClaimStatus) -> EventView {
    if verdict == ClaimStatus::Approved {
        EventView::ClaimApproved {
            claim_id: claim.id,
            issuer: claim.issuer,
            receiver: claim.receiver,
        }
    } else {
        EventView::ClaimRejected {
            claim_id: claim.id,
            issuer: claim.issuer,
            receiver: claim.receiver,
        }
    }
}

/// The registry after `caller` asked to settle a claim with `verdict`: on
/// success the claim holds the verdict and is otherwise as before.
pub open spec fn settle_effect(s: HostView, caller: Seq<u8>, claim_id: u64, verdict: ClaimStatus) -> HostView {
    if settle_outcome(s, caller, claim_id).is_ok() {
        let claim = s.claim(claim_id).unwrap();
        s.set(
            DataKeyView::Claim(claim_id),
            ValueView::Claim(ClaimView { status: verdict, ..claim }),
        ).publish(settled_event(claim, verdict))
    } else {
        s
    }
}

/// What a list of claims stands for: the claims in order.
pub open spec fn claims_view(claims: Seq<Claim>) -> Seq<ClaimView> {
    claims.map_values(|c: Claim| c@)
}

/// The claims kept under the given ids, in the order of the ids; an id
/// under which no claim is kept is passed over.
pub open spec fn claims_at(s: HostView, ids: Seq<u64>) -> Seq<ClaimView>
    decreases ids.len(),
{
    if ids.len() == 0 {
        Seq::empty()
    } else {
        match s.claim(ids.last()) {
            Some(claim) => claims_at(s, ids.drop_last()).push(claim),
            None => claims_at(s, ids.drop_last()),
        }
    }
}

/// What the caller's fields of a profile stand for.
pub open spec fn profile_data_view(
    metadata_uri: Vec<u8>,
    display_name: Vec<u8>,
    country_code: Option<Vec<u8>>,
    email_hash: Option<[u8; 32]>,
    linked_accounts: Vec<LinkedAccount>,
) -> ProfileData {
    ProfileData {
        metadata_uri: metadata_uri@,
        display_name: display_name@,
        country_code: optional_bytes_view(country_code),
        email_hash: optional_digest_view(email_hash),
        linked_accounts: linked_accounts_view(linked_accounts@),
    }
}

/// Whether a claim in the given status may still be settled.
pub fn check_pending(status: ClaimStatus) -> (checked: Result<(), Error>)
    ensures
        checked == settle_status_outcome(status),
{
    match status {
        ClaimStatus::Pending => Ok(()),
        ClaimStatus::Approved => Err(Error::ClaimAlreadyApproved),
        ClaimStatus::Rejected => Err(Error::ClaimAlreadyRejected),
    }
}

/// The registry's operations. Each of those that change something is
/// called in the name of an address, as which the platform must have
/// authenticated the caller beforehand; the others are open to anybody.
/// An operation that fails leaves the registry as it was.
pub struct OfferHub;

impl OfferHub {
    /// Registers a profile for `owner`.
    pub fn register_profile(
        e: &mut Host,
        owner: Address,
        metadata_uri: Vec<u8>,
        display_name: Vec<u8>,
        country_code: Option<Vec<u8>>,
        email_hash: Option<[u8; 32]>,
        linked_accounts: Vec<LinkedAccount>,
    ) -> (done: Result<(), Error>)
        requires
            old(e)@.authorized.contains(owner@),
        ensures
            done == register_profile_outcome(old(e)@, owner@, metadata_uri@),
            final(e)@ == register_profile_effect(
                old(e)@,
                owner@,
                profile_data_view(
                    metadata_uri,
                    display_name,
                    country_code,
                    email_hash,
                    linked_accounts,
                ),
            ),
    {
        match validate_metadata_uri(&metadata_uri) {
            Err(err) => {
                return Err(err);
            },
            Ok(_) => {},
        }
        if has_profile(e, &owner) {
            return Err(Error::ProfileAlreadyExists);
        }
        let event = Event::ProfileRegistered(
            ProfileRegisteredEvent {
                owner: owner.clone(),
                metadata_uri: copy_bytes(&metadata_uri),
            },
        );
        let profile = Profile {
            owner: owner.clone(),
            metadata_uri,
            did: None,
            display_name,
            country_code,
            email_hash,
            linked_accounts,
            joined_at: e.ledger().timestamp,
        };
        set_profile(e, &owner, &profile);
        e.publish(event);
        Ok(())
    }

    /// Replaces the changeable fields of the profile of `owner`.
    pub fn update_profile_data(
        e: &mut Host,
        owner: Address,
        display_name: Vec<u8>,
        metadata_uri: Vec<u8>,
        country_code: Option<Vec<u8>>,
        email_hash: Option<[u8; 32]>,
        linked_accounts: Vec<LinkedAccount>,
    ) -> (done: Result<(), Error>)
        requires
            old(e)@.authorized.contains(owner@),
        ensures
            done == update_profile_outcome(old(e)@, owner@, metadata_uri@),
            final(e)@ == update_profile_effect(
                old(e)@,
                owner@,
                profile_data_view(
                    metadata_uri,
                    display_name,
                    country_code,
                    email_hash,
                    linked_accounts,
                ),
            ),
    {
        match validate_metadata_uri(&metadata_uri) {
            Err(err) => {
                return Err(err);
            },
            Ok(_) => {},
        }
        let mut profile = match get_profile(e, &owner) {
            Some(p) => p,
            None => {
                return Err(Error::ProfileNotFound);
            },
        };
        profile.display_name = display_name;
        profile.metadata_uri = metadata_uri;
        profile.country_code = country_code;
        profile.email_hash = email_hash;
        profile.linked_accounts = linked_accounts;
        set_profile(e, &owner, &profile);
        Ok(())
    }

    /// Issues a claim of `issuer` about `receiver` and returns its id: the
    /// number of claims issued before it.
    pub fn add_claim(
        e: &mut Host,
        issuer: Address,
        receiver: Address,
        claim_type: Vec<u8>,
        proof_hash: [u8; 32],
    ) -> (done: Result<u64, Error>)
        requires
            old(e)@.authorized.contains(issuer@),
            old(e)@.next_claim_id < u64::MAX,
        ensures
            done == Ok::<u64, Error>(old(e)@.next_claim_id),
            final(e)@ == add_claim_effect(
                old(e)@,
                issuer@,
                receiver@,
                claim_type@,
                proof_hash@,
            ),
    {
        let claim_id = increment_next_claim_id(e);
        let event = Event::ClaimAdded(
            ClaimAddedEvent {
                claim_id,
                issuer: issuer.clone(),
                receiver: receiver.clone(),
                claim_type: copy_bytes(&claim_type),
            },
        );
        let claim = Claim {
            id: claim_id,
            issuer: issuer.clone(),
            receiver: receiver.clone(),
            claim_type,
            proof_hash,
            status: ClaimStatus::Pending,
        };
        set_claim(e, claim_id, &claim);
        add_user_claim(e, &receiver, claim_id);
        add_issuer_claim(e, &issuer, claim_id);
        e.publish(event);
        Ok(claim_id)
    }

    /// Settles a pending claim with the verdict of its issuer.
    fn settle(e: &mut Host, caller: &Address, claim_id: u64, verdict: ClaimStatus) -> (done: Result<
        (),
        Error,
    >)
        requires
            old(e)@.authorized.contains(caller@),
            verdict != ClaimStatus::Pending,
        ensures
            done == settle_outcome(old(e)@, caller@, claim_id),
            final(e)@ == settle_effect(old(e)@, caller@, claim_id, verdict),
    {
        let mut claim = match get_claim(e, claim_id) {
            Some(c) => c,
            None => {
                return Err(Error::ClaimNotFound);
            },
        };
        match validate_claim_ownership(caller, &claim.issuer) {
            Err(err) => {
                return Err(err);
            },
            Ok(_) => {},
        }
        match check_pending(claim.status) {
            Err(err) => {
                return Err(err);
            },
            Ok(_) => {},
        }
        let event = match verdict {
            ClaimStatus::Approved => Event::ClaimApproved(
                ClaimApprovedEvent {
                    claim_id: claim.id,
                    issuer: claim.issuer.clone(),
                    receiver: claim.receiver.clone(),
                },
            ),
            _ => Event::ClaimRejected(
                ClaimRejectedEvent {
                    claim_id: claim.id,
                    issuer: claim.issuer.clone(),
                    receiver: claim.receiver.clone(),
                },
            ),
        };
        claim.status = verdict;
        set_claim(e, claim_id, &claim);
        e.publish(event);
        Ok(())
    }

    /// Approves a pending claim. Only its issuer may, and only once.
    pub fn approve_claim(e: &mut Host, issuer: Address, claim_id: u64) -> (done: Result<(), Error>)
        requires
            old(e)@.authorized.contains(issuer@),
        ensures
            done == settle_outcome(old(e)@, issuer@, claim_id),
            final(e)@ == settle_effect(old(e)@, issuer@, claim_id, ClaimStatus::Approved),
    {
        Self::settle(e, &issuer, claim_id, ClaimStatus::Approved)
    }

    /// Rejects a pending claim. Only its issuer may, and only once.
    pub fn reject_claim(e: &mut Host, issuer: Address, claim_id: u64) -> (done: Result<(), Error>)
        requires
            old(e)@.authorized.contains(issuer@),
        ensures
            done == settle_outcome(old(e)@, issuer@, claim_id),
            final(e)@ == settle_effect(old(e)@, issuer@, claim_id, ClaimStatus::Rejected),
    {
        Self::settle(e, &issuer, claim_id, ClaimStatus::Rejected)
    }

    /// Links `did` to the profile of `owner`, in place of any DID linked before.
    pub fn link_did(e: &mut Host, owner: Address, did: Vec<u8>) -> (done: Result<(), Error>)
        requires
            old(e)@.authorized.contains(owner@),
        ensures
            done == link_did_outcome(old(e)@, owner@, did@),
            final(e)@ == link_did_effect(old(e)@, owner@, did@),
    {
        match validate_did(&did) {
            Err(err) => {
                return Err(err);
            },
            Ok(_) => {},
        }
        let mut profile = match get_profile(e, &owner) {
            Some(p) => p,
            None => {
                return Err(Error::ProfileNotFound);
            },
        };
        let event = Event::DidLinked(
            DidLinkedEvent { owner: owner.clone(), did: copy_bytes(&did) },
        );
        profile.did = Some(did);
        set_profile(e, &owner, &profile);
        e.publish(event);
        Ok(())
    }

    /// The profile of `account`.
    pub fn get_profile(e: &Host, account: Address) -> (found: Option<Profile>)
        ensures
            optional_profile_view(found) == e@.profile(account@),
    {
        get_profile(e, &account)
    }

    /// The claim with the given id.
    pub fn get_claim(e: &Host, claim_id: u64) -> (found: Option<Claim>)
        ensures
            optional_claim_view(found) == e@.claim(claim_id),
    {
        get_claim(e, claim_id)
    }

    /// The claims kept under the given ids, in their order.
    fn collect_claims(e: &Host, claim_ids: &Vec<u64>) -> (claims: Vec<Claim>)
        ensures
            claims_view(claims@) == claims_at(e@, claim_ids@),
    {
        let mut claims: Vec<Claim> = Vec::new();
        let mut i: usize = 0;
        assert(claims_view(claims@) =~= claims_at(e@, claim_ids@.take(0)));
        while i < claim_ids.len()
            invariant
                i <= claim_ids@.len(),
                claims_view(claims@) == claims_at(e@, claim_ids@.take(i as int)),
            decreases claim_ids@.len() - i,
        {
            let ghost before = claims@;
            assert(claim_ids@.take(i + 1).drop_last() =~= claim_ids@.take(i as int));
            match get_claim(e, claim_ids[i]) {
                Some(claim) => {
                    claims.push(claim);
                    assert(claims_view(claims@) =~= claims_view(before).push(claim@));
                },
                None => {},
            }
            i += 1;
        }
        assert(claim_ids@.take(i as int) =~= claim_ids@);
        claims
    }

    /// The claims that `account` has received, oldest first.
    pub fn get_user_claims(e: &Host, account: Address) -> (claims: Vec<Claim>)
        ensures
            claims_view(claims@) == claims_at(e@, e@.user_claims(account@)),
    {
        let claim_ids = get_user_claims(e, &account);
        Self::collect_claims(e, &claim_ids)
    }

    /// The claims that `account` has issued, oldest first.
    pub fn get_issuer_claims(e: &Host, account: Address) -> (claims: Vec<Claim>)
        ensures
            claims_view(claims@) == claims_at(e@, e@.issuer_claims(account@)),
    {
        let claim_ids = get_issuer_claims(e, &account);
        Self::collect_claims(e, &claim_ids)
    }

    /// The number of claims issued so far.
    pub fn get_total_claims(e: &Host) -> (total: u64)
        ensures
            total == e@.next_claim_id,
    {
        get_next_claim_id(e)
    }

    /// The reputation of `account`, where it fits the score's width: what
    /// its approved claims are worth, and one point for each full week
    /// since it joined; nothing for an address without a profile.
    pub fn checked_reputation_score(e: &Host, account: &Address) -> (score: Option<u32>)
        ensures
            score == (if reputation_score(e@, account@) <= u32::MAX {
                Some(reputation_score(e@, account@) as u32)
            } else {
                None
            }),
    {
        let profile = match get_profile(e, account) {
            Some(p) => p,
            None => {
                return Some(0);
            },
        };
        let claims = get_user_claims(e, account);
        let mut score: u32 = 0;
        let mut i: usize = 0;
        assert(claims@.take(0) =~= Seq::<u64>::empty());
        while i < claims.len()
            invariant
                i <= claims@.len(),
                score == claims_score(e@, claims@.take(i as int)),
                e@.profile(account@).is_some(),
                claims@ == e@.user_claims(account@),
            decreases claims@.len() - i,
        {
            assert(claims@.take(i + 1).drop_last() =~= claims@.take(i as int));
            let mut points: u32 = 0;
            match get_claim(e, claims[i]) {
                Some(claim) => {
                    if claim.status == ClaimStatus::Approved {
                        points = points_for_type(&claim.claim_type);
                    }
                },
                None => {},
            }
            assert(claims@.take(i + 1).last() == claims@[i as int]);
            assert(claims_score(e@, claims@.take(i + 1)) == score + points);
            match score.checked_add(points) {
                Some(sum) => {
                    score = sum;
                },
                None => {
                    proof {
                        lemma_claims_score_grows(e@, claims@, i + 1);
                    }
                    return None;
                },
            }
            i += 1;
        }
        assert(claims@.take(i as int) =~= claims@);
        let weeks = weeks_since(profile.joined_at, e.ledger().timestamp);
        if weeks > u32::MAX as u64 {
            return None;
        }
        score.checked_add(weeks as u32)
    }

    /// The reputation of `account`: what its approved claims are worth, and
    /// one point for each full week since it joined; nothing for an address
    /// without a profile.
    pub fn get_reputation_score(e: &Host, account: Address) -> (score: u32)
        requires
            reputation_score(e@, account@) <= u32::MAX,
        ensures
            score == reputation_score(e@, account@),
    {
        match Self::checked_reputation_score(e, &account) {
            Some(score) => score,
            None => 0,
        }
    }

    /// The DID linked to the profile of `account`.
    pub fn get_did(e: &Host, account: Address) -> (did: Option<Vec<u8>>)
        ensures
            optional_bytes_view(did) == (match e@.profile(account@) {
                Some(profile) => profile.did,
                None => None,
            }),
    {
        match get_profile(e, &account) {
            Some(profile) => profile.did,
            None => None,
        }
    }
}

} // verus!
