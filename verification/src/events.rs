use vstd::prelude::*;
use crate::types::{copy_bytes, Address};

verus! {

/// Published when a profile has been registered.
#[derive(Debug, PartialEq, Eq)]
pub struct ProfileRegisteredEvent {
    pub owner: Address,
    pub metadata_uri: Vec<u8>,
}

/// Published when a claim has been issued.
#[derive(Debug, PartialEq, Eq)]
pub struct ClaimAddedEvent {
    pub claim_id: u64,
    pub issuer: Address,
    pub receiver: Address,
    pub claim_type: Vec<u8>,
}

/// Published when a claim has been approved.
#[derive(Debug, PartialEq, Eq)]
pub struct ClaimApprovedEvent {
    pub claim_id: u64,
    pub issuer: Address,
    pub receiver: Address,
}

/// Published when a claim has been rejected.
#[derive(Debug, PartialEq, Eq)]
pub struct ClaimRejectedEvent {
    pub claim_id: u64,
    pub issuer: Address,
    pub receiver: Address,
}

/// Published when a DID has been linked to a profile.
#[derive(Debug, PartialEq, Eq)]
pub struct DidLinkedEvent {
    pub owner: Address,
    pub did: Vec<u8>,
}

/// A notification to those who watch the registry from outside.
#[derive(Debug, PartialEq, Eq)]
pub enum Event {
    ProfileRegistered(ProfileRegisteredEvent),
    ClaimAdded(ClaimAddedEvent),
    ClaimApproved(ClaimApprovedEvent),
    ClaimRejected(ClaimRejectedEvent),
    DidLinked(DidLinkedEvent),
}

/// What a notification stands for.
pub enum EventView {
    ProfileRegistered { owner: Seq<u8>, metadata_uri: Seq<u8> },
    ClaimAdded { claim_id: u64, issuer: Seq<u8>, receiver: Seq<u8>, claim_type: Seq<u8> },
    ClaimApproved { claim_id: u64, issuer: Seq<u8>, receiver: Seq<u8> },
    ClaimRejected { claim_id: u64, issuer: Seq<u8>, receiver: Seq<u8> },
    DidLinked { owner: Seq<u8>, did: Seq<u8> },
}

impl View for Event {
    type V = EventView;

    open spec fn view(&self) -> EventView {
        match self {
            Event::ProfileRegistered(e) => EventView::ProfileRegistered {
                owner: e.owner@,
                metadata_uri: e.metadata_uri@,
            },
            Event::ClaimAdded(e) => EventView::ClaimAdded {
                claim_id: e.claim_id,
                issuer: e.issuer@,
                receiver: e.receiver@,
                claim_type: e.claim_type@,
            },
            Event::ClaimApproved(e) => EventView::ClaimApproved {
                claim_id: e.claim_id,
                issuer: e.issuer@,
                receiver: e.receiver@,
            },
            Event::ClaimRejected(e) => EventView::ClaimRejected {
                claim_id: e.claim_id,
                issuer: e.issuer@,
                receiver: e.receiver@,
            },
            Event::DidLinked(e) => EventView::DidLinked { owner: e.owner@, did: e.did@ },
        }
    }
}

impl Clone for Event {
    fn clone(&self) -> (copy: Self)
        ensures
            copy@ == self@,
    {
        match self {
            Event::ProfileRegistered(e) => Event::ProfileRegistered(
                ProfileRegisteredEvent {
                    owner: e.owner.clone(),
                    metadata_uri: copy_bytes(&e.metadata_uri),
                },
            ),
            Event::ClaimAdded(e) => Event::ClaimAdded(
                ClaimAddedEvent {
                    claim_id: e.claim_id,
                    issuer: e.issuer.clone(),
                    receiver: e.receiver.clone(),
                    claim_type: copy_bytes(&e.claim_type),
                },
            ),
            Event::ClaimApproved(e) => Event::ClaimApproved(
                ClaimApprovedEvent {
                    claim_id: e.claim_id,
                    issuer: e.issuer.clone(),
                    receiver: e.receiver.clone(),
                },
            ),
            Event::ClaimRejected(e) => Event::ClaimRejected(
                ClaimRejectedEvent {
                    claim_id: e.claim_id,
                    issuer: e.issuer.clone(),
                    receiver: e.receiver.clone(),
                },
            ),
            Event::DidLinked(e) => Event::DidLinked(
                DidLinkedEvent { owner: e.owner.clone(), did: copy_bytes(&e.did) },
            ),
        }
    }
}

} // verus!
