use offer_hub::auth::{
    require_caller_is, validate_claim_ownership, validate_did, validate_metadata_uri,
};
use offer_hub::contract::{check_pending, OfferHub};
use offer_hub::errors::{Error, Unauthorized};
use offer_hub::events::{
    ClaimAddedEvent, ClaimApprovedEvent, ClaimRejectedEvent, DidLinkedEvent, Event,
    ProfileRegisteredEvent,
};
use offer_hub::reputation::{points_for_type, weeks_since};
use offer_hub::storage::{
    add_issuer_claim, add_user_claim, get_claim, get_issuer_claims, get_next_claim_id,
    get_profile, get_user_claims, has_profile, increment_next_claim_id, set_claim, set_profile,
    Host, Ledger, CLAIM_LIFETIME, INSTANCE_LIFETIME, PROFILE_LIFETIME,
};
use offer_hub::store::{Store, Value};
use offer_hub::types::{Address, Claim, ClaimStatus, DataKey, LinkedAccount, Profile};

const START: u64 = 1_700_000_000;
const WEEK: u64 = 604_800;

fn host_at(timestamp: u64, sequence: u32) -> Host {
    Host::new(Ledger { timestamp, sequence })
}

fn fresh() -> Host {
    host_at(START, 100)
}

fn addr(name: &str) -> Address {
    Address::new(name.as_bytes().to_vec())
}

fn text(s: &str) -> Vec<u8> {
    s.as_bytes().to_vec()
}

fn register_with(
    e: &mut Host,
    owner: Address,
    metadata_uri: Vec<u8>,
    display_name: Vec<u8>,
    country_code: Option<Vec<u8>>,
    email_hash: Option<[u8; 32]>,
    linked_accounts: Vec<LinkedAccount>,
) -> Result<(), Error> {
    e.authorize(owner.clone());
    OfferHub::register_profile(
        e,
        owner,
        metadata_uri,
        display_name,
        country_code,
        email_hash,
        linked_accounts,
    )
}

fn update(
    e: &mut Host,
    owner: Address,
    display_name: Vec<u8>,
    metadata_uri: Vec<u8>,
    country_code: Option<Vec<u8>>,
    email_hash: Option<[u8; 32]>,
    linked_accounts: Vec<LinkedAccount>,
) -> Result<(), Error> {
    e.authorize(owner.clone());
    OfferHub::update_profile_data(
        e,
        owner,
        display_name,
        metadata_uri,
        country_code,
        email_hash,
        linked_accounts,
    )
}

fn add(
    e: &mut Host,
    issuer: Address,
    receiver: Address,
    claim_type: Vec<u8>,
    proof_hash: [u8; 32],
) -> Result<u64, Error> {
    e.authorize(issuer.clone());
    OfferHub::add_claim(e, issuer, receiver, claim_type, proof_hash)
}

fn approve(e: &mut Host, issuer: Address, claim_id: u64) -> Result<(), Error> {
    e.authorize(issuer.clone());
    OfferHub::approve_claim(e, issuer, claim_id)
}

fn reject(e: &mut Host, issuer: Address, claim_id: u64) -> Result<(), Error> {
    e.authorize(issuer.clone());
    OfferHub::reject_claim(e, issuer, claim_id)
}

fn link(e: &mut Host, owner: Address, did: Vec<u8>) -> Result<(), Error> {
    e.authorize(owner.clone());
    OfferHub::link_did(e, owner, did)
}

fn register(e: &mut Host, owner: &Address, uri: &str) -> Result<(), Error> {
    register_with(e, owner.clone(), text(uri), Vec::new(), None, None, Vec::new())
}

fn issue(e: &mut Host, issuer: &Address, receiver: &Address, claim_type: &str) -> u64 {
    add(e, issuer.clone(), receiver.clone(), text(claim_type), [7u8; 32]).unwrap()
}

fn score(e: &Host, account: &Address) -> u32 {
    OfferHub::checked_reputation_score(e, account).unwrap()
}

#[test]
fn profile_is_absent_until_registered_and_registered_once() {
    let mut e = fresh();
    let a = addr("A");
    let b = addr("B");
    assert_eq!(OfferHub::get_profile(&e, a.clone()), None);
    assert!(!has_profile(&e, &a));

    register(&mut e, &b, "ipfs://b").unwrap();
    issue(&mut e, &b, &a, "skill");
    assert_eq!(link(&mut e, a.clone(), text("did:kilt:a1")), Err(Error::ProfileNotFound));
    assert_eq!(OfferHub::get_profile(&e, a.clone()), None);

    assert_eq!(register(&mut e, &a, "ipfs://a"), Ok(()));
    assert!(OfferHub::get_profile(&e, a.clone()).is_some());
    assert!(has_profile(&e, &a));
    assert_eq!(register(&mut e, &a, "ipfs://a"), Err(Error::ProfileAlreadyExists));
    assert_eq!(register(&mut e, &a, "ipfs://other"), Err(Error::ProfileAlreadyExists));
    let kept = OfferHub::get_profile(&e, a).unwrap();
    assert_eq!(kept.metadata_uri, text("ipfs://a"));
}

#[test]
fn registration_fills_the_profile() {
    let mut e = host_at(START + 17, 9);
    let a = addr("A");
    let accounts = vec![
        LinkedAccount { platform: text("github"), handle: text("alice") },
        LinkedAccount { platform: text("linkedin"), handle: text("alice-l") },
    ];
    register_with(
        &mut e,
        a.clone(),
        text("ipfs://meta"),
        text("Alice"),
        Some(text("AR")),
        Some([3u8; 32]),
        accounts.clone(),
    )
    .unwrap();
    let expected = Profile {
        owner: a.clone(),
        metadata_uri: text("ipfs://meta"),
        did: None,
        display_name: text("Alice"),
        country_code: Some(text("AR")),
        email_hash: Some([3u8; 32]),
        linked_accounts: accounts,
        joined_at: START + 17,
    };
    assert_eq!(OfferHub::get_profile(&e, a.clone()), Some(expected));
    assert_eq!(OfferHub::get_did(&e, a), None);
}

#[test]
fn metadata_uri_length_limits() {
    assert_eq!(validate_metadata_uri(&Vec::new()), Err(Error::InvalidMetadataUri));
    assert_eq!(validate_metadata_uri(&vec![b'x'; 1]), Ok(()));
    assert_eq!(validate_metadata_uri(&vec![b'x'; 256]), Ok(()));
    assert_eq!(validate_metadata_uri(&vec![b'x'; 257]), Err(Error::InvalidMetadataUri));

    let mut e = fresh();
    let a = addr("A");
    let long = register_with(
        &mut e,
        a.clone(),
        vec![b'x'; 257],
        Vec::new(),
        None,
        None,
        Vec::new(),
    );
    assert_eq!(long, Err(Error::InvalidMetadataUri));
    assert_eq!(OfferHub::get_profile(&e, a.clone()), None);
    let limit = register_with(
        &mut e,
        a.clone(),
        vec![b'x'; 256],
        Vec::new(),
        None,
        None,
        Vec::new(),
    );
    assert_eq!(limit, Ok(()));
}

#[test]
fn did_length_limits() {
    assert_eq!(validate_did(&text("")), Err(Error::InvalidDid));
    assert_eq!(validate_did(&text("123456789")), Err(Error::InvalidDid));
    assert_eq!(validate_did(&text("1234567890")), Ok(()));
    assert_eq!(validate_did(&vec![b'd'; 1000]), Ok(()));
}

#[test]
fn the_format_is_checked_before_the_state() {
    let mut e = fresh();
    let a = addr("A");
    register(&mut e, &a, "ipfs://a").unwrap();
    assert_eq!(register(&mut e, &a, ""), Err(Error::InvalidMetadataUri));

    let stranger = addr("S");
    assert_eq!(link(&mut e, stranger.clone(), text("short")), Err(Error::InvalidDid));
    let update = update(
        &mut e,
        stranger,
        text("name"),
        Vec::new(),
        None,
        None,
        Vec::new(),
    );
    assert_eq!(update, Err(Error::InvalidMetadataUri));
}

#[test]
fn update_replaces_the_changeable_fields_only() {
    let mut e = fresh();
    let a = addr("A");
    register(&mut e, &a, "ipfs://a").unwrap();
    link(&mut e, a.clone(), text("did:kilt:alice")).unwrap();
    assert!(e.advance(Ledger { timestamp: START + 50, sequence: 110 }));

    let accounts = vec![LinkedAccount { platform: text("github"), handle: text("al") }];
    let done = update(
        &mut e,
        a.clone(),
        text("Alice"),
        text("ipfs://new"),
        Some(text("UY")),
        Some([9u8; 32]),
        accounts.clone(),
    );
    assert_eq!(done, Ok(()));
    let expected = Profile {
        owner: a.clone(),
        metadata_uri: text("ipfs://new"),
        did: Some(text("did:kilt:alice")),
        display_name: text("Alice"),
        country_code: Some(text("UY")),
        email_hash: Some([9u8; 32]),
        linked_accounts: accounts,
        joined_at: START,
    };
    assert_eq!(OfferHub::get_profile(&e, a), Some(expected));
}

#[test]
fn update_is_refused_without_a_profile_or_with_a_bad_uri() {
    let mut e = fresh();
    let a = addr("A");
    let missing = update(
        &mut e,
        a.clone(),
        text("n"),
        text("ipfs://a"),
        None,
        None,
        Vec::new(),
    );
    assert_eq!(missing, Err(Error::ProfileNotFound));

    register(&mut e, &a, "ipfs://a").unwrap();
    let written = e.written_len();
    let bad = update(
        &mut e,
        a.clone(),
        text("n"),
        vec![b'u'; 300],
        None,
        None,
        Vec::new(),
    );
    assert_eq!(bad, Err(Error::InvalidMetadataUri));
    assert_eq!(e.written_len(), written);
    assert_eq!(OfferHub::get_profile(&e, a).unwrap().metadata_uri, text("ipfs://a"));
}

#[test]
fn claim_ids_count_up_from_zero_without_gaps() {
    let mut e = fresh();
    let people = [addr("A"), addr("B"), addr("C")];
    for n in 0..12u64 {
        let issuer = &people[(n % 3) as usize];
        let receiver = &people[((n + 1) % 3) as usize];
        if n % 4 == 1 {
            let _ = approve(&mut e, people[0].clone(), 0);
            let _ = register(&mut e, issuer, "ipfs://p");
        }
        assert_eq!(OfferHub::get_total_claims(&e), n);
        assert_eq!(issue(&mut e, issuer, receiver, "skill"), n);
        assert_eq!(OfferHub::get_claim(&e, n).unwrap().id, n);
    }
    assert_eq!(OfferHub::get_total_claims(&e), 12);
    assert_eq!(get_next_claim_id(&e), 12);
}

#[test]
fn a_claim_is_settled_once() {
    let issuer = addr("I");
    let receiver = addr("R");

    let mut e = fresh();
    let id = issue(&mut e, &issuer, &receiver, "t");
    assert_eq!(approve(&mut e, issuer.clone(), id), Ok(()));
    assert_eq!(approve(&mut e, issuer.clone(), id), Err(Error::ClaimAlreadyApproved));
    assert_eq!(reject(&mut e, issuer.clone(), id), Err(Error::ClaimAlreadyApproved));
    assert_eq!(OfferHub::get_claim(&e, id).unwrap().status, ClaimStatus::Approved);

    let mut e = fresh();
    let id = issue(&mut e, &issuer, &receiver, "t");
    assert_eq!(reject(&mut e, issuer.clone(), id), Ok(()));
    assert_eq!(reject(&mut e, issuer.clone(), id), Err(Error::ClaimAlreadyRejected));
    assert_eq!(approve(&mut e, issuer.clone(), id), Err(Error::ClaimAlreadyRejected));
    assert_eq!(OfferHub::get_claim(&e, id).unwrap().status, ClaimStatus::Rejected);
}

#[test]
fn a_verdict_survives_later_calls() {
    let mut e = fresh();
    let issuer = addr("I");
    let receiver = addr("R");
    let id = issue(&mut e, &issuer, &receiver, "t");
    approve(&mut e, issuer.clone(), id).unwrap();
    let settled = OfferHub::get_claim(&e, id).unwrap();

    issue(&mut e, &issuer, &receiver, "u");
    register(&mut e, &receiver, "ipfs://r").unwrap();
    link(&mut e, receiver.clone(), text("did:kilt:rrr")).unwrap();
    let _ = reject(&mut e, issuer.clone(), id);
    reject(&mut e, issuer.clone(), 1).unwrap();
    assert!(e.advance(Ledger { timestamp: START + 9, sequence: 200 }));
    assert_eq!(OfferHub::get_claim(&e, id), Some(settled));
}

#[test]
fn only_the_issuer_settles_whatever_the_status() {
    let mut e = fresh();
    let issuer = addr("I");
    let receiver = addr("R");
    let other = addr("O");
    let pending = issue(&mut e, &issuer, &receiver, "t");
    let approved = issue(&mut e, &issuer, &receiver, "t");
    let rejected = issue(&mut e, &issuer, &receiver, "t");
    approve(&mut e, issuer.clone(), approved).unwrap();
    reject(&mut e, issuer.clone(), rejected).unwrap();
    let written = e.written_len();
    let events = e.events_len();

    for id in [pending, approved, rejected] {
        for caller in [&other, &receiver] {
            let before = OfferHub::get_claim(&e, id);
            assert_eq!(
                approve(&mut e, caller.clone(), id),
                Err(Error::UnauthorizedApproval)
            );
            assert_eq!(
                reject(&mut e, caller.clone(), id),
                Err(Error::UnauthorizedApproval)
            );
            assert_eq!(OfferHub::get_claim(&e, id), before);
        }
    }
    assert_eq!(e.written_len(), written);
    assert_eq!(e.events_len(), events);
    assert_eq!(validate_claim_ownership(&issuer, &issuer), Ok(()));
    assert_eq!(validate_claim_ownership(&other, &issuer), Err(Error::UnauthorizedApproval));
}

#[test]
fn pending_is_the_only_status_that_can_be_settled() {
    assert_eq!(check_pending(ClaimStatus::Pending), Ok(()));
    assert_eq!(check_pending(ClaimStatus::Approved), Err(Error::ClaimAlreadyApproved));
    assert_eq!(check_pending(ClaimStatus::Rejected), Err(Error::ClaimAlreadyRejected));
}

#[test]
fn the_lists_hold_exactly_the_matching_ids_in_order() {
    let mut e = fresh();
    let a = addr("A");
    let b = addr("B");
    let c = addr("C");
    assert_eq!(issue(&mut e, &a, &b, "x"), 0);
    assert_eq!(issue(&mut e, &b, &c, "x"), 1);
    assert_eq!(issue(&mut e, &a, &c, "x"), 2);
    assert_eq!(issue(&mut e, &c, &b, "x"), 3);
    assert_eq!(issue(&mut e, &a, &a, "x"), 4);
    assert_eq!(issue(&mut e, &a, &b, "x"), 5);

    assert_eq!(get_user_claims(&e, &a), vec![4]);
    assert_eq!(get_user_claims(&e, &b), vec![0, 3, 5]);
    assert_eq!(get_user_claims(&e, &c), vec![1, 2]);
    assert_eq!(get_issuer_claims(&e, &a), vec![0, 2, 4, 5]);
    assert_eq!(get_issuer_claims(&e, &b), vec![1]);
    assert_eq!(get_issuer_claims(&e, &c), vec![3]);
    assert_eq!(get_user_claims(&e, &addr("nobody")), Vec::<u64>::new());
    assert_eq!(get_issuer_claims(&e, &addr("nobody")), Vec::<u64>::new());

    let received: Vec<u64> = OfferHub::get_user_claims(&e, b.clone()).iter().map(|c| c.id).collect();
    assert_eq!(received, vec![0, 3, 5]);
    for claim in OfferHub::get_user_claims(&e, b.clone()) {
        assert_eq!(claim.receiver, b);
    }
    let issued: Vec<u64> = OfferHub::get_issuer_claims(&e, a.clone()).iter().map(|c| c.id).collect();
    assert_eq!(issued, vec![0, 2, 4, 5]);
    for claim in OfferHub::get_issuer_claims(&e, a.clone()) {
        assert_eq!(claim.issuer, a);
    }
    assert!(OfferHub::get_user_claims(&e, addr("nobody")).is_empty());
}

#[test]
fn issuing_keeps_the_claim_as_given() {
    let mut e = fresh();
    let a = addr("A");
    let b = addr("B");
    let id = add(&mut e, a.clone(), b.clone(), text("job_completed"), [5u8; 32]);
    assert_eq!(id, Ok(0));
    let expected = Claim {
        id: 0,
        issuer: a,
        receiver: b,
        claim_type: text("job_completed"),
        proof_hash: [5u8; 32],
        status: ClaimStatus::Pending,
    };
    assert_eq!(OfferHub::get_claim(&e, 0), Some(expected.clone()));
    assert_eq!(get_claim(&e, 0), Some(expected));
    assert_eq!(OfferHub::get_claim(&e, 1), None);
}

#[test]
fn score_of_a_new_member_is_zero() {
    let mut e = fresh();
    let a = addr("A");
    let i = addr("I");
    assert_eq!(score(&e, &a), 0);
    register(&mut e, &a, "ipfs://a").unwrap();
    assert_eq!(score(&e, &a), 0);
    assert_eq!(OfferHub::get_reputation_score(&e, a.clone()), 0);

    let pending = issue(&mut e, &i, &a, "job_completed");
    let rejected = issue(&mut e, &i, &a, "job_completed");
    reject(&mut e, i.clone(), rejected).unwrap();
    assert_eq!(OfferHub::get_claim(&e, pending).unwrap().status, ClaimStatus::Pending);
    assert_eq!(score(&e, &a), 0);
}

#[test]
fn approved_claims_score_by_their_type() {
    let mut e = fresh();
    let a = addr("A");
    let i = addr("I");
    register(&mut e, &a, "ipfs://a").unwrap();

    let job = issue(&mut e, &i, &a, "job_completed");
    approve(&mut e, i.clone(), job).unwrap();
    assert_eq!(score(&e, &a), 10);

    let skill = issue(&mut e, &i, &a, "skill_rust");
    approve(&mut e, i.clone(), skill).unwrap();
    assert_eq!(score(&e, &a), 15);

    for near_miss in ["job_complete", "job_completed ", "Job_completed", "", "job_completedx"] {
        let id = issue(&mut e, &i, &a, near_miss);
        let before = score(&e, &a);
        approve(&mut e, i.clone(), id).unwrap();
        assert_eq!(score(&e, &a), before + 5);
    }
    assert_eq!(score(&e, &a), 40);

    let second_job = issue(&mut e, &i, &a, "job_completed");
    approve(&mut e, i.clone(), second_job).unwrap();
    assert_eq!(OfferHub::get_reputation_score(&e, a.clone()), 50);

    assert_eq!(score(&e, &i), 0);
    let for_stranger = issue(&mut e, &a, &i, "job_completed");
    approve(&mut e, a.clone(), for_stranger).unwrap();
    assert_eq!(score(&e, &i), 0);
}

#[test]
fn the_scoring_rule() {
    assert_eq!(points_for_type(&text("job_completed")), 10);
    assert_eq!(points_for_type(&text("job_completee")), 5);
    assert_eq!(points_for_type(&text("hackathon_winner")), 5);
    assert_eq!(points_for_type(&Vec::new()), 5);
    assert_eq!(
        points_for_type(&vec![106, 111, 98, 95, 99, 111, 109, 112, 108, 101, 116, 101, 100]),
        10
    );
}

#[test]
fn each_full_week_of_membership_scores_a_point() {
    assert_eq!(weeks_since(START, START), 0);
    assert_eq!(weeks_since(START, START + WEEK - 1), 0);
    assert_eq!(weeks_since(START, START + WEEK), 1);
    assert_eq!(weeks_since(START, START + 3 * WEEK + 5), 3);
    assert_eq!(weeks_since(START, START - 1), 0);
    assert_eq!(weeks_since(0, u64::MAX), u64::MAX / WEEK);

    let mut e = fresh();
    let a = addr("A");
    let i = addr("I");
    register(&mut e, &a, "ipfs://a").unwrap();
    let id = issue(&mut e, &i, &a, "job_completed");
    approve(&mut e, i.clone(), id).unwrap();
    assert!(e.advance(Ledger { timestamp: START + WEEK - 1, sequence: 100 }));
    assert_eq!(score(&e, &a), 10);
    assert!(e.advance(Ledger { timestamp: START + WEEK, sequence: 101 }));
    assert_eq!(score(&e, &a), 11);
    assert!(e.advance(Ledger { timestamp: START + 10 * WEEK + 3, sequence: 102 }));
    assert_eq!(score(&e, &a), 20);
}

#[test]
fn a_score_beyond_the_width_is_not_made_up() {
    let mut e = host_at(0, 1);
    let a = addr("A");
    register(&mut e, &a, "ipfs://a").unwrap();
    let weeks_max = u32::MAX as u64;
    assert!(e.advance(Ledger { timestamp: weeks_max * WEEK, sequence: 1 }));
    assert_eq!(OfferHub::checked_reputation_score(&e, &a), Some(u32::MAX));
    assert!(e.advance(Ledger { timestamp: (weeks_max + 1) * WEEK, sequence: 1 }));
    assert_eq!(OfferHub::checked_reputation_score(&e, &a), None);
}

#[test]
fn a_short_did_is_refused_and_changes_nothing() {
    let mut e = fresh();
    let a = addr("A");
    register(&mut e, &a, "ipfs://a").unwrap();
    assert_eq!(link(&mut e, a.clone(), text("did:kilt:")), Err(Error::InvalidDid));
    assert_eq!(OfferHub::get_did(&e, a.clone()), None);

    assert_eq!(link(&mut e, a.clone(), text("did:kilt:1")), Ok(()));
    assert_eq!(OfferHub::get_did(&e, a.clone()), Some(text("did:kilt:1")));
    let before = OfferHub::get_profile(&e, a.clone());
    let written = e.written_len();
    let events = e.events_len();
    assert_eq!(link(&mut e, a.clone(), text("did:short")), Err(Error::InvalidDid));
    assert_eq!(OfferHub::get_profile(&e, a.clone()), before);
    assert_eq!(e.written_len(), written);
    assert_eq!(e.events_len(), events);

    assert_eq!(link(&mut e, a.clone(), text("did:kilt:second")), Ok(()));
    assert_eq!(OfferHub::get_did(&e, a.clone()), Some(text("did:kilt:second")));
    assert_eq!(OfferHub::get_profile(&e, a).unwrap().joined_at, START);
}

#[test]
fn register_claim_approve_and_score() {
    let mut e = fresh();
    let a = addr("A");
    let b = addr("B");
    register(&mut e, &a, "ipfs://x").unwrap();
    let profile = OfferHub::get_profile(&e, a.clone()).unwrap();
    assert_eq!(profile.metadata_uri, text("ipfs://x"));
    assert_eq!(profile.did, None);

    let id = add(&mut e, b.clone(), a.clone(), text("job_completed"), [1u8; 32]);
    assert_eq!(id, Ok(0));
    assert_eq!(approve(&mut e, b, 0), Ok(()));
    assert!(OfferHub::get_reputation_score(&e, a.clone()) >= 10);
    assert_eq!(OfferHub::get_reputation_score(&e, a), 10);
}

#[test]
fn every_write_renews_the_lifetime() {
    let mut e = host_at(START, 1000);
    let a = addr("A");
    let key = DataKey::Profile(a.clone());
    assert_eq!(e.live_until(&key), None);
    register(&mut e, &a, "ipfs://a").unwrap();
    assert_eq!(e.live_until(&key), Some(1000 + PROFILE_LIFETIME as u64));
    assert_eq!(PROFILE_LIFETIME, 6_307_200);
    assert_eq!(CLAIM_LIFETIME, 6_307_200);
    assert_eq!(INSTANCE_LIFETIME, 6_307_200);

    assert!(e.advance(Ledger { timestamp: START + 5, sequence: 5000 }));
    assert!(OfferHub::get_profile(&e, a.clone()).is_some());
    assert!(has_profile(&e, &a));
    assert_eq!(OfferHub::get_did(&e, a.clone()), None);
    assert_eq!(e.live_until(&key), Some(1000 + PROFILE_LIFETIME as u64));

    link(&mut e, a.clone(), text("did:kilt:aaa")).unwrap();
    assert_eq!(e.live_until(&key), Some(5000 + PROFILE_LIFETIME as u64));

    let id = issue(&mut e, &a, &a, "x");
    assert_eq!(e.live_until(&DataKey::Claim(id)), Some(5000 + CLAIM_LIFETIME as u64));
    assert_eq!(e.live_until(&DataKey::UserClaims(a.clone())), Some(5000 + CLAIM_LIFETIME as u64));
    assert_eq!(e.live_until(&DataKey::IssuerClaims(a.clone())), Some(5000 + CLAIM_LIFETIME as u64));
    assert!(e.advance(Ledger { timestamp: START + 6, sequence: 7000 }));
    approve(&mut e, a.clone(), id).unwrap();
    assert_eq!(e.live_until(&DataKey::Claim(id)), Some(7000 + CLAIM_LIFETIME as u64));
    assert_eq!(e.live_until(&DataKey::UserClaims(a)), Some(5000 + CLAIM_LIFETIME as u64));
}

#[test]
fn an_entry_past_its_lifetime_reads_as_absent() {
    let mut e = host_at(START, 10);
    let a = addr("A");
    let i = addr("I");
    register(&mut e, &a, "ipfs://a").unwrap();
    let id = issue(&mut e, &i, &a, "job_completed");
    approve(&mut e, i.clone(), id).unwrap();

    let last = 10 + PROFILE_LIFETIME;
    assert!(e.advance(Ledger { timestamp: START + 1, sequence: last }));
    assert!(OfferHub::get_profile(&e, a.clone()).is_some());
    assert!(OfferHub::get_claim(&e, id).is_some());
    assert_eq!(get_user_claims(&e, &a), vec![0]);
    assert_eq!(register(&mut e, &a, "ipfs://a"), Err(Error::ProfileAlreadyExists));

    assert!(e.advance(Ledger { timestamp: START + 2, sequence: last + 1 }));
    assert_eq!(OfferHub::get_profile(&e, a.clone()), None);
    assert!(!has_profile(&e, &a));
    assert_eq!(OfferHub::get_claim(&e, id), None);
    assert_eq!(get_user_claims(&e, &a), Vec::<u64>::new());
    assert_eq!(get_issuer_claims(&e, &i), Vec::<u64>::new());
    assert!(OfferHub::get_user_claims(&e, a.clone()).is_empty());
    assert_eq!(score(&e, &a), 0);
    assert_eq!(approve(&mut e, i.clone(), id), Err(Error::ClaimNotFound));
    assert_eq!(link(&mut e, a.clone(), text("did:kilt:aaa")), Err(Error::ProfileNotFound));
    assert!(e.live_until(&DataKey::Profile(a.clone())).is_some());

    assert_eq!(OfferHub::get_total_claims(&e), 1);
    assert_eq!(issue(&mut e, &i, &a, "x"), 1);
    assert_eq!(get_user_claims(&e, &a), vec![1]);
    assert_eq!(register(&mut e, &a, "ipfs://again"), Ok(()));
    assert_eq!(OfferHub::get_profile(&e, a).unwrap().joined_at, START + 2);
}

#[test]
fn the_clock_does_not_run_backwards() {
    let mut e = host_at(500, 40);
    assert_eq!(e.ledger(), Ledger { timestamp: 500, sequence: 40 });
    assert!(!e.advance(Ledger { timestamp: 499, sequence: 41 }));
    assert!(!e.advance(Ledger { timestamp: 501, sequence: 39 }));
    assert_eq!(e.ledger(), Ledger { timestamp: 500, sequence: 40 });
    assert!(e.advance(Ledger { timestamp: 500, sequence: 40 }));
    assert!(e.advance(Ledger { timestamp: 600, sequence: 40 }));
    assert!(e.advance(Ledger { timestamp: 600, sequence: 45 }));
    assert_eq!(e.ledger(), Ledger { timestamp: 600, sequence: 45 });
}

#[test]
fn the_counter_renews_the_instance() {
    let mut e = host_at(START, 7);
    assert_eq!(e.instance_live_until(), 7 + INSTANCE_LIFETIME as u64);
    assert!(e.advance(Ledger { timestamp: START, sequence: 90 }));
    assert_eq!(get_next_claim_id(&e), 0);
    assert_eq!(e.instance_live_until(), 7 + INSTANCE_LIFETIME as u64);
    assert_eq!(increment_next_claim_id(&mut e), 0);
    assert_eq!(increment_next_claim_id(&mut e), 1);
    assert_eq!(get_next_claim_id(&e), 2);
    assert_eq!(e.instance_live_until(), 90 + INSTANCE_LIFETIME as u64);
    assert_eq!(e.written_len(), 2);
    assert_eq!(e.written_key(0), &DataKey::NextClaimId);

    assert!(e.advance(Ledger { timestamp: START, sequence: u32::MAX }));
    assert_eq!(get_next_claim_id(&e), 2);
    assert_eq!(increment_next_claim_id(&mut e), 2);
    assert_eq!(e.instance_live_until(), u32::MAX as u64 + INSTANCE_LIFETIME as u64);
}

#[test]
fn writes_and_notifications_are_recorded_in_order() {
    let mut e = fresh();
    let a = addr("A");
    let b = addr("B");
    register(&mut e, &a, "ipfs://a").unwrap();
    link(&mut e, a.clone(), text("did:kilt:aaa")).unwrap();
    let first = issue(&mut e, &a, &b, "t1");
    let second = issue(&mut e, &a, &b, "t2");
    approve(&mut e, a.clone(), first).unwrap();
    reject(&mut e, a.clone(), second).unwrap();
    let _ = reject(&mut e, a.clone(), second);
    let _ = register(&mut e, &a, "ipfs://a");
    update(&mut e, a.clone(), text("n"), text("ipfs://n"), None, None, Vec::new())
        .unwrap();

    let written: Vec<DataKey> = (0..e.written_len()).map(|i| e.written_key(i).clone()).collect();
    let expected_keys = vec![
        DataKey::Profile(a.clone()),
        DataKey::Profile(a.clone()),
        DataKey::NextClaimId,
        DataKey::Claim(0),
        DataKey::UserClaims(b.clone()),
        DataKey::IssuerClaims(a.clone()),
        DataKey::NextClaimId,
        DataKey::Claim(1),
        DataKey::UserClaims(b.clone()),
        DataKey::IssuerClaims(a.clone()),
        DataKey::Claim(0),
        DataKey::Claim(1),
        DataKey::Profile(a.clone()),
    ];
    assert_eq!(written, expected_keys);

    let events: Vec<Event> = (0..e.events_len()).map(|i| e.event(i).clone()).collect();
    let expected_events = vec![
        Event::ProfileRegistered(ProfileRegisteredEvent {
            owner: a.clone(),
            metadata_uri: text("ipfs://a"),
        }),
        Event::DidLinked(DidLinkedEvent { owner: a.clone(), did: text("did:kilt:aaa") }),
        Event::ClaimAdded(ClaimAddedEvent {
            claim_id: 0,
            issuer: a.clone(),
            receiver: b.clone(),
            claim_type: text("t1"),
        }),
        Event::ClaimAdded(ClaimAddedEvent {
            claim_id: 1,
            issuer: a.clone(),
            receiver: b.clone(),
            claim_type: text("t2"),
        }),
        Event::ClaimApproved(ClaimApprovedEvent {
            claim_id: 0,
            issuer: a.clone(),
            receiver: b.clone(),
        }),
        Event::ClaimRejected(ClaimRejectedEvent { claim_id: 1, issuer: a, receiver: b }),
    ];
    assert_eq!(events, expected_events);
}

#[test]
fn restoring_is_no_write() {
    let mut e = host_at(START, 50);
    let a = addr("A");
    let profile = Profile {
        owner: a.clone(),
        metadata_uri: text("ipfs://kept"),
        did: Some(text("did:kilt:kept")),
        display_name: Vec::new(),
        country_code: None,
        email_hash: None,
        linked_accounts: Vec::new(),
        joined_at: 77,
    };
    e.restore(DataKey::Profile(a.clone()), Value::Profile(profile.clone()), 50);
    e.restore_next_claim_id(41);
    assert_eq!(e.written_len(), 0);
    assert_eq!(e.events_len(), 0);
    assert_eq!(e.live_until(&DataKey::Profile(a.clone())), Some(50));
    assert_eq!(get_profile(&e, &a), Some(profile));
    assert_eq!(OfferHub::get_total_claims(&e), 41);
    assert_eq!(issue(&mut e, &a, &a, "x"), 41);
    assert_eq!(register(&mut e, &a, "ipfs://a"), Err(Error::ProfileAlreadyExists));

    e.restore(DataKey::Claim(3), Value::ClaimIds(vec![1, 2]), 1_000);
    assert_eq!(get_claim(&e, 3), None);
    e.restore(DataKey::UserClaims(a.clone()), Value::ClaimIds(vec![1, 2]), 49);
    assert_eq!(get_user_claims(&e, &a), Vec::<u64>::new());
}

#[test]
fn the_typed_adapter_reads_what_it_wrote() {
    let mut e = fresh();
    let a = addr("A");
    let b = addr("B");
    let profile = Profile {
        owner: a.clone(),
        metadata_uri: text("ipfs://p"),
        did: None,
        display_name: text("P"),
        country_code: None,
        email_hash: Some([1u8; 32]),
        linked_accounts: vec![LinkedAccount { platform: text("x"), handle: text("y") }],
        joined_at: 5,
    };
    assert!(!has_profile(&e, &a));
    set_profile(&mut e, &a, &profile);
    assert!(has_profile(&e, &a));
    assert!(!has_profile(&e, &b));
    assert_eq!(get_profile(&e, &a), Some(profile));
    assert_eq!(get_profile(&e, &b), None);

    let claim = Claim {
        id: 8,
        issuer: a.clone(),
        receiver: b.clone(),
        claim_type: text("t"),
        proof_hash: [2u8; 32],
        status: ClaimStatus::Rejected,
    };
    set_claim(&mut e, 8, &claim);
    assert_eq!(get_claim(&e, 8), Some(claim));
    assert_eq!(get_claim(&e, 9), None);

    add_user_claim(&mut e, &b, 8);
    add_user_claim(&mut e, &b, 3);
    add_issuer_claim(&mut e, &a, 8);
    assert_eq!(get_user_claims(&e, &b), vec![8, 3]);
    assert_eq!(get_issuer_claims(&e, &a), vec![8]);
    assert_eq!(get_user_claims(&e, &a), Vec::<u64>::new());
    assert_eq!(get_issuer_claims(&e, &b), Vec::<u64>::new());
    assert!(e.has(&DataKey::Claim(8)));
    assert!(!e.has(&DataKey::Claim(7)));
    assert_eq!(e.get(&DataKey::UserClaims(b)), Some(&Value::ClaimIds(vec![8, 3])));
    assert_eq!(Host::lifetime_of(&DataKey::NextClaimId), INSTANCE_LIFETIME);
}

#[test]
fn the_store_keeps_one_entry_under_a_key() {
    let mut store = Store::new();
    let key = DataKey::Claim(1);
    assert!(store.get(&key).is_none());
    store.set(DataKey::Claim(1), Value::ClaimIds(vec![1]), 10);
    store.set(DataKey::Claim(2), Value::ClaimIds(vec![2]), 20);
    store.set(DataKey::Claim(1), Value::ClaimIds(vec![3]), 30);
    let entry = store.get(&key).unwrap();
    assert_eq!(entry.value, Value::ClaimIds(vec![3]));
    assert_eq!(entry.live_until, 30);
    assert_eq!(store.get(&DataKey::Claim(2)).unwrap().live_until, 20);
    assert!(store.get(&DataKey::UserClaims(addr("1"))).is_none());
}

#[test]
fn keys_and_addresses_compare_by_what_they_hold() {
    let a = addr("GALICE");
    let b = addr("GBOB");
    assert!(a.same(&a.clone()));
    assert!(!a.same(&b));
    assert!(!a.same(&addr("GALIC")));
    assert!(DataKey::Profile(a.clone()).same(&DataKey::Profile(a.clone())));
    assert!(!DataKey::Profile(a.clone()).same(&DataKey::UserClaims(a.clone())));
    assert!(!DataKey::UserClaims(a.clone()).same(&DataKey::IssuerClaims(a.clone())));
    assert!(!DataKey::Profile(a.clone()).same(&DataKey::Profile(b)));
    assert!(DataKey::Claim(4).same(&DataKey::Claim(4)));
    assert!(!DataKey::Claim(4).same(&DataKey::Claim(5)));
    assert!(DataKey::NextClaimId.same(&DataKey::NextClaimId));
    assert!(!DataKey::NextClaimId.same(&DataKey::Claim(0)));
    assert_eq!(DataKey::IssuerClaims(a.clone()).clone(), DataKey::IssuerClaims(a));
}

#[test]
fn registrations_of_different_addresses_commute() {
    let a = addr("A");
    let b = addr("B");
    let mut one = fresh();
    assert_eq!(register(&mut one, &a, "ipfs://a"), Ok(()));
    assert_eq!(register(&mut one, &b, "ipfs://b"), Ok(()));
    let mut other = fresh();
    assert_eq!(register(&mut other, &b, "ipfs://b"), Ok(()));
    assert_eq!(register(&mut other, &a, "ipfs://a"), Ok(()));
    for account in [&a, &b] {
        assert_eq!(
            OfferHub::get_profile(&one, account.clone()),
            OfferHub::get_profile(&other, account.clone())
        );
        assert!(OfferHub::get_profile(&one, account.clone()).is_some());
    }
}

#[test]
fn a_refused_call_changes_nothing() {
    let mut e = fresh();
    let a = addr("A");
    let b = addr("B");
    register(&mut e, &a, "ipfs://a").unwrap();
    let id = issue(&mut e, &a, &b, "t");
    approve(&mut e, a.clone(), id).unwrap();
    let written = e.written_len();
    let events = e.events_len();
    let profile = OfferHub::get_profile(&e, a.clone());
    let claim = OfferHub::get_claim(&e, id);

    assert!(register(&mut e, &a, "ipfs://b").is_err());
    assert!(register(&mut e, &b, "").is_err());
    assert!(link(&mut e, a.clone(), text("x")).is_err());
    assert!(link(&mut e, b.clone(), text("did:kilt:bbb")).is_err());
    assert!(approve(&mut e, a.clone(), id).is_err());
    assert!(reject(&mut e, a.clone(), id).is_err());
    assert!(approve(&mut e, a.clone(), id + 1).is_err());
    assert!(!e.advance(Ledger { timestamp: 0, sequence: 0 }));

    assert_eq!(e.written_len(), written);
    assert_eq!(e.events_len(), events);
    assert_eq!(OfferHub::get_profile(&e, a), profile);
    assert_eq!(OfferHub::get_profile(&e, b), None);
    assert_eq!(OfferHub::get_claim(&e, id), claim);
    assert_eq!(OfferHub::get_total_claims(&e), 1);
}

#[test]
fn the_platform_vouches_for_the_caller() {
    let mut e = fresh();
    let a = addr("A");
    let b = addr("B");
    assert!(!e.is_authorized(&a));
    assert_eq!(require_caller_is(&e, &a), Err(Unauthorized));

    e.authorize(a.clone());
    assert!(e.is_authorized(&a));
    assert!(!e.is_authorized(&b));
    assert_eq!(require_caller_is(&e, &a), Ok(()));
    assert_eq!(require_caller_is(&e, &b), Err(Unauthorized));

    e.authorize(b.clone());
    e.authorize(a.clone());
    assert_eq!(require_caller_is(&e, &a), Ok(()));
    assert_eq!(require_caller_is(&e, &b), Ok(()));
    assert_eq!(OfferHub::register_profile(&mut e, a.clone(), text("ipfs://a"), Vec::new(), None, None, Vec::new()), Ok(()));
    assert!(e.is_authorized(&a));

    e.end_invocation();
    assert_eq!(require_caller_is(&e, &a), Err(Unauthorized));
    assert_eq!(require_caller_is(&e, &b), Err(Unauthorized));
    assert!(OfferHub::get_profile(&e, a).is_some());
}
