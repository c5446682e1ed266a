use vstd::prelude::*;
use crate::events::{Event, EventView};
use crate::store::{copy_ids, SlotView, Store, Value, ValueView};
use crate::types::{Address, Claim, ClaimView, DataKey, DataKeyView, Profile, ProfileView};

verus! {

/// The ledgers that close in about a day.
pub const DAY_IN_LEDGERS: u32 = 17280;

/// For how many ledgers a profile stays alive after it was written: about a year.
pub const PROFILE_LIFETIME: u32 = DAY_IN_LEDGERS * 365;

/// For how many ledgers a claim, or a list of claim ids, stays alive after it
/// was written: about a year.
pub const CLAIM_LIFETIME: u32 = DAY_IN_LEDGERS * 365;

/// For how many ledgers the registry's own instance stays alive after the
/// claim counter was last incremented: about a year.
pub const INSTANCE_LIFETIME: u32 = DAY_IN_LEDGERS * 365;

/// For how many ledgers an entry stays alive after it was written.
pub open spec fn lifetime(key: DataKeyView) -> u32 {
    match key {
        DataKeyView::Profile(_) => PROFILE_LIFETIME,
        DataKeyView::Claim(_) => CLAIM_LIFETIME,
        DataKeyView::UserClaims(_) => CLAIM_LIFETIME,
        DataKeyView::IssuerClaims(_) => CLAIM_LIFETIME,
        DataKeyView::NextClaimId => INSTANCE_LIFETIME,
    }
}

/// The ledger's clock: the time in seconds, and the number of the ledger
/// that is being closed, in which lifetimes are counted.
#[derive(Clone, Copy, Debug, PartialEq, Eq, Structural)]
pub struct Ledger {
    pub timestamp: u64,
    pub sequence: u32,
}

impl Ledger {
    /// Tells whether `later` is no earlier than `self` on both counts.
    pub open spec fn precedes(self, later: Ledger) -> bool {
        self.timestamp <= later.timestamp && self.sequence <= later.sequence
    }
}

/// What the registry sees of the platform that runs it, and what the
/// platform sees of the registry.
pub struct HostView {
    pub ledger: Ledger,
    /// The addresses as which the platform has authenticated the caller of
    /// the invocation at hand.
    pub authorized: Set<Seq<u8>>,
    /// The entries kept per profile, claim and address, each with its lifetime.
    pub persistent: Map<DataKeyView, SlotView>,
    /// The id that the next claim will get.
    pub next_claim_id: u64,
    /// The last ledger at which the registry's instance is still alive.
    pub instance_live_until: u64,
    /// The keys that were written, in the order of the writes.
    pub written: Seq<DataKeyView>,
    /// The notifications that were published, in order.
    pub events: Seq<EventView>,
}

impl HostView {
    /// A registry without any entry, at the given time.
    pub open spec fn fresh(ledger: Ledger) -> HostView {
        HostView {
            ledger,
            authorized: Set::empty(),
            persistent: Map::empty(),
            next_claim_id: 0,
            instance_live_until: (ledger.sequence + INSTANCE_LIFETIME) as u64,
            written: Seq::empty(),
            events: Seq::empty(),
        }
    }

    /// Tells whether an entry is kept under `key` and is still alive.
    pub open spec fn has(self, key: DataKeyView) -> bool {
        self.persistent.dom().contains(key) && self.ledger.sequence
            <= self.persistent[key].live_until
    }

    /// The value kept under `key`, if its entry is still alive.
    pub open spec fn get(self, key: DataKeyView) -> Option<ValueView> {
        if self.has(key) {
            Some(self.persistent[key].value)
        } else {
            None
        }
    }

    /// The state after `value` was written under `key`: the entry lives for
    /// its full lifetime from the current ledger on.
    pub open spec fn set(self, key: DataKeyView, value: ValueView) -> HostView {
        HostView {
            persistent: self.persistent.insert(
                key,
                SlotView { value, live_until: (self.ledger.sequence + lifetime(key)) as u64 },
            ),
            written: self.written.push(key),
            ..self
        }
    }

    /// The state after an entry was brought back as the platform holds it.
    pub open spec fn restore(self, key: DataKeyView, value: ValueView, live_until: u64) -> HostView {
        HostView { persistent: self.persistent.insert(key, SlotView { value, live_until }), ..self }
    }

    /// The state after the platform has authenticated the caller as `who`.
    pub open spec fn authorize(self, who: Seq<u8>) -> HostView {
        HostView { authorized: self.authorized.insert(who), ..self }
    }

    /// The state after an invocation has ended: nobody is authenticated.
    pub open spec fn end_invocation(self) -> HostView {
        HostView { authorized: Set::empty(), ..self }
    }

    /// The state after `event` was published.
    pub open spec fn publish(self, event: EventView) -> HostView {
        HostView { events: self.events.push(event), ..self }
    }

    /// The state after the clock has moved on to `ledger`; a clock that would
    /// run backwards leaves it as it is.
    pub open spec fn advance(self, ledger: Ledger) -> HostView {
        if self.ledger.precedes(ledger) {
            HostView { ledger, ..self }
        } else {
            self
        }
    }

    /// The state after the claim counter was incremented.
    pub open spec fn increment_next_claim_id(self) -> HostView {
        HostView {
            next_claim_id: (self.next_claim_id + 1) as u64,
            instance_live_until: (self.ledger.sequence + INSTANCE_LIFETIME) as u64,
            written: self.written.push(DataKeyView::NextClaimId),
            ..self
        }
    }

    /// The profile of `owner`, if one is kept and alive.
    pub open spec fn profile(self, owner: Seq<u8>) -> Option<ProfileView> {
        match self.get(DataKeyView::Profile(owner)) {
            Some(ValueView::Profile(p)) => Some(p),
            _ => None,
        }
    }

    /// The claim with the given id, if it is kept and alive.
    pub open spec fn claim(self, id: u64) -> Option<ClaimView> {
        match self.get(DataKeyView::Claim(id)) {
            Some(ValueView::Claim(c)) => Some(c),
            _ => None,
        }
    }

    /// The ids of the claims that `user` has received, oldest first.
    pub open spec fn user_claims(self, user: Seq<u8>) -> Seq<u64> {
        match self.get(DataKeyView::UserClaims(user)) {
            Some(ValueView::ClaimIds(ids)) => ids,
            _ => Seq::empty(),
        }
    }

    /// The ids of the claims that `issuer` has issued, oldest first.
    pub open spec fn issuer_claims(self, issuer: Seq<u8>) -> Seq<u64> {
        match self.get(DataKeyView::IssuerClaims(issuer)) {
            Some(ValueView::ClaimIds(ids)) => ids,
            _ => Seq::empty(),
        }
    }
}

/// What an optional profile stands for.
pub open spec fn optional_profile_view(o: Option<Profile>) -> Option<ProfileView> {
    match o {
        Some(p) => Some(p@),
        None => None,
    }
}

/// What an optional claim stands for.
pub open spec fn optional_claim_view(o: Option<Claim>) -> Option<ClaimView> {
    match o {
        Some(c) => Some(c@),
        None => None,
    }
}

/// What an optional stored value stands for.
pub open spec fn optional_value_view(o: Option<&Value>) -> Option<ValueView> {
    match o {
        Some(v) => Some(v@),
        None => None,
    }
}

/// The platform as the registry works on it: the ledger's clock, the
/// expiring store, the claim counter of the registry's instance, and the
/// channel on which notifications go out.
#[derive(Debug)]
pub struct Host {
    ledger: Ledger,
    authorized: Vec<Address>,
    persistent: Store,
    next_claim_id: u64,
    instance_live_until: u64,
    written: Vec<DataKey>,
    events: Vec<Event>,
}

impl View for Host {
    type V = HostView;

    closed spec fn view(&self) -> HostView {
        HostView {
            ledger: self.ledger,
            authorized: self.authorized@.map_values(|a: Address| a@).to_set(),
            persistent: self.persistent@,
            next_claim_id: self.next_claim_id,
            instance_live_until: self.instance_live_until,
            written: self.written@.map_values(|k: DataKey| k@),
            events: self.events@.map_values(|e: Event| e@),
        }
    }
}

impl Host {
    /// A registry without any entry, at the given time.
    pub fn new(ledger: Ledger) -> (host: Self)
        ensures
            host@ == HostView::fresh(ledger),
    {
        let host = Host {
            ledger,
            authorized: Vec::new(),
            persistent: Store::new(),
            next_claim_id: 0,
            instance_live_until: ledger.sequence as u64 + INSTANCE_LIFETIME as u64,
            written: Vec::new(),
            events: Vec::new(),
        };
        assert(host@.authorized =~= Set::empty());
        assert(host@.written =~= Seq::empty());
        assert(host@.events =~= Seq::empty());
        host
    }

    /// Records that the platform has authenticated the caller of the
    /// invocation at hand as `who`. The registry cannot check a signature:
    /// this is called by whoever has let the platform check it.
    pub fn authorize(&mut self, who: Address)
        ensures
            final(self)@ == old(self)@.authorize(who@),
    {
        let ghost before = self.authorized@.map_values(|a: Address| a@);
        self.authorized.push(who);
        proof {
            let after = self.authorized@.map_values(|a: Address| a@);
            assert(after =~= before.push(who@));
            assert forall|x: Seq<u8>| after.to_set().contains(x) <==> before.to_set().insert(
                who@,
            ).contains(x) by {
                if before.contains(x) {
                    let i = choose|i: int| 0 <= i < before.len() && before[i] == x;
                    assert(after[i] == x);
                }
                if x == who@ {
                    assert(after[after.len() - 1] == x);
                }
            }
            assert(after.to_set() =~= before.to_set().insert(who@));
        }
    }

    /// Tells whether the platform has authenticated the caller as `who`.
    pub fn is_authorized(&self, who: &Address) -> (yes: bool)
        ensures
            yes == self@.authorized.contains(who@),
    {
        let ghost all = self.authorized@.map_values(|a: Address| a@);
        let mut i: usize = 0;
        while i < self.authorized.len()
            invariant
                i <= self.authorized@.len(),
                all == self.authorized@.map_values(|a: Address| a@),
                forall|j: int| 0 <= j < i ==> all[j] != who@,
            decreases self.authorized@.len() - i,
        {
            if self.authorized[i].same(who) {
                assert(all[i as int] == who@);
                return true;
            }
            i += 1;
        }
        false
    }

    /// Ends the invocation at hand: nobody is authenticated any more.
    pub fn end_invocation(&mut self)
        ensures
            final(self)@ == old(self)@.end_invocation(),
    {
        self.authorized = Vec::new();
        assert(self@.authorized =~= Set::empty());
    }

    /// The current reading of the ledger's clock.
    pub fn ledger(&self) -> (ledger: Ledger)
        ensures
            ledger == self@.ledger,
    {
        self.ledger
    }

    /// Moves the clock on to `ledger`. The clock never runs backwards: a
    /// reading that is earlier than the current one, in seconds or in
    /// ledgers, is refused and changes nothing.
    pub fn advance(&mut self, ledger: Ledger) -> (moved: bool)
        ensures
            moved == old(self)@.ledger.precedes(ledger),
            final(self)@ == old(self)@.advance(ledger),
    {
        if self.ledger.timestamp <= ledger.timestamp && self.ledger.sequence <= ledger.sequence {
            self.ledger = ledger;
            true
        } else {
            false
        }
    }

    /// Tells whether an entry is kept under `key` and is still alive.
    pub fn has(&self, key: &DataKey) -> (found: bool)
        ensures
            found == self@.has(key@),
    {
        match self.persistent.get(key) {
            Some(entry) => self.ledger.sequence as u64 <= entry.live_until,
            None => false,
        }
    }

    /// The value kept under `key`. An entry whose lifetime has run out reads
    /// as if it had never been written.
    pub fn get(&self, key: &DataKey) -> (found: Option<&Value>)
        ensures
            optional_value_view(found) == self@.get(key@),
    {
        match self.persistent.get(key) {
            Some(entry) => {
                if self.ledger.sequence as u64 <= entry.live_until {
                    Some(&entry.value)
                } else {
                    None
                }
            },
            None => None,
        }
    }

    /// Writes `value` under `key`. Every write renews the entry's lifetime:
    /// it then runs for the key's full lifetime from the current ledger.
    pub fn set(&mut self, key: DataKey, value: Value)
        ensures
            final(self)@ == old(self)@.set(key@, value@),
    {
        let live_until: u64 = self.ledger.sequence as u64 + Self::lifetime_of(&key) as u64;
        let ghost before = self.written@;
        self.written.push(key.clone());
        self.persistent.set(key, value, live_until);
        assert(self.written@.map_values(|k: DataKey| k@) =~= before.map_values(|k: DataKey| k@).push(
            key@,
        ));
    }

    /// For how many ledgers an entry under `key` stays alive after a write.
    pub fn lifetime_of(key: &DataKey) -> (ledgers: u32)
        ensures
            ledgers == lifetime(key@),
    {
        match key {
            DataKey::Profile(_) => PROFILE_LIFETIME,
            DataKey::Claim(_) => CLAIM_LIFETIME,
            DataKey::UserClaims(_) => CLAIM_LIFETIME,
            DataKey::IssuerClaims(_) => CLAIM_LIFETIME,
            DataKey::NextClaimId => INSTANCE_LIFETIME,
        }
    }

    /// Brings an entry back as the platform holds it, with the lifetime that
    /// it has there. This is no write: the lifetime is not renewed.
    pub fn restore(&mut self, key: DataKey, value: Value, live_until: u64)
        ensures
            final(self)@ == old(self)@.restore(key@, value@, live_until),
    {
        self.persistent.set(key, value, live_until);
    }

    /// Brings the claim counter back as the platform holds it.
    pub fn restore_next_claim_id(&mut self, next_claim_id: u64)
        ensures
            final(self)@ == (HostView { next_claim_id, ..old(self)@ }),
    {
        self.next_claim_id = next_claim_id;
    }

    /// Publishes a notification.
    pub fn publish(&mut self, event: Event)
        ensures
            final(self)@ == old(self)@.publish(event@),
    {
        let ghost before = self.events@;
        self.events.push(event);
        assert(self.events@.map_values(|e: Event| e@) =~= before.map_values(|e: Event| e@).push(
            event@,
        ));
    }

    /// How many keys have been written so far.
    pub fn written_len(&self) -> (n: usize)
        ensures
            n == self@.written.len(),
    {
        self.written.len()
    }

    /// The key of the write with the given number, counted from 0.
    pub fn written_key(&self, i: usize) -> (key: &DataKey)
        requires
            i < self@.written.len(),
        ensures
            key@ == self@.written[i as int],
    {
        &self.written[i]
    }

    /// How many notifications have been published so far.
    pub fn events_len(&self) -> (n: usize)
        ensures
            n == self@.events.len(),
    {
        self.events.len()
    }

    /// The notification with the given number, counted from 0.
    pub fn event(&self, i: usize) -> (event: &Event)
        requires
            i < self@.events.len(),
        ensures
            event@ == self@.events[i as int],
    {
        &self.events[i]
    }

    /// The last ledger at which the registry's instance is still alive.
    pub fn instance_live_until(&self) -> (ledger: u64)
        ensures
            ledger == self@.instance_live_until,
    {
        self.instance_live_until
    }

    /// The last ledger at which the entry under `key` is still alive, if
    /// an entry is kept there at all.
    pub fn live_until(&self, key: &DataKey) -> (ledger: Option<u64>)
        ensures
            ledger == (if self@.persistent.dom().contains(key@) {
                Some(self@.persistent[key@].live_until)
            } else {
                None
            }),
    {
        match self.persistent.get(key) {
            Some(entry) => Some(entry.live_until),
            None => None,
        }
    }
}

/// Tells whether a profile is kept for `owner`.
pub fn has_profile(e: &Host, owner: &Address) -> (found: bool)
    ensures
        found == e@.profile(owner@).is_some(),
{
    let key = DataKey::Profile(owner.clone());
    match e.get(&key) {
        Some(Value::Profile(_)) => true,
        _ => false,
    }
}

/// The profile kept for `owner`.
pub fn get_profile(e: &Host, owner: &Address) -> (found: Option<Profile>)
    ensures
        optional_profile_view(found) == e@.profile(owner@),
{
    let key = DataKey::Profile(owner.clone());
    match e.get(&key) {
        Some(Value::Profile(p)) => Some(p.clone()),
        _ => None,
    }
}

/// Writes the profile of `owner` and renews its lifetime.
pub fn set_profile(e: &mut Host, owner: &Address, profile: &Profile)
    ensures
        final(e)@ == old(e)@.set(DataKeyView::Profile(owner@), ValueView::Profile(profile@)),
{
    let key = DataKey::Profile(owner.clone());
    e.set(key, Value::Profile(profile.clone()));
}

/// The claim kept under `id`.
pub fn get_claim(e: &Host, id: u64) -> (found: Option<Claim>)
    ensures
        optional_claim_view(found) == e@.claim(id),
{
    let key = DataKey::Claim(id);
    match e.get(&key) {
        Some(Value::Claim(c)) => Some(c.clone()),
        _ => None,
    }
}

/// Writes the claim under `id` and renews its lifetime.
pub fn set_claim(e: &mut Host, id: u64, claim: &Claim)
    ensures
        final(e)@ == old(e)@.set(DataKeyView::Claim(id), ValueView::Claim(claim@)),
{
    let key = DataKey::Claim(id);
    e.set(key, Value::Claim(claim.clone()));
}

/// The ids of the claims that `user` has received, oldest first; none where
/// no list is kept.
pub fn get_user_claims(e: &Host, user: &Address) -> (ids: Vec<u64>)
    ensures
        ids@ == e@.user_claims(user@),
{
    let key = DataKey::UserClaims(user.clone());
    match e.get(&key) {
        Some(Value::ClaimIds(ids)) => copy_ids(ids),
        _ => Vec::new(),
    }
}

/// Appends `claim_id` to the claims that `user` has received, and renews
/// the list's lifetime.
pub fn add_user_claim(e: &mut Host, user: &Address, claim_id: u64)
    ensures
        final(e)@ == old(e)@.set(
            DataKeyView::UserClaims(user@),
            ValueView::ClaimIds(old(e)@.user_claims(user@).push(claim_id)),
        ),
{
    let key = DataKey::UserClaims(user.clone());
    let mut claims = get_user_claims(e, user);
    claims.push(claim_id);
    e.set(key, Value::ClaimIds(claims));
}

/// The ids of the claims that `issuer` has issued, oldest first; none where
/// no list is kept.
pub fn get_issuer_claims(e: &Host, issuer: &Address) -> (ids: Vec<u64>)
    ensures
        ids@ == e@.issuer_claims(issuer@),
{
    let key = DataKey::IssuerClaims(issuer.clone());
    match e.get(&key) {
        Some(Value::ClaimIds(ids)) => copy_ids(ids),
        _ => Vec::new(),
    }
}

/// Appends `claim_id` to the claims that `issuer` has issued, and renews
/// the list's lifetime.
pub fn add_issuer_claim(e: &mut Host, issuer: &Address, claim_id: u64)
    ensures
        final(e)@ == old(e)@.set(
            DataKeyView::IssuerClaims(issuer@),
            ValueView::ClaimIds(old(e)@.issuer_claims(issuer@).push(claim_id)),
        ),
{
    let key = DataKey::IssuerClaims(issuer.clone());
    let mut claims = get_issuer_claims(e, issuer);
    claims.push(claim_id);
    e.set(key, Value::ClaimIds(claims));
}

/// The id that the next claim will get: the number of claims issued so far.
pub fn get_next_claim_id(e: &Host) -> (id: u64)
    ensures
        id == e@.next_claim_id,
{
    e.next_claim_id
}

/// Hands out the next claim id and moves the counter on by one. The
/// lifetime of the registry's instance is renewed from the current ledger.
pub fn increment_next_claim_id(e: &mut Host) -> (id: u64)
    requires
        old(e)@.next_claim_id < u64::MAX,
    ensures
        id == old(e)@.next_claim_id,
        final(e)@ == old(e)@.increment_next_claim_id(),
{
    let id = e.next_claim_id;
    let ghost before = e.written@;
    e.next_claim_id = id + 1;
    e.instance_live_until = e.ledger.sequence as u64 + INSTANCE_LIFETIME as u64;
    e.written.push(DataKey::NextClaimId);
    assert(e.written@.map_values(|k: DataKey| k@) =~= before.map_values(|k: DataKey| k@).push(
        DataKeyView::NextClaimId,
    ));
    id
}

} // verus!
