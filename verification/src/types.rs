use vstd::prelude::*;

verus! {

/// Copies a byte string.
pub fn copy_bytes(src: &Vec<u8>) -> (dst: Vec<u8>)
    ensures
        dst@ == src@,
{
    let mut dst: Vec<u8> = Vec::new();
    let mut i: usize = 0;
    while i < src.len()
        invariant
            i <= src.len(),
            dst@ == src@.subrange(0, i as int),
        decreases src.len() - i,
    {
        dst.push(src[i]);
        i += 1;
        assert(dst@ =~= src@.subrange(0, i as int));
    }
    assert(src@.subrange(0, src.len() as int) =~= src@);
    dst
}

/// Tells whether two byte strings hold the same bytes.
pub fn same_bytes(a: &Vec<u8>, b: &Vec<u8>) -> (same: bool)
    ensures
        same == (a@ == b@),
{
    if a.len() != b.len() {
        return false;
    }
    let mut i: usize = 0;
    while i < a.len()
        invariant
            i <= a.len(),
            a.len() == b.len(),
            forall|j: int| 0 <= j < i ==> a@[j] == b@[j],
        decreases a.len() - i,
    {
        if a[i] != b[i] {
            return false;
        }
        i += 1;
    }
    assert(a@ =~= b@);
    true
}

/// Copies an optional byte string.
pub fn copy_optional_bytes(src: &Option<Vec<u8>>) -> (dst: Option<Vec<u8>>)
    ensures
        optional_bytes_view(dst) == optional_bytes_view(*src),
{
    match src {
        Some(bytes) => Some(copy_bytes(bytes)),
        None => None,
    }
}

/// What an optional byte string stands for.
pub open spec fn optional_bytes_view(o: Option<Vec<u8>>) -> Option<Seq<u8>> {
    match o {
        Some(bytes) => Some(bytes@),
        None => None,
    }
}

/// What an optional digest stands for.
pub open spec fn optional_digest_view(o: Option<[u8; 32]>) -> Option<Seq<u8>> {
    match o {
        Some(digest) => Some(digest@),
        None => None,
    }
}

/// A participant of the registry: an account or a contract, named by the
/// bytes of its identifier. Whoever speaks for an address is established
/// outside the registry, before an operation is called.
#[derive(Debug, PartialEq, Eq)]
pub struct Address {
    pub id: Vec<u8>,
}

impl View for Address {
    type V = Seq<u8>;

    open spec fn view(&self) -> Seq<u8> {
        self.id@
    }
}

impl Clone for Address {
    fn clone(&self) -> (copy: Self)
        ensures
            copy@ == self@,
    {
        Address { id: copy_bytes(&self.id) }
    }
}

impl Address {
    /// The address named by `id`.
    pub fn new(id: Vec<u8>) -> (a: Self)
        ensures
            a@ == id@,
    {
        Address { id }
    }

    /// Tells whether two addresses name the same participant.
    pub fn same(&self, other: &Address) -> (same: bool)
        ensures
            same == (self@ == other@),
    {
        same_bytes(&self.id, &other.id)
    }
}

/// An account on another platform that a profile points to.
#[derive(Debug, PartialEq, Eq)]
pub struct LinkedAccount {
    /// The platform's tag.
    pub platform: Vec<u8>,
    /// The account's name on that platform.
    pub handle: Vec<u8>,
}

/// What a linked account stands for.
pub struct LinkedAccountView {
    pub platform: Seq<u8>,
    pub handle: Seq<u8>,
}

impl View for LinkedAccount {
    type V = LinkedAccountView;

    open spec fn view(&self) -> LinkedAccountView {
        LinkedAccountView { platform: self.platform@, handle: self.handle@ }
    }
}

impl Clone for LinkedAccount {
    fn clone(&self) -> (copy: Self)
        ensures
            copy@ == self@,
    {
        LinkedAccount { platform: copy_bytes(&self.platform), handle: copy_bytes(&self.handle) }
    }
}

/// What a list of linked accounts stands for: the accounts in order.
pub open spec fn linked_accounts_view(accounts: Seq<LinkedAccount>) -> Seq<LinkedAccountView> {
    accounts.map_values(|a: LinkedAccount| a@)
}

/// Copies a list of linked accounts.
pub fn copy_linked_accounts(src: &Vec<LinkedAccount>) -> (dst: Vec<LinkedAccount>)
    ensures
        linked_accounts_view(dst@) == linked_accounts_view(src@),
{
    let mut dst: Vec<LinkedAccount> = Vec::new();
    let mut i: usize = 0;
    while i < src.len()
        invariant
            i <= src.len(),
            dst@.len() == i,
            forall|j: int| 0 <= j < i ==> dst@[j]@ == src@[j]@,
        decreases src.len() - i,
    {
        dst.push(src[i].clone());
        i += 1;
    }
    assert(linked_accounts_view(dst@) =~= linked_accounts_view(src@));
    dst
}

/// The profile of one address.
#[derive(Debug, PartialEq, Eq)]
pub struct Profile {
    /// The address that the profile belongs to.
    pub owner: Address,
    /// Where the profile's metadata is kept.
    pub metadata_uri: Vec<u8>,
    /// The decentralized identifier linked to the profile, if any.
    pub did: Option<Vec<u8>>,
    pub display_name: Vec<u8>,
    pub country_code: Option<Vec<u8>>,
    pub email_hash: Option<[u8; 32]>,
    pub linked_accounts: Vec<LinkedAccount>,
    /// The ledger time at which the profile was registered.
    pub joined_at: u64,
}

/// What a profile stands for.
pub struct ProfileView {
    pub owner: Seq<u8>,
    pub metadata_uri: Seq<u8>,
    pub did: Option<Seq<u8>>,
    pub display_name: Seq<u8>,
    pub country_code: Option<Seq<u8>>,
    pub email_hash: Option<Seq<u8>>,
    pub linked_accounts: Seq<LinkedAccountView>,
    pub joined_at: u64,
}

impl View for Profile {
    type V = ProfileView;

    open spec fn view(&self) -> ProfileView {
        ProfileView {
            owner: self.owner@,
            metadata_uri: self.metadata_uri@,
            did: optional_bytes_view(self.did),
            display_name: self.display_name@,
            country_code: optional_bytes_view(self.country_code),
            email_hash: optional_digest_view(self.email_hash),
            linked_accounts: linked_accounts_view(self.linked_accounts@),
            joined_at: self.joined_at,
        }
    }
}

impl Clone for Profile {
    fn clone(&self) -> (copy: Self)
        ensures
            copy@ == self@,
    {
        Profile {
            owner: self.owner.clone(),
            metadata_uri: copy_bytes(&self.metadata_uri),
            did: copy_optional_bytes(&self.did),
            display_name: copy_bytes(&self.display_name),
            country_code: copy_optional_bytes(&self.country_code),
            email_hash: self.email_hash,
            linked_accounts: copy_linked_accounts(&self.linked_accounts),
            joined_at: self.joined_at,
        }
    }
}

/// Where a claim stands in its life: issued and waiting, or settled for good.
#[derive(Clone, Copy, Debug, PartialEq, Eq, Structural)]
pub enum ClaimStatus {
    Pending,
    Approved,
    Rejected,
}

/// An attestation that one address issued about another.
#[derive(Debug, PartialEq, Eq)]
pub struct Claim {
    pub id: u64,
    pub issuer: Address,
    pub receiver: Address,
    /// A free-form tag, by which the claim is scored.
    pub claim_type: Vec<u8>,
    /// A reference to a proof kept elsewhere.
    pub proof_hash: [u8; 32],
    pub status: ClaimStatus,
}

/// What a claim stands for.
pub struct ClaimView {
    pub id: u64,
    pub issuer: Seq<u8>,
    pub receiver: Seq<u8>,
    pub claim_type: Seq<u8>,
    pub proof_hash: Seq<u8>,
    pub status: ClaimStatus,
}

impl View for Claim {
    type V = ClaimView;

    open spec fn view(&self) -> ClaimView {
        ClaimView {
            id: self.id,
            issuer: self.issuer@,
            receiver: self.receiver@,
            claim_type: self.claim_type@,
            proof_hash: self.proof_hash@,
            status: self.status,
        }
    }
}

impl Clone for Claim {
    fn clone(&self) -> (copy: Self)
        ensures
            copy@ == self@,
    {
        Claim {
            id: self.id,
            issuer: self.issuer.clone(),
            receiver: self.receiver.clone(),
            claim_type: copy_bytes(&self.claim_type),
            proof_hash: self.proof_hash,
            status: self.status,
        }
    }
}

/// The keys under which the registry keeps its entries.
#[derive(Debug, PartialEq, Eq)]
pub enum DataKey {
    /// The profile of an address.
    Profile(Address),
    /// The claim with an id.
    Claim(u64),
    /// The ids of the claims that an address has received.
    UserClaims(Address),
    /// The ids of the claims that an address has issued.
    IssuerClaims(Address),
    /// The id that the next claim will get.
    NextClaimId,
}

/// What a key stands for.
pub enum DataKeyView {
    Profile(Seq<u8>),
    Claim(u64),
    UserClaims(Seq<u8>),
    IssuerClaims(Seq<u8>),
    NextClaimId,
}

impl View for DataKey {
    type V = DataKeyView;

    open spec fn view(&self) -> DataKeyView {
        match self {
            DataKey::Profile(a) => DataKeyView::Profile(a@),
            DataKey::Claim(id) => DataKeyView::Claim(*id),
            DataKey::UserClaims(a) => DataKeyView::UserClaims(a@),
            DataKey::IssuerClaims(a) => DataKeyView::IssuerClaims(a@),
            DataKey::NextClaimId => DataKeyView::NextClaimId,
        }
    }
}

impl Clone for DataKey {
    fn clone(&self) -> (copy: Self)
        ensures
            copy@ == self@,
    {
        match self {
            DataKey::Profile(a) => DataKey::Profile(a.clone()),
            DataKey::Claim(id) => DataKey::Claim(*id),
            DataKey::UserClaims(a) => DataKey::UserClaims(a.clone()),
            DataKey::IssuerClaims(a) => DataKey::IssuerClaims(a.clone()),
            DataKey::NextClaimId => DataKey::NextClaimId,
        }
    }
}

impl DataKey {
    /// Tells whether two keys name the same entry.
    pub fn same(&self, other: &DataKey) -> (same: bool)
        ensures
            same == (self@ == other@),
    {
        match (self, other) {
            (DataKey::Profile(a), DataKey::Profile(b)) => a.same(b),
            (DataKey::Claim(a), DataKey::Claim(b)) => *a == *b,
            (DataKey::UserClaims(a), DataKey::UserClaims(b)) => a.same(b),
            (DataKey::IssuerClaims(a), DataKey::IssuerClaims(b)) => a.same(b),
            (DataKey::NextClaimId, DataKey::NextClaimId) => true,
            _ => false,
        }
    }
}

} // verus!
