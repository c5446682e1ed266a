use vstd::prelude::*;

verus! {

/// The reasons for which an operation of the registry is refused.
#[derive(Clone, Copy, Debug, PartialEq, Eq, Structural)]
pub enum Error {
    /// A profile is already stored for this address.
    ProfileAlreadyExists,
    /// No profile is stored for this address.
    ProfileNotFound,
    /// No claim is stored under this id.
    ClaimNotFound,
    /// The caller is not the issuer recorded in the claim.
    UnauthorizedApproval,
    /// The claim has already been approved.
    ClaimAlreadyApproved,
    /// The claim has already been rejected.
    ClaimAlreadyRejected,
    /// The identifier is too short to be a DID.
    InvalidDid,
    /// The metadata URI is empty or too long.
    InvalidMetadataUri,
}

/// The platform has not authenticated the caller as the address that a call
/// names. This is none of the registry's own errors: such a call is turned
/// away before it reaches an operation.
#[derive(Clone, Copy, Debug, PartialEq, Eq, Structural)]
pub struct Unauthorized;

} // verus!
