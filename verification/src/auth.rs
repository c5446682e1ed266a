use vstd::prelude::*;
use crate::errors::{Error, Unauthorized};
use crate::storage::Host;
use crate::types::Address;

verus! {

/// The least number of bytes that a DID has.
pub const MIN_DID_LEN: usize = 10;

/// The greatest number of bytes that a metadata URI has.
pub const MAX_METADATA_URI_LEN: usize = 256;

/// A DID is accepted when it has at least ten bytes; its syntax is not looked at.
pub open spec fn is_valid_did(did: Seq<u8>) -> bool {
    did.len() >= MIN_DID_LEN
}

/// A metadata URI is accepted when it is not empty and has at most 256 bytes.
pub open spec fn is_valid_metadata_uri(uri: Seq<u8>) -> bool {
    1 <= uri.len() <= MAX_METADATA_URI_LEN
}

/// Checks that the platform has authenticated the caller as `addr`. Every
/// operation that changes the registry asks for this of the address in
/// whose name it is called.
pub fn require_caller_is(e: &Host, addr: &Address) -> (checked: Result<(), Unauthorized>)
    ensures
        checked.is_ok() == e@.authorized.contains(addr@),
{
    if e.is_authorized(addr) {
        Ok(())
    } else {
        Err(Unauthorized)
    }
}

/// Checks the length of a DID.
pub fn validate_did(did: &Vec<u8>) -> (checked: Result<(), Error>)
    ensures
        checked == (if is_valid_did(did@) {
            Ok::<(), Error>(())
        } else {
            Err::<(), Error>(Error::InvalidDid)
        }),
{
    if did.len() < MIN_DID_LEN {
        return Err(Error::InvalidDid);
    }
    Ok(())
}

/// Checks the length of a metadata URI.
pub fn validate_metadata_uri(uri: &Vec<u8>) -> (checked: Result<(), Error>)
    ensures
        checked == (if is_valid_metadata_uri(uri@) {
            Ok::<(), Error>(())
        } else {
            Err::<(), Error>(Error::InvalidMetadataUri)
        }),
{
    if uri.len() == 0 || uri.len() > MAX_METADATA_URI_LEN {
        return Err(Error::InvalidMetadataUri);
    }
    Ok(())
}

/// Checks that `caller` is the issuer recorded in a claim: nobody else may
/// settle it.
pub fn validate_claim_ownership(caller: &Address, issuer: &Address) -> (checked: Result<(), Error>)
    ensures
        checked == (if caller@ == issuer@ {
            Ok::<(), Error>(())
        } else {
            Err::<(), Error>(Error::UnauthorizedApproval)
        }),
{
    if caller.same(issuer) {
        Ok(())
    } else {
        Err(Error::UnauthorizedApproval)
    }
}

} // verus!
