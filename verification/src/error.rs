//! The reasons for which an operation is rejected.

use vstd::prelude::*;

verus! {

/// Why an operation was rejected. A rejected operation changes nothing.
#[derive(Clone, Copy, Debug, PartialEq, Eq, Structural)]
pub enum EscrowError {
    /// Storage exists already where a record or a sub-account is to be
    /// created.
    DuplicateOffer,
    /// An asset is not registered, or is registered with another
    /// precision than the one declared.
    AssetMismatch,
    /// A balance does not cover what is to be taken from it.
    InsufficientFunds,
    /// What the caller supplied disagrees with the record.
    RecordMismatch,
    /// The signer is not the identity that the step requires.
    Unauthorized,
    /// No record, or no custody of it, exists at the address.
    RecordNotFound,
    /// No address can be derived for the record: no bump completes the
    /// seeds.
    NoAddress,
}

} // verus!
