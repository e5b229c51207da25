//! The ways in which a request can fail.

use vstd::prelude::*;

verus! {

/// Why a request was turned down. A request that fails changes nothing.
#[derive(Clone, Copy, Debug, PartialEq, Eq, Structural)]
pub enum WallError {
    /// A live record already stands at the address.
    AlreadyExists,
    /// No live record stands at the address.
    NotFound,
    /// The owner and the seed do not derive the address that was named.
    AddressMismatch,
    /// The signer is not the owner of the record.
    NotOwner,
    /// No entry of the record has the locator.
    NoItemFound,
    /// The entry would not fit in the space the record was given.
    CapacityExceeded,
}

impl WallError {
    /// A sentence for the person who sent the request.
    pub fn message(&self) -> (r: &'static str)
        ensures
            r@ == match *self {
                WallError::AlreadyExists => "A list already exists at that address"@,
                WallError::NotFound => "No list exists at that address"@,
                WallError::AddressMismatch => "The owner and bump do not derive that address"@,
                WallError::NotOwner => "Only the owner may delete a list"@,
                WallError::NoItemFound => "No item with that url found"@,
                WallError::CapacityExceeded => "The list has no room for that item"@,
            },
    {
        match self {
            WallError::AlreadyExists => "A list already exists at that address",
            WallError::NotFound => "No list exists at that address",
            WallError::AddressMismatch => "The owner and bump do not derive that address",
            WallError::NotOwner => "Only the owner may delete a list",
            WallError::NoItemFound => "No item with that url found",
            WallError::CapacityExceeded => "The list has no room for that item",
        }
    }
}

} // verus!
