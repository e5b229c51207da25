//! A public wall of links: every owner has one record, found at an address
//! derived from the owner's key, to which anyone may add an entry and on
//! whose entries anyone may vote.

pub mod address;
pub mod error;
pub mod record;
pub mod store;
pub mod instructions;
pub mod laws;
