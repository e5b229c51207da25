//! The four requests that the wall answers. Each names the record by its
//! address and by the key of its owner, and each either takes full effect or
//! leaves the store as it was.

use vstd::prelude::*;
use crate::address::Address;
use crate::error::WallError;
use crate::store::{countable, created, destroyed, entry_added, entry_upvoted, Store};

verus! {

/// The accounts of a request to create a list. The signer `user` becomes the
/// owner and pays for the space.
#[derive(Clone, Copy, Debug)]
pub struct NewList {
    pub base_account: Address,
    pub user: Address,
}

/// The accounts of a request to delete a list. The signer `user` has to be
/// the owner, and is refunded.
#[derive(Clone, Copy, Debug)]
pub struct DeleteList {
    pub base_account: Address,
    pub user: Address,
}

/// The accounts of a request to add an entry or to vote. The signer `user`
/// may be anyone; `list_owner` says whose list is meant.
#[derive(Clone, Copy, Debug)]
pub struct AddGif {
    pub base_account: Address,
    pub list_owner: Address,
    pub user: Address,
}

/// Creates the signer's list, with the seed `bump` and no entry.
pub fn new_list(store: &mut Store, ctx: &NewList, bump: u8) -> (r: Result<(), WallError>)
    requires
        old(store).wf(),
    ensures
        final(store).wf(),
        final(store).program() == old(store).program(),
        match created(old(store).program(), old(store)@, ctx.base_account@, ctx.user@, bump) {
            Ok(state) => r is Ok && final(store)@ == state,
            Err(e) => r == Err::<(), WallError>(e) && final(store)@ == old(store)@,
        },
{
    store.create(&ctx.base_account, &ctx.user, bump)
}

/// Deletes the signer's list and frees its address.
pub fn delete_list(store: &mut Store, ctx: &DeleteList) -> (r: Result<(), WallError>)
    requires
        old(store).wf(),
    ensures
        final(store).wf(),
        final(store).program() == old(store).program(),
        match destroyed(old(store).program(), old(store)@, ctx.base_account@, ctx.user@) {
            Ok(state) => r is Ok && final(store)@ == state,
            Err(e) => r == Err::<(), WallError>(e) && final(store)@ == old(store)@,
        },
{
    store.destroy(&ctx.base_account, &ctx.user)
}

/// Appends the locator `url` to the list of `ctx.list_owner`, in the name of
/// the signer and with no votes.
pub fn add_gif(store: &mut Store, ctx: &AddGif, url: String) -> (r: Result<(), WallError>)
    requires
        old(store).wf(),
    ensures
        final(store).wf(),
        final(store).program() == old(store).program(),
        match entry_added(
            old(store).program(),
            old(store)@,
            ctx.base_account@,
            ctx.list_owner@,
            url@,
            ctx.user@,
        ) {
            Ok(state) => r is Ok && final(store)@ == state,
            Err(e) => r == Err::<(), WallError>(e) && final(store)@ == old(store)@,
        },
{
    store.add_entry(&ctx.base_account, &ctx.list_owner, url, ctx.user)
}

/// Counts a vote for the first entry with the locator `url` in the list of
/// `ctx.list_owner`.
pub fn upvote(store: &mut Store, ctx: &AddGif, url: String) -> (r: Result<(), WallError>)
    requires
        old(store).wf(),
        countable(old(store)@, ctx.base_account@, url@),
    ensures
        final(store).wf(),
        final(store).program() == old(store).program(),
        match entry_upvoted(old(store).program(), old(store)@, ctx.base_account@, ctx.list_owner@, url@) {
            Ok(state) => r is Ok && final(store)@ == state,
            Err(e) => r == Err::<(), WallError>(e) && final(store)@ == old(store)@,
        },
{
    store.upvote_entry(&ctx.base_account, &ctx.list_owner, &url)
}

} // verus!
