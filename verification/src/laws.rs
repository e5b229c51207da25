//! What holds of the wall over several requests.

use vstd::prelude::*;
use crate::address::derived;
use crate::error::WallError;
use crate::record::{appended, first_index, fresh_item, has_url, is_first, lemma_first_unique, upvoted, AccountView, ItemView};
use crate::store::{countable, created, destroyed, entry_added, entry_upvoted, loaded, validated, State};

verus! {

/// The record after a run of additions, each with its locator and its
/// contributor, in the order given.
pub open spec fn appended_all(account: AccountView, urls: Seq<Seq<char>>, adders: Seq<Seq<u8>>) -> AccountView
    decreases urls.len(),
{
    if urls.len() == 0 {
        account
    } else {
        appended(appended_all(account, urls.drop_last(), adders.drop_last()), urls.last(), adders.last())
    }
}

/// The address of a record depends on the program, the owner's key and the
/// seed, and on nothing else: the same three give the same address.
pub proof fn law_derive_deterministic(program: Seq<u8>, owner: Seq<u8>, bump: u8, program2: Seq<u8>, owner2: Seq<u8>, bump2: u8)
    requires
        program == program2,
        owner == owner2,
        bump == bump2,
    ensures
        derived(program, owner, bump) == derived(program2, owner2, bump2),
{
}

/// An owner has one record for each seed: two live records that the same
/// key and the same seed account for stand at the same address.
pub proof fn law_one_record_per_owner_and_seed(program: Seq<u8>, state: State, base: Seq<u8>, base2: Seq<u8>, owner: Seq<u8>)
    requires
        validated(program, state, base, owner),
        validated(program, state, base2, owner),
        state[base].bump == state[base2].bump,
    ensures
        base == base2,
{
}

/// No request succeeds on an address taken on trust: one that creates,
/// changes or destroys a record succeeds only where the key it names and
/// the record's seed derive the address it names.
pub proof fn law_requests_are_validated(
    program: Seq<u8>,
    state: State,
    base: Seq<u8>,
    owner: Seq<u8>,
    bump: u8,
    url: Seq<char>,
    adder: Seq<u8>,
)
    ensures
        created(program, state, base, owner, bump) is Ok ==> derived(program, owner, bump) == Some(base),
        entry_added(program, state, base, owner, url, adder) is Ok ==> validated(program, state, base, owner),
        entry_upvoted(program, state, base, owner, url) is Ok ==> validated(program, state, base, owner),
        destroyed(program, state, base, owner) is Ok ==> validated(program, state, base, owner),
{
}

/// On an address without a live record every request but creation fails
/// with `NotFound`.
pub proof fn law_vacant_address_refuses(
    program: Seq<u8>,
    state: State,
    base: Seq<u8>,
    owner: Seq<u8>,
    url: Seq<char>,
    adder: Seq<u8>,
)
    requires
        !state.contains_key(base),
    ensures
        loaded(state, base) == Err::<AccountView, WallError>(WallError::NotFound),
        entry_added(program, state, base, owner, url, adder) == Err::<State, WallError>(WallError::NotFound),
        entry_upvoted(program, state, base, owner, url) == Err::<State, WallError>(WallError::NotFound),
        destroyed(program, state, base, owner) == Err::<State, WallError>(WallError::NotFound),
{
}

/// A record is only ever created at the address that its owner's key and its
/// seed derive, and a record that was just created is read back empty, with
/// the seed it was created with.
pub proof fn law_create_then_load(program: Seq<u8>, state: State, base: Seq<u8>, owner: Seq<u8>, bump: u8)
    requires
        created(program, state, base, owner, bump) is Ok,
    ensures
        loaded(created(program, state, base, owner, bump)->Ok_0, base) == Ok::<AccountView, WallError>(
            AccountView { bump, gifs: Seq::empty() },
        ),
        validated(program, created(program, state, base, owner, bump)->Ok_0, base, owner),
        !state.contains_key(base),
{
}

/// An address holds one record: while a record lives at an address, nobody
/// can create another there, whatever key and seed are named.
pub proof fn law_occupied_address_refuses_creation(program: Seq<u8>, state: State, base: Seq<u8>, owner: Seq<u8>, bump: u8)
    requires
        state.contains_key(base),
    ensures
        created(program, state, base, owner, bump) is Err,
        derived(program, owner, bump) == Some(base) ==> created(program, state, base, owner, bump) == Err::<
            State,
            WallError,
        >(WallError::AlreadyExists),
{
}

/// Additions only append, and keep their order: after `n` of them the
/// record holds what it held before, then the `n` new entries, the `i`-th
/// with the `i`-th locator and contributor and no votes.
pub proof fn law_add_appends_in_order(account: AccountView, urls: Seq<Seq<char>>, adders: Seq<Seq<u8>>)
    requires
        urls.len() == adders.len(),
    ensures
        appended_all(account, urls, adders).bump == account.bump,
        appended_all(account, urls, adders).gifs.len() == account.gifs.len() + urls.len(),
        forall|j: int| 0 <= j < account.gifs.len() ==> appended_all(account, urls, adders).gifs[j] == account.gifs[j],
        forall|i: int| 0 <= i < urls.len() ==> #[trigger] appended_all(account, urls, adders).gifs[account.gifs.len() + i]
            == fresh_item(urls[i], adders[i]),
    decreases urls.len(),
{
    if urls.len() > 0 {
        law_add_appends_in_order(account, urls.drop_last(), adders.drop_last());
    }
}

/// A vote for a locator that exactly one entry has gives that entry one vote
/// more and changes nothing else.
pub proof fn law_upvote_single(account: AccountView, url: Seq<char>, i: int)
    requires
        0 <= i < account.gifs.len(),
        account.gifs[i].url == url,
        forall|j: int| 0 <= j < account.gifs.len() && j != i ==> (#[trigger] account.gifs[j]).url != url,
        account.gifs[i].votes < u64::MAX,
    ensures
        upvoted(account, url).bump == account.bump,
        upvoted(account, url).gifs.len() == account.gifs.len(),
        upvoted(account, url).gifs[i] == (ItemView { votes: (account.gifs[i].votes + 1) as u64, ..account.gifs[i] }),
        upvoted(account, url).gifs[i].votes == account.gifs[i].votes + 1,
        forall|j: int| 0 <= j < account.gifs.len() && j != i ==> upvoted(account, url).gifs[j] == account.gifs[j],
{
    assert(is_first(account.gifs, url, i));
    lemma_first_unique(account.gifs, url, i);
}

/// Where several entries have the locator, a vote goes to the one that was
/// added first; the later ones, like every other entry, stay as they were.
pub proof fn law_upvote_first_of_duplicates(account: AccountView, url: Seq<char>, i: int, j: int)
    requires
        0 <= i < j < account.gifs.len(),
        account.gifs[i].url == url,
        account.gifs[j].url == url,
        forall|k: int| 0 <= k < i ==> (#[trigger] account.gifs[k]).url != url,
        account.gifs[i].votes < u64::MAX,
    ensures
        upvoted(account, url).gifs.len() == account.gifs.len(),
        upvoted(account, url).gifs[i].votes == account.gifs[i].votes + 1,
        upvoted(account, url).gifs[j] == account.gifs[j],
        forall|k: int| 0 <= k < account.gifs.len() && k != i ==> upvoted(account, url).gifs[k] == account.gifs[k],
{
    assert(is_first(account.gifs, url, i));
    lemma_first_unique(account.gifs, url, i);
}

/// A vote for a locator that no entry has is refused, whatever else holds of
/// a live and rightly addressed record, and a vote that is counted goes to
/// an entry that has the locator.
pub proof fn law_upvote_absent(program: Seq<u8>, state: State, base: Seq<u8>, owner: Seq<u8>, url: Seq<char>)
    requires
        validated(program, state, base, owner),
    ensures
        !has_url(state[base].gifs, url) ==> entry_upvoted(program, state, base, owner, url) == Err::<State, WallError>(
            WallError::NoItemFound,
        ),
        has_url(state[base].gifs, url) ==> is_first(state[base].gifs, url, first_index(state[base].gifs, url)),
{
    if has_url(state[base].gifs, url) {
        let gifs = state[base].gifs;
        let k = choose|k: int| 0 <= k < gifs.len() && (#[trigger] gifs[k]).url == url;
        lemma_first_exists(gifs, url, k);
    }
}

/// Below an entry with the locator there is a first one.
proof fn lemma_first_exists(gifs: Seq<ItemView>, url: Seq<char>, k: int)
    requires
        0 <= k < gifs.len(),
        gifs[k].url == url,
    ensures
        is_first(gifs, url, first_index(gifs, url)),
    decreases k,
{
    if exists|j: int| 0 <= j < k && (#[trigger] gifs[j]).url == url {
        let j = choose|j: int| 0 <= j < k && (#[trigger] gifs[j]).url == url;
        lemma_first_exists(gifs, url, j);
    } else {
        assert(is_first(gifs, url, k));
    }
}

/// Once a record is destroyed its address is vacant: reading it, adding to
/// it, voting in it and destroying it again all fail with `NotFound`, whoever
/// asks, and the address can be used for a new record.
pub proof fn law_destroy_vacates(
    program: Seq<u8>,
    state: State,
    base: Seq<u8>,
    signer: Seq<u8>,
    other: Seq<u8>,
    url: Seq<char>,
)
    requires
        destroyed(program, state, base, signer) is Ok,
    ensures
        validated(program, state, base, signer),
        loaded(destroyed(program, state, base, signer)->Ok_0, base) == Err::<AccountView, WallError>(WallError::NotFound),
        destroyed(program, destroyed(program, state, base, signer)->Ok_0, base, other) == Err::<State, WallError>(
            WallError::NotFound,
        ),
        entry_added(program, destroyed(program, state, base, signer)->Ok_0, base, other, url, other) == Err::<
            State,
            WallError,
        >(WallError::NotFound),
        entry_upvoted(program, destroyed(program, state, base, signer)->Ok_0, base, other, url) == Err::<
            State,
            WallError,
        >(WallError::NotFound),
        created(program, destroyed(program, state, base, signer)->Ok_0, base, signer, state[base].bump) is Ok,
{
}

/// Whether some key derives `base` with the seed `bump`.
pub open spec fn derivable(program: Seq<u8>, base: Seq<u8>, bump: u8) -> bool {
    exists|owner: Seq<u8>| #[trigger] derived(program, owner, bump) == Some(base)
}

/// Whether every record stands at an address that its own seed derives from
/// some key.
pub open spec fn all_derivable(program: Seq<u8>, state: State) -> bool {
    forall|base: Seq<u8>| state.contains_key(base) ==> derivable(program, base, #[trigger] state[base].bump)
}

/// Every live record stands at an address that its own seed derives: that
/// holds of a store without records, and every request keeps it.
pub proof fn law_addresses_stay_derived(
    program: Seq<u8>,
    state: State,
    base: Seq<u8>,
    owner: Seq<u8>,
    bump: u8,
    url: Seq<char>,
    adder: Seq<u8>,
)
    requires
        all_derivable(program, state),
    ensures
        all_derivable(program, State::empty()),
        created(program, state, base, owner, bump) matches Ok(s) ==> all_derivable(program, s),
        destroyed(program, state, base, owner) matches Ok(s) ==> all_derivable(program, s),
        entry_added(program, state, base, owner, url, adder) matches Ok(s) ==> all_derivable(program, s),
        entry_upvoted(program, state, base, owner, url) matches Ok(s) ==> all_derivable(program, s),
{
    if let Ok(s) = created(program, state, base, owner, bump) {
        assert forall|b: Seq<u8>| s.contains_key(b) implies derivable(program, b, #[trigger] s[b].bump) by {
            if b != base {
                assert(derivable(program, b, state[b].bump));
            }
        }
    }
    if let Ok(s) = destroyed(program, state, base, owner) {
        assert forall|b: Seq<u8>| s.contains_key(b) implies derivable(program, b, #[trigger] s[b].bump) by {
            assert(derivable(program, b, state[b].bump));
        }
    }
    if let Ok(s) = entry_added(program, state, base, owner, url, adder) {
        assert forall|b: Seq<u8>| s.contains_key(b) implies derivable(program, b, #[trigger] s[b].bump) by {
            assert(derivable(program, b, state[b].bump));
        }
    }
    if let Ok(s) = entry_upvoted(program, state, base, owner, url) {
        assert forall|b: Seq<u8>| s.contains_key(b) implies derivable(program, b, #[trigger] s[b].bump) by {
            assert(derivable(program, b, state[b].bump));
        }
    }
}

/// A record only grows: a request that succeeds on it keeps its seed and
/// every entry it had, each in its place and with its locator and its
/// contributor, and lowers no vote count.
pub proof fn law_entries_are_kept(
    program: Seq<u8>,
    state: State,
    base: Seq<u8>,
    owner: Seq<u8>,
    url: Seq<char>,
    adder: Seq<u8>,
    after: State,
)
    requires
        countable(state, base, url),
        entry_added(program, state, base, owner, url, adder) == Ok::<State, WallError>(after)
            || entry_upvoted(program, state, base, owner, url) == Ok::<State, WallError>(after),
    ensures
        after.contains_key(base),
        after[base].bump == state[base].bump,
        after[base].gifs.len() >= state[base].gifs.len(),
        forall|i: int|
            0 <= i < state[base].gifs.len() ==> {
                &&& (#[trigger] after[base].gifs[i]).url == state[base].gifs[i].url
                &&& after[base].gifs[i].adder == state[base].gifs[i].adder
                &&& after[base].gifs[i].votes >= state[base].gifs[i].votes
            },
{
    if entry_upvoted(program, state, base, owner, url) == Ok::<State, WallError>(after) {
        let gifs = state[base].gifs;
        let k = choose|k: int| 0 <= k < gifs.len() && (#[trigger] gifs[k]).url == url;
        lemma_first_exists(gifs, url, k);
    }
}

/// A request touches the record it names and no other.
pub proof fn law_other_records_untouched(
    program: Seq<u8>,
    state: State,
    base: Seq<u8>,
    owner: Seq<u8>,
    url: Seq<char>,
    adder: Seq<u8>,
    bump: u8,
    elsewhere: Seq<u8>,
)
    requires
        elsewhere != base,
    ensures
        created(program, state, base, owner, bump) matches Ok(s) ==> loaded(s, elsewhere) == loaded(state, elsewhere),
        destroyed(program, state, base, owner) matches Ok(s) ==> loaded(s, elsewhere) == loaded(state, elsewhere),
        entry_added(program, state, base, owner, url, adder) matches Ok(s) ==> loaded(s, elsewhere) == loaded(
            state,
            elsewhere,
        ),
        entry_upvoted(program, state, base, owner, url) matches Ok(s) ==> loaded(s, elsewhere) == loaded(state, elsewhere),
{
}

} // verus!
