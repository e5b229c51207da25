//! A record and the entries it holds: what is stored for one owner, how much
//! room it takes, and the changes that a request can make to it.

use vstd::prelude::*;
use vstd::utf8::encode_utf8;
use crate::address::Address;
use crate::error::WallError;

verus! {

/// The bytes that a record is given when it is created. The space is never
/// resized, so it bounds the entries and the lengths of their locators
/// together: an entry takes 44 bytes and its locator, the record 13 bytes
/// and its entries.
pub const SPACE: usize = 9000;

/// The bytes of a record that holds no entry: an 8-byte marker, the seed and
/// the 4-byte count of entries.
pub const HEADER_LEN: usize = 13;

/// The bytes of an entry besides its locator: the 4-byte length of the
/// locator, the 32-byte key of the contributor and the 8-byte vote count.
pub const ITEM_OVERHEAD: usize = 44;

/// One contributed link.
#[derive(Debug)]
pub struct GifItem {
    url: String,
    adder: Address,
    votes: u64,
}

/// An entry as a value: its locator, who added it and its votes.
pub ghost struct ItemView {
    pub url: Seq<char>,
    pub adder: Seq<u8>,
    pub votes: u64,
}

impl View for GifItem {
    type V = ItemView;

    closed spec fn view(&self) -> ItemView {
        ItemView { url: self.url@, adder: self.adder@, votes: self.votes }
    }
}

impl GifItem {
    /// An entry with the given locator, contributor and votes.
    pub fn new(url: String, adder: Address, votes: u64) -> (r: GifItem)
        ensures
            r@ == (ItemView { url: url@, adder: adder@, votes }),
    {
        GifItem { url, adder, votes }
    }

    /// The locator of the entry.
    pub fn url(&self) -> (r: &String)
        ensures
            r@ == self@.url,
    {
        &self.url
    }

    /// The key of whoever added the entry.
    pub fn adder(&self) -> (r: Address)
        ensures
            r@ == self@.adder,
    {
        self.adder
    }

    /// The votes the entry has got.
    pub fn votes(&self) -> (r: u64)
        ensures
            r == self@.votes,
    {
        self.votes
    }
}

/// The record of one owner: the seed its address was derived with, and the
/// entries in the order in which they were added.
#[derive(Debug)]
pub struct BaseAccount {
    pub bump: u8,
    pub gifs: Vec<GifItem>,
}

/// A record as a value.
pub ghost struct AccountView {
    pub bump: u8,
    pub gifs: Seq<ItemView>,
}

impl View for BaseAccount {
    type V = AccountView;

    open spec fn view(&self) -> AccountView {
        AccountView { bump: self.bump, gifs: self.gifs@.map_values(|g: GifItem| g@) }
    }
}

/// The bytes that one entry takes in a stored record.
pub open spec fn item_len(item: ItemView) -> nat {
    ITEM_OVERHEAD as nat + encode_utf8(item.url).len()
}

/// The bytes that a sequence of entries takes.
pub open spec fn items_len(gifs: Seq<ItemView>) -> nat
    decreases gifs.len(),
{
    if gifs.len() == 0 {
        0
    } else {
        items_len(gifs.drop_last()) + item_len(gifs.last())
    }
}

/// The bytes that a record takes when stored.
pub open spec fn encoded_len(account: AccountView) -> nat {
    HEADER_LEN as nat + items_len(account.gifs)
}

/// Whether a record is within the space it was given.
pub open spec fn fits(account: AccountView) -> bool {
    encoded_len(account) <= SPACE
}

/// A new entry: the locator, the contributor and no votes.
pub open spec fn fresh_item(url: Seq<char>, adder: Seq<u8>) -> ItemView {
    ItemView { url, adder, votes: 0 }
}

/// Whether some entry has the locator.
pub open spec fn has_url(gifs: Seq<ItemView>, url: Seq<char>) -> bool {
    exists|i: int| 0 <= i < gifs.len() && (#[trigger] gifs[i]).url == url
}

/// Whether `i` is the first entry with the locator.
pub open spec fn is_first(gifs: Seq<ItemView>, url: Seq<char>, i: int) -> bool {
    &&& 0 <= i < gifs.len()
    &&& gifs[i].url == url
    &&& forall|j: int| 0 <= j < i ==> (#[trigger] gifs[j]).url != url
}

/// The index of the first entry with the locator, where there is one.
pub open spec fn first_index(gifs: Seq<ItemView>, url: Seq<char>) -> int {
    choose|i: int| is_first(gifs, url, i)
}

/// An entry with one vote more.
pub open spec fn voted(item: ItemView) -> ItemView {
    ItemView { votes: (item.votes + 1) as u64, ..item }
}

/// The record after a vote for the locator: the first entry that has it gets
/// one vote more, and nothing else changes.
pub open spec fn upvoted(account: AccountView, url: Seq<char>) -> AccountView {
    let i = first_index(account.gifs, url);
    AccountView { gifs: account.gifs.update(i, voted(account.gifs[i])), ..account }
}

/// Whether a vote for the locator can be counted: the first entry that has
/// it, if there is one, is below the largest count.
pub open spec fn can_count(account: AccountView, url: Seq<char>) -> bool {
    has_url(account.gifs, url) ==> account.gifs[first_index(account.gifs, url)].votes < u64::MAX
}

/// The record after an entry was appended.
pub open spec fn appended(account: AccountView, url: Seq<char>, adder: Seq<u8>) -> AccountView {
    AccountView { gifs: account.gifs.push(fresh_item(url, adder)), ..account }
}

/// At most one index is the first with a locator.
pub proof fn lemma_first_unique(gifs: Seq<ItemView>, url: Seq<char>, i: int)
    requires
        is_first(gifs, url, i),
    ensures
        first_index(gifs, url) == i,
        has_url(gifs, url),
{
    let k = first_index(gifs, url);
    assert(is_first(gifs, url, k));
    if k < i {
        assert(gifs[k].url != url);
    }
    if i < k {
        assert(gifs[i].url != url);
    }
}

/// A prefix of the entries takes no more room than all of them.
pub proof fn lemma_items_len_prefix(gifs: Seq<ItemView>, n: int)
    requires
        0 <= n <= gifs.len(),
    ensures
        items_len(gifs.take(n)) <= items_len(gifs),
    decreases gifs.len(),
{
    if n == gifs.len() {
        assert(gifs.take(n) =~= gifs);
    } else {
        assert(gifs.drop_last().take(n) =~= gifs.take(n));
        lemma_items_len_prefix(gifs.drop_last(), n);
    }
}

/// One more entry takes its own length more.
pub proof fn lemma_items_len_push(gifs: Seq<ItemView>, item: ItemView)
    ensures
        items_len(gifs.push(item)) == items_len(gifs) + item_len(item),
{
    assert(gifs.push(item).drop_last() =~= gifs);
}

/// Room depends on the locators alone: a changed vote count leaves it as it was.
pub proof fn lemma_items_len_votes(gifs: Seq<ItemView>, i: int, item: ItemView)
    requires
        0 <= i < gifs.len(),
        item.url == gifs[i].url,
    ensures
        items_len(gifs.update(i, item)) == items_len(gifs),
    decreases gifs.len(),
{
    let after = gifs.update(i, item);
    if i == gifs.len() - 1 {
        assert(after.drop_last() =~= gifs.drop_last());
    } else {
        assert(after.drop_last() =~= gifs.drop_last().update(i, item));
        lemma_items_len_votes(gifs.drop_last(), i, item);
    }
}

impl BaseAccount {
    /// A record as it is right after its creation: the seed, and no entry.
    pub fn initialize(bump: u8) -> (r: BaseAccount)
        ensures
            r@ == (AccountView { bump, gifs: Seq::empty() }),
            fits(r@),
    {
        let r = BaseAccount { bump, gifs: Vec::new() };
        assert(r@.gifs =~= Seq::empty());
        r
    }

    /// The bytes that the record takes when stored, or `None` where they are
    /// more than the space a record is given.
    pub fn encoded_len(&self) -> (r: Option<usize>)
        ensures
            match r {
                Some(n) => n == encoded_len(self@) && fits(self@),
                None => !fits(self@),
            },
    {
        let mut total: usize = HEADER_LEN;
        let mut i: usize = 0;
        while i < self.gifs.len()
            invariant
                i <= self.gifs.len(),
                total == HEADER_LEN + items_len(self@.gifs.take(i as int)),
                total <= SPACE,
            decreases self.gifs.len() - i,
        {
            let n: usize = self.gifs[i].url.as_str().as_bytes().len();
            proof {
                let next = self@.gifs.take(i + 1);
                assert(next.drop_last() =~= self@.gifs.take(i as int));
                assert(next.last() == self.gifs[i as int]@);
                lemma_items_len_prefix(self@.gifs, i + 1);
            }
            if n > SPACE - ITEM_OVERHEAD || total > SPACE - ITEM_OVERHEAD - n {
                return None;
            }
            total = total + ITEM_OVERHEAD + n;
            i += 1;
        }
        assert(self@.gifs.take(i as int) =~= self@.gifs);
        Some(total)
    }

    /// Appends an entry with the locator, the contributor and no votes,
    /// unless the record would then outgrow its space. A locator may occur
    /// any number of times.
    pub fn add(&mut self, url: String, adder: Address) -> (r: Result<(), WallError>)
        ensures
            r is Ok <==> fits(appended(old(self)@, url@, adder@)),
            r is Ok ==> final(self)@ == appended(old(self)@, url@, adder@),
            r is Err ==> r == Err::<(), WallError>(WallError::CapacityExceeded) && *final(self) == *old(self),
    {
        let n: usize = url.as_str().as_bytes().len();
        proof {
            lemma_items_len_push(self@.gifs, fresh_item(url@, adder@));
        }
        match self.encoded_len() {
            Some(used) => {
                if n > SPACE - ITEM_OVERHEAD || used > SPACE - ITEM_OVERHEAD - n {
                    return Err(WallError::CapacityExceeded);
                }
                self.gifs.push(GifItem { url, adder, votes: 0 });
                assert(self@.gifs =~= old(self)@.gifs.push(fresh_item(url@, adder@)));
                Ok(())
            },
            None => Err(WallError::CapacityExceeded),
        }
    }

    /// The index of the first entry with the locator.
    pub fn find(&self, url: &String) -> (r: Option<usize>)
        ensures
            r is Some <==> has_url(self@.gifs, url@),
            r matches Some(i) ==> is_first(self@.gifs, url@, i as int),
    {
        let mut i: usize = 0;
        while i < self.gifs.len()
            invariant
                i <= self.gifs.len(),
                forall|j: int| 0 <= j < i ==> (#[trigger] self@.gifs[j]).url != url@,
            decreases self.gifs.len() - i,
        {
            if self.gifs[i].url == *url {
                assert(self@.gifs[i as int].url == url@);
                return Some(i);
            }
            i += 1;
        }
        None
    }

    /// Whether a vote for the locator can be counted: `upvote` asks for it.
    pub fn can_count(&self, url: &String) -> (r: bool)
        ensures
            r == can_count(self@, url@),
    {
        match self.find(url) {
            Some(i) => {
                proof {
                    lemma_first_unique(self@.gifs, url@, i as int);
                }
                self.gifs[i].votes < u64::MAX
            },
            None => true,
        }
    }

    /// Gives the first entry with the locator one vote more. Other entries
    /// with the same locator, added later, keep their count.
    pub fn upvote(&mut self, url: &String) -> (r: Result<(), WallError>)
        requires
            can_count(old(self)@, url@),
        ensures
            r is Ok <==> has_url(old(self)@.gifs, url@),
            r is Ok ==> final(self)@ == upvoted(old(self)@, url@),
            r is Err ==> r == Err::<(), WallError>(WallError::NoItemFound) && *final(self) == *old(self),
            fits(old(self)@) ==> fits(final(self)@),
    {
        match self.find(url) {
            Some(i) => {
                proof {
                    lemma_first_unique(self@.gifs, url@, i as int);
                    lemma_items_len_votes(self@.gifs, i as int, voted(self@.gifs[i as int]));
                }
                let mut item = self.gifs.remove(i);
                item.votes = item.votes + 1;
                self.gifs.insert(i, item);
                assert(self@.gifs =~= old(self)@.gifs.update(i as int, voted(old(self)@.gifs[i as int])));
                Ok(())
            },
            None => Err(WallError::NoItemFound),
        }
    }
}

} // verus!
