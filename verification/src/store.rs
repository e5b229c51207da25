//! The store: every live record, each at the address derived from its
//! owner's key and its seed.

use vstd::prelude::*;
use crate::address::{derive_address, derived, derives_to, key_of, Address};
use crate::error::WallError;
use crate::record::{
    appended, can_count, fits, has_url, upvoted, AccountView, BaseAccount,
};

verus! {

/// The records of a store as a value: address to record.
pub type State = Map<Seq<u8>, AccountView>;

/// A live record and the address it stands at.
struct Slot {
    address: Address,
    account: BaseAccount,
}

/// All live records of one program. No two of them share an address.
pub struct Store {
    program: Address,
    slots: Vec<Slot>,
}

/// What creating a record with the seed `bump` at `base` does to the
/// records `state`, where `derived` is what the owner's key and the seed
/// derive.
pub open spec fn created_at(state: State, base: Seq<u8>, derived: Option<Seq<u8>>, bump: u8) -> Result<State, WallError> {
    if derived != Some(base) {
        Err(WallError::AddressMismatch)
    } else if state.contains_key(base) {
        Err(WallError::AlreadyExists)
    } else {
        Ok(state.insert(base, AccountView { bump, gifs: Seq::empty() }))
    }
}

/// What creating a record at `base` for `owner` with the seed `bump` does.
pub open spec fn created(program: Seq<u8>, state: State, base: Seq<u8>, owner: Seq<u8>, bump: u8) -> Result<State, WallError> {
    created_at(state, base, derived(program, owner, bump), bump)
}

/// What reading the record at `base` gives.
pub open spec fn loaded(state: State, base: Seq<u8>) -> Result<AccountView, WallError> {
    if state.contains_key(base) {
        Ok(state[base])
    } else {
        Err(WallError::NotFound)
    }
}

/// Whether `base` holds a live record whose seed, with `owner`, derives `base`.
pub open spec fn validated(program: Seq<u8>, state: State, base: Seq<u8>, owner: Seq<u8>) -> bool {
    state.contains_key(base) && derived(program, owner, state[base].bump) == Some(base)
}

/// What destroying the record at `base` does, where `derived` is what the
/// signer's key and the record's seed derive.
pub open spec fn destroyed_at(state: State, base: Seq<u8>, derived: Option<Seq<u8>>) -> Result<State, WallError> {
    if !state.contains_key(base) {
        Err(WallError::NotFound)
    } else if derived != Some(base) {
        Err(WallError::NotOwner)
    } else {
        Ok(state.remove(base))
    }
}

/// What destroying the record at `base` on behalf of `signer` does.
pub open spec fn destroyed(program: Seq<u8>, state: State, base: Seq<u8>, signer: Seq<u8>) -> Result<State, WallError> {
    destroyed_at(state, base, derived(program, signer, state[base].bump))
}

/// What adding an entry to the record at `base` does, where `derived` is
/// what the owner's key and the record's seed derive.
pub open spec fn entry_added_at(
    state: State,
    base: Seq<u8>,
    derived: Option<Seq<u8>>,
    url: Seq<char>,
    adder: Seq<u8>,
) -> Result<State, WallError> {
    if !state.contains_key(base) {
        Err(WallError::NotFound)
    } else if derived != Some(base) {
        Err(WallError::AddressMismatch)
    } else if !fits(appended(state[base], url, adder)) {
        Err(WallError::CapacityExceeded)
    } else {
        Ok(state.insert(base, appended(state[base], url, adder)))
    }
}

/// What adding an entry to the record of `owner` at `base` does.
pub open spec fn entry_added(
    program: Seq<u8>,
    state: State,
    base: Seq<u8>,
    owner: Seq<u8>,
    url: Seq<char>,
    adder: Seq<u8>,
) -> Result<State, WallError> {
    entry_added_at(state, base, derived(program, owner, state[base].bump), url, adder)
}

/// What a vote for `url` in the record at `base` does, where `derived` is
/// what the owner's key and the record's seed derive.
pub open spec fn entry_upvoted_at(state: State, base: Seq<u8>, derived: Option<Seq<u8>>, url: Seq<char>) -> Result<State, WallError> {
    if !state.contains_key(base) {
        Err(WallError::NotFound)
    } else if derived != Some(base) {
        Err(WallError::AddressMismatch)
    } else if !has_url(state[base].gifs, url) {
        Err(WallError::NoItemFound)
    } else {
        Ok(state.insert(base, upvoted(state[base], url)))
    }
}

/// What a vote for `url` in the record of `owner` at `base` does.
pub open spec fn entry_upvoted(program: Seq<u8>, state: State, base: Seq<u8>, owner: Seq<u8>, url: Seq<char>) -> Result<State, WallError> {
    entry_upvoted_at(state, base, derived(program, owner, state[base].bump), url)
}

/// Whether a vote for `url` at `base` can be counted (see `can_count`).
pub open spec fn countable(state: State, base: Seq<u8>, url: Seq<char>) -> bool {
    state.contains_key(base) ==> can_count(state[base], url)
}

/// Whether `i` is the place of the address `a` among `cells`.
spec fn at(cells: Seq<(Seq<u8>, AccountView)>, a: Seq<u8>, i: int) -> bool {
    0 <= i < cells.len() && cells[i].0 == a
}

/// No address occurs twice.
spec fn distinct(cells: Seq<(Seq<u8>, AccountView)>) -> bool {
    forall|i: int, j: int| 0 <= i < j < cells.len() ==> (#[trigger] cells[i]).0 != (#[trigger] cells[j]).0
}

/// The map that a sequence of addressed records stands for.
spec fn model(cells: Seq<(Seq<u8>, AccountView)>) -> State {
    Map::new(
        |a: Seq<u8>| exists|i: int| at(cells, a, i),
        |a: Seq<u8>| cells[choose|i: int| at(cells, a, i)].1,
    )
}

/// Where no address occurs twice, the map holds for an address the record
/// that stands beside it.
proof fn lemma_model_at(cells: Seq<(Seq<u8>, AccountView)>, a: Seq<u8>, i: int)
    requires
        distinct(cells),
        at(cells, a, i),
    ensures
        model(cells).contains_key(a),
        model(cells)[a] == cells[i].1,
{
    let k = choose|k: int| at(cells, a, k);
    assert(at(cells, a, k));
    if k < i {
        assert(cells[k].0 != cells[i].0);
    }
    if i < k {
        assert(cells[i].0 != cells[k].0);
    }
}

/// A record appended at a vacant address is inserted into the map.
proof fn lemma_model_push(cells: Seq<(Seq<u8>, AccountView)>, a: Seq<u8>, v: AccountView)
    requires
        distinct(cells),
        !model(cells).contains_key(a),
    ensures
        distinct(cells.push((a, v))),
        model(cells.push((a, v))) == model(cells).insert(a, v),
{
    let after = cells.push((a, v));
    assert forall|i: int, j: int| 0 <= i < j < after.len() implies (#[trigger] after[i]).0 != (#[trigger] after[j]).0 by {
        if j == cells.len() {
            assert(!at(cells, a, i));
        } else {
            assert(cells[i].0 != cells[j].0);
        }
    }
    assert forall|k: Seq<u8>| #[trigger] model(after).contains_key(k) <==> model(cells).insert(a, v).contains_key(k) by {
        if model(after).contains_key(k) {
            let i = choose|i: int| at(after, k, i);
            if i < cells.len() {
                assert(at(cells, k, i));
            }
        }
        if model(cells).contains_key(k) {
            let i = choose|i: int| at(cells, k, i);
            assert(at(after, k, i));
        }
        if k == a {
            assert(at(after, k, cells.len() as int));
        }
    }
    assert forall|k: Seq<u8>| #[trigger] model(after).contains_key(k) implies model(after)[k] == model(cells).insert(a, v)[k] by {
        if k == a {
            lemma_model_at(after, k, cells.len() as int);
        } else {
            let i = choose|i: int| at(cells, k, i);
            assert(at(cells, k, i));
            assert(at(after, k, i));
            lemma_model_at(cells, k, i);
            lemma_model_at(after, k, i);
        }
    }
    assert(model(after) =~= model(cells).insert(a, v));
}

/// A record replaced in its place is replaced in the map.
proof fn lemma_model_update(cells: Seq<(Seq<u8>, AccountView)>, i: int, v: AccountView)
    requires
        distinct(cells),
        0 <= i < cells.len(),
    ensures
        distinct(cells.update(i, (cells[i].0, v))),
        model(cells.update(i, (cells[i].0, v))) == model(cells).insert(cells[i].0, v),
{
    let a = cells[i].0;
    let after = cells.update(i, (a, v));
    assert forall|p: int, q: int| 0 <= p < q < after.len() implies (#[trigger] after[p]).0 != (#[trigger] after[q]).0 by {
        assert(cells[p].0 != cells[q].0);
    }
    assert forall|k: Seq<u8>| #[trigger] model(after).contains_key(k) <==> model(cells).insert(a, v).contains_key(k) by {
        if model(after).contains_key(k) {
            let j = choose|j: int| at(after, k, j);
            assert(at(cells, k, j));
        }
        if model(cells).contains_key(k) {
            let j = choose|j: int| at(cells, k, j);
            assert(at(after, k, j));
        }
        if k == a {
            assert(at(after, k, i));
        }
    }
    assert forall|k: Seq<u8>| #[trigger] model(after).contains_key(k) implies model(after)[k] == model(cells).insert(a, v)[k] by {
        let j = choose|j: int| at(after, k, j);
        assert(at(after, k, j));
        assert(at(cells, k, j));
        lemma_model_at(after, k, j);
        lemma_model_at(cells, k, j);
    }
    assert(model(after) =~= model(cells).insert(a, v));
}

/// A record taken out of the sequence is removed from the map.
proof fn lemma_model_remove(cells: Seq<(Seq<u8>, AccountView)>, i: int)
    requires
        distinct(cells),
        0 <= i < cells.len(),
    ensures
        distinct(cells.remove(i)),
        model(cells.remove(i)) == model(cells).remove(cells[i].0),
{
    let a = cells[i].0;
    let after = cells.remove(i);
    assert forall|p: int, q: int| 0 <= p < q < after.len() implies (#[trigger] after[p]).0 != (#[trigger] after[q]).0 by {
        let p0 = if p < i { p } else { p + 1 };
        let q0 = if q < i { q } else { q + 1 };
        assert(cells[p0].0 != cells[q0].0);
    }
    assert forall|k: Seq<u8>| #[trigger] model(after).contains_key(k) <==> model(cells).remove(a).contains_key(k) by {
        if model(after).contains_key(k) {
            let j = choose|j: int| at(after, k, j);
            let j0 = if j < i { j } else { j + 1 };
            assert(at(cells, k, j0));
            if j0 < i {
                assert(cells[j0].0 != cells[i].0);
            } else {
                assert(cells[i].0 != cells[j0].0);
            }
        }
        if model(cells).contains_key(k) && k != a {
            let j = choose|j: int| at(cells, k, j);
            let j1 = if j < i { j } else { j - 1 };
            assert(at(after, k, j1));
        }
    }
    assert forall|k: Seq<u8>| #[trigger] model(after).contains_key(k) implies model(after)[k] == model(cells).remove(a)[k] by {
        let j = choose|j: int| at(after, k, j);
        let j0 = if j < i { j } else { j + 1 };
        assert(at(after, k, j));
        assert(at(cells, k, j0));
        lemma_model_at(after, k, j);
        lemma_model_at(cells, k, j0);
    }
    assert(model(after) =~= model(cells).remove(a));
}

impl View for Store {
    type V = State;

    closed spec fn view(&self) -> State {
        model(self.cells())
    }
}

impl Store {
    /// The records with their addresses, in the order in which they are kept.
    closed spec fn cells(&self) -> Seq<(Seq<u8>, AccountView)> {
        self.slots@.map_values(|s: Slot| (s.address@, s.account@))
    }

    /// The key of the program that the records belong to.
    pub closed spec fn program(&self) -> Seq<u8> {
        self.program@
    }

    /// No address holds two records, and every record is within its space.
    pub closed spec fn wf(&self) -> bool {
        &&& distinct(self.cells())
        &&& forall|i: int| 0 <= i < self.cells().len() ==> fits((#[trigger] self.cells()[i]).1)
    }

    /// Every record of a well-formed store is within the space it was given.
    pub proof fn lemma_records_fit(&self, base: Seq<u8>)
        requires
            self.wf(),
            self@.contains_key(base),
        ensures
            fits(self@[base]),
    {
        let i = choose|i: int| at(self.cells(), base, i);
        assert(at(self.cells(), base, i));
        lemma_model_at(self.cells(), base, i);
    }

    /// A store without records for the program `program`.
    pub fn new(program: Address) -> (r: Store)
        ensures
            r.wf(),
            r.program() == program@,
            r@ == State::empty(),
    {
        let r = Store { program, slots: Vec::new() };
        assert(r@ =~= State::empty()) by {
            assert forall|k: Seq<u8>| !r@.contains_key(k) by {
                if r@.contains_key(k) {
                    let i = choose|i: int| at(r.cells(), k, i);
                    assert(at(r.cells(), k, i));
                }
            }
        }
        r
    }

    /// The key of the program that the records belong to.
    pub fn program_key(&self) -> (r: Address)
        ensures
            r@ == self.program(),
    {
        self.program
    }

    /// Where the record at `address` is kept.
    fn position(&self, address: &Address) -> (r: Option<usize>)
        requires
            self.wf(),
        ensures
            r is Some <==> self@.contains_key(address@),
            r matches Some(i) ==> at(self.cells(), address@, i as int) && self@[address@]
                == self.slots[i as int].account@,
    {
        let mut i: usize = 0;
        while i < self.slots.len()
            invariant
                self.wf(),
                i <= self.slots.len(),
                forall|j: int| 0 <= j < i ==> !at(self.cells(), address@, j),
            decreases self.slots.len() - i,
        {
            if self.slots[i].address.same(address) {
                proof {
                    assert(at(self.cells(), address@, i as int));
                    lemma_model_at(self.cells(), address@, i as int);
                }
                return Some(i);
            }
            i += 1;
        }
        None
    }

    /// What `owner`'s key derives with the seed of the record at `address`.
    fn derived_for(&self, address: &Address, owner: &Address) -> (r: Option<Address>)
        requires
            self.wf(),
        ensures
            self@.contains_key(address@) ==> key_of(r) == derived(self.program(), owner@, self@[address@].bump),
    {
        match self.position(address) {
            Some(i) => derive_address(&self.program, owner, self.slots[i].account.bump),
            None => None,
        }
    }

    /// Creates an empty record at `address`, which has to be the address
    /// that `owner` and `bump` derive and must hold no live record.
    pub fn create(&mut self, address: &Address, owner: &Address, bump: u8) -> (r: Result<(), WallError>)
        requires
            old(self).wf(),
        ensures
            final(self).wf(),
            final(self).program() == old(self).program(),
            match created(old(self).program(), old(self)@, address@, owner@, bump) {
                Ok(state) => r is Ok && final(self)@ == state,
                Err(e) => r == Err::<(), WallError>(e) && final(self)@ == old(self)@,
            },
    {
        let derived = derive_address(&self.program, owner, bump);
        self.create_at(address, derived, bump)
    }

    /// Creates an empty record with the seed `bump` at `address`, given what
    /// the owner's key and the seed derive: it has to be that address.
    pub fn create_at(&mut self, address: &Address, derived: Option<Address>, bump: u8) -> (r: Result<(), WallError>)
        requires
            old(self).wf(),
        ensures
            final(self).wf(),
            final(self).program() == old(self).program(),
            match created_at(old(self)@, address@, key_of(derived), bump) {
                Ok(state) => r is Ok && final(self)@ == state,
                Err(e) => r == Err::<(), WallError>(e) && final(self)@ == old(self)@,
            },
    {
        if !derives_to(&derived, address) {
            return Err(WallError::AddressMismatch);
        }
        if self.position(address).is_some() {
            return Err(WallError::AlreadyExists);
        }
        let account = BaseAccount::initialize(bump);
        proof {
            lemma_model_push(self.cells(), address@, account@);
        }
        self.slots.push(Slot { address: *address, account });
        assert(self.cells() =~= old(self).cells().push((address@, account@)));
        Ok(())
    }

    /// The live record at `address`.
    pub fn load(&self, address: &Address) -> (r: Result<&BaseAccount, WallError>)
        requires
            self.wf(),
        ensures
            match loaded(self@, address@) {
                Ok(account) => r is Ok && r->Ok_0@ == account && fits(account),
                Err(e) => r is Err && r->Err_0 == e,
            },
    {
        match self.position(address) {
            Some(i) => {
                proof {
                    self.lemma_records_fit(address@);
                }
                Ok(&self.slots[i].account)
            },
            None => Err(WallError::NotFound),
        }
    }

    /// Whether a vote for `url` at `address` can be counted: `upvote_entry`
    /// asks for it.
    pub fn countable(&self, address: &Address, url: &String) -> (r: bool)
        requires
            self.wf(),
        ensures
            r == countable(self@, address@, url@),
    {
        match self.position(address) {
            Some(i) => self.slots[i].account.can_count(url),
            None => true,
        }
    }

    /// Removes the record at `address`, if `signer` is its owner: the seed
    /// kept in the record, with the signer's key, has to derive the address.
    pub fn destroy(&mut self, address: &Address, signer: &Address) -> (r: Result<(), WallError>)
        requires
            old(self).wf(),
        ensures
            final(self).wf(),
            final(self).program() == old(self).program(),
            match destroyed(old(self).program(), old(self)@, address@, signer@) {
                Ok(state) => r is Ok && final(self)@ == state,
                Err(e) => r == Err::<(), WallError>(e) && final(self)@ == old(self)@,
            },
    {
        let derived = self.derived_for(address, signer);
        self.destroy_at(address, derived)
    }

    /// Removes the record at `address`, given what the signer's key and the
    /// record's seed derive: it has to be that address.
    pub fn destroy_at(&mut self, address: &Address, derived: Option<Address>) -> (r: Result<(), WallError>)
        requires
            old(self).wf(),
        ensures
            final(self).wf(),
            final(self).program() == old(self).program(),
            match destroyed_at(old(self)@, address@, key_of(derived)) {
                Ok(state) => r is Ok && final(self)@ == state,
                Err(e) => r == Err::<(), WallError>(e) && final(self)@ == old(self)@,
            },
    {
        match self.position(address) {
            Some(i) => {
                if !derives_to(&derived, address) {
                    return Err(WallError::NotOwner);
                }
                proof {
                    lemma_model_remove(self.cells(), i as int);
                }
                let _ = self.slots.remove(i);
                assert(self.cells() =~= old(self).cells().remove(i as int));
                Ok(())
            },
            None => Err(WallError::NotFound),
        }
    }

    /// Appends an entry to the record of `owner` at `address`. Whoever adds
    /// it need not be the owner.
    pub fn add_entry(&mut self, address: &Address, owner: &Address, url: String, adder: Address) -> (r: Result<(), WallError>)
        requires
            old(self).wf(),
        ensures
            final(self).wf(),
            final(self).program() == old(self).program(),
            match entry_added(old(self).program(), old(self)@, address@, owner@, url@, adder@) {
                Ok(state) => r is Ok && final(self)@ == state,
                Err(e) => r == Err::<(), WallError>(e) && final(self)@ == old(self)@,
            },
    {
        let derived = self.derived_for(address, owner);
        self.add_entry_at(address, derived, url, adder)
    }

    /// Appends an entry to the record at `address`, given what the owner's
    /// key and the record's seed derive: it has to be that address.
    pub fn add_entry_at(&mut self, address: &Address, derived: Option<Address>, url: String, adder: Address) -> (r: Result<(), WallError>)
        requires
            old(self).wf(),
        ensures
            final(self).wf(),
            final(self).program() == old(self).program(),
            match entry_added_at(old(self)@, address@, key_of(derived), url@, adder@) {
                Ok(state) => r is Ok && final(self)@ == state,
                Err(e) => r == Err::<(), WallError>(e) && final(self)@ == old(self)@,
            },
    {
        match self.position(address) {
            Some(i) => {
                if !derives_to(&derived, address) {
                    return Err(WallError::AddressMismatch);
                }
                let mut slot = self.slots.remove(i);
                let r = slot.account.add(url, adder);
                let ghost after = slot.account@;
                self.slots.insert(i, slot);
                proof {
                    lemma_model_update(old(self).cells(), i as int, after);
                    assert(self.cells() =~= old(self).cells().update(i as int, (address@, after)));
                    if r is Err {
                        assert(self.cells() =~= old(self).cells());
                    }
                }
                r
            },
            None => Err(WallError::NotFound),
        }
    }

    /// Counts a vote for the first entry with the locator `url` in the
    /// record of `owner` at `address`.
    pub fn upvote_entry(&mut self, address: &Address, owner: &Address, url: &String) -> (r: Result<(), WallError>)
        requires
            old(self).wf(),
            countable(old(self)@, address@, url@),
        ensures
            final(self).wf(),
            final(self).program() == old(self).program(),
            match entry_upvoted(old(self).program(), old(self)@, address@, owner@, url@) {
                Ok(state) => r is Ok && final(self)@ == state,
                Err(e) => r == Err::<(), WallError>(e) && final(self)@ == old(self)@,
            },
    {
        let derived = self.derived_for(address, owner);
        self.upvote_entry_at(address, derived, url)
    }

    /// Counts a vote for the first entry with the locator `url` in the
    /// record at `address`, given what the owner's key and the record's seed
    /// derive: it has to be that address.
    pub fn upvote_entry_at(&mut self, address: &Address, derived: Option<Address>, url: &String) -> (r: Result<(), WallError>)
        requires
            old(self).wf(),
            countable(old(self)@, address@, url@),
        ensures
            final(self).wf(),
            final(self).program() == old(self).program(),
            match entry_upvoted_at(old(self)@, address@, key_of(derived), url@) {
                Ok(state) => r is Ok && final(self)@ == state,
                Err(e) => r == Err::<(), WallError>(e) && final(self)@ == old(self)@,
            },
    {
        match self.position(address) {
            Some(i) => {
                if !derives_to(&derived, address) {
                    return Err(WallError::AddressMismatch);
                }
                let mut slot = self.slots.remove(i);
                let r = slot.account.upvote(url);
                let ghost after = slot.account@;
                self.slots.insert(i, slot);
                proof {
                    lemma_model_update(old(self).cells(), i as int, after);
                    assert(self.cells() =~= old(self).cells().update(i as int, (address@, after)));
                    if r is Err {
                        assert(self.cells() =~= old(self).cells());
                    }
                }
                r
            },
            None => Err(WallError::NotFound),
        }
    }
}

} // verus!
