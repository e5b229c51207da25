use anchor_lang::prelude::borsh::BorshSerialize;
use anchor_lang::prelude::Pubkey;
use buildspace_gif_wall::address::{derive_address, derives_to, program_id, validate, Address};
use buildspace_gif_wall::error::WallError;
use buildspace_gif_wall::instructions::{add_gif, delete_list, new_list, upvote, AddGif, DeleteList, NewList};
use buildspace_gif_wall::record::{BaseAccount, GifItem, HEADER_LEN, ITEM_OVERHEAD, SPACE};
use buildspace_gif_wall::store::Store;

fn key(fill: u8) -> Address {
    Address { bytes: [fill; 32] }
}

/// The highest seed that gives `owner` an address, and that address.
fn find(program: &Address, owner: &Address) -> (Address, u8) {
    let mut bump: u8 = 255;
    loop {
        if let Some(address) = derive_address(program, owner, bump) {
            return (address, bump);
        }
        assert!(bump > 0, "no seed gives an address");
        bump -= 1;
    }
}

/// A seed that gives `owner` no address, if there is one.
fn find_invalid(program: &Address, owner: &Address) -> Option<u8> {
    (0..=255u8).find(|bump| derive_address(program, owner, *bump).is_none())
}

/// A store with an empty list for `owner`.
fn wall_of(owner: &Address) -> (Store, Address, u8) {
    let mut store = Store::new(program_id());
    let (base, bump) = find(&program_id(), owner);
    let ctx = NewList { base_account: base, user: *owner };
    assert_eq!(new_list(&mut store, &ctx, bump), Ok(()));
    (store, base, bump)
}

fn entries(store: &Store, base: &Address) -> Vec<(String, [u8; 32], u64)> {
    let account = store.load(base).unwrap();
    account.gifs.iter().map(|g| (g.url().clone(), g.adder().bytes, g.votes())).collect()
}

#[test]
fn program_id_is_the_declared_key() {
    let declared: Pubkey = "DkZNiYb8jAQJA4qdPmhn8dutfHsGbwVMb1zNoSQceBkq".parse().unwrap();
    assert_eq!(program_id().bytes, declared.to_bytes());
}

#[test]
fn derive_agrees_with_the_program_address() {
    let owner = key(1);
    let program = Pubkey::new_from_array(program_id().bytes);
    let (expected, bump) = Pubkey::find_program_address(&[b"giflist2", &owner.bytes], &program);
    let (found, found_bump) = find(&program_id(), &owner);
    assert_eq!(found_bump, bump);
    assert_eq!(found.bytes, expected.to_bytes());
    assert_ne!(found.bytes, owner.bytes);
    assert_ne!(found.bytes, program_id().bytes);
}

#[test]
fn derive_is_deterministic() {
    let owner = key(9);
    for bump in [0u8, 1, 17, 200, 254, 255] {
        let first = derive_address(&program_id(), &owner, bump).map(|a| a.bytes);
        let second = derive_address(&program_id(), &owner, bump).map(|a| a.bytes);
        assert_eq!(first, second);
    }
}

#[test]
fn derive_tells_owners_seeds_and_programs_apart() {
    let (a, bump_a) = find(&program_id(), &key(1));
    let (b, _) = find(&program_id(), &key(2));
    assert_ne!(a.bytes, b.bytes);
    if let Some(other) = derive_address(&program_id(), &key(2), bump_a) {
        assert_ne!(a.bytes, other.bytes);
    }
    if bump_a > 0 {
        if let Some(lower) = derive_address(&program_id(), &key(1), bump_a - 1) {
            assert_ne!(a.bytes, lower.bytes);
        }
    }
    if let Some(elsewhere) = derive_address(&key(77), &key(1), bump_a) {
        assert_ne!(a.bytes, elsewhere.bytes);
    }
}

#[test]
fn validate_accepts_the_derived_address_only() {
    let owner = key(1);
    let (base, bump) = find(&program_id(), &owner);
    assert_eq!(validate(&program_id(), &base, &owner, bump), Ok(()));
    assert_eq!(validate(&program_id(), &owner, &owner, bump), Err(WallError::AddressMismatch));
    assert_eq!(validate(&program_id(), &base, &key(2), bump), Err(WallError::AddressMismatch));
    assert_eq!(validate(&key(77), &base, &owner, bump), Err(WallError::AddressMismatch));
    if bump > 0 {
        assert_eq!(validate(&program_id(), &base, &owner, bump - 1), Err(WallError::AddressMismatch));
    }
}

#[test]
fn store_requests_can_be_made_without_a_context() {
    let owner = key(1);
    let mut store = Store::new(program_id());
    let (base, bump) = find(&program_id(), &owner);
    assert_eq!(store.create(&base, &owner, bump), Ok(()));
    assert_eq!(store.create(&base, &owner, bump), Err(WallError::AlreadyExists));
    assert_eq!(store.add_entry(&base, &owner, "a".to_string(), key(3)), Ok(()));
    assert_eq!(store.upvote_entry(&base, &owner, &"a".to_string()), Ok(()));
    assert_eq!(store.upvote_entry(&base, &owner, &"b".to_string()), Err(WallError::NoItemFound));
    assert_eq!(entries(&store, &base), vec![("a".to_string(), [3; 32], 1)]);
    assert_eq!(store.destroy(&base, &key(3)), Err(WallError::NotOwner));
    assert_eq!(store.destroy(&base, &owner), Ok(()));
    assert_eq!(store.destroy(&base, &owner), Err(WallError::NotFound));
}

#[test]
fn derives_to_wants_the_named_address() {
    assert!(derives_to(&Some(key(1)), &key(1)));
    assert!(!derives_to(&Some(key(1)), &key(2)));
    assert!(!derives_to(&None, &key(1)));
}

#[test]
fn store_takes_a_derivation_as_given() {
    let base = key(40);
    let other = key(41);
    let mut store = Store::new(program_id());
    assert_eq!(store.create_at(&base, None, 5), Err(WallError::AddressMismatch));
    assert_eq!(store.create_at(&base, Some(other), 5), Err(WallError::AddressMismatch));
    assert_eq!(store.load(&base).err(), Some(WallError::NotFound));
    assert_eq!(store.create_at(&base, Some(base), 5), Ok(()));
    assert_eq!(store.load(&base).unwrap().bump, 5);
    assert_eq!(store.create_at(&base, Some(base), 6), Err(WallError::AlreadyExists));
    assert_eq!(store.load(&base).unwrap().bump, 5);
    assert_eq!(store.add_entry_at(&other, Some(other), "a".to_string(), key(3)), Err(WallError::NotFound));
    assert_eq!(store.add_entry_at(&base, Some(other), "a".to_string(), key(3)), Err(WallError::AddressMismatch));
    assert_eq!(store.add_entry_at(&base, None, "a".to_string(), key(3)), Err(WallError::AddressMismatch));
    assert_eq!(store.add_entry_at(&base, Some(base), "a".to_string(), key(3)), Ok(()));
    assert_eq!(store.upvote_entry_at(&other, Some(other), &"a".to_string()), Err(WallError::NotFound));
    assert_eq!(store.upvote_entry_at(&base, Some(other), &"a".to_string()), Err(WallError::AddressMismatch));
    assert_eq!(store.upvote_entry_at(&base, Some(base), &"b".to_string()), Err(WallError::NoItemFound));
    assert_eq!(store.upvote_entry_at(&base, Some(base), &"a".to_string()), Ok(()));
    assert_eq!(entries(&store, &base), vec![("a".to_string(), [3; 32], 1)]);
    assert_eq!(store.destroy_at(&other, Some(other)), Err(WallError::NotFound));
    assert_eq!(store.destroy_at(&base, Some(other)), Err(WallError::NotOwner));
    assert_eq!(store.destroy_at(&base, None), Err(WallError::NotOwner));
    assert_eq!(entries(&store, &base).len(), 1);
    assert_eq!(store.destroy_at(&base, Some(base)), Ok(()));
    assert_eq!(store.destroy_at(&base, Some(base)), Err(WallError::NotFound));
}

#[test]
fn same_compares_all_bytes() {
    let a = key(5);
    let mut b = key(5);
    assert!(a.same(&b));
    b.bytes[31] = 6;
    assert!(!a.same(&b));
    let mut c = key(5);
    c.bytes[0] = 0;
    assert!(!a.same(&c));
}

#[test]
fn create_then_load_is_empty_with_the_seed() {
    let owner = key(1);
    let (store, base, bump) = wall_of(&owner);
    let account = store.load(&base).unwrap();
    assert_eq!(account.bump, bump);
    assert!(account.gifs.is_empty());
    assert_eq!(account.encoded_len(), Some(HEADER_LEN));
    assert_eq!(store.program_key().bytes, program_id().bytes);
}

#[test]
fn load_of_a_vacant_address_is_not_found() {
    let store = Store::new(program_id());
    assert_eq!(store.load(&key(3)).err(), Some(WallError::NotFound));
}

#[test]
fn create_twice_is_already_exists() {
    let owner = key(1);
    let (mut store, base, bump) = wall_of(&owner);
    let ctx = NewList { base_account: base, user: owner };
    assert_eq!(new_list(&mut store, &ctx, bump), Err(WallError::AlreadyExists));
    assert!(entries(&store, &base).is_empty());
}

#[test]
fn create_at_a_wrong_address_is_a_mismatch() {
    let owner = key(1);
    let mut store = Store::new(program_id());
    let (base, bump) = find(&program_id(), &owner);
    let wrong_place = NewList { base_account: key(8), user: owner };
    assert_eq!(new_list(&mut store, &wrong_place, bump), Err(WallError::AddressMismatch));
    let wrong_owner = NewList { base_account: base, user: key(2) };
    assert_eq!(new_list(&mut store, &wrong_owner, bump), Err(WallError::AddressMismatch));
    if let Some(invalid) = find_invalid(&program_id(), &owner) {
        let ctx = NewList { base_account: base, user: owner };
        assert_eq!(new_list(&mut store, &ctx, invalid), Err(WallError::AddressMismatch));
    }
    assert_eq!(store.load(&base).err(), Some(WallError::NotFound));
    assert_eq!(store.load(&key(8)).err(), Some(WallError::NotFound));
}

#[test]
fn adds_append_in_order() {
    let owner = key(1);
    let (mut store, base, _) = wall_of(&owner);
    let urls = ["http://x/a", "http://x/b", "http://x/a", "http://x/c", ""];
    for (i, url) in urls.iter().enumerate() {
        let ctx = AddGif { base_account: base, list_owner: owner, user: key(10 + i as u8) };
        assert_eq!(add_gif(&mut store, &ctx, url.to_string()), Ok(()));
        assert_eq!(entries(&store, &base).len(), i + 1);
    }
    let got = entries(&store, &base);
    assert_eq!(got.len(), urls.len());
    for (i, url) in urls.iter().enumerate() {
        assert_eq!(got[i], (url.to_string(), [10 + i as u8; 32], 0));
    }
}

#[test]
fn anyone_may_add_but_the_owner_must_be_named() {
    let owner = key(1);
    let stranger = key(2);
    let (mut store, base, _) = wall_of(&owner);
    let by_stranger = AddGif { base_account: base, list_owner: owner, user: stranger };
    assert_eq!(add_gif(&mut store, &by_stranger, "http://x/1".to_string()), Ok(()));
    let wrong_owner = AddGif { base_account: base, list_owner: stranger, user: stranger };
    assert_eq!(add_gif(&mut store, &wrong_owner, "http://x/2".to_string()), Err(WallError::AddressMismatch));
    assert_eq!(upvote(&mut store, &wrong_owner, "http://x/1".to_string()), Err(WallError::AddressMismatch));
    assert_eq!(entries(&store, &base), vec![("http://x/1".to_string(), stranger.bytes, 0)]);
}

#[test]
fn add_and_upvote_on_a_vacant_address_are_not_found() {
    let owner = key(1);
    let mut store = Store::new(program_id());
    let (base, _) = find(&program_id(), &owner);
    let ctx = AddGif { base_account: base, list_owner: owner, user: owner };
    assert_eq!(add_gif(&mut store, &ctx, "http://x/1".to_string()), Err(WallError::NotFound));
    assert!(store.countable(&base, &"http://x/1".to_string()));
    assert_eq!(upvote(&mut store, &ctx, "http://x/1".to_string()), Err(WallError::NotFound));
    let del = DeleteList { base_account: base, user: owner };
    assert_eq!(delete_list(&mut store, &del), Err(WallError::NotFound));
}

#[test]
fn upvote_of_a_single_entry_adds_one_vote() {
    let owner = key(1);
    let (mut store, base, _) = wall_of(&owner);
    let ctx = AddGif { base_account: base, list_owner: owner, user: key(4) };
    for url in ["http://x/1", "http://x/2", "http://x/3"] {
        assert_eq!(add_gif(&mut store, &ctx, url.to_string()), Ok(()));
    }
    assert_eq!(upvote(&mut store, &ctx, "http://x/2".to_string()), Ok(()));
    assert_eq!(
        entries(&store, &base),
        vec![
            ("http://x/1".to_string(), [4; 32], 0),
            ("http://x/2".to_string(), [4; 32], 1),
            ("http://x/3".to_string(), [4; 32], 0),
        ]
    );
}

#[test]
fn upvote_of_a_duplicate_goes_to_the_first() {
    let owner = key(1);
    let (mut store, base, _) = wall_of(&owner);
    let first = AddGif { base_account: base, list_owner: owner, user: key(4) };
    let second = AddGif { base_account: base, list_owner: owner, user: key(5) };
    assert_eq!(add_gif(&mut store, &first, "http://x/0".to_string()), Ok(()));
    assert_eq!(add_gif(&mut store, &first, "http://x/dup".to_string()), Ok(()));
    assert_eq!(add_gif(&mut store, &second, "http://x/dup".to_string()), Ok(()));
    for _ in 0..3 {
        assert_eq!(upvote(&mut store, &second, "http://x/dup".to_string()), Ok(()));
    }
    assert_eq!(
        entries(&store, &base),
        vec![
            ("http://x/0".to_string(), [4; 32], 0),
            ("http://x/dup".to_string(), [4; 32], 3),
            ("http://x/dup".to_string(), [5; 32], 0),
        ]
    );
}

#[test]
fn upvote_of_an_absent_locator_changes_nothing() {
    let owner = key(1);
    let (mut store, base, _) = wall_of(&owner);
    let ctx = AddGif { base_account: base, list_owner: owner, user: owner };
    assert_eq!(upvote(&mut store, &ctx, "http://x/1".to_string()), Err(WallError::NoItemFound));
    assert_eq!(add_gif(&mut store, &ctx, "http://x/1".to_string()), Ok(()));
    let before = entries(&store, &base);
    assert_eq!(upvote(&mut store, &ctx, "http://x/2".to_string()), Err(WallError::NoItemFound));
    assert_eq!(upvote(&mut store, &ctx, "http://x/".to_string()), Err(WallError::NoItemFound));
    assert_eq!(upvote(&mut store, &ctx, "http://x/2".to_string()), Err(WallError::NoItemFound));
    assert_eq!(entries(&store, &base), before);
}

#[test]
fn destroy_then_load_and_destroy_again_are_not_found() {
    let owner = key(1);
    let (mut store, base, bump) = wall_of(&owner);
    let del = DeleteList { base_account: base, user: owner };
    assert_eq!(delete_list(&mut store, &del), Ok(()));
    assert_eq!(store.load(&base).err(), Some(WallError::NotFound));
    assert_eq!(delete_list(&mut store, &del), Err(WallError::NotFound));
    let ctx = NewList { base_account: base, user: owner };
    assert_eq!(new_list(&mut store, &ctx, bump), Ok(()));
    assert!(entries(&store, &base).is_empty());
}

#[test]
fn destroy_leaves_other_lists_alone() {
    let a = key(1);
    let b = key(2);
    let (mut store, base_a, _) = wall_of(&a);
    let (base_b, bump_b) = find(&program_id(), &b);
    assert_eq!(new_list(&mut store, &NewList { base_account: base_b, user: b }, bump_b), Ok(()));
    let to_b = AddGif { base_account: base_b, list_owner: b, user: a };
    assert_eq!(add_gif(&mut store, &to_b, "http://x/b".to_string()), Ok(()));
    assert_eq!(delete_list(&mut store, &DeleteList { base_account: base_a, user: a }), Ok(()));
    assert_eq!(store.load(&base_a).err(), Some(WallError::NotFound));
    assert_eq!(entries(&store, &base_b), vec![("http://x/b".to_string(), a.bytes, 0)]);
}

#[test]
fn wall_scenario() {
    let a = key(0xA1);
    let b = key(0xB2);
    let (mut store, base, _) = wall_of(&a);
    let by_a = AddGif { base_account: base, list_owner: a, user: a };
    let by_b = AddGif { base_account: base, list_owner: a, user: b };
    assert_eq!(add_gif(&mut store, &by_a, "http://x/1".to_string()), Ok(()));
    assert_eq!(add_gif(&mut store, &by_b, "http://x/2".to_string()), Ok(()));
    assert_eq!(upvote(&mut store, &by_b, "http://x/1".to_string()), Ok(()));
    assert_eq!(upvote(&mut store, &by_a, "http://x/1".to_string()), Ok(()));
    assert_eq!(
        entries(&store, &base),
        vec![("http://x/1".to_string(), a.bytes, 2), ("http://x/2".to_string(), b.bytes, 0)]
    );
    assert_eq!(delete_list(&mut store, &DeleteList { base_account: base, user: b }), Err(WallError::NotOwner));
    assert_eq!(entries(&store, &base).len(), 2);
    assert_eq!(delete_list(&mut store, &DeleteList { base_account: base, user: a }), Ok(()));
    assert_eq!(store.load(&base).err(), Some(WallError::NotFound));
}

#[test]
fn encoded_len_counts_header_entries_and_locator_bytes() {
    let mut account = BaseAccount::initialize(255);
    assert_eq!(account.encoded_len(), Some(13));
    assert_eq!(account.add("http://x/1".to_string(), key(1)), Ok(()));
    assert_eq!(account.encoded_len(), Some(13 + 44 + 10));
    assert_eq!(account.add("é".to_string(), key(1)), Ok(()));
    assert_eq!(account.encoded_len(), Some(13 + 44 + 10 + 44 + 2));
    assert_eq!(account.add(String::new(), key(1)), Ok(()));
    assert_eq!(account.encoded_len(), Some(13 + 44 + 10 + 44 + 2 + 44));
    assert_eq!(HEADER_LEN, 13);
    assert_eq!(ITEM_OVERHEAD, 44);
    assert_eq!(SPACE, 9000);
}

#[test]
fn encoded_len_is_the_length_of_the_stored_bytes() {
    let items = [("http://x/1", key(1), 0u64), ("", key(2), 7), ("h\u{e9}llo \u{1f600}", key(3), u64::MAX)];
    let mut account = BaseAccount::initialize(254);
    // the marker, then the seed and the count of entries
    let mut stored: Vec<u8> = vec![0; 8];
    254u8.serialize(&mut stored).unwrap();
    (items.len() as u32).serialize(&mut stored).unwrap();
    for (url, adder, votes) in items {
        account.gifs.push(GifItem::new(url.to_string(), adder, votes));
        url.to_string().serialize(&mut stored).unwrap();
        Pubkey::new_from_array(adder.bytes).serialize(&mut stored).unwrap();
        votes.serialize(&mut stored).unwrap();
    }
    assert_eq!(account.encoded_len(), Some(stored.len()));
}

#[test]
fn add_up_to_the_space_and_not_beyond() {
    let mut account = BaseAccount::initialize(0);
    let exact = "u".repeat(9000 - 13 - 44);
    assert_eq!(account.add(format!("{}x", exact), key(1)), Err(WallError::CapacityExceeded));
    assert!(account.gifs.is_empty());
    assert_eq!(account.add(exact, key(1)), Ok(()));
    assert_eq!(account.encoded_len(), Some(9000));
    assert_eq!(account.add(String::new(), key(1)), Err(WallError::CapacityExceeded));
    assert_eq!(account.gifs.len(), 1);
    assert_eq!(account.upvote(&"u".repeat(9000 - 13 - 44)), Ok(()));
    assert_eq!(account.gifs[0].votes(), 1);
}

#[test]
fn a_full_list_refuses_the_next_entry() {
    let owner = key(1);
    let (mut store, base, _) = wall_of(&owner);
    let ctx = AddGif { base_account: base, list_owner: owner, user: owner };
    // each entry takes 44 + 10 bytes: 166 of them fit into 9000 - 13
    for i in 0..166 {
        assert_eq!(add_gif(&mut store, &ctx, format!("http://x/{}", i % 10)), Ok(()), "entry {}", i);
    }
    assert_eq!(store.load(&base).unwrap().encoded_len(), Some(13 + 166 * 54));
    assert_eq!(add_gif(&mut store, &ctx, "http://x/0".to_string()), Err(WallError::CapacityExceeded));
    assert_eq!(entries(&store, &base).len(), 166);
    // 23 bytes are left, and an entry with an empty locator takes 44
    assert_eq!(add_gif(&mut store, &ctx, String::new()), Err(WallError::CapacityExceeded));
    assert_eq!(upvote(&mut store, &ctx, "http://x/5".to_string()), Ok(()));
    assert_eq!(entries(&store, &base)[5], ("http://x/5".to_string(), owner.bytes, 1));
}

#[test]
fn an_account_over_its_space_has_no_length() {
    let account = BaseAccount { bump: 1, gifs: vec![GifItem::new("u".repeat(9000), key(1), 0)] };
    assert_eq!(account.encoded_len(), None);
}

#[test]
fn find_gives_the_first_index() {
    let mut account = BaseAccount::initialize(1);
    for url in ["a", "b", "a", "c"] {
        assert_eq!(account.add(url.to_string(), key(1)), Ok(()));
    }
    assert_eq!(account.find(&"a".to_string()), Some(0));
    assert_eq!(account.find(&"b".to_string()), Some(1));
    assert_eq!(account.find(&"c".to_string()), Some(3));
    assert_eq!(account.find(&"d".to_string()), None);
}

#[test]
fn can_count_is_false_only_at_the_largest_count() {
    let account = BaseAccount {
        bump: 1,
        gifs: vec![
            GifItem::new("full".to_string(), key(1), u64::MAX),
            GifItem::new("almost".to_string(), key(1), u64::MAX - 1),
            GifItem::new("full".to_string(), key(2), 0),
        ],
    };
    assert!(!account.can_count(&"full".to_string()));
    assert!(account.can_count(&"almost".to_string()));
    assert!(account.can_count(&"absent".to_string()));
    let mut account = account;
    assert_eq!(account.upvote(&"almost".to_string()), Ok(()));
    assert_eq!(account.gifs[1].votes(), u64::MAX);
    assert!(!account.can_count(&"almost".to_string()));
}

#[test]
fn item_getters_give_what_was_set() {
    let item = GifItem::new("http://x/1".to_string(), key(7), 42);
    assert_eq!(item.url(), "http://x/1");
    assert_eq!(item.adder().bytes, [7; 32]);
    assert_eq!(item.votes(), 42);
}

#[test]
fn messages_name_the_failure() {
    assert_eq!(WallError::NoItemFound.message(), "No item with that url found");
    let all = [
        WallError::AlreadyExists,
        WallError::NotFound,
        WallError::AddressMismatch,
        WallError::NotOwner,
        WallError::NoItemFound,
        WallError::CapacityExceeded,
    ];
    for (i, a) in all.iter().enumerate() {
        assert!(!a.message().is_empty());
        for b in &all[i + 1..] {
            assert_ne!(a.message(), b.message());
        }
    }
}
