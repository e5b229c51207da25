//! Keys and the derivation of a record's address from its owner's key.

use vstd::prelude::*;
use crate::error::WallError;

verus! {

/// A 32-byte key. It names a signer, a program, or the place of a record.
#[derive(Clone, Copy, Debug)]
pub struct Address {
    pub bytes: [u8; 32],
}

impl View for Address {
    type V = Seq<u8>;

    open spec fn view(&self) -> Seq<u8> {
        self.bytes@
    }
}

impl Address {
    /// Whether two keys hold the same bytes.
    pub fn same(&self, other: &Address) -> (r: bool)
        ensures
            r == (self@ == other@),
    {
        let mut i: usize = 0;
        while i < 32
            invariant
                i <= 32,
                forall|j: int| 0 <= j < i ==> self.bytes[j] == other.bytes[j],
            decreases 32 - i,
        {
            if self.bytes[i] != other.bytes[i] {
                return false;
            }
            i += 1;
        }
        assert(self@ =~= other@);
        true
    }
}

/// The key of the program that keeps the wall, as bytes.
pub open spec fn program_id_bytes() -> Seq<u8> {
    seq![
        189u8, 116u8, 210u8, 227u8, 36u8, 133u8, 155u8, 211u8, 130u8, 77u8, 128u8, 4u8, 16u8, 219u8, 149u8, 234u8,
        111u8, 219u8, 86u8, 56u8, 119u8, 28u8, 20u8, 38u8, 232u8, 178u8, 89u8, 177u8, 150u8, 194u8, 125u8, 238u8,
    ]
}

/// The key of the program that keeps the wall
/// (`DkZNiYb8jAQJA4qdPmhn8dutfHsGbwVMb1zNoSQceBkq` in base 58).
pub fn program_id() -> (r: Address)
    ensures
        r@ == program_id_bytes(),
{
    let r = Address {
        bytes: [
            189, 116, 210, 227, 36, 133, 155, 211, 130, 77, 128, 4, 16, 219, 149, 234, 111, 219, 86, 56, 119, 28, 20,
            38, 232, 178, 89, 177, 150, 194, 125, 238,
        ],
    };
    assert(r@ =~= program_id_bytes());
    r
}

/// The tag that salts every record address: the ASCII bytes of `giflist2`.
pub open spec fn list_tag() -> Seq<u8> {
    seq![103u8, 105u8, 102u8, 108u8, 105u8, 115u8, 116u8, 50u8]
}

/// What `Pubkey::create_program_address` yields for the seeds `tag`, `owner`
/// and the single byte `bump` under `program`: the address, or `None` where
/// it reports an error.
pub uninterp spec fn program_address(tag: Seq<u8>, owner: Seq<u8>, bump: u8, program: Seq<u8>) -> Option<Seq<u8>>;

/// Calls `Pubkey::create_program_address` with the three seeds `tag`, `owner`
/// and `[bump]`. The contract only names the outcome: it is a function of the
/// four arguments, and an error of the outside function comes back as `None`.
#[verifier::external_body]
fn create_program_address(tag: &[u8], owner: &[u8; 32], bump: u8, program: &[u8; 32]) -> (r: Option<[u8; 32]>)
    ensures
        match r {
            Some(a) => program_address(tag@, owner@, bump, program@) == Some(a@),
            None => program_address(tag@, owner@, bump, program@) is None,
        },
{
    let program_id = anchor_lang::prelude::Pubkey::new_from_array(*program);
    match anchor_lang::prelude::Pubkey::create_program_address(&[tag, owner, &[bump]], &program_id) {
        Ok(key) => Some(key.to_bytes()),
        Err(_) => None,
    }
}

/// The address of the record that `owner` holds under `program` with the
/// seed `bump`, if that seed gives one.
pub open spec fn derived(program: Seq<u8>, owner: Seq<u8>, bump: u8) -> Option<Seq<u8>> {
    program_address(list_tag(), owner, bump, program)
}

/// Derives the address of `owner`'s record under `program` for the seed
/// `bump`. Not every seed gives an address.
pub fn derive_address(program: &Address, owner: &Address, bump: u8) -> (r: Option<Address>)
    ensures
        key_of(r) == derived(program@, owner@, bump),
{
    let tag: [u8; 8] = [103, 105, 102, 108, 105, 115, 116, 50];
    assert(tag@ =~= list_tag());
    match create_program_address(tag.as_slice(), &owner.bytes, bump, &program.bytes) {
        Some(bytes) => Some(Address { bytes }),
        None => None,
    }
}

/// An optional key as a value.
pub open spec fn key_of(derived: Option<Address>) -> Option<Seq<u8>> {
    match derived {
        Some(a) => Some(a@),
        None => None,
    }
}

/// Whether a derivation gave an address, and the one that was named.
pub fn derives_to(derived: &Option<Address>, address: &Address) -> (r: bool)
    ensures
        r == (key_of(*derived) == Some(address@)),
{
    match derived {
        Some(a) => a.same(address),
        None => false,
    }
}

/// Derives the address of `owner`'s record again and holds it against the
/// address that was named. An address is never taken on trust.
pub fn validate(program: &Address, address: &Address, owner: &Address, bump: u8) -> (r: Result<(), WallError>)
    ensures
        r is Ok <==> derived(program@, owner@, bump) == Some(address@),
        r is Err ==> r == Err::<(), WallError>(WallError::AddressMismatch),
{
    if derives_to(&derive_address(program, owner, bump), address) {
        Ok(())
    } else {
        Err(WallError::AddressMismatch)
    }
}

} // verus!
