//! Identities, and the addresses that are derived for records.

use anchor_lang::prelude::Pubkey;
use anchor_lang::solana_program::pubkey::PubkeyError;
use crate::table::Key;
use vstd::bytes::*;
use vstd::prelude::*;

verus! {

/// A 32-byte identity: a party, an asset, or the storage address of a record.
#[derive(Clone, Copy, Debug, PartialEq, Eq)]
pub struct Address {
    pub bytes: [u8; 32],
}

impl View for Address {
    type V = Seq<u8>;

    open spec fn view(&self) -> Seq<u8> {
        self.bytes@
    }
}

impl Address {
    /// An identity is the identity with its bytes.
    pub proof fn lemma_address_of(self)
        ensures
            address_of(self@) == self,
    {
        let a = address_of(self@);
        a.lemma_same_bytes(self);
    }

    /// Two identities with the same bytes are one identity.
    pub proof fn lemma_same_bytes(self, other: Address)
        requires
            self@ == other@,
        ensures
            self == other,
    {
        assert(self.bytes =~= other.bytes);
    }
}

/// The address under which this program is deployed.
pub const PROGRAM_ID: [u8; 32] = [
    132, 184, 184, 15, 103, 67, 74, 87, 240, 113, 235, 82, 234, 138, 188, 34,
    228, 200, 60, 122, 210, 178, 197, 183, 203, 215, 203, 124, 78, 72, 223, 238,
];

impl Key for Address {
    fn same(&self, other: &Self) -> (r: bool) {
        let mut i: usize = 0;
        while i < 32
            invariant
                i <= 32,
                forall|j: int| 0 <= j < i ==> self.bytes[j] == other.bytes[j],
            decreases 32 - i,
        {
            if self.bytes[i] != other.bytes[i] {
                return false;
            }
            i += 1;
        }
        assert(self.bytes =~= other.bytes);
        true
    }
}

/// The bytes that open the seeds of every record's address.
pub const ESCROW_SEED: [u8; 6] = [101, 115, 99, 114, 111, 119];

/// What `Pubkey::create_program_address` returns for these seeds and
/// this program: the derived address, or nothing where the seeds
/// derive none. It depends on the seeds and the program alone.
pub uninterp spec fn program_address(seeds: Seq<Seq<u8>>, program_id: Seq<u8>) -> Option<Seq<u8>>;

/// What `Pubkey::try_find_program_address` returns for these seeds and
/// this program: an address and the bump that completes the seeds, or
/// nothing where no bump does. It depends on the seeds and the program
/// alone.
pub uninterp spec fn found_program_address(seeds: Seq<Seq<u8>>, program_id: Seq<u8>) -> Option<
    (Seq<u8>, u8),
>;

/// Why `Pubkey::create_program_address` derived no address. Nothing is
/// seen of what it holds.
#[verifier::external_type_specification]
#[verifier::external_body]
pub struct ExPubkeyError(PubkeyError);

/// Calls `Pubkey::create_program_address`, which hashes the seeds, the
/// program's address and a marker, and rejects seeds that are too many
/// or too long, and a hash that is a point of the curve. Nothing is
/// claimed of the result but that it is the outside function's.
#[verifier::external_body]
fn create_program_address(seeds: &Vec<Vec<u8>>, program_id: &Address) -> (r: Result<
    Address,
    PubkeyError,
>)
    ensures
        (match r {
            Ok(a) => Some(a@),
            Err(_) => None,
        }) == program_address(seeds.deep_view(), program_id@),
{
    let parts: Vec<&[u8]> = seeds.iter().map(|s| s.as_slice()).collect();
    Pubkey::create_program_address(&parts, &Pubkey::new_from_array(program_id.bytes)).map(
        |k| Address { bytes: k.to_bytes() },
    )
}

/// Calls `Pubkey::try_find_program_address`, which tries the bumps from
/// 255 downwards and returns the first for which
/// `create_program_address`, given the seeds and then the bump,
/// derives an address, together with that address. The contract claims
/// that much of the two results, and no more.
#[verifier::external_body]
fn try_find_program_address(seeds: &Vec<Vec<u8>>, program_id: &Address) -> (r: Option<
    (Address, u8),
>)
    ensures
        (match r {
            Some((a, b)) => Some((a@, b)),
            None => None,
        }) == found_program_address(seeds.deep_view(), program_id@),
        r matches Some((a, b)) ==> program_address(
            seeds.deep_view().push(seq![b]),
            program_id@,
        ) == Some(a@),
{
    let parts: Vec<&[u8]> = seeds.iter().map(|s| s.as_slice()).collect();
    Pubkey::try_find_program_address(&parts, &Pubkey::new_from_array(program_id.bytes)).map(
        |(k, b)| (Address { bytes: k.to_bytes() }, b),
    )
}

/// The seeds under which the record of `maker`'s offer `seed` is
/// addressed.
pub open spec fn record_seeds(maker: Address, seed: u64) -> Seq<Seq<u8>> {
    seq![ESCROW_SEED@, maker@, spec_u64_to_le_bytes(seed)]
}

/// The seeds with which the program acts as the record's address.
pub open spec fn signer_seeds(maker: Address, seed: u64, bump: u8) -> Seq<Seq<u8>> {
    record_seeds(maker, seed).push(seq![bump])
}

/// The address of the record of `maker`'s offer `seed`, with its bump.
pub open spec fn record_address(maker: Address, seed: u64) -> Option<(Seq<u8>, u8)> {
    found_program_address(record_seeds(maker, seed), PROGRAM_ID@)
}

/// The identity with these bytes.
pub open spec fn address_of(bytes: Seq<u8>) -> Address {
    choose|a: Address| a@ == bytes
}

/// A derived address and its bump, the address as an identity.
pub open spec fn located(derived: Option<(Seq<u8>, u8)>) -> Option<(Address, u8)> {
    match derived {
        Some((found, bump)) => Some((address_of(found), bump)),
        None => None,
    }
}

/// The address as which the program may act for a record with these
/// fields.
pub open spec fn record_authority(maker: Address, seed: u64, bump: u8) -> Option<Seq<u8>> {
    program_address(signer_seeds(maker, seed, bump), PROGRAM_ID@)
}

fn copy_of(bytes: &[u8]) -> (r: Vec<u8>)
    ensures
        r@ == bytes@,
{
    let n = bytes.len();
    let mut r: Vec<u8> = Vec::new();
    let mut i: usize = 0;
    while i < n
        invariant
            i <= n,
            n == bytes@.len(),
            r@ == bytes@.subrange(0, i as int),
        decreases n - i,
    {
        r.push(bytes[i]);
        i += 1;
    }
    r
}

/// Builds the seeds of a record's address.
pub fn escrow_seeds(maker: &Address, seed: u64) -> (r: Vec<Vec<u8>>)
    ensures
        r.deep_view() == record_seeds(*maker, seed),
{
    let mut r: Vec<Vec<u8>> = Vec::new();
    r.push(copy_of(&ESCROW_SEED));
    r.push(copy_of(&maker.bytes));
    r.push(u64_to_le_bytes(seed));
    assert(r@[0].deep_view() =~= ESCROW_SEED@);
    assert(r@[1].deep_view() =~= maker@);
    assert(r@[2].deep_view() =~= spec_u64_to_le_bytes(seed));
    r
}

/// Builds the seeds with which the program signs for a record.
pub fn escrow_signer_seeds(maker: &Address, seed: u64, bump: u8) -> (r: Vec<Vec<u8>>)
    ensures
        r.deep_view() == signer_seeds(*maker, seed, bump),
{
    let mut r = escrow_seeds(maker, seed);
    let ghost head = r;
    assert(head@.len() == head.deep_view().len());
    let mut last: Vec<u8> = Vec::new();
    last.push(bump);
    r.push(last);
    assert(r@[3].deep_view() =~= seq![bump]);
    r
}

/// Derives the address of the record of `maker`'s offer `seed`.
///
/// The bump that comes with the address is the one with which
/// `escrow_authority` derives the same address again.
pub fn find_escrow_address(maker: &Address, seed: u64) -> (r: Option<(Address, u8)>)
    ensures
        r == located(record_address(*maker, seed)),
        r matches Some((a, b)) ==> record_authority(*maker, seed, b) == Some(a@),
{
    let seeds = escrow_seeds(maker, seed);
    let r = try_find_program_address(&seeds, &Address { bytes: PROGRAM_ID });
    proof {
        if let Some((a, b)) = r {
            a.lemma_address_of();
        }
    }
    r
}

/// Derives the address as which the program may act for a record with
/// these fields.
pub fn escrow_authority(maker: &Address, seed: u64, bump: u8) -> (r: Option<Address>)
    ensures
        (match r {
            Some(a) => Some(a@),
            None => None,
        }) == record_authority(*maker, seed, bump),
{
    let seeds = escrow_signer_seeds(maker, seed, bump);
    match create_program_address(&seeds, &Address { bytes: PROGRAM_ID }) {
        Ok(address) => Some(address),
        Err(_) => None,
    }
}

} // verus!
