//! The record of an offer and its persisted form.

use crate::address::Address;
use vstd::bytes::*;
use vstd::prelude::*;
use vstd::slice::slice_subrange;

verus! {

/// The tag that opens every persisted record.
pub const DISCRIMINATOR: [u8; 8] = [31, 213, 123, 187, 186, 22, 218, 155];

/// Number of bytes of a persisted record.
pub const ESCROW_LEN: usize = 121;

/// The durable state of one open trade offer.
#[derive(Clone, Copy, Debug, PartialEq, Eq)]
pub struct Escrow {
    /// Completes the seeds under which the record's own address is derived.
    pub bump: u8,
    /// Chosen by the maker; tells the maker's offers apart.
    pub seed: u64,
    /// How much of `mint_b` fulfils the offer.
    pub receive_amount: u64,
    /// Who opened the offer.
    pub maker: Address,
    /// The deposited asset.
    pub mint_a: Address,
    /// The requested asset.
    pub mint_b: Address,
}

fn append(out: &mut Vec<u8>, bytes: &[u8])
    ensures
        final(out)@ == old(out)@ + bytes@,
{
    let n = bytes.len();
    let mut i: usize = 0;
    while i < n
        invariant
            i <= n,
            n == bytes@.len(),
            out@ == old(out)@ + bytes@.subrange(0, i as int),
        decreases n - i,
    {
        out.push(bytes[i]);
        i += 1;
    }
}

fn address_at(data: &[u8], at: usize) -> (r: Address)
    requires
        at + 32 <= data@.len(),
    ensures
        r@ == data@.subrange(at as int, at + 32),
{
    let n = data.len();
    let mut bytes = [0u8;32];
    let mut i: usize = 0;
    while i < 32
        invariant
            i <= 32,
            n == data@.len(),
            at + 32 <= n,
            forall|j: int| 0 <= j < i ==> bytes@[j] == data@[at + j],
        decreases 32 - i,
    {
        bytes[i] = data[at + i];
        i += 1;
    }
    Address { bytes }
}

impl Escrow {
    /// The persisted form: the tag, then the fields in their order,
    /// integers in little-endian.
    pub open spec fn layout(self) -> Seq<u8> {
        DISCRIMINATOR@ + seq![self.bump] + spec_u64_to_le_bytes(self.seed) + spec_u64_to_le_bytes(
            self.receive_amount,
        ) + self.maker@ + self.mint_a@ + self.mint_b@
    }

    /// `data` begins with the persisted form of this record.
    pub open spec fn stored_in(self, data: Seq<u8>) -> bool {
        data.len() >= ESCROW_LEN && data.subrange(0, ESCROW_LEN as int) == self.layout()
    }

    /// Where each field stands in the persisted form.
    pub proof fn lemma_layout(self)
        ensures
            self.layout().len() == ESCROW_LEN,
            self.layout().subrange(0, 8) == DISCRIMINATOR@,
            self.layout()[8] == self.bump,
            self.layout().subrange(9, 17) == spec_u64_to_le_bytes(self.seed),
            self.layout().subrange(17, 25) == spec_u64_to_le_bytes(self.receive_amount),
            self.layout().subrange(25, 57) == self.maker@,
            self.layout().subrange(57, 89) == self.mint_a@,
            self.layout().subrange(89, 121) == self.mint_b@,
    {
        lemma_auto_spec_u64_to_from_le_bytes();
        let l = self.layout();
    }

    /// Two records with one persisted form are one record.
    pub proof fn lemma_layout_injective(self, other: Escrow)
        requires
            self.layout() == other.layout(),
        ensures
            self == other,
    {
        self.lemma_layout();
        other.lemma_layout();
        lemma_auto_spec_u64_to_from_le_bytes();
        assert(self.maker.bytes =~= other.maker.bytes);
        assert(self.mint_a.bytes =~= other.mint_a.bytes);
        assert(self.mint_b.bytes =~= other.mint_b.bytes);
    }

    /// What was written is read back: a record is stored in its own
    /// persisted form, and no other record is.
    pub proof fn lemma_round_trip(self, other: Escrow)
        ensures
            self.stored_in(self.layout()),
            other.stored_in(self.layout()) ==> other == self,
    {
        self.lemma_layout();
        other.lemma_layout();
        assert(self.layout().subrange(0, ESCROW_LEN as int) =~= self.layout());
        if other.stored_in(self.layout()) {
            other.lemma_layout_injective(self);
        }
    }

    /// Writes the record in its persisted form.
    pub fn try_serialize(&self) -> (data: Vec<u8>)
        ensures
            data@ == self.layout(),
    {
        let mut data: Vec<u8> = Vec::new();
        append(&mut data, &DISCRIMINATOR);
        data.push(self.bump);
        let seed = u64_to_le_bytes(self.seed);
        append(&mut data, seed.as_slice());
        let amount = u64_to_le_bytes(self.receive_amount);
        append(&mut data, amount.as_slice());
        append(&mut data, &self.maker.bytes);
        append(&mut data, &self.mint_a.bytes);
        append(&mut data, &self.mint_b.bytes);
        data
    }

    /// Reads a record from what is stored at its address. The tag is
    /// checked on every read; bytes past the record are not looked at.
    pub fn try_deserialize(data: &[u8]) -> (r: Option<Escrow>)
        ensures
            match r {
                Some(e) => e.stored_in(data@),
                None => forall|e: Escrow| !e.stored_in(data@),
            },
    {
        if data.len() < ESCROW_LEN {
            return None;
        }
        let mut i: usize = 0;
        while i < 8
            invariant
                i <= 8,
                data@.len() >= ESCROW_LEN,
                forall|j: int| 0 <= j < i ==> data@[j] == DISCRIMINATOR@[j],
            decreases 8 - i,
        {
            if data[i] != DISCRIMINATOR[i] {
                proof {
                    assert forall|e: Escrow| !e.stored_in(data@) by {
                        e.lemma_layout();
                        if e.stored_in(data@) {
                            assert(e.layout().subrange(0, 8)[i as int] == data@[i as int]);
                        }
                    }
                }
                return None;
            }
            i += 1;
        }
        let e = Escrow {
            bump: data[8],
            seed: u64_from_le_bytes(slice_subrange(data, 9, 17)),
            receive_amount: u64_from_le_bytes(slice_subrange(data, 17, 25)),
            maker: address_at(data, 25),
            mint_a: address_at(data, 57),
            mint_b: address_at(data, 89),
        };
        proof {
            lemma_auto_spec_u64_to_from_le_bytes();
            let head = data@.subrange(0, ESCROW_LEN as int);
            assert(head =~= e.layout());
        }
        Some(e)
    }
}

} // verus!
