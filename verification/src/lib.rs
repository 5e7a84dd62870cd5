//! A trustless swap of two assets between two parties.
//!
//! A maker opens an offer: a record is stored at an address derived
//! from the maker and a seed, and the deposit moves into a custody
//! sub-account that only the program, acting as the record's address,
//! can move. Any taker may fulfil the offer, which swaps the assets and
//! closes record and custody; the maker may cancel it, which returns the
//! deposit and closes them. Each operation happens as a whole or not at
//! all.

pub mod address;
pub mod error;
pub mod instructions;
pub mod laws;
pub mod ledger;
pub mod state;
pub mod table;

pub use address::{Address, ESCROW_SEED, PROGRAM_ID};
pub use error::EscrowError;
pub use instructions::cancel::Cancel;
pub use instructions::make::Make;
pub use instructions::take::Take;
pub use ledger::{Account, AccountKey, Ledger, Mint, Registered, State, Stored};
pub use state::{Escrow, DISCRIMINATOR, ESCROW_LEN};
pub use table::{Key, Table};

use address::{escrow_authority, find_escrow_address, located, record_address, record_authority};
use vstd::prelude::*;

verus! {

/// The program can act as the address `escrow`: a record is stored
/// there, and the address derived from its maker, seed and bump is
/// `escrow`.
pub open spec fn authorized(s: State, escrow: Address) -> bool {
    s.records.contains_key(escrow) && ({
        let rec = s.records[escrow].escrow;
        record_authority(rec.maker, rec.seed, rec.bump) == Some(escrow@)
    })
}

/// Opens an offer: stores the record at the address derived from the
/// maker and `seed`, and moves `deposit_amount` of the first asset from
/// the maker into custody. The offer is fulfilled by `receive_amount`
/// of the second asset.
///
/// Either all of it happens, or the ledger stays as it was. An offer
/// that was opened is one that the program can act on.
pub fn make(
    ledger: &mut Ledger,
    ctx: &Make,
    seed: u64,
    deposit_amount: u64,
    receive_amount: u64,
) -> (r: Result<(), EscrowError>)
    requires
        old(ledger).wf(),
    ensures
        final(ledger).wf(),
        match ctx.outcome(
            old(ledger)@,
            located(record_address(ctx.maker, seed)),
            seed,
            deposit_amount,
            receive_amount,
        ) {
            Ok(s) => r is Ok && final(ledger)@ == s,
            Err(e) => r == Err::<(), EscrowError>(e) && final(ledger)@ == old(ledger)@,
        },
        r is Ok ==> (located(record_address(ctx.maker, seed)) matches Some((escrow, _))
            && authorized(final(ledger)@, escrow)),
{
    let derived = find_escrow_address(&ctx.maker, seed);
    match Make::make(ledger.snapshot(), ctx, derived, seed, deposit_amount, receive_amount) {
        Ok(after) => {
            *ledger = after;
            Ok(())
        },
        Err(e) => Err(e),
    }
}

/// Fulfils the offer stored at `ctx.escrow`: the taker receives all of
/// the custody and pays the maker what the record asks; record and
/// custody are closed.
///
/// Either all of it happens, or the ledger stays as it was.
pub fn take(ledger: &mut Ledger, ctx: &Take) -> (r: Result<(), EscrowError>)
    requires
        old(ledger).wf(),
    ensures
        final(ledger).wf(),
        match ctx.outcome(old(ledger)@, authorized(old(ledger)@, ctx.escrow)) {
            Ok(s) => r is Ok && final(ledger)@ == s,
            Err(e) => r == Err::<(), EscrowError>(e) && final(ledger)@ == old(ledger)@,
        },
{
    let authority = match ledger.record(&ctx.escrow) {
        Some(rec) => escrow_authority(&rec.maker, rec.seed, rec.bump),
        None => None,
    };
    proof {
        if let Some(a) = authority {
            if a@ == ctx.escrow@ {
                a.lemma_same_bytes(ctx.escrow);
            }
        }
    }
    match Take::handler(ledger.snapshot(), ctx, authority) {
        Ok(after) => {
            *ledger = after;
            Ok(())
        },
        Err(e) => Err(e),
    }
}

/// Cancels the offer stored at `ctx.escrow`: the maker receives all of
/// the custody back; record and custody are closed.
///
/// Either all of it happens, or the ledger stays as it was.
pub fn cancel(ledger: &mut Ledger, ctx: &Cancel) -> (r: Result<(), EscrowError>)
    requires
        old(ledger).wf(),
    ensures
        final(ledger).wf(),
        match ctx.outcome(old(ledger)@, authorized(old(ledger)@, ctx.escrow)) {
            Ok(s) => r is Ok && final(ledger)@ == s,
            Err(e) => r == Err::<(), EscrowError>(e) && final(ledger)@ == old(ledger)@,
        },
{
    let authority = match ledger.record(&ctx.escrow) {
        Some(rec) => escrow_authority(&rec.maker, rec.seed, rec.bump),
        None => None,
    };
    proof {
        if let Some(a) = authority {
            if a@ == ctx.escrow@ {
                a.lemma_same_bytes(ctx.escrow);
            }
        }
    }
    match Cancel::cancel(ledger.snapshot(), ctx, authority) {
        Ok(after) => {
            *ledger = after;
            Ok(())
        },
        Err(e) => Err(e),
    }
}

} // verus!
