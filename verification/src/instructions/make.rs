//! Opening an offer.

use crate::address::Address;
use crate::error::EscrowError;
use crate::ledger::{AccountKey, Ledger, Mint, State};
use crate::state::Escrow;
use crate::table::Key;
use vstd::prelude::*;

verus! {

/// What a maker supplies to open an offer.
#[derive(Clone, Copy, Debug, PartialEq, Eq)]
pub struct Make {
    /// Who opens the offer, and signs.
    pub maker: Address,
    /// The deposited asset, as the maker declares it.
    pub mint_a: Mint,
    /// The requested asset, as the maker declares it.
    pub mint_b: Mint,
}

impl Make {
    /// The record that opening stores.
    pub open spec fn record(self, bump: u8, seed: u64, receive_amount: u64) -> Escrow {
        Escrow {
            bump,
            seed,
            receive_amount,
            maker: self.maker,
            mint_a: self.mint_a.key,
            mint_b: self.mint_b.key,
        }
    }

    /// The record stored at `escrow` and its custody opened, both at the
    /// maker's cost, and the deposit moved from the maker into custody.
    pub open spec fn deposit(self, s: State, escrow: Address, record: Escrow, amount: nat) -> Result<
        State,
        EscrowError,
    > {
        match s.open_offer(self.maker, escrow, record) {
            Err(e) => Err(e),
            Ok(s1) => s1.transfer_checked(self.maker, self.maker, escrow, self.mint_a, amount),
        }
    }

    /// What opening does to a ledger. `derived` is the address derived
    /// from the maker and the seed, with its bump.
    ///
    /// The conditions are tested first, in this order: an address was
    /// derived; neither a record nor a custody exists there; both assets
    /// are registered with the precision declared; the maker signs with
    /// a key, and is not the record's address. Then the deposit.
    pub open spec fn outcome(
        self,
        s: State,
        derived: Option<(Address, u8)>,
        seed: u64,
        deposit_amount: u64,
        receive_amount: u64,
    ) -> Result<State, EscrowError> {
        match derived {
            None => Err(EscrowError::NoAddress),
            Some((escrow, bump)) => {
                let custody = AccountKey { holder: escrow, asset: self.mint_a.key };
                if s.records.contains_key(escrow) || s.accounts.contains_key(custody) {
                    Err(EscrowError::DuplicateOffer)
                } else if !s.precise(self.mint_a) || !s.precise(self.mint_b) {
                    Err(EscrowError::AssetMismatch)
                } else if self.maker == escrow || !s.keyed(self.maker) {
                    Err(EscrowError::Unauthorized)
                } else {
                    self.deposit(
                        s,
                        escrow,
                        self.record(bump, seed, receive_amount),
                        deposit_amount as nat,
                    )
                }
            },
        }
    }

    /// Opens the offer on `ledger` and returns the ledger after it.
    ///
    /// `derived` is the address derived from the maker and `seed`, with
    /// its bump: the record is stored there. The bump is stored in the
    /// record: fulfilling and cancelling derive the record's address
    /// from it again.
    pub fn make(
        ledger: Ledger,
        ctx: &Make,
        derived: Option<(Address, u8)>,
        seed: u64,
        deposit_amount: u64,
        receive_amount: u64,
    ) -> (r: Result<Ledger, EscrowError>)
        requires
            ledger.wf(),
        ensures
            match ctx.outcome(ledger@, derived, seed, deposit_amount, receive_amount) {
                Ok(s) => r matches Ok(l) && l.wf() && l@ == s,
                Err(e) => r matches Err(x) && x == e,
            },
    {
        let mut ledger = ledger;
        let (escrow, bump) = match derived {
            Some(found) => found,
            None => {
                return Err(EscrowError::NoAddress);
            },
        };
        if ledger.record(&escrow).is_some() || ledger.balance(&escrow, &ctx.mint_a.key).is_some() {
            return Err(EscrowError::DuplicateOffer);
        }
        if !ledger.precise(&ctx.mint_a) || !ledger.precise(&ctx.mint_b) {
            return Err(EscrowError::AssetMismatch);
        }
        if ctx.maker.same(&escrow) || !ledger.keyed(&ctx.maker) {
            return Err(EscrowError::Unauthorized);
        }
        let record = Escrow {
            bump,
            seed,
            receive_amount,
            maker: ctx.maker,
            mint_a: ctx.mint_a.key,
            mint_b: ctx.mint_b.key,
        };
        ledger.open_offer(&ctx.maker, &escrow, &record)?;
        ledger.transfer_checked(&ctx.maker, &ctx.maker, &escrow, &ctx.mint_a, deposit_amount)?;
        Ok(ledger)
    }
}

} // verus!
