//! Cancelling an offer.

use crate::address::Address;
use crate::error::EscrowError;
use crate::ledger::{AccountKey, Ledger, Mint, State};
use crate::table::Key;
use vstd::prelude::*;

verus! {

/// What a maker supplies to cancel an offer.
#[derive(Clone, Copy, Debug, PartialEq, Eq)]
pub struct Cancel {
    /// Who cancels, and signs.
    pub maker: Address,
    /// The address of the record.
    pub escrow: Address,
    /// The deposited asset, as the maker declares it.
    pub mint_a: Mint,
}

impl Cancel {
    /// The sub-account that holds the deposit.
    pub open spec fn custody(self) -> AccountKey {
        AccountKey { holder: self.escrow, asset: self.mint_a.key }
    }

    /// The refund itself, once the conditions are met: the maker's
    /// sub-account of the deposited asset is opened where it is missing,
    /// at the maker's cost; all of the custody goes back to the maker;
    /// custody and record are closed, their storage deposits handed to
    /// the maker.
    pub open spec fn refund(self, s: State, amount: nat) -> Result<State, EscrowError> {
        let maker_a = AccountKey { holder: self.maker, asset: self.mint_a.key };
        match s.ensure_account(self.maker, maker_a) {
            Err(e) => Err(e),
            Ok(s1) => match s1.transfer(self.escrow, self.maker, self.mint_a, amount) {
                Err(e) => Err(e),
                Ok(s2) => Ok(s2.close_offer(self.escrow, self.maker)),
            },
        }
    }

    /// What cancelling does to a ledger. `signed` says whether the
    /// program could act as the record's address.
    ///
    /// The conditions are tested first, in this order: the record
    /// exists; the signer is its maker; it names the asset supplied; its
    /// custody exists; the asset is registered with the precision
    /// declared; the program acts as the record's address, and the maker
    /// signs with a key. Then the refund.
    pub open spec fn outcome(self, s: State, signed: bool) -> Result<State, EscrowError> {
        if !s.records.contains_key(self.escrow) {
            Err(EscrowError::RecordNotFound)
        } else {
            let rec = s.records[self.escrow].escrow;
            if rec.maker != self.maker {
                Err(EscrowError::Unauthorized)
            } else if rec.mint_a != self.mint_a.key {
                Err(EscrowError::RecordMismatch)
            } else if !s.accounts.contains_key(self.custody()) {
                Err(EscrowError::RecordNotFound)
            } else if !s.precise(self.mint_a) {
                Err(EscrowError::AssetMismatch)
            } else if !signed || !s.keyed(self.maker) {
                Err(EscrowError::Unauthorized)
            } else {
                self.refund(s, s.accounts[self.custody()].amount)
            }
        }
    }

    /// Cancels the offer on `ledger` and returns the ledger after it.
    ///
    /// `authority` is the address derived from the record's stored seed
    /// and bump: the program moves the custody as that address.
    pub fn cancel(ledger: Ledger, ctx: &Cancel, authority: Option<Address>) -> (r: Result<
        Ledger,
        EscrowError,
    >)
        requires
            ledger.wf(),
        ensures
            match ctx.outcome(ledger@, authority == Some(ctx.escrow)) {
                Ok(s) => r matches Ok(l) && l.wf() && l@ == s,
                Err(e) => r matches Err(x) && x == e,
            },
    {
        let mut ledger = ledger;
        let rec = match ledger.record(&ctx.escrow) {
            Some(rec) => rec,
            None => {
                return Err(EscrowError::RecordNotFound);
            },
        };
        if !rec.maker.same(&ctx.maker) {
            return Err(EscrowError::Unauthorized);
        }
        if !rec.mint_a.same(&ctx.mint_a.key) {
            return Err(EscrowError::RecordMismatch);
        }
        let amount = match ledger.balance(&ctx.escrow, &ctx.mint_a.key) {
            Some(amount) => amount,
            None => {
                return Err(EscrowError::RecordNotFound);
            },
        };
        if !ledger.precise(&ctx.mint_a) {
            return Err(EscrowError::AssetMismatch);
        }
        let signer = match authority {
            Some(a) => a,
            None => {
                return Err(EscrowError::Unauthorized);
            },
        };
        if !signer.same(&ctx.escrow) || !ledger.keyed(&ctx.maker) {
            return Err(EscrowError::Unauthorized);
        }
        ledger.ensure_account(&ctx.maker, &ctx.maker, &ctx.mint_a.key)?;
        ledger.transfer(&ctx.escrow, &ctx.maker, &ctx.mint_a, amount)?;
        ledger.close_offer(&ctx.escrow, &ctx.maker);
        Ok(ledger)
    }
}

} // verus!
