//! Fulfilling an offer.

use crate::address::Address;
use crate::error::EscrowError;
use crate::ledger::{AccountKey, Ledger, Mint, State};
use crate::table::Key;
use vstd::prelude::*;

verus! {

/// What a taker supplies to fulfil an offer.
#[derive(Clone, Copy, Debug, PartialEq, Eq)]
pub struct Take {
    /// Who fulfils the offer, and signs.
    pub taker: Address,
    /// Who opened the offer.
    pub maker: Address,
    /// The address of the record.
    pub escrow: Address,
    /// The deposited asset, as the taker declares it.
    pub mint_a: Mint,
    /// The requested asset, as the taker declares it.
    pub mint_b: Mint,
}

impl Take {
    /// The sub-account that holds the deposit.
    pub open spec fn custody(self) -> AccountKey {
        AccountKey { holder: self.escrow, asset: self.mint_a.key }
    }

    /// The swap itself, once the conditions are met: the taker's and
    /// the maker's receiving sub-accounts are opened where they are
    /// missing, at the taker's cost; all of the custody goes to the
    /// taker; `receive_amount` of the requested asset goes from the
    /// taker to the maker; custody and record are closed, their storage
    /// deposits handed to the maker.
    pub open spec fn swap(self, s: State, amount: nat, receive_amount: nat) -> Result<
        State,
        EscrowError,
    > {
        let taker_a = AccountKey { holder: self.taker, asset: self.mint_a.key };
        let maker_b = AccountKey { holder: self.maker, asset: self.mint_b.key };
        match s.ensure_account(self.taker, taker_a) {
            Err(e) => Err(e),
            Ok(s1) => match s1.ensure_account(self.taker, maker_b) {
                Err(e) => Err(e),
                Ok(s2) => match s2.transfer(self.escrow, self.taker, self.mint_a, amount) {
                    Err(e) => Err(e),
                    Ok(s3) => match s3.transfer_checked(
                        self.taker,
                        self.taker,
                        self.maker,
                        self.mint_b,
                        receive_amount,
                    ) {
                        Err(e) => Err(e),
                        Ok(s4) => Ok(s4.close_offer(self.escrow, self.maker)),
                    },
                },
            },
        }
    }

    /// What fulfilling does to a ledger. `signed` says whether the
    /// program could act as the record's address.
    ///
    /// The conditions are tested first, in this order: the record
    /// exists; it names the maker and the assets supplied; its custody
    /// exists; both assets are registered with the precision declared;
    /// the program acts as the record's address, the taker signs with a
    /// key, and the maker is not the record's address. Then the swap.
    pub open spec fn outcome(self, s: State, signed: bool) -> Result<State, EscrowError> {
        if !s.records.contains_key(self.escrow) {
            Err(EscrowError::RecordNotFound)
        } else {
            let rec = s.records[self.escrow].escrow;
            if rec.maker != self.maker || rec.mint_a != self.mint_a.key || rec.mint_b
                != self.mint_b.key {
                Err(EscrowError::RecordMismatch)
            } else if !s.accounts.contains_key(self.custody()) {
                Err(EscrowError::RecordNotFound)
            } else if !s.precise(self.mint_a) || !s.precise(self.mint_b) {
                Err(EscrowError::AssetMismatch)
            } else if !signed || !s.keyed(self.taker) || self.maker == self.escrow {
                Err(EscrowError::Unauthorized)
            } else {
                self.swap(s, s.accounts[self.custody()].amount, rec.receive_amount as nat)
            }
        }
    }

    /// Fulfils the offer on `ledger` and returns the ledger after it.
    ///
    /// `authority` is the address derived from the record's stored seed
    /// and bump: the program moves the custody as that address.
    pub fn handler(ledger: Ledger, ctx: &Take, authority: Option<Address>) -> (r: Result<
        Ledger,
        EscrowError,
    >)
        requires
            ledger.wf(),
        ensures
            match ctx.outcome(ledger@, authority == Some(ctx.escrow)) {
                Ok(s) => r matches Ok(l) && l.wf() && l@ == s,
                Err(e) => r matches Err(x) && x == e,
            },
    {
        let mut ledger = ledger;
        let rec = match ledger.record(&ctx.escrow) {
            Some(rec) => rec,
            None => {
                return Err(EscrowError::RecordNotFound);
            },
        };
        if !rec.maker.same(&ctx.maker) || !rec.mint_a.same(&ctx.mint_a.key) || !rec.mint_b.same(
            &ctx.mint_b.key,
        ) {
            return Err(EscrowError::RecordMismatch);
        }
        let amount = match ledger.balance(&ctx.escrow, &ctx.mint_a.key) {
            Some(amount) => amount,
            None => {
                return Err(EscrowError::RecordNotFound);
            },
        };
        if !ledger.precise(&ctx.mint_a) || !ledger.precise(&ctx.mint_b) {
            return Err(EscrowError::AssetMismatch);
        }
        let signer = match authority {
            Some(a) => a,
            None => {
                return Err(EscrowError::Unauthorized);
            },
        };
        if !signer.same(&ctx.escrow) || !ledger.keyed(&ctx.taker) || ctx.maker.same(&ctx.escrow) {
            return Err(EscrowError::Unauthorized);
        }
        ledger.ensure_account(&ctx.taker, &ctx.taker, &ctx.mint_a.key)?;
        ledger.ensure_account(&ctx.taker, &ctx.maker, &ctx.mint_b.key)?;
        ledger.transfer(&ctx.escrow, &ctx.taker, &ctx.mint_a, amount)?;
        ledger.transfer_checked(
            &ctx.taker,
            &ctx.taker,
            &ctx.maker,
            &ctx.mint_b,
            rec.receive_amount,
        )?;
        ledger.close_offer(&ctx.escrow, &ctx.maker);
        Ok(ledger)
    }
}

} // verus!
