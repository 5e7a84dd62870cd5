//! What holds of the operations, whatever the ledger and the callers.

use crate::address::Address;
use crate::authorized;
use crate::error::EscrowError;
use crate::instructions::cancel::Cancel;
use crate::instructions::make::Make;
use crate::instructions::take::Take;
use crate::ledger::{AccountKey, Mint, State};
use vstd::prelude::*;

verus! {

/// What `holder` has of `asset`: nothing where there is no such
/// sub-account.
pub open spec fn held(s: State, holder: Address, asset: Address) -> nat {
    match s.balance(holder, asset) {
        Some(amount) => amount,
        None => 0,
    }
}

/// An offer is opened only where an address was derived and neither
/// record nor custody existed there, and once it is opened the custody
/// holds exactly the deposit, the maker holds that much less, and the
/// record stored is the one asked for.
pub proof fn lemma_open_deposits_exactly(
    s: State,
    ctx: Make,
    derived: Option<(Address, u8)>,
    seed: u64,
    deposit_amount: u64,
    receive_amount: u64,
)
    requires
        ctx.outcome(s, derived, seed, deposit_amount, receive_amount) is Ok,
    ensures
        derived is Some,
        ({
            let after = ctx.outcome(s, derived, seed, deposit_amount, receive_amount)->Ok_0;
            let (escrow, bump) = derived->Some_0;
            &&& s.record(escrow) is None
            &&& s.balance(escrow, ctx.mint_a.key) is None
            &&& after.record(escrow) == Some(ctx.record(bump, seed, receive_amount))
            &&& after.balance(escrow, ctx.mint_a.key) == Some(deposit_amount as nat)
            &&& s.balance(ctx.maker, ctx.mint_a.key) is Some
            &&& after.balance(ctx.maker, ctx.mint_a.key) == Some(
                (held(s, ctx.maker, ctx.mint_a.key) - deposit_amount) as nat,
            )
            &&& held(s, ctx.maker, ctx.mint_a.key) >= deposit_amount
            &&& after.lamports(ctx.maker) + s.record_deposit + s.account_deposit == s.lamports(
                ctx.maker,
            )
        }),
{
}

/// Once an offer is fulfilled, neither its record nor its custody
/// exists.
pub proof fn lemma_take_closes(s: State, ctx: Take, signed: bool)
    requires
        ctx.outcome(s, signed) is Ok,
    ensures
        ctx.outcome(s, signed)->Ok_0.record(ctx.escrow) is None,
        ctx.outcome(s, signed)->Ok_0.balance(ctx.escrow, ctx.mint_a.key) is None,
{
}

/// Once an offer is cancelled, neither its record nor its custody
/// exists.
pub proof fn lemma_cancel_closes(s: State, ctx: Cancel, signed: bool)
    requires
        ctx.outcome(s, signed) is Ok,
    ensures
        ctx.outcome(s, signed)->Ok_0.record(ctx.escrow) is None,
        ctx.outcome(s, signed)->Ok_0.balance(ctx.escrow, ctx.mint_a.key) is None,
{
}

/// Of fulfilling and cancelling one offer, only the first succeeds:
/// whatever comes after a fulfilment finds no record.
pub proof fn lemma_nothing_after_take(
    s: State,
    first: Take,
    signed: bool,
    again: Take,
    cancel: Cancel,
    later: bool,
)
    requires
        first.outcome(s, signed) is Ok,
        again.escrow == first.escrow,
        cancel.escrow == first.escrow,
    ensures
        again.outcome(first.outcome(s, signed)->Ok_0, later) == Err::<State, EscrowError>(
            EscrowError::RecordNotFound,
        ),
        cancel.outcome(first.outcome(s, signed)->Ok_0, later) == Err::<State, EscrowError>(
            EscrowError::RecordNotFound,
        ),
{
    lemma_take_closes(s, first, signed);
}

/// Of fulfilling and cancelling one offer, only the first succeeds:
/// whatever comes after a cancellation finds no record.
pub proof fn lemma_nothing_after_cancel(
    s: State,
    first: Cancel,
    signed: bool,
    take: Take,
    again: Cancel,
    later: bool,
)
    requires
        first.outcome(s, signed) is Ok,
        take.escrow == first.escrow,
        again.escrow == first.escrow,
    ensures
        take.outcome(first.outcome(s, signed)->Ok_0, later) == Err::<State, EscrowError>(
            EscrowError::RecordNotFound,
        ),
        again.outcome(first.outcome(s, signed)->Ok_0, later) == Err::<State, EscrowError>(
            EscrowError::RecordNotFound,
        ),
{
    lemma_cancel_closes(s, first, signed);
}

/// Opening a second offer for the same maker and seed fails as a
/// duplicate, whatever else it asks for.
pub proof fn lemma_second_open_is_a_duplicate(
    s: State,
    first: Make,
    derived: Option<(Address, u8)>,
    seed: u64,
    deposit_amount: u64,
    receive_amount: u64,
    again: Make,
    deposit_again: u64,
    receive_again: u64,
)
    requires
        first.outcome(s, derived, seed, deposit_amount, receive_amount) is Ok,
    ensures
        again.outcome(
            first.outcome(s, derived, seed, deposit_amount, receive_amount)->Ok_0,
            derived,
            seed,
            deposit_again,
            receive_again,
        ) == Err::<State, EscrowError>(EscrowError::DuplicateOffer),
{
    lemma_open_deposits_exactly(s, first, derived, seed, deposit_amount, receive_amount);
}

/// A fulfilment between two parties swaps exactly: the taker gains all
/// of the custody, the maker gains what the record asks, the taker
/// loses it, and the maker gains both storage deposits.
pub proof fn lemma_take_swaps(s: State, ctx: Take, signed: bool)
    requires
        ctx.outcome(s, signed) is Ok,
        ctx.taker != ctx.maker,
        ctx.mint_a.key != ctx.mint_b.key,
    ensures
        ({
            let after = ctx.outcome(s, signed)->Ok_0;
            let rec = s.records[ctx.escrow];
            let custody = s.accounts[ctx.custody()];
            &&& signed
            &&& after.balance(ctx.taker, ctx.mint_a.key) == Some(
                held(s, ctx.taker, ctx.mint_a.key) + custody.amount,
            )
            &&& after.balance(ctx.maker, ctx.mint_b.key) == Some(
                (held(s, ctx.maker, ctx.mint_b.key) + rec.escrow.receive_amount) as nat,
            )
            &&& held(s, ctx.taker, ctx.mint_b.key) >= rec.escrow.receive_amount
            &&& after.balance(ctx.taker, ctx.mint_b.key) == Some(
                (held(s, ctx.taker, ctx.mint_b.key) - rec.escrow.receive_amount) as nat,
            )
            &&& after.lamports(ctx.maker) == s.lamports(ctx.maker) + custody.deposit + rec.deposit
        }),
{
}

/// A cancellation gives the maker all of the custody and both storage
/// deposits. Where the maker's sub-account had to be opened, the maker
/// paid for it.
pub proof fn lemma_cancel_refunds(s: State, ctx: Cancel, signed: bool)
    requires
        ctx.outcome(s, signed) is Ok,
    ensures
        ({
            let after = ctx.outcome(s, signed)->Ok_0;
            let rec = s.records[ctx.escrow];
            let custody = s.accounts[ctx.custody()];
            let opened: nat = if s.balance(ctx.maker, ctx.mint_a.key) is Some {
                0
            } else {
                s.account_deposit
            };
            &&& signed
            &&& rec.escrow.maker == ctx.maker
            &&& after.balance(ctx.maker, ctx.mint_a.key) == Some(
                held(s, ctx.maker, ctx.mint_a.key) + custody.amount,
            )
            &&& after.lamports(ctx.maker) + opened == s.lamports(ctx.maker) + custody.deposit
                + rec.deposit
        }),
{
}

/// Opening an offer and cancelling it leaves every sub-account, every
/// record and every native balance as it was.
pub proof fn lemma_open_then_cancel(
    s: State,
    ctx: Make,
    escrow: Address,
    bump: u8,
    seed: u64,
    deposit_amount: u64,
    receive_amount: u64,
    signed: bool,
)
    requires
        ctx.outcome(s, Some((escrow, bump)), seed, deposit_amount, receive_amount) is Ok,
        (Cancel { maker: ctx.maker, escrow, mint_a: ctx.mint_a }).outcome(
            ctx.outcome(s, Some((escrow, bump)), seed, deposit_amount, receive_amount)->Ok_0,
            signed,
        ) is Ok,
    ensures
        ({
            let opened = ctx.outcome(
                s,
                Some((escrow, bump)),
                seed,
                deposit_amount,
                receive_amount,
            )->Ok_0;
            let after = (Cancel { maker: ctx.maker, escrow, mint_a: ctx.mint_a }).outcome(
                opened,
                signed,
            )->Ok_0;
            &&& after.accounts == s.accounts
            &&& after.records == s.records
            &&& after.assets == s.assets
            &&& forall|who: Address| after.lamports(who) == s.lamports(who)
        }),
{
    lemma_open_deposits_exactly(
        s,
        ctx,
        Some((escrow, bump)),
        seed,
        deposit_amount,
        receive_amount,
    );
}

/// Opening an offer with an asset that is not registered, or is
/// registered with another precision than the one declared, fails;
/// where an address was derived and the offer is no duplicate, it fails
/// as an asset mismatch.
pub proof fn lemma_make_rejects_wrong_precision(
    s: State,
    ctx: Make,
    derived: Option<(Address, u8)>,
    seed: u64,
    deposit_amount: u64,
    receive_amount: u64,
)
    requires
        !s.precise(ctx.mint_a) || !s.precise(ctx.mint_b),
    ensures
        ctx.outcome(s, derived, seed, deposit_amount, receive_amount) is Err,
        (derived matches Some((escrow, _)) && !s.records.contains_key(escrow)
            && !s.accounts.contains_key(AccountKey { holder: escrow, asset: ctx.mint_a.key }))
            ==> ctx.outcome(s, derived, seed, deposit_amount, receive_amount) == Err::<
            State,
            EscrowError,
        >(EscrowError::AssetMismatch),
{
}

/// Fulfilling an offer with an asset that is not registered, or is
/// registered with another precision than the one declared, fails;
/// where the record and its custody exist and the record names what
/// was supplied, it fails as an asset mismatch.
pub proof fn lemma_take_rejects_wrong_precision(s: State, ctx: Take, signed: bool)
    requires
        !s.precise(ctx.mint_a) || !s.precise(ctx.mint_b),
    ensures
        ctx.outcome(s, signed) is Err,
        s.records.contains_key(ctx.escrow) && s.accounts.contains_key(ctx.custody()) && ({
            let rec = s.records[ctx.escrow].escrow;
            rec.maker == ctx.maker && rec.mint_a == ctx.mint_a.key && rec.mint_b == ctx.mint_b.key
        }) ==> ctx.outcome(s, signed) == Err::<State, EscrowError>(EscrowError::AssetMismatch),
{
}

/// Cancelling an offer with an asset that is not registered, or is
/// registered with another precision than the one declared, fails;
/// where the record and its custody exist and the record names the
/// maker and the asset supplied, it fails as an asset mismatch.
pub proof fn lemma_cancel_rejects_wrong_precision(s: State, ctx: Cancel, signed: bool)
    requires
        !s.precise(ctx.mint_a),
    ensures
        ctx.outcome(s, signed) is Err,
        s.records.contains_key(ctx.escrow) && s.accounts.contains_key(ctx.custody()) && ({
            let rec = s.records[ctx.escrow].escrow;
            rec.maker == ctx.maker && rec.mint_a == ctx.mint_a.key
        }) ==> ctx.outcome(s, signed) == Err::<State, EscrowError>(EscrowError::AssetMismatch),
{
}

/// Only the program, acting as the record's address, moves what is in
/// custody: without that, neither fulfilling nor cancelling succeeds.
pub proof fn lemma_custody_needs_authority(s: State, take: Take, cancel: Cancel)
    ensures
        take.outcome(s, false) is Err,
        cancel.outcome(s, false) is Err,
{
}

/// A record is written once: opening an offer changes no record that
/// was there, and stores none but its own.
pub proof fn lemma_make_keeps_records(
    s: State,
    ctx: Make,
    derived: Option<(Address, u8)>,
    seed: u64,
    deposit_amount: u64,
    receive_amount: u64,
    other: Address,
)
    requires
        ctx.outcome(s, derived, seed, deposit_amount, receive_amount) is Ok,
        derived matches Some((escrow, _)) ==> other != escrow,
    ensures
        ({
            let after = ctx.outcome(s, derived, seed, deposit_amount, receive_amount)->Ok_0;
            after.record(other) == s.record(other)
        }),
{
}

/// A record is written once: fulfilling an offer changes no other
/// record, and neither stores nor removes one.
pub proof fn lemma_take_keeps_records(s: State, ctx: Take, signed: bool, other: Address)
    requires
        ctx.outcome(s, signed) is Ok,
        other != ctx.escrow,
    ensures
        ctx.outcome(s, signed)->Ok_0.record(other) == s.record(other),
{
}

/// A record is written once: cancelling an offer changes no other
/// record, and neither stores nor removes one.
pub proof fn lemma_cancel_keeps_records(s: State, ctx: Cancel, signed: bool, other: Address)
    requires
        ctx.outcome(s, signed) is Ok,
        other != ctx.escrow,
    ensures
        ctx.outcome(s, signed)->Ok_0.record(other) == s.record(other),
{
}

/// What the address of a record holds is out of reach of every key: a
/// signed transfer takes nothing from it.
pub proof fn lemma_transfer_spares_records(
    s: State,
    signer: Address,
    from: Address,
    to: Address,
    mint: Mint,
    amount: nat,
    other: Address,
    asset: Address,
)
    requires
        s.transfer_checked(signer, from, to, mint, amount) is Ok,
        s.records.contains_key(other),
    ensures
        ({
            let after = s.transfer_checked(signer, from, to, mint, amount)->Ok_0;
            let key = AccountKey { holder: other, asset };
            &&& after.records == s.records
            &&& s.accounts.contains_key(key) ==> after.accounts.contains_key(key)
                && after.accounts[key].amount >= s.accounts[key].amount
        }),
{
}

/// Opening an offer takes nothing from what the address of a record
/// holds, and leaves that record as it is.
pub proof fn lemma_make_spares_records(
    s: State,
    ctx: Make,
    derived: Option<(Address, u8)>,
    seed: u64,
    deposit_amount: u64,
    receive_amount: u64,
    other: Address,
    asset: Address,
)
    requires
        ctx.outcome(s, derived, seed, deposit_amount, receive_amount) is Ok,
        s.records.contains_key(other),
    ensures
        ({
            let after = ctx.outcome(s, derived, seed, deposit_amount, receive_amount)->Ok_0;
            let key = AccountKey { holder: other, asset };
            &&& after.records.contains_key(other)
            &&& after.records[other] == s.records[other]
            &&& s.accounts.contains_key(key) ==> after.accounts.contains_key(key)
                && after.accounts[key].amount >= s.accounts[key].amount
        }),
{
}

/// Fulfilling an offer takes nothing from what the address of another
/// record holds, and leaves that record as it is.
pub proof fn lemma_take_spares_records(
    s: State,
    ctx: Take,
    signed: bool,
    other: Address,
    asset: Address,
)
    requires
        ctx.outcome(s, signed) is Ok,
        s.records.contains_key(other),
        other != ctx.escrow,
    ensures
        ({
            let after = ctx.outcome(s, signed)->Ok_0;
            let key = AccountKey { holder: other, asset };
            &&& after.records.contains_key(other)
            &&& after.records[other] == s.records[other]
            &&& s.accounts.contains_key(key) ==> after.accounts.contains_key(key)
                && after.accounts[key].amount >= s.accounts[key].amount
        }),
{
}

/// Cancelling an offer takes nothing from what the address of another
/// record holds, and leaves that record as it is.
pub proof fn lemma_cancel_spares_records(
    s: State,
    ctx: Cancel,
    signed: bool,
    other: Address,
    asset: Address,
)
    requires
        ctx.outcome(s, signed) is Ok,
        s.records.contains_key(other),
        other != ctx.escrow,
    ensures
        ({
            let after = ctx.outcome(s, signed)->Ok_0;
            let key = AccountKey { holder: other, asset };
            &&& after.records.contains_key(other)
            &&& after.records[other] == s.records[other]
            &&& s.accounts.contains_key(key) ==> after.accounts.contains_key(key)
                && after.accounts[key].amount >= s.accounts[key].amount
        }),
{
}

/// Every operation keeps each record with its custody.
pub proof fn lemma_custody_is_kept(
    s: State,
    make: Make,
    derived: Option<(Address, u8)>,
    seed: u64,
    deposit_amount: u64,
    receive_amount: u64,
    take: Take,
    cancel: Cancel,
    signed: bool,
)
    requires
        s.custodied(),
    ensures
        make.outcome(s, derived, seed, deposit_amount, receive_amount) is Ok ==> make.outcome(
            s,
            derived,
            seed,
            deposit_amount,
            receive_amount,
        )->Ok_0.custodied(),
        take.outcome(s, signed) is Ok ==> take.outcome(s, signed)->Ok_0.custodied(),
        cancel.outcome(s, signed) is Ok ==> cancel.outcome(s, signed)->Ok_0.custodied(),
{
}

/// An offer that the program can act on stays so until it is closed:
/// no operation on another offer changes that.
pub proof fn lemma_authority_is_kept(
    s: State,
    make: Make,
    derived: Option<(Address, u8)>,
    seed: u64,
    deposit_amount: u64,
    receive_amount: u64,
    take: Take,
    cancel: Cancel,
    signed: bool,
    other: Address,
)
    requires
        authorized(s, other),
    ensures
        make.outcome(s, derived, seed, deposit_amount, receive_amount) is Ok ==> authorized(
            make.outcome(s, derived, seed, deposit_amount, receive_amount)->Ok_0,
            other,
        ),
        take.outcome(s, signed) is Ok && other != take.escrow ==> authorized(
            take.outcome(s, signed)->Ok_0,
            other,
        ),
        cancel.outcome(s, signed) is Ok && other != cancel.escrow ==> authorized(
            cancel.outcome(s, signed)->Ok_0,
            other,
        ),
{
    if make.outcome(s, derived, seed, deposit_amount, receive_amount) is Ok {
        lemma_make_spares_records(
            s,
            make,
            derived,
            seed,
            deposit_amount,
            receive_amount,
            other,
            other,
        );
    }
    if take.outcome(s, signed) is Ok && other != take.escrow {
        lemma_take_spares_records(s, take, signed, other, other);
    }
    if cancel.outcome(s, signed) is Ok && other != cancel.escrow {
        lemma_cancel_spares_records(s, cancel, signed, other, other);
    }
}

/// An open offer can be cancelled by its maker for as long as it is
/// open: the cancellation succeeds wherever the program can act as the
/// record's address, the maker signs with a key and names the asset as
/// it is registered, and the maker has, or can pay for, a sub-account to
/// take the deposit back.
pub proof fn lemma_cancel_succeeds(s: State, ctx: Cancel)
    requires
        s.custodied(),
        s.records.contains_key(ctx.escrow),
        s.records[ctx.escrow].escrow.maker == ctx.maker,
        s.records[ctx.escrow].escrow.mint_a == ctx.mint_a.key,
        s.precise(ctx.mint_a),
        s.keyed(ctx.maker),
        s.balance(ctx.maker, ctx.mint_a.key) is Some || s.lamports(ctx.maker) >= s.account_deposit,
    ensures
        ctx.outcome(s, true) is Ok,
{
}

/// An open offer can be fulfilled for as long as it is open: the
/// fulfilment succeeds wherever the program can act as the record's
/// address, the taker signs with a key and names maker and assets as the
/// record and the registry have them, the taker holds what the record
/// asks, and the sub-accounts that receive exist.
pub proof fn lemma_take_succeeds(s: State, ctx: Take)
    requires
        s.custodied(),
        s.records.contains_key(ctx.escrow),
        s.records[ctx.escrow].escrow.maker == ctx.maker,
        s.records[ctx.escrow].escrow.mint_a == ctx.mint_a.key,
        s.records[ctx.escrow].escrow.mint_b == ctx.mint_b.key,
        s.precise(ctx.mint_a),
        s.precise(ctx.mint_b),
        s.keyed(ctx.taker),
        ctx.maker != ctx.escrow,
        held(s, ctx.taker, ctx.mint_b.key) >= s.records[ctx.escrow].escrow.receive_amount,
        s.balance(ctx.taker, ctx.mint_b.key) is Some,
        s.balance(ctx.taker, ctx.mint_a.key) is Some,
        s.balance(ctx.maker, ctx.mint_b.key) is Some,
    ensures
        ctx.outcome(s, true) is Ok,
{
}

/// No operation registers an asset or changes the supply of one.
pub proof fn lemma_assets_are_kept(
    s: State,
    make: Make,
    derived: Option<(Address, u8)>,
    seed: u64,
    deposit_amount: u64,
    receive_amount: u64,
    take: Take,
    cancel: Cancel,
    signed: bool,
)
    ensures
        make.outcome(s, derived, seed, deposit_amount, receive_amount) is Ok ==> make.outcome(
            s,
            derived,
            seed,
            deposit_amount,
            receive_amount,
        )->Ok_0.assets == s.assets,
        take.outcome(s, signed) is Ok ==> take.outcome(s, signed)->Ok_0.assets == s.assets,
        cancel.outcome(s, signed) is Ok ==> cancel.outcome(s, signed)->Ok_0.assets == s.assets,
{
}

} // verus!
