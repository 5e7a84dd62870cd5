//! The ledger on which offers live: assets, sub-accounts, records and
//! native balances, with the steps that the operations are made of.

use crate::address::Address;
use crate::error::EscrowError;
use crate::state::{Escrow, ESCROW_LEN};
use crate::table::{Key, Table};
use vstd::prelude::*;

verus! {

/// An asset as a caller declares it: its identity and the precision
/// that it is said to have.
#[derive(Clone, Copy, Debug, PartialEq, Eq)]
pub struct Mint {
    pub key: Address,
    pub decimals: u8,
}

/// Names a sub-account: whose it is, and of which asset.
#[derive(Clone, Copy, Debug, PartialEq, Eq)]
pub struct AccountKey {
    pub holder: Address,
    pub asset: Address,
}

impl Key for AccountKey {
    fn same(&self, other: &Self) -> (r: bool) {
        self.holder.same(&other.holder) && self.asset.same(&other.asset)
    }
}

/// A registered asset.
pub struct Registered {
    /// Its registered precision.
    pub decimals: u8,
    /// How much of it exists, over all sub-accounts.
    pub supply: nat,
}

/// A sub-account of one asset.
pub struct Account {
    /// How much of the asset it holds.
    pub amount: nat,
    /// The storage deposit paid when it was opened.
    pub deposit: nat,
}

/// A stored record.
pub struct Stored {
    pub escrow: Escrow,
    /// The storage deposit paid when it was created.
    pub deposit: nat,
}

/// What a ledger holds, as mathematics.
pub struct State {
    /// The registered assets.
    pub assets: Map<Address, Registered>,
    /// The sub-accounts.
    pub accounts: Map<AccountKey, Account>,
    /// The records, by their addresses.
    pub records: Map<Address, Stored>,
    /// The native balances.
    pub wallets: Map<Address, nat>,
    /// All native currency that was ever handed out.
    pub issued: nat,
    /// The storage deposit of a record.
    pub record_deposit: nat,
    /// The storage deposit of a sub-account.
    pub account_deposit: nat,
}

impl State {
    /// The native balance of `who`: nothing where `who` has none.
    pub open spec fn lamports(self, who: Address) -> nat {
        if self.wallets.contains_key(who) {
            self.wallets[who]
        } else {
            0
        }
    }

    /// What `holder` has of `asset`, where such a sub-account exists.
    pub open spec fn balance(self, holder: Address, asset: Address) -> Option<nat> {
        let key = AccountKey { holder, asset };
        if self.accounts.contains_key(key) {
            Some(self.accounts[key].amount)
        } else {
            None
        }
    }

    /// The record stored at `address`, if any.
    pub open spec fn record(self, address: Address) -> Option<Escrow> {
        if self.records.contains_key(address) {
            Some(self.records[address].escrow)
        } else {
            None
        }
    }

    /// The asset is registered, with the precision declared.
    pub open spec fn precise(self, mint: Mint) -> bool {
        self.assets.contains_key(mint.key) && self.assets[mint.key].decimals == mint.decimals
    }

    /// Takes `amount` from the native balance of `who`.
    pub open spec fn charge(self, who: Address, amount: nat) -> Result<State, EscrowError> {
        if self.lamports(who) < amount {
            Err(EscrowError::InsufficientFunds)
        } else {
            Ok(
                State {
                    wallets: self.wallets.insert(who, (self.lamports(who) - amount) as nat),
                    ..self
                },
            )
        }
    }

    /// Adds `amount` to the native balance of `who`.
    pub open spec fn refund(self, who: Address, amount: nat) -> State {
        State { wallets: self.wallets.insert(who, self.lamports(who) + amount), ..self }
    }

    /// Opens an empty sub-account, its storage deposit paid by `payer`.
    pub open spec fn open_account(self, payer: Address, key: AccountKey) -> Result<
        State,
        EscrowError,
    > {
        if !self.assets.contains_key(key.asset) {
            Err(EscrowError::AssetMismatch)
        } else if self.accounts.contains_key(key) {
            Err(EscrowError::DuplicateOffer)
        } else {
            match self.charge(payer, self.account_deposit) {
                Err(e) => Err(e),
                Ok(s) => Ok(
                    State {
                        accounts: s.accounts.insert(
                            key,
                            Account { amount: 0, deposit: self.account_deposit },
                        ),
                        ..s
                    },
                ),
            }
        }
    }

    /// Opens the sub-account unless it exists.
    pub open spec fn ensure_account(self, payer: Address, key: AccountKey) -> Result<
        State,
        EscrowError,
    > {
        if self.accounts.contains_key(key) {
            Ok(self)
        } else {
            self.open_account(payer, key)
        }
    }

    /// Stores a record at `address`, its storage deposit paid by `payer`.
    pub open spec fn create_record(self, payer: Address, address: Address, escrow: Escrow) -> Result<
        State,
        EscrowError,
    > {
        if self.records.contains_key(address) {
            Err(EscrowError::DuplicateOffer)
        } else {
            match self.charge(payer, self.record_deposit) {
                Err(e) => Err(e),
                Ok(s) => Ok(
                    State {
                        records: s.records.insert(
                            address,
                            Stored { escrow, deposit: self.record_deposit },
                        ),
                        ..s
                    },
                ),
            }
        }
    }

    /// `who` signs with a key of its own. The address of a record has
    /// no key: only the program acts as that address.
    pub open spec fn keyed(self, who: Address) -> bool {
        !self.records.contains_key(who)
    }

    /// Every record has its custody: the sub-account of its own address
    /// for the asset deposited.
    pub open spec fn custodied(self) -> bool {
        forall|at: Address| #[trigger]
            self.records.contains_key(at) ==> self.accounts.contains_key(
                AccountKey { holder: at, asset: self.records[at].escrow.mint_a },
            )
    }

    /// Moves `amount` of the asset from the sub-account of `from` to
    /// that of `to`. The asset must be registered with the precision
    /// declared, the source must cover the amount, and the target must
    /// exist.
    pub open spec fn transfer(self, from: Address, to: Address, mint: Mint, amount: nat) -> Result<
        State,
        EscrowError,
    > {
        let source = AccountKey { holder: from, asset: mint.key };
        let target = AccountKey { holder: to, asset: mint.key };
        if !self.precise(mint) {
            Err(EscrowError::AssetMismatch)
        } else if !self.accounts.contains_key(source) || self.accounts[source].amount < amount {
            Err(EscrowError::InsufficientFunds)
        } else if !self.accounts.contains_key(target) {
            Err(EscrowError::AssetMismatch)
        } else {
            let left = Account {
                amount: (self.accounts[source].amount - amount) as nat,
                deposit: self.accounts[source].deposit,
            };
            let debited = self.accounts.insert(source, left);
            let more = Account {
                amount: debited[target].amount + amount,
                deposit: debited[target].deposit,
            };
            Ok(State { accounts: debited.insert(target, more), ..self })
        }
    }

    /// A transfer signed with a key: `signer` is the identity for which
    /// it was signed, and must be the holder of the source.
    pub open spec fn transfer_checked(
        self,
        signer: Address,
        from: Address,
        to: Address,
        mint: Mint,
        amount: nat,
    ) -> Result<State, EscrowError> {
        if !self.precise(mint) {
            Err(EscrowError::AssetMismatch)
        } else if signer != from || !self.keyed(signer) {
            Err(EscrowError::Unauthorized)
        } else {
            self.transfer(from, to, mint, amount)
        }
    }

    /// Stores a record at `address` and opens its custody, both paid by
    /// `payer`.
    pub open spec fn open_offer(self, payer: Address, address: Address, escrow: Escrow) -> Result<
        State,
        EscrowError,
    > {
        match self.create_record(payer, address, escrow) {
            Err(e) => Err(e),
            Ok(s) => s.open_account(payer, AccountKey { holder: address, asset: escrow.mint_a }),
        }
    }

    /// Removes the record at `address` and its custody, and hands both
    /// storage deposits to `destination`.
    pub open spec fn close_offer(self, address: Address, destination: Address) -> State
        recommends
            self.records.contains_key(address),
    {
        self.close_account(
            AccountKey { holder: address, asset: self.records[address].escrow.mint_a },
            destination,
        ).close_record(address, destination)
    }

    /// Removes a sub-account and hands its storage deposit to
    /// `destination`.
    pub open spec fn close_account(self, key: AccountKey, destination: Address) -> State
        recommends
            self.accounts.contains_key(key),
            self.accounts[key].amount == 0,
    {
        State { accounts: self.accounts.remove(key), ..self }.refund(
            destination,
            self.accounts[key].deposit,
        )
    }

    /// Removes a record and hands its storage deposit to `destination`.
    pub open spec fn close_record(self, address: Address, destination: Address) -> State
        recommends
            self.records.contains_key(address),
    {
        State { records: self.records.remove(address), ..self }.refund(
            destination,
            self.records[address].deposit,
        )
    }
}

#[derive(Clone, Copy)]
struct Asset {
    decimals: u8,
    supply: u64,
}

#[derive(Clone, Copy)]
struct Holding {
    amount: u64,
    deposit: u64,
}

/// The storage of a record: its persisted form, and the deposit paid.
#[derive(Clone, Copy)]
struct Slot {
    data: [u8; ESCROW_LEN],
    deposit: u64,
    /// The record that `data` is the persisted form of.
    escrow: Ghost<Escrow>,
}

spec fn registered() -> spec_fn(Asset) -> Registered {
    |a: Asset| Registered { decimals: a.decimals, supply: a.supply as nat }
}

spec fn account() -> spec_fn(Holding) -> Account {
    |h: Holding| Account { amount: h.amount as nat, deposit: h.deposit as nat }
}

spec fn stored() -> spec_fn(Slot) -> Stored {
    |s: Slot| Stored { escrow: s.escrow@, deposit: s.deposit as nat }
}

spec fn natural() -> spec_fn(u64) -> nat {
    |v: u64| v as nat
}

spec fn amount_in(asset: Address) -> spec_fn(AccountKey, Holding) -> nat {
    |k: AccountKey, h: Holding|
        if k.asset == asset {
            h.amount as nat
        } else {
            0nat
        }
}

spec fn holding_rent() -> spec_fn(AccountKey, Holding) -> nat {
    |k: AccountKey, h: Holding| h.deposit as nat
}

spec fn record_rent() -> spec_fn(Address, Slot) -> nat {
    |k: Address, s: Slot| s.deposit as nat
}

spec fn wallet_sum() -> spec_fn(Address, u64) -> nat {
    |k: Address, v: u64| v as nat
}

proof fn lemma_insert_values<K, V, W>(m: Map<K, V>, f: spec_fn(V) -> W, k: K, v: V)
    ensures
        m.insert(k, v).map_values(f) == m.map_values(f).insert(k, f(v)),
{
}

proof fn lemma_remove_values<K, V, W>(m: Map<K, V>, f: spec_fn(V) -> W, k: K)
    ensures
        m.remove(k).map_values(f) == m.map_values(f).remove(k),
{
}

/// The persisted form of a record, as it is stored.
fn persist(escrow: &Escrow) -> (data: [u8; ESCROW_LEN])
    ensures
        data@ == escrow.layout(),
{
    let bytes = escrow.try_serialize();
    proof {
        escrow.lemma_layout();
    }
    let mut data = [0u8;ESCROW_LEN];
    let mut i: usize = 0;
    while i < ESCROW_LEN
        invariant
            i <= ESCROW_LEN,
            bytes@.len() == ESCROW_LEN,
            forall|j: int| 0 <= j < i ==> data@[j] == bytes@[j],
        decreases ESCROW_LEN - i,
    {
        data[i] = bytes[i];
        i += 1;
    }
    data
}

/// The native balance of `who` among `wallets`.
spec fn held_by(wallets: Map<Address, u64>, who: Address) -> nat {
    if wallets.contains_key(who) {
        wallets[who] as nat
    } else {
        0
    }
}

fn debit(wallets: &mut Table<Address, u64>, who: &Address, amount: u64) -> (r: bool)
    requires
        old(wallets).wf(),
    ensures
        final(wallets).wf(),
        r == (held_by(old(wallets)@, *who) >= amount),
        r ==> final(wallets)@.map_values(natural()) == old(wallets)@.map_values(natural()).insert(
            *who,
            (held_by(old(wallets)@, *who) - amount) as nat,
        ),
        r ==> final(wallets).total(wallet_sum()) == old(wallets).total(wallet_sum()) - amount,
        !r ==> *final(wallets) == *old(wallets),
{
    let had = match wallets.get(who) {
        Some(v) => v,
        None => 0,
    };
    if had < amount {
        return false;
    }
    proof {
        lemma_insert_values(wallets@, natural(), *who, (had - amount) as u64);
    }
    wallets.put(*who, had - amount);
    true
}

fn credit(wallets: &mut Table<Address, u64>, who: &Address, amount: u64)
    requires
        old(wallets).wf(),
        old(wallets).total(wallet_sum()) + amount <= u64::MAX,
    ensures
        final(wallets).wf(),
        final(wallets)@.map_values(natural()) == old(wallets)@.map_values(natural()).insert(
            *who,
            (held_by(old(wallets)@, *who) + amount) as nat,
        ),
        final(wallets).total(wallet_sum()) == old(wallets).total(wallet_sum()) + amount,
{
    let had = match wallets.get(who) {
        Some(v) => {
            proof {
                wallets.lemma_total_ge(wallet_sum(), *who);
            }
            v
        },
        None => 0,
    };
    proof {
        lemma_insert_values(wallets@, natural(), *who, (had + amount) as u64);
    }
    wallets.put(*who, had + amount);
}

/// The accounts that the operations work on: the registered assets,
/// the sub-accounts that hold them, the records, and the native
/// balances from which storage deposits are paid.
pub struct Ledger {
    assets: Table<Address, Asset>,
    holdings: Table<AccountKey, Holding>,
    records: Table<Address, Slot>,
    wallets: Table<Address, u64>,
    issued: u64,
    record_deposit: u64,
    account_deposit: u64,
}

impl View for Ledger {
    type V = State;

    closed spec fn view(&self) -> State {
        State {
            assets: self.assets@.map_values(registered()),
            accounts: self.holdings@.map_values(account()),
            records: self.records@.map_values(stored()),
            wallets: self.wallets@.map_values(natural()),
            issued: self.issued as nat,
            record_deposit: self.record_deposit as nat,
            account_deposit: self.account_deposit as nat,
        }
    }
}

impl Ledger {
    spec fn tables_wf(&self) -> bool {
        &&& self.assets.wf()
        &&& self.holdings.wf()
        &&& self.records.wf()
        &&& self.wallets.wf()
    }

    /// All native currency on the ledger: balances and storage deposits.
    spec fn native(&self) -> nat {
        self.wallets.total(wallet_sum()) + self.holdings.total(holding_rent())
            + self.records.total(record_rent())
    }

    /// What is stored for a record is its persisted form.
    spec fn persisted(&self) -> bool {
        forall|at: Address| #[trigger]
            self.records@.contains_key(at) ==> self.records@[at].data@
                == self.records@[at].escrow@.layout()
    }

    /// How much of `asset` the sub-accounts hold together.
    spec fn held(&self, asset: Address) -> nat {
        self.holdings.total(amount_in(asset))
    }

    spec fn supplied(&self, asset: Address) -> nat {
        if self.assets@.contains_key(asset) {
            self.assets@[asset].supply as nat
        } else {
            0
        }
    }

    /// The ledger's invariant: what the sub-accounts hold of an asset is
    /// its supply, the native balances and storage deposits add up to
    /// what was handed out, every record has its custody, and every
    /// record is stored in its persisted form.
    pub closed spec fn wf(&self) -> bool {
        &&& self.tables_wf()
        &&& forall|a: Address| #[trigger] self.held(a) == self.supplied(a)
        &&& self.native() == self.issued
        &&& self@.custodied()
        &&& self.persisted()
    }

    /// On every ledger, no sub-account holds more of an asset than was
    /// brought into being, and nobody more native currency than was
    /// handed out.
    pub proof fn lemma_within_supply(&self, holder: Address, asset: Address)
        requires
            self.wf(),
        ensures
            self@.balance(holder, asset) matches Some(amount) ==> amount <= (
            if self@.assets.contains_key(asset) {
                self@.assets[asset].supply
            } else {
                0
            }),
            self@.assets.contains_key(asset) ==> self@.assets[asset].supply <= u64::MAX,
            self@.lamports(holder) <= self@.issued <= u64::MAX,
    {
        let key = AccountKey { holder, asset };
        assert(self.held(asset) == self.supplied(asset));
        if self.holdings@.contains_key(key) {
            self.holdings.lemma_total_ge(amount_in(asset), key);
        }
        if self.wallets@.contains_key(holder) {
            self.wallets.lemma_total_ge(wallet_sum(), holder);
        }
    }

    /// On every ledger, each record has its custody.
    pub proof fn lemma_records_have_custody(&self)
        requires
            self.wf(),
        ensures
            self@.custodied(),
    {
    }

    /// An empty ledger that asks the given storage deposits.
    pub fn new(record_deposit: u64, account_deposit: u64) -> (l: Ledger)
        ensures
            l.wf(),
            l@ == (State {
                assets: Map::empty(),
                accounts: Map::empty(),
                records: Map::empty(),
                wallets: Map::empty(),
                issued: 0,
                record_deposit: record_deposit as nat,
                account_deposit: account_deposit as nat,
            }),
    {
        let l = Ledger {
            assets: Table::new(),
            holdings: Table::new(),
            records: Table::new(),
            wallets: Table::new(),
            issued: 0,
            record_deposit,
            account_deposit,
        };
        proof {
            assert(l@.assets =~= Map::empty());
            assert(l@.accounts =~= Map::empty());
            assert(l@.records =~= Map::empty());
            assert(l@.wallets =~= Map::empty());
        }
        l
    }

    /// A copy of the ledger.
    pub fn snapshot(&self) -> (l: Ledger)
        ensures
            l@ == self@,
            l.wf() == self.wf(),
    {
        let l = Ledger {
            assets: self.assets.snapshot(),
            holdings: self.holdings.snapshot(),
            records: self.records.snapshot(),
            wallets: self.wallets.snapshot(),
            issued: self.issued,
            record_deposit: self.record_deposit,
            account_deposit: self.account_deposit,
        };
        assert(forall|a: Address| l.held(a) == self.held(a));
        l
    }

    /// The native balance of `who`.
    pub fn lamports(&self, who: &Address) -> (r: u64)
        requires
            self.wf(),
        ensures
            r == self@.lamports(*who),
    {
        match self.wallets.get(who) {
            Some(v) => v,
            None => 0,
        }
    }

    /// What `holder` has of `asset`, where such a sub-account exists.
    pub fn balance(&self, holder: &Address, asset: &Address) -> (r: Option<u64>)
        requires
            self.wf(),
        ensures
            match r {
                Some(amount) => self@.balance(*holder, *asset) == Some(amount as nat),
                None => self@.balance(*holder, *asset) is None,
            },
    {
        match self.holdings.get(&AccountKey { holder: *holder, asset: *asset }) {
            Some(h) => Some(h.amount),
            None => None,
        }
    }

    /// The record stored at `address`, if any, read from its persisted
    /// form.
    pub fn record(&self, address: &Address) -> (r: Option<Escrow>)
        requires
            self.wf(),
        ensures
            r == self@.record(*address),
    {
        match self.records.get(address) {
            Some(slot) => {
                proof {
                    slot.escrow@.lemma_round_trip(slot.escrow@);
                }
                let read = Escrow::try_deserialize(slot.data.as_slice());
                proof {
                    if let Some(e) = read {
                        slot.escrow@.lemma_round_trip(e);
                    }
                }
                read
            },
            None => None,
        }
    }

    /// What is stored at `address`: a record in its persisted form.
    pub fn data(&self, address: &Address) -> (r: Option<Vec<u8>>)
        requires
            self.wf(),
        ensures
            match r {
                Some(data) => self@.record(*address) matches Some(e) && data@ == e.layout(),
                None => self@.record(*address) is None,
            },
    {
        match self.records.get(address) {
            Some(slot) => {
                let mut data: Vec<u8> = Vec::new();
                let mut i: usize = 0;
                while i < ESCROW_LEN
                    invariant
                        i <= ESCROW_LEN,
                        data@ == slot.data@.subrange(0, i as int),
                    decreases ESCROW_LEN - i,
                {
                    data.push(slot.data[i]);
                    i += 1;
                }
                Some(data)
            },
            None => None,
        }
    }

    /// Whether `who` signs with a key of its own.
    pub fn keyed(&self, who: &Address) -> (r: bool)
        requires
            self.wf(),
        ensures
            r == self@.keyed(*who),
    {
        self.records.get(who).is_none()
    }

    /// Whether the asset is registered with the precision declared.
    pub fn precise(&self, mint: &Mint) -> (r: bool)
        requires
            self.wf(),
        ensures
            r == self@.precise(*mint),
    {
        match self.assets.get(&mint.key) {
            Some(a) => a.decimals == mint.decimals,
            None => false,
        }
    }

    /// Hands out `lamports` of native currency to `to`, unless that
    /// would bring what was handed out past the largest amount.
    pub fn airdrop(&mut self, to: &Address, lamports: u64) -> (r: bool)
        requires
            old(self).wf(),
        ensures
            final(self).wf(),
            r == (old(self)@.issued + lamports <= u64::MAX),
            r ==> final(self)@ == (State {
                issued: (old(self)@.issued + lamports) as nat,
                ..old(self)@.refund(*to, lamports as nat)
            }),
            !r ==> final(self)@ == old(self)@,
    {
        if lamports > u64::MAX - self.issued {
            return false;
        }
        credit(&mut self.wallets, to, lamports);
        self.issued = self.issued + lamports;
        proof {
            assert forall|a: Address| #[trigger] self.held(a) == self.supplied(a) by {
                assert(old(self).held(a) == old(self).supplied(a));
            }
            assert(self@.custodied()) by {
                assert forall|at: Address| #[trigger]
                    self@.records.contains_key(at) implies self@.accounts.contains_key(
                    AccountKey { holder: at, asset: self@.records[at].escrow.mint_a },
                ) by {
                    assert(old(self)@.records.contains_key(at));
                }
            }
        }
        true
    }

    /// Registers an asset with its precision, unless it is registered.
    pub fn register_asset(&mut self, mint: &Mint) -> (r: bool)
        requires
            old(self).wf(),
        ensures
            final(self).wf(),
            r == !old(self)@.assets.contains_key(mint.key),
            r ==> final(self)@ == (State {
                assets: old(self)@.assets.insert(
                    mint.key,
                    Registered { decimals: mint.decimals, supply: 0 },
                ),
                ..old(self)@
            }),
            !r ==> final(self)@ == old(self)@,
    {
        if self.assets.get(&mint.key).is_some() {
            return false;
        }
        let fresh = Asset { decimals: mint.decimals, supply: 0 };
        proof {
            lemma_insert_values(self.assets@, registered(), mint.key, fresh);
        }
        self.assets.put(mint.key, fresh);
        proof {
            assert forall|a: Address| #[trigger] self.held(a) == self.supplied(a) by {
                assert(old(self).held(a) == old(self).supplied(a));
            }
            assert(self@.custodied()) by {
                assert forall|at: Address| #[trigger]
                    self@.records.contains_key(at) implies self@.accounts.contains_key(
                    AccountKey { holder: at, asset: self@.records[at].escrow.mint_a },
                ) by {
                    assert(old(self)@.records.contains_key(at));
                }
            }
        }
        true
    }

    /// Opens an empty sub-account of `asset` for `holder`; `payer` pays
    /// its storage deposit.
    pub fn open_account(&mut self, payer: &Address, holder: &Address, asset: &Address) -> (r:
        Result<(), EscrowError>)
        requires
            old(self).wf(),
        ensures
            final(self).wf(),
            match old(self)@.open_account(*payer, AccountKey { holder: *holder, asset: *asset }) {
                Ok(s) => r is Ok && final(self)@ == s,
                Err(e) => r == Err::<(), EscrowError>(e) && final(self)@ == old(self)@,
            },
    {
        let key = AccountKey { holder: *holder, asset: *asset };
        if self.assets.get(asset).is_none() {
            return Err(EscrowError::AssetMismatch);
        }
        if self.holdings.get(&key).is_some() {
            return Err(EscrowError::DuplicateOffer);
        }
        if !debit(&mut self.wallets, payer, self.account_deposit) {
            return Err(EscrowError::InsufficientFunds);
        }
        let fresh = Holding { amount: 0, deposit: self.account_deposit };
        proof {
            lemma_insert_values(self.holdings@, account(), key, fresh);
        }
        self.holdings.put(key, fresh);
        proof {
            assert forall|a: Address| #[trigger] self.held(a) == self.supplied(a) by {
                assert(old(self).held(a) == old(self).supplied(a));
            }
        }
        Ok(())
    }

    /// Opens the sub-account unless it exists.
    pub fn ensure_account(&mut self, payer: &Address, holder: &Address, asset: &Address) -> (r:
        Result<(), EscrowError>)
        requires
            old(self).wf(),
        ensures
            final(self).wf(),
            match old(self)@.ensure_account(*payer, AccountKey { holder: *holder, asset: *asset }) {
                Ok(s) => r is Ok && final(self)@ == s,
                Err(e) => r == Err::<(), EscrowError>(e) && final(self)@ == old(self)@,
            },
    {
        if self.holdings.get(&AccountKey { holder: *holder, asset: *asset }).is_some() {
            return Ok(());
        }
        self.open_account(payer, holder, asset)
    }

    /// Brings `amount` of a registered asset into being, in the
    /// sub-account of `holder`. Nothing happens where there is no such
    /// sub-account or asset, or the supply would pass the largest amount.
    pub fn mint_to(&mut self, holder: &Address, asset: &Address, amount: u64) -> (r: bool)
        requires
            old(self).wf(),
        ensures
            final(self).wf(),
            r == (old(self)@.assets.contains_key(*asset) && old(self)@.accounts.contains_key(
                AccountKey { holder: *holder, asset: *asset },
            ) && old(self)@.assets[*asset].supply + amount <= u64::MAX),
            r ==> final(self)@ == ({
                let key = AccountKey { holder: *holder, asset: *asset };
                let had = old(self)@.accounts[key];
                let was = old(self)@.assets[*asset];
                State {
                    assets: old(self)@.assets.insert(
                        *asset,
                        Registered { decimals: was.decimals, supply: (was.supply + amount) as nat },
                    ),
                    accounts: old(self)@.accounts.insert(
                        key,
                        Account { amount: (had.amount + amount) as nat, deposit: had.deposit },
                    ),
                    ..old(self)@
                }
            }),
            !r ==> final(self)@ == old(self)@,
    {
        let key = AccountKey { holder: *holder, asset: *asset };
        let was = match self.assets.get(asset) {
            Some(a) => a,
            None => {
                return false;
            },
        };
        let had = match self.holdings.get(&key) {
            Some(h) => h,
            None => {
                return false;
            },
        };
        if amount > u64::MAX - was.supply {
            return false;
        }
        proof {
            assert(self.held(*asset) == self.supplied(*asset));
            self.holdings.lemma_total_ge(amount_in(*asset), key);
        }
        let grown = Asset { decimals: was.decimals, supply: was.supply + amount };
        let more = Holding { amount: had.amount + amount, deposit: had.deposit };
        proof {
            lemma_insert_values(self.assets@, registered(), *asset, grown);
            lemma_insert_values(self.holdings@, account(), key, more);
        }
        self.assets.put(*asset, grown);
        self.holdings.put(key, more);
        proof {
            assert forall|a: Address| #[trigger] self.held(a) == self.supplied(a) by {
                assert(old(self).held(a) == old(self).supplied(a));
            }
            assert(self@.custodied()) by {
                assert forall|at: Address| #[trigger]
                    self@.records.contains_key(at) implies self@.accounts.contains_key(
                    AccountKey { holder: at, asset: self@.records[at].escrow.mint_a },
                ) by {
                    assert(old(self)@.records.contains_key(at));
                }
            }
        }
        true
    }

    /// Moves `amount` of an asset from one sub-account to another, as
    /// `State::transfer` says; a rejected transfer changes nothing.
    pub(crate) fn transfer(&mut self, from: &Address, to: &Address, mint: &Mint, amount: u64) -> (r:
        Result<(), EscrowError>)
        requires
            old(self).wf(),
        ensures
            final(self).wf(),
            match old(self)@.transfer(*from, *to, *mint, amount as nat) {
                Ok(s) => r is Ok && final(self)@ == s,
                Err(e) => r == Err::<(), EscrowError>(e) && final(self)@ == old(self)@,
            },
    {
        let source = AccountKey { holder: *from, asset: mint.key };
        let target = AccountKey { holder: *to, asset: mint.key };
        if !self.precise(mint) {
            return Err(EscrowError::AssetMismatch);
        }
        let had = match self.holdings.get(&source) {
            Some(h) => h,
            None => {
                return Err(EscrowError::InsufficientFunds);
            },
        };
        if had.amount < amount {
            return Err(EscrowError::InsufficientFunds);
        }
        if self.holdings.get(&target).is_none() {
            return Err(EscrowError::AssetMismatch);
        }
        let left = Holding { amount: had.amount - amount, deposit: had.deposit };
        proof {
            assert(self.held(mint.key) == self.supplied(mint.key));
            lemma_insert_values(self.holdings@, account(), source, left);
        }
        self.holdings.put(source, left);
        let there = match self.holdings.get(&target) {
            Some(h) => h,
            None => had,
        };
        proof {
            self.holdings.lemma_total_ge(amount_in(mint.key), target);
        }
        let more = Holding { amount: there.amount + amount, deposit: there.deposit };
        proof {
            lemma_insert_values(self.holdings@, account(), target, more);
        }
        self.holdings.put(target, more);
        proof {
            assert forall|a: Address| #[trigger] self.held(a) == self.supplied(a) by {
                assert(old(self).held(a) == old(self).supplied(a));
            }
        }
        Ok(())
    }

    /// A transfer signed with a key, as `State::transfer_checked` says;
    /// a rejected transfer changes nothing.
    pub fn transfer_checked(
        &mut self,
        signer: &Address,
        from: &Address,
        to: &Address,
        mint: &Mint,
        amount: u64,
    ) -> (r: Result<(), EscrowError>)
        requires
            old(self).wf(),
        ensures
            final(self).wf(),
            match old(self)@.transfer_checked(*signer, *from, *to, *mint, amount as nat) {
                Ok(s) => r is Ok && final(self)@ == s,
                Err(e) => r == Err::<(), EscrowError>(e) && final(self)@ == old(self)@,
            },
    {
        if !self.precise(mint) {
            return Err(EscrowError::AssetMismatch);
        }
        if !signer.same(from) || self.records.get(signer).is_some() {
            return Err(EscrowError::Unauthorized);
        }
        self.transfer(from, to, mint, amount)
    }

    /// Stores a record at `address` and opens its custody; `payer` pays
    /// both storage deposits.
    pub(crate) fn open_offer(&mut self, payer: &Address, address: &Address, escrow: &Escrow) -> (r:
        Result<(), EscrowError>)
        requires
            old(self).wf(),
        ensures
            final(self).wf(),
            match old(self)@.open_offer(*payer, *address, *escrow) {
                Ok(s) => r is Ok && final(self)@ == s,
                Err(e) => r == Err::<(), EscrowError>(e) && final(self)@ == old(self)@,
            },
    {
        let custody = AccountKey { holder: *address, asset: escrow.mint_a };
        if self.records.get(address).is_some() {
            return Err(EscrowError::DuplicateOffer);
        }
        let funds = self.lamports(payer);
        if funds < self.record_deposit {
            return Err(EscrowError::InsufficientFunds);
        }
        if self.assets.get(&escrow.mint_a).is_none() {
            return Err(EscrowError::AssetMismatch);
        }
        if self.holdings.get(&custody).is_some() {
            return Err(EscrowError::DuplicateOffer);
        }
        if funds - self.record_deposit < self.account_deposit {
            return Err(EscrowError::InsufficientFunds);
        }
        debit(&mut self.wallets, payer, self.record_deposit);
        let slot = Slot {
            data: persist(escrow),
            deposit: self.record_deposit,
            escrow: Ghost(*escrow),
        };
        proof {
            lemma_insert_values(self.records@, stored(), *address, slot);
        }
        self.records.put(*address, slot);
        debit(&mut self.wallets, payer, self.account_deposit);
        let fresh = Holding { amount: 0, deposit: self.account_deposit };
        proof {
            lemma_insert_values(self.holdings@, account(), custody, fresh);
        }
        self.holdings.put(custody, fresh);
        proof {
            assert forall|a: Address| #[trigger] self.held(a) == self.supplied(a) by {
                assert(old(self).held(a) == old(self).supplied(a));
            }
        }
        Ok(())
    }

    /// Removes the record at `address` and its emptied custody, and
    /// hands both storage deposits to `destination`.
    pub(crate) fn close_offer(&mut self, address: &Address, destination: &Address)
        requires
            old(self).wf(),
            old(self)@.records.contains_key(*address),
            old(self)@.accounts[AccountKey {
                holder: *address,
                asset: old(self)@.records[*address].escrow.mint_a,
            }].amount == 0,
        ensures
            final(self).wf(),
            final(self)@ == old(self)@.close_offer(*address, *destination),
    {
        let escrow = match self.record(address) {
            Some(escrow) => escrow,
            None => {
                return ;
            },
        };
        let custody = AccountKey { holder: *address, asset: escrow.mint_a };
        proof {
            lemma_remove_values(self.holdings@, account(), custody);
        }
        match self.holdings.remove(&custody) {
            Some(h) => {
                proof {
                    assert(self.holdings.total(holding_rent()) == old(self).holdings.total(
                        holding_rent(),
                    ) - h.deposit);
                }
                credit(&mut self.wallets, destination, h.deposit);
            },
            None => {},
        }
        proof {
            lemma_remove_values(self.records@, stored(), *address);
        }
        match self.records.remove(address) {
            Some(s) => {
                proof {
                    assert(self.records.total(record_rent()) == old(self).records.total(
                        record_rent(),
                    ) - s.deposit);
                }
                credit(&mut self.wallets, destination, s.deposit);
            },
            None => {},
        }
        proof {
            assert forall|a: Address| #[trigger] self.held(a) == self.supplied(a) by {
                assert(old(self).held(a) == old(self).supplied(a));
            }
        }
    }
}

} // verus!
