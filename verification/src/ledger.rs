//! The ledger: liquid balances of identities, asset-holding accounts, and the
//! open escrows with the vaults that back them.
//!
//! [`LedgerView`] is the mathematical state and says what each movement of
//! funds does to it; [`Ledger`] is the executable state, whose operations are
//! proved to do exactly that.

use crate::address::Address;
use crate::error::EscrowError;
use crate::state::EscrowState;
use crate::table::{lemma_entry, place, Table};
use vstd::prelude::*;

verus! {

/// A holding account: an amount of one asset, owned by one identity.
#[derive(Clone, Copy, Debug, PartialEq, Eq)]
pub struct TokenAccount {
    /// The asset that the account holds.
    pub mint: Address,
    /// The identity whose authorization moves funds out of the account.
    pub owner: Address,
    /// The amount held.
    pub amount: u64,
}

/// The key of a record: the ledger keeps at most one record per initializer
/// and seed.
#[derive(Clone, Copy, Debug, PartialEq, Eq, Hash)]
pub struct EscrowKey {
    pub initializer: Address,
    pub random_seed: u64,
}

impl EscrowKey {
    /// Whether `self` and `other` are the same key.
    pub fn equals(&self, other: &EscrowKey) -> (same: bool)
        ensures
            same == (*self == *other),
    {
        self.random_seed == other.random_seed && self.initializer.equals(&other.initializer)
    }
}

/// An open escrow as the ledger holds it: the record, and the vault in which
/// the deposit is kept.
#[derive(Clone, Copy, Debug, PartialEq, Eq)]
pub struct Escrow {
    pub state: EscrowState,
    pub vault: Address,
}

/// The accounts of a transfer between two holding accounts of one asset.
#[derive(Clone, Copy, Debug, PartialEq, Eq)]
pub struct TransferChecked {
    /// The account that pays.
    pub from: Address,
    /// The asset that moves.
    pub mint: Address,
    /// The account that receives.
    pub to: Address,
    /// The identity that authorizes the payment: the owner of `from`.
    pub authority: Address,
}

/// The accounts of the closing of a holding account.
#[derive(Clone, Copy, Debug, PartialEq, Eq)]
pub struct CloseAccount {
    /// The account to close.
    pub account: Address,
    /// The identity to which the ledger returns what it charged for the
    /// account's storage. Storage charges are the ledger's own business and
    /// are not part of this model.
    pub destination: Address,
    /// The identity that authorizes the closing: the owner of `account`.
    pub authority: Address,
}

/// How a movement of funds out of an account is authorized.
#[derive(Clone, Copy, Debug, PartialEq, Eq)]
pub enum Authorization {
    /// By the signature of the identity that signed the call.
    Signature(Address),
    /// By the derived signature of the vault authority: the ledger has
    /// derived this address from the fixed label and the parameter on record.
    Derived(Address),
}

/// The state of the ledger as a mathematical value.
#[verifier::ext_equal]
pub struct LedgerView {
    /// The deployment whose vault authority guards the vaults.
    pub program_id: Address,
    /// The liquid balance of each identity that has one.
    pub wallets: Map<Address, u64>,
    /// The holding accounts, vaults among them, by address.
    pub tokens: Map<Address, TokenAccount>,
    /// The open escrows.
    pub escrows: Map<EscrowKey, Escrow>,
    /// The addresses of the vaults of the open escrows.
    pub vaults: Set<Address>,
}

/// Whether `account` is the vault of one of `escrows`.
pub open spec fn backs(escrows: Map<EscrowKey, Escrow>, account: Address) -> bool {
    exists|k: EscrowKey| #[trigger] escrows.contains_key(k) && escrows[k].vault == account
}

impl LedgerView {
    /// The liquid balance of `who`: zero for an identity without one.
    pub open spec fn lamports(self, who: Address) -> u64 {
        if self.wallets.contains_key(who) {
            self.wallets[who]
        } else {
            0
        }
    }

    /// The amount held in `account`: zero where there is no such account.
    pub open spec fn balance(self, account: Address) -> u64 {
        if self.tokens.contains_key(account) {
            self.tokens[account].amount
        } else {
            0
        }
    }

    /// Whether `account` exists and belongs to `who`.
    pub open spec fn owns(self, who: Address, account: Address) -> bool {
        self.tokens.contains_key(account) && self.tokens[account].owner == who
    }

    /// Whether `account` is the vault of an open escrow.
    pub open spec fn is_vault(self, account: Address) -> bool {
        self.vaults.contains(account)
    }

    /// Whether the ledger takes `authority` to have authorized a movement out
    /// of `account`. The signature of the caller authorizes for the caller
    /// alone and never moves a vault; a vault moves only under the derived
    /// signature of `authority`.
    pub open spec fn signed(self, account: Address, authority: Address, by: Authorization) -> bool {
        match by {
            Authorization::Signature(signer) => signer == authority && !self.is_vault(account),
            Authorization::Derived(derived) => derived == authority && self.is_vault(account),
        }
    }

    /// What a transfer of `amount` does: `ctx.from` is debited and `ctx.to`
    /// credited, or the transfer is refused with no effect. It is refused
    /// with `AuthorizationFailure` unless `ctx.from` exists, belongs to
    /// `ctx.authority` and the movement is authorized; else with
    /// `AccountMismatch` unless `ctx.to` exists, is no vault (a vault holds
    /// the deposit and nothing else) and both accounts hold the asset
    /// `ctx.mint`; else with `InsufficientBalance` where `ctx.from` holds less
    /// than `amount`; else with `BalanceOverflow` where `ctx.to` has no room.
    pub open spec fn transfer_checked(
        self,
        ctx: TransferChecked,
        amount: u64,
        by: Authorization,
    ) -> Result<LedgerView, EscrowError> {
        if !self.owns(ctx.authority, ctx.from) || !self.signed(
            ctx.from,
            ctx.authority,
            by,
        ) {
            Err(EscrowError::AuthorizationFailure)
        } else if !self.tokens.contains_key(ctx.to) || self.is_vault(ctx.to)
            || self.tokens[ctx.from].mint != ctx.mint || self.tokens[ctx.to].mint != ctx.mint {
            Err(EscrowError::AccountMismatch)
        } else if self.tokens[ctx.from].amount < amount {
            Err(EscrowError::InsufficientBalance)
        } else if ctx.from != ctx.to && self.tokens[ctx.to].amount + amount > u64::MAX {
            Err(EscrowError::BalanceOverflow)
        } else {
            let from = self.tokens[ctx.from];
            let debited = self.tokens.insert(
                ctx.from,
                TokenAccount { amount: (from.amount - amount) as u64, ..from },
            );
            let to = debited[ctx.to];
            Ok(
                LedgerView {
                    tokens: debited.insert(
                        ctx.to,
                        TokenAccount { amount: (to.amount + amount) as u64, ..to },
                    ),
                    ..self
                },
            )
        }
    }

    /// What the closing of an account does: the account is gone, or the
    /// closing is refused with no effect. It is refused with
    /// `AuthorizationFailure` unless `ctx.account` exists, belongs to
    /// `ctx.authority` and the closing is authorized; else with
    /// `AccountMismatch` where the account still holds funds.
    pub open spec fn close_account(self, ctx: CloseAccount, by: Authorization) -> Result<
        LedgerView,
        EscrowError,
    > {
        if !self.owns(ctx.authority, ctx.account) || !self.signed(
            ctx.account,
            ctx.authority,
            by,
        ) {
            Err(EscrowError::AuthorizationFailure)
        } else if self.tokens[ctx.account].amount != 0 {
            Err(EscrowError::AccountMismatch)
        } else {
            Ok(LedgerView { tokens: self.tokens.remove(ctx.account), ..self })
        }
    }

    /// What a transfer of liquid balance does: `from` is debited and `to`
    /// credited, or the transfer is refused with no effect. It is refused
    /// with `AuthorizationFailure` unless `from` signed the call; else with
    /// `InsufficientBalance` where `from` holds less than `lamports`; else
    /// with `BalanceOverflow` where `to` has no room.
    pub open spec fn transfer(self, from: Address, to: Address, lamports: u64, signer: Address) -> Result<
        LedgerView,
        EscrowError,
    > {
        if signer != from {
            Err(EscrowError::AuthorizationFailure)
        } else if self.lamports(from) < lamports {
            Err(EscrowError::InsufficientBalance)
        } else if from != to && self.lamports(to) + lamports > u64::MAX {
            Err(EscrowError::BalanceOverflow)
        } else {
            let debited = LedgerView {
                wallets: self.wallets.insert(from, (self.lamports(from) - lamports) as u64),
                ..self
            };
            Ok(
                LedgerView {
                    wallets: debited.wallets.insert(to, (debited.lamports(to) + lamports) as u64),
                    ..self
                },
            )
        }
    }

    /// The ledger with a new, empty holding account at `address`.
    pub open spec fn with_account(self, address: Address, mint: Address, owner: Address) -> LedgerView {
        LedgerView {
            tokens: self.tokens.insert(address, TokenAccount { mint, owner, amount: 0 }),
            ..self
        }
    }

    /// The ledger with `escrow` recorded under `key`, and its vault among the
    /// vaults.
    pub open spec fn with_escrow(self, key: EscrowKey, escrow: Escrow) -> LedgerView {
        LedgerView {
            escrows: self.escrows.insert(key, escrow),
            vaults: self.vaults.insert(escrow.vault),
            ..self
        }
    }

    /// The ledger without the record under `key`, and without its vault among
    /// the vaults.
    pub open spec fn without_escrow(self, key: EscrowKey) -> LedgerView {
        LedgerView {
            escrows: self.escrows.remove(key),
            vaults: self.vaults.remove(self.escrows[key].vault),
            ..self
        }
    }

    /// What taking an open escrow over from storage does: the record `state`
    /// is entered with `vault` as its vault, or it is refused with no effect:
    /// with `DuplicateRecord` where its key is taken, else with
    /// `AccountMismatch` unless `vault` is an account that holds exactly the
    /// deposit, in the deposited asset, and backs no other escrow.
    pub open spec fn load_escrow(self, state: EscrowState, vault: Address) -> Result<
        LedgerView,
        EscrowError,
    > {
        let key = EscrowKey { initializer: state.initializer_key, random_seed: state.random_seed };
        if self.escrows.contains_key(key) {
            Err(EscrowError::DuplicateRecord)
        } else if !self.tokens.contains_key(vault) || self.is_vault(vault)
            || self.tokens[vault].amount != state.initializer_amount || self.tokens[vault].mint
            != state.initializer_deposit_mint_account {
            Err(EscrowError::AccountMismatch)
        } else {
            Ok(self.with_escrow(key, Escrow { state, vault }))
        }
    }

    /// Whether no vault backs two escrows.
    pub open spec fn vaults_apart(self) -> bool {
        forall|k1: EscrowKey, k2: EscrowKey|
            #![trigger self.escrows.contains_key(k1), self.escrows.contains_key(k2)]
            self.escrows.contains_key(k1) && self.escrows.contains_key(k2) && k1 != k2
                ==> self.escrows[k1].vault != self.escrows[k2].vault
    }

    /// Whether the vaults are the vaults of the open escrows and no others.
    pub open spec fn vaults_listed(self) -> bool {
        forall|a: Address| #[trigger] self.vaults.contains(a) <==> backs(self.escrows, a)
    }

    /// Custody: every open escrow is stored under its own initializer and
    /// seed; its vault exists and holds exactly the deposited amount of the
    /// deposited asset; no vault backs two escrows; and the vaults are the
    /// vaults of the open escrows and no others.
    pub open spec fn custody(self) -> bool {
        &&& forall|k: EscrowKey| #[trigger]
            self.escrows.contains_key(k) ==> {
                let e = self.escrows[k];
                &&& e.state.initializer_key == k.initializer
                &&& e.state.random_seed == k.random_seed
                &&& self.tokens.contains_key(e.vault)
                &&& self.tokens[e.vault].amount == e.state.initializer_amount
                &&& self.tokens[e.vault].mint == e.state.initializer_deposit_mint_account
            }
        &&& self.vaults_apart()
        &&& self.vaults_listed()
    }
}

impl LedgerView {
    /// Custody outlasts any change that opens no escrow and leaves the
    /// remaining records and their vaults as they were.
    pub proof fn lemma_custody_frame(self, next: LedgerView)
        requires
            self.custody(),
            next.program_id == self.program_id,
            next.vaults_listed(),
            forall|k: EscrowKey| #[trigger]
                next.escrows.contains_key(k) ==> {
                    &&& self.escrows.contains_key(k)
                    &&& next.escrows[k] == self.escrows[k]
                    &&& next.tokens.contains_key(self.escrows[k].vault)
                    &&& next.tokens[self.escrows[k].vault] == self.tokens[self.escrows[k].vault]
                },
        ensures
            next.custody(),
    {
    }

    /// Recording an escrow under an unused key adds its vault to the vaults
    /// of the open escrows, and nothing else.
    pub proof fn lemma_with_escrow_listed(self, key: EscrowKey, escrow: Escrow)
        requires
            self.vaults_listed(),
            !self.escrows.contains_key(key),
        ensures
            self.with_escrow(key, escrow).vaults_listed(),
    {
        let next = self.with_escrow(key, escrow);
        assert forall|a: Address| #[trigger] next.vaults.contains(a) <==> backs(
            next.escrows,
            a,
        ) by {
            if backs(next.escrows, a) {
                let k = choose|k: EscrowKey| #[trigger]
                    next.escrows.contains_key(k) && next.escrows[k].vault == a;
                if k != key {
                    assert(self.escrows.contains_key(k));
                }
            }
            if backs(self.escrows, a) {
                let k = choose|k: EscrowKey| #[trigger]
                    self.escrows.contains_key(k) && self.escrows[k].vault == a;
                assert(next.escrows.contains_key(k));
            }
            if a == escrow.vault {
                assert(next.escrows.contains_key(key));
            }
        }
    }

    /// Destroying a record takes its vault, which backs no other escrow, from
    /// the vaults of the open escrows, and nothing else.
    pub proof fn lemma_without_escrow_listed(self, key: EscrowKey)
        requires
            self.vaults_listed(),
            self.vaults_apart(),
            self.escrows.contains_key(key),
        ensures
            self.without_escrow(key).vaults_listed(),
    {
        let next = self.without_escrow(key);
        let gone = self.escrows[key].vault;
        assert forall|a: Address| #[trigger] next.vaults.contains(a) <==> backs(
            next.escrows,
            a,
        ) by {
            if backs(next.escrows, a) {
                let k = choose|k: EscrowKey| #[trigger]
                    next.escrows.contains_key(k) && next.escrows[k].vault == a;
                assert(self.escrows.contains_key(k) && self.escrows.contains_key(key));
            }
            if backs(self.escrows, a) && a != gone {
                let k = choose|k: EscrowKey| #[trigger]
                    self.escrows.contains_key(k) && self.escrows[k].vault == a;
                assert(next.escrows.contains_key(k));
            }
        }
    }
}

/// The executable ledger.
pub struct Ledger {
    program_id: Address,
    wallets: Table<Address, u64>,
    tokens: Table<Address, TokenAccount>,
    escrows: Table<EscrowKey, Escrow>,
}

impl View for Ledger {
    type V = LedgerView;

    closed spec fn view(&self) -> LedgerView {
        LedgerView {
            program_id: self.program_id,
            wallets: self.wallets@,
            tokens: self.tokens@,
            escrows: self.escrows@,
            vaults: Set::new(|a: Address| backs(self.escrows@, a)),
        }
    }
}

/// The place of `k` in a table keyed by address.
fn find_address<V: Copy>(t: &Table<Address, V>, k: &Address) -> (found: Option<usize>)
    requires
        t.wf(),
    ensures
        match found {
            Some(i) => i < t.keys@.len() && t.keys@[i as int] == *k && t@.contains_key(*k)
                && t@[*k] == t.vals@[i as int],
            None => !t@.contains_key(*k),
        },
{
    let n = t.len();
    let mut i: usize = 0;
    while i < n
        invariant
            t.wf(),
            n == t.keys@.len(),
            i <= n,
            forall|j: int| 0 <= j < i ==> t.keys@[j] != *k,
        decreases n - i,
    {
        let key = t.key_at(i);
        if key.equals(k) {
            proof {
                lemma_entry(t.keys@, t.vals@, i as int);
            }
            return Some(i);
        }
        i += 1;
    }
    None
}

/// The place of `k` in the table of escrows.
fn find_key(t: &Table<EscrowKey, Escrow>, k: &EscrowKey) -> (found: Option<usize>)
    requires
        t.wf(),
    ensures
        match found {
            Some(i) => i < t.keys@.len() && t.keys@[i as int] == *k && t@.contains_key(*k)
                && t@[*k] == t.vals@[i as int],
            None => !t@.contains_key(*k),
        },
{
    let n = t.len();
    let mut i: usize = 0;
    while i < n
        invariant
            t.wf(),
            n == t.keys@.len(),
            i <= n,
            forall|j: int| 0 <= j < i ==> t.keys@[j] != *k,
        decreases n - i,
    {
        let key = t.key_at(i);
        if key.equals(k) {
            proof {
                lemma_entry(t.keys@, t.vals@, i as int);
            }
            return Some(i);
        }
        i += 1;
    }
    None
}

impl Ledger {
    /// The tables are in order: no address and no key occurs twice.
    pub closed spec fn tables_ok(&self) -> bool {
        &&& self.wallets.wf()
        &&& self.tokens.wf()
        &&& self.escrows.wf()
    }

    /// A ledger is well formed when its tables are in order and every open
    /// escrow is in custody.
    pub open spec fn wf(&self) -> bool {
        &&& self.tables_ok()
        &&& self@.custody()
    }

    /// The vaults of a ledger are always the vaults of its open escrows.
    pub proof fn lemma_vaults_listed(&self)
        ensures
            self@.vaults_listed(),
    {
    }

    /// The empty ledger of the deployment `program_id`.
    pub fn new(program_id: Address) -> (ledger: Ledger)
        ensures
            ledger.wf(),
            ledger@ == (LedgerView {
                program_id,
                wallets: Map::empty(),
                tokens: Map::empty(),
                escrows: Map::empty(),
                vaults: Set::empty(),
            }),
    {
        let ledger = Ledger {
            program_id,
            wallets: Table::new(),
            tokens: Table::new(),
            escrows: Table::new(),
        };
        assert(ledger@.vaults =~= Set::<Address>::empty());
        ledger
    }

    /// The deployment that this ledger belongs to.
    pub fn program_id(&self) -> (id: Address)
        ensures
            id == self@.program_id,
    {
        self.program_id
    }

    /// The liquid balance of `who`.
    pub fn lamports(&self, who: &Address) -> (n: u64)
        requires
            self.tables_ok(),
        ensures
            n == self@.lamports(*who),
    {
        match find_address(&self.wallets, who) {
            Some(i) => self.wallets.value_at(i),
            None => 0,
        }
    }

    /// The holding account at `address`, if there is one.
    pub fn token_account(&self, address: &Address) -> (account: Option<TokenAccount>)
        requires
            self.tables_ok(),
        ensures
            match account {
                Some(a) => self@.tokens.contains_key(*address) && a == self@.tokens[*address],
                None => !self@.tokens.contains_key(*address),
            },
    {
        match find_address(&self.tokens, address) {
            Some(i) => Some(self.tokens.value_at(i)),
            None => None,
        }
    }

    /// The amount held in the account at `address`.
    pub fn balance(&self, address: &Address) -> (n: u64)
        requires
            self.tables_ok(),
        ensures
            n == self@.balance(*address),
    {
        match self.token_account(address) {
            Some(a) => a.amount,
            None => 0,
        }
    }

    /// Whether the account at `account` exists and belongs to `who`.
    pub fn owns(&self, who: &Address, account: &Address) -> (yes: bool)
        requires
            self.tables_ok(),
        ensures
            yes == self@.owns(*who, *account),
    {
        match self.token_account(account) {
            Some(a) => a.owner.equals(who),
            None => false,
        }
    }

    /// The open escrow under `key`, if there is one.
    pub fn escrow(&self, key: &EscrowKey) -> (escrow: Option<Escrow>)
        requires
            self.tables_ok(),
        ensures
            match escrow {
                Some(e) => self@.escrows.contains_key(*key) && e == self@.escrows[*key],
                None => !self@.escrows.contains_key(*key),
            },
    {
        match find_key(&self.escrows, key) {
            Some(i) => Some(self.escrows.value_at(i)),
            None => None,
        }
    }

    /// Whether `account` is the vault of an open escrow.
    pub fn is_vault(&self, account: &Address) -> (yes: bool)
        requires
            self.tables_ok(),
        ensures
            yes == self@.is_vault(*account),
    {
        let n = self.escrows.len();
        let mut i: usize = 0;
        while i < n
            invariant
                self.tables_ok(),
                n == self.escrows.keys@.len(),
                i <= n,
                forall|j: int| 0 <= j < i ==> self.escrows.vals@[j].vault != *account,
            decreases n - i,
        {
            let e = self.escrows.value_at(i);
            if e.vault.equals(account) {
                assert(self.escrows@.contains_key(self.escrows.keys@[i as int]));
                return true;
            }
            i += 1;
        }
        assert(!backs(self.escrows@, *account)) by {
            if backs(self.escrows@, *account) {
                let k = choose|k: EscrowKey| #[trigger]
                    self.escrows@.contains_key(k) && self.escrows@[k].vault == *account;
                let p = place(self.escrows.keys@, k);
                assert(0 <= p < n);
                assert(self.escrows.vals@[p].vault != *account);
            }
        }
        false
    }
}


impl Ledger {
    /// A working copy of the ledger. An operation of several steps runs on a
    /// copy, which replaces the ledger only when every step has succeeded.
    pub(crate) fn snapshot(&self) -> (copy: Ledger)
        requires
            self.tables_ok(),
        ensures
            copy.tables_ok(),
            copy@ == self@,
    {
        Ledger {
            program_id: self.program_id,
            wallets: self.wallets.duplicate(),
            tokens: self.tokens.duplicate(),
            escrows: self.escrows.duplicate(),
        }
    }

    /// Whether the ledger takes `authority` to have authorized a movement out
    /// of `account`.
    pub(crate) fn signed(&self, account: &Address, authority: &Address, by: Authorization) -> (ok: bool)
        requires
            self.tables_ok(),
        ensures
            ok == self@.signed(*account, *authority, by),
    {
        let vault = self.is_vault(account);
        match by {
            Authorization::Signature(signer) => signer.equals(authority) && !vault,
            Authorization::Derived(derived) => derived.equals(authority) && vault,
        }
    }

    /// Moves `amount` from `ctx.from` to `ctx.to`, or refuses and changes
    /// nothing.
    pub(crate) fn transfer_checked(
        &mut self,
        ctx: &TransferChecked,
        amount: u64,
        by: Authorization,
    ) -> (done: Result<(), EscrowError>)
        requires
            old(self).tables_ok(),
        ensures
            final(self).tables_ok(),
            match old(self)@.transfer_checked(*ctx, amount, by) {
                Ok(next) => done is Ok && final(self)@ == next,
                Err(e) => done == Err::<(), EscrowError>(e) && final(self)@ == old(self)@,
            },
    {
        let from_at = match find_address(&self.tokens, &ctx.from) {
            Some(i) => i,
            None => {
                return Err(EscrowError::AuthorizationFailure);
            },
        };
        let from = self.tokens.value_at(from_at);
        if !from.owner.equals(&ctx.authority) {
            return Err(EscrowError::AuthorizationFailure);
        }
        if !self.signed(&ctx.from, &ctx.authority, by) {
            return Err(EscrowError::AuthorizationFailure);
        }
        let to_at = match find_address(&self.tokens, &ctx.to) {
            Some(i) => i,
            None => {
                return Err(EscrowError::AccountMismatch);
            },
        };
        if self.is_vault(&ctx.to) {
            return Err(EscrowError::AccountMismatch);
        }
        let to = self.tokens.value_at(to_at);
        if !from.mint.equals(&ctx.mint) || !to.mint.equals(&ctx.mint) {
            return Err(EscrowError::AccountMismatch);
        }
        if from.amount < amount {
            return Err(EscrowError::InsufficientBalance);
        }
        let same = ctx.from.equals(&ctx.to);
        if !same && to.amount > u64::MAX - amount {
            return Err(EscrowError::BalanceOverflow);
        }
        self.tokens.set_at(
            from_at,
            TokenAccount { mint: from.mint, owner: from.owner, amount: from.amount - amount },
        );
        let to = self.tokens.value_at(to_at);
        self.tokens.set_at(
            to_at,
            TokenAccount { mint: to.mint, owner: to.owner, amount: to.amount + amount },
        );
        Ok(())
    }

    /// Closes the empty account `ctx.account`, or refuses and changes nothing.
    pub(crate) fn close_account(&mut self, ctx: &CloseAccount, by: Authorization) -> (done:
        Result<(), EscrowError>)
        requires
            old(self).tables_ok(),
        ensures
            final(self).tables_ok(),
            match old(self)@.close_account(*ctx, by) {
                Ok(next) => done is Ok && final(self)@ == next,
                Err(e) => done == Err::<(), EscrowError>(e) && final(self)@ == old(self)@,
            },
    {
        let at = match find_address(&self.tokens, &ctx.account) {
            Some(i) => i,
            None => {
                return Err(EscrowError::AuthorizationFailure);
            },
        };
        let account = self.tokens.value_at(at);
        if !account.owner.equals(&ctx.authority) {
            return Err(EscrowError::AuthorizationFailure);
        }
        if !self.signed(&ctx.account, &ctx.authority, by) {
            return Err(EscrowError::AuthorizationFailure);
        }
        if account.amount != 0 {
            return Err(EscrowError::AccountMismatch);
        }
        self.tokens.remove_at(at);
        Ok(())
    }

    /// Sets the liquid balance of `who`.
    fn set_lamports(&mut self, who: &Address, lamports: u64)
        requires
            old(self).tables_ok(),
        ensures
            final(self).tables_ok(),
            final(self)@ == (LedgerView {
                wallets: old(self)@.wallets.insert(*who, lamports),
                ..old(self)@
            }),
    {
        match find_address(&self.wallets, who) {
            Some(i) => {
                self.wallets.set_at(i, lamports);
            },
            None => {
                self.wallets.insert_new(*who, lamports);
            },
        }
    }

    /// Moves `lamports` of liquid balance from `from`, who must be the signer
    /// of the call, to `to`, or refuses and changes nothing.
    pub(crate) fn transfer(
        &mut self,
        from: &Address,
        to: &Address,
        lamports: u64,
        signer: &Address,
    ) -> (done: Result<(), EscrowError>)
        requires
            old(self).tables_ok(),
        ensures
            final(self).tables_ok(),
            match old(self)@.transfer(*from, *to, lamports, *signer) {
                Ok(next) => done is Ok && final(self)@ == next,
                Err(e) => done == Err::<(), EscrowError>(e) && final(self)@ == old(self)@,
            },
    {
        if !signer.equals(from) {
            return Err(EscrowError::AuthorizationFailure);
        }
        let held = self.lamports(from);
        if held < lamports {
            return Err(EscrowError::InsufficientBalance);
        }
        if !from.equals(to) && self.lamports(to) > u64::MAX - lamports {
            return Err(EscrowError::BalanceOverflow);
        }
        self.set_lamports(from, held - lamports);
        let credited = self.lamports(to);
        self.set_lamports(to, credited + lamports);
        Ok(())
    }

    /// Allocates an empty holding account at the unused address `address`.
    pub(crate) fn init_account(&mut self, address: &Address, mint: &Address, owner: &Address)
        requires
            old(self).tables_ok(),
            !old(self)@.tokens.contains_key(*address),
        ensures
            final(self).tables_ok(),
            final(self)@ == old(self)@.with_account(*address, *mint, *owner),
    {
        self.tokens.insert_new(*address, TokenAccount { mint: *mint, owner: *owner, amount: 0 });
    }

    /// Stores `escrow` under the unused key `key`.
    pub(crate) fn init_escrow(&mut self, key: &EscrowKey, escrow: Escrow)
        requires
            old(self).tables_ok(),
            !old(self)@.escrows.contains_key(*key),
        ensures
            final(self).tables_ok(),
            final(self)@ == old(self)@.with_escrow(*key, escrow),
    {
        self.escrows.insert_new(*key, escrow);
        proof {
            let next = old(self)@.with_escrow(*key, escrow);
            old(self)@.lemma_with_escrow_listed(*key, escrow);
            assert forall|a: Address| self@.vaults.contains(a) == next.vaults.contains(a) by {
                assert(next.vaults.contains(a) <==> backs(next.escrows, a));
            }
            assert(self@.vaults =~= next.vaults);
        }
    }

    /// Destroys the record under `key`.
    pub(crate) fn close_escrow(&mut self, key: &EscrowKey)
        requires
            old(self).tables_ok(),
            old(self)@.escrows.contains_key(*key),
            old(self)@.vaults_apart(),
        ensures
            final(self).tables_ok(),
            final(self)@ == old(self)@.without_escrow(*key),
    {
        match find_key(&self.escrows, key) {
            Some(i) => {
                self.escrows.remove_at(i);
            },
            None => {},
        }
        proof {
            let next = old(self)@.without_escrow(*key);
            old(self)@.lemma_without_escrow_listed(*key);
            assert forall|a: Address| self@.vaults.contains(a) == next.vaults.contains(a) by {
                assert(next.vaults.contains(a) <==> backs(next.escrows, a));
            }
            assert(self@.vaults =~= next.vaults);
        }
    }
}

impl Ledger {
    /// Credits `lamports` of liquid balance to `who`.
    ///
    /// Refused with `BalanceOverflow`, and without effect, exactly when the
    /// balance would pass the largest amount that can be held.
    pub fn fund(&mut self, who: &Address, lamports: u64) -> (done: Result<(), EscrowError>)
        requires
            old(self).wf(),
        ensures
            final(self).wf(),
            match done {
                Ok(_) => old(self)@.lamports(*who) + lamports <= u64::MAX && final(self)@ == (
                LedgerView {
                    wallets: old(self)@.wallets.insert(
                        *who,
                        (old(self)@.lamports(*who) + lamports) as u64,
                    ),
                    ..old(self)@
                }),
                Err(e) => e == EscrowError::BalanceOverflow && old(self)@.lamports(*who) + lamports
                    > u64::MAX && final(self)@ == old(self)@,
            },
    {
        let held = self.lamports(who);
        if held > u64::MAX - lamports {
            return Err(EscrowError::BalanceOverflow);
        }
        self.set_lamports(who, held + lamports);
        Ok(())
    }

    /// Opens an empty holding account of the asset `mint` for `owner` at
    /// `address`.
    ///
    /// Refused with `AccountMismatch`, and without effect, exactly when an
    /// account already exists at `address`.
    pub fn create_token_account(&mut self, address: &Address, mint: &Address, owner: &Address) -> (done:
        Result<(), EscrowError>)
        requires
            old(self).wf(),
        ensures
            final(self).wf(),
            match done {
                Ok(_) => !old(self)@.tokens.contains_key(*address)
                    && final(self)@ == old(self)@.with_account(*address, *mint, *owner),
                Err(e) => e == EscrowError::AccountMismatch && old(self)@.tokens.contains_key(
                    *address,
                ) && final(self)@ == old(self)@,
            },
    {
        match find_address(&self.tokens, address) {
            Some(_) => Err(EscrowError::AccountMismatch),
            None => {
                self.init_account(address, mint, owner);
                Ok(())
            },
        }
    }

    /// Issues `amount` new units of its asset to the holding account
    /// `account`.
    ///
    /// Refused without effect: with `AccountMismatch` exactly when there is no
    /// such account or it is a vault (a vault holds what was deposited and
    /// nothing else); otherwise with `BalanceOverflow` exactly when the
    /// balance would pass the largest amount that can be held.
    pub fn mint_to(&mut self, account: &Address, amount: u64) -> (done: Result<(), EscrowError>)
        requires
            old(self).wf(),
        ensures
            final(self).wf(),
            match done {
                Ok(_) => {
                    &&& old(self)@.tokens.contains_key(*account)
                    &&& !old(self)@.is_vault(*account)
                    &&& old(self)@.balance(*account) + amount <= u64::MAX
                    &&& final(self)@ == (LedgerView {
                        tokens: old(self)@.tokens.insert(
                            *account,
                            TokenAccount {
                                amount: (old(self)@.balance(*account) + amount) as u64,
                                ..old(self)@.tokens[*account]
                            },
                        ),
                        ..old(self)@
                    })
                },
                Err(e) => {
                    &&& final(self)@ == old(self)@
                    &&& if !old(self)@.tokens.contains_key(*account) || old(self)@.is_vault(
                        *account,
                    ) {
                        e == EscrowError::AccountMismatch
                    } else {
                        e == EscrowError::BalanceOverflow && old(self)@.balance(*account) + amount
                            > u64::MAX
                    }
                },
            },
    {
        let at = match find_address(&self.tokens, account) {
            Some(i) => i,
            None => {
                return Err(EscrowError::AccountMismatch);
            },
        };
        if self.is_vault(account) {
            return Err(EscrowError::AccountMismatch);
        }
        let held = self.tokens.value_at(at);
        if held.amount > u64::MAX - amount {
            return Err(EscrowError::BalanceOverflow);
        }
        self.tokens.set_at(
            at,
            TokenAccount { mint: held.mint, owner: held.owner, amount: held.amount + amount },
        );
        proof {
            old(self)@.lemma_custody_frame(self@);
        }
        Ok(())
    }
}


impl Ledger {
    /// Takes an open escrow over from storage: enters the record `state` with
    /// the existing account `vault` as its vault.
    ///
    /// The outcome is exactly the one that [`LedgerView::load_escrow`] gives.
    /// A refusal leaves the ledger as it was.
    pub fn load_escrow(&mut self, state: EscrowState, vault: &Address) -> (done: Result<
        (),
        EscrowError,
    >)
        requires
            old(self).wf(),
        ensures
            final(self).wf(),
            match old(self)@.load_escrow(state, *vault) {
                Ok(next) => done is Ok && final(self)@ == next,
                Err(e) => done == Err::<(), EscrowError>(e) && final(self)@ == old(self)@,
            },
    {
        let key = EscrowKey { initializer: state.initializer_key, random_seed: state.random_seed };
        if self.escrow(&key).is_some() {
            return Err(EscrowError::DuplicateRecord);
        }
        let held = match self.token_account(vault) {
            Some(a) => a,
            None => {
                return Err(EscrowError::AccountMismatch);
            },
        };
        if self.is_vault(vault) || held.amount != state.initializer_amount
            || !held.mint.equals(&state.initializer_deposit_mint_account) {
            return Err(EscrowError::AccountMismatch);
        }
        self.init_escrow(&key, Escrow { state, vault: *vault });
        Ok(())
    }
}

} // verus!
