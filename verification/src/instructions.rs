//! The three operations on an escrow: `initialize` opens it and moves the
//! deposit into a vault, `cancel` returns the deposit to the initializer, and
//! `exchange` completes the swap. Each one happens as a whole or not at all.

use crate::address::Address;
use crate::authority::{
    derive_vault_authority, derived_authority, find_vault_authority, found_authority,
};
use crate::error::EscrowError;
use crate::ledger::{
    Authorization, CloseAccount, Escrow, EscrowKey, Ledger, LedgerView, TransferChecked,
};
use crate::state::EscrowState;
use vstd::prelude::*;

verus! {

/// The accounts of `initialize`.
#[derive(Clone, Copy, Debug, PartialEq, Eq)]
pub struct Initialize {
    /// The identity that opens the swap. It must be the signer of the call.
    pub initializer: Address,
    /// The asset to deposit.
    pub mint: Address,
    /// The vault authority of the deployment.
    pub vault_authority: Address,
    /// The unused address at which the vault is to be allocated.
    pub vault: Address,
    /// The counterparty. It is named only; it need not exist on the ledger.
    pub taker_key: Address,
    /// The initializer's holding account that pays the deposit.
    pub initializer_deposit_token_account: Address,
    /// The initializer's holding account that is to receive the payment.
    pub initializer_receive_token_account: Address,
    /// The asset that the initializer expects in return.
    pub initializer_receive_mint_account: Address,
}

/// The accounts of `cancel`.
#[derive(Clone, Copy, Debug, PartialEq, Eq)]
pub struct Cancel {
    /// The identity that opened the swap. It must be the signer of the call
    /// and the initializer on record.
    pub initializer: Address,
    /// The deposited asset.
    pub mint: Address,
    /// The vault of the escrow.
    pub vault: Address,
    /// The vault authority of the deployment.
    pub vault_authority: Address,
    /// The holding account to which the deposit returns.
    pub initializer_deposit_token_account: Address,
    /// The record to cancel.
    pub escrow_state: EscrowKey,
}

/// The accounts of `exchange`.
#[derive(Clone, Copy, Debug, PartialEq, Eq)]
pub struct Exchange {
    /// The identity that takes the swap. It must be the signer of the call.
    pub taker: Address,
    /// The deposited asset.
    pub initializer_deposit_token_mint: Address,
    /// The asset in which the taker pays.
    pub taker_deposit_token_mint: Address,
    /// The taker's holding account that pays.
    pub taker_deposit_token_account: Address,
    /// The taker's holding account that receives the deposit.
    pub taker_receive_token_account: Address,
    /// The initializer's holding account that the deposit came from.
    pub initializer_deposit_token_account: Address,
    /// The initializer's holding account that receives the payment.
    pub initializer_receive_token_account: Address,
    /// The identity that opened the swap.
    pub initializer: Address,
    /// The record to complete.
    pub escrow_state: EscrowKey,
    /// The vault of the escrow.
    pub vault: Address,
    /// The vault authority of the deployment.
    pub vault_authority: Address,
}

impl Initialize {
    /// The key under which the record is stored.
    pub open spec fn key(self, random_seed: u64) -> EscrowKey {
        EscrowKey { initializer: self.initializer, random_seed }
    }

    /// The record that `initialize` writes.
    pub open spec fn record(
        self,
        random_seed: u64,
        initializer_amount: u64,
        taker_amount: u64,
        bump: u8,
    ) -> EscrowState {
        EscrowState {
            random_seed,
            initializer_key: self.initializer,
            taker_key: self.taker_key,
            initializer_deposit_token_account: self.initializer_deposit_token_account,
            initializer_receive_token_account: self.initializer_receive_token_account,
            initializer_deposit_mint_account: self.mint,
            initializer_receive_mint_account: self.initializer_receive_mint_account,
            initializer_amount,
            taker_amount,
            vault_authority_bump: bump,
        }
    }

    /// The deposit: from the initializer's account into the vault, on the
    /// initializer's own authorization.
    pub open spec fn transfer_to_pda(self) -> TransferChecked {
        TransferChecked {
            from: self.initializer_deposit_token_account,
            mint: self.mint,
            to: self.vault,
            authority: self.initializer,
        }
    }

    /// The accounts of the deposit.
    pub fn into_transfer_to_pda_context(&self) -> (ctx: TransferChecked)
        ensures
            ctx == self.transfer_to_pda(),
    {
        TransferChecked {
            from: self.initializer_deposit_token_account,
            mint: self.mint,
            to: self.vault,
            authority: self.initializer,
        }
    }
}

impl Cancel {
    /// The refund: from the vault back to the initializer's account, on the
    /// authorization of the vault authority.
    pub open spec fn transfer_to_initializer(self) -> TransferChecked {
        TransferChecked {
            from: self.vault,
            mint: self.mint,
            to: self.initializer_deposit_token_account,
            authority: self.vault_authority,
        }
    }

    /// The closing of the vault, on the authorization of the vault authority.
    pub open spec fn close_vault(self) -> CloseAccount {
        CloseAccount {
            account: self.vault,
            destination: self.initializer,
            authority: self.vault_authority,
        }
    }

    /// The accounts of the refund.
    pub fn into_transfer_to_initializer_context(&self) -> (ctx: TransferChecked)
        ensures
            ctx == self.transfer_to_initializer(),
    {
        TransferChecked {
            from: self.vault,
            mint: self.mint,
            to: self.initializer_deposit_token_account,
            authority: self.vault_authority,
        }
    }

    /// The accounts of the closing of the vault.
    pub fn into_close_context(&self) -> (ctx: CloseAccount)
        ensures
            ctx == self.close_vault(),
    {
        CloseAccount {
            account: self.vault,
            destination: self.initializer,
            authority: self.vault_authority,
        }
    }
}

impl Exchange {
    /// The payment: from the taker's account to the initializer's, on the
    /// taker's own authorization.
    pub open spec fn transfer_to_initializer(self) -> TransferChecked {
        TransferChecked {
            from: self.taker_deposit_token_account,
            mint: self.taker_deposit_token_mint,
            to: self.initializer_receive_token_account,
            authority: self.taker,
        }
    }

    /// The release: from the vault to the taker's account, on the
    /// authorization of the vault authority.
    pub open spec fn transfer_to_taker(self) -> TransferChecked {
        TransferChecked {
            from: self.vault,
            mint: self.initializer_deposit_token_mint,
            to: self.taker_receive_token_account,
            authority: self.vault_authority,
        }
    }

    /// The closing of the vault, on the authorization of the vault authority.
    pub open spec fn close_vault(self) -> CloseAccount {
        CloseAccount {
            account: self.vault,
            destination: self.taker,
            authority: self.vault_authority,
        }
    }

    /// The accounts of the payment.
    pub fn into_transfer_to_initializer_context(&self) -> (ctx: TransferChecked)
        ensures
            ctx == self.transfer_to_initializer(),
    {
        TransferChecked {
            from: self.taker_deposit_token_account,
            mint: self.taker_deposit_token_mint,
            to: self.initializer_receive_token_account,
            authority: self.taker,
        }
    }

    /// The accounts of the release.
    pub fn into_transfer_to_taker_context(&self) -> (ctx: TransferChecked)
        ensures
            ctx == self.transfer_to_taker(),
    {
        TransferChecked {
            from: self.vault,
            mint: self.initializer_deposit_token_mint,
            to: self.taker_receive_token_account,
            authority: self.vault_authority,
        }
    }

    /// The accounts of the closing of the vault.
    pub fn into_close_context(&self) -> (ctx: CloseAccount)
        ensures
            ctx == self.close_vault(),
    {
        CloseAccount {
            account: self.vault,
            destination: self.taker,
            authority: self.vault_authority,
        }
    }
}

impl LedgerView {
    /// What `initialize` does when `signer` signs the call, given the vault
    /// authority `authority` of the deployment and its derivation parameter
    /// `bump`: the ledger after it, or the reason for which it is refused.
    pub open spec fn initialize(
        self,
        signer: Address,
        accounts: Initialize,
        random_seed: u64,
        initializer_amount: u64,
        taker_amount: u64,
        authority: Address,
        bump: u8,
    ) -> Result<LedgerView, EscrowError> {
        if signer != accounts.initializer {
            Err(EscrowError::AuthorizationFailure)
        } else if self.escrows.contains_key(accounts.key(random_seed)) {
            Err(EscrowError::DuplicateRecord)
        } else if accounts.vault_authority != authority || self.tokens.contains_key(
            accounts.vault,
        ) {
            Err(EscrowError::AccountMismatch)
        } else if !self.owns(accounts.initializer, accounts.initializer_deposit_token_account)
            || !self.owns(accounts.initializer, accounts.initializer_receive_token_account) {
            Err(EscrowError::AuthorizationFailure)
        } else if self.lamports(accounts.initializer) < initializer_amount {
            Err(EscrowError::InsufficientBalance)
        } else {
            match self.with_account(
                accounts.vault,
                accounts.mint,
                accounts.vault_authority,
            ).transfer_checked(
                accounts.transfer_to_pda(),
                initializer_amount,
                Authorization::Signature(signer),
            ) {
                Err(e) => Err(e),
                Ok(funded) => Ok(
                    funded.with_escrow(
                        accounts.key(random_seed),
                        Escrow {
                            state: accounts.record(
                                random_seed,
                                initializer_amount,
                                taker_amount,
                                bump,
                            ),
                            vault: accounts.vault,
                        },
                    ),
                ),
            }
        }
    }

    /// What `cancel` does when `signer` signs the call and the ledger derives
    /// `derived` from the parameter on record: the ledger after it, or the
    /// reason for which it is refused.
    pub open spec fn cancel(self, signer: Address, accounts: Cancel, derived: Option<Address>) -> Result<
        LedgerView,
        EscrowError,
    > {
        if !self.escrows.contains_key(accounts.escrow_state) {
            Err(EscrowError::RecordNotFound)
        } else {
            let escrow = self.escrows[accounts.escrow_state];
            if signer != escrow.state.initializer_key || accounts.initializer
                != escrow.state.initializer_key {
                Err(EscrowError::AuthorizationFailure)
            } else if escrow.state.initializer_deposit_token_account
                != accounts.initializer_deposit_token_account || escrow.vault != accounts.vault {
                Err(EscrowError::AccountMismatch)
            } else {
                match derived {
                    None => Err(EscrowError::AuthorizationFailure),
                    Some(authority) => match self.transfer_checked(
                        accounts.transfer_to_initializer(),
                        self.balance(accounts.vault),
                        Authorization::Derived(authority),
                    ) {
                        Err(e) => Err(e),
                        Ok(refunded) => match refunded.close_account(
                            accounts.close_vault(),
                            Authorization::Derived(authority),
                        ) {
                            Err(e) => Err(e),
                            Ok(closed) => Ok(closed.without_escrow(accounts.escrow_state)),
                        },
                    },
                }
            }
        }
    }

    /// What `exchange` does when `signer` signs the call and the ledger
    /// derives `derived` from the parameter on record: the ledger after it,
    /// or the reason for which it is refused.
    pub open spec fn exchange(self, signer: Address, accounts: Exchange, derived: Option<Address>) -> Result<
        LedgerView,
        EscrowError,
    > {
        if !self.escrows.contains_key(accounts.escrow_state) {
            Err(EscrowError::RecordNotFound)
        } else {
            let escrow = self.escrows[accounts.escrow_state];
            if signer != accounts.taker || !self.owns(
                accounts.taker,
                accounts.taker_deposit_token_account,
            ) || !self.owns(accounts.taker, accounts.taker_receive_token_account) {
                Err(EscrowError::AuthorizationFailure)
            } else if !accounts.matches(escrow) {
                Err(EscrowError::AccountMismatch)
            } else {
                match derived {
                    None => Err(EscrowError::AuthorizationFailure),
                    Some(authority) => match self.transfer_checked(
                        accounts.transfer_to_initializer(),
                        escrow.state.taker_amount,
                        Authorization::Signature(signer),
                    ) {
                        Err(e) => Err(e),
                        Ok(paid) => match paid.transfer(
                            accounts.taker,
                            accounts.initializer,
                            escrow.state.taker_amount,
                            signer,
                        ) {
                            Err(e) => Err(e),
                            Ok(settled) => match settled.transfer_checked(
                                accounts.transfer_to_taker(),
                                settled.balance(accounts.vault),
                                Authorization::Derived(authority),
                            ) {
                                Err(e) => Err(e),
                                Ok(released) => match released.close_account(
                                    accounts.close_vault(),
                                    Authorization::Derived(authority),
                                ) {
                                    Err(e) => Err(e),
                                    Ok(closed) => Ok(
                                        closed.without_escrow(accounts.escrow_state),
                                    ),
                                },
                            },
                        },
                    },
                }
            }
        }
    }

    /// The address for which the parameter on the record under `key` signs:
    /// what the ledger derives from the fixed label and that parameter.
    /// `None` where there is no such record, or no address is derived.
    pub open spec fn authority_on_record(self, key: EscrowKey) -> Option<Address> {
        if self.escrows.contains_key(key) {
            derived_authority(self.program_id, self.escrows[key].state.vault_authority_bump)
        } else {
            None
        }
    }
}

impl Exchange {
    /// Whether the supplied accounts are the ones on record: the initializer,
    /// both of its holding accounts, both assets and the vault.
    pub open spec fn matches(self, escrow: Escrow) -> bool {
        &&& escrow.state.initializer_key == self.initializer
        &&& escrow.state.initializer_deposit_token_account
            == self.initializer_deposit_token_account
        &&& escrow.state.initializer_receive_token_account
            == self.initializer_receive_token_account
        &&& escrow.state.initializer_deposit_mint_account == self.initializer_deposit_token_mint
        &&& escrow.state.initializer_receive_mint_account == self.taker_deposit_token_mint
        &&& escrow.vault == self.vault
    }

    /// Compares the supplied accounts with the ones on record.
    pub fn check_matches(&self, escrow: &Escrow) -> (yes: bool)
        ensures
            yes == self.matches(*escrow),
    {
        escrow.state.initializer_key.equals(&self.initializer)
            && escrow.state.initializer_deposit_token_account.equals(
            &self.initializer_deposit_token_account,
        ) && escrow.state.initializer_receive_token_account.equals(
            &self.initializer_receive_token_account,
        ) && escrow.state.initializer_deposit_mint_account.equals(
            &self.initializer_deposit_token_mint,
        ) && escrow.state.initializer_receive_mint_account.equals(&self.taker_deposit_token_mint)
            && escrow.vault.equals(&self.vault)
    }
}

/// Opens an escrow under the vault authority `authority` with derivation
/// parameter `bump`, as the search for the deployment's authority found them:
/// allocates the vault, moves `initializer_amount` of the deposit asset from
/// the initializer's account into it, and writes the record. `signer` is the
/// identity whose signature on the call the ledger has verified.
///
/// The outcome is exactly the one that [`LedgerView::initialize`] gives. A
/// refusal leaves the ledger as it was.
pub fn initialize_with_authority(
    ledger: &mut Ledger,
    signer: &Address,
    accounts: &Initialize,
    random_seed: u64,
    initializer_amount: u64,
    taker_amount: u64,
    authority: &Address,
    bump: u8,
) -> (done: Result<(), EscrowError>)
    requires
        old(ledger).wf(),
    ensures
        final(ledger).wf(),
        match old(ledger)@.initialize(
            *signer,
            *accounts,
            random_seed,
            initializer_amount,
            taker_amount,
            *authority,
            bump,
        ) {
            Ok(next) => done is Ok && final(ledger)@ == next,
            Err(e) => done == Err::<(), EscrowError>(e) && final(ledger)@ == old(ledger)@,
        },
{
    if !signer.equals(&accounts.initializer) {
        return Err(EscrowError::AuthorizationFailure);
    }
    let key = EscrowKey { initializer: accounts.initializer, random_seed };
    if ledger.escrow(&key).is_some() {
        return Err(EscrowError::DuplicateRecord);
    }
    if !accounts.vault_authority.equals(authority) || ledger.token_account(
        &accounts.vault,
    ).is_some() {
        return Err(EscrowError::AccountMismatch);
    }
    if !ledger.owns(&accounts.initializer, &accounts.initializer_deposit_token_account)
        || !ledger.owns(&accounts.initializer, &accounts.initializer_receive_token_account) {
        return Err(EscrowError::AuthorizationFailure);
    }
    if ledger.lamports(&accounts.initializer) < initializer_amount {
        return Err(EscrowError::InsufficientBalance);
    }
    let mut work = ledger.snapshot();
    work.init_account(&accounts.vault, &accounts.mint, &accounts.vault_authority);
    match work.transfer_checked(
        &accounts.into_transfer_to_pda_context(),
        initializer_amount,
        Authorization::Signature(*signer),
    ) {
        Err(e) => {
            return Err(e);
        },
        Ok(_) => {},
    }
    proof {
        work.lemma_vaults_listed();
        old(ledger)@.lemma_custody_frame(work@);
    }
    work.init_escrow(
        &key,
        Escrow {
            state: EscrowState {
                random_seed,
                initializer_key: accounts.initializer,
                taker_key: accounts.taker_key,
                initializer_deposit_token_account: accounts.initializer_deposit_token_account,
                initializer_receive_token_account: accounts.initializer_receive_token_account,
                initializer_deposit_mint_account: accounts.mint,
                initializer_receive_mint_account: accounts.initializer_receive_mint_account,
                initializer_amount,
                taker_amount,
                vault_authority_bump: bump,
            },
            vault: accounts.vault,
        },
    );
    proof {
        work.lemma_vaults_listed();
    }
    *ledger = work;
    Ok(())
}

/// Opens an escrow: searches for the vault authority of the deployment,
/// allocates the vault under it, moves `initializer_amount` of the deposit
/// asset from the initializer's account into the vault, and writes the
/// record with the authority's derivation parameter. `signer` is the identity
/// whose signature on the call the ledger has verified.
///
/// Refused with `AuthorityNotFound` where the search finds no authority;
/// otherwise the outcome is exactly the one that [`LedgerView::initialize`]
/// gives for the authority found. A refusal leaves the ledger as it was.
/// Where the escrow is opened, the address that the ledger derives from the
/// parameter on its record is the owner of its vault.
pub fn initialize(
    ledger: &mut Ledger,
    signer: &Address,
    accounts: &Initialize,
    random_seed: u64,
    initializer_amount: u64,
    taker_amount: u64,
) -> (done: Result<(), EscrowError>)
    requires
        old(ledger).wf(),
    ensures
        final(ledger).wf(),
        match found_authority(old(ledger)@.program_id) {
            None => done == Err::<(), EscrowError>(EscrowError::AuthorityNotFound)
                && final(ledger)@ == old(ledger)@,
            Some((authority, bump)) => match old(ledger)@.initialize(
                *signer,
                *accounts,
                random_seed,
                initializer_amount,
                taker_amount,
                authority,
                bump,
            ) {
                Ok(next) => done is Ok && final(ledger)@ == next,
                Err(e) => done == Err::<(), EscrowError>(e) && final(ledger)@ == old(ledger)@,
            },
        },
        done is Ok ==> final(ledger)@.authority_on_record(accounts.key(random_seed)) == Some(
            accounts.vault_authority,
        ),
{
    match find_vault_authority(&ledger.program_id()) {
        None => Err(EscrowError::AuthorityNotFound),
        Some((authority, bump)) => initialize_with_authority(
            ledger,
            signer,
            accounts,
            random_seed,
            initializer_amount,
            taker_amount,
            &authority,
            bump,
        ),
    }
}

/// Cancels an open escrow under the vault authority's signature `derived`,
/// as the ledger derived it from the parameter on record: the whole balance
/// of the vault returns to the initializer's deposit account, the vault is
/// closed and the record is destroyed. `signer` is the identity whose
/// signature on the call the ledger has verified; only the initializer on
/// record may cancel.
///
/// The outcome is exactly the one that [`LedgerView::cancel`] gives. A refusal
/// leaves the ledger as it was.
pub fn cancel_with_authority(
    ledger: &mut Ledger,
    signer: &Address,
    accounts: &Cancel,
    derived: Option<Address>,
) -> (done: Result<(), EscrowError>)
    requires
        old(ledger).wf(),
    ensures
        final(ledger).wf(),
        match old(ledger)@.cancel(*signer, *accounts, derived) {
            Ok(next) => done is Ok && final(ledger)@ == next,
            Err(e) => done == Err::<(), EscrowError>(e) && final(ledger)@ == old(ledger)@,
        },
{
    let escrow = match ledger.escrow(&accounts.escrow_state) {
        Some(e) => e,
        None => {
            return Err(EscrowError::RecordNotFound);
        },
    };
    if !signer.equals(&escrow.state.initializer_key) || !accounts.initializer.equals(
        &escrow.state.initializer_key,
    ) {
        return Err(EscrowError::AuthorizationFailure);
    }
    if !escrow.state.initializer_deposit_token_account.equals(
        &accounts.initializer_deposit_token_account,
    ) || !escrow.vault.equals(&accounts.vault) {
        return Err(EscrowError::AccountMismatch);
    }
    let by = match derived {
        Some(authority) => Authorization::Derived(authority),
        None => {
            return Err(EscrowError::AuthorizationFailure);
        },
    };
    let mut work = ledger.snapshot();
    let held = work.balance(&accounts.vault);
    match work.transfer_checked(&accounts.into_transfer_to_initializer_context(), held, by) {
        Err(e) => {
            return Err(e);
        },
        Ok(_) => {},
    }
    match work.close_account(&accounts.into_close_context(), by) {
        Err(e) => {
            return Err(e);
        },
        Ok(_) => {},
    }
    work.close_escrow(&accounts.escrow_state);
    proof {
        work.lemma_vaults_listed();
        old(ledger)@.lemma_custody_frame(work@);
    }
    *ledger = work;
    Ok(())
}

/// Cancels an open escrow: the vault authority's signature is derived again
/// from the parameter on record, the whole balance of the vault returns to
/// the initializer's deposit account, the vault is closed and the record is
/// destroyed. `signer` is the identity whose signature on the call the ledger
/// has verified; only the initializer on record may cancel.
///
/// The outcome is exactly the one that [`LedgerView::cancel`] gives for the
/// signature derived. A refusal leaves the ledger as it was.
pub fn cancel(ledger: &mut Ledger, signer: &Address, accounts: &Cancel) -> (done: Result<
    (),
    EscrowError,
>)
    requires
        old(ledger).wf(),
    ensures
        final(ledger).wf(),
        match old(ledger)@.cancel(
            *signer,
            *accounts,
            old(ledger)@.authority_on_record(accounts.escrow_state),
        ) {
            Ok(next) => done is Ok && final(ledger)@ == next,
            Err(e) => done == Err::<(), EscrowError>(e) && final(ledger)@ == old(ledger)@,
        },
{
    let derived = match ledger.escrow(&accounts.escrow_state) {
        Some(escrow) => derive_vault_authority(
            &ledger.program_id(),
            escrow.state.vault_authority_bump,
        ),
        None => None,
    };
    cancel_with_authority(ledger, signer, accounts, derived)
}

/// Completes an open escrow under the vault authority's signature `derived`,
/// as the ledger derived it from the parameter on record: the taker pays the
/// agreed amount into the initializer's receive account and the same amount
/// of liquid balance to the initializer, the whole balance of the vault is
/// released to the taker's receive account, the vault is closed and the
/// record is destroyed. `signer` is the identity whose signature on the call
/// the ledger has verified. The counterparty named on the record is not
/// compared with it: whoever signs and pays as agreed takes the swap.
///
/// The outcome is exactly the one that [`LedgerView::exchange`] gives. A
/// refusal leaves the ledger as it was: either all four steps happen or none.
pub fn exchange_with_authority(
    ledger: &mut Ledger,
    signer: &Address,
    accounts: &Exchange,
    derived: Option<Address>,
) -> (done: Result<(), EscrowError>)
    requires
        old(ledger).wf(),
    ensures
        final(ledger).wf(),
        match old(ledger)@.exchange(*signer, *accounts, derived) {
            Ok(next) => done is Ok && final(ledger)@ == next,
            Err(e) => done == Err::<(), EscrowError>(e) && final(ledger)@ == old(ledger)@,
        },
{
    let escrow = match ledger.escrow(&accounts.escrow_state) {
        Some(e) => e,
        None => {
            return Err(EscrowError::RecordNotFound);
        },
    };
    if !signer.equals(&accounts.taker) || !ledger.owns(
        &accounts.taker,
        &accounts.taker_deposit_token_account,
    ) || !ledger.owns(&accounts.taker, &accounts.taker_receive_token_account) {
        return Err(EscrowError::AuthorizationFailure);
    }
    if !accounts.check_matches(&escrow) {
        return Err(EscrowError::AccountMismatch);
    }
    let by = match derived {
        Some(authority) => Authorization::Derived(authority),
        None => {
            return Err(EscrowError::AuthorizationFailure);
        },
    };
    let mut work = ledger.snapshot();
    match work.transfer_checked(
        &accounts.into_transfer_to_initializer_context(),
        escrow.state.taker_amount,
        Authorization::Signature(*signer),
    ) {
        Err(e) => {
            return Err(e);
        },
        Ok(_) => {},
    }
    match work.transfer(
        &accounts.taker,
        &accounts.initializer,
        escrow.state.taker_amount,
        signer,
    ) {
        Err(e) => {
            return Err(e);
        },
        Ok(_) => {},
    }
    let held = work.balance(&accounts.vault);
    match work.transfer_checked(&accounts.into_transfer_to_taker_context(), held, by) {
        Err(e) => {
            return Err(e);
        },
        Ok(_) => {},
    }
    match work.close_account(&accounts.into_close_context(), by) {
        Err(e) => {
            return Err(e);
        },
        Ok(_) => {},
    }
    work.close_escrow(&accounts.escrow_state);
    proof {
        work.lemma_vaults_listed();
        old(ledger)@.lemma_custody_frame(work@);
    }
    *ledger = work;
    Ok(())
}

/// Completes an open escrow: the taker pays the agreed amount into the
/// initializer's receive account and the same amount of liquid balance to the
/// initializer, the whole balance of the vault is released to the taker's
/// receive account under the vault authority's signature, derived again from
/// the parameter on record, the vault is closed and the record is destroyed.
/// `signer` is the identity whose signature on the call the ledger has
/// verified. The counterparty named on the record is not compared with it:
/// whoever signs and pays as agreed takes the swap.
///
/// The outcome is exactly the one that [`LedgerView::exchange`] gives for the
/// signature derived. A refusal leaves the ledger as it was: either all four
/// steps happen or none.
pub fn exchange(ledger: &mut Ledger, signer: &Address, accounts: &Exchange) -> (done: Result<
    (),
    EscrowError,
>)
    requires
        old(ledger).wf(),
    ensures
        final(ledger).wf(),
        match old(ledger)@.exchange(
            *signer,
            *accounts,
            old(ledger)@.authority_on_record(accounts.escrow_state),
        ) {
            Ok(next) => done is Ok && final(ledger)@ == next,
            Err(e) => done == Err::<(), EscrowError>(e) && final(ledger)@ == old(ledger)@,
        },
{
    let derived = match ledger.escrow(&accounts.escrow_state) {
        Some(escrow) => derive_vault_authority(
            &ledger.program_id(),
            escrow.state.vault_authority_bump,
        ),
        None => None,
    };
    exchange_with_authority(ledger, signer, accounts, derived)
}

} // verus!
