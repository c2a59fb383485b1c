//! What holds of the three operations on every ledger: who may end an escrow,
//! that it ends once, that it happens as a whole, and that funds are neither
//! made nor lost.

use crate::address::Address;
use crate::error::EscrowError;
use crate::instructions::{Cancel, Exchange, Initialize};
use crate::ledger::{
    Authorization, CloseAccount, Escrow, EscrowKey, LedgerView, TokenAccount, TransferChecked,
};
use vstd::prelude::*;

verus! {

/// The vault of an open escrow is a vault.
pub proof fn lemma_vault_of(s: LedgerView, key: EscrowKey)
    requires
        s.vaults_listed(),
        s.escrows.contains_key(key),
    ensures
        s.is_vault(s.escrows[key].vault),
{
}

/// Every vault is an account of the ledger.
pub proof fn lemma_vault_is_an_account(s: LedgerView, account: Address)
    requires
        s.custody(),
        s.is_vault(account),
    ensures
        s.tokens.contains_key(account),
{
    let k = choose|k: EscrowKey| #[trigger]
        s.escrows.contains_key(k) && s.escrows[k].vault == account;
    assert(s.escrows.contains_key(k));
}

/// While an escrow is open, its vault exists and holds exactly the deposit on
/// record, in the asset on record, and the record is the one of its
/// initializer and seed.
pub proof fn lemma_vault_holds_the_deposit(s: LedgerView, key: EscrowKey)
    requires
        s.custody(),
        s.escrows.contains_key(key),
    ensures
        ({
            let escrow = s.escrows[key];
            &&& s.is_vault(escrow.vault)
            &&& s.tokens.contains_key(escrow.vault)
            &&& s.balance(escrow.vault) == escrow.state.initializer_amount
            &&& s.tokens[escrow.vault].mint == escrow.state.initializer_deposit_mint_account
            &&& escrow.state.initializer_key == key.initializer
            &&& escrow.state.random_seed == key.random_seed
        }),
{
}

/// Only the initializer cancels: `cancel` on an open record, signed by any
/// other identity, is refused with `AuthorizationFailure`.
pub proof fn lemma_cancel_needs_initializer(
    s: LedgerView,
    signer: Address,
    accounts: Cancel,
    derived: Option<Address>,
)
    requires
        s.escrows.contains_key(accounts.escrow_state),
        signer != s.escrows[accounts.escrow_state].state.initializer_key,
    ensures
        s.cancel(signer, accounts, derived) == Err::<LedgerView, EscrowError>(
            EscrowError::AuthorizationFailure,
        ),
{
}

/// Funds leave a vault only under the vault authority's derived signature: a
/// transfer out of a vault that succeeds was authorized by the derived
/// signature of the owner of the vault. The signature of a party, whoever it
/// is, is refused with `AuthorizationFailure`.
pub proof fn lemma_vault_release_needs_authority(
    s: LedgerView,
    ctx: TransferChecked,
    amount: u64,
    by: Authorization,
)
    requires
        s.is_vault(ctx.from),
    ensures
        s.transfer_checked(ctx, amount, by) is Ok ==> by == Authorization::Derived(
            s.tokens[ctx.from].owner,
        ),
        by is Signature ==> s.transfer_checked(ctx, amount, by) == Err::<
            LedgerView,
            EscrowError,
        >(EscrowError::AuthorizationFailure),
{
}

/// A vault is closed only under the vault authority's derived signature.
pub proof fn lemma_vault_close_needs_authority(
    s: LedgerView,
    ctx: CloseAccount,
    by: Authorization,
)
    requires
        s.is_vault(ctx.account),
    ensures
        s.close_account(ctx, by) is Ok ==> by == Authorization::Derived(
            s.tokens[ctx.account].owner,
        ),
        by is Signature ==> s.close_account(ctx, by) == Err::<LedgerView, EscrowError>(
            EscrowError::AuthorizationFailure,
        ),
{
}

/// The release of the vault in `exchange` is authorized by the vault
/// authority's derived signature and by nothing else: where `exchange`
/// succeeds, the vault is in custody, and the address that the ledger derived
/// from the parameter on record is the vault authority supplied and the
/// owner of the vault.
pub proof fn lemma_exchange_release_authorized(
    s: LedgerView,
    signer: Address,
    accounts: Exchange,
    derived: Option<Address>,
)
    requires
        s.exchange(signer, accounts, derived) is Ok,
    ensures
        s.is_vault(accounts.vault),
        derived == Some(accounts.vault_authority),
        s.tokens[accounts.vault].owner == accounts.vault_authority,
{
    let escrow = s.escrows[accounts.escrow_state];
    let paid = s.transfer_checked(
        accounts.transfer_to_initializer(),
        escrow.state.taker_amount,
        Authorization::Signature(signer),
    )->Ok_0;
    let settled = paid.transfer(
        accounts.taker,
        accounts.initializer,
        escrow.state.taker_amount,
        signer,
    )->Ok_0;
    // Payments leave the vaults as they were.
    assert(settled.vaults == s.vaults);
}

/// The refund of the vault in `cancel` is authorized by the vault authority's
/// derived signature and by nothing else: where `cancel` succeeds, the vault
/// is in custody, and the address that the ledger derived from the parameter
/// on record is the vault authority supplied and the owner of the vault.
pub proof fn lemma_cancel_refund_authorized(
    s: LedgerView,
    signer: Address,
    accounts: Cancel,
    derived: Option<Address>,
)
    requires
        s.cancel(signer, accounts, derived) is Ok,
    ensures
        s.is_vault(accounts.vault),
        derived == Some(accounts.vault_authority),
        s.tokens[accounts.vault].owner == accounts.vault_authority,
{
}

/// When `initialize` succeeds, in full: on a ledger in custody, and given the
/// vault authority of the deployment, it succeeds exactly when the
/// initializer signs, has no open record under the seed, the vault authority
/// supplied is the deployment's, the vault address is unused, both holding
/// accounts belong to the initializer, the initializer's liquid balance is at
/// least the deposit, and the deposit account is no vault, holds the asset
/// supplied and holds at least the deposit.
pub proof fn lemma_initialize_succeeds_iff(
    s: LedgerView,
    signer: Address,
    accounts: Initialize,
    random_seed: u64,
    initializer_amount: u64,
    taker_amount: u64,
    authority: Address,
    bump: u8,
)
    requires
        s.custody(),
    ensures
        s.initialize(
            signer,
            accounts,
            random_seed,
            initializer_amount,
            taker_amount,
            authority,
            bump,
        ) is Ok <==> {
            let deposit = accounts.initializer_deposit_token_account;
            &&& signer == accounts.initializer
            &&& !s.escrows.contains_key(accounts.key(random_seed))
            &&& accounts.vault_authority == authority
            &&& !s.tokens.contains_key(accounts.vault)
            &&& s.owns(accounts.initializer, deposit)
            &&& s.owns(accounts.initializer, accounts.initializer_receive_token_account)
            &&& s.lamports(accounts.initializer) >= initializer_amount
            &&& !s.is_vault(deposit)
            &&& s.tokens[deposit].mint == accounts.mint
            &&& s.tokens[deposit].amount >= initializer_amount
        },
{
    // An unused address is no vault: every vault is an account.
    if s.is_vault(accounts.vault) {
        lemma_vault_is_an_account(s, accounts.vault);
    }
}

/// What a successful `initialize` does, in full: the deposit account is
/// debited by the deposit, the vault appears, owned by the vault authority and
/// holding the deposit, the record is written under the initializer and the
/// seed, and nothing else changes.
pub proof fn lemma_initialize_effect(
    s: LedgerView,
    signer: Address,
    accounts: Initialize,
    random_seed: u64,
    initializer_amount: u64,
    taker_amount: u64,
    authority: Address,
    bump: u8,
)
    requires
        s.custody(),
        s.initialize(
            signer,
            accounts,
            random_seed,
            initializer_amount,
            taker_amount,
            authority,
            bump,
        ) is Ok,
    ensures
        ({
            let next = s.initialize(
                signer,
                accounts,
                random_seed,
                initializer_amount,
                taker_amount,
                authority,
                bump,
            )->Ok_0;
            let deposit = accounts.initializer_deposit_token_account;
            &&& next.program_id == s.program_id
            &&& next.wallets == s.wallets
            &&& next.escrows == s.escrows.insert(
                accounts.key(random_seed),
                Escrow {
                    state: accounts.record(random_seed, initializer_amount, taker_amount, bump),
                    vault: accounts.vault,
                },
            )
            &&& next.tokens == s.tokens.insert(
                deposit,
                TokenAccount {
                    amount: (s.tokens[deposit].amount - initializer_amount) as u64,
                    ..s.tokens[deposit]
                },
            ).insert(
                accounts.vault,
                TokenAccount {
                    mint: accounts.mint,
                    owner: accounts.vault_authority,
                    amount: initializer_amount,
                },
            )
        }),
{
    lemma_initialize_succeeds_iff(
        s,
        signer,
        accounts,
        random_seed,
        initializer_amount,
        taker_amount,
        authority,
        bump,
    );
    let next = s.initialize(
        signer,
        accounts,
        random_seed,
        initializer_amount,
        taker_amount,
        authority,
        bump,
    )->Ok_0;
    let deposit = accounts.initializer_deposit_token_account;
    assert(next.tokens =~= s.tokens.insert(
        deposit,
        TokenAccount {
            amount: (s.tokens[deposit].amount - initializer_amount) as u64,
            ..s.tokens[deposit]
        },
    ).insert(
        accounts.vault,
        TokenAccount {
            mint: accounts.mint,
            owner: accounts.vault_authority,
            amount: initializer_amount,
        },
    ));
}

/// When `cancel` succeeds, in full: on a ledger in custody it succeeds exactly
/// when the record exists, the signer is its initializer and is the
/// initializer supplied, the deposit account and the vault are the ones on
/// record, the address derived from the parameter on record is the vault
/// authority supplied and owns the vault, the asset supplied is the deposited
/// one, and the deposit account exists, holds that asset, is no vault and has
/// room for the deposit.
pub proof fn lemma_cancel_succeeds_iff(
    s: LedgerView,
    signer: Address,
    accounts: Cancel,
    derived: Option<Address>,
)
    requires
        s.custody(),
    ensures
        s.cancel(signer, accounts, derived) is Ok <==> {
            let escrow = s.escrows[accounts.escrow_state];
            let deposit = accounts.initializer_deposit_token_account;
            &&& s.escrows.contains_key(accounts.escrow_state)
            &&& signer == escrow.state.initializer_key
            &&& accounts.initializer == escrow.state.initializer_key
            &&& deposit == escrow.state.initializer_deposit_token_account
            &&& accounts.vault == escrow.vault
            &&& derived == Some(accounts.vault_authority)
            &&& accounts.vault_authority == s.tokens[accounts.vault].owner
            &&& accounts.mint == escrow.state.initializer_deposit_mint_account
            &&& s.tokens.contains_key(deposit)
            &&& !s.is_vault(deposit)
            &&& s.tokens[deposit].mint == accounts.mint
            &&& s.balance(deposit) + escrow.state.initializer_amount <= u64::MAX
        },
{
    if s.escrows.contains_key(accounts.escrow_state) {
        lemma_vault_of(s, accounts.escrow_state);
        let escrow = s.escrows[accounts.escrow_state];
        if escrow.vault == accounts.vault && derived is Some {
            let ctx = accounts.transfer_to_initializer();
            let by = Authorization::Derived(derived->Some_0);
            match s.transfer_checked(ctx, s.balance(accounts.vault), by) {
                Ok(refunded) => {
                    assert(refunded.escrows == s.escrows);
                    assert(refunded.is_vault(accounts.vault));
                    assert(refunded.tokens[accounts.vault].amount == 0);
                },
                Err(_) => {},
            }
        }
    }
}

/// What a successful `cancel` does, in full: the deposit account is credited
/// with the deposit, the vault is gone, the record is gone, and nothing else
/// changes.
pub proof fn lemma_cancel_effect(
    s: LedgerView,
    signer: Address,
    accounts: Cancel,
    derived: Option<Address>,
)
    requires
        s.custody(),
        s.cancel(signer, accounts, derived) is Ok,
    ensures
        ({
            let next = s.cancel(signer, accounts, derived)->Ok_0;
            let escrow = s.escrows[accounts.escrow_state];
            let deposit = accounts.initializer_deposit_token_account;
            &&& next.program_id == s.program_id
            &&& next.wallets == s.wallets
            &&& next.escrows == s.escrows.remove(accounts.escrow_state)
            &&& next.tokens == s.tokens.insert(
                deposit,
                TokenAccount {
                    amount: (s.tokens[deposit].amount + escrow.state.initializer_amount) as u64,
                    ..s.tokens[deposit]
                },
            ).remove(accounts.vault)
        }),
{
    lemma_cancel_succeeds_iff(s, signer, accounts, derived);
    lemma_vault_of(s, accounts.escrow_state);
    let next = s.cancel(signer, accounts, derived)->Ok_0;
    let escrow = s.escrows[accounts.escrow_state];
    let deposit = accounts.initializer_deposit_token_account;
    assert(next.tokens =~= s.tokens.insert(
        deposit,
        TokenAccount {
            amount: (s.tokens[deposit].amount + escrow.state.initializer_amount) as u64,
            ..s.tokens[deposit]
        },
    ).remove(accounts.vault));
}

/// When `exchange` succeeds, in full, for a taker other than the initializer
/// and three distinct holding accounts: on a ledger in custody it succeeds
/// exactly when the record exists, the taker signs, both of the taker's
/// accounts belong to the taker, the supplied accounts are the ones on
/// record, the address derived from the parameter on record is the vault
/// authority supplied and owns the vault, the paying and the
/// receiving account hold the agreed asset and the taker's receive account the
/// deposited one, none of the three is a vault, the taker holds the agreed
/// amount both in the paying account and as liquid balance, and every account
/// credited has room.
pub proof fn lemma_exchange_succeeds_iff(
    s: LedgerView,
    signer: Address,
    accounts: Exchange,
    derived: Option<Address>,
)
    requires
        s.custody(),
        accounts.taker != accounts.initializer,
        accounts.taker_deposit_token_account != accounts.initializer_receive_token_account,
        accounts.taker_receive_token_account != accounts.taker_deposit_token_account,
        accounts.taker_receive_token_account != accounts.initializer_receive_token_account,
    ensures
        s.exchange(signer, accounts, derived) is Ok <==> {
            let escrow = s.escrows[accounts.escrow_state];
            let pays = accounts.taker_deposit_token_account;
            let paid = accounts.initializer_receive_token_account;
            let takes = accounts.taker_receive_token_account;
            &&& s.escrows.contains_key(accounts.escrow_state)
            &&& signer == accounts.taker
            &&& s.owns(accounts.taker, pays)
            &&& s.owns(accounts.taker, takes)
            &&& accounts.matches(escrow)
            &&& derived == Some(accounts.vault_authority)
            &&& accounts.vault_authority == s.tokens[accounts.vault].owner
            &&& s.tokens.contains_key(paid)
            &&& !s.is_vault(pays) && !s.is_vault(paid) && !s.is_vault(takes)
            &&& s.tokens[pays].mint == escrow.state.initializer_receive_mint_account
            &&& s.tokens[paid].mint == escrow.state.initializer_receive_mint_account
            &&& s.tokens[takes].mint == escrow.state.initializer_deposit_mint_account
            &&& s.tokens[pays].amount >= escrow.state.taker_amount
            &&& s.lamports(accounts.taker) >= escrow.state.taker_amount
            &&& s.tokens[paid].amount + escrow.state.taker_amount <= u64::MAX
            &&& s.lamports(accounts.initializer) + escrow.state.taker_amount <= u64::MAX
            &&& s.tokens[takes].amount + escrow.state.initializer_amount <= u64::MAX
        },
{
    if s.escrows.contains_key(accounts.escrow_state) {
        lemma_vault_of(s, accounts.escrow_state);
        let escrow = s.escrows[accounts.escrow_state];
        if accounts.matches(escrow) && derived is Some {
            let by = Authorization::Derived(derived->Some_0);
            match s.transfer_checked(
                accounts.transfer_to_initializer(),
                escrow.state.taker_amount,
                Authorization::Signature(signer),
            ) {
                Ok(paid) => {
                    assert(paid.escrows == s.escrows);
                    assert(paid.tokens[accounts.vault] == s.tokens[accounts.vault]);
                    match paid.transfer(
                        accounts.taker,
                        accounts.initializer,
                        escrow.state.taker_amount,
                        signer,
                    ) {
                        Ok(settled) => {
                            assert(settled.escrows == s.escrows);
                            assert(settled.tokens == paid.tokens);
                            assert(settled.is_vault(accounts.vault));
                            assert(settled.is_vault(accounts.taker_receive_token_account)
                                == s.is_vault(accounts.taker_receive_token_account));
                            match settled.transfer_checked(
                                accounts.transfer_to_taker(),
                                settled.balance(accounts.vault),
                                by,
                            ) {
                                Ok(released) => {
                                    assert(released.escrows == s.escrows);
                                    assert(released.is_vault(accounts.vault));
                                    assert(released.tokens[accounts.vault].amount == 0);
                                },
                                Err(_) => {},
                            }
                        },
                        Err(_) => {},
                    }
                },
                Err(_) => {},
            }
        }
    }
}

/// What a successful `exchange` does, in full, for a taker other than the
/// initializer and three distinct holding accounts: all four movements have
/// happened. The taker's paying account is debited and the initializer's
/// receive account credited by the agreed amount; the same amount of liquid
/// balance has gone from the taker to the initializer; the taker's receive
/// account is credited with the deposit; the vault and the record are gone;
/// and nothing else changes.
pub proof fn lemma_exchange_effect(
    s: LedgerView,
    signer: Address,
    accounts: Exchange,
    derived: Option<Address>,
)
    requires
        s.custody(),
        accounts.taker != accounts.initializer,
        accounts.taker_deposit_token_account != accounts.initializer_receive_token_account,
        accounts.taker_receive_token_account != accounts.taker_deposit_token_account,
        accounts.taker_receive_token_account != accounts.initializer_receive_token_account,
        s.exchange(signer, accounts, derived) is Ok,
    ensures
        ({
            let next = s.exchange(signer, accounts, derived)->Ok_0;
            let escrow = s.escrows[accounts.escrow_state];
            let pays = accounts.taker_deposit_token_account;
            let paid = accounts.initializer_receive_token_account;
            let takes = accounts.taker_receive_token_account;
            &&& next.program_id == s.program_id
            &&& next.escrows == s.escrows.remove(accounts.escrow_state)
            &&& next.wallets == s.wallets.insert(
                accounts.taker,
                (s.lamports(accounts.taker) - escrow.state.taker_amount) as u64,
            ).insert(
                accounts.initializer,
                (s.lamports(accounts.initializer) + escrow.state.taker_amount) as u64,
            )
            &&& next.tokens == s.tokens.insert(
                pays,
                TokenAccount {
                    amount: (s.tokens[pays].amount - escrow.state.taker_amount) as u64,
                    ..s.tokens[pays]
                },
            ).insert(
                paid,
                TokenAccount {
                    amount: (s.tokens[paid].amount + escrow.state.taker_amount) as u64,
                    ..s.tokens[paid]
                },
            ).insert(
                takes,
                TokenAccount {
                    amount: (s.tokens[takes].amount + escrow.state.initializer_amount) as u64,
                    ..s.tokens[takes]
                },
            ).remove(accounts.vault)
        }),
{
    lemma_exchange_succeeds_iff(s, signer, accounts, derived);
    lemma_vault_of(s, accounts.escrow_state);
    let next = s.exchange(signer, accounts, derived)->Ok_0;
    let escrow = s.escrows[accounts.escrow_state];
    let by = Authorization::Derived(derived->Some_0);
    let pays = accounts.taker_deposit_token_account;
    let paid = accounts.initializer_receive_token_account;
    let takes = accounts.taker_receive_token_account;
    let v1 = s.transfer_checked(
        accounts.transfer_to_initializer(),
        escrow.state.taker_amount,
        Authorization::Signature(signer),
    )->Ok_0;
    let v2 = v1.transfer(
        accounts.taker,
        accounts.initializer,
        escrow.state.taker_amount,
        signer,
    )->Ok_0;
    let v3 = v2.transfer_checked(
        accounts.transfer_to_taker(),
        v2.balance(accounts.vault),
        by,
    )->Ok_0;
    let v4 = v3.close_account(accounts.close_vault(), by)->Ok_0;
    assert(v1.tokens[accounts.vault] == s.tokens[accounts.vault]);
    assert(v2.tokens == v1.tokens);
    assert(v2.balance(accounts.vault) == escrow.state.initializer_amount);
    assert(next == v4.without_escrow(accounts.escrow_state));
    assert(next.tokens =~= s.tokens.insert(
        pays,
        TokenAccount {
            amount: (s.tokens[pays].amount - escrow.state.taker_amount) as u64,
            ..s.tokens[pays]
        },
    ).insert(
        paid,
        TokenAccount {
            amount: (s.tokens[paid].amount + escrow.state.taker_amount) as u64,
            ..s.tokens[paid]
        },
    ).insert(
        takes,
        TokenAccount {
            amount: (s.tokens[takes].amount + escrow.state.initializer_amount) as u64,
            ..s.tokens[takes]
        },
    ).remove(accounts.vault));
}

/// Exchange is all or nothing: where it succeeds, each of its four steps has
/// succeeded in turn (the payment, the liquid payment, the release of the
/// vault, the closing of the vault) and the vault and the record are gone;
/// where any of them is refused, the whole operation is, and `exchange` then
/// leaves the ledger as it was.
pub proof fn lemma_exchange_all_or_nothing(
    s: LedgerView,
    signer: Address,
    accounts: Exchange,
    derived: Option<Address>,
)
    requires
        s.exchange(signer, accounts, derived) is Ok,
    ensures
        ({
            let escrow = s.escrows[accounts.escrow_state];
            let by = Authorization::Derived(derived->Some_0);
            let payment = s.transfer_checked(
                accounts.transfer_to_initializer(),
                escrow.state.taker_amount,
                Authorization::Signature(signer),
            );
            let liquid = payment->Ok_0.transfer(
                accounts.taker,
                accounts.initializer,
                escrow.state.taker_amount,
                signer,
            );
            let release = liquid->Ok_0.transfer_checked(
                accounts.transfer_to_taker(),
                liquid->Ok_0.balance(accounts.vault),
                by,
            );
            let closing = release->Ok_0.close_account(accounts.close_vault(), by);
            &&& derived is Some
            &&& payment is Ok
            &&& liquid is Ok
            &&& release is Ok
            &&& closing is Ok
            &&& s.exchange(signer, accounts, derived)->Ok_0 == closing->Ok_0.without_escrow(
                accounts.escrow_state,
            )
            &&& !s.exchange(signer, accounts, derived)->Ok_0.tokens.contains_key(accounts.vault)
            &&& !s.exchange(signer, accounts, derived)->Ok_0.escrows.contains_key(
                accounts.escrow_state,
            )
        }),
{
}

/// A record ends once: after a successful `cancel`, any further `cancel` or
/// `exchange` on the same record, whoever signs it and whatever signature is
/// derived, is refused with `RecordNotFound`.
pub proof fn lemma_cancel_is_terminal(
    s: LedgerView,
    signer: Address,
    accounts: Cancel,
    derived: Option<Address>,
    next_signer: Address,
    next_derived: Option<Address>,
    again: Cancel,
    late: Exchange,
)
    requires
        s.cancel(signer, accounts, derived) is Ok,
        again.escrow_state == accounts.escrow_state,
        late.escrow_state == accounts.escrow_state,
    ensures
        ({
            let next = s.cancel(signer, accounts, derived)->Ok_0;
            &&& !next.escrows.contains_key(accounts.escrow_state)
            &&& next.cancel(next_signer, again, next_derived) == Err::<LedgerView, EscrowError>(
                EscrowError::RecordNotFound,
            )
            &&& next.exchange(next_signer, late, next_derived) == Err::<LedgerView, EscrowError>(
                EscrowError::RecordNotFound,
            )
        }),
{
}

/// A record ends once: after a successful `exchange`, any further `cancel` or
/// `exchange` on the same record, whoever signs it and whatever signature is
/// derived, is refused with `RecordNotFound`.
pub proof fn lemma_exchange_is_terminal(
    s: LedgerView,
    signer: Address,
    accounts: Exchange,
    derived: Option<Address>,
    next_signer: Address,
    next_derived: Option<Address>,
    late: Cancel,
    again: Exchange,
)
    requires
        s.exchange(signer, accounts, derived) is Ok,
        late.escrow_state == accounts.escrow_state,
        again.escrow_state == accounts.escrow_state,
    ensures
        ({
            let next = s.exchange(signer, accounts, derived)->Ok_0;
            &&& !next.escrows.contains_key(accounts.escrow_state)
            &&& next.cancel(next_signer, late, next_derived) == Err::<LedgerView, EscrowError>(
                EscrowError::RecordNotFound,
            )
            &&& next.exchange(next_signer, again, next_derived) == Err::<
                LedgerView,
                EscrowError,
            >(EscrowError::RecordNotFound)
        }),
{
}

/// `initialize` conserves the deposit: what the deposit account and the vault
/// hold together is the same before and after.
pub proof fn lemma_initialize_conserves(
    s: LedgerView,
    signer: Address,
    accounts: Initialize,
    random_seed: u64,
    initializer_amount: u64,
    taker_amount: u64,
    authority: Address,
    bump: u8,
)
    requires
        s.initialize(
            signer,
            accounts,
            random_seed,
            initializer_amount,
            taker_amount,
            authority,
            bump,
        ) is Ok,
    ensures
        ({
            let next = s.initialize(
                signer,
                accounts,
                random_seed,
                initializer_amount,
                taker_amount,
                authority,
                bump,
            )->Ok_0;
            let deposit = accounts.initializer_deposit_token_account;
            &&& s.balance(accounts.vault) == 0
            &&& next.balance(accounts.vault) == initializer_amount
            &&& next.balance(deposit) + next.balance(accounts.vault) == s.balance(deposit)
                + s.balance(accounts.vault)
        }),
{
}

/// `cancel` conserves the deposit: what the deposit account and the vault
/// hold together is the same before and after, and the vault ends empty.
pub proof fn lemma_cancel_conserves(
    s: LedgerView,
    signer: Address,
    accounts: Cancel,
    derived: Option<Address>,
)
    requires
        s.cancel(signer, accounts, derived) is Ok,
    ensures
        ({
            let next = s.cancel(signer, accounts, derived)->Ok_0;
            let deposit = accounts.initializer_deposit_token_account;
            &&& next.balance(accounts.vault) == 0
            &&& next.balance(deposit) + next.balance(accounts.vault) == s.balance(deposit)
                + s.balance(accounts.vault)
        }),
{
}

/// `exchange` conserves the payment: where the taker's receive account is
/// neither the paying account nor the initializer's receive account, what
/// those two hold together is the same before and after; and what the taker
/// and the initializer hold together as liquid balance is the same before and
/// after.
pub proof fn lemma_exchange_conserves(
    s: LedgerView,
    signer: Address,
    accounts: Exchange,
    derived: Option<Address>,
)
    requires
        s.exchange(signer, accounts, derived) is Ok,
        accounts.taker_receive_token_account != accounts.taker_deposit_token_account,
        accounts.taker_receive_token_account != accounts.initializer_receive_token_account,
    ensures
        ({
            let next = s.exchange(signer, accounts, derived)->Ok_0;
            let pays = accounts.taker_deposit_token_account;
            let paid = accounts.initializer_receive_token_account;
            &&& next.balance(pays) + next.balance(paid) == s.balance(pays) + s.balance(paid)
            &&& next.lamports(accounts.taker) + next.lamports(accounts.initializer)
                == s.lamports(accounts.taker) + s.lamports(accounts.initializer)
        }),
{
    lemma_exchange_release_authorized(s, signer, accounts, derived);
    let escrow = s.escrows[accounts.escrow_state];
    let by = Authorization::Derived(derived->Some_0);
    let v1 = s.transfer_checked(
        accounts.transfer_to_initializer(),
        escrow.state.taker_amount,
        Authorization::Signature(signer),
    )->Ok_0;
    let v2 = v1.transfer(
        accounts.taker,
        accounts.initializer,
        escrow.state.taker_amount,
        signer,
    )->Ok_0;
    let v3 = v2.transfer_checked(
        accounts.transfer_to_taker(),
        v2.balance(accounts.vault),
        by,
    )->Ok_0;
    assert(v2.tokens == v1.tokens);
    assert(v3.wallets == v2.wallets);
}

/// A record is written once: `initialize` adds one record and leaves every
/// other as it was, and `cancel` and `exchange` destroy one record and leave
/// every other as it was. No operation changes a record that stays.
pub proof fn lemma_records_are_never_rewritten(
    s: LedgerView,
    signer: Address,
    opening: Initialize,
    random_seed: u64,
    initializer_amount: u64,
    taker_amount: u64,
    authority: Address,
    bump: u8,
    cancelling: Cancel,
    exchanging: Exchange,
    derived: Option<Address>,
    key: EscrowKey,
)
    requires
        s.escrows.contains_key(key),
    ensures
        s.initialize(
            signer,
            opening,
            random_seed,
            initializer_amount,
            taker_amount,
            authority,
            bump,
        ) matches Ok(next) ==> next.escrows.contains_key(key) && next.escrows[key]
            == s.escrows[key],
        s.cancel(signer, cancelling, derived) matches Ok(next) ==> if key
            == cancelling.escrow_state {
            !next.escrows.contains_key(key)
        } else {
            next.escrows.contains_key(key) && next.escrows[key] == s.escrows[key]
        },
        s.exchange(signer, exchanging, derived) matches Ok(next) ==> if key
            == exchanging.escrow_state {
            !next.escrows.contains_key(key)
        } else {
            next.escrows.contains_key(key) && next.escrows[key] == s.escrows[key]
        },
{
}

/// `initialize` keeps custody: on a ledger in custody, the ledger after a
/// successful `initialize` is in custody again.
pub proof fn lemma_initialize_keeps_custody(
    s: LedgerView,
    signer: Address,
    accounts: Initialize,
    random_seed: u64,
    initializer_amount: u64,
    taker_amount: u64,
    authority: Address,
    bump: u8,
)
    requires
        s.custody(),
        s.initialize(
            signer,
            accounts,
            random_seed,
            initializer_amount,
            taker_amount,
            authority,
            bump,
        ) is Ok,
    ensures
        s.initialize(
            signer,
            accounts,
            random_seed,
            initializer_amount,
            taker_amount,
            authority,
            bump,
        )->Ok_0.custody(),
{
    let next = s.initialize(
        signer,
        accounts,
        random_seed,
        initializer_amount,
        taker_amount,
        authority,
        bump,
    )->Ok_0;
    let funded = s.with_account(
        accounts.vault,
        accounts.mint,
        accounts.vault_authority,
    ).transfer_checked(
        accounts.transfer_to_pda(),
        initializer_amount,
        Authorization::Signature(signer),
    )->Ok_0;
    s.lemma_custody_frame(funded);
    funded.lemma_with_escrow_listed(
        accounts.key(random_seed),
        next.escrows[accounts.key(random_seed)],
    );
}

/// `cancel` keeps custody: on a ledger in custody, the ledger after a
/// successful `cancel` is in custody again.
pub proof fn lemma_cancel_keeps_custody(
    s: LedgerView,
    signer: Address,
    accounts: Cancel,
    derived: Option<Address>,
)
    requires
        s.custody(),
        s.cancel(signer, accounts, derived) is Ok,
    ensures
        s.cancel(signer, accounts, derived)->Ok_0.custody(),
{
    let by = Authorization::Derived(derived->Some_0);
    let refunded = s.transfer_checked(
        accounts.transfer_to_initializer(),
        s.balance(accounts.vault),
        by,
    )->Ok_0;
    let closed = refunded.close_account(accounts.close_vault(), by)->Ok_0;
    closed.lemma_without_escrow_listed(accounts.escrow_state);
    s.lemma_custody_frame(s.cancel(signer, accounts, derived)->Ok_0);
}

/// `exchange` keeps custody: on a ledger in custody, the ledger after a
/// successful `exchange` is in custody again.
pub proof fn lemma_exchange_keeps_custody(
    s: LedgerView,
    signer: Address,
    accounts: Exchange,
    derived: Option<Address>,
)
    requires
        s.custody(),
        s.exchange(signer, accounts, derived) is Ok,
    ensures
        s.exchange(signer, accounts, derived)->Ok_0.custody(),
{
    let escrow = s.escrows[accounts.escrow_state];
    let by = Authorization::Derived(derived->Some_0);
    let paid = s.transfer_checked(
        accounts.transfer_to_initializer(),
        escrow.state.taker_amount,
        Authorization::Signature(signer),
    )->Ok_0;
    let settled = paid.transfer(
        accounts.taker,
        accounts.initializer,
        escrow.state.taker_amount,
        signer,
    )->Ok_0;
    let released = settled.transfer_checked(
        accounts.transfer_to_taker(),
        settled.balance(accounts.vault),
        by,
    )->Ok_0;
    let closed = released.close_account(accounts.close_vault(), by)->Ok_0;
    closed.lemma_without_escrow_listed(accounts.escrow_state);
    s.lemma_custody_frame(s.exchange(signer, accounts, derived)->Ok_0);
}

/// Cancel undoes initialize: on a ledger in custody, an escrow that
/// `initialize` has opened is cancelled by its initializer, under the derived
/// signature of the vault authority it was opened with, and the ledger is
/// then as it was before the escrow was opened.
pub proof fn lemma_cancel_undoes_initialize(
    s: LedgerView,
    accounts: Initialize,
    random_seed: u64,
    initializer_amount: u64,
    taker_amount: u64,
    authority: Address,
    bump: u8,
)
    requires
        s.custody(),
        s.initialize(
            accounts.initializer,
            accounts,
            random_seed,
            initializer_amount,
            taker_amount,
            authority,
            bump,
        ) is Ok,
    ensures
        ({
            let opened = s.initialize(
                accounts.initializer,
                accounts,
                random_seed,
                initializer_amount,
                taker_amount,
                authority,
                bump,
            )->Ok_0;
            let back = Cancel {
                initializer: accounts.initializer,
                mint: accounts.mint,
                vault: accounts.vault,
                vault_authority: accounts.vault_authority,
                initializer_deposit_token_account: accounts.initializer_deposit_token_account,
                escrow_state: accounts.key(random_seed),
            };
            opened.cancel(accounts.initializer, back, Some(authority)) == Ok::<
                LedgerView,
                EscrowError,
            >(s)
        }),
{
    let signer = accounts.initializer;
    lemma_initialize_effect(
        s,
        signer,
        accounts,
        random_seed,
        initializer_amount,
        taker_amount,
        authority,
        bump,
    );
    let opened = s.initialize(
        signer,
        accounts,
        random_seed,
        initializer_amount,
        taker_amount,
        authority,
        bump,
    )->Ok_0;
    let key = accounts.key(random_seed);
    let deposit = accounts.initializer_deposit_token_account;
    let back = Cancel {
        initializer: accounts.initializer,
        mint: accounts.mint,
        vault: accounts.vault,
        vault_authority: accounts.vault_authority,
        initializer_deposit_token_account: deposit,
        escrow_state: key,
    };
    lemma_initialize_keeps_custody(
        s,
        signer,
        accounts,
        random_seed,
        initializer_amount,
        taker_amount,
        authority,
        bump,
    );
    lemma_cancel_succeeds_iff(opened, signer, back, Some(authority));
    lemma_cancel_effect(opened, signer, back, Some(authority));
    let closed = opened.cancel(signer, back, Some(authority))->Ok_0;
    assert(closed.tokens =~= s.tokens);
    assert(closed.escrows =~= s.escrows);
    assert(closed =~= s);
}

} // verus!
