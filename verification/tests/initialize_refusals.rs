use solana_nft_escrow::address::Address;
use solana_nft_escrow::authority::find_vault_authority;
use solana_nft_escrow::error::EscrowError;
use solana_nft_escrow::instructions::{
    cancel, initialize, initialize_with_authority, Cancel, Initialize,
};
use solana_nft_escrow::ledger::{EscrowKey, Ledger};

fn addr(tag: u8) -> Address {
    Address::new([tag; 32])
}

const PROGRAM: u8 = 200;
const ALICE: u8 = 1;
const BOB: u8 = 2;
const MINT_A: u8 = 10;
const MINT_B: u8 = 11;
const ALICE_A: u8 = 20;
const ALICE_B: u8 = 21;
const BOB_A: u8 = 22;
const VAULT: u8 = 30;

fn authority() -> (Address, u8) {
    find_vault_authority(&addr(PROGRAM)).expect("an authority")
}

fn ledger() -> Ledger {
    let mut ledger = Ledger::new(addr(PROGRAM));
    assert_eq!(ledger.fund(&addr(ALICE), 1000), Ok(()));
    assert_eq!(ledger.create_token_account(&addr(ALICE_A), &addr(MINT_A), &addr(ALICE)), Ok(()));
    assert_eq!(ledger.create_token_account(&addr(ALICE_B), &addr(MINT_B), &addr(ALICE)), Ok(()));
    assert_eq!(ledger.create_token_account(&addr(BOB_A), &addr(MINT_A), &addr(BOB)), Ok(()));
    assert_eq!(ledger.mint_to(&addr(ALICE_A), 100), Ok(()));
    ledger
}

fn accounts() -> Initialize {
    Initialize {
        initializer: addr(ALICE),
        mint: addr(MINT_A),
        vault_authority: authority().0,
        vault: addr(VAULT),
        taker_key: addr(BOB),
        initializer_deposit_token_account: addr(ALICE_A),
        initializer_receive_token_account: addr(ALICE_B),
        initializer_receive_mint_account: addr(MINT_B),
    }
}

fn untouched(ledger: &Ledger) {
    assert_eq!(ledger.balance(&addr(ALICE_A)), 100);
    assert_eq!(ledger.lamports(&addr(ALICE)), 1000);
    assert_eq!(ledger.token_account(&addr(VAULT)), None);
    assert_eq!(ledger.escrow(&EscrowKey { initializer: addr(ALICE), random_seed: 1 }), None);
}

#[test]
fn deposit_larger_than_the_holding_is_refused() {
    let mut l = ledger();
    assert_eq!(initialize(&mut l, &accounts().initializer, &accounts(), 1, 101, 50), Err(EscrowError::InsufficientBalance));
    untouched(&l);
}

#[test]
fn deposit_larger_than_the_liquid_balance_is_refused() {
    let mut l = ledger();
    assert_eq!(l.mint_to(&addr(ALICE_A), 5000), Ok(()));
    assert_eq!(initialize(&mut l, &accounts().initializer, &accounts(), 1, 1001, 50), Err(EscrowError::InsufficientBalance));
    assert_eq!(l.balance(&addr(ALICE_A)), 5100);
    assert_eq!(initialize(&mut l, &accounts().initializer, &accounts(), 1, 1000, 50), Ok(()));
    assert_eq!(l.balance(&addr(ALICE_A)), 4100);
    assert_eq!(l.balance(&addr(VAULT)), 1000);
    assert_eq!(l.lamports(&addr(ALICE)), 1000);
}

#[test]
fn a_seed_in_use_by_the_initializer_is_refused() {
    let mut l = ledger();
    assert_eq!(initialize(&mut l, &accounts().initializer, &accounts(), 1, 60, 50), Ok(()));
    let second = Initialize { vault: addr(31), ..accounts() };
    assert_eq!(initialize(&mut l, &second.initializer, &second, 1, 40, 50), Err(EscrowError::DuplicateRecord));
    assert_eq!(l.balance(&addr(ALICE_A)), 40);
    assert_eq!(l.token_account(&addr(31)), None);
    // Another seed of the same initializer is free.
    assert_eq!(initialize(&mut l, &second.initializer, &second, 2, 40, 50), Ok(()));
    assert_eq!(l.balance(&addr(ALICE_A)), 0);
    assert_eq!(l.balance(&addr(VAULT)), 60);
    assert_eq!(l.balance(&addr(31)), 40);
}

#[test]
fn the_same_seed_is_free_for_another_initializer() {
    let mut l = ledger();
    assert_eq!(initialize(&mut l, &accounts().initializer, &accounts(), 1, 60, 50), Ok(()));
    assert_eq!(l.fund(&addr(BOB), 10), Ok(()));
    assert_eq!(l.mint_to(&addr(BOB_A), 7), Ok(()));
    assert_eq!(l.create_token_account(&addr(23), &addr(MINT_B), &addr(BOB)), Ok(()));
    let bobs = Initialize {
        initializer: addr(BOB),
        vault: addr(31),
        taker_key: addr(ALICE),
        initializer_deposit_token_account: addr(BOB_A),
        initializer_receive_token_account: addr(23),
        ..accounts()
    };
    assert_eq!(initialize(&mut l, &bobs.initializer, &bobs, 1, 7, 3), Ok(()));
    assert_eq!(l.balance(&addr(31)), 7);
    assert!(l.escrow(&EscrowKey { initializer: addr(BOB), random_seed: 1 }).is_some());
    assert!(l.escrow(&EscrowKey { initializer: addr(ALICE), random_seed: 1 }).is_some());
}

#[test]
fn a_seed_is_free_again_once_its_record_is_closed() {
    let mut l = ledger();
    assert_eq!(initialize(&mut l, &accounts().initializer, &accounts(), 1, 60, 50), Ok(()));
    let back = Cancel {
        initializer: addr(ALICE),
        mint: addr(MINT_A),
        vault: addr(VAULT),
        vault_authority: authority().0,
        initializer_deposit_token_account: addr(ALICE_A),
        escrow_state: EscrowKey { initializer: addr(ALICE), random_seed: 1 },
    };
    assert_eq!(cancel(&mut l, &back.initializer, &back), Ok(()));
    assert_eq!(initialize(&mut l, &accounts().initializer, &accounts(), 1, 100, 50), Ok(()));
    assert_eq!(l.balance(&addr(VAULT)), 100);
}

#[test]
fn holding_accounts_of_another_owner_are_refused() {
    let mut l = ledger();
    let mine = Initialize { initializer_deposit_token_account: addr(BOB_A), ..accounts() };
    assert_eq!(initialize(&mut l, &mine.initializer, &mine, 1, 0, 50), Err(EscrowError::AuthorizationFailure));
    let mine = Initialize { initializer_receive_token_account: addr(BOB_A), ..accounts() };
    assert_eq!(initialize(&mut l, &mine.initializer, &mine, 1, 100, 50), Err(EscrowError::AuthorizationFailure));
    let mine = Initialize { initializer_deposit_token_account: addr(99), ..accounts() };
    assert_eq!(initialize(&mut l, &mine.initializer, &mine, 1, 100, 50), Err(EscrowError::AuthorizationFailure));
    let mine = Initialize { initializer: addr(BOB), ..accounts() };
    assert_eq!(initialize(&mut l, &mine.initializer, &mine, 1, 0, 50), Err(EscrowError::AuthorizationFailure));
    untouched(&l);
}

#[test]
fn initialize_signed_by_another_identity_is_refused() {
    let mut l = ledger();
    assert_eq!(
        initialize(&mut l, &addr(BOB), &accounts(), 1, 100, 50),
        Err(EscrowError::AuthorizationFailure)
    );
    untouched(&l);
}

#[test]
fn another_vault_authority_is_refused() {
    let mut l = ledger();
    let wrong = Initialize { vault_authority: addr(ALICE), ..accounts() };
    assert_eq!(initialize(&mut l, &wrong.initializer, &wrong, 1, 100, 50), Err(EscrowError::AccountMismatch));
    untouched(&l);
}

#[test]
fn a_vault_address_in_use_is_refused() {
    let mut l = ledger();
    let wrong = Initialize { vault: addr(BOB_A), ..accounts() };
    assert_eq!(initialize(&mut l, &wrong.initializer, &wrong, 1, 100, 50), Err(EscrowError::AccountMismatch));
    untouched(&l);
    assert_eq!(l.balance(&addr(BOB_A)), 0);
}

#[test]
fn a_deposit_account_of_another_asset_is_refused() {
    let mut l = ledger();
    let wrong = Initialize { mint: addr(MINT_B), ..accounts() };
    assert_eq!(initialize(&mut l, &wrong.initializer, &wrong, 1, 100, 50), Err(EscrowError::AccountMismatch));
    untouched(&l);
}

#[test]
fn a_vault_cannot_pay_a_deposit() {
    // An account that is in custody moves only under the authority's derived
    // signature, whoever claims to own it.
    let (authority, _) = authority();
    let mut l = ledger();
    assert_eq!(l.fund(&authority, 10), Ok(()));
    assert_eq!(l.create_token_account(&addr(40), &addr(MINT_B), &authority), Ok(()));
    assert_eq!(initialize(&mut l, &accounts().initializer, &accounts(), 1, 100, 50), Ok(()));
    let raid = Initialize {
        initializer: authority,
        vault: addr(31),
        initializer_deposit_token_account: addr(VAULT),
        initializer_receive_token_account: addr(40),
        ..accounts()
    };
    assert_eq!(initialize(&mut l, &raid.initializer, &raid, 7, 10, 1), Err(EscrowError::AuthorizationFailure));
    assert_eq!(l.balance(&addr(VAULT)), 100);
    assert_eq!(l.token_account(&addr(31)), None);
}

#[test]
fn an_empty_deposit_opens_an_escrow_too() {
    let mut l = ledger();
    assert_eq!(initialize(&mut l, &accounts().initializer, &accounts(), 9, 0, 0), Ok(()));
    assert_eq!(l.balance(&addr(ALICE_A)), 100);
    assert_eq!(l.balance(&addr(VAULT)), 0);
    assert!(l.is_vault(&addr(VAULT)));
    assert!(l.escrow(&EscrowKey { initializer: addr(ALICE), random_seed: 9 }).is_some());
}

#[test]
fn initialize_with_the_authority_found_is_initialize() {
    let (authority, bump) = authority();
    let mut a = ledger();
    let mut b = ledger();
    assert_eq!(initialize(&mut a, &accounts().initializer, &accounts(), 1, 100, 50), Ok(()));
    assert_eq!(
        initialize_with_authority(&mut b, &accounts().initializer, &accounts(), 1, 100, 50, &authority, bump),
        Ok(())
    );
    let key = EscrowKey { initializer: addr(ALICE), random_seed: 1 };
    assert_eq!(a.escrow(&key), b.escrow(&key));
    assert_eq!(a.token_account(&addr(VAULT)), b.token_account(&addr(VAULT)));
    assert_eq!(a.balance(&addr(ALICE_A)), b.balance(&addr(ALICE_A)));
}

#[test]
fn cancel_into_a_full_account_is_refused() {
    let mut l = ledger();
    assert_eq!(initialize(&mut l, &accounts().initializer, &accounts(), 1, 100, 50), Ok(()));
    assert_eq!(l.mint_to(&addr(ALICE_A), u64::MAX - 99), Ok(()));
    let back = Cancel {
        initializer: addr(ALICE),
        mint: addr(MINT_A),
        vault: addr(VAULT),
        vault_authority: authority().0,
        initializer_deposit_token_account: addr(ALICE_A),
        escrow_state: EscrowKey { initializer: addr(ALICE), random_seed: 1 },
    };
    assert_eq!(cancel(&mut l, &back.initializer, &back), Err(EscrowError::BalanceOverflow));
    assert_eq!(l.balance(&addr(ALICE_A)), u64::MAX - 99);
    assert_eq!(l.balance(&addr(VAULT)), 100);
    assert!(l.escrow(&back.escrow_state).is_some());
}
