use solana_nft_escrow::address::Address;
use solana_nft_escrow::authority::find_vault_authority;
use solana_nft_escrow::error::EscrowError;
use solana_nft_escrow::instructions::{
    cancel, cancel_with_authority, exchange, exchange_with_authority, initialize, Cancel, Exchange,
    Initialize,
};
use solana_nft_escrow::ledger::{EscrowKey, Ledger, TokenAccount};

fn addr(tag: u8) -> Address {
    Address::new([tag; 32])
}

const PROGRAM: u8 = 200;
const ALICE: u8 = 1;
const BOB: u8 = 2;
const MALLORY: u8 = 3;
const MINT_A: u8 = 10;
const MINT_B: u8 = 11;
const ALICE_A: u8 = 20;
const ALICE_B: u8 = 21;
const BOB_A: u8 = 22;
const BOB_B: u8 = 23;
const VAULT: u8 = 30;

struct World {
    ledger: Ledger,
    authority: Address,
    bump: u8,
}

/// Alice holds 100 A and 1000 of liquid balance; Bob holds 50 B and 60 of
/// liquid balance.
fn world() -> World {
    let (authority, bump) = find_vault_authority(&addr(PROGRAM)).expect("an authority");
    let mut ledger = Ledger::new(addr(PROGRAM));
    assert_eq!(ledger.fund(&addr(ALICE), 1000), Ok(()));
    assert_eq!(ledger.fund(&addr(BOB), 60), Ok(()));
    assert_eq!(ledger.create_token_account(&addr(ALICE_A), &addr(MINT_A), &addr(ALICE)), Ok(()));
    assert_eq!(ledger.create_token_account(&addr(ALICE_B), &addr(MINT_B), &addr(ALICE)), Ok(()));
    assert_eq!(ledger.create_token_account(&addr(BOB_A), &addr(MINT_A), &addr(BOB)), Ok(()));
    assert_eq!(ledger.create_token_account(&addr(BOB_B), &addr(MINT_B), &addr(BOB)), Ok(()));
    assert_eq!(ledger.mint_to(&addr(ALICE_A), 100), Ok(()));
    assert_eq!(ledger.mint_to(&addr(BOB_B), 50), Ok(()));
    World { ledger, authority, bump }
}

fn key() -> EscrowKey {
    EscrowKey { initializer: addr(ALICE), random_seed: 1 }
}

fn initialize_accounts(w: &World) -> Initialize {
    Initialize {
        initializer: addr(ALICE),
        mint: addr(MINT_A),
        vault_authority: w.authority,
        vault: addr(VAULT),
        taker_key: addr(BOB),
        initializer_deposit_token_account: addr(ALICE_A),
        initializer_receive_token_account: addr(ALICE_B),
        initializer_receive_mint_account: addr(MINT_B),
    }
}

fn cancel_accounts(w: &World) -> Cancel {
    Cancel {
        initializer: addr(ALICE),
        mint: addr(MINT_A),
        vault: addr(VAULT),
        vault_authority: w.authority,
        initializer_deposit_token_account: addr(ALICE_A),
        escrow_state: key(),
    }
}

fn exchange_accounts(w: &World) -> Exchange {
    Exchange {
        taker: addr(BOB),
        initializer_deposit_token_mint: addr(MINT_A),
        taker_deposit_token_mint: addr(MINT_B),
        taker_deposit_token_account: addr(BOB_B),
        taker_receive_token_account: addr(BOB_A),
        initializer_deposit_token_account: addr(ALICE_A),
        initializer_receive_token_account: addr(ALICE_B),
        initializer: addr(ALICE),
        escrow_state: key(),
        vault: addr(VAULT),
        vault_authority: w.authority,
    }
}

/// Alice has deposited 100 A under seed 1, expecting 50 B.
fn opened() -> World {
    let mut w = world();
    let accounts = initialize_accounts(&w);
    assert_eq!(initialize(&mut w.ledger, &accounts.initializer, &accounts, 1, 100, 50), Ok(()));
    w
}

/// What a test looks at: the balances of the four holding accounts and of the
/// vault, the liquid balances of both parties, and whether the record exists.
fn observed(ledger: &Ledger) -> ([u64; 5], [u64; 2], bool) {
    (
        [
            ledger.balance(&addr(ALICE_A)),
            ledger.balance(&addr(ALICE_B)),
            ledger.balance(&addr(BOB_A)),
            ledger.balance(&addr(BOB_B)),
            ledger.balance(&addr(VAULT)),
        ],
        [ledger.lamports(&addr(ALICE)), ledger.lamports(&addr(BOB))],
        ledger.escrow(&key()).is_some(),
    )
}

#[test]
fn initialize_moves_the_deposit_into_the_vault() {
    let w = opened();
    assert_eq!(observed(&w.ledger), ([0, 0, 0, 50, 100], [1000, 60], true));
    assert_eq!(
        w.ledger.token_account(&addr(VAULT)),
        Some(TokenAccount { mint: addr(MINT_A), owner: w.authority, amount: 100 })
    );
    assert!(w.ledger.is_vault(&addr(VAULT)));
    assert!(!w.ledger.is_vault(&addr(ALICE_A)));
}

#[test]
fn initialize_writes_the_record() {
    let w = opened();
    let escrow = w.ledger.escrow(&key()).expect("a record");
    assert_eq!(escrow.vault, addr(VAULT));
    assert_eq!(escrow.state.random_seed, 1);
    assert_eq!(escrow.state.initializer_key, addr(ALICE));
    assert_eq!(escrow.state.taker_key, addr(BOB));
    assert_eq!(escrow.state.initializer_deposit_token_account, addr(ALICE_A));
    assert_eq!(escrow.state.initializer_receive_token_account, addr(ALICE_B));
    assert_eq!(escrow.state.initializer_deposit_mint_account, addr(MINT_A));
    assert_eq!(escrow.state.initializer_receive_mint_account, addr(MINT_B));
    assert_eq!(escrow.state.initializer_amount, 100);
    assert_eq!(escrow.state.taker_amount, 50);
    assert_eq!(escrow.state.vault_authority_bump, w.bump);
}

#[test]
fn happy_path_deposit_and_cancel() {
    let mut w = opened();
    let accounts = cancel_accounts(&w);
    assert_eq!(cancel(&mut w.ledger, &accounts.initializer, &accounts), Ok(()));
    assert_eq!(observed(&w.ledger), ([100, 0, 0, 50, 0], [1000, 60], false));
    assert_eq!(w.ledger.token_account(&addr(VAULT)), None);
    assert!(!w.ledger.is_vault(&addr(VAULT)));
}

#[test]
fn happy_path_swap() {
    let mut w = opened();
    let accounts = exchange_accounts(&w);
    assert_eq!(exchange(&mut w.ledger, &accounts.taker, &accounts), Ok(()));
    assert_eq!(observed(&w.ledger), ([0, 50, 100, 0, 0], [1050, 10], false));
    assert_eq!(w.ledger.token_account(&addr(VAULT)), None);
}

#[test]
fn double_cancel() {
    let mut w = opened();
    let accounts = cancel_accounts(&w);
    assert_eq!(cancel(&mut w.ledger, &accounts.initializer, &accounts), Ok(()));
    let after = observed(&w.ledger);
    assert_eq!(cancel(&mut w.ledger, &accounts.initializer, &accounts), Err(EscrowError::RecordNotFound));
    assert_eq!(observed(&w.ledger), after);
}

#[test]
fn account_substitution_rejected() {
    let mut w = opened();
    let before = observed(&w.ledger);
    let accounts = Exchange {
        initializer_deposit_token_account: addr(BOB_A),
        ..exchange_accounts(&w)
    };
    assert_eq!(exchange(&mut w.ledger, &accounts.taker, &accounts), Err(EscrowError::AccountMismatch));
    assert_eq!(observed(&w.ledger), before);
}

#[test]
fn receive_account_substitution_rejected() {
    let mut w = opened();
    let before = observed(&w.ledger);
    let accounts = Exchange {
        initializer_receive_token_account: addr(BOB_B),
        ..exchange_accounts(&w)
    };
    assert_eq!(exchange(&mut w.ledger, &accounts.taker, &accounts), Err(EscrowError::AccountMismatch));
    assert_eq!(observed(&w.ledger), before);
}

#[test]
fn cancel_by_another_identity_is_refused() {
    let mut w = opened();
    let before = observed(&w.ledger);
    let accounts = cancel_accounts(&w);
    for who in [BOB, MALLORY] {
        // Another identity signs, naming the initializer.
        assert_eq!(
            cancel(&mut w.ledger, &addr(who), &accounts),
            Err(EscrowError::AuthorizationFailure)
        );
        // Another identity signs, naming itself.
        let own = Cancel { initializer: addr(who), ..accounts };
        assert_eq!(cancel(&mut w.ledger, &addr(who), &own), Err(EscrowError::AuthorizationFailure));
        // The initializer signs, naming another identity.
        assert_eq!(
            cancel(&mut w.ledger, &addr(ALICE), &own),
            Err(EscrowError::AuthorizationFailure)
        );
        assert_eq!(observed(&w.ledger), before);
    }
    assert_eq!(cancel(&mut w.ledger, &addr(ALICE), &accounts), Ok(()));
}

#[test]
fn exchange_signed_by_another_identity_is_refused() {
    let mut w = opened();
    let before = observed(&w.ledger);
    let accounts = exchange_accounts(&w);
    for who in [ALICE, MALLORY] {
        assert_eq!(
            exchange(&mut w.ledger, &addr(who), &accounts),
            Err(EscrowError::AuthorizationFailure)
        );
        assert_eq!(observed(&w.ledger), before);
    }
}

#[test]
fn cancel_into_another_deposit_account_is_refused() {
    let mut w = opened();
    let before = observed(&w.ledger);
    let accounts = Cancel {
        initializer_deposit_token_account: addr(BOB_A),
        ..cancel_accounts(&w)
    };
    assert_eq!(cancel(&mut w.ledger, &accounts.initializer, &accounts), Err(EscrowError::AccountMismatch));
    assert_eq!(observed(&w.ledger), before);
}

#[test]
fn cancel_under_another_authority_is_refused() {
    let mut w = opened();
    let before = observed(&w.ledger);
    let accounts = Cancel { vault_authority: addr(ALICE), ..cancel_accounts(&w) };
    assert_eq!(cancel(&mut w.ledger, &accounts.initializer, &accounts), Err(EscrowError::AuthorizationFailure));
    assert_eq!(observed(&w.ledger), before);
}

#[test]
fn exchange_under_another_authority_pays_nothing() {
    let mut w = opened();
    let before = observed(&w.ledger);
    let accounts = Exchange { vault_authority: addr(BOB), ..exchange_accounts(&w) };
    assert_eq!(exchange(&mut w.ledger, &accounts.taker, &accounts), Err(EscrowError::AuthorizationFailure));
    assert_eq!(observed(&w.ledger), before);
}

#[test]
fn after_exchange_the_record_is_gone_for_good() {
    let mut w = opened();
    let swap = exchange_accounts(&w);
    let back = cancel_accounts(&w);
    assert_eq!(exchange(&mut w.ledger, &swap.taker, &swap), Ok(()));
    let after = observed(&w.ledger);
    assert_eq!(exchange(&mut w.ledger, &swap.taker, &swap), Err(EscrowError::RecordNotFound));
    assert_eq!(cancel(&mut w.ledger, &back.initializer, &back), Err(EscrowError::RecordNotFound));
    assert_eq!(observed(&w.ledger), after);
}

#[test]
fn after_cancel_an_exchange_finds_no_record() {
    let mut w = opened();
    let swap = exchange_accounts(&w);
    let back = cancel_accounts(&w);
    assert_eq!(cancel(&mut w.ledger, &back.initializer, &back), Ok(()));
    let after = observed(&w.ledger);
    assert_eq!(exchange(&mut w.ledger, &swap.taker, &swap), Err(EscrowError::RecordNotFound));
    assert_eq!(observed(&w.ledger), after);
}

#[test]
fn operations_on_a_record_never_opened_find_none() {
    let mut w = world();
    let before = observed(&w.ledger);
    let swap = exchange_accounts(&w);
    let back = cancel_accounts(&w);
    assert_eq!(cancel(&mut w.ledger, &back.initializer, &back), Err(EscrowError::RecordNotFound));
    assert_eq!(exchange(&mut w.ledger, &swap.taker, &swap), Err(EscrowError::RecordNotFound));
    assert_eq!(observed(&w.ledger), before);
}

#[test]
fn deposit_and_vault_together_hold_the_same_throughout() {
    let mut w = world();
    let total = |l: &Ledger| l.balance(&addr(ALICE_A)) + l.balance(&addr(VAULT));
    assert_eq!(total(&w.ledger), 100);
    let open = initialize_accounts(&w);
    assert_eq!(initialize(&mut w.ledger, &open.initializer, &open, 1, 100, 50), Ok(()));
    assert_eq!(total(&w.ledger), 100);
    let back = cancel_accounts(&w);
    assert_eq!(cancel(&mut w.ledger, &back.initializer, &back), Ok(()));
    assert_eq!(total(&w.ledger), 100);
}

#[test]
fn payment_is_conserved_across_exchange() {
    let mut w = opened();
    let paid = |l: &Ledger| l.balance(&addr(BOB_B)) + l.balance(&addr(ALICE_B));
    let liquid = |l: &Ledger| l.lamports(&addr(BOB)) + l.lamports(&addr(ALICE));
    assert_eq!((paid(&w.ledger), liquid(&w.ledger)), (50, 1060));
    let swap = exchange_accounts(&w);
    assert_eq!(exchange(&mut w.ledger, &swap.taker, &swap), Ok(()));
    assert_eq!((paid(&w.ledger), liquid(&w.ledger)), (50, 1060));
}

#[test]
fn exchange_that_fails_at_the_release_moves_nothing() {
    let mut w = opened();
    // Bob's receive account has room for 99 more, the vault holds 100.
    assert_eq!(w.ledger.mint_to(&addr(BOB_A), u64::MAX - 99), Ok(()));
    let before = observed(&w.ledger);
    let swap = exchange_accounts(&w);
    assert_eq!(exchange(&mut w.ledger, &swap.taker, &swap), Err(EscrowError::BalanceOverflow));
    assert_eq!(observed(&w.ledger), before);
}

#[test]
fn exchange_that_fails_at_the_liquid_leg_moves_nothing() {
    let mut w = world();
    // Bob holds 50 B but only 60 of liquid balance.
    assert_eq!(w.ledger.mint_to(&addr(BOB_B), 20), Ok(()));
    let open = initialize_accounts(&w);
    assert_eq!(initialize(&mut w.ledger, &open.initializer, &open, 1, 100, 70), Ok(()));
    let before = observed(&w.ledger);
    let swap = exchange_accounts(&w);
    assert_eq!(exchange(&mut w.ledger, &swap.taker, &swap), Err(EscrowError::InsufficientBalance));
    assert_eq!(observed(&w.ledger), before);
}

#[test]
fn exchange_without_the_agreed_asset_is_refused() {
    let mut w = world();
    let open = initialize_accounts(&w);
    assert_eq!(initialize(&mut w.ledger, &open.initializer, &open, 1, 100, 51), Ok(()));
    let before = observed(&w.ledger);
    let swap = exchange_accounts(&w);
    assert_eq!(exchange(&mut w.ledger, &swap.taker, &swap), Err(EscrowError::InsufficientBalance));
    assert_eq!(observed(&w.ledger), before);
}

#[test]
fn exchange_from_an_account_of_another_owner_is_refused() {
    let mut w = opened();
    let before = observed(&w.ledger);
    let swap = Exchange { taker: addr(MALLORY), ..exchange_accounts(&w) };
    assert_eq!(exchange(&mut w.ledger, &swap.taker, &swap), Err(EscrowError::AuthorizationFailure));
    let swap = Exchange { taker_receive_token_account: addr(ALICE_A), ..exchange_accounts(&w) };
    assert_eq!(exchange(&mut w.ledger, &swap.taker, &swap), Err(EscrowError::AuthorizationFailure));
    assert_eq!(observed(&w.ledger), before);
}

#[test]
fn exchange_in_another_asset_is_refused() {
    let mut w = opened();
    let before = observed(&w.ledger);
    let swap = Exchange { taker_deposit_token_mint: addr(MINT_A), ..exchange_accounts(&w) };
    assert_eq!(exchange(&mut w.ledger, &swap.taker, &swap), Err(EscrowError::AccountMismatch));
    let swap = Exchange { initializer_deposit_token_mint: addr(MINT_B), ..exchange_accounts(&w) };
    assert_eq!(exchange(&mut w.ledger, &swap.taker, &swap), Err(EscrowError::AccountMismatch));
    let swap = Exchange { vault: addr(BOB_A), ..exchange_accounts(&w) };
    assert_eq!(exchange(&mut w.ledger, &swap.taker, &swap), Err(EscrowError::AccountMismatch));
    let swap = Exchange { initializer: addr(BOB), ..exchange_accounts(&w) };
    assert_eq!(exchange(&mut w.ledger, &swap.taker, &swap), Err(EscrowError::AccountMismatch));
    assert_eq!(observed(&w.ledger), before);
}

#[test]
fn anyone_who_pays_may_take_the_swap() {
    // The counterparty is named on the record only; the taker is whoever
    // signs and pays.
    let mut w = opened();
    let carol = addr(4);
    let (carol_a, carol_b) = (addr(24), addr(25));
    assert_eq!(w.ledger.fund(&carol, 50), Ok(()));
    assert_eq!(w.ledger.create_token_account(&carol_a, &addr(MINT_A), &carol), Ok(()));
    assert_eq!(w.ledger.create_token_account(&carol_b, &addr(MINT_B), &carol), Ok(()));
    assert_eq!(w.ledger.mint_to(&carol_b, 50), Ok(()));
    let swap = Exchange {
        taker: carol,
        taker_deposit_token_account: carol_b,
        taker_receive_token_account: carol_a,
        ..exchange_accounts(&w)
    };
    assert_eq!(exchange(&mut w.ledger, &swap.taker, &swap), Ok(()));
    assert_eq!(observed(&w.ledger), ([0, 50, 0, 50, 0], [1050, 60], false));
    assert_eq!(w.ledger.balance(&carol_a), 100);
    assert_eq!(w.ledger.balance(&carol_b), 0);
    assert_eq!(w.ledger.lamports(&carol), 0);
}

#[test]
fn the_initializer_may_take_its_own_swap() {
    // Payer and payee coincide on both legs, so only the deposit moves.
    let mut w = world();
    assert_eq!(w.ledger.mint_to(&addr(ALICE_B), 50), Ok(()));
    let open = initialize_accounts(&w);
    assert_eq!(initialize(&mut w.ledger, &open.initializer, &open, 1, 100, 50), Ok(()));
    let swap = Exchange {
        taker: addr(ALICE),
        taker_deposit_token_account: addr(ALICE_B),
        taker_receive_token_account: addr(ALICE_A),
        ..exchange_accounts(&w)
    };
    assert_eq!(exchange(&mut w.ledger, &swap.taker, &swap), Ok(()));
    assert_eq!(observed(&w.ledger), ([100, 50, 0, 50, 0], [1000, 60], false));
}

#[test]
fn a_swap_of_one_asset_against_itself_through_one_account() {
    // Bob pays 50 A out of the account into which he takes the 100 A: the
    // account ends 50 up, and Alice's receive account 50 up.
    let mut w = world();
    assert_eq!(w.ledger.mint_to(&addr(BOB_A), 50), Ok(()));
    assert_eq!(w.ledger.create_token_account(&addr(26), &addr(MINT_A), &addr(ALICE)), Ok(()));
    let open = Initialize {
        initializer_receive_token_account: addr(26),
        initializer_receive_mint_account: addr(MINT_A),
        ..initialize_accounts(&w)
    };
    assert_eq!(initialize(&mut w.ledger, &addr(ALICE), &open, 1, 100, 50), Ok(()));
    let swap = Exchange {
        taker_deposit_token_mint: addr(MINT_A),
        taker_deposit_token_account: addr(BOB_A),
        taker_receive_token_account: addr(BOB_A),
        initializer_receive_token_account: addr(26),
        ..exchange_accounts(&w)
    };
    assert_eq!(exchange(&mut w.ledger, &addr(BOB), &swap), Ok(()));
    assert_eq!(w.ledger.balance(&addr(BOB_A)), 100);
    assert_eq!(w.ledger.balance(&addr(26)), 50);
    assert_eq!(w.ledger.balance(&addr(ALICE_A)), 0);
    assert_eq!(w.ledger.token_account(&addr(VAULT)), None);
    assert_eq!((w.ledger.lamports(&addr(ALICE)), w.ledger.lamports(&addr(BOB))), (1050, 10));
}

#[test]
fn an_exchange_for_nothing_releases_the_deposit() {
    let mut w = world();
    let open = initialize_accounts(&w);
    assert_eq!(initialize(&mut w.ledger, &addr(ALICE), &open, 1, 100, 0), Ok(()));
    let swap = exchange_accounts(&w);
    assert_eq!(exchange(&mut w.ledger, &addr(BOB), &swap), Ok(()));
    assert_eq!(observed(&w.ledger), ([0, 0, 100, 50, 0], [1000, 60], false));
}

#[test]
fn an_escrow_taken_over_from_storage_is_cancelled_like_any_other() {
    let w = opened();
    let stored = w.ledger.escrow(&key()).expect("a record").state;
    // The same accounts, read back into a fresh ledger.
    let mut l = Ledger::new(addr(PROGRAM));
    assert_eq!(l.create_token_account(&addr(ALICE_A), &addr(MINT_A), &addr(ALICE)), Ok(()));
    assert_eq!(l.create_token_account(&addr(VAULT), &addr(MINT_A), &w.authority), Ok(()));
    assert_eq!(l.mint_to(&addr(VAULT), 100), Ok(()));
    assert_eq!(l.load_escrow(stored, &addr(VAULT)), Ok(()));
    let back = cancel_accounts(&w);
    assert_eq!(cancel(&mut l, &addr(BOB), &back), Err(EscrowError::AuthorizationFailure));
    assert_eq!(cancel(&mut l, &addr(ALICE), &back), Ok(()));
    assert_eq!(l.balance(&addr(ALICE_A)), 100);
    assert_eq!(l.token_account(&addr(VAULT)), None);
    assert_eq!(l.escrow(&key()), None);
}

#[test]
fn two_escrows_are_kept_apart() {
    // Cancelling one escrow of an asset leaves another escrow of the same
    // asset, and its vault, as they were.
    let mut w = world();
    assert_eq!(w.ledger.fund(&addr(BOB), 40), Ok(()));
    assert_eq!(w.ledger.mint_to(&addr(BOB_A), 30), Ok(()));
    let alices = initialize_accounts(&w);
    let bobs = Initialize {
        initializer: addr(BOB),
        vault: addr(31),
        taker_key: addr(ALICE),
        initializer_deposit_token_account: addr(BOB_A),
        initializer_receive_token_account: addr(BOB_B),
        ..alices
    };
    assert_eq!(initialize(&mut w.ledger, &addr(ALICE), &alices, 1, 100, 50), Ok(()));
    assert_eq!(initialize(&mut w.ledger, &addr(BOB), &bobs, 1, 30, 5), Ok(()));
    // Alice cannot cancel into Bob's vault, nor Bob's record.
    let raid = Cancel { vault: addr(31), ..cancel_accounts(&w) };
    assert_eq!(cancel(&mut w.ledger, &addr(ALICE), &raid), Err(EscrowError::AccountMismatch));
    let raid = Cancel {
        escrow_state: EscrowKey { initializer: addr(BOB), random_seed: 1 },
        ..cancel_accounts(&w)
    };
    assert_eq!(cancel(&mut w.ledger, &addr(ALICE), &raid), Err(EscrowError::AuthorizationFailure));
    let back = cancel_accounts(&w);
    assert_eq!(cancel(&mut w.ledger, &addr(ALICE), &back), Ok(()));
    assert_eq!(w.ledger.balance(&addr(31)), 30);
    assert!(w.ledger.is_vault(&addr(31)));
    assert!(w.ledger.escrow(&EscrowKey { initializer: addr(BOB), random_seed: 1 }).is_some());
    assert_eq!(w.ledger.balance(&addr(ALICE_A)), 100);
    assert_eq!(w.ledger.balance(&addr(BOB_A)), 0);
}

#[test]
fn a_record_whose_parameter_does_not_sign_for_the_vault_stays_put() {
    // A vault that belongs to a party, or a parameter that derives another
    // address: the deposit is not released.
    let w = opened();
    let stored = w.ledger.escrow(&key()).expect("a record").state;
    for (owner, bump) in [(addr(ALICE), w.bump), (w.authority, w.bump.wrapping_sub(1))] {
        let mut l = Ledger::new(addr(PROGRAM));
        assert_eq!(l.fund(&addr(BOB), 60), Ok(()));
        for (at, mint, who, amount) in [
            (ALICE_A, MINT_A, addr(ALICE), 0),
            (ALICE_B, MINT_B, addr(ALICE), 0),
            (BOB_A, MINT_A, addr(BOB), 0),
            (BOB_B, MINT_B, addr(BOB), 50),
            (VAULT, MINT_A, owner, 100),
        ] {
            assert_eq!(l.create_token_account(&addr(at), &addr(mint), &who), Ok(()));
            assert_eq!(l.mint_to(&addr(at), amount), Ok(()));
        }
        let record = solana_nft_escrow::EscrowState { vault_authority_bump: bump, ..stored };
        assert_eq!(l.load_escrow(record, &addr(VAULT)), Ok(()));
        let before = observed(&l);
        let back = Cancel { vault_authority: owner, ..cancel_accounts(&w) };
        assert_eq!(cancel(&mut l, &addr(ALICE), &back), Err(EscrowError::AuthorizationFailure));
        let swap = Exchange { vault_authority: owner, ..exchange_accounts(&w) };
        assert_eq!(exchange(&mut l, &addr(BOB), &swap), Err(EscrowError::AuthorizationFailure));
        assert_eq!(observed(&l), before);
    }
}

#[test]
fn the_vault_moves_under_the_derived_signature_of_its_owner_alone() {
    let mut w = opened();
    let before = observed(&w.ledger);
    let back = cancel_accounts(&w);
    let swap = exchange_accounts(&w);
    for derived in [None, Some(addr(ALICE)), Some(addr(BOB)), Some(addr(PROGRAM))] {
        assert_eq!(
            cancel_with_authority(&mut w.ledger, &addr(ALICE), &back, derived),
            Err(EscrowError::AuthorizationFailure)
        );
        assert_eq!(
            exchange_with_authority(&mut w.ledger, &addr(BOB), &swap, derived),
            Err(EscrowError::AuthorizationFailure)
        );
        assert_eq!(observed(&w.ledger), before);
    }
    assert_eq!(
        exchange_with_authority(&mut w.ledger, &addr(BOB), &swap, Some(w.authority)),
        Ok(())
    );
    assert_eq!(observed(&w.ledger), ([0, 50, 100, 0, 0], [1050, 10], false));
}

#[test]
fn cancel_with_the_signature_derived_is_cancel() {
    let mut w = opened();
    let back = cancel_accounts(&w);
    assert_eq!(
        cancel_with_authority(&mut w.ledger, &addr(ALICE), &back, Some(w.authority)),
        Ok(())
    );
    assert_eq!(observed(&w.ledger), ([100, 0, 0, 50, 0], [1000, 60], false));
}
