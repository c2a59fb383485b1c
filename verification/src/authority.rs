//! The deterministic authority: an address with no private key, derived from
//! a fixed label and the deployment's program id, together with the one-byte
//! parameter that lets the derivation be repeated later without a search.
//!
//! The derivation itself is the ledger's own (`Pubkey::try_find_program_address`
//! and `Pubkey::create_program_address`); this module calls it and names what
//! it returns.

use crate::address::Address;
use anchor_lang::prelude::Pubkey;
use anchor_lang::solana_program::pubkey::PubkeyError;
use vstd::prelude::*;

verus! {

/// The fixed label of the vault authority: the bytes of the word `authority`.
pub const AUTHORITY_SEED: [u8; 9] = [97, 117, 116, 104, 111, 114, 105, 116, 121];

/// The error type of the ledger's address derivation, carried through opaquely.
#[verifier::external_type_specification]
#[verifier::external_body]
pub struct ExPubkeyError(anchor_lang::solana_program::pubkey::PubkeyError);

/// The address that `Pubkey::create_program_address` derives from `seeds` for
/// the program `program_id`, or `None` where it reports an error.
pub uninterp spec fn program_address(seeds: Seq<Seq<u8>>, program_id: Seq<u8>) -> Option<Seq<u8>>;

/// The address and bump seed that `Pubkey::try_find_program_address` finds for
/// `seeds` and the program `program_id`, or `None` where it finds none.
pub uninterp spec fn program_address_search(seeds: Seq<Seq<u8>>, program_id: Seq<u8>) -> Option<
    (Seq<u8>, u8),
>;

/// Calls `Pubkey::try_find_program_address` with the single seed `label`.
///
/// Trusted: the result is the one named by [`program_address_search`], and an
/// address found with bump seed `b` is the address that
/// `Pubkey::create_program_address` derives from `label` followed by the
/// one-byte seed `b` (the search returns exactly what that call returned).
#[verifier::external_body]
fn try_find_program_address(label: &[u8], program_id: &Address) -> (found: Option<(Address, u8)>)
    ensures
        match found {
            Some((address, bump)) => program_address_search(seq![label@], program_id@) == Some(
                (address@, bump),
            ),
            None => program_address_search(seq![label@], program_id@) is None,
        },
        found matches Some((address, bump)) ==> program_address(
            seq![label@, seq![bump]],
            program_id@,
        ) == Some(address@),
{
    match Pubkey::try_find_program_address(&[label], &Pubkey::new_from_array(program_id.bytes)) {
        Some((key, bump)) => Some((Address { bytes: key.to_bytes() }, bump)),
        None => None,
    }
}

/// Calls `Pubkey::create_program_address` with the seeds `label` and the
/// one-byte seed `bump`.
///
/// Trusted: the call succeeds exactly where [`program_address`] names an
/// address for these seeds, and then returns that address.
#[verifier::external_body]
fn create_program_address(label: &[u8], bump: u8, program_id: &Address) -> (derived: Result<
    Address,
    PubkeyError,
>)
    ensures
        match derived {
            Ok(address) => program_address(seq![label@, seq![bump]], program_id@) == Some(
                address@,
            ),
            Err(_) => program_address(seq![label@, seq![bump]], program_id@) is None,
        },
{
    match Pubkey::create_program_address(
        &[label, &[bump]],
        &Pubkey::new_from_array(program_id.bytes),
    ) {
        Ok(key) => Ok(Address { bytes: key.to_bytes() }),
        Err(e) => Err(e),
    }
}

/// The address with the given bytes.
pub open spec fn address_with(bytes: Seq<u8>) -> Address {
    choose|a: Address| a@ == bytes
}

/// The seeds of the vault authority's signature: the fixed label, then the
/// derivation parameter as a seed of one byte.
pub open spec fn authority_seeds(bump: u8) -> Seq<Seq<u8>> {
    seq![AUTHORITY_SEED@, seq![bump]]
}

/// The address for which the label and the parameter `bump` sign in the
/// deployment `program_id`: what the ledger derives from them, if anything.
pub open spec fn derived_authority(program_id: Address, bump: u8) -> Option<Address> {
    match program_address(authority_seeds(bump), program_id@) {
        Some(bytes) => Some(address_with(bytes)),
        None => None,
    }
}

/// What a search for the vault authority of the deployment `program_id`
/// finds: its address and its derivation parameter, if any.
pub open spec fn found_authority(program_id: Address) -> Option<(Address, u8)> {
    match program_address_search(seq![AUTHORITY_SEED@], program_id@) {
        Some((bytes, bump)) => Some((address_with(bytes), bump)),
        None => None,
    }
}

/// The address with the bytes of `a` is `a`.
proof fn lemma_address_with(a: Address)
    ensures
        address_with(a@) == a,
{
    Address::lemma_view_injective(address_with(a@), a);
}

/// Searches for the vault authority of the deployment `program_id`: its
/// address and the derivation parameter to keep on each record.
///
/// The result is the one the ledger's search names; where an authority is
/// found, its address is the one that the ledger derives from its parameter.
pub fn find_vault_authority(program_id: &Address) -> (found: Option<(Address, u8)>)
    ensures
        found == found_authority(*program_id),
        found matches Some((address, bump)) ==> derived_authority(*program_id, bump) == Some(
            address,
        ),
{
    let found = try_find_program_address(AUTHORITY_SEED.as_slice(), program_id);
    proof {
        if let Some((address, _)) = found {
            lemma_address_with(address);
        }
    }
    found
}

/// Derives the vault authority's signature again from the parameter `bump`:
/// the address for which it signs in the deployment `program_id`, or `None`
/// where the ledger derives no address from it.
pub fn derive_vault_authority(program_id: &Address, bump: u8) -> (derived: Option<Address>)
    ensures
        derived == derived_authority(*program_id, bump),
{
    match create_program_address(AUTHORITY_SEED.as_slice(), bump, program_id) {
        Ok(address) => {
            proof {
                lemma_address_with(address);
            }
            Some(address)
        },
        Err(_) => None,
    }
}

} // verus!
