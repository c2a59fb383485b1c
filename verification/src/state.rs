//! The escrow record: what the ledger keeps of one swap while it is open.

use crate::address::Address;
use vstd::prelude::*;

verus! {

/// Width in bytes of the tag that the ledger stores in front of every record.
pub const DISCRIMINATOR_LEN: usize = 8;

/// The record of one open swap. It is written once, when the swap is opened,
/// and never changed; it is destroyed when the swap is cancelled or completed,
/// so a record exists exactly while its swap is open.
#[derive(Clone, Copy, Debug, PartialEq, Eq)]
pub struct EscrowState {
    /// The seed that the initializer chose for this swap.
    pub random_seed: u64,
    /// The identity that opened the swap and may cancel it.
    pub initializer_key: Address,
    /// The identity named as counterparty when the swap was opened.
    pub taker_key: Address,
    /// The initializer's holding account that the deposit came from.
    pub initializer_deposit_token_account: Address,
    /// The initializer's holding account that the payment goes to.
    pub initializer_receive_token_account: Address,
    /// The asset that was deposited.
    pub initializer_deposit_mint_account: Address,
    /// The asset that the initializer expects in return.
    pub initializer_receive_mint_account: Address,
    /// The amount that was deposited.
    pub initializer_amount: u64,
    /// The amount that the initializer expects in return.
    pub taker_amount: u64,
    /// The parameter from which the vault authority's signature is derived
    /// again when the swap ends.
    pub vault_authority_bump: u8,
}

/// The number of bytes that the fields of a record take when stored: three
/// 8-byte integers, six 32-byte addresses and one byte.
pub open spec fn stored_len() -> nat {
    (8 + 6 * 32 + 8 + 8 + 1) as nat
}

impl EscrowState {
    /// The storage to reserve for a record: the tag, then every field at its
    /// fixed width.
    pub fn space() -> (n: usize)
        ensures
            n == DISCRIMINATOR_LEN + stored_len(),
            n == 225,
    {
        8 + 217
    }
}

} // verus!
