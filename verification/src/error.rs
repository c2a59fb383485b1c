//! The reasons for which an operation is refused. Every refusal leaves the
//! ledger as it was.

use vstd::prelude::*;

verus! {

/// Why an operation was refused.
#[derive(Clone, Copy, Debug, PartialEq, Eq, Structural)]
pub enum EscrowError {
    /// The caller is not the identity that the operation requires, or funds
    /// were to leave an account without the authorization of its owner.
    AuthorizationFailure,
    /// A supplied account is not the one that the record or the operation
    /// calls for.
    AccountMismatch,
    /// The payer holds less than the leg it must pay.
    InsufficientBalance,
    /// The initializer already has an open record under this seed.
    DuplicateRecord,
    /// No open record exists under the given key.
    RecordNotFound,
    /// A credit would take a balance past the largest amount that can be held.
    BalanceOverflow,
    /// The deployment has no vault authority: the search for its address
    /// found none.
    AuthorityNotFound,
}

} // verus!
