//! A two-party escrow for the swap of one asset against another.
//!
//! The initializer deposits an amount of one asset into a vault that belongs
//! to neither party but to an authority without a private key. A taker
//! completes the swap by paying the agreed amount to the initializer, which
//! releases the vault to the taker; until then the initializer may cancel and
//! take the deposit back. Each operation happens as a whole or not at all.
//!
//! [`ledger`] holds the state and the movements of funds, [`instructions`]
//! the three operations, [`authority`] the derivation of the vault authority,
//! and [`laws`] what is proved of the operations on every ledger.

pub mod address;
pub mod authority;
pub mod error;
pub mod instructions;
pub mod laws;
pub mod ledger;
pub mod state;
pub mod table;

pub use address::Address;
pub use error::EscrowError;
pub use instructions::{
    cancel, cancel_with_authority, exchange, exchange_with_authority, initialize,
    initialize_with_authority, Cancel, Exchange, Initialize,
};
pub use ledger::{EscrowKey, Ledger};
pub use state::EscrowState;
