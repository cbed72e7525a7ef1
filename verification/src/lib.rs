//! Ledger core of a multisignature cryptocurrency: wallets with several
//! authorised keys, an append-only history per wallet, and transfers that
//! take effect once enough approvals have been collected.
//!
//! Every executable function carries a contract over the mathematical model
//! of the ledger ([`schema::SchemaView`]) and is proved against it.

use vstd::prelude::*;

pub mod crypto;
pub mod laws;
pub mod schema;
mod table;
pub mod transactions;
pub mod transferproposal;
pub mod wallet;

verus! {

/// Balance credited to every newly created wallet.
pub const INITIAL_BALANCE: u64 = 100;

} // verus!
