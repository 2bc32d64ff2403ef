//! Money manager core: wallets, transactions and what the wallet window shows.
//!
//! The database and the window live in the application; this library holds the
//! data model and every decision taken between them, with its contract.

pub mod decimal;
pub mod display;
pub mod ledger;
pub mod timestamp;
