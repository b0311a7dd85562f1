//! Fungible bonds: lock an underlying asset until a maturity instant in
//! exchange for a freshly minted bond token, redeemable one to one once the
//! bond has matured.
//!
//! The engine ([`pallet::Pallet`]) keeps two lookup tables in lock step and
//! moves balances on a multi-asset [`ledger::Ledger`]. Every call either
//! completes or leaves both the tables and the ledger exactly as they were.
use vstd::prelude::*;

pub mod account;
pub mod fee;
pub mod keys;
pub mod laws;
pub mod ledger;
pub mod pallet;

pub use account::PalletId;
pub use fee::FeeRate;
pub use ledger::{AssetDetails, AssetKind, Ledger, LedgerError};
pub use pallet::{Config, Error, Event, Pallet};


verus! {

/// Identifier of an asset (underlying assets and bond tokens alike).
pub type AssetId = u32;

/// Quantity of an asset.
pub type Balance = u128;

/// Unix time in milliseconds.
pub type Moment = u64;

/// Identifier of an account.
pub type AccountId = u64;

} // verus!
