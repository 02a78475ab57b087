//! Reduces ledger blocks to set mutations that track the unspent outputs of a
//! list of watched addresses.

pub mod encoding;
pub mod json;
pub mod chain;
pub mod reducer;
pub mod store;
