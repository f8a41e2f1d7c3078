//! The platform token with registered accounts: balances, allowances, and a
//! supply that is at all times the sum of the balances.

pub mod contract;
pub mod model;
