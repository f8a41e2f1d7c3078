//! The platform token with minters and a pause: balances, allowances, and a
//! supply that is at all times the sum of the balances.

pub mod contract;
pub mod model;
