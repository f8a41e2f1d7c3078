//! The voice token contract with play figures: tokens numbered as they are
//! minted, their owners, their royalties, and what is known of their plays.

pub mod contract;
pub mod model;
