//! The voice token contract: tokens that each have one owner, the index of the
//! tokens by owner, and the approvals to transfer them.

pub mod contract;
pub mod model;
