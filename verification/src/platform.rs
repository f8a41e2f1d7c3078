//! The platform contract: the addresses of the other contracts, the profiles of
//! the users, the play and earnings figures of the voice tokens, and the
//! platform's own counters.

pub mod contract;
pub mod model;
pub mod types;
