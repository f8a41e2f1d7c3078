//! The orchestrator contract: the registry of the platform's contracts, the
//! activity of the users, the platform's figures, and the log of operations.

pub mod contract;
pub mod model;
