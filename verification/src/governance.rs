//! The governance engine: proposals, votes, members, contributions and the
//! treasury, with the proposal lifecycle from creation to execution.

pub mod engine;
pub mod error;
pub mod preserve;
pub mod laws;
pub mod model;
pub mod types;
