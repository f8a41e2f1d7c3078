//! The organisation contract: members with a fixed voting power, proposals that
//! are voted on once per member, decided against a quorum and executed within a
//! period.

pub mod contract;
pub mod model;
pub mod types;
