//! The marketplace contract: sales, auctions and bids, and the fee that the
//! marketplace takes of each payment.

pub mod contract;
pub mod model;
