//! Contract logic of the voice platform: the governance engine, and the
//! ledgers and tables of the contracts around it, with every rule stated as a
//! contract and proved.

pub mod account;
pub mod dao;
pub mod governance;
pub mod keyed;
pub mod ledger;
pub mod marketplace;
pub mod nft;
pub mod orchestrator;
pub mod platform;
pub mod text;
pub mod token;
pub mod voice_nft;
pub mod voice_token;
