//! Evolving collectibles: a curated metadata catalog, a token id allocator,
//! the mint / evolve state machine and storage-rent settlement, over an
//! in-memory model of the token ledger.
pub mod decimal;
pub mod metadata;
pub mod table;
pub mod catalog;
pub mod ledger;
pub mod contract;
pub mod laws;

pub use contract::{Contract, ContractError, JsonToken, Receipt};
pub use metadata::{ContractMetadata, TokenMetadata};
