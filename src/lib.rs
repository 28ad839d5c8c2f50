//! A marketplace of NFT collections: collections and their staged items kept in indexed
//! stores, seeded random or by-name minting of items, and the percentage splits that pay
//! a collection's treasuries and the contract's fees. Every operation is a function from
//! the contract's state and a request to a new state and the effects for the host to
//! carry out; the delegated NFT contract's mint is reported back through `complete_mint`.

pub mod checks;
pub mod config;
pub mod contract;
pub mod error;
pub mod ins;
pub mod items;
pub mod mint;
pub mod msg;
pub mod order;
pub mod payment;
pub mod query;
pub mod rng;
pub mod state;
pub mod store;
pub mod text;
pub mod utils;

pub use crate::error::ContractError;
