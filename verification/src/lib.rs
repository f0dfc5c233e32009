//! Trust-minimised atomic swaps between Bitcoin and Ethereum.
//!
//! The crate holds the offer records and their canonical byte form, the
//! hashed time-locked Bitcoin script, the transaction builder, the durable
//! swap store and the engine that drives a swap through its four stages.

pub mod bitcoin_api;
pub mod bytes;
pub mod canonical;
pub mod cbor;
pub mod create;
pub mod error;
pub mod eth_api;
pub mod execute;
pub mod handler;
pub mod hashes;
pub mod hexcode;
pub mod import;
pub mod list;
pub mod offer;
pub mod parse;
pub mod script;
pub mod state;
pub mod swaps;
pub mod transaction;
