//! The engine of a multi-party atomic coin swap.
//!
//! A Taker sends an amount through a chain of Makers. Every hop of the chain
//! is a contract that its funder can take back after a locktime and that is
//! otherwise opened by the preimage of one hash; the locktimes decrease
//! along the chain and the hash is the same on every hop.
//!
//! - `amounts`, `locktime`, `script`, `tx`, `contract`: what a hop costs and
//!   carries, and the transactions of its contract.
//! - `messages`, `wire`, `codec`: the protocol and its bytes.
//! - `maker_core`, `maker`: the Maker's side of a connection.
//! - `faults`: what a Maker that fails on purpose does to the Taker.
//! - `taker_core`, `taker`, `offer`, `ledger`: the Taker's side of a swap,
//!   the offers it chooses from and the Makers it bans.
//! - `directory`: the registry of offers.
//! - `wallet`, `store`, `retry`, `flags`: what the engine keeps about coins,
//!   and small tools for the code that runs it.
//! - `cli`: what the launchers accept on the command line.
//! - `crypto`: hashing and signatures, taken from the `bitcoin` crate.

pub mod amounts;
pub mod bytes;
pub mod cli;
pub mod codec;
pub mod contract;
pub mod crypto;
pub mod directory;
pub mod error;
pub mod faults;
pub mod flags;
pub mod ledger;
pub mod locktime;
pub mod maker;
pub mod maker_core;
pub mod messages;
pub mod offer;
pub mod retry;
pub mod script;
pub mod store;
pub mod taker;
pub mod taker_core;
pub mod text;
pub mod tx;
pub mod wallet;
pub mod wire;
