//! A client of a ledger service: the channels that carry its messages, the
//! protocol of requests and responses, the waiting for receipts, and the
//! container format for the export and import of transactions in bulk.
//!
//! Nothing here reads or writes: what goes over a channel, into a file or
//! to the terminal is computed here and handed to the caller, and what
//! comes back is taken from the caller. Every function is verified against
//! its contract, but for the few that call the standard library or another
//! crate where it has no model; each of those says what it takes on trust.

pub mod batch;
pub mod bytes;
pub mod cheats;
pub mod client;
pub mod codec;
pub mod common;
pub mod config;
pub mod console;
pub mod envelope;
pub mod fields;
pub mod hexcode;
pub mod impexp;
pub mod lists;
pub mod message;
pub mod poller;
pub mod stress;
pub mod text;
pub mod utils;
pub mod wire;
