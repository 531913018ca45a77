//! Verified core of an on-ledger book-lending registry: users, books, their
//! counters and the configuration as fixed-layout records in accounts, and the
//! eight operations on them.
//!
//! The registry decides and computes; a host hands it the accounts of a call as
//! plain values, creates the accounts it asks for, and writes the storage back.

pub mod account;
pub mod address;
pub mod codec;
pub mod creation;
pub mod error;
pub mod instruction;
pub mod laws;
pub mod processor;
pub mod state;
