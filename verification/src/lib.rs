//! Watches a chain for incoming payments that satisfy open invoices.
//!
//! The crate models the per-chain tracker state machine, the invoice and
//! account data model with its balance-satisfaction rule, and the block-hash
//! and address encoding primitives that connect the tracker to a chain client.

pub mod callback;
pub mod chain;
pub mod definitions;
pub mod dispatcher;
pub mod error;
pub mod hex;
