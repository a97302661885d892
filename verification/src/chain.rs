//! Objects of the chain interaction system: message types, the invoice and
//! account model, and the per-chain tracker state machine.

pub mod definitions;
pub mod tracker;
