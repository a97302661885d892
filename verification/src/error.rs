//! Error kinds raised while decoding requests and tracking invoices.

use vstd::prelude::*;

verus! {

/// What went wrong while decoding a request or tracking an invoice.
///
/// Decode and validation kinds surface synchronously through the request's
/// own acknowledgment channel; a transient network kind is absorbed by the
/// tracker and the invoice stays active for a retry on the next block.
#[derive(Debug)]
pub enum ChainError {
    /// Block-hash text held a character that is not a hex digit, or an odd
    /// number of digits.
    MalformedHex,
    /// Block-hash text decoded to a byte count other than thirty-two.
    WrongLength,
    /// The watched account's text address did not decode; carries the
    /// decoder's reason.
    InvalidAccount(String),
    /// The invoice's currency is absent from the registry; carries the
    /// currency name.
    UnknownCurrency(String),
    /// A watch arrived for an invoice id that is already active.
    DuplicateInvoice,
    /// A balance query timed out or lost its connection; carries the
    /// transport's description. Never terminal for an invoice.
    TransientNetwork(String),
}

} // verus!
