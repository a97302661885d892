//! The payment-status document built for the notification sink.
//!
//! When an invoice resolves, the tracker's owner delivers a status document
//! to whoever asked for the watch. Building the document is pure data
//! shaping and lives here; delivering it (webhook, log, queue) is not part
//! of the core.

use vstd::prelude::*;

use crate::chain::definitions::ss58_encode;
use crate::chain::tracker::{Outcome, Resolution};
use crate::definitions::{Amount, Balance, CurrencyInfo};

verus! {

/// Everything the notification sink needs about one resolved invoice: the
/// outcome, the amounts, the currency descriptor, and the text addresses of
/// the recipient and of the watched payment account.
#[derive(Debug)]
pub struct OrderStatus {
    pub order: String,
    pub paid: bool,
    pub amount: Amount,
    pub observed: Option<Balance>,
    pub currency: CurrencyInfo,
    pub recipient: String,
    pub payment_account: String,
}

/// Build the status document for one resolution, rendering both accounts as
/// checksummed base-58 text under the chain's address `prefix`.
pub fn order_status(resolution: &Resolution, prefix: u16) -> (r: OrderStatus)
    requires
        resolution.invoice.address.wf(),
        resolution.invoice.recipient.wf(),
    ensures
        r.order@ == resolution.invoice.id@,
        r.paid == resolution.outcome is Paid,
        r.amount == resolution.invoice.amount,
        r.observed == (match resolution.outcome {
            Outcome::Paid(b) => Some(b),
            _ => None::<Balance>,
        }),
        r.currency == resolution.invoice.currency,
        r.recipient@ == ss58_encode(resolution.invoice.recipient.bytes@, prefix),
        r.payment_account@ == ss58_encode(resolution.invoice.address.bytes@, prefix),
{
    let invoice = &resolution.invoice;
    let (paid, observed) = match &resolution.outcome {
        Outcome::Paid(b) => (true, Some(*b)),
        Outcome::Expired => (false, None),
        Outcome::ForceTerminated => (false, None),
        Outcome::Fatal(_) => (false, None),
    };
    OrderStatus {
        order: invoice.id.clone(),
        paid,
        amount: invoice.amount,
        observed,
        currency: CurrencyInfo {
            currency: invoice.currency.currency.clone(),
            chain_name: invoice.currency.chain_name.clone(),
            kind: invoice.currency.kind,
            decimals: invoice.currency.decimals,
            rpc_url: invoice.currency.rpc_url.clone(),
            asset_id: invoice.currency.asset_id,
        },
        recipient: invoice.recipient.to_base58_text(prefix),
        payment_account: invoice.address.to_base58_text(prefix),
    }
}

} // verus!
