//! Common objects for chain interaction: block hashes, watched accounts,
//! invoices, and the request messages that reach a chain's tracker.

use vstd::prelude::*;
use vstd::string::StrSliceExecFns;
use vstd::string::StringExecFns;

use crate::definitions::{Amount, BlockNumber, CurrencyInfo, OrderInfo, RpcInfo, Timestamp, Balance,
    satisfied_at, balance_satisfies};
use substrate_crypto_light::common::AsBase58;
use crate::error::ChainError;
use crate::hex::{all_hex, hex_decode, hex_encode, decode_hex, encode_hex, lemma_hex_round_trip};
use crate::chain::tracker::{ChainWatcher, QueryKind, lookup_currency};

verus! {

/// The tokio one-shot sender carries a single acknowledgment back to
/// whoever filed a request; the tracker never reads it, only sends.
#[verifier::external_type_specification]
#[verifier::external_body]
#[verifier::reject_recursive_types(T)]
pub struct ExOneshotSender<T>(tokio::sync::oneshot::Sender<T>);

/// Relies on tokio's `oneshot::Sender::send`: it consumes the sender, and
/// when the receiving half is gone it hands the value back unchanged.
pub assume_specification<T>[ tokio::sync::oneshot::Sender::<T>::send ](
    s: tokio::sync::oneshot::Sender<T>,
    t: T,
) -> (r: Result<(), T>)
    ensures
        r matches Err(v) ==> v == t,
;

/// The account bytes of a checksummed base-58 address, `None` when the text
/// is not a well-formed address of a 32-byte account.
pub uninterp spec fn ss58_decode(s: Seq<char>) -> Option<Seq<u8>>;

/// The checksummed base-58 text of a 32-byte account under a given address
/// prefix.
pub uninterp spec fn ss58_encode(bytes: Seq<u8>, prefix: u16) -> Seq<char>;

/// Relies on substrate_crypto_light's `AsBase58::from_base58_string` for
/// `AccountId32`: decoding is a function of the text alone, and a decoded
/// account holds exactly thirty-two bytes. The length bound keeps out inputs
/// on which the underlying base-58 decoder's 132-byte buffer arithmetic
/// panics (a run of leading `1`s longer than the buffer); a valid 32-byte
/// account address is far shorter.
#[verifier::external_body]
fn decode_base58_account(s: &str) -> (r: Result<Vec<u8>, String>)
    requires
        s@.len() <= 132,
    ensures
        r matches Ok(bytes) ==> ss58_decode(s@) == Some(bytes@) && bytes@.len() == 32,
        r is Err ==> ss58_decode(s@) is None,
{
    match substrate_crypto_light::common::AccountId32::from_base58_string(s) {
        Ok((account, _prefix)) => Ok(account.0.to_vec()),
        Err(e) => Err(e.to_string()),
    }
}

/// Relies on substrate_crypto_light's `AsBase58::to_base58_string` for
/// `AccountId32`: the checksummed text depends on the account bytes and the
/// address prefix alone.
#[verifier::external_body]
fn encode_base58_account(bytes: &Vec<u8>, prefix: u16) -> (r: String)
    requires
        bytes@.len() == 32,
    ensures
        r@ == ss58_encode(bytes@, prefix),
{
    let mut inner = [0u8; 32];
    inner.copy_from_slice(bytes.as_slice());
    substrate_crypto_light::common::AsBase58::to_base58_string(
        &substrate_crypto_light::common::AccountId32(inner),
        prefix,
    )
}

/// A 32-byte account identifier on the chain.
#[derive(Debug)]
pub struct AccountId {
    pub bytes: Vec<u8>,
}

impl AccountId {
    /// An account identifier holds exactly thirty-two bytes.
    pub open spec fn wf(&self) -> bool {
        self.bytes@.len() == 32
    }

    /// Decode a checksummed base-58 text address. Text longer than 132
    /// characters cannot be a 32-byte-account address and is rejected
    /// without consulting the decoder.
    pub fn from_base58_text(s: &str) -> (r: Result<AccountId, ChainError>)
        ensures
            s@.len() <= 132 ==> (ss58_decode(s@) matches Some(bytes) ==> (r matches Ok(a)
                && a.bytes@ == bytes && a.wf())),
            s@.len() > 132 || ss58_decode(s@) is None ==> (r matches Err(e)
                && e is InvalidAccount),
    {
        if s.unicode_len() > 132 {
            return Err(ChainError::InvalidAccount(String::from_str("address text too long")));
        }
        match decode_base58_account(s) {
            Ok(bytes) => Ok(AccountId { bytes }),
            Err(reason) => Err(ChainError::InvalidAccount(reason)),
        }
    }

    /// The checksummed base-58 text of this account under `prefix`.
    pub fn to_base58_text(&self, prefix: u16) -> (r: String)
        requires
            self.wf(),
        ensures
            r@ == ss58_encode(self.bytes@, prefix),
    {
        encode_base58_account(&self.bytes, prefix)
    }

    /// A copy of this account identifier.
    pub fn duplicate(&self) -> (r: AccountId)
        ensures
            r.bytes@ == self.bytes@,
    {
        let mut bytes: Vec<u8> = Vec::new();
        let mut i: usize = 0;
        while i < self.bytes.len()
            invariant
                i <= self.bytes@.len(),
                bytes@ == self.bytes@.take(i as int),
            decreases self.bytes@.len() - i,
        {
            bytes.push(self.bytes[i]);
            proof {
                assert(bytes@ =~= self.bytes@.take(i + 1));
            }
            i += 1;
        }
        proof {
            assert(bytes@ =~= self.bytes@);
        }
        AccountId { bytes }
    }
}

/// Identity of one chain block: thirty-two raw bytes, distinct in type from
/// every other 32-byte value in flight.
#[derive(Debug)]
pub struct BlockHash {
    pub bytes: Vec<u8>,
}

/// The canonical text of a block hash: `0x` followed by lowercase hex.
pub open spec fn block_hash_text(bytes: Seq<u8>) -> Seq<char> {
    "0x"@ + hex_encode(bytes)
}

/// What decoding block-hash text yields: the thirty-two bytes, or the error
/// kind. Only the canonical form is accepted: the `0x` marker followed by
/// lowercase hex of even length is decoded, anything else is malformed; a
/// byte count other than thirty-two has the wrong length.
pub open spec fn block_hash_from_text(t: Seq<char>) -> Result<Seq<u8>, ChainError> {
    if !(t.len() >= 2 && t[0] == '0' && t[1] == 'x') {
        Err(ChainError::MalformedHex)
    } else if !(all_hex(t.skip(2)) && t.len() % 2 == 0) {
        Err(ChainError::MalformedHex)
    } else if t.len() != 66 {
        Err(ChainError::WrongLength)
    } else {
        Ok(hex_decode(t.skip(2)))
    }
}

impl BlockHash {
    /// A block hash holds exactly thirty-two bytes.
    pub open spec fn wf(&self) -> bool {
        self.bytes@.len() == 32
    }

    /// The RPC-friendly text of this block hash.
    pub fn to_string(&self) -> (r: String)
        ensures
            r@ == block_hash_text(self.bytes@),
    {
        let mut out = String::from_str("0x");
        let body = encode_hex(&self.bytes);
        out.append(body.as_str());
        out
    }

    /// Decode text returned by the RPC into a typesafe block hash. Only the
    /// canonical form — `0x` and sixty-four lowercase hex digits — is
    /// accepted.
    pub fn from_str(s: &str) -> (r: Result<BlockHash, ChainError>)
        ensures
            block_hash_from_text(s@) matches Ok(bytes) ==> (r matches Ok(h) && h.bytes@ == bytes
                && h.wf()),
            block_hash_from_text(s@) matches Err(e) ==> r matches Err(e2) && e2 == e,
    {
        let n = s.unicode_len();
        if !(n >= 2 && s.get_char(0) == '0' && s.get_char(1) == 'x') {
            return Err(ChainError::MalformedHex);
        }
        match decode_hex(s, 2) {
            None => Err(ChainError::MalformedHex),
            Some(bytes) => {
                if bytes.len() == 32 {
                    Ok(BlockHash { bytes })
                } else {
                    Err(ChainError::WrongLength)
                }
            },
        }
    }
}

/// Law: decoding the canonical text of any thirty-two bytes yields the bytes
/// back.
pub proof fn lemma_block_hash_round_trip(bytes: Seq<u8>)
    requires
        bytes.len() == 32,
    ensures
        block_hash_from_text(block_hash_text(bytes)) == Ok::<Seq<u8>, ChainError>(bytes),
{
    reveal_strlit("0x");
    lemma_hex_round_trip(bytes);
    let t = block_hash_text(bytes);
    assert(t[0] == '0' && t[1] == 'x');
    assert(t.skip(2) =~= hex_encode(bytes));
    assert(block_hash_from_text(t) == Ok::<Seq<u8>, ChainError>(hex_decode(hex_encode(bytes))));
}

/// A filter naming the chain events a watcher cares about.
#[derive(Debug)]
pub struct EventFilter<'a> {
    pub pallet: &'a str,
    pub optional_event_variant: Option<&'a str>,
}

/// An inbound request to begin monitoring an account, consumed exactly once:
/// either converted into an [`Invoice`] or rejected through its own
/// acknowledgment channel.
pub struct WatchAccount {
    pub id: String,
    pub address: AccountId,
    pub currency: CurrencyInfo,
    pub amount: Amount,
    pub recipient: AccountId,
    pub res: tokio::sync::oneshot::Sender<Result<(), ChainError>>,
    pub death: Timestamp,
}

impl WatchAccount {
    /// Build a watch request from inbound order data, decoding the text
    /// address of the account to watch. A decode failure is reported both on
    /// the request's acknowledgment channel and in the returned error; the
    /// rejected request leaves no other trace.
    pub fn new(
        id: String,
        order: OrderInfo,
        recipient: AccountId,
        res: tokio::sync::oneshot::Sender<Result<(), ChainError>>,
    ) -> (r: Result<WatchAccount, ChainError>)
        ensures
            order.payment_account@.len() <= 132 ==> (ss58_decode(order.payment_account@)
                matches Some(bytes) ==> (r matches Ok(w) && w.id == id && w.address.bytes@
                == bytes && w.address.wf() && w.currency == order.currency
                && w.amount == order.amount && w.recipient == recipient && w.res == res
                && w.death == order.death)),
            order.payment_account@.len() > 132 || ss58_decode(order.payment_account@) is None ==> (
            r matches Err(e) && e is InvalidAccount),
    {
        match AccountId::from_base58_text(order.payment_account.as_str()) {
            Ok(address) => Ok(
                WatchAccount {
                    id,
                    address,
                    currency: order.currency,
                    amount: order.amount,
                    recipient,
                    res,
                    death: order.death,
                },
            ),
            Err(e) => {
                let reason = if let ChainError::InvalidAccount(text) = &e {
                    text.clone()
                } else {
                    String::new()
                };
                let _ = res.send(Err(ChainError::InvalidAccount(reason)));
                Err(e)
            },
        }
    }
}

/// Instruction to the front-end dispatcher, routed to the tracker owning
/// the invoice's chain.
pub enum ChainRequest {
    WatchAccount(WatchAccount),
    Reap(WatchAccount),
    Shutdown(tokio::sync::oneshot::Sender<()>),
    GetConnectedRpcs(tokio::sync::oneshot::Sender<Vec<RpcInfo>>),
}

/// Instruction to one chain's tracker.
pub enum ChainTrackerRequest {
    WatchAccount(WatchAccount),
    NewBlock(BlockNumber),
    Reap(WatchAccount),
    ForceReap(WatchAccount),
    Shutdown(tokio::sync::oneshot::Sender<()>),
}

/// An actively monitored payment: owned exclusively by its tracker from
/// acceptance until resolution, expiry, or force-termination.
#[derive(Debug)]
pub struct Invoice {
    pub id: String,
    pub address: AccountId,
    pub currency: CurrencyInfo,
    pub amount: Amount,
    pub recipient: AccountId,
    pub death: Timestamp,
}

impl Invoice {
    /// Accept a watch request: signal success on its acknowledgment channel
    /// — once, at acceptance, whatever the payment's eventual outcome — and
    /// take over the monitoring data.
    pub fn from_request(watch_account: WatchAccount) -> (r: Invoice)
        ensures
            r.id == watch_account.id,
            r.address == watch_account.address,
            r.currency == watch_account.currency,
            r.amount == watch_account.amount,
            r.recipient == watch_account.recipient,
            r.death == watch_account.death,
    {
        let _ = watch_account.res.send(Ok(()));
        Invoice {
            id: watch_account.id,
            address: watch_account.address,
            currency: watch_account.currency,
            amount: watch_account.amount,
            recipient: watch_account.recipient,
            death: watch_account.death,
        }
    }

    /// Decide how this invoice's balance is to be queried at the current
    /// block: by asset id when the registry's descriptor carries one, else
    /// as the chain's native balance. Fails when the currency is absent from
    /// the registry.
    pub fn balance(&self, chain_watcher: &ChainWatcher) -> (r: Result<QueryKind, ChainError>)
        ensures
            lookup_currency(chain_watcher.assets@, self.currency.currency@) matches Some(props)
                ==> r == Ok::<QueryKind, ChainError>(
                match props.asset_id {
                    Some(id) => QueryKind::Asset(id),
                    None => QueryKind::Native,
                },
            ),
            lookup_currency(chain_watcher.assets@, self.currency.currency@) is None ==> (
            r matches Err(e) && e matches ChainError::UnknownCurrency(name)
                && name@ == self.currency.currency@),
    {
        match chain_watcher.get_currency(&self.currency.currency) {
            Some(props) => match props.asset_id {
                Some(id) => Ok(QueryKind::Asset(id)),
                None => Ok(QueryKind::Native),
            },
            None => Err(ChainError::UnknownCurrency(self.currency.currency.clone())),
        }
    }

    /// The satisfaction rule: whether an observed balance covers this
    /// invoice's due amount at its currency's decimal precision.
    pub fn check(&self, observed: Balance) -> (r: bool)
        ensures
            r == satisfied_at(observed.0 as int, self.amount, self.currency.decimals),
    {
        balance_satisfies(observed, &self.amount, self.currency.decimals)
    }
}

} // verus!
