//! The per-chain tracker: an actor-style state machine owning the active
//! invoices of one chain.
//!
//! The tracker applies one request at a time. On a new block it expires
//! overdue invoices, terminates invoices whose currency has left the
//! registry, and hands back one balance query per invoice still active; the
//! caller performs the queries (concurrently, each under its own timeout)
//! and folds the results back in one at a time. A transient query failure
//! leaves its invoice active for a retry on the next block. Shutdown is
//! cooperative: its acknowledgment fires only once the last outstanding
//! query of the most recent block has drained.

use vstd::prelude::*;

use crate::definitions::{Balance, BlockNumber, RpcInfo, Timestamp, satisfied_at};
use crate::error::ChainError;
use crate::chain::definitions::{AccountId, Invoice, WatchAccount};

verus! {

/// How one currency's balance is queried: a specific fungible asset, or the
/// chain's native token.
#[derive(Clone, Copy, PartialEq, Eq, Structural, Debug)]
pub enum QueryKind {
    Asset(u32),
    Native,
}

/// Registry entry: what a currency's balance query needs.
#[derive(Clone, Copy, PartialEq, Eq, Structural, Debug)]
pub struct CurrencyProperties {
    pub asset_id: Option<u32>,
    pub decimals: u8,
}

/// The first registry entry named `name`, scanning front to back.
pub open spec fn lookup_currency(
    assets: Seq<(String, CurrencyProperties)>,
    name: Seq<char>,
) -> Option<CurrencyProperties>
    decreases assets.len(),
{
    if assets.len() == 0 {
        None
    } else if assets[0].0@ == name {
        Some(assets[0].1)
    } else {
        lookup_currency(assets.skip(1), name)
    }
}

/// The immutable chain-context snapshot: the currency registry a tracker
/// queries against. Replaced wholesale on a runtime upgrade, never mutated
/// field by field, so in-flight queries keep the view they started with.
#[derive(Debug)]
pub struct ChainWatcher {
    pub assets: Vec<(String, CurrencyProperties)>,
}

impl ChainWatcher {
    /// Registry keys are unique: one descriptor per currency name, as a map
    /// would keep them by construction.
    pub open spec fn wf(&self) -> bool {
        forall|i: int, j: int|
            0 <= i < j < self.assets@.len() ==> self.assets@[i].0@ != self.assets@[j].0@
    }

    /// The registry's descriptor for `name`, when one is there.
    pub fn get_currency(&self, name: &String) -> (r: Option<CurrencyProperties>)
        ensures
            r == lookup_currency(self.assets@, name@),
    {
        let mut i: usize = 0;
        proof {
            assert(self.assets@.skip(0) =~= self.assets@);
        }
        while i < self.assets.len()
            invariant
                i <= self.assets@.len(),
                lookup_currency(self.assets@, name@) == lookup_currency(
                    self.assets@.skip(i as int),
                    name@,
                ),
            decreases self.assets@.len() - i,
        {
            let entry = &self.assets[i];
            proof {
                assert(self.assets@.skip(i as int)[0] == self.assets@[i as int]);
                assert(self.assets@.skip(i as int).skip(1) =~= self.assets@.skip(i as int + 1));
            }
            if entry.0 == *name {
                return Some(entry.1);
            }
            i += 1;
        }
        proof {
            assert(self.assets@.skip(i as int) =~= Seq::<(String, CurrencyProperties)>::empty());
        }
        None
    }
}

/// One balance query the tracker asks its caller to perform: which invoice
/// it is for, the account to read, and how to read it.
#[derive(Debug)]
pub struct BalanceQuery {
    pub id: String,
    pub account: AccountId,
    pub kind: QueryKind,
}

/// A terminal state of one invoice. No invoice re-enters the active set
/// after reaching one.
#[derive(Debug)]
pub enum Outcome {
    /// The observed balance covered the due amount.
    Paid(Balance),
    /// The deadline passed without fulfillment.
    Expired,
    /// Removed unconditionally by an administrative request.
    ForceTerminated,
    /// A permanent per-invoice error found after acceptance, reported
    /// through the fulfillment-notification path.
    Fatal(ChainError),
}

/// One invoice leaving the active set, with everything a payment-status
/// notification needs.
#[derive(Debug)]
pub struct Resolution {
    pub invoice: Invoice,
    pub outcome: Outcome,
}

/// Whether some invoice in `invoices` bears `id`.
pub open spec fn has_id(invoices: Seq<Invoice>, id: Seq<char>) -> bool {
    exists|i: int| 0 <= i < invoices.len() && invoices[i].id@ == id
}

/// Whether the invoice bearing `id` is satisfied by the observed balance.
pub open spec fn paid_at(invoices: Seq<Invoice>, id: Seq<char>, b: Balance) -> bool {
    exists|i: int|
        0 <= i < invoices.len() && invoices[i].id@ == id && satisfied_at(
            b.0 as int,
            invoices[i].amount,
            invoices[i].currency.decimals,
        )
}

/// Whether a new block leaves `inv` in the active set: its deadline has not
/// passed and its currency is still in the registry.
pub open spec fn query_keeps(
    inv: Invoice,
    assets: Seq<(String, CurrencyProperties)>,
    now: Timestamp,
) -> bool {
    now <= inv.death && lookup_currency(assets, inv.currency.currency@) is Some
}

/// The invoices a new block leaves active, in their original order.
pub open spec fn surviving(
    invoices: Seq<Invoice>,
    assets: Seq<(String, CurrencyProperties)>,
    now: Timestamp,
) -> Seq<Invoice>
    decreases invoices.len(),
{
    if invoices.len() == 0 {
        Seq::empty()
    } else {
        let rest = surviving(invoices.skip(1), assets, now);
        if query_keeps(invoices[0], assets, now) {
            seq![invoices[0]] + rest
        } else {
            rest
        }
    }
}

/// Why a new block removes an invoice: past its deadline it expires; with
/// its deadline intact only an unknown currency removes it, fatally.
pub open spec fn departure_outcome(inv: Invoice, now: Timestamp) -> Outcome {
    if now > inv.death {
        Outcome::Expired
    } else {
        Outcome::Fatal(ChainError::UnknownCurrency(inv.currency.currency))
    }
}

/// The resolutions a new block produces, in the invoices' original order.
pub open spec fn departing(
    invoices: Seq<Invoice>,
    assets: Seq<(String, CurrencyProperties)>,
    now: Timestamp,
) -> Seq<Resolution>
    decreases invoices.len(),
{
    if invoices.len() == 0 {
        Seq::empty()
    } else {
        let rest = departing(invoices.skip(1), assets, now);
        if query_keeps(invoices[0], assets, now) {
            rest
        } else {
            seq![Resolution { invoice: invoices[0], outcome: departure_outcome(invoices[0], now) }]
                + rest
        }
    }
}

/// The query kind an invoice's registry descriptor calls for.
pub open spec fn query_kind_of(inv: Invoice, assets: Seq<(String, CurrencyProperties)>) -> QueryKind {
    match lookup_currency(assets, inv.currency.currency@) {
        Some(props) => match props.asset_id {
            Some(id) => QueryKind::Asset(id),
            None => QueryKind::Native,
        },
        None => QueryKind::Native,
    }
}

/// Each invoice that survives is one of the originals, and distinct ids stay
/// distinct.
proof fn lemma_surviving_unique(
    invoices: Seq<Invoice>,
    assets: Seq<(String, CurrencyProperties)>,
    now: Timestamp,
)
    requires
        forall|i: int, j: int|
            0 <= i < j < invoices.len() ==> invoices[i].id@ != invoices[j].id@,
    ensures
        forall|i: int, j: int|
            0 <= i < j < surviving(invoices, assets, now).len()
                ==> surviving(invoices, assets, now)[i].id@ != surviving(invoices, assets, now)[j].id@,
        forall|id: Seq<char>|
            has_id(surviving(invoices, assets, now), id) ==> has_id(invoices, id),
    decreases invoices.len(),
{
    if invoices.len() > 0 {
        let rest = invoices.skip(1);
        lemma_surviving_unique(rest, assets, now);
        let surv = surviving(invoices, assets, now);
        let surv_rest = surviving(rest, assets, now);
        let keeps0 = query_keeps(invoices[0], assets, now);
        assert(forall|m: int| 0 <= m < rest.len() ==> #[trigger] rest[m] == invoices[m + 1]);
        if keeps0 {
            assert(surv == seq![invoices[0]] + surv_rest);
            assert(surv[0] == invoices[0]);
            assert(forall|k: int| 0 <= k < surv_rest.len() ==> #[trigger] surv_rest[k] == surv[k
                + 1]);
        } else {
            assert(surv == surv_rest);
        }
        assert forall|id: Seq<char>| has_id(surv, id) implies has_id(invoices, id) by {
            let w = choose|i: int| 0 <= i < surv.len() && surv[i].id@ == id;
            if keeps0 && w == 0 {
                assert(invoices[0].id@ == id);
            } else {
                let k = if keeps0 {
                    w - 1
                } else {
                    w
                };
                assert(surv_rest[k].id@ == id);
                assert(has_id(surv_rest, id));
                assert(has_id(rest, id));
                let m = choose|i: int| 0 <= i < rest.len() && rest[i].id@ == id;
                assert(invoices[m + 1].id@ == id);
            }
        }
        assert forall|i: int, j: int| 0 <= i < j < surv.len() implies surv[i].id@ != surv[j].id@ by {
            if keeps0 {
                if i == 0 {
                    assert(surv[j] == surv_rest[j - 1]);
                    assert(has_id(surv_rest, surv[j].id@));
                    assert(has_id(rest, surv[j].id@));
                    if invoices[0].id@ == surv[j].id@ {
                        let m = choose|k: int| 0 <= k < rest.len() && rest[k].id@ == surv[j].id@;
                        assert(invoices[m + 1].id@ == invoices[0].id@);
                        assert(false);
                    }
                } else {
                    assert(surv[i] == surv_rest[i - 1]);
                    assert(surv[j] == surv_rest[j - 1]);
                }
            } else {
                assert(surv[i] == surv_rest[i]);
                assert(surv[j] == surv_rest[j]);
            }
        }
    }
}

/// Removing one invoice keeps the remaining ids pairwise distinct.
proof fn lemma_remove_keeps_unique(s: Seq<Invoice>, i: int)
    requires
        0 <= i < s.len(),
        forall|a: int, b: int| 0 <= a < b < s.len() ==> s[a].id@ != s[b].id@,
    ensures
        forall|a: int, b: int|
            0 <= a < b < s.remove(i).len() ==> s.remove(i)[a].id@ != s.remove(i)[b].id@,
{
    s.remove_ensures(i);
    assert forall|a: int, b: int|
        0 <= a < b < s.remove(i).len() implies s.remove(i)[a].id@ != s.remove(i)[b].id@ by {
        let a0 = if a < i {
            a
        } else {
            a + 1
        };
        let b0 = if b < i {
            b
        } else {
            b + 1
        };
        assert(s.remove(i)[a] == s[a0]);
        assert(s.remove(i)[b] == s[b0]);
    }
}

/// The per-chain tracker's state: the active invoices (ids unique), the
/// context snapshot, the endpoints it reports, the last processed block,
/// and the shutdown bookkeeping of the most recent block's queries.
pub struct ChainTracker {
    pub watcher: ChainWatcher,
    pub invoices: Vec<Invoice>,
    pub endpoints: Vec<RpcInfo>,
    pub last_block: Option<BlockNumber>,
    pub shutting_down: bool,
    pub pending_queries: usize,
    pub shutdown_ack: Option<tokio::sync::oneshot::Sender<()>>,
}

impl ChainTracker {
    /// Invoice ids are unique in the active set, the registry snapshot keys
    /// are unique, and a parked shutdown acknowledgment exists only while
    /// queries are outstanding during shutdown.
    pub open spec fn wf(&self) -> bool {
        &&& forall|i: int, j: int|
            0 <= i < j < self.invoices@.len() ==> self.invoices@[i].id@ != self.invoices@[j].id@
        &&& self.watcher.wf()
        &&& (self.shutdown_ack is Some ==> self.shutting_down && self.pending_queries > 0)
    }

    /// Everything but the active-invoice set is the same in both states.
    pub open spec fn same_but_invoices(self, other: ChainTracker) -> bool {
        &&& self.watcher == other.watcher
        &&& self.endpoints == other.endpoints
        &&& self.last_block == other.last_block
        &&& self.shutting_down == other.shutting_down
        &&& self.pending_queries == other.pending_queries
        &&& self.shutdown_ack == other.shutdown_ack
    }

    /// A fresh tracker for one chain: empty active set, nothing pending.
    pub fn new(watcher: ChainWatcher, endpoints: Vec<RpcInfo>) -> (r: ChainTracker)
        requires
            watcher.wf(),
        ensures
            r.wf(),
            r.watcher == watcher,
            r.endpoints == endpoints,
            r.invoices@.len() == 0,
            r.last_block is None,
            !r.shutting_down,
            r.pending_queries == 0,
            r.shutdown_ack is None,
    {
        ChainTracker {
            watcher,
            invoices: Vec::new(),
            endpoints,
            last_block: None,
            shutting_down: false,
            pending_queries: 0,
            shutdown_ack: None,
        }
    }

    /// The position of the active invoice bearing `id`, when one is there.
    fn find_index(&self, id: &String) -> (r: Option<usize>)
        ensures
            r matches Some(i) ==> i < self.invoices@.len() && self.invoices@[i as int].id@ == id@,
            r is None ==> !has_id(self.invoices@, id@),
    {
        let mut i: usize = 0;
        let n = self.invoices.len();
        while i < n
            invariant
                i <= n,
                n == self.invoices@.len(),
                forall|j: int| 0 <= j < i ==> self.invoices@[j].id@ != id@,
            decreases n - i,
        {
            if self.invoices[i].id == *id {
                return Some(i);
            }
            i += 1;
        }
        None
    }

    /// Whether some active invoice bears `id`.
    pub fn contains_id(&self, id: &String) -> (r: bool)
        ensures
            r == has_id(self.invoices@, id@),
    {
        let mut i: usize = 0;
        while i < self.invoices.len()
            invariant
                i <= self.invoices@.len(),
                forall|j: int| 0 <= j < i ==> self.invoices@[j].id@ != id@,
            decreases self.invoices@.len() - i,
        {
            if self.invoices[i].id == *id {
                return true;
            }
            i += 1;
        }
        false
    }

    /// Handle a watch request. During shutdown nothing is accepted; a
    /// duplicate id is rejected with `DuplicateInvoice` and an unknown
    /// currency with `UnknownCurrency`, each through the request's own
    /// channel and leaving no trace; otherwise the request is acknowledged
    /// as accepted and its invoice joins the active set.
    pub fn watch(&mut self, acc: WatchAccount)
        requires
            old(self).wf(),
        ensures
            final(self).wf(),
            old(self).shutting_down ==> *final(self) == *old(self),
            !old(self).shutting_down && has_id(old(self).invoices@, acc.id@) ==> *final(self)
                == *old(self),
            !old(self).shutting_down && !has_id(old(self).invoices@, acc.id@) && lookup_currency(
                old(self).watcher.assets@,
                acc.currency.currency@,
            ) is None ==> *final(self) == *old(self),
            !old(self).shutting_down && !has_id(old(self).invoices@, acc.id@) && lookup_currency(
                old(self).watcher.assets@,
                acc.currency.currency@,
            ) is Some ==> {
                &&& final(self).same_but_invoices(*old(self))
                &&& final(self).invoices@.len() == old(self).invoices@.len() + 1
                &&& final(self).invoices@.take(old(self).invoices@.len() as int) == old(self).invoices@
                &&& final(self).invoices@.last().id == acc.id
                &&& final(self).invoices@.last().address == acc.address
                &&& final(self).invoices@.last().currency == acc.currency
                &&& final(self).invoices@.last().amount == acc.amount
                &&& final(self).invoices@.last().recipient == acc.recipient
                &&& final(self).invoices@.last().death == acc.death
            },
    {
        if self.shutting_down {
            return ;
        }
        if self.contains_id(&acc.id) {
            let _ = acc.res.send(Err(ChainError::DuplicateInvoice));
            return ;
        }
        match self.watcher.get_currency(&acc.currency.currency) {
            None => {
                let name = acc.currency.currency.clone();
                let _ = acc.res.send(Err(ChainError::UnknownCurrency(name)));
            },
            Some(_) => {
                let invoice = Invoice::from_request(acc);
                self.invoices.push(invoice);
                proof {
                    assert(self.invoices@.take(self.invoices@.len() - 1) =~= old(self).invoices@);
                }
            },
        }
    }

    /// Process a new block at chain time `now`: expire every overdue
    /// invoice, fatally terminate every invoice whose currency has left the
    /// registry, and return one balance query per invoice still active,
    /// which are now the outstanding queries of the most recent block.
    /// During shutdown the block is ignored.
    pub fn new_block(&mut self, number: BlockNumber, now: Timestamp) -> (r: (
        Vec<BalanceQuery>,
        Vec<Resolution>,
    ))
        requires
            old(self).wf(),
        ensures
            final(self).wf(),
            old(self).shutting_down ==> *final(self) == *old(self) && r.0@.len() == 0 && r.1@.len()
                == 0,
            !old(self).shutting_down ==> {
                &&& final(self).invoices@ == surviving(
                    old(self).invoices@,
                    old(self).watcher.assets@,
                    now,
                )
                &&& r.1@ == departing(old(self).invoices@, old(self).watcher.assets@, now)
                &&& final(self).last_block == Some(number)
                &&& final(self).pending_queries == r.0@.len()
                &&& r.0@.len() == final(self).invoices@.len()
                &&& forall|i: int|
                    0 <= i < r.0@.len() ==> {
                        &&& (#[trigger] r.0@[i]).id@ == final(self).invoices@[i].id@
                        &&& r.0@[i].account.bytes@ == final(self).invoices@[i].address.bytes@
                        &&& r.0@[i].kind == query_kind_of(
                            final(self).invoices@[i],
                            old(self).watcher.assets@,
                        )
                    }
                &&& final(self).watcher == old(self).watcher
                &&& final(self).endpoints == old(self).endpoints
                &&& final(self).shutting_down == old(self).shutting_down
                &&& final(self).shutdown_ack == old(self).shutdown_ack
            },
    {
        if self.shutting_down {
            return (Vec::new(), Vec::new());
        }
        let ghost orig = self.invoices@;
        let ghost assets = self.watcher.assets@;
        let ghost pre = *self;
        let mut queries: Vec<BalanceQuery> = Vec::new();
        let mut resolutions: Vec<Resolution> = Vec::new();
        let mut remaining: Vec<Invoice> = Vec::new();
        while self.invoices.len() > 0
            invariant
                self.watcher == pre.watcher,
                self.endpoints == pre.endpoints,
                self.last_block == pre.last_block,
                self.shutting_down == pre.shutting_down,
                self.pending_queries == pre.pending_queries,
                self.shutdown_ack == pre.shutdown_ack,
                assets == pre.watcher.assets@,
                surviving(orig, assets, now) == remaining@ + surviving(self.invoices@, assets, now),
                departing(orig, assets, now) == resolutions@ + departing(
                    self.invoices@,
                    assets,
                    now,
                ),
                queries@.len() == remaining@.len(),
                forall|i: int|
                    0 <= i < queries@.len() ==> {
                        &&& (#[trigger] queries@[i]).id@ == remaining@[i].id@
                        &&& queries@[i].account.bytes@ == remaining@[i].address.bytes@
                        &&& queries@[i].kind == query_kind_of(remaining@[i], assets)
                    },
            decreases self.invoices@.len(),
        {
            let ghost before = self.invoices@;
            let inv = self.invoices.remove(0);
            proof {
                assert(before.remove(0) =~= before.skip(1));
                assert(inv == before[0]);
            }
            if now <= inv.death {
                match self.watcher.get_currency(&inv.currency.currency) {
                    Some(props) => {
                        let kind = match props.asset_id {
                            Some(id) => QueryKind::Asset(id),
                            None => QueryKind::Native,
                        };
                        queries.push(
                            BalanceQuery { id: inv.id.clone(), account: inv.address.duplicate(), kind },
                        );
                        remaining.push(inv);
                        proof {
                            assert(surviving(before, assets, now) =~= seq![before[0]] + surviving(
                                before.skip(1),
                                assets,
                                now,
                            ));
                            assert(remaining@ + surviving(self.invoices@, assets, now)
                                =~= remaining@.drop_last() + surviving(before, assets, now));
                        }
                    },
                    None => {
                        let reason = ChainError::UnknownCurrency(inv.currency.currency.clone());
                        resolutions.push(Resolution { invoice: inv, outcome: Outcome::Fatal(reason) });
                        proof {
                            assert(departure_outcome(before[0], now) == Outcome::Fatal(
                                ChainError::UnknownCurrency(before[0].currency.currency),
                            ));
                            assert(resolutions@ + departing(self.invoices@, assets, now)
                                =~= resolutions@.drop_last() + departing(before, assets, now));
                        }
                    },
                }
            } else {
                resolutions.push(Resolution { invoice: inv, outcome: Outcome::Expired });
                proof {
                    assert(resolutions@ + departing(self.invoices@, assets, now)
                        =~= resolutions@.drop_last() + departing(before, assets, now));
                }
            }
        }
        proof {
            assert(surviving(self.invoices@, assets, now) =~= Seq::<Invoice>::empty());
            assert(departing(self.invoices@, assets, now) =~= Seq::<Resolution>::empty());
            assert(remaining@ =~= surviving(orig, assets, now));
            assert(resolutions@ =~= departing(orig, assets, now));
            lemma_surviving_unique(orig, assets, now);
        }
        self.invoices = remaining;
        self.pending_queries = queries.len();
        self.last_block = Some(number);
        (queries, resolutions)
    }

    /// Fold one balance-query result back into the state: a satisfying
    /// balance resolves its invoice as paid and removes it; a miss, an
    /// unknown id, or a transient failure changes nothing and the invoice
    /// stays active for the next block. The last result to drain releases a
    /// parked shutdown acknowledgment.
    pub fn apply_balance_result(&mut self, id: &String, result: Result<Balance, ChainError>) -> (r:
        Option<Resolution>)
        requires
            old(self).wf(),
            old(self).pending_queries > 0,
        ensures
            final(self).wf(),
            final(self).pending_queries == old(self).pending_queries - 1,
            final(self).watcher == old(self).watcher,
            final(self).endpoints == old(self).endpoints,
            final(self).last_block == old(self).last_block,
            final(self).shutting_down == old(self).shutting_down,
            (result matches Ok(b) && paid_at(old(self).invoices@, id@, b)) ==> exists|i: int|
                0 <= i < old(self).invoices@.len() && (#[trigger] old(self).invoices@[i]).id@
                    == id@ && final(self).invoices@ == old(self).invoices@.remove(i) && r == Some(
                    Resolution {
                        invoice: old(self).invoices@[i],
                        outcome: Outcome::Paid(result.unwrap()),
                    },
                ),
            !(result matches Ok(b) && paid_at(old(self).invoices@, id@, b)) ==> final(self).invoices@ == old(self).invoices@ && r is None,
            final(self).pending_queries == 0 ==> final(self).shutdown_ack is None,
            final(self).pending_queries > 0 ==> final(self).shutdown_ack == old(self).shutdown_ack,
    {
        self.pending_queries = self.pending_queries - 1;
        let mut out: Option<Resolution> = None;
        if let Ok(b) = result {
            match self.find_index(id) {
                Some(i) => {
                    if self.invoices[i].check(b) {
                        proof {
                            lemma_remove_keeps_unique(self.invoices@, i as int);
                        }
                        let inv = self.invoices.remove(i);
                        out = Some(Resolution { invoice: inv, outcome: Outcome::Paid(b) });
                    } else {
                        proof {
                            assert forall|k: int|
                                0 <= k < self.invoices@.len() && (#[trigger] self.invoices@[k]).id@
                                    == id@ implies k == i by {}
                            assert(!paid_at(self.invoices@, id@, b));
                        }
                    }
                },
                None => {
                    proof {
                        assert(!paid_at(self.invoices@, id@, b));
                    }
                },
            }
        }
        if self.pending_queries == 0 {
            if let Some(ack) = self.shutdown_ack.take() {
                let _ = ack.send(());
            }
        }
        out
    }

    /// Expire the invoice bearing `id` when it is active and overdue at
    /// `now`; a no-op otherwise, so reaping is idempotent.
    pub fn reap(&mut self, id: &String, now: Timestamp) -> (r: Option<Resolution>)
        requires
            old(self).wf(),
        ensures
            final(self).wf(),
            final(self).same_but_invoices(*old(self)),
            (exists|i: int|
                0 <= i < old(self).invoices@.len() && (#[trigger] old(self).invoices@[i]).id@
                    == id@ && now > old(self).invoices@[i].death) ==> exists|i: int|
                0 <= i < old(self).invoices@.len() && (#[trigger] old(self).invoices@[i]).id@
                    == id@ && now > old(self).invoices@[i].death && final(self).invoices@ == old(self).invoices@.remove(i) && r == Some(
                    Resolution { invoice: old(self).invoices@[i], outcome: Outcome::Expired },
                ),
            !(exists|i: int|
                0 <= i < old(self).invoices@.len() && (#[trigger] old(self).invoices@[i]).id@
                    == id@ && now > old(self).invoices@[i].death) ==> final(self).invoices@ == old(self).invoices@ && r is None,
    {
        match self.find_index(id) {
            Some(i) => {
                proof {
                    assert forall|k: int|
                        0 <= k < self.invoices@.len() && (#[trigger] self.invoices@[k]).id@ == id@
                        implies k == i by {}
                }
                if now > self.invoices[i].death {
                    proof {
                        lemma_remove_keeps_unique(self.invoices@, i as int);
                    }
                    let inv = self.invoices.remove(i);
                    Some(Resolution { invoice: inv, outcome: Outcome::Expired })
                } else {
                    None
                }
            },
            None => None,
        }
    }

    /// Remove the invoice bearing `id` unconditionally, whatever its
    /// deadline — administrative termination.
    pub fn force_reap(&mut self, id: &String) -> (r: Option<Resolution>)
        requires
            old(self).wf(),
        ensures
            final(self).wf(),
            final(self).same_but_invoices(*old(self)),
            has_id(old(self).invoices@, id@) ==> exists|i: int|
                0 <= i < old(self).invoices@.len() && (#[trigger] old(self).invoices@[i]).id@
                    == id@ && final(self).invoices@ == old(self).invoices@.remove(i) && r == Some(
                    Resolution {
                        invoice: old(self).invoices@[i],
                        outcome: Outcome::ForceTerminated,
                    },
                ),
            !has_id(old(self).invoices@, id@) ==> final(self).invoices@ == old(self).invoices@
                && r is None,
    {
        match self.find_index(id) {
            Some(i) => {
                proof {
                    lemma_remove_keeps_unique(self.invoices@, i as int);
                }
                let inv = self.invoices.remove(i);
                Some(Resolution { invoice: inv, outcome: Outcome::ForceTerminated })
            },
            None => None,
        }
    }

    /// Begin cooperative shutdown: accept no further watches; acknowledge
    /// at once when no queries of the most recent block are outstanding,
    /// else park the acknowledgment until the last of them drains.
    pub fn shutdown(&mut self, ack: tokio::sync::oneshot::Sender<()>)
        requires
            old(self).wf(),
        ensures
            final(self).wf(),
            final(self).shutting_down,
            final(self).invoices@ == old(self).invoices@,
            final(self).watcher == old(self).watcher,
            final(self).endpoints == old(self).endpoints,
            final(self).last_block == old(self).last_block,
            final(self).pending_queries == old(self).pending_queries,
            old(self).pending_queries == 0 ==> final(self).shutdown_ack is None,
            old(self).pending_queries > 0 ==> final(self).shutdown_ack is Some,
    {
        self.shutting_down = true;
        if self.pending_queries == 0 {
            let _ = ack.send(());
            self.shutdown_ack = None;
        } else {
            self.shutdown_ack = Some(ack);
        }
    }

    /// The RPC endpoints this tracker reports for status queries.
    pub fn connected_rpcs(&self) -> (r: Vec<RpcInfo>)
        ensures
            r@.len() == self.endpoints@.len(),
            forall|i: int|
                0 <= i < r@.len() ==> (#[trigger] r@[i]).rpc_url@ == self.endpoints@[i].rpc_url@
                    && r@[i].chain_name@ == self.endpoints@[i].chain_name@,
    {
        let mut out: Vec<RpcInfo> = Vec::new();
        let mut i: usize = 0;
        while i < self.endpoints.len()
            invariant
                i <= self.endpoints@.len(),
                out@.len() == i,
                forall|j: int|
                    0 <= j < i ==> (#[trigger] out@[j]).rpc_url@ == self.endpoints@[j].rpc_url@
                        && out@[j].chain_name@ == self.endpoints@[j].chain_name@,
            decreases self.endpoints@.len() - i,
        {
            let entry = &self.endpoints[i];
            out.push(
                RpcInfo { rpc_url: entry.rpc_url.clone(), chain_name: entry.chain_name.clone() },
            );
            i += 1;
        }
        out
    }
}

} // verus!
