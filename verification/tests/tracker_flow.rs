use chain_watch::callback::order_status;
use chain_watch::chain::definitions::{AccountId, ChainRequest, Invoice, WatchAccount};
use chain_watch::chain::tracker::{
    ChainTracker, ChainWatcher, CurrencyProperties, Outcome, QueryKind,
};
use chain_watch::definitions::{Amount, Balance, CurrencyInfo, OrderInfo, RpcInfo, TokenKind};
use chain_watch::dispatcher::{aggregate_endpoints, find_chain, route_request, Route};
use chain_watch::error::ChainError;
use tokio::sync::oneshot;

fn usdc() -> CurrencyInfo {
    CurrencyInfo {
        currency: "USDC".to_string(),
        chain_name: "assethub-polkadot".to_string(),
        kind: TokenKind::Asset,
        decimals: 6,
        rpc_url: "wss://example".to_string(),
        asset_id: Some(1337),
    }
}

fn account(byte: u8) -> AccountId {
    AccountId { bytes: vec![byte; 32] }
}

fn watcher() -> ChainWatcher {
    ChainWatcher {
        assets: vec![
            ("USDC".to_string(), CurrencyProperties { asset_id: Some(1337), decimals: 6 }),
            ("DOT".to_string(), CurrencyProperties { asset_id: None, decimals: 10 }),
        ],
    }
}

fn watch_account(
    id: &str,
    currency: CurrencyInfo,
    death: u64,
) -> (WatchAccount, oneshot::Receiver<Result<(), ChainError>>) {
    let (tx, rx) = oneshot::channel();
    let acc = WatchAccount {
        id: id.to_string(),
        address: account(7),
        currency,
        amount: Amount { units: 105, scale: 1 },
        recipient: account(9),
        res: tx,
        death,
    };
    (acc, rx)
}

fn invoice(id: &str, death: u64) -> Invoice {
    Invoice {
        id: id.to_string(),
        address: account(7),
        currency: usdc(),
        amount: Amount { units: 105, scale: 1 },
        recipient: account(9),
        death,
    }
}

#[test]
fn watch_account_new_decodes_address() {
    let alice = "5GrwvaEF5zXb26Fz9rcQpDWS57CtERHpNehXCPcNoHGKutQY";
    let (tx, mut rx) = oneshot::channel();
    let order = OrderInfo {
        payment_account: alice.to_string(),
        currency: usdc(),
        amount: Amount { units: 105, scale: 1 },
        death: 1000,
    };
    let acc = WatchAccount::new("order-1".to_string(), order, account(9), tx).unwrap();
    assert_eq!(acc.address.bytes.len(), 32);
    // Acceptance is not signalled by decoding; conversion to an Invoice
    // does that, exactly once.
    assert!(rx.try_recv().is_err());
    let inv = Invoice::from_request(acc);
    assert!(matches!(rx.try_recv(), Ok(Ok(()))));
    assert_eq!(inv.id, "order-1");
    assert_eq!(inv.death, 1000);
}

#[test]
fn watch_account_new_rejects_malformed_address() {
    let (tx, mut rx) = oneshot::channel();
    let order = OrderInfo {
        payment_account: "bogus".to_string(),
        currency: usdc(),
        amount: Amount { units: 1, scale: 0 },
        death: 1,
    };
    assert!(matches!(
        WatchAccount::new("order-2".to_string(), order, account(9), tx),
        Err(ChainError::InvalidAccount(_))
    ));
    // The failure also surfaces through the request's own channel.
    assert!(matches!(rx.try_recv(), Ok(Err(ChainError::InvalidAccount(_)))));
}

#[test]
fn satisfaction_at_exact_boundary() {
    // Due 10.5 USDC at six decimals is 10,500,000 minimal units.
    let inv = invoice("order-1", 1000);
    assert!(inv.check(Balance(10_500_000)));
    assert!(!inv.check(Balance(10_499_999)));
}

#[test]
fn satisfaction_is_monotone_above_boundary() {
    let inv = invoice("order-1", 1000);
    assert!(inv.check(Balance(10_500_001)));
    assert!(inv.check(Balance(u128::MAX)));
}

#[test]
fn satisfaction_with_scale_coarser_than_decimals() {
    // Due 3 units at scale 0, two decimals: 300 minimal units.
    let mut inv = invoice("order-1", 1000);
    inv.amount = Amount { units: 3, scale: 0 };
    inv.currency.decimals = 2;
    assert!(inv.check(Balance(300)));
    assert!(!inv.check(Balance(299)));
}

#[test]
fn satisfaction_with_scale_finer_than_decimals_rounds_up() {
    // Due 1.005 at two decimals rounds up to 101 minimal units.
    let mut inv = invoice("order-1", 1000);
    inv.amount = Amount { units: 1005, scale: 3 };
    inv.currency.decimals = 2;
    assert!(!inv.check(Balance(100)));
    assert!(inv.check(Balance(101)));
}

#[test]
fn unpayable_due_amount_is_never_satisfied() {
    // The due amount in minimal units exceeds u128; no balance can cover it.
    let mut inv = invoice("order-1", 1000);
    inv.amount = Amount { units: u64::MAX, scale: 0 };
    inv.currency.decimals = 30;
    assert!(!inv.check(Balance(u128::MAX)));
}

#[test]
fn zero_due_amount_is_satisfied_at_zero_balance() {
    let mut inv = invoice("order-1", 1000);
    inv.amount = Amount { units: 0, scale: 5 };
    assert!(inv.check(Balance(0)));
}

#[test]
fn balance_query_kind_follows_registry() {
    let w = watcher();
    let inv = invoice("order-1", 1000);
    assert_eq!(inv.balance(&w).unwrap(), QueryKind::Asset(1337));
    let mut native = invoice("order-2", 1000);
    native.currency.currency = "DOT".to_string();
    assert_eq!(native.balance(&w).unwrap(), QueryKind::Native);
}

#[test]
fn balance_fails_for_unknown_currency() {
    let w = watcher();
    let mut inv = invoice("order-1", 1000);
    inv.currency.currency = "DOGE".to_string();
    match inv.balance(&w) {
        Err(ChainError::UnknownCurrency(name)) => assert_eq!(name, "DOGE"),
        other => panic!("expected UnknownCurrency, got {:?}", other),
    }
}

#[test]
fn acceptance_resolves_at_watch_time() {
    let mut tracker = ChainTracker::new(watcher(), vec![]);
    let (acc, mut rx) = watch_account("order-1", usdc(), 100);
    tracker.watch(acc);
    // Acceptance is signalled the moment the invoice is created ...
    assert!(matches!(rx.try_recv(), Ok(Ok(()))));
    assert_eq!(tracker.invoices.len(), 1);
    // ... and does not change even though the invoice later expires unpaid.
    let (queries, resolutions) = tracker.new_block(5, 101);
    assert_eq!(queries.len(), 0);
    assert_eq!(resolutions.len(), 1);
    assert!(matches!(resolutions[0].outcome, Outcome::Expired));
    assert_eq!(tracker.invoices.len(), 0);
}

#[test]
fn duplicate_invoice_is_rejected() {
    let mut tracker = ChainTracker::new(watcher(), vec![]);
    let (first, mut rx1) = watch_account("order-1", usdc(), 1000);
    tracker.watch(first);
    assert!(matches!(rx1.try_recv(), Ok(Ok(()))));
    let (second, mut rx2) = watch_account("order-1", usdc(), 1000);
    tracker.watch(second);
    assert!(matches!(rx2.try_recv(), Ok(Err(ChainError::DuplicateInvoice))));
    assert_eq!(tracker.invoices.len(), 1);
}

#[test]
fn unknown_currency_watch_leaves_no_trace() {
    let mut tracker = ChainTracker::new(watcher(), vec![]);
    let mut doge = usdc();
    doge.currency = "DOGE".to_string();
    let (acc, mut rx) = watch_account("order-1", doge, 1000);
    tracker.watch(acc);
    match rx.try_recv() {
        Ok(Err(ChainError::UnknownCurrency(name))) => assert_eq!(name, "DOGE"),
        other => panic!("expected UnknownCurrency, got {:?}", other),
    }
    assert_eq!(tracker.invoices.len(), 0);
}

#[test]
fn force_reap_removes_immediately() {
    let mut tracker = ChainTracker::new(watcher(), vec![]);
    let (acc, _rx) = watch_account("order-1", usdc(), u64::MAX);
    tracker.watch(acc);
    assert_eq!(tracker.invoices.len(), 1);
    // Removal is observable before any further block is processed, with the
    // deadline nowhere near.
    let gone = tracker.force_reap(&"order-1".to_string()).unwrap();
    assert!(matches!(gone.outcome, Outcome::ForceTerminated));
    assert_eq!(tracker.invoices.len(), 0);
    assert!(tracker.force_reap(&"order-1".to_string()).is_none());
}

#[test]
fn reap_expires_only_overdue_invoices() {
    let mut tracker = ChainTracker::new(watcher(), vec![]);
    let (acc, _rx) = watch_account("order-1", usdc(), 100);
    tracker.watch(acc);
    // Not yet overdue: a no-op.
    assert!(tracker.reap(&"order-1".to_string(), 100).is_none());
    assert_eq!(tracker.invoices.len(), 1);
    // Overdue: expired and removed; a second reap is a no-op again.
    let gone = tracker.reap(&"order-1".to_string(), 101).unwrap();
    assert!(matches!(gone.outcome, Outcome::Expired));
    assert!(tracker.reap(&"order-1".to_string(), 101).is_none());
}

#[test]
fn paid_invoice_is_resolved_and_removed() {
    let mut tracker = ChainTracker::new(watcher(), vec![]);
    let (acc, _rx) = watch_account("order-1", usdc(), 1000);
    tracker.watch(acc);
    let (queries, resolutions) = tracker.new_block(1, 10);
    assert_eq!(resolutions.len(), 0);
    assert_eq!(queries.len(), 1);
    assert_eq!(queries[0].id, "order-1");
    assert_eq!(queries[0].kind, QueryKind::Asset(1337));
    assert_eq!(queries[0].account.bytes, vec![7u8; 32]);
    let paid = tracker
        .apply_balance_result(&"order-1".to_string(), Ok(Balance(10_500_000)))
        .unwrap();
    assert!(matches!(paid.outcome, Outcome::Paid(Balance(10_500_000))));
    assert_eq!(tracker.invoices.len(), 0);
}

#[test]
fn short_balance_and_transient_failure_keep_invoice_active() {
    let mut tracker = ChainTracker::new(watcher(), vec![]);
    let (acc, _rx) = watch_account("order-1", usdc(), 1000);
    tracker.watch(acc);
    let (queries, _) = tracker.new_block(1, 10);
    assert_eq!(queries.len(), 1);
    assert!(tracker
        .apply_balance_result(&"order-1".to_string(), Ok(Balance(10_499_999)))
        .is_none());
    assert_eq!(tracker.invoices.len(), 1);
    let (queries, _) = tracker.new_block(2, 11);
    assert_eq!(queries.len(), 1);
    assert!(tracker
        .apply_balance_result(
            &"order-1".to_string(),
            Err(ChainError::TransientNetwork("timeout".to_string())),
        )
        .is_none());
    assert_eq!(tracker.invoices.len(), 1);
}

#[test]
fn registry_swap_terminates_orphaned_invoice_fatally() {
    let mut tracker = ChainTracker::new(watcher(), vec![]);
    let (acc, _rx) = watch_account("order-1", usdc(), 1000);
    tracker.watch(acc);
    // The context snapshot is replaced wholesale and USDC is gone.
    tracker.watcher = ChainWatcher { assets: vec![] };
    let (queries, resolutions) = tracker.new_block(1, 10);
    assert_eq!(queries.len(), 0);
    assert_eq!(resolutions.len(), 1);
    match &resolutions[0].outcome {
        Outcome::Fatal(ChainError::UnknownCurrency(name)) => assert_eq!(name, "USDC"),
        other => panic!("expected fatal UnknownCurrency, got {:?}", other),
    }
}

#[test]
fn shutdown_acknowledges_only_after_queries_drain() {
    let mut tracker = ChainTracker::new(watcher(), vec![]);
    let (acc1, _rx1) = watch_account("order-1", usdc(), 1000);
    let (acc2, _rx2) = watch_account("order-2", usdc(), 1000);
    tracker.watch(acc1);
    tracker.watch(acc2);
    let (queries, _) = tracker.new_block(1, 10);
    assert_eq!(queries.len(), 2);
    let (ack_tx, mut ack_rx) = oneshot::channel();
    tracker.shutdown(ack_tx);
    // Two queries outstanding: the acknowledgment must not have fired.
    assert!(ack_rx.try_recv().is_err());
    assert!(tracker
        .apply_balance_result(
            &"order-1".to_string(),
            Err(ChainError::TransientNetwork("timeout".to_string())),
        )
        .is_none());
    assert!(ack_rx.try_recv().is_err());
    tracker
        .apply_balance_result(&"order-2".to_string(), Ok(Balance(10_500_000)))
        .unwrap();
    // The last of them drained: now, and only now, the acknowledgment fires.
    assert!(matches!(ack_rx.try_recv(), Ok(())));
}

#[test]
fn shutdown_with_nothing_outstanding_acknowledges_at_once() {
    let mut tracker = ChainTracker::new(watcher(), vec![]);
    let (ack_tx, mut ack_rx) = oneshot::channel();
    tracker.shutdown(ack_tx);
    assert!(matches!(ack_rx.try_recv(), Ok(())));
    // Nothing is accepted after shutdown.
    let (acc, mut rx) = watch_account("order-1", usdc(), 1000);
    tracker.watch(acc);
    assert!(rx.try_recv().is_err());
    assert_eq!(tracker.invoices.len(), 0);
}

#[test]
fn new_block_is_ignored_during_shutdown() {
    let mut tracker = ChainTracker::new(watcher(), vec![]);
    let (acc, _rx) = watch_account("order-1", usdc(), 1000);
    tracker.watch(acc);
    let (ack_tx, _ack_rx) = oneshot::channel();
    tracker.shutdown(ack_tx);
    let (queries, resolutions) = tracker.new_block(1, 10);
    assert_eq!(queries.len(), 0);
    assert_eq!(resolutions.len(), 0);
    assert_eq!(tracker.invoices.len(), 1);
}

#[test]
fn tracker_reports_its_endpoints() {
    let endpoint = RpcInfo {
        rpc_url: "wss://example".to_string(),
        chain_name: "assethub-polkadot".to_string(),
    };
    let tracker = ChainTracker::new(watcher(), vec![endpoint]);
    let reported = tracker.connected_rpcs();
    assert_eq!(reported.len(), 1);
    assert_eq!(reported[0].rpc_url, "wss://example");
    assert_eq!(reported[0].chain_name, "assethub-polkadot");
}

#[test]
fn routing_follows_the_currency_chain() {
    let (acc, _rx) = watch_account("order-1", usdc(), 1000);
    match route_request(&ChainRequest::WatchAccount(acc)) {
        Route::Chain(name) => assert_eq!(name, "assethub-polkadot"),
        _ => panic!("expected per-chain routing"),
    }
    let (tx, _rx) = oneshot::channel();
    assert!(matches!(route_request(&ChainRequest::Shutdown(tx)), Route::Broadcast));
    let (tx, _rx) = oneshot::channel();
    assert!(matches!(route_request(&ChainRequest::GetConnectedRpcs(tx)), Route::Aggregate));
}

#[test]
fn find_chain_picks_first_match() {
    let chains = vec![
        "polkadot".to_string(),
        "assethub-polkadot".to_string(),
    ];
    assert_eq!(find_chain(&chains, &"assethub-polkadot".to_string()), Some(1));
    assert_eq!(find_chain(&chains, &"kusama".to_string()), None);
}

#[test]
fn endpoint_listing_aggregates_in_tracker_order() {
    let a = RpcInfo { rpc_url: "wss://a".to_string(), chain_name: "one".to_string() };
    let b = RpcInfo { rpc_url: "wss://b".to_string(), chain_name: "two".to_string() };
    let c = RpcInfo { rpc_url: "wss://c".to_string(), chain_name: "two".to_string() };
    let all = aggregate_endpoints(vec![vec![a], vec![], vec![b, c]]);
    let urls: Vec<String> = all.iter().map(|r| r.rpc_url.clone()).collect();
    assert_eq!(urls, vec!["wss://a", "wss://b", "wss://c"]);
}

#[test]
fn status_document_carries_resolution_data() {
    let mut tracker = ChainTracker::new(watcher(), vec![]);
    let (acc, _rx) = watch_account("order-1", usdc(), 1000);
    tracker.watch(acc);
    let (_, _) = tracker.new_block(1, 10);
    let paid = tracker
        .apply_balance_result(&"order-1".to_string(), Ok(Balance(99_000_000)))
        .unwrap();
    let doc = order_status(&paid, 42);
    assert_eq!(doc.order, "order-1");
    assert!(doc.paid);
    assert_eq!(doc.observed, Some(Balance(99_000_000)));
    assert_eq!(doc.amount, Amount { units: 105, scale: 1 });
    assert_eq!(doc.currency.decimals, 6);
    assert_eq!(doc.currency.asset_id, Some(1337));
    // The addresses are rendered as checksummed base-58 text.
    let recipient_bytes = AccountId::from_base58_text(&doc.recipient).unwrap();
    assert_eq!(recipient_bytes.bytes, vec![9u8; 32]);
    let payment_bytes = AccountId::from_base58_text(&doc.payment_account).unwrap();
    assert_eq!(payment_bytes.bytes, vec![7u8; 32]);
}
