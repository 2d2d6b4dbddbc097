use sha2::Digest;
use vision_market::invoice::generate_invoice_address;
use vision_market::watch::chain_matches;
use vision_market::watch::load_chain_configs;
use vision_market::watch::plan_tick;
use vision_market::watch::scan_history;
use vision_market::watch::HistoryEntry;
use vision_market::watch::OrderRecord;
use vision_market::watch::WatchCycleOutcome;

fn order(id: &str, chain: &str, pay_to: &str) -> OrderRecord {
    OrderRecord {
        listing_id: id.to_string(),
        price_chain: chain.to_string(),
        pay_to: pay_to.to_string(),
    }
}

fn entry(height: i64, tx: &str) -> HistoryEntry {
    HistoryEntry {
        height,
        tx_hash: tx.to_string(),
    }
}

#[test]
fn chain_registry_defaults() {
    let configs = load_chain_configs(None, None, None);
    assert_eq!(configs.len(), 3);
    assert_eq!(configs[0].name, "BTC");
    assert_eq!(configs[0].confirmations, 2);
    assert_eq!(configs[0].rpc_url, "tcp://electrum.blockstream.info:50001");
    assert_eq!(configs[1].name, "BCH");
    assert_eq!(configs[1].confirmations, 2);
    assert_eq!(configs[1].rpc_url, "tcp://bch.imaginary.cash:50001");
    assert_eq!(configs[2].name, "DOGE");
    assert_eq!(configs[2].confirmations, 40);
    assert_eq!(configs[2].rpc_url, "tcp://electrum.dogecoin.org:50001");
}

#[test]
fn chain_registry_overrides() {
    let configs = load_chain_configs(
        Some("https://btc.example:50002".to_string()),
        None,
        Some("https://doge.example:50002".to_string()),
    );
    assert_eq!(configs[0].rpc_url, "https://btc.example:50002");
    assert_eq!(configs[1].rpc_url, "tcp://bch.imaginary.cash:50001");
    assert_eq!(configs[2].rpc_url, "https://doge.example:50002");
}

#[test]
fn chain_match_is_case_insensitive() {
    assert!(chain_matches("btc", "BTC"));
    assert!(chain_matches("BTC", "BTC"));
    assert!(chain_matches("DoGe", "doge"));
    assert!(!chain_matches("BCH", "BTC"));
    assert!(!chain_matches("", "BTC"));
}

#[test]
fn scan_history_picks_first_positive_height() {
    let h = vec![entry(0, "aa"), entry(5, "bb"), entry(9, "cc")];
    match scan_history(&h) {
        WatchCycleOutcome::Observed { tx_hash, height } => {
            assert_eq!(tx_hash, "bb");
            assert_eq!(height, 5);
        }
        WatchCycleOutcome::NoActivity => panic!("expected an observation"),
    }
}

#[test]
fn scan_history_ignores_unconfirmed_and_empty() {
    let h = vec![entry(0, "aa"), entry(-1, "bb")];
    assert!(matches!(scan_history(&h), WatchCycleOutcome::NoActivity));
    let empty: Vec<HistoryEntry> = Vec::new();
    assert!(matches!(scan_history(&empty), WatchCycleOutcome::NoActivity));
}

#[test]
fn tick_confirms_once_with_first_txid() {
    // One transaction at height 5: exactly one confirmation for that order,
    // carrying its tx hash; the later entry is never reported.
    let orders = vec![order("L1", "BTC", "addr1")];
    let histories = vec![Some(vec![entry(5, "txfirst"), entry(8, "txlater")])];
    let confirms = plan_tick("BTC", &orders, &histories);
    assert_eq!(confirms.len(), 1);
    assert_eq!(confirms[0].listing_id, "L1");
    assert_eq!(confirms[0].observed_txid, "txfirst");
    assert_eq!(confirms[0].chain, "BTC");
}

#[test]
fn tick_survives_one_failed_query() {
    // One order's query fails while two succeed with height 0: the tick
    // completes and owes zero confirmations.
    let orders = vec![
        order("L1", "BTC", "addr1"),
        order("L2", "BTC", "addr2"),
        order("L3", "BTC", "addr3"),
    ];
    let histories = vec![
        None,
        Some(vec![entry(0, "aa")]),
        Some(vec![entry(0, "bb")]),
    ];
    let confirms = plan_tick("BTC", &orders, &histories);
    assert_eq!(confirms.len(), 0);
}

#[test]
fn tick_filters_by_chain_case_insensitively() {
    let orders = vec![
        order("L1", "btc", "addr1"),
        order("L2", "DOGE", "addr2"),
        order("L3", "BTC", "addr3"),
    ];
    let histories = vec![
        Some(vec![entry(3, "t1")]),
        Some(vec![entry(4, "t2")]),
        Some(vec![entry(0, "t3")]),
    ];
    let confirms = plan_tick("BTC", &orders, &histories);
    assert_eq!(confirms.len(), 1);
    assert_eq!(confirms[0].listing_id, "L1");
    assert_eq!(confirms[0].observed_txid, "t1");
}

#[test]
fn invoice_tag_matches_formula() {
    let got = generate_invoice_address("BTC", "L42", "SECRET-REDACTED");
    let digest = sha2::Sha256::digest("BTC:L42:SECRET-REDACTED".as_bytes());
    let want = format!("btc_{}", &hex::encode(digest)[..16]);
    assert_eq!(got, want);
}

#[test]
fn invoice_tag_deterministic_and_distinct() {
    let a = generate_invoice_address("DOGE", "L1", "seed");
    let b = generate_invoice_address("DOGE", "L1", "seed");
    assert_eq!(a, b);
    assert!(a.starts_with("doge_"));
    assert_eq!(a.len(), "doge_".len() + 16);
    let c = generate_invoice_address("DOGE", "L2", "seed");
    assert_ne!(a, c);
    let d = generate_invoice_address("BCH", "L1", "seed");
    assert!(d.starts_with("bch_"));
    assert_ne!(a, d);
}
