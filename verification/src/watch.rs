use vstd::prelude::*;

use crate::hashes::to_uppercase;
use crate::hashes::upper_of;

verus! {

/// Static configuration of one supported chain: its name, the indexer
/// endpoint to poll, and how many confirmations the chain's security margin
/// calls for. Immutable after startup.
pub struct ChainConfig {
    pub name: String,
    pub rpc_url: String,
    pub confirmations: u64,
}

/// Build the chain registry: BTC and BCH require 2 confirmations, DOGE
/// requires 40. Each endpoint may be overridden; the caller passes the
/// overrides in (configuration reading stays outside this library).
pub fn load_chain_configs(
    btc_url: Option<String>,
    bch_url: Option<String>,
    doge_url: Option<String>,
) -> (r: Vec<ChainConfig>)
    ensures
        r@.len() == 3,
        r@[0].name@ == "BTC"@ && r@[0].confirmations == 2,
        r@[1].name@ == "BCH"@ && r@[1].confirmations == 2,
        r@[2].name@ == "DOGE"@ && r@[2].confirmations == 40,
        r@[0].rpc_url@ == (match btc_url {
            Some(u) => u@,
            None => "tcp://electrum.blockstream.info:50001"@,
        }),
        r@[1].rpc_url@ == (match bch_url {
            Some(u) => u@,
            None => "tcp://bch.imaginary.cash:50001"@,
        }),
        r@[2].rpc_url@ == (match doge_url {
            Some(u) => u@,
            None => "tcp://electrum.dogecoin.org:50001"@,
        }),
{
    let btc = ChainConfig {
        name: "BTC".to_owned(),
        rpc_url: match btc_url {
            Some(u) => u,
            None => "tcp://electrum.blockstream.info:50001".to_owned(),
        },
        confirmations: 2,
    };
    let bch = ChainConfig {
        name: "BCH".to_owned(),
        rpc_url: match bch_url {
            Some(u) => u,
            None => "tcp://bch.imaginary.cash:50001".to_owned(),
        },
        confirmations: 2,
    };
    let doge = ChainConfig {
        name: "DOGE".to_owned(),
        rpc_url: match doge_url {
            Some(u) => u,
            None => "tcp://electrum.dogecoin.org:50001".to_owned(),
        },
        confirmations: 40,
    };
    let mut r: Vec<ChainConfig> = Vec::new();
    r.push(btc);
    r.push(bch);
    r.push(doge);
    r
}

/// One order record as the external store exposes it to the watcher: the
/// order's identifier, the chain its price is quoted in, and the deposit
/// address whose history is polled.
pub struct OrderRecord {
    pub listing_id: String,
    pub price_chain: String,
    pub pay_to: String,
}

/// One entry of a chain indexer's address-history answer.
pub struct HistoryEntry {
    pub height: i64,
    pub tx_hash: String,
}

/// The outcome of inspecting one order's history on one tick: either nothing
/// actionable, or the first transaction observed at a positive height.
pub enum WatchCycleOutcome {
    NoActivity,
    Observed { tx_hash: String, height: i64 },
}

/// A confirmation the watcher owes the external sink for one order.
pub struct ConfirmRequest {
    pub listing_id: String,
    pub observed_txid: String,
    pub chain: String,
}

/// Scanning a history in its given order: the first entry with a positive
/// height is the observation; entries after it are never reached.
pub open spec fn scan_history_spec(h: Seq<HistoryEntry>) -> WatchCycleOutcome
    decreases h.len(),
{
    if h.len() == 0 {
        WatchCycleOutcome::NoActivity
    } else if h[0].height > 0 {
        WatchCycleOutcome::Observed { tx_hash: h[0].tx_hash, height: h[0].height }
    } else {
        scan_history_spec(h.skip(1))
    }
}

/// Scan one order's history entries in their given order and report the
/// first entry with a positive height; nothing else is inspected.
pub fn scan_history(h: &Vec<HistoryEntry>) -> (r: WatchCycleOutcome)
    ensures
        r == scan_history_spec(h@),
{
    let mut i: usize = 0;
    proof {
        assert(h@.skip(0) =~= h@);
    }
    while i < h.len()
        invariant
            i <= h@.len(),
            scan_history_spec(h@) == scan_history_spec(h@.skip(i as int)),
        decreases h@.len() - i,
    {
        let entry = &h[i];
        proof {
            assert(h@.skip(i as int)[0] == h@[i as int]);
        }
        if entry.height > 0 {
            return WatchCycleOutcome::Observed {
                tx_hash: entry.tx_hash.clone(),
                height: entry.height,
            };
        }
        i = i + 1;
        proof {
            assert(h@.skip(i - 1).skip(1) =~= h@.skip(i as int));
        }
    }
    proof {
        assert(h@.skip(h@.len() as int) =~= Seq::<HistoryEntry>::empty());
    }
    WatchCycleOutcome::NoActivity
}

/// Law: the scan is decided by the first entry at a positive height; the
/// entries after it cannot change the outcome, so nothing past the match is
/// ever inspected.
pub proof fn lemma_scan_first_positive(h: Seq<HistoryEntry>, i: int)
    requires
        0 <= i < h.len(),
        h[i].height > 0,
        forall|k: int| 0 <= k < i ==> h[k].height <= 0,
    ensures
        scan_history_spec(h) == (WatchCycleOutcome::Observed {
            tx_hash: h[i].tx_hash,
            height: h[i].height,
        }),
    decreases i,
{
    if i > 0 {
        assert forall|k: int| 0 <= k < i - 1 implies h.skip(1)[k].height <= 0 by {
            assert(h.skip(1)[k] == h[k + 1]);
        }
        assert(h.skip(1)[i - 1] == h[i]);
        lemma_scan_first_positive(h.skip(1), i - 1);
    }
}

/// Does an order's price chain name this watcher's chain? The match is
/// case-insensitive.
pub fn chain_matches(price_chain: &str, chain: &str) -> (r: bool)
    ensures
        r == (upper_of(price_chain@) == upper_of(chain@)),
{
    let a = to_uppercase(price_chain);
    let b = to_uppercase(chain);
    a == b
}

/// The confirmation an order contributes to a tick, as (order id, txid)
/// pairs: one pair when the order belongs to the chain, its history query
/// succeeded, and some entry has a positive height; none otherwise. A failed
/// query (absence) contributes nothing and never aborts the tick.
pub open spec fn order_confirm_spec(
    chain: Seq<char>,
    order: OrderRecord,
    history: Option<Vec<HistoryEntry>>,
) -> Seq<(Seq<char>, Seq<char>)> {
    if upper_of(order.price_chain@) == upper_of(chain) {
        match history {
            Some(h) => match scan_history_spec(h@) {
                WatchCycleOutcome::Observed { tx_hash, height } => seq![
                    (order.listing_id@, tx_hash@),
                ],
                WatchCycleOutcome::NoActivity => Seq::empty(),
            },
            None => Seq::empty(),
        }
    } else {
        Seq::empty()
    }
}

/// All confirmations one tick owes, in order of the order records.
pub open spec fn tick_confirms_spec(
    chain: Seq<char>,
    orders: Seq<OrderRecord>,
    histories: Seq<Option<Vec<HistoryEntry>>>,
) -> Seq<(Seq<char>, Seq<char>)>
    decreases orders.len(),
{
    if orders.len() == 0 {
        Seq::empty()
    } else {
        tick_confirms_spec(chain, orders.drop_last(), histories.drop_last()) + order_confirm_spec(
            chain,
            orders.last(),
            histories.last(),
        )
    }
}

/// Decide one whole tick from the chain's order records and each record's
/// (already fetched) history answer, absence standing for a failed query:
/// the confirmations owed, one per matching order whose history shows a
/// positive height, carrying that order's id and the observed txid. Failed
/// queries are isolated: they contribute nothing and the tick still
/// completes over the remaining orders.
pub fn plan_tick(
    chain: &str,
    orders: &Vec<OrderRecord>,
    histories: &Vec<Option<Vec<HistoryEntry>>>,
) -> (r: Vec<ConfirmRequest>)
    requires
        orders@.len() == histories@.len(),
    ensures
        r@.len() == tick_confirms_spec(chain@, orders@, histories@).len(),
        forall|k: int|
            0 <= k < r@.len() ==> {
                &&& (#[trigger] r@[k]).listing_id@ == tick_confirms_spec(
                    chain@,
                    orders@,
                    histories@,
                )[k].0
                &&& r@[k].observed_txid@ == tick_confirms_spec(chain@, orders@, histories@)[k].1
                &&& r@[k].chain@ == chain@
            },
{
    let mut r: Vec<ConfirmRequest> = Vec::new();
    let mut i: usize = 0;
    while i < orders.len()
        invariant
            i <= orders@.len(),
            orders@.len() == histories@.len(),
            r@.len() == tick_confirms_spec(
                chain@,
                orders@.take(i as int),
                histories@.take(i as int),
            ).len(),
            forall|k: int|
                0 <= k < r@.len() ==> {
                    &&& (#[trigger] r@[k]).listing_id@ == tick_confirms_spec(
                        chain@,
                        orders@.take(i as int),
                        histories@.take(i as int),
                    )[k].0
                    &&& r@[k].observed_txid@ == tick_confirms_spec(
                        chain@,
                        orders@.take(i as int),
                        histories@.take(i as int),
                    )[k].1
                    &&& r@[k].chain@ == chain@
                },
        decreases orders@.len() - i,
    {
        let ghost pre = tick_confirms_spec(chain@, orders@.take(i as int), histories@.take(i as int));
        let order = &orders[i];
        if chain_matches(order.price_chain.as_str(), chain) {
            match &histories[i] {
                Some(h) => {
                    match scan_history(h) {
                        WatchCycleOutcome::Observed { tx_hash, height } => {
                            r.push(
                                ConfirmRequest {
                                    listing_id: order.listing_id.clone(),
                                    observed_txid: tx_hash,
                                    chain: chain.to_owned(),
                                },
                            );
                        },
                        WatchCycleOutcome::NoActivity => {},
                    }
                },
                None => {},
            }
        }
        i = i + 1;
        proof {
            let o1 = orders@.take(i as int);
            let h1 = histories@.take(i as int);
            assert(o1.drop_last() =~= orders@.take(i - 1));
            assert(h1.drop_last() =~= histories@.take(i - 1));
            assert(o1.last() == orders@[i - 1]);
            assert(h1.last() == histories@[i - 1]);
            assert(tick_confirms_spec(chain@, o1, h1) == pre + order_confirm_spec(
                chain@,
                orders@[i - 1],
                histories@[i - 1],
            ));
        }
    }
    proof {
        assert(orders@.take(orders@.len() as int) =~= orders@);
        assert(histories@.take(histories@.len() as int) =~= histories@);
    }
    r
}

} // verus!
