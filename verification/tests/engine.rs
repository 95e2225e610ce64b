use kalshi_bot::clock::Clock;
use kalshi_bot::engine::{
    entry_cycle, CycleAction, CycleError, CycleEvent, CycleOutcome, EntryCycle, Phase,
};
use kalshi_bot::ledger::{append_ledger, format_row, parse_ledger_content};
use kalshi_bot::position_manager::PositionManager;
use kalshi_bot::risk::RiskVeto;
use kalshi_bot::types::{
    Action, Config, FillEvent, MarketState, OrderResult, Orderbook, Position, RestingOrder,
    Settlement, Side, TradeDecision,
};

const HEADER: &str = "# Ledger\n\n| Timestamp | Ticker | Side | Shares | Price | Result | PnL | Cumulative | Order |\n|---|---|---|---|---|---|---|---|---|\n";

fn config(paper: bool) -> Config {
    Config {
        max_shares: 2,
        max_daily_loss_cents: 1000,
        max_consecutive_losses: 7,
        min_balance_cents: 500,
        min_seconds_to_expiry: 120,
        tp_cents_per_share: 20,
        sl_cents_per_share: 20,
        entry_cycle_interval_secs: 60,
        position_check_interval_secs: 5,
        paper_trade: paper,
        confirm_live: !paper,
        series_tickers: vec!["KXBTC15M".to_string()],
        kalshi_base_url: String::new(),
        kalshi_ws_url: String::new(),
        binance_ws_url: String::new(),
        openrouter_api_key: String::new(),
        kalshi_key_id: String::new(),
        kalshi_private_key_pem: String::new(),
        lockfile_path: String::new(),
    }
}

fn now() -> Clock {
    Clock { millis: 1_770_929_100_000, text: "2026-02-12T20:45:00+00:00".to_string() }
}

fn market(seconds: i64) -> MarketState {
    MarketState {
        ticker: "KXBTC15M-26FEB122100-45".to_string(),
        event_ticker: "KXBTC15M-26FEB122100".to_string(),
        title: "BTC up?".to_string(),
        yes_bid: Some(38),
        yes_ask: Some(41),
        no_bid: Some(58),
        no_ask: Some(61),
        last_price: Some(40),
        volume: 10,
        volume_24h: 20,
        open_interest: 5,
        expiration_time: "2026-02-12T21:00:00Z".to_string(),
        seconds_to_expiry: seconds,
    }
}

fn buy(side: Option<Side>, shares: Option<u32>, price: Option<u32>) -> TradeDecision {
    TradeDecision {
        action: Action::Buy,
        side,
        shares,
        max_price_cents: price,
        reasoning: "edge".to_string(),
    }
}

fn start() -> (EntryCycle, CycleAction) {
    let pm = PositionManager::new(&config(true));
    entry_cycle("KXBTC15M", &pm)
}

/// Drives a cycle from the loaded ledger to the decision request.
fn to_decision(ledger: &str, cfg: &Config) -> EntryCycle {
    let (c, a) = start();
    assert!(matches!(a, CycleAction::ListRestingOrders));
    let (c, a) = c.step(CycleEvent::RestingOrders { orders: vec![] }, &now(), cfg);
    assert!(matches!(a, CycleAction::LoadLedger));
    let (c, a) = c.step(CycleEvent::Ledger { text: ledger.to_string() }, &now(), cfg);
    assert!(matches!(a, CycleAction::FetchBalance));
    let (c, a) = c.step(CycleEvent::Balance { cents: 10_000 }, &now(), cfg);
    match a {
        CycleAction::FetchActiveMarket { series } => assert_eq!(series, "KXBTC15M"),
        other => panic!("{:?}", other),
    }
    let (c, a) = c.step(CycleEvent::ActiveMarket { market: Some(market(600)) }, &now(), cfg);
    match a {
        CycleAction::FetchOrderbook { ticker } => assert_eq!(ticker, "KXBTC15M-26FEB122100-45"),
        other => panic!("{:?}", other),
    }
    let book = Orderbook { yes: vec![(38, 5)], no: vec![(58, 5)] };
    let (c, a) = c.step(CycleEvent::Orderbook { orderbook: book }, &now(), cfg);
    match a {
        CycleAction::FetchPriceSnapshot { symbol } => assert_eq!(symbol, "BTCUSDT"),
        other => panic!("{:?}", other),
    }
    let (c, a) = c.step(CycleEvent::PriceSnapshot { available: false }, &now(), cfg);
    assert!(matches!(a, CycleAction::LoadPrompt));
    let (c, a) = c.step(CycleEvent::Prompt { text: "Trade well.".to_string() }, &now(), cfg);
    assert!(matches!(a, CycleAction::Decide { .. }));
    c
}

#[test]
fn paper_buy_adds_exactly_one_pending_row() {
    let cfg = config(true);
    let c = to_decision(HEADER, &cfg);
    let (c, a) = c.step(
        CycleEvent::Decision { decision: buy(Some(Side::Yes), Some(2), Some(40)) },
        &now(),
        &cfg,
    );
    assert!(matches!(a, CycleAction::FetchPositions));
    let (c, a) = c.step(CycleEvent::Positions { positions: vec![] }, &now(), &cfg);
    let row = match a {
        CycleAction::AppendLedger { row } => row,
        other => panic!("{:?}", other),
    };
    let after = append_ledger(HEADER, &row);
    assert_eq!(
        after,
        format!(
            "{}| 2026-02-12T20:45:00+00:00 | KXBTC15M-26FEB122100-45 | yes | 2 | 40 | pending | 0 | 0 | paper-1770929100000 |\n",
            HEADER
        )
    );
    let rows = parse_ledger_content(&after);
    assert_eq!(rows.len(), 1);
    assert_eq!(rows[0].result, "pending");
    assert_eq!(rows[0].side, "yes");
    assert_eq!(rows[0].shares, 2);
    assert_eq!(rows[0].price, 40);
    assert_eq!(rows[0].pnl_cents, 0);
    assert_eq!(rows[0].cumulative_cents, 0);
    assert_eq!(rows[0].ticker, "KXBTC15M-26FEB122100-45");
    assert_eq!(rows[0].timestamp, "2026-02-12T20:45:00+00:00");
    assert_eq!(rows[0].order_id, "paper-1770929100000");
    assert!(rows[0].order_id.starts_with("paper-"));
    let (c, a) = c.step(CycleEvent::Stored, &now(), &cfg);
    match a {
        CycleAction::Finish { outcome: CycleOutcome::Ordered { order_id } } => {
            assert_eq!(order_id, "paper-1770929100000")
        }
        other => panic!("{:?}", other),
    }
    assert_eq!(c.phase, Phase::Done);
}

#[test]
fn decision_is_clamped_and_defaults_apply() {
    let cfg = config(false);
    let c = to_decision(HEADER, &cfg);
    let (c, _) = c.step(CycleEvent::Decision { decision: buy(None, None, None) }, &now(), &cfg);
    assert_eq!((c.side, c.shares, c.price_cents), (Side::Yes, 1, 50));
    let c = to_decision(HEADER, &cfg);
    let (c, _) = c.step(
        CycleEvent::Decision { decision: buy(Some(Side::No), Some(9), Some(0)) },
        &now(),
        &cfg,
    );
    assert_eq!((c.side, c.shares, c.price_cents), (Side::No, 2, 1));
    let c = to_decision(HEADER, &cfg);
    let (c, _) = c.step(
        CycleEvent::Decision { decision: buy(Some(Side::No), Some(0), Some(100)) },
        &now(),
        &cfg,
    );
    assert_eq!((c.side, c.shares, c.price_cents), (Side::No, 0, 99));
}

#[test]
fn live_buy_places_first_and_records_after() {
    let cfg = config(false);
    let ledger = format!("{}| t0 | A | yes | 1 | 30 | win | 70 | 70 | o0 |\n", HEADER);
    let c = to_decision(&ledger, &cfg);
    let (c, _) = c.step(
        CycleEvent::Decision { decision: buy(Some(Side::No), Some(2), Some(45)) },
        &now(),
        &cfg,
    );
    let (c, a) = c.step(CycleEvent::Positions { positions: vec![] }, &now(), &cfg);
    match a {
        CycleAction::PlaceOrder { order } => {
            assert_eq!(order.ticker, "KXBTC15M-26FEB122100-45");
            assert_eq!(order.side, Side::No);
            assert_eq!(order.shares, 2);
            assert_eq!(order.price_cents, 45);
        }
        other => panic!("{:?}", other),
    }
    let result = OrderResult { order_id: "ex-77".to_string(), status: "resting".to_string() };
    let (c, a) = c.step(CycleEvent::Placed { result }, &now(), &cfg);
    match a {
        CycleAction::AppendLedger { row } => assert_eq!(
            format_row(&row),
            "| 2026-02-12T20:45:00+00:00 | KXBTC15M-26FEB122100-45 | no | 2 | 45 | pending | 0 | 70 | ex-77 |"
        ),
        other => panic!("{:?}", other),
    }
    let (_, a) = c.step(CycleEvent::StorageFailed, &now(), &cfg);
    match a {
        CycleAction::Finish { outcome: CycleOutcome::Untracked { order_id } } => {
            assert_eq!(order_id, "ex-77")
        }
        other => panic!("{:?}", other),
    }
}

#[test]
fn failed_placement_aborts_without_a_row() {
    let cfg = config(false);
    let c = to_decision(HEADER, &cfg);
    let (c, _) = c.step(
        CycleEvent::Decision { decision: buy(Some(Side::Yes), Some(1), Some(45)) },
        &now(),
        &cfg,
    );
    let (c, a) = c.step(CycleEvent::Positions { positions: vec![] }, &now(), &cfg);
    assert!(matches!(a, CycleAction::PlaceOrder { .. }));
    let (c, a) = c.step(CycleEvent::ExchangeFailed, &now(), &cfg);
    assert!(matches!(
        a,
        CycleAction::Finish { outcome: CycleOutcome::Aborted { error: CycleError::Exchange } }
    ));
    assert_eq!(c.phase, Phase::Done);
}

#[test]
fn paper_append_failure_is_an_ordinary_abort() {
    let cfg = config(true);
    let c = to_decision(HEADER, &cfg);
    let (c, _) = c.step(
        CycleEvent::Decision { decision: buy(Some(Side::Yes), Some(1), Some(45)) },
        &now(),
        &cfg,
    );
    let (c, _) = c.step(CycleEvent::Positions { positions: vec![] }, &now(), &cfg);
    let (_, a) = c.step(CycleEvent::StorageFailed, &now(), &cfg);
    assert!(matches!(
        a,
        CycleAction::Finish { outcome: CycleOutcome::Aborted { error: CycleError::Storage } }
    ));
}

#[test]
fn pass_ends_the_cycle() {
    let cfg = config(true);
    let c = to_decision(HEADER, &cfg);
    let decision = TradeDecision {
        action: Action::Pass,
        side: Some(Side::Yes),
        shares: Some(2),
        max_price_cents: Some(40),
        reasoning: "no edge".to_string(),
    };
    let (_, a) = c.step(CycleEvent::Decision { decision }, &now(), &cfg);
    match a {
        CycleAction::Finish { outcome: CycleOutcome::Pass { reasoning } } => {
            assert_eq!(reasoning, "no edge")
        }
        other => panic!("{:?}", other),
    }
}

#[test]
fn exposure_on_the_market_stops_the_order() {
    let cfg = config(true);
    let c = to_decision(HEADER, &cfg);
    let (c, _) = c.step(
        CycleEvent::Decision { decision: buy(Some(Side::Yes), Some(1), Some(45)) },
        &now(),
        &cfg,
    );
    let positions = vec![
        Position { ticker: "OTHER".to_string(), side: Side::Yes, count: 1 },
        Position { ticker: "KXBTC15M-26FEB122100-45".to_string(), side: Side::No, count: 3 },
    ];
    let (_, a) = c.step(CycleEvent::Positions { positions }, &now(), &cfg);
    assert!(matches!(a, CycleAction::Finish { outcome: CycleOutcome::AlreadyExposed }));
}

#[test]
fn other_exposure_does_not_stop_the_order() {
    let cfg = config(true);
    let c = to_decision(HEADER, &cfg);
    let (c, _) = c.step(
        CycleEvent::Decision { decision: buy(Some(Side::Yes), Some(1), Some(45)) },
        &now(),
        &cfg,
    );
    let positions = vec![Position { ticker: "OTHER".to_string(), side: Side::Yes, count: 1 }];
    let (_, a) = c.step(CycleEvent::Positions { positions }, &now(), &cfg);
    assert!(matches!(a, CycleAction::AppendLedger { .. }));
}

#[test]
fn holding_a_position_of_the_series_skips_the_cycle() {
    let mut pm = PositionManager::new(&config(true));
    pm.on_fill(
        &FillEvent {
            order_id: "o".to_string(),
            ticker: "KXBTC15M-26FEB122045-45".to_string(),
            side: Side::Yes,
            shares: 1,
            price_cents: 30,
        },
        "t",
    );
    let (c, a) = entry_cycle("KXBTC15M", &pm);
    assert!(matches!(a, CycleAction::Finish { outcome: CycleOutcome::HoldingPosition }));
    assert_eq!(c.phase, Phase::Done);
    let (_, a) = entry_cycle("KXETH15M", &pm);
    assert!(matches!(a, CycleAction::ListRestingOrders));
}

#[test]
fn resting_orders_are_cancelled_and_marked_one_by_one() {
    let cfg = config(true);
    let ledger = format!(
        "{}| t0 | A | yes | 1 | 30 | pending | 0 | 5 | o1 |\n| t1 | B | no | 1 | 30 | pending | 0 | 5 | o2 |\n",
        HEADER
    );
    let orders = vec![
        RestingOrder { order_id: "o2".to_string(), ticker: "B".to_string() },
        RestingOrder { order_id: "o1".to_string(), ticker: "A".to_string() },
    ];
    let (c, _) = start();
    let (c, a) = c.step(CycleEvent::RestingOrders { orders }, &now(), &cfg);
    match a {
        CycleAction::CancelOrder { order_id } => assert_eq!(order_id, "o2"),
        other => panic!("{:?}", other),
    }
    let (c, a) = c.step(CycleEvent::Cancelled, &now(), &cfg);
    assert!(matches!(a, CycleAction::LoadLedger));
    let (c, a) = c.step(CycleEvent::Ledger { text: ledger }, &now(), &cfg);
    let stored = match a {
        CycleAction::StoreLedger { content } => content,
        other => panic!("{:?}", other),
    };
    let rows = parse_ledger_content(&stored);
    assert_eq!(rows[0].result, "pending");
    assert_eq!(rows[1].result, "cancelled");
    assert_eq!(rows[1].cumulative_cents, 0);
    let (c, a) = c.step(CycleEvent::Stored, &now(), &cfg);
    match a {
        CycleAction::CancelOrder { order_id } => assert_eq!(order_id, "o1"),
        other => panic!("{:?}", other),
    }
    let (c, _) = c.step(CycleEvent::Cancelled, &now(), &cfg);
    let (c, a) = c.step(CycleEvent::Ledger { text: stored }, &now(), &cfg);
    let stored = match a {
        CycleAction::StoreLedger { content } => content,
        other => panic!("{:?}", other),
    };
    let rows = parse_ledger_content(&stored);
    assert_eq!(rows[0].result, "cancelled");
    assert_eq!(rows[1].result, "cancelled");
    let (c, a) = c.step(CycleEvent::Stored, &now(), &cfg);
    assert!(matches!(a, CycleAction::LoadLedger));
    assert_eq!(c.phase, Phase::AwaitLedger);
    let (_, a) = c.step(CycleEvent::Ledger { text: stored }, &now(), &cfg);
    assert!(matches!(a, CycleAction::FetchBalance));
}

#[test]
fn failed_cancel_aborts_the_cycle() {
    let cfg = config(true);
    let orders = vec![RestingOrder { order_id: "o2".to_string(), ticker: "B".to_string() }];
    let (c, _) = start();
    let (c, _) = c.step(CycleEvent::RestingOrders { orders }, &now(), &cfg);
    let (c, a) = c.step(CycleEvent::ExchangeFailed, &now(), &cfg);
    assert!(matches!(
        a,
        CycleAction::Finish { outcome: CycleOutcome::Aborted { error: CycleError::Exchange } }
    ));
    let (_, a) = c.step(CycleEvent::Stored, &now(), &cfg);
    assert!(matches!(
        a,
        CycleAction::Finish { outcome: CycleOutcome::Aborted { error: CycleError::Unexpected } }
    ));
}

fn to_settlements(ledger: &str, cfg: &Config) -> EntryCycle {
    let (c, _) = start();
    let (c, _) = c.step(CycleEvent::RestingOrders { orders: vec![] }, &now(), cfg);
    let (c, a) = c.step(CycleEvent::Ledger { text: ledger.to_string() }, &now(), cfg);
    match a {
        CycleAction::QuerySettlements { ticker } => assert_eq!(ticker, "KXBTC15M-OLD"),
        other => panic!("{:?}", other),
    }
    c
}

#[test]
fn stale_pending_row_is_given_up_and_the_cycle_goes_on() {
    let cfg = config(true);
    let ledger = format!(
        "{}| 2026-02-12T20:13:59+00:00 | KXBTC15M-OLD | yes | 2 | 40 | pending | 0 | 15 | o1 |\n",
        HEADER
    );
    let c = to_settlements(&ledger, &cfg);
    let (c, a) = c.step(CycleEvent::Settlements { settlements: vec![] }, &now(), &cfg);
    let stored = match a {
        CycleAction::StoreLedger { content } => content,
        other => panic!("{:?}", other),
    };
    let rows = parse_ledger_content(&stored);
    assert_eq!(rows.len(), 1);
    assert_eq!(rows[0].result, "unknown");
    assert_eq!(rows[0].pnl_cents, 0);
    assert_eq!(rows[0].cumulative_cents, 0);
    assert_eq!(rows[0].order_id, "o1");
    let (c, a) = c.step(CycleEvent::Stored, &now(), &cfg);
    assert!(matches!(a, CycleAction::LoadLedger));
    let (c, a) = c.step(CycleEvent::Ledger { text: stored }, &now(), &cfg);
    assert!(matches!(a, CycleAction::FetchBalance));
    assert_eq!(c.phase, Phase::AwaitBalance);
}

#[test]
fn young_pending_row_is_left_pending() {
    let cfg = config(true);
    for stamp in ["2026-02-12T20:15:00+00:00", "2026-02-12T20:44:00Z", "not a time"] {
        let ledger =
            format!("{}| {} | KXBTC15M-OLD | yes | 2 | 40 | pending | 0 | 15 | o1 |\n", HEADER, stamp);
        let c = to_settlements(&ledger, &cfg);
        let (c, a) = c.step(CycleEvent::Settlements { settlements: vec![] }, &now(), &cfg);
        assert!(matches!(a, CycleAction::FetchBalance), "{}", stamp);
        assert_eq!(c.phase, Phase::AwaitBalance);
    }
}

#[test]
fn row_just_over_thirty_minutes_old_is_stale() {
    let cfg = config(true);
    let ledger = format!(
        "{}| 2026-02-12T20:14:59.999+00:00 | KXBTC15M-OLD | yes | 2 | 40 | pending | 0 | 15 | o1 |\n",
        HEADER
    );
    let c = to_settlements(&ledger, &cfg);
    let (_, a) = c.step(CycleEvent::Settlements { settlements: vec![] }, &now(), &cfg);
    assert!(matches!(a, CycleAction::StoreLedger { .. }));
}

#[test]
fn settlement_finalises_the_row_and_stores_the_figures() {
    let cfg = config(true);
    let ledger = format!(
        "{}| 2026-02-12T20:30:00+00:00 | KXBTC15M-OLD | yes | 2 | 40 | pending | 0 | 15 | o1 |\n",
        HEADER
    );
    let c = to_settlements(&ledger, &cfg);
    let settlement = Settlement {
        ticker: "KXBTC15M-OLD".to_string(),
        side: Side::Yes,
        count: 0,
        price_cents: 0,
        result: "win".to_string(),
        pnl_cents: 200,
        settled_time: String::new(),
        market_result: "yes".to_string(),
    };
    let (c, a) = c.step(CycleEvent::Settlements { settlements: vec![settlement] }, &now(), &cfg);
    let stored = match a {
        CycleAction::StoreLedger { content } => content,
        other => panic!("{:?}", other),
    };
    let rows = parse_ledger_content(&stored);
    assert_eq!(rows[0].result, "win");
    assert_eq!(rows[0].pnl_cents, 120);
    assert_eq!(rows[0].cumulative_cents, 120);
    let (c, a) = c.step(CycleEvent::Stored, &now(), &cfg);
    assert!(matches!(a, CycleAction::LoadLedger));
    let (c, a) = c.step(CycleEvent::Ledger { text: stored }, &now(), &cfg);
    match a {
        CycleAction::StoreStats { stats } => {
            assert_eq!(stats.total_trades, 1);
            assert_eq!(stats.wins, 1);
            assert_eq!(stats.total_pnl_cents, 120);
            assert_eq!(stats.today_pnl_cents, 120);
            assert_eq!(stats.current_streak, 1);
        }
        other => panic!("{:?}", other),
    }
    let (_, a) = c.step(CycleEvent::Stored, &now(), &cfg);
    assert!(matches!(a, CycleAction::FetchBalance));
}

#[test]
fn risk_veto_stops_the_cycle_without_an_order() {
    let cfg = config(true);
    let (c, _) = start();
    let (c, _) = c.step(CycleEvent::RestingOrders { orders: vec![] }, &now(), &cfg);
    let (c, _) = c.step(CycleEvent::Ledger { text: HEADER.to_string() }, &now(), &cfg);
    let (c, a) = c.step(CycleEvent::Balance { cents: 499 }, &now(), &cfg);
    match a {
        CycleAction::Finish { outcome: CycleOutcome::RiskVeto { veto } } => assert_eq!(
            veto,
            RiskVeto::BalanceBelowMinimum { balance_cents: 499, minimum_cents: 500 }
        ),
        other => panic!("{:?}", other),
    }
    assert_eq!(c.phase, Phase::Done);
}

#[test]
fn market_too_close_to_expiry_is_skipped() {
    let cfg = config(true);
    let (c, _) = start();
    let (c, _) = c.step(CycleEvent::RestingOrders { orders: vec![] }, &now(), &cfg);
    let (c, _) = c.step(CycleEvent::Ledger { text: HEADER.to_string() }, &now(), &cfg);
    let (c, _) = c.step(CycleEvent::Balance { cents: 500 }, &now(), &cfg);
    let (_, a) = c.clone().step(CycleEvent::ActiveMarket { market: Some(market(119)) }, &now(), &cfg);
    assert!(matches!(
        a,
        CycleAction::Finish { outcome: CycleOutcome::TooCloseToExpiry { seconds_to_expiry: 119 } }
    ));
    let (_, a) = c.clone().step(CycleEvent::ActiveMarket { market: Some(market(120)) }, &now(), &cfg);
    assert!(matches!(a, CycleAction::FetchOrderbook { .. }));
    let (_, a) = c.step(CycleEvent::ActiveMarket { market: None }, &now(), &cfg);
    assert!(matches!(a, CycleAction::Finish { outcome: CycleOutcome::NoActiveMarket }));
}

#[test]
fn decision_request_shows_the_last_twenty_rows_newest_first() {
    let cfg = config(true);
    let mut ledger = HEADER.to_string();
    for i in 0..25 {
        ledger.push_str(&format!("| t{} | M{} | yes | 1 | 30 | win | 1 | {} | o{} |\n", i, i, i + 1, i));
    }
    let (c, _) = start();
    let (c, _) = c.step(CycleEvent::RestingOrders { orders: vec![] }, &now(), &cfg);
    let (c, _) = c.step(CycleEvent::Ledger { text: ledger }, &now(), &cfg);
    let (c, _) = c.step(CycleEvent::Balance { cents: 10_000 }, &now(), &cfg);
    let (c, _) = c.step(CycleEvent::ActiveMarket { market: Some(market(600)) }, &now(), &cfg);
    let book = Orderbook { yes: vec![(38, 5)], no: vec![] };
    let (c, _) = c.step(CycleEvent::Orderbook { orderbook: book }, &now(), &cfg);
    let (c, _) = c.step(CycleEvent::PriceSnapshot { available: true }, &now(), &cfg);
    let (_, a) = c.step(CycleEvent::Prompt { text: "Trade well.".to_string() }, &now(), &cfg);
    match a {
        CycleAction::Decide { request } => {
            assert_eq!(request.prompt_md, "Trade well.");
            assert!(request.has_price_snapshot);
            assert_eq!(request.crypto_label, "BTC (Binance BTCUSDT)");
            assert_eq!(request.last_trades.len(), 20);
            assert_eq!(request.last_trades[0].ticker, "M24");
            assert_eq!(request.last_trades[19].ticker, "M5");
            assert_eq!(request.stats.total_trades, 25);
            assert_eq!(request.stats.total_pnl_cents, 25);
            assert_eq!(request.market.ticker, "KXBTC15M-26FEB122100-45");
            assert_eq!(request.orderbook.yes, vec![(38, 5)]);
        }
        other => panic!("{:?}", other),
    }
}

#[test]
fn damaged_ledger_is_read_from_its_backup() {
    let cfg = config(true);
    let damaged = "| t | A | yes | one | 30 | win | 70 | 70 | o1 |\n";
    let backup = "| t | A | yes | 1 | 30 | loss | -30 | -30 | o1 |\n";
    let (c, _) = start();
    let (c, _) = c.step(CycleEvent::RestingOrders { orders: vec![] }, &now(), &cfg);
    let (c, a) = c.step(CycleEvent::Ledger { text: damaged.to_string() }, &now(), &cfg);
    assert!(matches!(a, CycleAction::LoadBackup));
    let (c, a) = c.step(CycleEvent::Backup { text: backup.to_string() }, &now(), &cfg);
    assert!(matches!(a, CycleAction::FetchBalance));
    assert_eq!(c.stats.total_pnl_cents, -30);
    assert_eq!(c.stats.losses, 1);
}

#[test]
fn brain_and_storage_failures_abort() {
    let cfg = config(true);
    let c = to_decision(HEADER, &cfg);
    let (_, a) = c.clone().step(CycleEvent::BrainFailed, &now(), &cfg);
    assert!(matches!(
        a,
        CycleAction::Finish { outcome: CycleOutcome::Aborted { error: CycleError::Brain } }
    ));
    let (_, a) = c.step(CycleEvent::StorageFailed, &now(), &cfg);
    assert!(matches!(
        a,
        CycleAction::Finish { outcome: CycleOutcome::Aborted { error: CycleError::Storage } }
    ));
}

#[test]
fn an_event_out_of_turn_aborts() {
    let cfg = config(true);
    let c = to_decision(HEADER, &cfg);
    let (_, a) = c.step(CycleEvent::Balance { cents: 1 }, &now(), &cfg);
    assert!(matches!(
        a,
        CycleAction::Finish { outcome: CycleOutcome::Aborted { error: CycleError::Unexpected } }
    ));
}

#[test]
fn amounts_out_of_range_abort_the_settlement() {
    let cfg = config(true);
    let ledger = format!(
        "{}| t | X | yes | 1 | 1 | win | 1 | 9223372036854775807 | o0 |\n| 2026-02-12T20:30:00+00:00 | KXBTC15M-OLD | yes | 2 | 40 | pending | 0 | 0 | o1 |\n",
        HEADER
    );
    let c = to_settlements(&ledger, &cfg);
    let settlement = Settlement {
        ticker: "KXBTC15M-OLD".to_string(),
        side: Side::Yes,
        count: 0,
        price_cents: 0,
        result: "win".to_string(),
        pnl_cents: 200,
        settled_time: String::new(),
        market_result: "yes".to_string(),
    };
    let (c, a) = c.step(CycleEvent::Settlements { settlements: vec![settlement] }, &now(), &cfg);
    assert!(matches!(
        a,
        CycleAction::Finish { outcome: CycleOutcome::Aborted { error: CycleError::Ledger } }
    ));
    assert_eq!(c.phase, Phase::Done);
}

#[test]
fn a_missing_price_snapshot_does_not_stop_the_cycle() {
    let cfg = config(true);
    let (c, _) = start();
    let (c, _) = c.step(CycleEvent::RestingOrders { orders: vec![] }, &now(), &cfg);
    let (c, _) = c.step(CycleEvent::Ledger { text: HEADER.to_string() }, &now(), &cfg);
    let (c, _) = c.step(CycleEvent::Balance { cents: 10_000 }, &now(), &cfg);
    let (c, _) = c.step(CycleEvent::ActiveMarket { market: Some(market(600)) }, &now(), &cfg);
    let book = Orderbook { yes: vec![], no: vec![] };
    let (c, _) = c.step(CycleEvent::Orderbook { orderbook: book }, &now(), &cfg);
    assert_eq!(c.phase, Phase::AwaitSnapshot);
    let (c, a) = c.step(CycleEvent::PriceSnapshot { available: false }, &now(), &cfg);
    assert!(matches!(a, CycleAction::LoadPrompt));
    let (missing, a) = c.clone().step(CycleEvent::StorageFailed, &now(), &cfg);
    assert!(matches!(
        a,
        CycleAction::Finish { outcome: CycleOutcome::Aborted { error: CycleError::Storage } }
    ));
    assert_eq!(missing.phase, Phase::Done);
    let (_, a) = c.step(CycleEvent::Prompt { text: String::new() }, &now(), &cfg);
    match a {
        CycleAction::Decide { request } => assert!(!request.has_price_snapshot),
        other => panic!("{:?}", other),
    }
}

#[test]
fn the_added_row_is_the_one_row_more_whatever_the_ledger_ends_with() {
    let cfg = config(true);
    let ledger = format!("{}| t0 | A | yes | 1 | 30 | win | 70 | 70 | o0 |", HEADER);
    let c = to_decision(&ledger, &cfg);
    let (c, _) = c.step(
        CycleEvent::Decision { decision: buy(Some(Side::Yes), Some(1), Some(45)) },
        &now(),
        &cfg,
    );
    let (_, a) = c.step(CycleEvent::Positions { positions: vec![] }, &now(), &cfg);
    let row = match a {
        CycleAction::AppendLedger { row } => row,
        other => panic!("{:?}", other),
    };
    let before = parse_ledger_content(&ledger);
    let after = parse_ledger_content(&append_ledger(&ledger, &row));
    assert_eq!(after.len(), before.len() + 1);
    assert_eq!(format_row(&after[0]), format_row(&before[0]));
    assert_eq!(format_row(&after[1]), format_row(&row));
    assert_eq!((after[1].pnl_cents, after[1].cumulative_cents), (0, 70));
}

#[test]
fn a_paper_row_that_cannot_be_read_back_is_not_added() {
    let cfg = config(true);
    let c = to_decision(HEADER, &cfg);
    let (c, _) = c.step(
        CycleEvent::Decision { decision: buy(Some(Side::Yes), Some(1), Some(45)) },
        &now(),
        &cfg,
    );
    let torn = Clock { millis: 1_770_929_100_000, text: "2026-02-12 | 20:45".to_string() };
    let (c, a) = c.step(CycleEvent::Positions { positions: vec![] }, &torn, &cfg);
    assert!(matches!(
        a,
        CycleAction::Finish { outcome: CycleOutcome::Aborted { error: CycleError::Ledger } }
    ));
    assert_eq!(c.phase, Phase::Done);
}

#[test]
fn a_live_order_whose_id_cannot_be_written_is_untracked() {
    let cfg = config(false);
    let c = to_decision(HEADER, &cfg);
    let (c, _) = c.step(
        CycleEvent::Decision { decision: buy(Some(Side::Yes), Some(1), Some(45)) },
        &now(),
        &cfg,
    );
    let (c, a) = c.step(CycleEvent::Positions { positions: vec![] }, &now(), &cfg);
    assert!(matches!(a, CycleAction::PlaceOrder { .. }));
    let result = OrderResult { order_id: "ex|77".to_string(), status: "resting".to_string() };
    let (c, a) = c.step(CycleEvent::Placed { result }, &now(), &cfg);
    match a {
        CycleAction::Finish { outcome: CycleOutcome::Untracked { order_id } } => {
            assert_eq!(order_id, "ex|77")
        }
        other => panic!("{:?}", other),
    }
    assert_eq!(c.phase, Phase::Done);
}

#[test]
fn a_live_order_for_a_ticker_that_cannot_be_written_is_not_placed() {
    let cfg = config(false);
    let c = to_decision(HEADER, &cfg);
    let (mut c, _) = c.step(
        CycleEvent::Decision { decision: buy(Some(Side::Yes), Some(1), Some(45)) },
        &now(),
        &cfg,
    );
    c.ticker = "KX|BTC".to_string();
    let (c, a) = c.step(CycleEvent::Positions { positions: vec![] }, &now(), &cfg);
    assert!(matches!(
        a,
        CycleAction::Finish { outcome: CycleOutcome::Aborted { error: CycleError::Ledger } }
    ));
    assert_eq!(c.phase, Phase::Done);
}

#[test]
fn a_live_order_whose_later_timestamp_cannot_be_written_is_untracked() {
    let cfg = config(false);
    let c = to_decision(HEADER, &cfg);
    let (c, _) = c.step(
        CycleEvent::Decision { decision: buy(Some(Side::Yes), Some(1), Some(45)) },
        &now(),
        &cfg,
    );
    let torn = Clock { millis: 1_770_929_100_000, text: "2026-02-12 | 20:45".to_string() };
    let (c, a) = c.step(CycleEvent::Positions { positions: vec![] }, &torn, &cfg);
    assert!(matches!(a, CycleAction::PlaceOrder { .. }));
    let result = OrderResult { order_id: "ex-77".to_string(), status: "resting".to_string() };
    let (_, a) = c.step(CycleEvent::Placed { result }, &torn, &cfg);
    match a {
        CycleAction::Finish { outcome: CycleOutcome::Untracked { order_id } } => {
            assert_eq!(order_id, "ex-77")
        }
        other => panic!("{:?}", other),
    }
}
