use kalshi_bot::position_manager::{best_exit_price, PositionManager};
use kalshi_bot::types::{Config, ExitReason, FillEvent, OpenPosition, OrderbookUpdate, Side};

fn config(tp: u32, sl: u32) -> Config {
    Config {
        max_shares: 2,
        max_daily_loss_cents: 1000,
        max_consecutive_losses: 7,
        min_balance_cents: 500,
        min_seconds_to_expiry: 120,
        tp_cents_per_share: tp,
        sl_cents_per_share: sl,
        entry_cycle_interval_secs: 60,
        position_check_interval_secs: 5,
        paper_trade: true,
        confirm_live: false,
        series_tickers: vec!["KXBTC15M".to_string()],
        kalshi_base_url: String::new(),
        kalshi_ws_url: String::new(),
        binance_ws_url: String::new(),
        openrouter_api_key: String::new(),
        kalshi_key_id: String::new(),
        kalshi_private_key_pem: String::new(),
        lockfile_path: String::new(),
    }
}

fn fill(ticker: &str, side: Side, shares: u32, price: u32) -> FillEvent {
    FillEvent {
        order_id: format!("order-{}", ticker),
        ticker: ticker.to_string(),
        side,
        shares,
        price_cents: price,
    }
}

fn book(ticker: &str, yes: Vec<(u32, u32)>, no: Vec<(u32, u32)>) -> OrderbookUpdate {
    OrderbookUpdate { ticker: ticker.to_string(), yes, no }
}

#[test]
fn pnl_is_absent_without_position_or_book() {
    let mut pm = PositionManager::new(&config(20, 20));
    assert_eq!(pm.unrealized_pnl_per_share("T1"), None);
    pm.on_orderbook_update(book("T1", vec![(42, 5)], vec![]));
    assert_eq!(pm.unrealized_pnl_per_share("T1"), None);
    let mut pm = PositionManager::new(&config(20, 20));
    pm.on_fill(&fill("T1", Side::Yes, 2, 30), "2026-02-12T20:45:00+00:00");
    assert_eq!(pm.unrealized_pnl_per_share("T1"), None);
}

#[test]
fn pnl_uses_best_bid_of_own_side() {
    let mut pm = PositionManager::new(&config(20, 20));
    pm.on_fill(&fill("T1", Side::Yes, 2, 30), "2026-02-12T20:45:00+00:00");
    pm.on_orderbook_update(book("T1", vec![(40, 1), (42, 5), (41, 3)], vec![(90, 1)]));
    assert_eq!(pm.unrealized_pnl_per_share("T1"), Some(12));
    assert_eq!(pm.unrealized_pnl_per_share("T2"), None);
}

#[test]
fn pnl_of_no_side_uses_no_depth() {
    let mut pm = PositionManager::new(&config(20, 20));
    pm.on_fill(&fill("T1", Side::No, 1, 60), "t");
    pm.on_orderbook_update(book("T1", vec![(99, 1)], vec![(10, 4), (55, 1)]));
    assert_eq!(pm.unrealized_pnl_per_share("T1"), Some(-5));
}

#[test]
fn pnl_is_absent_when_own_side_is_empty() {
    let mut pm = PositionManager::new(&config(20, 20));
    pm.on_fill(&fill("T1", Side::Yes, 1, 60), "t");
    pm.on_orderbook_update(book("T1", vec![], vec![(10, 4)]));
    assert_eq!(pm.unrealized_pnl_per_share("T1"), None);
    assert!(pm.build_exit_order("T1").is_none());
    assert!(pm.build_exit_event("T1", ExitReason::StopLoss).is_none());
}

#[test]
fn take_profit_at_threshold() {
    let mut pm = PositionManager::new(&config(20, 20));
    pm.on_fill(&fill("T1", Side::Yes, 2, 30), "t");
    pm.on_orderbook_update(book("T1", vec![(55, 1)], vec![]));
    assert_eq!(pm.check_exits(), vec![("T1".to_string(), ExitReason::TakeProfit)]);
    pm.on_orderbook_update(book("T1", vec![(50, 1)], vec![]));
    assert_eq!(pm.check_exits(), vec![("T1".to_string(), ExitReason::TakeProfit)]);
    pm.on_orderbook_update(book("T1", vec![(49, 1)], vec![]));
    assert_eq!(pm.check_exits(), vec![]);
}

#[test]
fn stop_loss_at_threshold() {
    let mut pm = PositionManager::new(&config(20, 20));
    pm.on_fill(&fill("T1", Side::Yes, 2, 30), "t");
    pm.on_orderbook_update(book("T1", vec![(5, 1)], vec![]));
    assert_eq!(pm.check_exits(), vec![("T1".to_string(), ExitReason::StopLoss)]);
    pm.on_orderbook_update(book("T1", vec![(10, 1)], vec![]));
    assert_eq!(pm.check_exits(), vec![("T1".to_string(), ExitReason::StopLoss)]);
    pm.on_orderbook_update(book("T1", vec![(11, 1)], vec![]));
    assert_eq!(pm.check_exits(), vec![]);
}

#[test]
fn no_signal_between_thresholds() {
    let mut pm = PositionManager::new(&config(20, 20));
    pm.on_fill(&fill("T1", Side::Yes, 2, 30), "t");
    pm.on_orderbook_update(book("T1", vec![(35, 1)], vec![]));
    assert_eq!(pm.check_exits(), vec![]);
}

#[test]
fn exits_are_independent_per_ticker() {
    let mut pm = PositionManager::new(&config(20, 20));
    pm.on_fill(&fill("A", Side::Yes, 1, 30), "t");
    pm.on_fill(&fill("B", Side::No, 1, 40), "t");
    pm.on_fill(&fill("C", Side::Yes, 1, 40), "t");
    pm.on_orderbook_update(book("A", vec![(60, 1)], vec![]));
    pm.on_orderbook_update(book("B", vec![(99, 1)], vec![(15, 1)]));
    pm.on_orderbook_update(book("C", vec![(45, 1)], vec![]));
    assert_eq!(
        pm.check_exits(),
        vec![("A".to_string(), ExitReason::TakeProfit), ("B".to_string(), ExitReason::StopLoss)]
    );
}

#[test]
fn repeated_fill_replaces_the_position() {
    let mut pm = PositionManager::new(&config(20, 20));
    pm.on_fill(&fill("A", Side::Yes, 1, 30), "t0");
    pm.on_fill(&fill("B", Side::Yes, 1, 30), "t1");
    pm.on_fill(&fill("A", Side::No, 3, 45), "t2");
    assert_eq!(pm.position_count(), 2);
    assert_eq!(pm.position_tickers(), vec!["A".to_string(), "B".to_string()]);
    let p = pm.position_for_ticker("A").unwrap();
    assert_eq!(p.side, Side::No);
    assert_eq!(p.shares, 3);
    assert_eq!(p.entry_price_cents, 45);
    assert_eq!(p.entered_at, "t2");
    assert_eq!(p.order_id, "order-A");
}

#[test]
fn series_prefix_lookup() {
    let mut pm = PositionManager::new(&config(20, 20));
    assert!(!pm.has_position_for_series("KXBTC15M"));
    pm.on_fill(&fill("KXBTC15M-26FEB122045-45", Side::Yes, 1, 30), "t");
    assert!(pm.has_position_for_series("KXBTC15M"));
    assert!(pm.has_position_for_series(""));
    assert!(!pm.has_position_for_series("KXETH15M"));
    assert!(!pm.has_position_for_series("KXBTC15M-26FEB122045-45-X"));
}

#[test]
fn exit_order_and_event_share_the_price_rule() {
    let mut pm = PositionManager::new(&config(20, 20));
    pm.on_fill(&fill("T1", Side::Yes, 3, 30), "t");
    pm.on_orderbook_update(book("T1", vec![(41, 1), (42, 9)], vec![(70, 1)]));
    let order = pm.build_exit_order("T1").unwrap();
    assert_eq!(order.ticker, "T1");
    assert_eq!(order.side, Side::Yes);
    assert_eq!(order.shares, 3);
    assert_eq!(order.price_cents, 42);
    let event = pm.build_exit_event("T1", ExitReason::TakeProfit).unwrap();
    assert_eq!(event.ticker, "T1");
    assert_eq!(event.reason, ExitReason::TakeProfit);
    assert_eq!(event.entry_price_cents, 30);
    assert_eq!(event.exit_price_cents, 42);
    assert_eq!(event.shares, 3);
    assert_eq!(event.pnl_cents, 36);
    assert_eq!(event.order_id, "order-T1");
}

#[test]
fn exit_event_total_can_be_negative() {
    let mut pm = PositionManager::new(&config(20, 20));
    pm.on_fill(&fill("T1", Side::No, 4, 50), "t");
    pm.on_orderbook_update(book("T1", vec![], vec![(20, 1)]));
    let event = pm.build_exit_event("T1", ExitReason::StopLoss).unwrap();
    assert_eq!(event.pnl_cents, -120);
}

#[test]
fn exit_event_is_absent_when_total_exceeds_64_bits() {
    let mut pm = PositionManager::new(&config(20, 20));
    pm.on_fill(&fill("T1", Side::Yes, u32::MAX, 0), "t");
    pm.on_orderbook_update(book("T1", vec![(u32::MAX, 1)], vec![]));
    assert_eq!(pm.unrealized_pnl_per_share("T1"), Some(u32::MAX as i64));
    assert!(pm.build_exit_event("T1", ExitReason::TakeProfit).is_none());
    assert!(pm.build_exit_order("T1").is_some());
}

#[test]
fn clear_is_idempotent() {
    let mut pm = PositionManager::new(&config(20, 20));
    pm.on_fill(&fill("A", Side::Yes, 1, 30), "t");
    pm.on_fill(&fill("B", Side::Yes, 1, 30), "t");
    pm.on_orderbook_update(book("A", vec![(60, 1)], vec![]));
    pm.clear_position("A");
    assert_eq!(pm.position_count(), 1);
    assert!(pm.position_for_ticker("A").is_none());
    assert_eq!(pm.unrealized_pnl_per_share("A"), None);
    pm.clear_position("A");
    assert_eq!(pm.position_count(), 1);
    assert_eq!(pm.position_tickers(), vec!["B".to_string()]);
    pm.on_fill(&fill("A", Side::Yes, 1, 30), "t");
    assert_eq!(pm.unrealized_pnl_per_share("A"), None);
}

#[test]
fn all_positions_in_opening_order() {
    let mut pm = PositionManager::new(&config(20, 20));
    pm.on_fill(&fill("B", Side::Yes, 1, 30), "t");
    pm.on_fill(&fill("A", Side::No, 2, 31), "t");
    let all = pm.all_positions();
    assert_eq!(all.len(), 2);
    assert_eq!(all[0].ticker, "B");
    assert_eq!(all[1].ticker, "A");
    assert_eq!(all[1].shares, 2);
}

#[test]
fn best_exit_price_picks_the_highest_level() {
    let pos = OpenPosition {
        ticker: "T".to_string(),
        side: Side::No,
        shares: 1,
        entry_price_cents: 10,
        order_id: String::new(),
        entered_at: String::new(),
    };
    let ob = book("T", vec![(80, 1)], vec![(3, 1), (17, 2), (9, 9)]);
    assert_eq!(best_exit_price(&pos, &ob), Some(17));
    let empty = book("T", vec![(80, 1)], vec![]);
    assert_eq!(best_exit_price(&pos, &empty), None);
}
