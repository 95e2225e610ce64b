use kalshi_bot::ledger::{
    abandon_last_trade, append_ledger, cancel_trade, parse_ledger_content, record_early_exit,
    settle_last_trade,
};
use kalshi_bot::stats::compute;
use kalshi_bot::text::{chars_of, join_chars, split_chars, string_of};
use kalshi_bot::types::{ExitEvent, ExitReason, LedgerRow, Settlement, Side};

fn pending(ticker: &str, shares: u32, price: u32, cumulative: i64, order_id: &str) -> LedgerRow {
    LedgerRow {
        timestamp: "2026-02-12T20:45:00+00:00".to_string(),
        ticker: ticker.to_string(),
        side: "yes".to_string(),
        shares,
        price,
        result: "pending".to_string(),
        pnl_cents: 0,
        cumulative_cents: cumulative,
        order_id: order_id.to_string(),
    }
}

fn settlement(result: &str, revenue: i64) -> Settlement {
    Settlement {
        ticker: String::new(),
        side: Side::Yes,
        count: 0,
        price_cents: 0,
        result: result.to_string(),
        pnl_cents: revenue,
        settled_time: String::new(),
        market_result: String::new(),
    }
}

/// Each terminal row carries the cumulative profit of the terminal row
/// before it plus its own profit.
fn assert_chained(rows: &[LedgerRow]) {
    let mut carried = 0;
    for row in rows {
        if row.result != "pending" {
            assert_eq!(row.cumulative_cents, carried + row.pnl_cents, "{:?}", row);
            carried = row.cumulative_cents;
        }
    }
}

fn place(ledger: &str, ticker: &str, shares: u32, price: u32, order_id: &str) -> String {
    let rows = parse_ledger_content(ledger);
    let total = compute(&rows, "2026-02-12").total_pnl_cents;
    append_ledger(ledger, &pending(ticker, shares, price, total, order_id))
}

#[test]
fn cumulative_profits_stay_chained() {
    let mut ledger = "# Ledger\n|---|---|\n".to_string();
    ledger = place(&ledger, "A", 2, 40, "o1");
    ledger = settle_last_trade(&ledger, &settlement("win", 200)).unwrap();
    assert_chained(&parse_ledger_content(&ledger));
    ledger = place(&ledger, "B", 1, 30, "o2");
    ledger = cancel_trade(&ledger, "o2");
    assert_chained(&parse_ledger_content(&ledger));
    ledger = place(&ledger, "C", 3, 25, "o3");
    ledger = settle_last_trade(&ledger, &settlement("loss", 0)).unwrap();
    assert_chained(&parse_ledger_content(&ledger));
    ledger = place(&ledger, "D", 1, 50, "o4");
    ledger = abandon_last_trade(&ledger);
    assert_chained(&parse_ledger_content(&ledger));
    ledger = place(&ledger, "E", 2, 45, "o5");
    let exit = ExitEvent {
        ticker: "E".to_string(),
        reason: ExitReason::StopLoss,
        entry_price_cents: 45,
        exit_price_cents: 20,
        shares: 2,
        pnl_cents: -50,
        order_id: "o5".to_string(),
    };
    ledger = record_early_exit(&ledger, &exit).unwrap();
    let rows = parse_ledger_content(&ledger);
    assert_chained(&rows);
    let got: Vec<(String, i64, i64)> =
        rows.iter().map(|r| (r.result.clone(), r.pnl_cents, r.cumulative_cents)).collect();
    assert_eq!(
        got,
        vec![
            ("win".to_string(), 120, 120),
            ("cancelled".to_string(), 0, 120),
            ("loss".to_string(), -75, 45),
            ("unknown".to_string(), 0, 45),
            ("exit_stop_loss".to_string(), -50, -5),
        ]
    );
    assert_eq!(compute(&rows, "2026-02-12").total_pnl_cents, -5);
}

#[test]
fn settling_an_earlier_row_keeps_the_chain() {
    let mut ledger = String::new();
    ledger = place(&ledger, "A", 1, 40, "o1");
    ledger = place(&ledger, "B", 1, 40, "o2");
    ledger = settle_last_trade(&ledger, &settlement("win", 100)).unwrap();
    ledger = settle_last_trade(&ledger, &settlement("win", 100)).unwrap();
    let rows = parse_ledger_content(&ledger);
    assert_eq!((rows[0].pnl_cents, rows[0].cumulative_cents), (60, 60));
    assert_eq!((rows[1].pnl_cents, rows[1].cumulative_cents), (60, 120));
    assert_chained(&rows);
}

#[test]
fn a_row_closed_meanwhile_does_not_break_the_chain() {
    let mut ledger = String::new();
    ledger = place(&ledger, "A", 1, 40, "o1");
    ledger = place(&ledger, "B", 1, 40, "o2");
    let exit = ExitEvent {
        ticker: "A".to_string(),
        reason: ExitReason::TakeProfit,
        entry_price_cents: 40,
        exit_price_cents: 47,
        shares: 1,
        pnl_cents: 7,
        order_id: "o1".to_string(),
    };
    ledger = record_early_exit(&ledger, &exit).unwrap();
    assert_chained(&parse_ledger_content(&ledger));
    ledger = settle_last_trade(&ledger, &settlement("win", 100)).unwrap();
    let rows = parse_ledger_content(&ledger);
    assert_eq!((rows[0].pnl_cents, rows[0].cumulative_cents), (7, 7));
    assert_eq!((rows[1].pnl_cents, rows[1].cumulative_cents), (60, 67));
    assert_chained(&rows);
    ledger = place(&ledger, "C", 2, 10, "o3");
    ledger = place(&ledger, "D", 1, 10, "o4");
    ledger = cancel_trade(&ledger, "o3");
    ledger = abandon_last_trade(&ledger);
    let rows = parse_ledger_content(&ledger);
    assert_eq!((rows[2].result.as_str(), rows[2].cumulative_cents), ("cancelled", 67));
    assert_eq!((rows[3].result.as_str(), rows[3].cumulative_cents), ("unknown", 67));
    assert_chained(&rows);
}

#[test]
fn a_row_added_is_the_one_row_gained() {
    let before = "# Ledger\n| t | A | yes | 1 | 30 | win | 70 | 70 | o1 |\n";
    let row = pending("KXBTC15M-X", 2, 40, 70, "paper-1");
    let after = append_ledger(before, &row);
    let was = parse_ledger_content(before);
    let now = parse_ledger_content(&after);
    assert_eq!(now.len(), was.len() + 1);
    assert_eq!(now[0].ticker, was[0].ticker);
    let added = &now[1];
    assert_eq!(added.timestamp, row.timestamp);
    assert_eq!(added.ticker, row.ticker);
    assert_eq!(added.side, row.side);
    assert_eq!((added.shares, added.price), (2, 40));
    assert_eq!(added.result, "pending");
    assert_eq!((added.pnl_cents, added.cumulative_cents), (0, 70));
    assert_eq!(added.order_id, "paper-1");
}

#[test]
fn splitting_undoes_joining() {
    let parts: Vec<Vec<char>> = ["", "a b", "", "c"].iter().map(|p| chars_of(p)).collect();
    let joined = join_chars(&parts, &chars_of("|"));
    assert_eq!(string_of(&joined), "|a b||c");
    assert_eq!(split_chars(&joined, '|'), parts);
}

#[test]
fn a_long_ledger_is_read_and_rewritten() {
    let mut ledger = String::from("# Ledger\n");
    for i in 0..5000 {
        ledger.push_str(&format!(
            "| 2026-02-12T20:45:00+00:00 | M{} | yes | 1 | 40 | win | 60 | {} | o{} |\n",
            i,
            60 * (i + 1),
            i
        ));
    }
    ledger = place(&ledger, "LAST", 2, 30, "o-last");
    let rows = parse_ledger_content(&ledger);
    assert_eq!(rows.len(), 5001);
    assert_eq!(rows[5000].cumulative_cents, 300_000);
    let settled = settle_last_trade(&ledger, &settlement("loss", 0)).unwrap();
    let rows = parse_ledger_content(&settled);
    assert_eq!(rows.len(), 5001);
    assert_eq!((rows[5000].pnl_cents, rows[5000].cumulative_cents), (-60, 299_940));
    assert_chained(&rows);
    let stats = compute(&rows, "2026-02-12");
    assert_eq!((stats.total_trades, stats.wins, stats.losses), (5001, 5000, 1));
    assert_eq!(stats.max_drawdown_cents, 60);
    assert_eq!(stats.current_streak, -1);
}
