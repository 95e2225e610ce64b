use kalshi_bot::ledger::{
    append_ledger, append_text, cancel_trade, format_row, is_writable_text, needs_backup,
    parse_ledger_content, read_ledger, record_early_exit, row_is_writable, settle_last_trade,
    LedgerError,
};
use kalshi_bot::types::{ExitEvent, ExitReason, LedgerRow, Settlement, Side};

const HEADER: &str = "# Ledger\n\n| Timestamp | Ticker | Side | Shares | Price | Result | PnL | Cumulative | Order |\n|---|---|---|---|---|---|---|---|---|\n";

fn row(ticker: &str, result: &str, pnl: i64, cumulative: i64, order_id: &str) -> LedgerRow {
    LedgerRow {
        timestamp: "2026-02-12T20:45:00+00:00".to_string(),
        ticker: ticker.to_string(),
        side: "yes".to_string(),
        shares: 2,
        price: 40,
        result: result.to_string(),
        pnl_cents: pnl,
        cumulative_cents: cumulative,
        order_id: order_id.to_string(),
    }
}

fn settlement(result: &str, revenue: i64) -> Settlement {
    Settlement {
        ticker: "KXBTC15M-A".to_string(),
        side: Side::Yes,
        count: 0,
        price_cents: 0,
        result: result.to_string(),
        pnl_cents: revenue,
        settled_time: String::new(),
        market_result: "yes".to_string(),
    }
}

#[test]
fn format_row_writes_nine_cells() {
    let line = format_row(&row("KXBTC15M-A", "pending", 0, -35, "paper-1"));
    assert_eq!(
        line,
        "| 2026-02-12T20:45:00+00:00 | KXBTC15M-A | yes | 2 | 40 | pending | 0 | -35 | paper-1 |"
    );
}

#[test]
fn format_row_with_extreme_amounts() {
    let mut r = row("T", "loss", i64::MIN, i64::MAX, "");
    r.shares = u32::MAX;
    r.price = 0;
    assert_eq!(
        format_row(&r),
        "| 2026-02-12T20:45:00+00:00 | T | yes | 4294967295 | 0 | loss | -9223372036854775808 | 9223372036854775807 |  |"
    );
}

#[test]
fn parse_reads_back_what_format_wrote() {
    let r = row("KXBTC15M-A", "win", 120, 85, "abc-123");
    let text = format!("{}{}\n", HEADER, format_row(&r));
    let rows = parse_ledger_content(&text);
    assert_eq!(rows.len(), 1);
    assert_eq!(rows[0].timestamp, r.timestamp);
    assert_eq!(rows[0].ticker, r.ticker);
    assert_eq!(rows[0].side, r.side);
    assert_eq!(rows[0].shares, 2);
    assert_eq!(rows[0].price, 40);
    assert_eq!(rows[0].result, "win");
    assert_eq!(rows[0].pnl_cents, 120);
    assert_eq!(rows[0].cumulative_cents, 85);
    assert_eq!(rows[0].order_id, "abc-123");
}

#[test]
fn parse_skips_headers_separators_and_damaged_lines() {
    let text = "\
# Ledger
| Timestamp | Ticker | Side | Shares | Price | Result | PnL | Cumulative | Order |
|---|---|---|---|---|---|---|---|---|
| t1 | A | yes | 1 | 30 | win | 70 | 70 | o1 |
| t2 | B | no | x | 30 | win | 70 | 70 | o2 |
| t3 | C | no | 1 | 30 | win | 70 |
not a row
| t4 | D | no | +3 | 25 | loss | -75 | -5 |
| t5 | E | no | 3 | -25 | loss | -75 | -5 | o5 |
| t6 | F | no | 3 | 25 | loss | - | -5 | o6 |
| t7 | G | yes | 4294967296 | 25 | loss | 0 | -5 | o7 |
";
    let rows = parse_ledger_content(text);
    assert_eq!(rows.len(), 2);
    assert_eq!(rows[0].ticker, "A");
    assert_eq!(rows[0].order_id, "o1");
    assert_eq!(rows[1].ticker, "D");
    assert_eq!(rows[1].shares, 3);
    assert_eq!(rows[1].pnl_cents, -75);
    assert_eq!(rows[1].order_id, "");
}

#[test]
fn parse_handles_carriage_returns_and_missing_final_newline() {
    let text = "| t1 | A | yes | 1 | 30 | win | 70 | 70 | o1 |\r\n| t2 | B | no | 2 | 31 | loss | -62 | 8 | o2 |";
    let rows = parse_ledger_content(text);
    assert_eq!(rows.len(), 2);
    assert_eq!(rows[0].order_id, "o1");
    assert_eq!(rows[1].ticker, "B");
    assert_eq!(rows[1].cumulative_cents, 8);
}

#[test]
fn parse_trims_unicode_white_space() {
    let text = "|\u{a0}t1\u{2003}| A\t| yes | 1 | 30 | win | 70 | 70 | o1 |\n";
    let rows = parse_ledger_content(text);
    assert_eq!(rows.len(), 1);
    assert_eq!(rows[0].timestamp, "t1");
    assert_eq!(rows[0].ticker, "A");
}

#[test]
fn parse_of_empty_text_is_empty() {
    assert!(parse_ledger_content("").is_empty());
    assert!(parse_ledger_content("\n\n").is_empty());
    assert!(parse_ledger_content(HEADER).is_empty());
}

#[test]
fn backup_is_read_when_primary_is_damaged() {
    let damaged = "| t1 | A | yes | one | 30 | win | 70 | 70 | o1 |\n";
    let backup = "| t1 | A | yes | 1 | 30 | win | 70 | 70 | o1 |\n";
    assert!(needs_backup(damaged));
    assert!(!needs_backup(backup));
    assert!(!needs_backup(HEADER));
    assert!(!needs_backup(""));
    let rows = read_ledger(damaged, backup);
    assert_eq!(rows.len(), 1);
    assert_eq!(rows[0].ticker, "A");
    let rows = read_ledger(HEADER, backup);
    assert!(rows.is_empty());
}

#[test]
fn append_adds_one_line() {
    let r = row("KXBTC15M-A", "pending", 0, 0, "paper-1700000000000");
    let text = append_ledger(HEADER, &r);
    assert_eq!(
        text,
        format!(
            "{}| 2026-02-12T20:45:00+00:00 | KXBTC15M-A | yes | 2 | 40 | pending | 0 | 0 | paper-1700000000000 |\n",
            HEADER
        )
    );
    let rows = parse_ledger_content(&text);
    assert_eq!(rows.len(), 1);
    assert_eq!(rows[0].result, "pending");
    assert_eq!(rows[0].side, "yes");
    assert_eq!(rows[0].shares, 2);
    assert_eq!(rows[0].price, 40);
    assert!(rows[0].order_id.starts_with("paper-"));
}

#[test]
fn settle_rewrites_the_last_pending_line() {
    let text = format!(
        "{}{}\n{}\n{}\n",
        HEADER,
        format_row(&row("A", "win", 120, 120, "o1")),
        format_row(&row("B", "pending", 0, 120, "o2")),
        format_row(&row("C", "pending", 0, 120, "o3")),
    );
    let out = settle_last_trade(&text, &settlement("win", 200)).unwrap();
    let rows = parse_ledger_content(&out);
    assert_eq!(rows.len(), 3);
    assert_eq!(rows[1].result, "pending");
    assert_eq!(rows[2].ticker, "C");
    assert_eq!(rows[2].result, "win");
    assert_eq!(rows[2].pnl_cents, 200 - 2 * 40);
    assert_eq!(rows[2].cumulative_cents, 120 + 120);
    assert_eq!(rows[2].order_id, "o3");
    assert!(out.starts_with(HEADER));
    assert!(out.ends_with("| C | yes | 2 | 40 | win | 120 | 240 | o3 |\n"));
}

#[test]
fn settle_loss_is_negative_cost() {
    let text = format!("{}\n", format_row(&row("A", "pending", 0, 50, "o1")));
    let out = settle_last_trade(&text, &settlement("loss", 0)).unwrap();
    assert_eq!(out, "| 2026-02-12T20:45:00+00:00 | A | yes | 2 | 40 | loss | -80 | -80 | o1 |\n");
}

#[test]
fn settled_row_carries_the_last_terminal_cumulative() {
    let text = "\
| t | A | yes | 1 | 40 | pending | 0 | 0 | o1 |
| t | B | yes | 1 | 40 | pending | 0 | 0 | o2 |
| t | A2 | yes | 1 | 10 | exit_take_profit | 7 | 7 | o3 |
| t | C | yes | 2 | 30 | pending | 0 | 0 | o4 |
";
    let out = settle_last_trade(text, &settlement("win", 200)).unwrap();
    assert_eq!(
        out,
        "\
| t | A | yes | 1 | 40 | pending | 0 | 0 | o1 |
| t | B | yes | 1 | 40 | pending | 0 | 0 | o2 |
| t | A2 | yes | 1 | 10 | exit_take_profit | 7 | 7 | o3 |
| t | C | yes | 2 | 30 | win | 140 | 147 | o4 |
"
    );
}

#[test]
fn terminal_rows_after_a_closed_row_carry_its_profit_and_pending_rows_stay() {
    let text = "\
# Ledger
| t | A | no | 1 | 40 | pending | 0 | 0 | o1 |
not a row
| t | B | yes | 1 | 40 | pending | +0 | 0 | o2 |
| t | C | yes | 1 | 10 | loss | -10 | -10 | o3 |
";
    let exit = ExitEvent {
        ticker: "A".to_string(),
        reason: ExitReason::TakeProfit,
        entry_price_cents: 40,
        exit_price_cents: 47,
        shares: 1,
        pnl_cents: 7,
        order_id: "o1".to_string(),
    };
    let out = record_early_exit(text, &exit).unwrap();
    assert_eq!(
        out,
        "\
# Ledger
| t | A | no | 1 | 40 | exit_take_profit | 7 | 7 | o1 |
not a row
| t | B | yes | 1 | 40 | pending | +0 | 0 | o2 |
| t | C | yes | 1 | 10 | loss | -10 | -3 | o3 |
"
    );
}

#[test]
fn settle_with_an_unknown_result_keeps_the_cost() {
    let text = "| t | A | yes | 0 | 40 | pending | 0 | 7 | o1 |\n";
    let out = settle_last_trade(text, &settlement("unknown", 0)).unwrap();
    assert_eq!(out, "| t | A | yes | 0 | 40 | unknown | 0 | 0 | o1 |\n");
}

#[test]
fn settle_refuses_a_result_that_cannot_be_read_back() {
    let text = "| t | A | yes | 1 | 40 | pending | 0 | 0 | o1 |\n";
    for result in ["a|b", " win", "win ", "x\ny", "---", "my Timestamp", "pending"] {
        assert_eq!(
            settle_last_trade(text, &settlement(result, 100)),
            Err(LedgerError::ResultNotWritable),
            "{:?}",
            result
        );
    }
    assert!(settle_last_trade("# nothing pending\n", &settlement("a|b", 100)).is_ok());
    assert!(settle_last_trade(text, &settlement("", 100)).is_ok());
}

#[test]
fn settle_without_pending_line_only_normalises_line_ends() {
    let text = "# Ledger\r\n| t | A | yes | 1 | 40 | win | 60 | 60 | o1 |";
    let out = settle_last_trade(text, &settlement("win", 100)).unwrap();
    assert_eq!(out, "# Ledger\n| t | A | yes | 1 | 40 | win | 60 | 60 | o1 |\n");
    assert_eq!(settle_last_trade("", &settlement("win", 100)).unwrap(), "\n");
}

#[test]
fn settle_passes_over_pending_lines_that_hold_no_row() {
    let text = "| t | A | yes | many | 40 | pending | 0 | none | o1 |\n";
    let out = settle_last_trade(text, &settlement("win", 100)).unwrap();
    assert_eq!(out, text);
    let text = "| pending | only |\n| t | A | yes | 1 | 40 | pending | 0 | 0 | o1 |\n| pending |\n";
    let out = settle_last_trade(text, &settlement("win", 100)).unwrap();
    assert_eq!(
        out,
        "| pending | only |\n| t | A | yes | 1 | 40 | win | 60 | 60 | o1 |\n| pending |\n"
    );
}

#[test]
fn settle_finds_a_pending_row_however_its_cells_are_padded() {
    let text = "|t|A|yes|1|40|pending|0|0|o1|\n";
    let out = settle_last_trade(text, &settlement("win", 100)).unwrap();
    assert_eq!(out, "| t | A | yes | 1 | 40 | win | 60 | 60 | o1 |\n");
}

#[test]
fn settle_fails_when_amounts_overflow() {
    let text = "| t | X | yes | 1 | 1 | win | 1 | 9223372036854775807 | o0 |\n| t | A | yes | 1 | 1 | pending | 0 | 0 | o1 |\n";
    assert_eq!(settle_last_trade(text, &settlement("win", 100)), Err(LedgerError::AmountOutOfRange));
    let text = "| t | A | yes | 1 | 1 | pending | 0 | 0 | o1 |\n| t | X | yes | 1 | 1 | win | 1 | 9223372036854775807 | o0 |\n";
    assert_eq!(settle_last_trade(text, &settlement("win", 100)), Err(LedgerError::AmountOutOfRange));
    assert!(settle_last_trade(text, &settlement("loss", 1)).is_ok());
    let text = "| t | A | yes | 1 | 1 | pending | 0 | 0 | o1 |\n";
    assert_eq!(
        settle_last_trade(text, &settlement("loss", i64::MIN)),
        Err(LedgerError::AmountOutOfRange)
    );
    let text = "| t | A | yes | 4294967295 | 4294967295 | pending | 0 | 0 | o1 |\n";
    assert_eq!(
        settle_last_trade(text, &settlement("loss", i64::MIN + 5)),
        Err(LedgerError::AmountOutOfRange)
    );
}

#[test]
fn cancel_marks_the_matching_pending_line() {
    let text = format!(
        "{}{}\n{}\n",
        HEADER,
        format_row(&row("A", "pending", 0, 15, "order-1")),
        format_row(&row("B", "pending", 0, 15, "order-2")),
    );
    let out = cancel_trade(&text, "order-1");
    let rows = parse_ledger_content(&out);
    assert_eq!(rows.len(), 2);
    assert_eq!(rows[0].result, "cancelled");
    assert_eq!(rows[0].pnl_cents, 0);
    assert_eq!(rows[0].cumulative_cents, 0);
    assert_eq!(rows[0].order_id, "order-1");
    assert_eq!(rows[1].result, "pending");
    let again = cancel_trade(&out, "order-1");
    assert_eq!(again, out);
    let none = cancel_trade(&out, "order-9");
    assert_eq!(none, out);
}

#[test]
fn cancel_matches_the_order_id_cell_exactly() {
    let text = "\
| t | A | yes | 1 | 40 | win | 60 | 60 | o0 |
| t | order-1 | yes | 1 | 40 | pending | 0 | 60 | order-10 |
| t | B | yes | 1 | 40 | pending | 0 | 60 | order-1 |
| t | C | yes | 1 | 40 | pending | 0 | 60 | order-11 |
";
    let out = cancel_trade(text, "order-1");
    let rows = parse_ledger_content(&out);
    let results: Vec<&str> = rows.iter().map(|r| r.result.as_str()).collect();
    assert_eq!(results, vec!["win", "pending", "cancelled", "pending"]);
    assert_eq!(rows[2].cumulative_cents, 60);
    assert_eq!(cancel_trade(text, "order"), text);
}

#[test]
fn exit_matches_the_ticker_cell_exactly() {
    let text = "\
| t | AB | yes | 1 | 40 | pending | 0 | 0 | o1 |
| t | ABC | yes | 1 | 40 | pending | 0 | 0 | o2 |
";
    let exit = ExitEvent {
        ticker: "AB".to_string(),
        reason: ExitReason::StopLoss,
        entry_price_cents: 40,
        exit_price_cents: 30,
        shares: 1,
        pnl_cents: -10,
        order_id: "o1".to_string(),
    };
    let out = record_early_exit(text, &exit).unwrap();
    assert_eq!(
        out,
        "\
| t | AB | yes | 1 | 40 | exit_stop_loss | -10 | -10 | o1 |
| t | ABC | yes | 1 | 40 | pending | 0 | 0 | o2 |
"
    );
}

#[test]
fn record_early_exit_names_the_reason() {
    let text = format!(
        "{}{}\n{}\n",
        HEADER,
        format_row(&row("A", "pending", 0, 15, "order-1")),
        format_row(&row("B", "pending", 0, 15, "order-2")),
    );
    let exit = ExitEvent {
        ticker: "A".to_string(),
        reason: ExitReason::TakeProfit,
        entry_price_cents: 40,
        exit_price_cents: 62,
        shares: 2,
        pnl_cents: 44,
        order_id: "order-1".to_string(),
    };
    let out = record_early_exit(&text, &exit).unwrap();
    let rows = parse_ledger_content(&out);
    assert_eq!(rows[0].result, "exit_take_profit");
    assert_eq!(rows[0].pnl_cents, 44);
    assert_eq!(rows[0].cumulative_cents, 44);
    assert_eq!(rows[1].result, "pending");
    assert_eq!(rows[1].cumulative_cents, 15);
    assert_eq!(format_row(&rows[1]), format_row(&row("B", "pending", 0, 15, "order-2")));
    let stop = ExitEvent { ticker: "B".to_string(), reason: ExitReason::StopLoss, pnl_cents: -50, ..exit };
    let out = record_early_exit(&out, &stop).unwrap();
    let rows = parse_ledger_content(&out);
    assert_eq!(rows[1].result, "exit_stop_loss");
    assert_eq!(rows[1].pnl_cents, -50);
    assert_eq!(rows[1].cumulative_cents, -6);
}

#[test]
fn record_early_exit_fails_when_cumulative_overflows() {
    let text = "| t | X | yes | 1 | 1 | win | 1 | 9223372036854775807 | o0 |\n| t | A | yes | 1 | 1 | pending | 0 | 0 | o1 |\n";
    let exit = ExitEvent {
        ticker: "A".to_string(),
        reason: ExitReason::TakeProfit,
        entry_price_cents: 1,
        exit_price_cents: 2,
        shares: 1,
        pnl_cents: 1,
        order_id: "o1".to_string(),
    };
    assert_eq!(record_early_exit(text, &exit), Err(LedgerError::AmountOutOfRange));
}

#[test]
fn append_begins_a_new_line_where_the_ledger_ends_without_one() {
    let r = row("B", "pending", 0, 70, "o1");
    let open = "| t0 | A | yes | 1 | 30 | win | 70 | 70 | o0 |";
    assert_eq!(
        append_text(open, &r),
        "\n| 2026-02-12T20:45:00+00:00 | B | yes | 2 | 40 | pending | 0 | 70 | o1 |\n"
    );
    let text = append_ledger(open, &r);
    assert_eq!(
        text,
        "| t0 | A | yes | 1 | 30 | win | 70 | 70 | o0 |\n| 2026-02-12T20:45:00+00:00 | B | yes | 2 | 40 | pending | 0 | 70 | o1 |\n"
    );
    let rows = parse_ledger_content(&text);
    assert_eq!(rows.len(), 2);
    assert_eq!((rows[0].ticker.as_str(), rows[0].order_id.as_str()), ("A", "o0"));
    assert_eq!((rows[1].ticker.as_str(), rows[1].order_id.as_str()), ("B", "o1"));
}

#[test]
fn append_to_an_empty_ledger_adds_the_line_alone() {
    let r = row("B", "pending", 0, 0, "o1");
    assert_eq!(
        append_text("", &r),
        "| 2026-02-12T20:45:00+00:00 | B | yes | 2 | 40 | pending | 0 | 0 | o1 |\n"
    );
    assert_eq!(append_ledger("", &r), append_text("", &r));
    assert_eq!(append_text("x\n", &r), append_text("", &r));
}

#[test]
fn texts_that_a_cell_cannot_hold_are_told_apart() {
    assert!(is_writable_text("KXBTC15M-26FEB122100-45"));
    assert!(is_writable_text(""));
    assert!(is_writable_text("two words"));
    assert!(is_writable_text("a--b"));
    assert!(!is_writable_text("a|b"));
    assert!(!is_writable_text("a\nb"));
    assert!(!is_writable_text(" a"));
    assert!(!is_writable_text("a "));
    assert!(!is_writable_text("a---b"));
    assert!(!is_writable_text("the Timestamp"));
}

#[test]
fn a_row_is_writable_when_each_of_its_texts_is() {
    assert!(row_is_writable(&row("A", "pending", 0, 0, "o1")));
    assert!(!row_is_writable(&row("A|B", "pending", 0, 0, "o1")));
    assert!(!row_is_writable(&row("A", "pending", 0, 0, "o1 ")));
    assert!(!row_is_writable(&row("A", "won\n", 0, 0, "o1")));
    let mut r = row("A", "pending", 0, 0, "o1");
    r.side = "---".to_string();
    assert!(!row_is_writable(&r));
    let mut r = row("A", "pending", 0, 0, "o1");
    r.timestamp = "Timestamp".to_string();
    assert!(!row_is_writable(&r));
}

#[test]
fn a_pending_row_after_the_closed_row_stays_cell_for_cell() {
    let text = "\
| t | A | yes | 1 | 40 | pending | 0 | 0 | o1 |
|t|B|yes|1|40|pending|0|9223372036854775807|o2|
| t | C | yes | 1 | 10 | pending | 0 | -5 | o3 |
";
    let exit = ExitEvent {
        ticker: "A".to_string(),
        reason: ExitReason::TakeProfit,
        entry_price_cents: 40,
        exit_price_cents: 47,
        shares: 1,
        pnl_cents: 7,
        order_id: "o1".to_string(),
    };
    let out = record_early_exit(text, &exit).unwrap();
    assert_eq!(
        out,
        "\
| t | A | yes | 1 | 40 | exit_take_profit | 7 | 7 | o1 |
|t|B|yes|1|40|pending|0|9223372036854775807|o2|
| t | C | yes | 1 | 10 | pending | 0 | -5 | o3 |
"
    );
    let after = settle_last_trade(&out, &settlement("yes", 100)).unwrap();
    let rows = parse_ledger_content(&after);
    assert_eq!(rows[1].cumulative_cents, i64::MAX);
    assert_eq!((rows[2].pnl_cents, rows[2].cumulative_cents), (90, 97));
}

#[test]
fn a_terminal_row_after_the_closed_row_must_fit_with_the_profit() {
    let text = "\
| t | A | yes | 1 | 40 | pending | 0 | 0 | o1 |
| t | B | yes | 1 | 40 | win | 60 | 9223372036854775807 | o2 |
";
    let exit = ExitEvent {
        ticker: "A".to_string(),
        reason: ExitReason::TakeProfit,
        entry_price_cents: 40,
        exit_price_cents: 47,
        shares: 1,
        pnl_cents: 7,
        order_id: "o1".to_string(),
    };
    assert_eq!(record_early_exit(text, &exit), Err(LedgerError::AmountOutOfRange));
    let even = ExitEvent { pnl_cents: 0, exit_price_cents: 40, ..exit };
    assert_eq!(
        record_early_exit(text, &even).unwrap(),
        "\
| t | A | yes | 1 | 40 | exit_take_profit | 0 | 0 | o1 |
| t | B | yes | 1 | 40 | win | 60 | 9223372036854775807 | o2 |
"
    );
}
