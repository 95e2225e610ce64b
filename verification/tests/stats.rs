use kalshi_bot::stats::compute;
use kalshi_bot::types::{LedgerRow, Stats};

fn row(stamp: &str, result: &str, pnl: i64) -> LedgerRow {
    LedgerRow {
        timestamp: stamp.to_string(),
        ticker: "T".to_string(),
        side: "yes".to_string(),
        shares: 1,
        price: 40,
        result: result.to_string(),
        pnl_cents: pnl,
        cumulative_cents: 0,
        order_id: String::new(),
    }
}

#[test]
fn empty_ledger_has_empty_figures() {
    assert_eq!(
        compute(&vec![], "2026-02-12"),
        Stats {
            total_trades: 0,
            wins: 0,
            losses: 0,
            total_pnl_cents: 0,
            today_pnl_cents: 0,
            current_streak: 0,
            max_drawdown_cents: 0,
            win_sum_cents: 0,
            loss_sum_cents: 0,
        }
    );
}

#[test]
fn figures_of_a_mixed_ledger() {
    let rows = vec![
        row("2026-02-11T10:00:00+00:00", "win", 60),
        row("2026-02-11T11:00:00+00:00", "loss", -40),
        row("2026-02-11T12:00:00+00:00", "cancelled", 0),
        row("2026-02-12T09:00:00+00:00", "exit_stop_loss", -50),
        row("2026-02-12T09:30:00+00:00", "unknown", 0),
        row("2026-02-12T10:00:00+00:00", "loss", -30),
        row("2026-02-12T10:30:00+00:00", "exit_take_profit", 25),
        row("2026-02-12T11:00:00+00:00", "pending", 0),
    ];
    assert_eq!(
        compute(&rows, "2026-02-12"),
        Stats {
            total_trades: 5,
            wins: 2,
            losses: 3,
            total_pnl_cents: -35,
            today_pnl_cents: -55,
            current_streak: 1,
            max_drawdown_cents: 120,
            win_sum_cents: 85,
            loss_sum_cents: -120,
        }
    );
}

#[test]
fn streak_counts_losses_in_a_row() {
    let rows = vec![
        row("2026-02-12T09:00:00Z", "win", 10),
        row("2026-02-12T09:10:00Z", "loss", -10),
        row("2026-02-12T09:20:00Z", "pending", 0),
        row("2026-02-12T09:30:00Z", "loss", -10),
        row("2026-02-12T09:40:00Z", "loss", 0),
    ];
    let stats = compute(&rows, "2026-02-13");
    assert_eq!(stats.current_streak, -3);
    assert_eq!(stats.today_pnl_cents, 0);
    assert_eq!(stats.max_drawdown_cents, 20);
    assert_eq!(stats.losses, 3);
}

#[test]
fn figures_are_held_within_their_types() {
    let rows = vec![
        row("2026-02-12T09:00:00Z", "win", i64::MAX),
        row("2026-02-12T09:10:00Z", "win", i64::MAX),
        row("2026-02-12T09:20:00Z", "loss", i64::MIN),
        row("2026-02-12T09:30:00Z", "loss", i64::MIN),
        row("2026-02-12T09:40:00Z", "loss", i64::MIN),
    ];
    let stats = compute(&rows, "2026");
    assert_eq!(stats.win_sum_cents, i64::MAX);
    assert_eq!(stats.loss_sum_cents, i64::MIN);
    assert_eq!(stats.total_pnl_cents, i64::MIN);
    assert_eq!(stats.today_pnl_cents, i64::MIN);
    assert_eq!(stats.max_drawdown_cents, i64::MAX);
    assert_eq!(stats.current_streak, -3);
}
