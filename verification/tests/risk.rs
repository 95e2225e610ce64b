use kalshi_bot::risk::{
    assess, assess_edge, check, kelly_shares, validate_edge, EdgeVeto, RiskVeto,
};
use kalshi_bot::types::{Config, Stats};

fn config() -> Config {
    Config {
        max_shares: 2,
        max_daily_loss_cents: 1000,
        max_consecutive_losses: 7,
        min_balance_cents: 500,
        min_seconds_to_expiry: 120,
        tp_cents_per_share: 20,
        sl_cents_per_share: 20,
        entry_cycle_interval_secs: 60,
        position_check_interval_secs: 5,
        paper_trade: true,
        confirm_live: false,
        series_tickers: vec![],
        kalshi_base_url: String::new(),
        kalshi_ws_url: String::new(),
        binance_ws_url: String::new(),
        openrouter_api_key: String::new(),
        kalshi_key_id: String::new(),
        kalshi_private_key_pem: String::new(),
        lockfile_path: String::new(),
    }
}

fn stats(today: i64, streak: i32) -> Stats {
    Stats {
        total_trades: 0,
        wins: 0,
        losses: 0,
        total_pnl_cents: 0,
        today_pnl_cents: today,
        current_streak: streak,
        max_drawdown_cents: 0,
        win_sum_cents: 0,
        loss_sum_cents: 0,
    }
}

#[test]
fn no_veto_when_all_checks_pass() {
    assert_eq!(assess(&stats(-999, -6), 500, &config()), None);
    assert_eq!(check(&stats(0, 0), 10_000, &config()), None);
}

#[test]
fn balance_veto_comes_first() {
    let veto = assess(&stats(-5000, -9), 499, &config());
    assert_eq!(veto, Some(RiskVeto::BalanceBelowMinimum { balance_cents: 499, minimum_cents: 500 }));
    assert_eq!(
        check(&stats(-5000, -9), 499, &config()),
        Some("Balance 499¢ < 500¢ minimum".to_string())
    );
}

#[test]
fn daily_loss_veto_comes_second() {
    let veto = assess(&stats(-1000, -9), 500, &config());
    assert_eq!(veto, Some(RiskVeto::DailyLossLimit { today_pnl_cents: -1000 }));
    assert_eq!(check(&stats(-1000, -9), 500, &config()), Some("Daily loss: -1000¢".to_string()));
}

#[test]
fn streak_veto_comes_last() {
    let veto = assess(&stats(-999, -7), 500, &config());
    assert_eq!(veto, Some(RiskVeto::LosingStreak { streak: -7 }));
    assert_eq!(check(&stats(0, -8), 500, &config()), Some("8× consecutive losses".to_string()));
}

#[test]
fn extreme_limits_do_not_overflow() {
    let mut cfg = config();
    cfg.max_daily_loss_cents = i64::MIN;
    cfg.max_consecutive_losses = u32::MAX;
    assert_eq!(
        assess(&stats(i64::MAX, i32::MIN), 500, &cfg),
        Some(RiskVeto::DailyLossLimit { today_pnl_cents: i64::MAX })
    );
    cfg.max_daily_loss_cents = i64::MAX;
    assert_eq!(assess(&stats(i64::MIN + 2, i32::MIN), 500, &cfg), None);
    assert_eq!(
        assess(&stats(i64::MIN, 0), 500, &cfg),
        Some(RiskVeto::DailyLossLimit { today_pnl_cents: i64::MIN })
    );
    assert_eq!(
        RiskVeto::LosingStreak { streak: i32::MIN }.message(),
        "2147483648× consecutive losses"
    );
}

#[test]
fn kelly_is_zero_on_invalid_inputs() {
    for (p, c) in [(0, 40), (100, 40), (55, 0), (55, 100), (101, 40), (55, 150), (0, 0)] {
        assert_eq!(kelly_shares(p, c, 3), 0, "{} {}", p, c);
    }
}

#[test]
fn kelly_with_no_share_allowed_is_zero() {
    assert_eq!(kelly_shares(0, 40, 0), 0);
    assert_eq!(kelly_shares(100, 40, 0), 0);
    assert_eq!(kelly_shares(55, 0, 0), 0);
    assert_eq!(kelly_shares(55, 100, 0), 0);
    assert_eq!(kelly_shares(99, 1, 0), 0);
}

#[test]
fn kelly_is_zero_without_an_edge() {
    assert_eq!(kelly_shares(40, 40, 3), 0);
    assert_eq!(kelly_shares(30, 40, 3), 0);
    assert_eq!(kelly_shares(1, 99, 3), 0);
}

#[test]
fn kelly_exact_values() {
    // f = (55 - 25) / 75 = 0.4; half of it times five is exactly 1.
    assert_eq!(kelly_shares(55, 25, 3), 1);
    // f = (56 - 25) / 75; half of it times five is just above 1.
    assert_eq!(kelly_shares(56, 25, 3), 2);
    // f = (41 - 40) / 60: a small fraction still gives one share.
    assert_eq!(kelly_shares(41, 40, 3), 1);
    // f = (90 - 10) / 90; half of it times five is 2.22.
    assert_eq!(kelly_shares(90, 10, 3), 3);
    assert_eq!(kelly_shares(99, 1, 3), 3);
    assert_eq!(kelly_shares(99, 1, 2), 2);
    assert_eq!(kelly_shares(99, 1, 1), 1);
    assert_eq!(kelly_shares(99, 1, u32::MAX), 3);
}

#[test]
fn kelly_stays_between_one_and_three_with_an_edge() {
    for p in 1..100u32 {
        for c in 1..100u32 {
            let shares = kelly_shares(p, c, 5);
            if p > c {
                assert!((1..=3).contains(&shares), "{} {} {}", p, c, shares);
            } else {
                assert_eq!(shares, 0);
            }
        }
    }
}

#[test]
fn missing_probability_vetoes() {
    assert_eq!(assess_edge(None, Some(50), 10, 0), Some(EdgeVeto::NoProbability));
    assert_eq!(
        EdgeVeto::NoProbability.message(),
        "No estimated_probability provided — blocking trade"
    );
}

#[test]
fn probability_out_of_range_vetoes() {
    assert_eq!(
        assess_edge(Some(150), Some(50), 10, 0),
        Some(EdgeVeto::ProbabilityOutOfRange { probability: 150 })
    );
    assert_eq!(
        assess_edge(Some(0), None, 10, 0),
        Some(EdgeVeto::ProbabilityOutOfRange { probability: 0 })
    );
    assert_eq!(
        assess_edge(Some(-5), None, 10, 0),
        Some(EdgeVeto::ProbabilityOutOfRange { probability: -5 })
    );
    assert_eq!(
        EdgeVeto::ProbabilityOutOfRange { probability: 150 }.message(),
        "Probability 150 out of valid range [1,99]"
    );
    assert_eq!(assess_edge(Some(1), Some(8), 10, 0), None);
    assert_eq!(assess_edge(Some(99), Some(8), 10, 0), None);
}

#[test]
fn edge_defaults_to_distance_from_price() {
    assert_eq!(assess_edge(Some(48), None, 40, 0), None);
    assert_eq!(assess_edge(Some(32), None, 40, 0), None);
    assert_eq!(
        assess_edge(Some(47), None, 40, 0),
        Some(EdgeVeto::EdgeTooSmall { edge: 7, min_edge: 8, streak: 0, probability: 47, price_cents: 40 })
    );
    assert_eq!(
        EdgeVeto::EdgeTooSmall { edge: 7, min_edge: 8, streak: 0, probability: 47, price_cents: 40 }
            .message(),
        "Edge 7pt < 8pt minimum (streak=0, prob=47, price=40¢)"
    );
}

#[test]
fn losing_streak_raises_the_least_edge() {
    assert_eq!(assess_edge(Some(60), Some(11), 40, -2), None);
    assert_eq!(
        assess_edge(Some(60), Some(11), 40, -3),
        Some(EdgeVeto::EdgeTooSmall { edge: 11, min_edge: 12, streak: -3, probability: 60, price_cents: 40 })
    );
    assert_eq!(assess_edge(Some(60), Some(12), 40, -3), None);
}

#[test]
fn price_above_fifty_vetoes() {
    assert_eq!(assess_edge(Some(70), Some(19), 50, 0), None);
    assert_eq!(
        assess_edge(Some(70), Some(19), 51, 0),
        Some(EdgeVeto::PriceTooHigh { price_cents: 51 })
    );
    assert_eq!(EdgeVeto::PriceTooHigh { price_cents: 51 }.message(), "Price 51¢ > 50¢ max");
}

#[test]
fn edge_vetoes_in_words() {
    assert_eq!(
        validate_edge(None, Some(50), 10, 0),
        Some("No estimated_probability provided — blocking trade".to_string())
    );
    assert_eq!(
        validate_edge(Some(150), Some(50), 10, 0),
        Some("Probability 150 out of valid range [1,99]".to_string())
    );
    assert_eq!(
        validate_edge(Some(60), Some(9), 40, -4),
        Some("Edge 9pt < 12pt minimum (streak=-4, prob=60, price=40¢)".to_string())
    );
    assert_eq!(validate_edge(Some(70), None, 51, 0), Some("Price 51¢ > 50¢ max".to_string()));
    assert_eq!(validate_edge(Some(48), None, 40, 0), None);
}
