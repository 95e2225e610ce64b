use kalshi_bot::signal::{
    compute_orderbook_imbalance, compute_signal_summary, GapBand, ImbalanceBand, MomentumBand,
    RsiZone, SignalInputs,
};
use kalshi_bot::types::{MarketState, Orderbook, Side, TrendAlignment};

fn market(yes_ask: Option<u32>, no_ask: Option<u32>) -> MarketState {
    MarketState {
        ticker: "T".to_string(),
        event_ticker: String::new(),
        title: String::new(),
        yes_bid: None,
        yes_ask,
        no_bid: None,
        no_ask,
        last_price: None,
        volume: 0,
        volume_24h: 0,
        open_interest: 0,
        expiration_time: String::new(),
        seconds_to_expiry: 600,
    }
}

fn flat() -> SignalInputs {
    SignalInputs {
        momentum: MomentumBand::Flat,
        trend: TrendAlignment::Mixed,
        ema_gap: GapBand::Near,
        rsi: RsiZone::Neutral,
    }
}

fn book(yes: Vec<(u32, u32)>, no: Vec<(u32, u32)>) -> Orderbook {
    Orderbook { yes, no }
}

#[test]
fn imbalance_weights_the_best_five_levels() {
    let ob = book(
        vec![(50, 1), (49, 2), (48, 3), (47, 4), (46, 5), (45, 1000)],
        vec![(50, 10)],
    );
    let im = compute_orderbook_imbalance(&ob);
    assert_eq!(im.bid_weight, 60 + 60 + 60 + 60 + 60);
    assert_eq!(im.ask_weight, 600);
    assert_eq!(im.band, ImbalanceBand::Balanced);
}

#[test]
fn imbalance_bands() {
    let band = |yes: Vec<(u32, u32)>, no: Vec<(u32, u32)>| compute_orderbook_imbalance(&book(yes, no)).band;
    assert_eq!(band(vec![], vec![]), ImbalanceBand::Balanced);
    assert_eq!(band(vec![(1, 1)], vec![]), ImbalanceBand::BidHeavy);
    assert_eq!(band(vec![], vec![(1, 1)]), ImbalanceBand::AskHeavy);
    assert_eq!(band(vec![(1, 0)], vec![(1, 0)]), ImbalanceBand::Balanced);
    assert_eq!(band(vec![(1, 20)], vec![(1, 10)]), ImbalanceBand::Balanced);
    assert_eq!(band(vec![(1, 21)], vec![(1, 10)]), ImbalanceBand::BidHeavy);
    assert_eq!(band(vec![(1, 10)], vec![(1, 20)]), ImbalanceBand::Balanced);
    assert_eq!(band(vec![(1, 10)], vec![(1, 21)]), ImbalanceBand::AskHeavy);
    let max = u32::MAX;
    let im = compute_orderbook_imbalance(&book(vec![(1, max); 6], vec![(1, 1)]));
    assert_eq!(im.bid_weight, 137 * max as u64);
    assert_eq!(im.band, ImbalanceBand::BidHeavy);
}

#[test]
fn neutral_signals_give_fifty_percent() {
    let s = compute_signal_summary(&flat(), &book(vec![], vec![]), &market(Some(45), Some(57)));
    assert_eq!(s.estimated_probability, 50);
    assert_eq!(s.recommended_side, Some(Side::Yes));
    assert_eq!(s.estimated_edge, 5);
    assert_eq!(s.kelly_shares, 0);
}

#[test]
fn every_signal_adds_its_points() {
    let inputs = SignalInputs {
        momentum: MomentumBand::StrongUp,
        trend: TrendAlignment::AllUp,
        ema_gap: GapBand::Above,
        rsi: RsiZone::Overbought,
    };
    let s = compute_signal_summary(&inputs, &book(vec![(40, 9)], vec![]), &market(Some(40), Some(62)));
    assert_eq!(s.estimated_probability, 50 + 8 + 6 + 3 + 4 + 3);
    assert_eq!(s.recommended_side, Some(Side::Yes));
    assert_eq!(s.estimated_edge, 34);
    // f = 34 / 60; half of it times five is 1.42.
    assert_eq!(s.kelly_shares, 2);
    let inputs = SignalInputs {
        momentum: MomentumBand::Down,
        trend: TrendAlignment::AllDown,
        ema_gap: GapBand::Below,
        rsi: RsiZone::Oversold,
    };
    let s = compute_signal_summary(&inputs, &book(vec![], vec![(40, 9)]), &market(Some(40), Some(62)));
    assert_eq!(s.estimated_probability, 50 - 3 - 6 - 3 - 4 - 3);
    assert_eq!(s.recommended_side, Some(Side::No));
    assert_eq!(s.estimated_edge, 69 - 62);
    assert_eq!(s.kelly_shares, 0);
}

#[test]
fn probability_is_held_between_five_and_ninety_five() {
    for momentum in [MomentumBand::StrongUp, MomentumBand::Up, MomentumBand::Flat, MomentumBand::Down, MomentumBand::StrongDown] {
        for trend in [TrendAlignment::AllUp, TrendAlignment::AllDown, TrendAlignment::AllFlat, TrendAlignment::Mixed] {
            for ema_gap in [GapBand::Above, GapBand::Near, GapBand::Below] {
                for rsi in [RsiZone::Overbought, RsiZone::Neutral, RsiZone::Oversold] {
                    let inputs = SignalInputs { momentum, trend, ema_gap, rsi };
                    let s = compute_signal_summary(&inputs, &book(vec![], vec![]), &market(None, None));
                    assert!((5..=95).contains(&s.estimated_probability));
                    assert!(s.kelly_shares <= 3);
                }
            }
        }
    }
}

#[test]
fn ties_favour_yes() {
    let s = compute_signal_summary(&flat(), &book(vec![], vec![]), &market(Some(40), Some(40)));
    assert_eq!(s.recommended_side, Some(Side::Yes));
    assert_eq!(s.estimated_edge, 10);
    assert_eq!(s.kelly_shares, 1);
}

#[test]
fn larger_edge_wins() {
    let s = compute_signal_summary(&flat(), &book(vec![], vec![]), &market(Some(45), Some(30)));
    assert_eq!(s.recommended_side, Some(Side::No));
    assert_eq!(s.estimated_edge, 20);
    // f = 20 / 70; half of it times five is 0.71.
    assert_eq!(s.kelly_shares, 1);
}

#[test]
fn no_side_without_a_positive_edge() {
    let s = compute_signal_summary(&flat(), &book(vec![], vec![]), &market(Some(50), Some(55)));
    assert_eq!(s.recommended_side, None);
    assert_eq!(s.estimated_edge, 0);
    assert_eq!(s.kelly_shares, 0);
    let s = compute_signal_summary(&flat(), &book(vec![], vec![]), &market(None, Some(60)));
    assert_eq!(s.recommended_side, None);
    assert_eq!(s.estimated_edge, -10);
    assert_eq!(s.kelly_shares, 0);
}

#[test]
fn free_contracts_get_one_share() {
    let s = compute_signal_summary(&flat(), &book(vec![], vec![]), &market(Some(0), None));
    assert_eq!(s.recommended_side, Some(Side::Yes));
    assert_eq!(s.estimated_edge, 50);
    assert_eq!(s.kelly_shares, 1);
}

#[test]
fn sizing_starts_at_eight_points() {
    let s = compute_signal_summary(&flat(), &book(vec![], vec![]), &market(Some(43), None));
    assert_eq!(s.estimated_edge, 7);
    assert_eq!(s.kelly_shares, 0);
    let s = compute_signal_summary(&flat(), &book(vec![], vec![]), &market(Some(42), None));
    assert_eq!(s.estimated_edge, 8);
    assert_eq!(s.kelly_shares, 1);
    let s = compute_signal_summary(&flat(), &book(vec![], vec![]), &market(Some(1), None));
    assert_eq!(s.estimated_edge, 49);
    // f = 49 / 99; half of it times five is 1.24.
    assert_eq!(s.kelly_shares, 2);
}
