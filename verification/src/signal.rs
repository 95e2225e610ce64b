//! Signal synthesis: a probability for "Yes" from the bands that the
//! indicators fall in and from the depth of the order book, the edge of each
//! side against its ask, and the side and size to recommend.
//!
//! Probabilities, prices and edges are whole percentage points.

use crate::risk::{ceil_div, clamp};
use crate::types::{MarketState, Orderbook, Side, TrendAlignment};
use vstd::prelude::*;

verus! {

/// The band of the 15-minute price change: strong beyond 0.15 percent, weak
/// beyond 0.05 percent, flat within.
#[derive(Debug, Clone, Copy, PartialEq, Eq, Structural)]
pub enum MomentumBand {
    StrongUp,
    Up,
    Flat,
    Down,
    StrongDown,
}

/// Where the spot price stands against the moving average: beyond 0.05
/// percent above or below it, or near it.
#[derive(Debug, Clone, Copy, PartialEq, Eq, Structural)]
pub enum GapBand {
    Above,
    Near,
    Below,
}

/// The zone of the relative strength index: above 70, below 30, or between.
#[derive(Debug, Clone, Copy, PartialEq, Eq, Structural)]
pub enum RsiZone {
    Overbought,
    Neutral,
    Oversold,
}

/// Which side of the order book weighs more than twice the other.
#[derive(Debug, Clone, Copy, PartialEq, Eq, Structural)]
pub enum ImbalanceBand {
    BidHeavy,
    Balanced,
    AskHeavy,
}

/// The bands that the price indicators fall in.
#[derive(Debug, Clone, Copy, PartialEq, Eq, Structural)]
pub struct SignalInputs {
    pub momentum: MomentumBand,
    pub trend: TrendAlignment,
    pub ema_gap: GapBand,
    pub rsi: RsiZone,
}

/// Depth-weighted volume of both sides of the book, in sixtieths of a
/// contract, and the band of their ratio.
#[derive(Debug, Clone, Copy, PartialEq, Eq, Structural)]
pub struct Imbalance {
    pub bid_weight: u64,
    pub ask_weight: u64,
    pub band: ImbalanceBand,
}

/// What the signals add up to.
#[derive(Debug, Clone, Copy, PartialEq, Eq, Structural)]
pub struct SignalSummary {
    pub trend: TrendAlignment,
    pub rsi: RsiZone,
    pub imbalance: Imbalance,
    pub recommended_side: Option<Side>,
    pub estimated_edge: i64,
    pub kelly_shares: u32,
    pub estimated_probability: u32,
}

/// Sixty times the weight `1 / (rank + 1)` of a level among the best five;
/// nothing for a level beyond them.
pub open spec fn level_weight(rank: int) -> int {
    if rank == 0 {
        60
    } else if rank == 1 {
        30
    } else if rank == 2 {
        20
    } else if rank == 3 {
        15
    } else if rank == 4 {
        12
    } else {
        0
    }
}

/// Sixty times the depth-weighted volume of the first `n` levels.
pub open spec fn weighted_depth_upto(levels: Seq<(u32, u32)>, n: int) -> int
    decreases n,
{
    if n <= 0 {
        0
    } else {
        weighted_depth_upto(levels, n - 1) + levels[n - 1].1 * level_weight(n - 1)
    }
}

/// Sixty times the depth-weighted volume of the best five levels.
pub open spec fn weighted_depth(levels: Seq<(u32, u32)>) -> int {
    weighted_depth_upto(
        levels,
        if levels.len() < 5 {
            levels.len() as int
        } else {
            5
        },
    )
}

/// The band of the ratio of bid to ask weight, held between 0.2 and 5: bid
/// heavy above 2, ask heavy below 0.5. Without asks the ratio counts as 5
/// where there are bids, as 1 where there are none.
pub open spec fn imbalance_band(bid_weight: int, ask_weight: int) -> ImbalanceBand {
    if ask_weight == 0 {
        if bid_weight > 0 {
            ImbalanceBand::BidHeavy
        } else {
            ImbalanceBand::Balanced
        }
    } else if bid_weight > 2 * ask_weight {
        ImbalanceBand::BidHeavy
    } else if 2 * bid_weight < ask_weight {
        ImbalanceBand::AskHeavy
    } else {
        ImbalanceBand::Balanced
    }
}

/// What the momentum adds to the probability: 8 points where strong, 3
/// where weak.
pub open spec fn momentum_points(band: MomentumBand) -> int {
    match band {
        MomentumBand::StrongUp => 8,
        MomentumBand::Up => 3,
        MomentumBand::Flat => 0,
        MomentumBand::Down => -3,
        MomentumBand::StrongDown => -8,
    }
}

/// What the trend adds: 6 points where all three windows agree in a
/// direction.
pub open spec fn trend_points(trend: TrendAlignment) -> int {
    match trend {
        TrendAlignment::AllUp => 6,
        TrendAlignment::AllDown => -6,
        TrendAlignment::AllFlat => 0,
        TrendAlignment::Mixed => 0,
    }
}

/// What the gap to the moving average adds: 3 points.
pub open spec fn gap_points(gap: GapBand) -> int {
    match gap {
        GapBand::Above => 3,
        GapBand::Near => 0,
        GapBand::Below => -3,
    }
}

/// What the relative strength index adds: 4 points at its extremes.
pub open spec fn rsi_points(zone: RsiZone) -> int {
    match zone {
        RsiZone::Overbought => 4,
        RsiZone::Neutral => 0,
        RsiZone::Oversold => -4,
    }
}

/// What the order book adds: 3 points where one side weighs more than twice
/// the other.
pub open spec fn imbalance_points(band: ImbalanceBand) -> int {
    match band {
        ImbalanceBand::BidHeavy => 3,
        ImbalanceBand::Balanced => 0,
        ImbalanceBand::AskHeavy => -3,
    }
}

/// The probability of "Yes", in percent: 50 and what the signals add, held
/// between 5 and 95.
pub open spec fn probability_yes(inputs: SignalInputs, band: ImbalanceBand) -> int {
    clamp(
        50 + momentum_points(inputs.momentum) + trend_points(inputs.trend) + gap_points(
            inputs.ema_gap,
        ) + rsi_points(inputs.rsi) + imbalance_points(band),
        5,
        95,
    )
}

/// The ask to reckon with: 99 cents where the market shows none.
pub open spec fn ask_or_default(ask: Option<u32>) -> int {
    match ask {
        Some(a) => a as int,
        None => 99,
    }
}

/// The side to recommend: the one with the larger edge if that edge is
/// positive, "Yes" where both are equal; none where neither is positive.
pub open spec fn recommended(yes_edge: int, no_edge: int) -> Option<Side> {
    if yes_edge >= no_edge && yes_edge > 0 {
        Some(Side::Yes)
    } else if no_edge > 0 {
        Some(Side::No)
    } else {
        None
    }
}

/// The shares to recommend for a side with the given win probability, price
/// and edge: none below 8 points of edge; else half the Kelly fraction
/// scaled to five shares, rounded up and held between one and three. At a
/// price of zero the fraction counts as zero, which gives one share.
pub open spec fn summary_shares(win_prob_pct: int, price_cents: int, edge: int) -> int {
    if edge < 8 {
        0
    } else if price_cents <= 0 || price_cents >= 100 || win_prob_pct <= price_cents {
        1
    } else {
        clamp(ceil_div(5 * (win_prob_pct - price_cents), 2 * (100 - price_cents)), 1, 3)
    }
}

/// The summary of the signals for a book with the given weights and a
/// market with the given asks.
pub open spec fn summary_of(
    inputs: SignalInputs,
    bid_weight: int,
    ask_weight: int,
    yes_ask: Option<u32>,
    no_ask: Option<u32>,
) -> SignalSummary {
    let band = imbalance_band(bid_weight, ask_weight);
    let prob = probability_yes(inputs, band);
    let yes_price = ask_or_default(yes_ask);
    let no_price = ask_or_default(no_ask);
    let yes_edge = prob - yes_price;
    let no_edge = (100 - prob) - no_price;
    let side = recommended(yes_edge, no_edge);
    let edge = match side {
        Some(Side::Yes) => yes_edge,
        Some(Side::No) => no_edge,
        None => if yes_edge >= no_edge {
            yes_edge
        } else {
            no_edge
        },
    };
    let shares = match side {
        Some(Side::Yes) => summary_shares(prob, yes_price, edge),
        Some(Side::No) => summary_shares(100 - prob, no_price, edge),
        None => 0,
    };
    SignalSummary {
        trend: inputs.trend,
        rsi: inputs.rsi,
        imbalance: Imbalance {
            bid_weight: bid_weight as u64,
            ask_weight: ask_weight as u64,
            band,
        },
        recommended_side: side,
        estimated_edge: edge as i64,
        kelly_shares: shares as u32,
        estimated_probability: prob as u32,
    }
}

/// Each of the best five levels adds at most sixty times the largest
/// quantity to the weighted depth.
proof fn lemma_weighted_depth_bound(levels: Seq<(u32, u32)>, n: int)
    requires
        0 <= n <= 5,
        n <= levels.len(),
    ensures
        0 <= weighted_depth_upto(levels, n) <= n * 60 * 0xffff_ffff,
    decreases n,
{
    if n > 0 {
        lemma_weighted_depth_bound(levels, n - 1);
        assert(0 <= levels[n - 1].1 * level_weight(n - 1) <= 60 * 0xffff_ffff) by (nonlinear_arith)
            requires
                0 <= levels[n - 1].1 <= 0xffff_ffff,
                0 <= level_weight(n - 1) <= 60,
        ;
    }
}

/// Sixty times the depth-weighted volume of the best five levels.
fn depth_weight(levels: &Vec<(u32, u32)>) -> (w: u64)
    ensures
        w == weighted_depth(levels@),
{
    let n: usize = if levels.len() < 5 {
        levels.len()
    } else {
        5
    };
    let mut w: u64 = 0;
    let mut i: usize = 0;
    while i < n
        invariant
            i <= n <= 5,
            n <= levels.len(),
            w == weighted_depth_upto(levels@, i as int),
        decreases n - i,
    {
        let weight: u64 = if i == 0 {
            60
        } else if i == 1 {
            30
        } else if i == 2 {
            20
        } else if i == 3 {
            15
        } else {
            12
        };
        proof {
            lemma_weighted_depth_bound(levels@, i as int);
            lemma_weighted_depth_bound(levels@, i + 1);
        }
        w = w + levels[i].1 as u64 * weight;
        i += 1;
    }
    w
}

/// Depth-weighted volume of both sides of the book and the band of their
/// ratio. The "Yes" side counts as bids, the "No" side as asks.
pub fn compute_orderbook_imbalance(orderbook: &Orderbook) -> (r: Imbalance)
    ensures
        r.bid_weight == weighted_depth(orderbook.yes@),
        r.ask_weight == weighted_depth(orderbook.no@),
        r.band == imbalance_band(r.bid_weight as int, r.ask_weight as int),
{
    let bid_weight = depth_weight(&orderbook.yes);
    let ask_weight = depth_weight(&orderbook.no);
    proof {
        lemma_weighted_depth_bound(
            orderbook.yes@,
            if orderbook.yes@.len() < 5 {
                orderbook.yes@.len() as int
            } else {
                5
            },
        );
        lemma_weighted_depth_bound(
            orderbook.no@,
            if orderbook.no@.len() < 5 {
                orderbook.no@.len() as int
            } else {
                5
            },
        );
    }
    let band = if ask_weight == 0 {
        if bid_weight > 0 {
            ImbalanceBand::BidHeavy
        } else {
            ImbalanceBand::Balanced
        }
    } else if bid_weight > 2 * ask_weight {
        ImbalanceBand::BidHeavy
    } else if 2 * bid_weight < ask_weight {
        ImbalanceBand::AskHeavy
    } else {
        ImbalanceBand::Balanced
    };
    Imbalance { bid_weight, ask_weight, band }
}

fn points_of_momentum(band: MomentumBand) -> (p: i64)
    ensures
        p == momentum_points(band),
{
    match band {
        MomentumBand::StrongUp => 8,
        MomentumBand::Up => 3,
        MomentumBand::Flat => 0,
        MomentumBand::Down => -3,
        MomentumBand::StrongDown => -8,
    }
}

fn points_of_trend(trend: TrendAlignment) -> (p: i64)
    ensures
        p == trend_points(trend),
{
    match trend {
        TrendAlignment::AllUp => 6,
        TrendAlignment::AllDown => -6,
        TrendAlignment::AllFlat => 0,
        TrendAlignment::Mixed => 0,
    }
}

fn points_of_gap(gap: GapBand) -> (p: i64)
    ensures
        p == gap_points(gap),
{
    match gap {
        GapBand::Above => 3,
        GapBand::Near => 0,
        GapBand::Below => -3,
    }
}

fn points_of_rsi(zone: RsiZone) -> (p: i64)
    ensures
        p == rsi_points(zone),
{
    match zone {
        RsiZone::Overbought => 4,
        RsiZone::Neutral => 0,
        RsiZone::Oversold => -4,
    }
}

fn points_of_imbalance(band: ImbalanceBand) -> (p: i64)
    ensures
        p == imbalance_points(band),
{
    match band {
        ImbalanceBand::BidHeavy => 3,
        ImbalanceBand::Balanced => 0,
        ImbalanceBand::AskHeavy => -3,
    }
}

fn shares_for(win_prob_pct: i64, price_cents: i64, edge: i64) -> (shares: u32)
    requires
        5 <= win_prob_pct <= 95,
        0 <= price_cents <= 0xffff_ffff,
    ensures
        shares == summary_shares(win_prob_pct as int, price_cents as int, edge as int),
        shares <= 3,
{
    if edge < 8 {
        0
    } else if price_cents <= 0 || price_cents >= 100 || win_prob_pct <= price_cents {
        1
    } else {
        let raw = (5 * (win_prob_pct - price_cents) + 2 * (100 - price_cents) - 1) / (2 * (100
            - price_cents));
        if raw < 1 {
            1
        } else if raw > 3 {
            3
        } else {
            raw as u32
        }
    }
}

/// Adds the signals up: the probability of "Yes", the edge of each side
/// against its ask, the side to recommend and its size. Where no side is
/// recommended, the edge reported is the less negative of the two.
pub fn compute_signal_summary(
    inputs: &SignalInputs,
    orderbook: &Orderbook,
    market: &MarketState,
) -> (r: SignalSummary)
    ensures
        r == summary_of(
            *inputs,
            weighted_depth(orderbook.yes@),
            weighted_depth(orderbook.no@),
            market.yes_ask,
            market.no_ask,
        ),
        5 <= r.estimated_probability <= 95,
        r.kelly_shares <= 3,
        r.recommended_side is None ==> r.kelly_shares == 0 && r.estimated_edge <= 0,
        r.recommended_side is Some ==> r.estimated_edge > 0,
{
    let imbalance = compute_orderbook_imbalance(orderbook);
    let sum = 50 + points_of_momentum(inputs.momentum) + points_of_trend(inputs.trend)
        + points_of_gap(inputs.ema_gap) + points_of_rsi(inputs.rsi) + points_of_imbalance(
        imbalance.band,
    );
    let prob: i64 = if sum < 5 {
        5
    } else if sum > 95 {
        95
    } else {
        sum
    };
    let yes_price: i64 = match market.yes_ask {
        Some(a) => a as i64,
        None => 99,
    };
    let no_price: i64 = match market.no_ask {
        Some(a) => a as i64,
        None => 99,
    };
    let yes_edge = prob - yes_price;
    let no_edge = (100 - prob) - no_price;
    let side = if yes_edge >= no_edge && yes_edge > 0 {
        Some(Side::Yes)
    } else if no_edge > 0 {
        Some(Side::No)
    } else {
        None
    };
    let edge = match side {
        Some(Side::Yes) => yes_edge,
        Some(Side::No) => no_edge,
        None => if yes_edge >= no_edge {
            yes_edge
        } else {
            no_edge
        },
    };
    let shares = match side {
        Some(Side::Yes) => shares_for(prob, yes_price, edge),
        Some(Side::No) => shares_for(100 - prob, no_price, edge),
        None => 0,
    };
    SignalSummary {
        trend: inputs.trend,
        rsi: inputs.rsi,
        imbalance,
        recommended_side: side,
        estimated_edge: edge,
        kelly_shares: shares,
        estimated_probability: prob as u32,
    }
}

} // verus!
