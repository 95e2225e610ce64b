//! Risk policy: vetoes on balance, daily loss and losing streak, half-Kelly
//! sizing, and the least edge a trade must have. Probabilities, prices and
//! edges are whole percentage points.

use crate::decimal::{decimal_of, push_decimal, push_signed_decimal, signed_decimal_of};
use crate::text::{extend_str, string_of};
use crate::types::{Config, Stats};
use vstd::prelude::*;

verus! {

/// Why no order may be placed in this cycle.
#[derive(Debug, Clone, Copy, PartialEq, Eq, Structural)]
pub enum RiskVeto {
    /// The balance is below the floor.
    BalanceBelowMinimum { balance_cents: u64, minimum_cents: u64 },
    /// Today's loss has reached the daily limit.
    DailyLossLimit { today_pnl_cents: i64 },
    /// The run of losses has reached the limit.
    LosingStreak { streak: i32 },
}

/// The first check that fails, in this order: balance below the floor;
/// today's profit at or below the negated daily loss limit; streak at or
/// below the negated limit of consecutive losses.
pub open spec fn risk_veto(
    stats: Stats,
    balance_cents: u64,
    min_balance_cents: u64,
    max_daily_loss_cents: i64,
    max_consecutive_losses: u32,
) -> Option<RiskVeto> {
    if balance_cents < min_balance_cents {
        Some(RiskVeto::BalanceBelowMinimum { balance_cents, minimum_cents: min_balance_cents })
    } else if stats.today_pnl_cents <= -max_daily_loss_cents {
        Some(RiskVeto::DailyLossLimit { today_pnl_cents: stats.today_pnl_cents })
    } else if stats.current_streak <= -max_consecutive_losses {
        Some(RiskVeto::LosingStreak { streak: stats.current_streak })
    } else {
        None
    }
}

impl RiskVeto {
    /// The veto in words.
    pub open spec fn text(self) -> Seq<char> {
        match self {
            RiskVeto::BalanceBelowMinimum { balance_cents, minimum_cents } => "Balance "@
                + decimal_of(balance_cents as nat) + "¢ < "@ + decimal_of(minimum_cents as nat)
                + "¢ minimum"@,
            RiskVeto::DailyLossLimit { today_pnl_cents } => "Daily loss: "@ + signed_decimal_of(
                today_pnl_cents as int,
            ) + "¢"@,
            RiskVeto::LosingStreak { streak } => decimal_of(
                (if streak < 0 {
                    -streak
                } else {
                    streak as int
                }) as nat,
            ) + "× consecutive losses"@,
        }
    }

    /// The veto in words.
    pub fn message(&self) -> (r: String)
        ensures
            r@ == self.text(),
    {
        let mut out: Vec<char> = Vec::new();
        match *self {
            RiskVeto::BalanceBelowMinimum { balance_cents, minimum_cents } => {
                extend_str(&mut out, "Balance ");
                push_decimal(&mut out, balance_cents);
                extend_str(&mut out, "¢ < ");
                push_decimal(&mut out, minimum_cents);
                extend_str(&mut out, "¢ minimum");
            },
            RiskVeto::DailyLossLimit { today_pnl_cents } => {
                extend_str(&mut out, "Daily loss: ");
                push_signed_decimal(&mut out, today_pnl_cents);
                extend_str(&mut out, "¢");
            },
            RiskVeto::LosingStreak { streak } => {
                let magnitude: u64 = if streak < 0 {
                    (-(streak as i64)) as u64
                } else {
                    streak as u64
                };
                push_decimal(&mut out, magnitude);
                extend_str(&mut out, "× consecutive losses");
            },
        }
        proof {
            assert(out@ =~= self.text());
        }
        string_of(&out)
    }
}

/// The veto on a new order, if the balance, today's loss or the losing
/// streak calls for one; the first failing check wins.
pub fn assess(stats: &Stats, balance_cents: u64, config: &Config) -> (r: Option<RiskVeto>)
    ensures
        r == risk_veto(
            *stats,
            balance_cents,
            config.min_balance_cents,
            config.max_daily_loss_cents,
            config.max_consecutive_losses,
        ),
{
    if balance_cents < config.min_balance_cents {
        Some(
            RiskVeto::BalanceBelowMinimum {
                balance_cents,
                minimum_cents: config.min_balance_cents,
            },
        )
    } else if stats.today_pnl_cents as i128 <= -(config.max_daily_loss_cents as i128) {
        Some(RiskVeto::DailyLossLimit { today_pnl_cents: stats.today_pnl_cents })
    } else if stats.current_streak as i64 <= -(config.max_consecutive_losses as i64) {
        Some(RiskVeto::LosingStreak { streak: stats.current_streak })
    } else {
        None
    }
}

/// The veto on a new order in words, if there is one.
pub fn check(stats: &Stats, balance_cents: u64, config: &Config) -> (r: Option<String>)
    ensures
        match risk_veto(
            *stats,
            balance_cents,
            config.min_balance_cents,
            config.max_daily_loss_cents,
            config.max_consecutive_losses,
        ) {
            Some(veto) => r matches Some(s) && s@ == veto.text(),
            None => r is None,
        },
{
    match assess(stats, balance_cents, config) {
        Some(veto) => Some(veto.message()),
        None => None,
    }
}

/// Whether a win probability and a price admit a bet: both lie strictly
/// between 0 and 100.
pub open spec fn kelly_inputs_valid(win_prob_pct: int, price_cents: int) -> bool {
    0 < win_prob_pct < 100 && 0 < price_cents < 100
}

/// Numerator of the Kelly fraction `f = (p b - (1 - p)) / b`, for the win
/// probability `p = win_prob_pct / 100` and the payout ratio
/// `b = (100 - price) / price`, over the denominator [`kelly_denominator`].
pub open spec fn kelly_numerator(win_prob_pct: int, price_cents: int) -> int {
    win_prob_pct * (100 - price_cents) - (100 - win_prob_pct) * price_cents
}

/// Denominator of the Kelly fraction.
pub open spec fn kelly_denominator(price_cents: int) -> int {
    100 * (100 - price_cents)
}

/// The least whole number that is at least `a / b`, for `b` positive.
pub open spec fn ceil_div(a: int, b: int) -> int {
    (a + b - 1) / b
}

/// `v` held between `low` and `high`.
pub open spec fn clamp(v: int, low: int, high: int) -> int {
    if v < low {
        low
    } else if v > high {
        high
    } else {
        v
    }
}

/// Half the Kelly fraction scaled to five shares, rounded up.
pub open spec fn half_kelly_shares(win_prob_pct: int, price_cents: int) -> int {
    ceil_div(5 * kelly_numerator(win_prob_pct, price_cents), 2 * kelly_denominator(price_cents))
}

/// The shares to buy: none on invalid inputs or where the Kelly fraction is
/// not positive; else half the fraction scaled to five shares, rounded up
/// and held between one and the lesser of `max_shares` and three. That
/// lesser bound wins where it is below one: with no share allowed, none is
/// bought.
pub open spec fn kelly_shares_of(win_prob_pct: int, price_cents: int, max_shares: int) -> int {
    if !kelly_inputs_valid(win_prob_pct, price_cents) || kelly_numerator(win_prob_pct, price_cents)
        <= 0 {
        0
    } else {
        clamp(
            half_kelly_shares(win_prob_pct, price_cents),
            1,
            if max_shares < 3 {
                max_shares
            } else {
                3
            },
        )
    }
}

/// The Kelly fraction is the edge over the price, `win_prob_pct - price`,
/// divided by what the price leaves of a dollar.
pub proof fn lemma_kelly_fraction(win_prob_pct: int, price_cents: int)
    ensures
        kelly_numerator(win_prob_pct, price_cents) == 100 * (win_prob_pct - price_cents),
{
    assert(win_prob_pct * (100 - price_cents) - (100 - win_prob_pct) * price_cents == 100 * (
    win_prob_pct - price_cents)) by (nonlinear_arith);
}

/// No shares on a probability of 0 or 1 or a price of 0 or 100; with valid
/// inputs and a positive Kelly fraction, between one and three shares.
pub proof fn lemma_kelly_shares_range(win_prob_pct: int, price_cents: int, max_shares: int)
    requires
        max_shares >= 0,
    ensures
        win_prob_pct == 0 || win_prob_pct == 100 || price_cents == 0 || price_cents == 100
            ==> kelly_shares_of(win_prob_pct, price_cents, max_shares) == 0,
        max_shares >= 1 && kelly_inputs_valid(win_prob_pct, price_cents) && kelly_numerator(
            win_prob_pct,
            price_cents,
        ) > 0 ==> 1 <= kelly_shares_of(win_prob_pct, price_cents, max_shares) <= 3,
        0 <= kelly_shares_of(win_prob_pct, price_cents, max_shares) <= 3,
        kelly_shares_of(win_prob_pct, price_cents, max_shares) <= max_shares,
{
    if kelly_inputs_valid(win_prob_pct, price_cents) && kelly_numerator(win_prob_pct, price_cents)
        > 0 {
        let n = 5 * kelly_numerator(win_prob_pct, price_cents);
        let d = 2 * kelly_denominator(price_cents);
        assert(half_kelly_shares(win_prob_pct, price_cents) >= 1) by (nonlinear_arith)
            requires
                n > 0,
                d > 0,
                half_kelly_shares(win_prob_pct, price_cents) == (n + d - 1) / d,
        ;
    }
}

/// Half-Kelly position size for a win probability in percent and a price in
/// cents.
pub fn kelly_shares(win_prob_pct: u32, price_cents: u32, max_shares: u32) -> (shares: u32)
    ensures
        shares == kelly_shares_of(win_prob_pct as int, price_cents as int, max_shares as int),
        win_prob_pct == 0 || win_prob_pct == 100 || price_cents == 0 || price_cents == 100
            ==> shares == 0,
        max_shares >= 1 && kelly_inputs_valid(win_prob_pct as int, price_cents as int)
            && kelly_numerator(win_prob_pct as int, price_cents as int) > 0 ==> 1 <= shares <= 3,
        shares <= max_shares,
{
    proof {
        lemma_kelly_shares_range(win_prob_pct as int, price_cents as int, max_shares as int);
    }
    if win_prob_pct == 0 || win_prob_pct >= 100 || price_cents == 0 || price_cents >= 100 {
        return 0;
    }
    let p = win_prob_pct as i64;
    let c = price_cents as i64;
    assert(-10000 <= p * (100 - c) <= 10000 && -10000 <= (100 - p) * c <= 10000)
        by (nonlinear_arith)
        requires
            0 < p < 100,
            0 < c < 100,
    ;
    let numerator = p * (100 - c) - (100 - p) * c;
    if numerator <= 0 {
        return 0;
    }
    let denominator = 100 * (100 - c);
    let raw = (5 * numerator + 2 * denominator - 1) / (2 * denominator);
    let top: i64 = if max_shares < 3 {
        max_shares as i64
    } else {
        3
    };
    let held = if raw < 1 {
        1
    } else if raw > top {
        top
    } else {
        raw
    };
    held as u32
}

/// Why a trade lacks the edge to be placed.
#[derive(Debug, Clone, Copy, PartialEq, Eq, Structural)]
pub enum EdgeVeto {
    /// No probability was estimated.
    NoProbability,
    /// The estimated probability is outside 1 to 99.
    ProbabilityOutOfRange { probability: i64 },
    /// The edge is below the least edge that the streak asks for.
    EdgeTooSmall { edge: i64, min_edge: i64, streak: i32, probability: i64, price_cents: u32 },
    /// The price is above 50 cents.
    PriceTooHigh { price_cents: u32 },
}

/// The least edge, in points: 12 on a streak of three losses or worse, else 8.
pub open spec fn min_edge(current_streak: i32) -> int {
    if current_streak <= -3 {
        12
    } else {
        8
    }
}

/// The edge of a trade: the estimate where there is one, else the distance
/// between probability and price.
pub open spec fn edge_of(probability: i64, estimated_edge: Option<i64>, price_cents: u32) -> int {
    match estimated_edge {
        Some(e) => e as int,
        None => if probability >= price_cents {
            probability - price_cents
        } else {
            price_cents - probability
        },
    }
}

/// The first condition that a trade violates: a probability must be given
/// and lie in 1 to 99; the edge must reach the least edge; the price must
/// not exceed 50 cents.
pub open spec fn edge_veto(
    estimated_probability: Option<i64>,
    estimated_edge: Option<i64>,
    price_cents: u32,
    current_streak: i32,
) -> Option<EdgeVeto> {
    match estimated_probability {
        None => Some(EdgeVeto::NoProbability),
        Some(probability) => if probability < 1 || probability > 99 {
            Some(EdgeVeto::ProbabilityOutOfRange { probability })
        } else if edge_of(probability, estimated_edge, price_cents) < min_edge(current_streak) {
            Some(
                EdgeVeto::EdgeTooSmall {
                    edge: edge_of(probability, estimated_edge, price_cents) as i64,
                    min_edge: min_edge(current_streak) as i64,
                    streak: current_streak,
                    probability,
                    price_cents,
                },
            )
        } else if price_cents > 50 {
            Some(EdgeVeto::PriceTooHigh { price_cents })
        } else {
            None
        },
    }
}

impl EdgeVeto {
    /// The veto in words.
    pub open spec fn text(self) -> Seq<char> {
        match self {
            EdgeVeto::NoProbability => "No estimated_probability provided — blocking trade"@,
            EdgeVeto::ProbabilityOutOfRange { probability } => "Probability "@ + signed_decimal_of(
                probability as int,
            ) + " out of valid range [1,99]"@,
            EdgeVeto::EdgeTooSmall { edge, min_edge, streak, probability, price_cents } => "Edge "@
                + signed_decimal_of(edge as int) + "pt < "@ + signed_decimal_of(min_edge as int)
                + "pt minimum (streak="@ + signed_decimal_of(streak as int) + ", prob="@
                + signed_decimal_of(probability as int) + ", price="@ + decimal_of(
                price_cents as nat,
            ) + "¢)"@,
            EdgeVeto::PriceTooHigh { price_cents } => "Price "@ + decimal_of(price_cents as nat)
                + "¢ > 50¢ max"@,
        }
    }

    /// The veto in words.
    pub fn message(&self) -> (r: String)
        ensures
            r@ == self.text(),
    {
        let mut out: Vec<char> = Vec::new();
        match *self {
            EdgeVeto::NoProbability => {
                extend_str(&mut out, "No estimated_probability provided — blocking trade");
            },
            EdgeVeto::ProbabilityOutOfRange { probability } => {
                extend_str(&mut out, "Probability ");
                push_signed_decimal(&mut out, probability);
                extend_str(&mut out, " out of valid range [1,99]");
            },
            EdgeVeto::EdgeTooSmall { edge, min_edge, streak, probability, price_cents } => {
                extend_str(&mut out, "Edge ");
                push_signed_decimal(&mut out, edge);
                extend_str(&mut out, "pt < ");
                push_signed_decimal(&mut out, min_edge);
                extend_str(&mut out, "pt minimum (streak=");
                push_signed_decimal(&mut out, streak as i64);
                extend_str(&mut out, ", prob=");
                push_signed_decimal(&mut out, probability);
                extend_str(&mut out, ", price=");
                push_decimal(&mut out, price_cents as u64);
                extend_str(&mut out, "¢)");
            },
            EdgeVeto::PriceTooHigh { price_cents } => {
                extend_str(&mut out, "Price ");
                push_decimal(&mut out, price_cents as u64);
                extend_str(&mut out, "¢ > 50¢ max");
            },
        }
        proof {
            assert(out@ =~= self.text());
        }
        string_of(&out)
    }
}

/// The veto on a trade, if it lacks the edge to be placed: the first
/// condition that it violates.
pub fn assess_edge(
    estimated_probability: Option<i64>,
    estimated_edge: Option<i64>,
    price_cents: u32,
    current_streak: i32,
) -> (r: Option<EdgeVeto>)
    ensures
        r == edge_veto(estimated_probability, estimated_edge, price_cents, current_streak),
        estimated_probability is None ==> r is Some,
        estimated_probability matches Some(p) && (p < 1 || p > 99) ==> r is Some,
{
    let probability = match estimated_probability {
        Some(p) => p,
        None => {
            return Some(EdgeVeto::NoProbability);
        },
    };
    if probability < 1 || probability > 99 {
        return Some(EdgeVeto::ProbabilityOutOfRange { probability });
    }
    let price = price_cents as i64;
    let edge = match estimated_edge {
        Some(e) => e,
        None => if probability >= price {
            probability - price
        } else {
            price - probability
        },
    };
    let least: i64 = if current_streak <= -3 {
        12
    } else {
        8
    };
    if edge < least {
        return Some(
            EdgeVeto::EdgeTooSmall {
                edge,
                min_edge: least,
                streak: current_streak,
                probability,
                price_cents,
            },
        );
    }
    if price_cents > 50 {
        return Some(EdgeVeto::PriceTooHigh { price_cents });
    }
    None
}

/// Checks that a trade has the edge to be placed: nothing if it has, else
/// the veto in words. A missing probability and one outside 1 to 99 are
/// vetoed outright.
pub fn validate_edge(
    estimated_probability: Option<i64>,
    estimated_edge: Option<i64>,
    price_cents: u32,
    current_streak: i32,
) -> (r: Option<String>)
    ensures
        match edge_veto(estimated_probability, estimated_edge, price_cents, current_streak) {
            Some(veto) => r matches Some(s) && s@ == veto.text(),
            None => r is None,
        },
        estimated_probability is None ==> r is Some,
        estimated_probability matches Some(p) && (p < 1 || p > 99) ==> r is Some,
{
    match assess_edge(estimated_probability, estimated_edge, price_cents, current_streak) {
        Some(veto) => Some(veto.message()),
        None => None,
    }
}

} // verus!
