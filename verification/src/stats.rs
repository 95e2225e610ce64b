//! Figures derived from the rows of the ledger. They are never stored as
//! the truth: every cycle computes them anew.

use crate::text::{chars_of, has_prefix, starts_with_chars};
use crate::types::{row_views, LedgerRow, LedgerRowView, Stats};
use vstd::prelude::*;

verus! {

/// Whether a row records a trade that ran to its end: it is neither waiting
/// for its outcome, nor cancelled, nor given up as unknown.
pub open spec fn is_closed(row: LedgerRowView) -> bool {
    row.result != "pending"@ && row.result != "cancelled"@ && row.result != "unknown"@
}

/// Whether a row was written on the day `today`, a date as the timestamps
/// begin with it.
pub open spec fn is_today(row: LedgerRowView, today: Seq<char>) -> bool {
    has_prefix(row.timestamp, today)
}

/// The figures as mathematical integers.
pub struct Tally {
    pub trades: int,
    pub wins: int,
    pub losses: int,
    pub total: int,
    pub today: int,
    pub streak: int,
    pub peak: int,
    pub drawdown: int,
    pub win_sum: int,
    pub loss_sum: int,
}

/// The figures of an empty ledger.
pub open spec fn empty_tally() -> Tally {
    Tally {
        trades: 0,
        wins: 0,
        losses: 0,
        total: 0,
        today: 0,
        streak: 0,
        peak: 0,
        drawdown: 0,
        win_sum: 0,
        loss_sum: 0,
    }
}

/// The figures after one more row. Only a closed row counts. It is a win
/// where its profit is positive, a loss otherwise. The streak counts the
/// wins (positive) or losses (negative) in a row at the end. The drawdown is
/// the largest fall of the total below an earlier peak.
pub open spec fn tally_step(t: Tally, row: LedgerRowView, today: Seq<char>) -> Tally {
    if !is_closed(row) {
        t
    } else {
        let pnl = row.pnl_cents as int;
        let won = pnl > 0;
        let total = t.total + pnl;
        let peak = if total > t.peak {
            total
        } else {
            t.peak
        };
        Tally {
            trades: t.trades + 1,
            wins: if won {
                t.wins + 1
            } else {
                t.wins
            },
            losses: if won {
                t.losses
            } else {
                t.losses + 1
            },
            total,
            today: if is_today(row, today) {
                t.today + pnl
            } else {
                t.today
            },
            streak: if won {
                if t.streak > 0 {
                    t.streak + 1
                } else {
                    1
                }
            } else {
                if t.streak < 0 {
                    t.streak - 1
                } else {
                    -1
                }
            },
            peak,
            drawdown: if peak - total > t.drawdown {
                peak - total
            } else {
                t.drawdown
            },
            win_sum: if won {
                t.win_sum + pnl
            } else {
                t.win_sum
            },
            loss_sum: if won {
                t.loss_sum
            } else {
                t.loss_sum + pnl
            },
        }
    }
}

/// The figures of a ledger.
pub open spec fn tally(rows: Seq<LedgerRowView>, today: Seq<char>) -> Tally
    decreases rows.len(),
{
    if rows.len() == 0 {
        empty_tally()
    } else {
        tally_step(tally(rows.drop_last(), today), rows.last(), today)
    }
}

/// `v`, or the nearest number that fits in 64 bits.
pub open spec fn clamp_i64(v: int) -> i64 {
    if v < i64::MIN {
        i64::MIN
    } else if v > i64::MAX {
        i64::MAX
    } else {
        v as i64
    }
}

/// `v`, or the nearest number that fits in 32 bits.
pub open spec fn clamp_i32(v: int) -> i32 {
    if v < i32::MIN {
        i32::MIN
    } else if v > i32::MAX {
        i32::MAX
    } else {
        v as i32
    }
}

/// `v`, or the nearest number that fits in 32 bits without a sign.
pub open spec fn clamp_u32(v: int) -> u32 {
    if v < 0 {
        0
    } else if v > u32::MAX {
        u32::MAX
    } else {
        v as u32
    }
}

/// The figures in machine numbers, each the nearest that its type holds.
pub open spec fn stats_of(t: Tally) -> Stats {
    Stats {
        total_trades: clamp_u32(t.trades),
        wins: clamp_u32(t.wins),
        losses: clamp_u32(t.losses),
        total_pnl_cents: clamp_i64(t.total),
        today_pnl_cents: clamp_i64(t.today),
        current_streak: clamp_i32(t.streak),
        max_drawdown_cents: clamp_i64(t.drawdown),
        win_sum_cents: clamp_i64(t.win_sum),
        loss_sum_cents: clamp_i64(t.loss_sum),
    }
}

/// How the figures of a ledger hang together: every trade is a win or a
/// loss, the total is what the wins gained less what the losses cost, the
/// streak is no longer than the ledger, and the drawdown is at least the
/// present fall below the peak.
pub proof fn lemma_tally_facts(rows: Seq<LedgerRowView>, today: Seq<char>)
    ensures
        ({
            let t = tally(rows, today);
            &&& 0 <= t.trades <= rows.len()
            &&& 0 <= t.wins && 0 <= t.losses && t.trades == t.wins + t.losses
            &&& t.total == t.win_sum + t.loss_sum
            &&& t.win_sum >= 0 && t.loss_sum <= 0
            &&& -t.losses <= t.streak <= t.wins
            &&& (t.streak == 0 <==> t.trades == 0)
            &&& t.peak >= t.total && t.peak >= 0
            &&& t.drawdown >= t.peak - t.total
        }),
    decreases rows.len(),
{
    if rows.len() > 0 {
        lemma_tally_facts(rows.drop_last(), today);
    }
}

/// The sums stay within what the number of rows allows.
proof fn lemma_tally_bounds(rows: Seq<LedgerRowView>, today: Seq<char>)
    ensures
        ({
            let t = tally(rows, today);
            let bound = rows.len() * 0x8000_0000_0000_0000;
            &&& -bound <= t.total <= bound
            &&& -bound <= t.today <= bound
            &&& -bound <= t.win_sum <= bound
            &&& -bound <= t.loss_sum <= bound
            &&& -bound <= t.peak <= bound
            &&& 0 <= t.peak - t.total <= bound
            &&& 0 <= t.drawdown <= bound
            &&& -rows.len() <= t.streak <= rows.len()
            &&& 0 <= t.wins <= rows.len()
            &&& 0 <= t.losses <= rows.len()
            &&& 0 <= t.trades <= rows.len()
        }),
    decreases rows.len(),
{
    if rows.len() > 0 {
        lemma_tally_bounds(rows.drop_last(), today);
    }
}

/// The running figures in machine numbers wide enough for any ledger.
struct Running {
    trades: usize,
    wins: usize,
    losses: usize,
    total: i128,
    today: i128,
    streak: i128,
    peak: i128,
    drawdown: i128,
    win_sum: i128,
    loss_sum: i128,
}

impl Running {
    spec fn model(self) -> Tally {
        Tally {
            trades: self.trades as int,
            wins: self.wins as int,
            losses: self.losses as int,
            total: self.total as int,
            today: self.today as int,
            streak: self.streak as int,
            peak: self.peak as int,
            drawdown: self.drawdown as int,
            win_sum: self.win_sum as int,
            loss_sum: self.loss_sum as int,
        }
    }
}

fn to_i64(v: i128) -> (r: i64)
    ensures
        r == clamp_i64(v as int),
{
    if v < i64::MIN as i128 {
        i64::MIN
    } else if v > i64::MAX as i128 {
        i64::MAX
    } else {
        v as i64
    }
}

fn to_i32(v: i128) -> (r: i32)
    ensures
        r == clamp_i32(v as int),
{
    if v < i32::MIN as i128 {
        i32::MIN
    } else if v > i32::MAX as i128 {
        i32::MAX
    } else {
        v as i32
    }
}

fn to_u32(v: usize) -> (r: u32)
    ensures
        r == clamp_u32(v as int),
{
    if v > u32::MAX as usize {
        u32::MAX
    } else {
        v as u32
    }
}

/// Whether the row counts as a closed trade.
fn row_is_closed(row: &LedgerRow) -> (b: bool)
    ensures
        b == is_closed(row@),
{
    let pending = "pending".to_owned();
    let cancelled = "cancelled".to_owned();
    let unknown = "unknown".to_owned();
    !(row.result == pending) && !(row.result == cancelled) && !(row.result == unknown)
}

/// The figures of the ledger `rows`; `today` is the date of the present day
/// as the timestamps begin with it. A figure that its type cannot hold is
/// replaced by the nearest that it can.
pub fn compute(rows: &Vec<LedgerRow>, today: &str) -> (stats: Stats)
    ensures
        stats == stats_of(tally(row_views(rows@), today@)),
{
    let day = chars_of(today);
    let ghost all = row_views(rows@);
    let mut run = Running {
        trades: 0,
        wins: 0,
        losses: 0,
        total: 0,
        today: 0,
        streak: 0,
        peak: 0,
        drawdown: 0,
        win_sum: 0,
        loss_sum: 0,
    };
    let mut i: usize = 0;
    proof {
        assert(all.take(0) =~= Seq::<LedgerRowView>::empty());
    }
    while i < rows.len()
        invariant
            i <= rows.len(),
            all == row_views(rows@),
            day@ == today@,
            run.model() == tally(all.take(i as int), today@),
        decreases rows.len() - i,
    {
        let row = &rows[i];
        proof {
            let next = all.take(i + 1);
            assert(next.drop_last() =~= all.take(i as int));
            assert(next.last() == row@);
            lemma_tally_bounds(all.take(i as int), today@);
            lemma_tally_bounds(next, today@);
            assert(all.take(i as int).len() == i);
            assert(next.len() == i + 1);
        }
        if row_is_closed(row) {
            let pnl = row.pnl_cents as i128;
            let won = row.pnl_cents > 0;
            let stamp = chars_of(row.timestamp.as_str());
            let total = run.total + pnl;
            let peak = if total > run.peak {
                total
            } else {
                run.peak
            };
            run = Running {
                trades: run.trades + 1,
                wins: if won {
                    run.wins + 1
                } else {
                    run.wins
                },
                losses: if won {
                    run.losses
                } else {
                    run.losses + 1
                },
                total,
                today: if starts_with_chars(&stamp, &day) {
                    run.today + pnl
                } else {
                    run.today
                },
                streak: if won {
                    if run.streak > 0 {
                        run.streak + 1
                    } else {
                        1
                    }
                } else {
                    if run.streak < 0 {
                        run.streak - 1
                    } else {
                        -1
                    }
                },
                peak,
                drawdown: if peak - total > run.drawdown {
                    peak - total
                } else {
                    run.drawdown
                },
                win_sum: if won {
                    run.win_sum + pnl
                } else {
                    run.win_sum
                },
                loss_sum: if won {
                    run.loss_sum
                } else {
                    run.loss_sum + pnl
                },
            };
        }
        i += 1;
    }
    proof {
        assert(all.take(rows.len() as int) =~= all);
    }
    Stats {
        total_trades: to_u32(run.trades),
        wins: to_u32(run.wins),
        losses: to_u32(run.losses),
        total_pnl_cents: to_i64(run.total),
        today_pnl_cents: to_i64(run.today),
        current_streak: to_i32(run.streak),
        max_drawdown_cents: to_i64(run.drawdown),
        win_sum_cents: to_i64(run.win_sum),
        loss_sum_cents: to_i64(run.loss_sum),
    }
}

} // verus!
