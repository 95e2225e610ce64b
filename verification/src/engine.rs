//! One entry cycle as a protocol of strict order: cancel stale orders,
//! reconcile the pending row, pass the risk gate, choose a market, fetch its
//! order book and, if it can be had, a price snapshot, obtain a decision,
//! check exposure once more, place the order and record it.
//!
//! The cycle decides; it performs nothing. Each step takes the outcome of
//! the last action and names the next one. Whoever drives the cycle performs
//! the action and comes back with the event. Any failure ends the cycle; the
//! next tick starts a new one from the beginning.

use crate::clock::{
    date_of, date_prefix, is_stale, pending_is_stale, rfc3339_millis, timestamp_millis, Clock,
};
use crate::config::{asset_of, series_to_asset_label, series_to_binance_symbol};
use crate::cumulative::{carried, chained};
use crate::decimal::{push_signed_decimal, signed_decimal_of};
use crate::ledger::{
    abandon_last_trade, abandoned_content, any_pending, appended_text, cancel_trade,
    cancelled_content, is_corrupt, is_field, is_writable, is_writable_text, needs_backup,
    parse_ledger, parse_ledger_content, row_is_writable, settle_last_trade, settled_content,
};
use crate::ledger_laws::{
    last_wanted_row, lemma_abandonment_rows, lemma_engine_words, lemma_pending_row_keeps_chain,
    lemma_unprofitable_rows, unprofitable_rows,
};
use crate::position_manager::PositionManager;
use crate::risk::{assess, risk_veto, RiskVeto};
use crate::stats::{compute, stats_of, tally};
use crate::text::{chars_of, extend_str, has_prefix, string_of};
use crate::types::{
    row_views, Action, Config, LedgerRow, LedgerRowView, MarketState, OrderRequest, OrderResult,
    Orderbook, Position, RestingOrder, Settlement, Side, Stats, TradeDecision,
};
use vstd::prelude::*;

verus! {

/// What the cycle waits for.
#[derive(Debug, Clone, Copy, PartialEq, Eq, Structural)]
pub enum Phase {
    /// The list of resting orders.
    AwaitResting,
    /// The exchange's word that the first order of the queue is cancelled.
    AwaitCancel,
    /// The ledger text, to mark that order as cancelled.
    AwaitCancelLedger,
    /// The ledger being stored with that order marked.
    AwaitCancelStored,
    /// The ledger text.
    AwaitLedger,
    /// The backup copy, the ledger text being damaged.
    AwaitBackup,
    /// The settlements of the pending row's market.
    AwaitSettlements,
    /// The ledger being stored with the pending row closed.
    AwaitSettleStored,
    /// The figures being stored.
    AwaitStatsStored,
    /// The balance.
    AwaitBalance,
    /// The market to trade.
    AwaitMarket,
    /// The order book of that market.
    AwaitOrderbook,
    /// Word of whether a price snapshot could be had.
    AwaitSnapshot,
    /// The strategy text.
    AwaitPrompt,
    /// The decision of the reasoning service.
    AwaitDecision,
    /// The positions that the exchange reports.
    AwaitPositions,
    /// The exchange's answer to the order.
    AwaitPlaced,
    /// The ledger being given the order's row.
    AwaitAppend,
    /// Nothing: the cycle is over.
    Done,
}

/// Why the ledger is being read.
#[derive(Debug, Clone, Copy, PartialEq, Eq, Structural)]
pub enum LoadMode {
    /// To look for a pending row.
    First,
    /// Again, after a settlement was written to it.
    AfterSettlement,
    /// Again, after a pending row was given up.
    AfterAbandon,
}

/// What failed.
#[derive(Debug, Clone, Copy, PartialEq, Eq, Structural)]
pub enum CycleError {
    /// A call to the exchange.
    Exchange,
    /// Reading or writing a file.
    Storage,
    /// The call to the reasoning service.
    Brain,
    /// An amount of the ledger does not fit in 64 bits, or a row cannot be
    /// written so that it is read back as it is.
    Ledger,
    /// An event that the cycle was not waiting for.
    Unexpected,
}

/// How a cycle ended.
#[derive(Debug, Clone)]
pub enum CycleOutcome {
    /// A position of the series is open: no entry.
    HoldingPosition,
    /// The risk gate closed.
    RiskVeto { veto: RiskVeto },
    /// The series has no open market that expires in the future.
    NoActiveMarket,
    /// The market expires sooner than the configured floor.
    TooCloseToExpiry { seconds_to_expiry: i64 },
    /// The reasoning service passed.
    Pass { reasoning: String },
    /// The exchange reports exposure on the chosen market.
    AlreadyExposed,
    /// The order was placed (or, on paper, made up) and recorded.
    Ordered { order_id: String },
    /// The order was placed for real and could not be recorded: a position
    /// that the ledger does not know. Not to be retried.
    Untracked { order_id: String },
    /// The cycle failed and is retried as a whole at the next tick.
    Aborted { error: CycleError },
    /// There is no position to close, or no order book to price it with.
    NothingToExit,
    /// The position was closed; `recorded` says whether the ledger holds it.
    Exited { recorded: bool },
}

/// What the reasoning service is asked with. The price snapshot itself,
/// where there is one, is with whoever fetched it.
#[derive(Debug, Clone)]
pub struct DecisionRequest {
    /// The strategy text.
    pub prompt_md: String,
    pub stats: Stats,
    /// The last rows of the ledger, at most twenty, newest first.
    pub last_trades: Vec<LedgerRow>,
    pub market: MarketState,
    pub orderbook: Orderbook,
    /// Whether a price snapshot could be had in this cycle.
    pub has_price_snapshot: bool,
    /// The name under which the price is shown.
    pub crypto_label: String,
}

/// What came of the last action.
#[derive(Debug, Clone)]
pub enum CycleEvent {
    RestingOrders { orders: Vec<RestingOrder> },
    Cancelled,
    Ledger { text: String },
    Backup { text: String },
    Stored,
    Settlements { settlements: Vec<Settlement> },
    Balance { cents: u64 },
    ActiveMarket { market: Option<MarketState> },
    Orderbook { orderbook: Orderbook },
    /// The price snapshot was fetched, or could not be had.
    PriceSnapshot { available: bool },
    Prompt { text: String },
    Decision { decision: TradeDecision },
    Positions { positions: Vec<Position> },
    Placed { result: OrderResult },
    ExchangeFailed,
    StorageFailed,
    BrainFailed,
}

/// What is to be done next.
#[derive(Debug, Clone)]
pub enum CycleAction {
    ListRestingOrders,
    CancelOrder { order_id: String },
    /// Read the ledger text.
    LoadLedger,
    /// Read the backup copy of the ledger.
    LoadBackup,
    /// Copy the ledger to its backup, then replace its text.
    StoreLedger { content: String },
    QuerySettlements { ticker: String },
    StoreStats { stats: Stats },
    FetchBalance,
    FetchActiveMarket { series: String },
    FetchOrderbook { ticker: String },
    /// Fetch the candles and the spot price of `symbol`; a failure is
    /// reported as a snapshot that could not be had, not retried.
    FetchPriceSnapshot { symbol: String },
    /// Read the strategy text.
    LoadPrompt,
    /// Ask the reasoning service.
    Decide { request: DecisionRequest },
    FetchPositions,
    PlaceOrder { order: OrderRequest },
    /// Sell a position.
    SellOrder { order: OrderRequest },
    /// Copy the ledger to its backup, then add the row at its end, on a
    /// line of its own.
    AppendLedger { row: LedgerRow },
    /// Nothing more: the cycle is over.
    Finish { outcome: CycleOutcome },
}

/// The state of an entry cycle between two steps.
#[derive(Debug, Clone)]
pub struct EntryCycle {
    pub phase: Phase,
    pub mode: LoadMode,
    /// Whether the order is made up (paper trading) rather than placed.
    pub paper: bool,
    pub series: String,
    /// Resting orders not yet cancelled and marked.
    pub queue: Vec<RestingOrder>,
    /// The ledger text as last read.
    pub ledger: String,
    /// The rows last read.
    pub rows: Vec<LedgerRow>,
    /// The figures of those rows.
    pub stats: Stats,
    /// The market chosen, until it is handed to the reasoning service.
    pub market: Option<MarketState>,
    /// The order book of that market, until it is handed on likewise.
    pub orderbook: Option<Orderbook>,
    /// Whether a price snapshot could be had.
    pub has_snapshot: bool,
    /// The ticker of the market chosen.
    pub ticker: String,
    pub side: Side,
    pub shares: u32,
    pub price_cents: u32,
    pub order_id: String,
}

/// The place of the last row that is pending: the row that a settlement
/// or a giving-up rewrites.
pub open spec fn last_pending_row(rows: Seq<LedgerRowView>) -> Option<int> {
    last_wanted_row(rows, any_pending())
}

/// The last `n` rows, newest first.
pub open spec fn recent(rows: Seq<LedgerRowView>, n: nat) -> Seq<LedgerRowView> {
    Seq::new(
        if rows.len() < n {
            rows.len()
        } else {
            n
        },
        |i: int| rows[rows.len() - 1 - i],
    )
}

/// Whether the exchange reports exposure on `ticker`.
pub open spec fn exposed(positions: Seq<Position>, ticker: Seq<char>) -> bool {
    exists|i: int| 0 <= i < positions.len() && (#[trigger] positions[i]).ticker@ == ticker
}

/// The shares to order: what the decision asks for, one where it is silent,
/// at most the configured maximum.
pub open spec fn clamped_shares(shares: Option<u32>, max_shares: u32) -> u32 {
    let asked = match shares {
        Some(s) => s,
        None => 1,
    };
    if asked < max_shares {
        asked
    } else {
        max_shares
    }
}

/// The limit price: what the decision asks for, 50 cents where it is
/// silent, held between 1 and 99 cents.
pub open spec fn clamped_price(price: Option<u32>) -> u32 {
    let asked = match price {
        Some(p) => p,
        None => 50,
    };
    if asked < 1 {
        1
    } else if asked > 99 {
        99
    } else {
        asked
    }
}

/// The side to order: "Yes" where the decision is silent.
pub open spec fn chosen_side(side: Option<Side>) -> Side {
    match side {
        Some(s) => s,
        None => Side::Yes,
    }
}

/// The symbol under which the price feed quotes the asset of a series.
pub open spec fn price_symbol(series: Seq<char>) -> Seq<char> {
    asset_of(series) + "USDT"@
}

/// The name under which the price of a series' asset is shown.
pub open spec fn price_label(series: Seq<char>) -> Seq<char> {
    asset_of(series) + " (Binance "@ + price_symbol(series) + ")"@
}

/// The order id that stands for a paper order made up at `millis`.
pub open spec fn paper_id(millis: i64) -> Seq<char> {
    "paper-"@ + signed_decimal_of(millis as int)
}

/// The row that records the cycle's order as pending: no profit yet, and
/// the total so far as its cumulative profit.
pub open spec fn pending_row(c: EntryCycle, now: Clock, order_id: Seq<char>) -> LedgerRowView {
    LedgerRowView {
        timestamp: now.text@,
        ticker: c.ticker@,
        side: c.side.word(),
        shares: c.shares,
        price: c.price_cents,
        result: "pending"@,
        pnl_cents: 0,
        cumulative_cents: c.stats.total_pnl_cents,
        order_id,
    }
}

/// The cycle is over with `outcome`; nothing else changes.
pub open spec fn ends(
    old: EntryCycle,
    new: EntryCycle,
    action: CycleAction,
    outcome: CycleOutcome,
) -> bool {
    new == (EntryCycle { phase: Phase::Done, ..old }) && action == (CycleAction::Finish { outcome })
}

/// The cycle is over with an error; nothing else changes.
pub open spec fn aborts(
    old: EntryCycle,
    new: EntryCycle,
    action: CycleAction,
    error: CycleError,
) -> bool {
    ends(old, new, action, CycleOutcome::Aborted { error })
}

/// With the queue `queue` of orders still to cancel: cancel its first
/// order, or, the queue being empty, go on to read the ledger.
pub open spec fn cancels_next(
    old: EntryCycle,
    queue: Seq<RestingOrder>,
    new: EntryCycle,
    action: CycleAction,
) -> bool {
    &&& new.queue@ == queue
    &&& if queue.len() == 0 {
        &&& new == (EntryCycle {
            phase: Phase::AwaitLedger,
            mode: LoadMode::First,
            queue: new.queue,
            ..old
        })
        &&& action == CycleAction::LoadLedger
    } else {
        &&& new == (EntryCycle { phase: Phase::AwaitCancel, queue: new.queue, ..old })
        &&& action matches CycleAction::CancelOrder { order_id }
        &&& order_id@ == queue[0].order_id@
    }
}

/// The rows `rows` having been read at `now`: their figures are taken. On
/// the first reading the settlements of the last pending row's market are
/// asked for, or the balance where no row is pending. After a settlement the
/// figures are stored. After a row was given up the balance is asked for.
pub open spec fn reads_rows(
    old: EntryCycle,
    rows: Seq<LedgerRowView>,
    now: Clock,
    new: EntryCycle,
    action: CycleAction,
) -> bool {
    &&& row_views(new.rows@) == rows
    &&& new.stats == stats_of(tally(rows, date_of(now.text@)))
    &&& new == (EntryCycle { phase: new.phase, rows: new.rows, stats: new.stats, ..old })
    &&& match old.mode {
        LoadMode::First => match last_pending_row(rows) {
            Some(k) => {
                &&& new.phase == Phase::AwaitSettlements
                &&& action matches CycleAction::QuerySettlements { ticker }
                &&& ticker@ == rows[k].ticker
            },
            None => new.phase == Phase::AwaitBalance && action == CycleAction::FetchBalance,
        },
        LoadMode::AfterSettlement => {
            &&& new.phase == Phase::AwaitStatsStored
            &&& action == (CycleAction::StoreStats { stats: new.stats })
        },
        LoadMode::AfterAbandon => new.phase == Phase::AwaitBalance && action
            == CycleAction::FetchBalance,
    }
}

/// The ledger is stored with new content, and read again in `mode`.
pub open spec fn stores(
    old: EntryCycle,
    content: Seq<char>,
    mode: LoadMode,
    new: EntryCycle,
    action: CycleAction,
) -> bool {
    &&& new == (EntryCycle { phase: Phase::AwaitSettleStored, mode, ..old })
    &&& action matches CycleAction::StoreLedger { content: text }
    &&& text@ == content
}

/// What a step does, for each thing that the cycle may wait for and each
/// event that may come.
pub open spec fn transition(
    old: EntryCycle,
    event: CycleEvent,
    now: Clock,
    config: Config,
    new: EntryCycle,
    action: CycleAction,
) -> bool {
    match (old.phase, event) {
        (Phase::Done, _) => aborts(old, new, action, CycleError::Unexpected),
        (_, CycleEvent::ExchangeFailed) => aborts(old, new, action, CycleError::Exchange),
        (Phase::AwaitAppend, CycleEvent::StorageFailed) => if old.paper {
            aborts(old, new, action, CycleError::Storage)
        } else {
            ends(old, new, action, CycleOutcome::Untracked { order_id: old.order_id })
        },
        (_, CycleEvent::StorageFailed) => aborts(old, new, action, CycleError::Storage),
        (_, CycleEvent::BrainFailed) => aborts(old, new, action, CycleError::Brain),
        (Phase::AwaitResting, CycleEvent::RestingOrders { orders }) => cancels_next(
            old,
            orders@,
            new,
            action,
        ),
        (Phase::AwaitCancel, CycleEvent::Cancelled) => if old.queue@.len() == 0 {
            aborts(old, new, action, CycleError::Unexpected)
        } else {
            new == (EntryCycle { phase: Phase::AwaitCancelLedger, ..old }) && action
                == CycleAction::LoadLedger
        },
        (Phase::AwaitCancelLedger, CycleEvent::Ledger { text }) => if old.queue@.len() == 0 {
            aborts(old, new, action, CycleError::Unexpected)
        } else {
            &&& new == (EntryCycle { phase: Phase::AwaitCancelStored, ..old })
            &&& action matches CycleAction::StoreLedger { content }
            &&& content@ == cancelled_content(text@, old.queue@[0].order_id@)
        },
        (Phase::AwaitCancelStored, CycleEvent::Stored) => if old.queue@.len() == 0 {
            aborts(old, new, action, CycleError::Unexpected)
        } else {
            cancels_next(old, old.queue@.subrange(1, old.queue@.len() as int), new, action)
        },
        (Phase::AwaitLedger, CycleEvent::Ledger { text }) => if is_corrupt(text@) {
            new == (EntryCycle { phase: Phase::AwaitBackup, ledger: text, ..old }) && action
                == CycleAction::LoadBackup
        } else {
            reads_rows(EntryCycle { ledger: text, ..old }, parse_ledger(text@), now, new, action)
        },
        (Phase::AwaitBackup, CycleEvent::Backup { text }) => reads_rows(
            old,
            parse_ledger(text@),
            now,
            new,
            action,
        ),
        (Phase::AwaitSettlements, CycleEvent::Settlements { settlements }) => {
            let rows = row_views(old.rows@);
            if old.mode != LoadMode::First || last_pending_row(rows) is None {
                aborts(old, new, action, CycleError::Unexpected)
            } else if settlements@.len() > 0 {
                match settled_content(old.ledger@, settlements@[0]@) {
                    Some(content) => stores(old, content, LoadMode::AfterSettlement, new, action),
                    None => aborts(old, new, action, CycleError::Ledger),
                }
            } else if is_stale(
                rfc3339_millis(rows[last_pending_row(rows)->0].timestamp),
                now.millis,
            ) {
                stores(old, abandoned_content(old.ledger@), LoadMode::AfterAbandon, new, action)
            } else {
                new == (EntryCycle { phase: Phase::AwaitBalance, ..old }) && action
                    == CycleAction::FetchBalance
            }
        },
        (Phase::AwaitSettleStored, CycleEvent::Stored) => if old.mode == LoadMode::First {
            aborts(old, new, action, CycleError::Unexpected)
        } else {
            new == (EntryCycle { phase: Phase::AwaitLedger, ..old }) && action
                == CycleAction::LoadLedger
        },
        (Phase::AwaitStatsStored, CycleEvent::Stored) => {
            new == (EntryCycle { phase: Phase::AwaitBalance, ..old }) && action
                == CycleAction::FetchBalance
        },
        (Phase::AwaitBalance, CycleEvent::Balance { cents }) => match risk_veto(
            old.stats,
            cents,
            config.min_balance_cents,
            config.max_daily_loss_cents,
            config.max_consecutive_losses,
        ) {
            Some(veto) => ends(old, new, action, CycleOutcome::RiskVeto { veto }),
            None => {
                &&& new == (EntryCycle { phase: Phase::AwaitMarket, ..old })
                &&& action matches CycleAction::FetchActiveMarket { series }
                &&& series@ == old.series@
            },
        },
        (Phase::AwaitMarket, CycleEvent::ActiveMarket { market }) => match market {
            None => ends(old, new, action, CycleOutcome::NoActiveMarket),
            Some(m) => if m.seconds_to_expiry < config.min_seconds_to_expiry {
                ends(
                    old,
                    new,
                    action,
                    CycleOutcome::TooCloseToExpiry { seconds_to_expiry: m.seconds_to_expiry },
                )
            } else {
                &&& new == (EntryCycle {
                    phase: Phase::AwaitOrderbook,
                    market: Some(m),
                    ticker: new.ticker,
                    ..old
                })
                &&& new.ticker@ == m.ticker@
                &&& action matches CycleAction::FetchOrderbook { ticker }
                &&& ticker@ == m.ticker@
            },
        },
        (Phase::AwaitOrderbook, CycleEvent::Orderbook { orderbook }) => {
            &&& new == (EntryCycle {
                phase: Phase::AwaitSnapshot,
                orderbook: Some(orderbook),
                ..old
            })
            &&& action matches CycleAction::FetchPriceSnapshot { symbol }
            &&& symbol@ == price_symbol(old.series@)
        },
        (Phase::AwaitSnapshot, CycleEvent::PriceSnapshot { available }) => {
            &&& new == (EntryCycle { phase: Phase::AwaitPrompt, has_snapshot: available, ..old })
            &&& action == CycleAction::LoadPrompt
        },
        (Phase::AwaitPrompt, CycleEvent::Prompt { text }) => match (old.market, old.orderbook) {
            (Some(m), Some(book)) => {
                &&& new == (EntryCycle {
                    phase: Phase::AwaitDecision,
                    market: None,
                    orderbook: None,
                    ..old
                })
                &&& action matches CycleAction::Decide { request }
                &&& request.prompt_md == text
                &&& request.stats == old.stats
                &&& request.market == m
                &&& request.orderbook == book
                &&& request.has_price_snapshot == old.has_snapshot
                &&& request.crypto_label@ == price_label(old.series@)
                &&& row_views(request.last_trades@) == recent(row_views(old.rows@), 20)
            },
            _ => aborts(old, new, action, CycleError::Unexpected),
        },
        (Phase::AwaitDecision, CycleEvent::Decision { decision }) => if decision.action
            == Action::Pass {
            ends(old, new, action, CycleOutcome::Pass { reasoning: decision.reasoning })
        } else {
            &&& new == (EntryCycle {
                phase: Phase::AwaitPositions,
                side: chosen_side(decision.side),
                shares: clamped_shares(decision.shares, config.max_shares),
                price_cents: clamped_price(decision.max_price_cents),
                ..old
            })
            &&& action == CycleAction::FetchPositions
        },
        (Phase::AwaitPositions, CycleEvent::Positions { positions }) => if exposed(
            positions@,
            old.ticker@,
        ) {
            ends(old, new, action, CycleOutcome::AlreadyExposed)
        } else if config.paper_trade {
            if is_writable(pending_row(old, now, paper_id(now.millis))) {
                &&& new == (EntryCycle {
                    phase: Phase::AwaitAppend,
                    paper: true,
                    order_id: new.order_id,
                    ..old
                })
                &&& new.order_id@ == paper_id(now.millis)
                &&& action matches CycleAction::AppendLedger { row }
                &&& row@ == pending_row(old, now, paper_id(now.millis))
            } else {
                aborts(old, new, action, CycleError::Ledger)
            }
        } else if !is_field(old.ticker@) {
            aborts(old, new, action, CycleError::Ledger)
        } else {
            &&& new == (EntryCycle { phase: Phase::AwaitPlaced, paper: false, ..old })
            &&& action matches CycleAction::PlaceOrder { order }
            &&& order.ticker@ == old.ticker@
            &&& order.side == old.side
            &&& order.shares == old.shares
            &&& order.price_cents == old.price_cents
        },
        (Phase::AwaitPlaced, CycleEvent::Placed { result }) => if is_writable(
            pending_row(old, now, result.order_id@),
        ) {
            &&& new == (EntryCycle {
                phase: Phase::AwaitAppend,
                paper: false,
                order_id: result.order_id,
                ..old
            })
            &&& action matches CycleAction::AppendLedger { row }
            &&& row@ == pending_row(old, now, result.order_id@)
        } else {
            ends(old, new, action, CycleOutcome::Untracked { order_id: result.order_id })
        },
        (Phase::AwaitAppend, CycleEvent::Stored) => ends(
            old,
            new,
            action,
            CycleOutcome::Ordered { order_id: old.order_id },
        ),
        _ => aborts(old, new, action, CycleError::Unexpected),
    }
}

/// The figures of an empty ledger.
pub open spec fn no_stats() -> Stats {
    Stats {
        total_trades: 0,
        wins: 0,
        losses: 0,
        total_pnl_cents: 0,
        today_pnl_cents: 0,
        current_streak: 0,
        max_drawdown_cents: 0,
        win_sum_cents: 0,
        loss_sum_cents: 0,
    }
}

/// What a cycle begins with: nothing where a position of the series is
/// open, else the list of resting orders. Nothing is known yet of orders,
/// ledger, market or order.
pub open spec fn beginning(
    series: Seq<char>,
    holding: bool,
    new: EntryCycle,
    action: CycleAction,
) -> bool {
    &&& new.series@ == series
    &&& new.mode == LoadMode::First
    &&& !new.paper
    &&& new.queue@.len() == 0
    &&& new.ledger@.len() == 0
    &&& new.rows@.len() == 0
    &&& new.stats == no_stats()
    &&& new.market is None
    &&& new.orderbook is None
    &&& !new.has_snapshot
    &&& new.ticker@.len() == 0
    &&& new.side == Side::Yes
    &&& new.shares == 0
    &&& new.price_cents == 0
    &&& new.order_id@.len() == 0
    &&& if holding {
        new.phase == Phase::Done && action == (CycleAction::Finish {
            outcome: CycleOutcome::HoldingPosition,
        })
    } else {
        new.phase == Phase::AwaitResting && action == CycleAction::ListRestingOrders
    }
}

fn finish(cycle: EntryCycle, outcome: CycleOutcome) -> (r: (EntryCycle, CycleAction))
    ensures
        ends(cycle, r.0, r.1, outcome),
{
    let mut next = cycle;
    next.phase = Phase::Done;
    (next, CycleAction::Finish { outcome })
}

fn abort(cycle: EntryCycle, error: CycleError) -> (r: (EntryCycle, CycleAction))
    ensures
        aborts(cycle, r.0, r.1, error),
{
    finish(cycle, CycleOutcome::Aborted { error })
}

fn cancel_next(cycle: EntryCycle, queue: Vec<RestingOrder>) -> (r: (EntryCycle, CycleAction))
    ensures
        cancels_next(cycle, queue@, r.0, r.1),
{
    let mut next = cycle;
    if queue.len() == 0 {
        next.queue = queue;
        next.phase = Phase::AwaitLedger;
        next.mode = LoadMode::First;
        (next, CycleAction::LoadLedger)
    } else {
        let order_id = queue[0].order_id.clone();
        next.queue = queue;
        next.phase = Phase::AwaitCancel;
        (next, CycleAction::CancelOrder { order_id })
    }
}

/// The place of the last row that is pending.
fn find_pending_row(rows: &Vec<LedgerRow>) -> (r: Option<usize>)
    ensures
        match r {
            Some(k) => k < rows.len() && last_pending_row(row_views(rows@)) == Some(k as int),
            None => last_pending_row(row_views(rows@)) is None,
        },
{
    let pending = "pending".to_owned();
    let ghost all = row_views(rows@);
    let mut i: usize = rows.len();
    proof {
        assert(all.take(rows.len() as int) =~= all);
    }
    while i > 0
        invariant
            i <= rows.len(),
            all == row_views(rows@),
            pending@ == "pending"@,
            last_pending_row(all) == last_pending_row(all.take(i as int)),
        decreases i,
    {
        proof {
            let here = all.take(i as int);
            assert(here.drop_last() =~= all.take(i - 1));
            assert(here.last() == rows@[i - 1]@);
        }
        if rows[i - 1].result == pending {
            return Some(i - 1);
        }
        i -= 1;
    }
    None
}

fn read_rows(cycle: EntryCycle, rows: Vec<LedgerRow>, now: &Clock) -> (r: (EntryCycle, CycleAction))
    ensures
        reads_rows(cycle, row_views(rows@), *now, r.0, r.1),
{
    let today = date_prefix(now.text.as_str());
    let stats = compute(&rows, today.as_str());
    let found = find_pending_row(&rows);
    let mut next = cycle;
    let action = match next.mode {
        LoadMode::First => match found {
            Some(k) => {
                next.phase = Phase::AwaitSettlements;
                CycleAction::QuerySettlements { ticker: rows[k].ticker.clone() }
            },
            None => {
                next.phase = Phase::AwaitBalance;
                CycleAction::FetchBalance
            },
        },
        LoadMode::AfterSettlement => {
            next.phase = Phase::AwaitStatsStored;
            CycleAction::StoreStats { stats }
        },
        LoadMode::AfterAbandon => {
            next.phase = Phase::AwaitBalance;
            CycleAction::FetchBalance
        },
    };
    next.rows = rows;
    next.stats = stats;
    (next, action)
}

fn store(cycle: EntryCycle, content: String, mode: LoadMode) -> (r: (EntryCycle, CycleAction))
    ensures
        stores(cycle, content@, mode, r.0, r.1),
{
    let mut next = cycle;
    next.phase = Phase::AwaitSettleStored;
    next.mode = mode;
    (next, CycleAction::StoreLedger { content })
}

/// The last rows, at most twenty, newest first.
fn recent_rows(rows: &Vec<LedgerRow>) -> (r: Vec<LedgerRow>)
    ensures
        row_views(r@) == recent(row_views(rows@), 20),
{
    let n: usize = if rows.len() < 20 {
        rows.len()
    } else {
        20
    };
    let mut out: Vec<LedgerRow> = Vec::new();
    let mut i: usize = 0;
    while i < n
        invariant
            i <= n <= rows.len(),
            n <= 20,
            out@.len() == i,
            forall|k: int| 0 <= k < i ==> (#[trigger] out@[k])@ == rows@[rows.len() - 1 - k]@,
        decreases n - i,
    {
        out.push(rows[rows.len() - 1 - i].duplicate());
        i += 1;
    }
    proof {
        assert(row_views(out@) =~= recent(row_views(rows@), 20));
    }
    out
}

/// Whether a position on `ticker` is among `positions`.
fn has_exposure(positions: &Vec<Position>, ticker: &String) -> (b: bool)
    ensures
        b == exposed(positions@, ticker@),
{
    let mut i: usize = 0;
    while i < positions.len()
        invariant
            i <= positions.len(),
            forall|k: int| 0 <= k < i ==> (#[trigger] positions@[k]).ticker@ != ticker@,
        decreases positions.len() - i,
    {
        if positions[i].ticker == *ticker {
            return true;
        }
        i += 1;
    }
    false
}

/// The name under which the price of a series' asset is shown.
fn label_of(series: &str) -> (r: String)
    ensures
        r@ == price_label(series@),
{
    let mut out = chars_of(series_to_asset_label(series).as_str());
    extend_str(&mut out, " (Binance ");
    extend_str(&mut out, series_to_binance_symbol(series).as_str());
    extend_str(&mut out, ")");
    string_of(&out)
}

/// The row that records the cycle's order as pending.
fn pending_entry(cycle: &EntryCycle, now: &Clock, order_id: &String) -> (row: LedgerRow)
    ensures
        row@ == pending_row(*cycle, *now, order_id@),
{
    LedgerRow {
        timestamp: now.text.clone(),
        ticker: cycle.ticker.clone(),
        side: cycle.side.label(),
        shares: cycle.shares,
        price: cycle.price_cents,
        result: "pending".to_owned(),
        pnl_cents: 0,
        cumulative_cents: cycle.stats.total_pnl_cents,
        order_id: order_id.clone(),
    }
}

/// Begins an entry cycle for `series`. With a position of the series
/// open there is nothing to do; else the resting orders are asked for.
pub fn entry_cycle(series: &str, positions: &PositionManager) -> (r: (EntryCycle, CycleAction))
    ensures
        beginning(
            series@,
            exists|i: int|
                0 <= i < positions@.tickers.len() && has_prefix(
                    #[trigger] positions@.tickers[i],
                    series@,
                ),
            r.0,
            r.1,
        ),
{
    let holding = positions.has_position_for_series(series);
    let cycle = EntryCycle {
        phase: if holding {
            Phase::Done
        } else {
            Phase::AwaitResting
        },
        mode: LoadMode::First,
        paper: false,
        series: series.to_owned(),
        queue: Vec::new(),
        ledger: String::new(),
        rows: Vec::new(),
        stats: Stats {
            total_trades: 0,
            wins: 0,
            losses: 0,
            total_pnl_cents: 0,
            today_pnl_cents: 0,
            current_streak: 0,
            max_drawdown_cents: 0,
            win_sum_cents: 0,
            loss_sum_cents: 0,
        },
        market: None,
        orderbook: None,
        has_snapshot: false,
        ticker: String::new(),
        side: Side::Yes,
        shares: 0,
        price_cents: 0,
        order_id: String::new(),
    };
    if holding {
        (cycle, CycleAction::Finish { outcome: CycleOutcome::HoldingPosition })
    } else {
        (cycle, CycleAction::ListRestingOrders)
    }
}

impl EntryCycle {
    /// Takes the outcome of the last action and names the next one. `now`
    /// is the present moment, `config` the settings of the process.
    #[verifier::rlimit(60)]
    pub fn step(self, event: CycleEvent, now: &Clock, config: &Config) -> (r: (
        EntryCycle,
        CycleAction,
    ))
        ensures
            transition(self, event, *now, *config, r.0, r.1),
    {
        let mut next = self;
        match (next.phase, event) {
            (Phase::Done, _) => abort(next, CycleError::Unexpected),
            (_, CycleEvent::ExchangeFailed) => abort(next, CycleError::Exchange),
            (Phase::AwaitAppend, CycleEvent::StorageFailed) => {
                if next.paper {
                    abort(next, CycleError::Storage)
                } else {
                    let order_id = next.order_id.clone();
                    finish(next, CycleOutcome::Untracked { order_id })
                }
            },
            (_, CycleEvent::StorageFailed) => abort(next, CycleError::Storage),
            (_, CycleEvent::BrainFailed) => abort(next, CycleError::Brain),
            (Phase::AwaitResting, CycleEvent::RestingOrders { orders }) => cancel_next(
                next,
                orders,
            ),
            (Phase::AwaitCancel, CycleEvent::Cancelled) => {
                if next.queue.len() == 0 {
                    abort(next, CycleError::Unexpected)
                } else {
                    next.phase = Phase::AwaitCancelLedger;
                    (next, CycleAction::LoadLedger)
                }
            },
            (Phase::AwaitCancelLedger, CycleEvent::Ledger { text }) => {
                if next.queue.len() == 0 {
                    abort(next, CycleError::Unexpected)
                } else {
                    let content = cancel_trade(text.as_str(), next.queue[0].order_id.as_str());
                    next.phase = Phase::AwaitCancelStored;
                    (next, CycleAction::StoreLedger { content })
                }
            },
            (Phase::AwaitCancelStored, CycleEvent::Stored) => {
                if next.queue.len() == 0 {
                    abort(next, CycleError::Unexpected)
                } else {
                    let mut queue: Vec<RestingOrder> = Vec::new();
                    core::mem::swap(&mut queue, &mut next.queue);
                    let ghost before = queue@;
                    queue.remove(0);
                    proof {
                        assert(queue@ =~= before.subrange(1, before.len() as int));
                    }
                    let ghost held = EntryCycle { queue: self.queue, ..next };
                    let r = cancel_next(next, queue);
                    proof {
                        assert(held == self);
                    }
                    r
                }
            },
            (Phase::AwaitLedger, CycleEvent::Ledger { text }) => {
                if needs_backup(text.as_str()) {
                    next.ledger = text;
                    next.phase = Phase::AwaitBackup;
                    (next, CycleAction::LoadBackup)
                } else {
                    let rows = parse_ledger_content(text.as_str());
                    next.ledger = text;
                    read_rows(next, rows, now)
                }
            },
            (Phase::AwaitBackup, CycleEvent::Backup { text }) => {
                let rows = parse_ledger_content(text.as_str());
                read_rows(next, rows, now)
            },
            (Phase::AwaitSettlements, CycleEvent::Settlements { settlements }) => {
                let found = find_pending_row(&next.rows);
                match (next.mode, found) {
                    (LoadMode::First, Some(k)) => {
                        if settlements.len() > 0 {
                            match settle_last_trade(next.ledger.as_str(), &settlements[0]) {
                                Ok(content) => store(next, content, LoadMode::AfterSettlement),
                                Err(_) => abort(next, CycleError::Ledger),
                            }
                        } else {
                            let placed = timestamp_millis(next.rows[k].timestamp.as_str());
                            if pending_is_stale(placed, now.millis) {
                                let content = abandon_last_trade(next.ledger.as_str());
                                store(next, content, LoadMode::AfterAbandon)
                            } else {
                                next.phase = Phase::AwaitBalance;
                                (next, CycleAction::FetchBalance)
                            }
                        }
                    },
                    _ => abort(next, CycleError::Unexpected),
                }
            },
            (Phase::AwaitSettleStored, CycleEvent::Stored) => {
                match next.mode {
                    LoadMode::First => abort(next, CycleError::Unexpected),
                    _ => {
                        next.phase = Phase::AwaitLedger;
                        (next, CycleAction::LoadLedger)
                    },
                }
            },
            (Phase::AwaitStatsStored, CycleEvent::Stored) => {
                next.phase = Phase::AwaitBalance;
                (next, CycleAction::FetchBalance)
            },
            (Phase::AwaitBalance, CycleEvent::Balance { cents }) => {
                match assess(&next.stats, cents, config) {
                    Some(veto) => finish(next, CycleOutcome::RiskVeto { veto }),
                    None => {
                        let series = next.series.clone();
                        next.phase = Phase::AwaitMarket;
                        (next, CycleAction::FetchActiveMarket { series })
                    },
                }
            },
            (Phase::AwaitMarket, CycleEvent::ActiveMarket { market }) => {
                match market {
                    None => finish(next, CycleOutcome::NoActiveMarket),
                    Some(m) => {
                        if m.seconds_to_expiry < config.min_seconds_to_expiry {
                            let seconds_to_expiry = m.seconds_to_expiry;
                            finish(next, CycleOutcome::TooCloseToExpiry { seconds_to_expiry })
                        } else {
                            let ticker = m.ticker.clone();
                            next.ticker = m.ticker.clone();
                            next.market = Some(m);
                            next.phase = Phase::AwaitOrderbook;
                            (next, CycleAction::FetchOrderbook { ticker })
                        }
                    },
                }
            },
            (Phase::AwaitOrderbook, CycleEvent::Orderbook { orderbook }) => {
                let symbol = series_to_binance_symbol(next.series.as_str());
                next.orderbook = Some(orderbook);
                next.phase = Phase::AwaitSnapshot;
                (next, CycleAction::FetchPriceSnapshot { symbol })
            },
            (Phase::AwaitSnapshot, CycleEvent::PriceSnapshot { available }) => {
                next.has_snapshot = available;
                next.phase = Phase::AwaitPrompt;
                (next, CycleAction::LoadPrompt)
            },
            (Phase::AwaitPrompt, CycleEvent::Prompt { text }) => {
                let mut market: Option<MarketState> = None;
                let mut orderbook: Option<Orderbook> = None;
                core::mem::swap(&mut market, &mut next.market);
                core::mem::swap(&mut orderbook, &mut next.orderbook);
                match (market, orderbook) {
                    (Some(m), Some(book)) => {
                        let request = DecisionRequest {
                            prompt_md: text,
                            stats: next.stats,
                            last_trades: recent_rows(&next.rows),
                            market: m,
                            orderbook: book,
                            has_price_snapshot: next.has_snapshot,
                            crypto_label: label_of(next.series.as_str()),
                        };
                        next.phase = Phase::AwaitDecision;
                        (next, CycleAction::Decide { request })
                    },
                    (market, orderbook) => {
                        next.market = market;
                        next.orderbook = orderbook;
                        abort(next, CycleError::Unexpected)
                    },
                }
            },
            (Phase::AwaitDecision, CycleEvent::Decision { decision }) => {
                if decision.action == Action::Pass {
                    finish(next, CycleOutcome::Pass { reasoning: decision.reasoning })
                } else {
                    let asked_shares = match decision.shares {
                        Some(s) => s,
                        None => 1,
                    };
                    let asked_price = match decision.max_price_cents {
                        Some(p) => p,
                        None => 50,
                    };
                    next.side = match decision.side {
                        Some(s) => s,
                        None => Side::Yes,
                    };
                    next.shares = if asked_shares < config.max_shares {
                        asked_shares
                    } else {
                        config.max_shares
                    };
                    next.price_cents = if asked_price < 1 {
                        1
                    } else if asked_price > 99 {
                        99
                    } else {
                        asked_price
                    };
                    next.phase = Phase::AwaitPositions;
                    (next, CycleAction::FetchPositions)
                }
            },
            (Phase::AwaitPositions, CycleEvent::Positions { positions }) => {
                if has_exposure(&positions, &next.ticker) {
                    finish(next, CycleOutcome::AlreadyExposed)
                } else if config.paper_trade {
                    let mut id = chars_of("paper-");
                    push_signed_decimal(&mut id, now.millis);
                    let order_id = string_of(&id);
                    let row = pending_entry(&next, now, &order_id);
                    if row_is_writable(&row) {
                        next.order_id = order_id;
                        next.paper = true;
                        next.phase = Phase::AwaitAppend;
                        (next, CycleAction::AppendLedger { row })
                    } else {
                        abort(next, CycleError::Ledger)
                    }
                } else if !is_writable_text(next.ticker.as_str()) {
                    abort(next, CycleError::Ledger)
                } else {
                    let order = OrderRequest {
                        ticker: next.ticker.clone(),
                        side: next.side,
                        shares: next.shares,
                        price_cents: next.price_cents,
                    };
                    next.paper = false;
                    next.phase = Phase::AwaitPlaced;
                    (next, CycleAction::PlaceOrder { order })
                }
            },
            (Phase::AwaitPlaced, CycleEvent::Placed { result }) => {
                let row = pending_entry(&next, now, &result.order_id);
                if row_is_writable(&row) {
                    next.order_id = result.order_id;
                    next.paper = false;
                    next.phase = Phase::AwaitAppend;
                    (next, CycleAction::AppendLedger { row })
                } else {
                    finish(next, CycleOutcome::Untracked { order_id: result.order_id })
                }
            },
            (Phase::AwaitAppend, CycleEvent::Stored) => {
                let order_id = next.order_id.clone();
                finish(next, CycleOutcome::Ordered { order_id })
            },
            _ => abort(next, CycleError::Unexpected),
        }
    }
}

/// An upper bound on the steps that a cycle has left, once the resting
/// orders are known.
pub open spec fn steps_left(c: EntryCycle) -> int {
    match c.phase {
        Phase::Done => 0,
        Phase::AwaitAppend => 1,
        Phase::AwaitPlaced => 2,
        Phase::AwaitPositions => 3,
        Phase::AwaitDecision => 4,
        Phase::AwaitPrompt => 5,
        Phase::AwaitSnapshot => 6,
        Phase::AwaitOrderbook => 7,
        Phase::AwaitMarket => 8,
        Phase::AwaitBalance => 9,
        Phase::AwaitStatsStored => 10,
        Phase::AwaitBackup => if c.mode == LoadMode::First {
            15
        } else {
            11
        },
        Phase::AwaitLedger => if c.mode == LoadMode::First {
            16
        } else {
            12
        },
        Phase::AwaitSettleStored => 13,
        Phase::AwaitSettlements => 14,
        Phase::AwaitCancelStored => 14 + 3 * (c.queue@.len() as int),
        Phase::AwaitCancelLedger => 15 + 3 * (c.queue@.len() as int),
        Phase::AwaitCancel => 16 + 3 * (c.queue@.len() as int),
        Phase::AwaitResting => 17 + 3 * (c.queue@.len() as int),
    }
}

/// A cycle comes to its end: no step leads back to the beginning, every
/// step after the first leaves fewer steps to go, and the cycle is over
/// exactly when a step says so.
pub proof fn lemma_cycle_ends(
    old: EntryCycle,
    event: CycleEvent,
    now: Clock,
    config: Config,
    new: EntryCycle,
    action: CycleAction,
)
    requires
        transition(old, event, now, config, new, action),
    ensures
        new.phase != Phase::AwaitResting,
        old.phase != Phase::AwaitResting && old.phase != Phase::Done ==> steps_left(new)
            < steps_left(old),
        action is Finish <==> new.phase == Phase::Done,
{
}

/// The steps come in their order. An order goes to the exchange only in
/// live trading, only for a market whose ticker can be written to the
/// ledger, and only after the exchange reported no exposure; that is
/// asked only after a decision to buy, the decision only after the
/// strategy text, the price snapshot and the order book, the book only
/// after the market, the market only after the balance
/// passed the risk gate, and the balance only after the ledger was read and
/// its pending row looked after. A row is added to the ledger only for a
/// paper order or after the exchange accepted the order.
pub proof fn lemma_step_order(
    old: EntryCycle,
    event: CycleEvent,
    now: Clock,
    config: Config,
    new: EntryCycle,
    action: CycleAction,
)
    requires
        transition(old, event, now, config, new, action),
    ensures
        action is PlaceOrder ==> old.phase == Phase::AwaitPositions && !config.paper_trade
            && new.phase == Phase::AwaitPlaced && is_field(old.ticker@),
        action is AppendLedger ==> (old.phase == Phase::AwaitPositions && config.paper_trade)
            || (old.phase == Phase::AwaitPlaced && event is Placed),
        new.phase == Phase::AwaitPlaced ==> action is PlaceOrder,
        new.phase == Phase::AwaitPositions ==> old.phase == Phase::AwaitDecision,
        new.phase == Phase::AwaitDecision ==> old.phase == Phase::AwaitPrompt,
        new.phase == Phase::AwaitPrompt ==> old.phase == Phase::AwaitSnapshot,
        new.phase == Phase::AwaitSnapshot ==> old.phase == Phase::AwaitOrderbook,
        new.phase == Phase::AwaitOrderbook ==> old.phase == Phase::AwaitMarket,
        new.phase == Phase::AwaitMarket ==> old.phase == Phase::AwaitBalance && risk_veto(
            old.stats,
            event->cents,
            config.min_balance_cents,
            config.max_daily_loss_cents,
            config.max_consecutive_losses,
        ) is None,
        new.phase == Phase::AwaitBalance ==> old.phase == Phase::AwaitLedger || old.phase
            == Phase::AwaitBackup || old.phase == Phase::AwaitSettlements || old.phase
            == Phase::AwaitStatsStored,
        new.phase == Phase::AwaitLedger ==> old.phase == Phase::AwaitResting || old.phase
            == Phase::AwaitCancelStored || old.phase == Phase::AwaitSettleStored,
{
}

/// A failure ends the cycle at once, whatever it was waiting for. Only a
/// live order that could not be recorded ends it otherwise: as untracked.
pub proof fn lemma_failure_ends_cycle(
    old: EntryCycle,
    event: CycleEvent,
    now: Clock,
    config: Config,
    new: EntryCycle,
    action: CycleAction,
)
    requires
        transition(old, event, now, config, new, action),
        event is ExchangeFailed || event is StorageFailed || event is BrainFailed,
    ensures
        new.phase == Phase::Done,
        action is Finish,
        action->outcome is Aborted || action->outcome is Untracked,
        action->outcome is Untracked <==> old.phase == Phase::AwaitAppend && !old.paper
            && event is StorageFailed,
{
}

/// A pending row more than thirty minutes old, whose market shows no
/// settlement, does not stall the cycle: it is given up in the ledger, the
/// ledger is read again, and the cycle goes on to the risk gate. In the
/// ledger that is stored, the last pending row has the result `unknown`, no
/// profit, and the cumulative profit of the last terminal row before it;
/// every other row is as it was, and the chain of cumulative profits holds if
/// it held before.
pub proof fn lemma_stale_row_is_given_up(
    c0: EntryCycle,
    settlements: Vec<Settlement>,
    now: Clock,
    config: Config,
    c1: EntryCycle,
    a1: CycleAction,
    c2: EntryCycle,
    a2: CycleAction,
    text: String,
    c3: EntryCycle,
    a3: CycleAction,
)
    requires
        c0.phase == Phase::AwaitSettlements,
        c0.mode == LoadMode::First,
        last_pending_row(row_views(c0.rows@)) matches Some(k) && is_stale(
            rfc3339_millis(row_views(c0.rows@)[k].timestamp),
            now.millis,
        ),
        settlements@.len() == 0,
        transition(c0, CycleEvent::Settlements { settlements }, now, config, c1, a1),
        transition(c1, CycleEvent::Stored, now, config, c2, a2),
        !is_corrupt(text@),
        transition(c2, CycleEvent::Ledger { text }, now, config, c3, a3),
    ensures
        a1 matches CycleAction::StoreLedger { content } && content@ == abandoned_content(
            c0.ledger@,
        ) && parse_ledger(content@) == unprofitable_rows(
            parse_ledger(c0.ledger@),
            any_pending(),
            "unknown"@,
        ) && (chained(parse_ledger(c0.ledger@)) ==> chained(parse_ledger(content@))),
        ({
            let before = parse_ledger(c0.ledger@);
            let after = unprofitable_rows(before, any_pending(), "unknown"@);
            &&& after.len() == before.len()
            &&& last_pending_row(before) matches Some(k) ==> {
                &&& after[k] == (LedgerRowView {
                    result: "unknown"@,
                    pnl_cents: 0,
                    cumulative_cents: carried(before, k) as i64,
                    ..before[k]
                })
                &&& forall|j: int| 0 <= j < before.len() && j != k ==> after[j] == before[j]
            }
        }),
        a2 == CycleAction::LoadLedger,
        a3 == CycleAction::FetchBalance,
        c3.phase == Phase::AwaitBalance,
{
    lemma_abandonment_rows(c0.ledger@);
    lemma_unprofitable_rows(parse_ledger(c0.ledger@), any_pending(), "unknown"@);
}

/// A cycle ends with an order that the ledger does not know only after the
/// exchange took the order: where the ledger could not be stored, or where
/// what shows only then, the order id or the text of the later moment,
/// cannot be written to a row. A ticker that cannot be written ends the
/// cycle before any order.
pub proof fn lemma_untracked_only_after_placement(
    old: EntryCycle,
    event: CycleEvent,
    now: Clock,
    config: Config,
    new: EntryCycle,
    action: CycleAction,
)
    requires
        transition(old, event, now, config, new, action),
        action matches CycleAction::Finish { outcome } && outcome is Untracked,
    ensures
        old.phase == Phase::AwaitAppend || old.phase == Phase::AwaitPlaced,
        old.phase == Phase::AwaitAppend ==> !old.paper && event is StorageFailed,
        old.phase == Phase::AwaitPlaced ==> event is Placed && (!is_field(now.text@) || !is_field(
            old.ticker@,
        ) || !is_field(event->result.order_id@)),
{
    if old.phase == Phase::AwaitPlaced && event is Placed {
        lemma_engine_words(now.millis);
    }
}

/// Whether the row of an order can be written and read back rests on three
/// texts alone: that of the moment, the market's ticker and the order id.
/// The id of a paper order can always be written.
pub proof fn lemma_order_row_is_writable(c: EntryCycle, now: Clock, order_id: Seq<char>)
    ensures
        is_writable(pending_row(c, now, order_id)) <==> is_field(now.text@) && is_field(c.ticker@)
            && is_field(order_id),
        is_field(paper_id(now.millis)),
{
    lemma_engine_words(now.millis);
}

/// The row that a cycle adds to the ledger is the one row that the ledger
/// gains, whatever the ledger holds: its other rows stay as they are, and
/// the chain of cumulative profits holds after, if it held before.
pub proof fn lemma_cycle_adds_one_row(
    old: EntryCycle,
    event: CycleEvent,
    now: Clock,
    config: Config,
    new: EntryCycle,
    action: CycleAction,
    content: Seq<char>,
)
    requires
        transition(old, event, now, config, new, action),
        action is AppendLedger,
    ensures
        action->row@ == pending_row(old, now, new.order_id@),
        new.paper ==> new.order_id@ == paper_id(now.millis),
        parse_ledger(content + appended_text(content, action->row@)) == parse_ledger(
            content,
        ).push(action->row@),
        chained(parse_ledger(content)) ==> chained(
            parse_ledger(content + appended_text(content, action->row@)),
        ),
{
    lemma_pending_row_keeps_chain(content, action->row@);
}

/// A price snapshot that cannot be had does not stop the cycle: with or
/// without it, the strategy text is read next, and the reasoning service is
/// told which it is.
pub proof fn lemma_snapshot_is_optional(
    old: EntryCycle,
    available: bool,
    now: Clock,
    config: Config,
    new: EntryCycle,
    action: CycleAction,
)
    requires
        old.phase == Phase::AwaitSnapshot,
        transition(old, CycleEvent::PriceSnapshot { available }, now, config, new, action),
    ensures
        new.phase == Phase::AwaitPrompt,
        action == CycleAction::LoadPrompt,
        new.has_snapshot == available,
{
}

} // verus!
