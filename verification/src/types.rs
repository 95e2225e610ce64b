//! Plain data shared by every component of the engine, and the mathematical
//! view of each record that the contracts speak of.

use vstd::prelude::*;

verus! {

/// One of the two outcomes of a binary event contract.
#[derive(Debug, Clone, Copy, PartialEq, Eq, Structural)]
pub enum Side {
    Yes,
    No,
}

impl Side {
    /// The word for the side in a ledger line: `yes` or `no`.
    pub open spec fn word(self) -> Seq<char> {
        match self {
            Side::Yes => "yes"@,
            Side::No => "no"@,
        }
    }

    /// The word for the side in a ledger line.
    pub fn label(self) -> (r: String)
        ensures
            r@ == self.word(),
    {
        match self {
            Side::Yes => "yes".to_owned(),
            Side::No => "no".to_owned(),
        }
    }
}

/// What the reasoning service asks for.
#[derive(Debug, Clone, Copy, PartialEq, Eq, Structural)]
pub enum Action {
    Buy,
    Pass,
}

/// One reply of the reasoning service, with every field it may leave out.
#[derive(Debug, Clone)]
pub struct TradeDecision {
    pub action: Action,
    pub side: Option<Side>,
    pub shares: Option<u32>,
    pub max_price_cents: Option<u32>,
    pub reasoning: String,
}

/// A market of a series as the exchange lists it.
#[derive(Debug, Clone)]
pub struct MarketState {
    pub ticker: String,
    pub event_ticker: String,
    pub title: String,
    pub yes_bid: Option<u32>,
    pub yes_ask: Option<u32>,
    pub no_bid: Option<u32>,
    pub no_ask: Option<u32>,
    pub last_price: Option<u32>,
    pub volume: u64,
    pub volume_24h: u64,
    pub open_interest: u64,
    pub expiration_time: String,
    /// Whole seconds from now until the market expires.
    pub seconds_to_expiry: i64,
}

/// Resting depth of a market: (price in cents, quantity) per level and side.
#[derive(Debug, Clone)]
pub struct Orderbook {
    pub yes: Vec<(u32, u32)>,
    pub no: Vec<(u32, u32)>,
}

/// Direction of the recent price move.
#[derive(Debug, Clone, Copy, PartialEq, Eq, Structural)]
pub enum MomentumDirection {
    Up,
    Down,
    Flat,
}

/// Whether the short, medium and long windows move the same way.
#[derive(Debug, Clone, Copy, PartialEq, Eq, Structural)]
pub enum TrendAlignment {
    AllUp,
    AllDown,
    AllFlat,
    Mixed,
}

/// An order to buy or sell contracts of one side at a limit price.
#[derive(Debug, Clone)]
pub struct OrderRequest {
    pub ticker: String,
    pub side: Side,
    pub shares: u32,
    pub price_cents: u32,
}

/// The view of an [`OrderRequest`].
pub struct OrderRequestView {
    pub ticker: Seq<char>,
    pub side: Side,
    pub shares: u32,
    pub price_cents: u32,
}

impl View for OrderRequest {
    type V = OrderRequestView;

    open spec fn view(&self) -> OrderRequestView {
        OrderRequestView {
            ticker: self.ticker@,
            side: self.side,
            shares: self.shares,
            price_cents: self.price_cents,
        }
    }
}

/// What the exchange answers to a placed order.
#[derive(Debug, Clone)]
pub struct OrderResult {
    pub order_id: String,
    pub status: String,
}

/// An order that was placed and is neither filled nor cancelled.
#[derive(Debug, Clone)]
pub struct RestingOrder {
    pub order_id: String,
    pub ticker: String,
}

/// Exposure that the exchange reports for a market.
#[derive(Debug, Clone)]
pub struct Position {
    pub ticker: String,
    pub side: Side,
    pub count: u32,
}

/// The view of a [`Position`].
pub struct PositionView {
    pub ticker: Seq<char>,
    pub side: Side,
    pub count: u32,
}

impl View for Position {
    type V = PositionView;

    open spec fn view(&self) -> PositionView {
        PositionView { ticker: self.ticker@, side: self.side, count: self.count }
    }
}

/// How a market of ours was settled.
#[derive(Debug, Clone)]
pub struct Settlement {
    pub ticker: String,
    pub side: Side,
    pub count: u32,
    pub price_cents: u32,
    pub result: String,
    pub pnl_cents: i64,
    pub settled_time: String,
    pub market_result: String,
}

/// The view of a [`Settlement`].
pub struct SettlementView {
    pub ticker: Seq<char>,
    pub side: Side,
    pub count: u32,
    pub price_cents: u32,
    pub result: Seq<char>,
    pub pnl_cents: i64,
    pub settled_time: Seq<char>,
    pub market_result: Seq<char>,
}

impl View for Settlement {
    type V = SettlementView;

    open spec fn view(&self) -> SettlementView {
        SettlementView {
            ticker: self.ticker@,
            side: self.side,
            count: self.count,
            price_cents: self.price_cents,
            result: self.result@,
            pnl_cents: self.pnl_cents,
            settled_time: self.settled_time@,
            market_result: self.market_result@,
        }
    }
}

/// One line of the ledger: an order that was placed, and what became of it.
#[derive(Debug, Clone)]
pub struct LedgerRow {
    pub timestamp: String,
    pub ticker: String,
    pub side: String,
    pub shares: u32,
    pub price: u32,
    pub result: String,
    pub pnl_cents: i64,
    pub cumulative_cents: i64,
    pub order_id: String,
}

/// The view of a [`LedgerRow`].
pub struct LedgerRowView {
    pub timestamp: Seq<char>,
    pub ticker: Seq<char>,
    pub side: Seq<char>,
    pub shares: u32,
    pub price: u32,
    pub result: Seq<char>,
    pub pnl_cents: i64,
    pub cumulative_cents: i64,
    pub order_id: Seq<char>,
}

impl View for LedgerRow {
    type V = LedgerRowView;

    open spec fn view(&self) -> LedgerRowView {
        LedgerRowView {
            timestamp: self.timestamp@,
            ticker: self.ticker@,
            side: self.side@,
            shares: self.shares,
            price: self.price,
            result: self.result@,
            pnl_cents: self.pnl_cents,
            cumulative_cents: self.cumulative_cents,
            order_id: self.order_id@,
        }
    }
}

impl LedgerRow {
    /// A copy of the row.
    pub fn duplicate(&self) -> (r: LedgerRow)
        ensures
            r@ == self@,
    {
        LedgerRow {
            timestamp: self.timestamp.clone(),
            ticker: self.ticker.clone(),
            side: self.side.clone(),
            shares: self.shares,
            price: self.price,
            result: self.result.clone(),
            pnl_cents: self.pnl_cents,
            cumulative_cents: self.cumulative_cents,
            order_id: self.order_id.clone(),
        }
    }
}

/// The views of a sequence of ledger rows.
pub open spec fn row_views(rows: Seq<LedgerRow>) -> Seq<LedgerRowView> {
    Seq::new(rows.len(), |i: int| rows[i]@)
}

/// Figures derived from the ledger. The rates that a report shows (win rate,
/// average win and loss) are quotients of these counts and sums.
#[derive(Debug, Clone, Copy, PartialEq, Eq, Structural)]
pub struct Stats {
    pub total_trades: u32,
    pub wins: u32,
    pub losses: u32,
    pub total_pnl_cents: i64,
    pub today_pnl_cents: i64,
    pub current_streak: i32,
    pub max_drawdown_cents: i64,
    pub win_sum_cents: i64,
    pub loss_sum_cents: i64,
}

/// A position that a fill opened.
#[derive(Debug, Clone)]
pub struct OpenPosition {
    pub ticker: String,
    pub side: Side,
    pub shares: u32,
    pub entry_price_cents: u32,
    pub order_id: String,
    pub entered_at: String,
}

/// The view of an [`OpenPosition`].
pub struct OpenPositionView {
    pub ticker: Seq<char>,
    pub side: Side,
    pub shares: u32,
    pub entry_price_cents: u32,
    pub order_id: Seq<char>,
    pub entered_at: Seq<char>,
}

impl View for OpenPosition {
    type V = OpenPositionView;

    open spec fn view(&self) -> OpenPositionView {
        OpenPositionView {
            ticker: self.ticker@,
            side: self.side,
            shares: self.shares,
            entry_price_cents: self.entry_price_cents,
            order_id: self.order_id@,
            entered_at: self.entered_at@,
        }
    }
}

/// Notice that an order of ours was executed, fully or in part.
#[derive(Debug, Clone)]
pub struct FillEvent {
    pub order_id: String,
    pub ticker: String,
    pub side: Side,
    pub shares: u32,
    pub price_cents: u32,
}

/// The view of a [`FillEvent`].
pub struct FillEventView {
    pub order_id: Seq<char>,
    pub ticker: Seq<char>,
    pub side: Side,
    pub shares: u32,
    pub price_cents: u32,
}

impl View for FillEvent {
    type V = FillEventView;

    open spec fn view(&self) -> FillEventView {
        FillEventView {
            order_id: self.order_id@,
            ticker: self.ticker@,
            side: self.side,
            shares: self.shares,
            price_cents: self.price_cents,
        }
    }
}

/// The resting depth of one market as the stream last reported it.
#[derive(Debug, Clone)]
pub struct OrderbookUpdate {
    pub ticker: String,
    pub yes: Vec<(u32, u32)>,
    pub no: Vec<(u32, u32)>,
}

/// The view of an [`OrderbookUpdate`].
pub struct OrderbookUpdateView {
    pub ticker: Seq<char>,
    pub yes: Seq<(u32, u32)>,
    pub no: Seq<(u32, u32)>,
}

impl View for OrderbookUpdate {
    type V = OrderbookUpdateView;

    open spec fn view(&self) -> OrderbookUpdateView {
        OrderbookUpdateView { ticker: self.ticker@, yes: self.yes@, no: self.no@ }
    }
}

/// Notice that a market changed its status.
#[derive(Debug, Clone)]
pub struct MarketLifecycleEvent {
    pub ticker: String,
    pub status: String,
    pub result: Option<String>,
}

/// Why a position is closed before its market settles.
#[derive(Debug, Clone, Copy, PartialEq, Eq, Structural)]
pub enum ExitReason {
    TakeProfit,
    StopLoss,
}

impl ExitReason {
    /// The words for the reason in a ledger line.
    pub open spec fn word(self) -> Seq<char> {
        match self {
            ExitReason::TakeProfit => "take_profit"@,
            ExitReason::StopLoss => "stop_loss"@,
        }
    }

    /// The words for the reason in a ledger line.
    pub fn label(self) -> (r: String)
        ensures
            r@ == self.word(),
    {
        match self {
            ExitReason::TakeProfit => "take_profit".to_owned(),
            ExitReason::StopLoss => "stop_loss".to_owned(),
        }
    }
}

/// A position closed early, as the ledger records it.
#[derive(Debug, Clone)]
pub struct ExitEvent {
    pub ticker: String,
    pub reason: ExitReason,
    pub entry_price_cents: u32,
    pub exit_price_cents: u32,
    pub shares: u32,
    pub pnl_cents: i64,
    pub order_id: String,
}

/// The view of an [`ExitEvent`].
pub struct ExitEventView {
    pub ticker: Seq<char>,
    pub reason: ExitReason,
    pub entry_price_cents: u32,
    pub exit_price_cents: u32,
    pub shares: u32,
    pub pnl_cents: i64,
    pub order_id: Seq<char>,
}

impl View for ExitEvent {
    type V = ExitEventView;

    open spec fn view(&self) -> ExitEventView {
        ExitEventView {
            ticker: self.ticker@,
            reason: self.reason,
            entry_price_cents: self.entry_price_cents,
            exit_price_cents: self.exit_price_cents,
            shares: self.shares,
            pnl_cents: self.pnl_cents,
            order_id: self.order_id@,
        }
    }
}

/// Settings of the process, fixed at startup.
#[derive(Debug, Clone)]
pub struct Config {
    pub max_shares: u32,
    pub max_daily_loss_cents: i64,
    pub max_consecutive_losses: u32,
    pub min_balance_cents: u64,
    /// Least time to expiry, in whole seconds, at which a market is entered.
    pub min_seconds_to_expiry: i64,
    pub tp_cents_per_share: u32,
    pub sl_cents_per_share: u32,
    pub entry_cycle_interval_secs: u64,
    pub position_check_interval_secs: u64,
    pub paper_trade: bool,
    pub confirm_live: bool,
    pub series_tickers: Vec<String>,
    pub kalshi_base_url: String,
    pub kalshi_ws_url: String,
    pub binance_ws_url: String,
    pub openrouter_api_key: String,
    pub kalshi_key_id: String,
    pub kalshi_private_key_pem: String,
    pub lockfile_path: String,
}

} // verus!
