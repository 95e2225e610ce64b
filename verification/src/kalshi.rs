//! The exchange's wire format: the records of its replies, what the engine
//! makes of them, and the notices of its stream.

use crate::clock::{rfc3339_millis, seconds_between, seconds_until, timestamp_millis};
use crate::json::{json_of, parse_json, Json};
use crate::text::same_text;
use crate::types::{
    FillEvent, FillEventView, MarketLifecycleEvent, MarketState, Orderbook, OrderbookUpdate,
    OrderbookUpdateView, Position, PositionView, RestingOrder, Settlement, SettlementView, Side,
};
use vstd::prelude::*;

verus! {

/// Reply to a listing of markets.
#[derive(Debug, Clone)]
pub struct MarketsResponse {
    pub markets: Vec<KalshiMarket>,
    pub cursor: Option<String>,
}

/// A market as the exchange lists it.
#[derive(Debug, Clone)]
pub struct KalshiMarket {
    pub ticker: String,
    pub event_ticker: String,
    pub market_type: Option<String>,
    pub title: String,
    pub subtitle: Option<String>,
    pub open_time: Option<String>,
    pub close_time: Option<String>,
    pub expiration_time: Option<String>,
    pub expected_expiration_time: Option<String>,
    pub status: Option<String>,
    pub yes_bid: Option<u32>,
    pub yes_ask: Option<u32>,
    pub no_bid: Option<u32>,
    pub no_ask: Option<u32>,
    pub last_price: Option<u32>,
    pub volume: Option<u64>,
    pub volume_24h: Option<u64>,
    pub open_interest: Option<u64>,
    pub result: Option<String>,
    pub series_ticker: Option<String>,
}

/// Reply to a request for an order book.
#[derive(Debug, Clone)]
pub struct OrderbookResponse {
    pub orderbook: OrderbookData,
}

/// The levels of an order book, each a list of numbers: price, quantity.
#[derive(Debug, Clone)]
pub struct OrderbookData {
    pub yes: Option<Vec<Vec<u64>>>,
    pub no: Option<Vec<Vec<u64>>>,
}

/// Reply to a placed order.
#[derive(Debug, Clone)]
pub struct CreateOrderResponse {
    pub order: OrderInfo,
}

/// The order as the exchange took it.
#[derive(Debug, Clone)]
pub struct OrderInfo {
    pub order_id: String,
    pub status: String,
}

/// Reply to a request for the balance, in cents.
#[derive(Debug, Clone, Copy)]
pub struct BalanceResponse {
    pub balance: u64,
}

/// Reply to a request for the positions.
#[derive(Debug, Clone)]
pub struct PositionsResponse {
    pub market_positions: Vec<KalshiPosition>,
}

/// Exposure on one market: positive on "Yes", negative on "No".
#[derive(Debug, Clone)]
pub struct KalshiPosition {
    pub ticker: String,
    pub market_exposure: Option<i64>,
    pub resting_orders_count: Option<u32>,
}

/// Reply to a listing of orders.
#[derive(Debug, Clone)]
pub struct OrdersResponse {
    pub orders: Vec<KalshiOrder>,
}

/// An order as the exchange lists it.
#[derive(Debug, Clone)]
pub struct KalshiOrder {
    pub order_id: String,
    pub ticker: String,
    pub status: String,
}

/// Reply to a request for settlements.
#[derive(Debug, Clone)]
pub struct SettlementsResponse {
    pub settlements: Vec<KalshiSettlement>,
}

/// A settled market of ours, with what it paid out.
#[derive(Debug, Clone)]
pub struct KalshiSettlement {
    pub ticker: String,
    pub market_result: String,
    pub revenue: Option<i64>,
    pub settled_time: Option<String>,
}

/// A notice of the exchange's stream.
#[derive(Debug, Clone)]
pub enum KalshiWsEvent {
    Orderbook(OrderbookUpdate),
    Fill(FillEvent),
    MarketLifecycle(MarketLifecycleEvent),
    Disconnected,
}

/// The view of a [`KalshiWsEvent`].
pub enum KalshiWsEventView {
    Orderbook(OrderbookUpdateView),
    Fill(FillEventView),
    MarketLifecycle { ticker: Seq<char>, status: Seq<char>, result: Option<Seq<char>> },
    Disconnected,
}

impl View for KalshiWsEvent {
    type V = KalshiWsEventView;

    open spec fn view(&self) -> KalshiWsEventView {
        match self {
            KalshiWsEvent::Orderbook(update) => KalshiWsEventView::Orderbook(update@),
            KalshiWsEvent::Fill(fill) => KalshiWsEventView::Fill(fill@),
            KalshiWsEvent::MarketLifecycle(m) => KalshiWsEventView::MarketLifecycle {
                ticker: m.ticker@,
                status: m.status@,
                result: match m.result {
                    Some(r) => Some(r@),
                    None => None,
                },
            },
            KalshiWsEvent::Disconnected => KalshiWsEventView::Disconnected,
        }
    }
}

/// The position that an exposure stands for: none for no exposure; "Yes"
/// for a positive one, "No" for a negative one; the count is the size of
/// the exposure, cut to 32 bits.
pub open spec fn position_of(p: KalshiPosition) -> Option<PositionView> {
    let exposure: int = match p.market_exposure {
        Some(e) => e as int,
        None => 0,
    };
    if exposure == 0 {
        None
    } else if exposure > 0 {
        Some(PositionView { ticker: p.ticker@, side: Side::Yes, count: (exposure as u64) as u32 })
    } else {
        Some(PositionView { ticker: p.ticker@, side: Side::No, count: ((-exposure) as u64) as u32 })
    }
}

/// The positions that the first `n` exposures stand for.
pub open spec fn positions_upto(ps: Seq<KalshiPosition>, n: int) -> Seq<PositionView>
    decreases n,
{
    if n <= 0 {
        Seq::empty()
    } else {
        match position_of(ps[n - 1]) {
            Some(p) => positions_upto(ps, n - 1).push(p),
            None => positions_upto(ps, n - 1),
        }
    }
}

/// The views of a list of positions.
pub open spec fn position_list(ps: Seq<Position>) -> Seq<PositionView> {
    Seq::new(ps.len(), |i: int| ps[i]@)
}

/// The positions that a reply reports: one for each market with exposure.
pub fn positions_from(resp: &PositionsResponse) -> (r: Vec<Position>)
    ensures
        position_list(r@) == positions_upto(
            resp.market_positions@,
            resp.market_positions@.len() as int,
        ),
{
    let mut out: Vec<Position> = Vec::new();
    let mut i: usize = 0;
    while i < resp.market_positions.len()
        invariant
            i <= resp.market_positions.len(),
            position_list(out@) == positions_upto(resp.market_positions@, i as int),
        decreases resp.market_positions.len() - i,
    {
        let p = &resp.market_positions[i];
        let exposure: i64 = match p.market_exposure {
            Some(e) => e,
            None => 0,
        };
        let ghost before = out@;
        if exposure != 0 {
            let size: u64 = if exposure > 0 {
                exposure as u64
            } else if exposure == i64::MIN {
                0x8000_0000_0000_0000
            } else {
                (-exposure) as u64
            };
            let position = Position {
                ticker: p.ticker.clone(),
                side: if exposure > 0 {
                    Side::Yes
                } else {
                    Side::No
                },
                count: #[verifier::truncate]
                (size as u32),
            };
            out.push(position);
            proof {
                assert(position_list(out@) =~= position_list(before).push(position@));
            }
        }
        i += 1;
    }
    out
}

/// The settlement that a record stands for: a win where revenue was paid,
/// a loss otherwise.
pub open spec fn settlement_of(s: KalshiSettlement) -> SettlementView {
    let revenue: i64 = match s.revenue {
        Some(r) => r,
        None => 0,
    };
    SettlementView {
        ticker: s.ticker@,
        side: Side::Yes,
        count: 0,
        price_cents: 0,
        result: if revenue > 0 {
            "win"@
        } else {
            "loss"@
        },
        pnl_cents: revenue,
        settled_time: match s.settled_time {
            Some(t) => t@,
            None => Seq::empty(),
        },
        market_result: s.market_result@,
    }
}

/// The settlements that a reply reports, in its order.
pub fn settlements_from(resp: &SettlementsResponse) -> (r: Vec<Settlement>)
    ensures
        r@.len() == resp.settlements@.len(),
        forall|i: int|
            0 <= i < r@.len() ==> (#[trigger] r@[i])@ == settlement_of(resp.settlements@[i]),
{
    let mut out: Vec<Settlement> = Vec::new();
    let mut i: usize = 0;
    while i < resp.settlements.len()
        invariant
            i <= resp.settlements.len(),
            out@.len() == i,
            forall|k: int|
                0 <= k < i ==> (#[trigger] out@[k])@ == settlement_of(resp.settlements@[k]),
        decreases resp.settlements.len() - i,
    {
        let s = &resp.settlements[i];
        let revenue: i64 = match s.revenue {
            Some(r) => r,
            None => 0,
        };
        out.push(
            Settlement {
                ticker: s.ticker.clone(),
                side: Side::Yes,
                count: 0,
                price_cents: 0,
                result: if revenue > 0 {
                    "win".to_owned()
                } else {
                    "loss".to_owned()
                },
                pnl_cents: revenue,
                settled_time: match &s.settled_time {
                    Some(t) => t.clone(),
                    None => String::new(),
                },
                market_result: s.market_result.clone(),
            },
        );
        i += 1;
    }
    out
}

/// The resting orders that a reply lists, in its order.
pub fn resting_from(resp: &OrdersResponse) -> (r: Vec<RestingOrder>)
    ensures
        r@.len() == resp.orders@.len(),
        forall|i: int|
            0 <= i < r@.len() ==> (#[trigger] r@[i]).order_id@ == resp.orders@[i].order_id@
                && r@[i].ticker@ == resp.orders@[i].ticker@,
{
    let mut out: Vec<RestingOrder> = Vec::new();
    let mut i: usize = 0;
    while i < resp.orders.len()
        invariant
            i <= resp.orders.len(),
            out@.len() == i,
            forall|k: int|
                0 <= k < i ==> (#[trigger] out@[k]).order_id@ == resp.orders@[k].order_id@
                    && out@[k].ticker@ == resp.orders@[k].ticker@,
        decreases resp.orders.len() - i,
    {
        let o = &resp.orders[i];
        out.push(RestingOrder { order_id: o.order_id.clone(), ticker: o.ticker.clone() });
        i += 1;
    }
    out
}

/// The level that a list of numbers stands for: its first two numbers, each
/// cut to 32 bits; none for a shorter list.
pub open spec fn wire_level(l: Seq<u64>) -> Option<(u32, u32)> {
    if l.len() >= 2 {
        Some((l[0] as u32, l[1] as u32))
    } else {
        None
    }
}

/// The levels that the first `n` lists stand for.
pub open spec fn wire_levels_upto(levels: Seq<Vec<u64>>, n: int) -> Seq<(u32, u32)>
    decreases n,
{
    if n <= 0 {
        Seq::empty()
    } else {
        match wire_level(levels[n - 1]@) {
            Some(l) => wire_levels_upto(levels, n - 1).push(l),
            None => wire_levels_upto(levels, n - 1),
        }
    }
}

/// The levels of one side of a reply; none where the side is missing.
pub open spec fn wire_side(side: Option<Vec<Vec<u64>>>) -> Seq<(u32, u32)> {
    match side {
        Some(levels) => wire_levels_upto(levels@, levels@.len() as int),
        None => Seq::empty(),
    }
}

fn side_from(side: &Option<Vec<Vec<u64>>>) -> (r: Vec<(u32, u32)>)
    ensures
        r@ == wire_side(*side),
{
    let mut out: Vec<(u32, u32)> = Vec::new();
    match side {
        Some(levels) => {
            let mut i: usize = 0;
            while i < levels.len()
                invariant
                    i <= levels.len(),
                    out@ == wire_levels_upto(levels@, i as int),
                decreases levels.len() - i,
            {
                let l = &levels[i];
                if l.len() >= 2 {
                    out.push((#[verifier::truncate]
                    (l[0] as u32), #[verifier::truncate]
                    (l[1] as u32)));
                }
                i += 1;
            }
        },
        None => {},
    }
    out
}

/// The order book that a reply holds.
pub fn orderbook_from(resp: &OrderbookResponse) -> (r: Orderbook)
    ensures
        r.yes@ == wire_side(resp.orderbook.yes),
        r.no@ == wire_side(resp.orderbook.no),
{
    Orderbook { yes: side_from(&resp.orderbook.yes), no: side_from(&resp.orderbook.no) }
}

/// The price of the "Yes" side that an order at `price_cents` on `side`
/// names: the price itself for "Yes", its complement to a dollar for "No".
pub fn yes_price(side: Side, price_cents: u32) -> (p: u32)
    requires
        side == Side::No ==> price_cents <= 100,
    ensures
        p == match side {
            Side::Yes => price_cents as int,
            Side::No => 100 - price_cents,
        },
{
    match side {
        Side::Yes => price_cents,
        Side::No => 100 - price_cents,
    }
}

/// What to do with a reply of the exchange.
#[derive(Debug, Clone, Copy, PartialEq, Eq, Structural)]
pub enum ReplyStep {
    /// Send the request once more after so many seconds.
    Retry { after_secs: u64 },
    /// Give up: the request failed.
    Fail,
    /// Read the body.
    Read,
}

/// What to do with a reply of HTTP status `status` after `attempts` earlier
/// retries: a first "too many requests" is retried after two seconds; any
/// other status outside 200 to 299 is a failure.
pub open spec fn reply_step_of(status: u16, attempts: u32) -> ReplyStep {
    if status == 429 && attempts < 1 {
        ReplyStep::Retry { after_secs: 2 }
    } else if status < 200 || status > 299 {
        ReplyStep::Fail
    } else {
        ReplyStep::Read
    }
}

/// Decides what to do with a reply of the exchange.
pub fn reply_step(status: u16, attempts: u32) -> (r: ReplyStep)
    ensures
        r == reply_step_of(status, attempts),
{
    if status == 429 && attempts < 1 {
        ReplyStep::Retry { after_secs: 2 }
    } else if status < 200 || status > 299 {
        ReplyStep::Fail
    } else {
        ReplyStep::Read
    }
}

/// The time at which a market is due: the expected expiration where the
/// exchange gives one, else the expiration.
pub open spec fn due_text(m: KalshiMarket) -> Option<Seq<char>> {
    match m.expected_expiration_time {
        Some(t) => Some(t@),
        None => match m.expiration_time {
            Some(t) => Some(t@),
            None => None,
        },
    }
}

/// Seconds from `now` until a market is due, where its due time can be
/// read.
pub open spec fn due_in(m: KalshiMarket, now: i64) -> Option<int> {
    match due_text(m) {
        Some(t) => match rfc3339_millis(t) {
            Some(at) => Some(seconds_between(now, at)),
            None => None,
        },
        None => None,
    }
}

/// The seconds until each market is due.
pub open spec fn dues(markets: Seq<KalshiMarket>, now: i64) -> Seq<Option<int>> {
    Seq::new(markets.len(), |i: int| due_in(markets[i], now))
}

/// Whether `i` is the place of the market to trade: the one due soonest
/// among those due in the future, the first of them where several are due
/// at once.
pub open spec fn is_soonest(dues: Seq<Option<int>>, i: int) -> bool {
    &&& 0 <= i < dues.len()
    &&& dues[i] matches Some(d)
    &&& d > 0
    &&& forall|k: int|
        0 <= k < dues.len() ==> (#[trigger] dues[k] matches Some(e) ==> e <= 0 || e > d || (e == d
            && k >= i))
}

/// Whether no market is due in the future.
pub open spec fn none_due(dues: Seq<Option<int>>) -> bool {
    forall|k: int| 0 <= k < dues.len() ==> (#[trigger] dues[k] matches Some(e) ==> e <= 0)
}

/// At most one place is that of the market to trade.
pub proof fn lemma_soonest_is_unique(dues: Seq<Option<int>>, i: int, j: int)
    requires
        is_soonest(dues, i),
        is_soonest(dues, j),
    ensures
        i == j,
        !none_due(dues),
{
    assert(dues[i] is Some && dues[j] is Some);
}

/// The views of a list of seconds.
pub open spec fn due_views(dues: Seq<Option<i64>>) -> Seq<Option<int>> {
    Seq::new(
        dues.len(),
        |i: int|
            match dues[i] {
                Some(d) => Some(d as int),
                None => None,
            },
    )
}

/// The place of the market due soonest in the future, the first of several
/// due at once; none where no market is due in the future.
pub fn soonest(dues: &Vec<Option<i64>>) -> (r: Option<usize>)
    ensures
        match r {
            Some(i) => is_soonest(due_views(dues@), i as int),
            None => none_due(due_views(dues@)),
        },
{
    let mut best: Option<usize> = None;
    let mut best_due: i64 = 0;
    let mut k: usize = 0;
    let ghost all = due_views(dues@);
    while k < dues.len()
        invariant
            k <= dues.len(),
            all == due_views(dues@),
            match best {
                Some(i) => {
                    &&& i < k
                    &&& all[i as int] == Some(best_due as int)
                    &&& best_due > 0
                    &&& forall|j: int|
                        0 <= j < k ==> (#[trigger] all[j] matches Some(e) ==> e <= 0 || e
                            > best_due || (e == best_due && j >= i))
                },
                None => forall|j: int|
                    0 <= j < k ==> (#[trigger] all[j] matches Some(e) ==> e <= 0),
            },
        decreases dues.len() - k,
    {
        match dues[k] {
            Some(d) => {
                if d > 0 && (best.is_none() || d < best_due) {
                    best = Some(k);
                    best_due = d;
                }
            },
            None => {},
        }
        k += 1;
    }
    best
}

/// The seconds from `now_millis` until each market is due.
fn dues_of(markets: &Vec<KalshiMarket>, now_millis: i64) -> (r: Vec<Option<i64>>)
    ensures
        due_views(r@) == dues(markets@, now_millis),
{
    let mut out: Vec<Option<i64>> = Vec::new();
    let mut i: usize = 0;
    while i < markets.len()
        invariant
            i <= markets.len(),
            out@.len() == i,
            forall|k: int| 0 <= k < i ==> due_views(out@)[k] == due_in(markets@[k], now_millis),
        decreases markets.len() - i,
    {
        let m = &markets[i];
        let at = match &m.expected_expiration_time {
            Some(t) => timestamp_millis(t.as_str()),
            None => match &m.expiration_time {
                Some(t) => timestamp_millis(t.as_str()),
                None => None,
            },
        };
        let due = match at {
            Some(at) => Some(seconds_until(now_millis, at)),
            None => None,
        };
        let ghost before = out@;
        out.push(due);
        proof {
            assert forall|k: int| 0 <= k < i + 1 implies due_views(out@)[k] == due_in(
                markets@[k],
                now_millis,
            ) by {
                if k < i {
                    assert(due_views(out@)[k] == due_views(before)[k]);
                }
            }
        }
        i += 1;
    }
    proof {
        assert(due_views(out@) =~= dues(markets@, now_millis));
    }
    out
}

/// What the engine keeps of a listed market that is due in `seconds`.
pub open spec fn listed(m: KalshiMarket, seconds: i64, r: MarketState) -> bool {
    &&& r.ticker@ == m.ticker@
    &&& r.event_ticker@ == m.event_ticker@
    &&& r.title@ == m.title@
    &&& r.yes_bid == m.yes_bid
    &&& r.yes_ask == m.yes_ask
    &&& r.no_bid == m.no_bid
    &&& r.no_ask == m.no_ask
    &&& r.last_price == m.last_price
    &&& r.volume == match m.volume {
        Some(v) => v,
        None => 0,
    }
    &&& r.volume_24h == match m.volume_24h {
        Some(v) => v,
        None => 0,
    }
    &&& r.open_interest == match m.open_interest {
        Some(v) => v,
        None => 0,
    }
    &&& r.expiration_time@ == match due_text(m) {
        Some(t) => t,
        None => Seq::empty(),
    }
    &&& r.seconds_to_expiry == seconds
}

/// The market of a listing to trade at `now_millis`: the one due soonest
/// among those due in the future, the first of them where several are due
/// at once; none where no market is due in the future. A market without a
/// readable due time is passed over.
pub fn active_market(resp: &MarketsResponse, now_millis: i64) -> (r: Option<MarketState>)
    ensures
        match r {
            Some(market) => exists|i: int|
                is_soonest(dues(resp.markets@, now_millis), i) && listed(
                    resp.markets@[i],
                    market.seconds_to_expiry,
                    market,
                ) && dues(resp.markets@, now_millis)[i] == Some(market.seconds_to_expiry as int),
            None => none_due(dues(resp.markets@, now_millis)),
        },
{
    let due = dues_of(&resp.markets, now_millis);
    match soonest(&due) {
        Some(i) => {
            let m = &resp.markets[i];
            let seconds = match due[i] {
                Some(d) => d,
                None => 0,
            };
            let market = MarketState {
                ticker: m.ticker.clone(),
                event_ticker: m.event_ticker.clone(),
                title: m.title.clone(),
                yes_bid: m.yes_bid,
                yes_ask: m.yes_ask,
                no_bid: m.no_bid,
                no_ask: m.no_ask,
                last_price: m.last_price,
                volume: match m.volume {
                    Some(v) => v,
                    None => 0,
                },
                volume_24h: match m.volume_24h {
                    Some(v) => v,
                    None => 0,
                },
                open_interest: match m.open_interest {
                    Some(v) => v,
                    None => 0,
                },
                expiration_time: match &m.expected_expiration_time {
                    Some(t) => t.clone(),
                    None => match &m.expiration_time {
                        Some(t) => t.clone(),
                        None => String::new(),
                    },
                },
                seconds_to_expiry: seconds,
            };
            proof {
                assert(due_views(due@)[i as int] == Some(seconds as int));
                assert(is_soonest(dues(resp.markets@, now_millis), i as int));
            }
            Some(market)
        },
        None => None,
    }
}

/// The level that a JSON item stands for: an array of at least two
/// numbers, each an integer of 0 or more, cut to 32 bits.
pub open spec fn json_level(item: Json) -> Option<(u32, u32)> {
    match item.items() {
        Some(l) => if l.len() >= 2 {
            match (l[0].unsigned(), l[1].unsigned()) {
                (Some(p), Some(q)) => Some((p as u32, q as u32)),
                _ => None,
            }
        } else {
            None
        },
        None => None,
    }
}

/// The levels that the first `n` items stand for.
pub open spec fn json_levels_upto(items: Seq<Json>, n: int) -> Seq<(u32, u32)>
    decreases n,
{
    if n <= 0 {
        Seq::empty()
    } else {
        match json_level(items[n - 1]) {
            Some(l) => json_levels_upto(items, n - 1).push(l),
            None => json_levels_upto(items, n - 1),
        }
    }
}

/// The levels under `name` in the body of a notice; none where the body has
/// no array of that name.
pub open spec fn json_side(body: Json, name: Seq<char>) -> Seq<(u32, u32)> {
    match body.field(name) {
        Some(side) => match side.items() {
            Some(items) => json_levels_upto(items, items.len() as int),
            None => Seq::empty(),
        },
        None => Seq::empty(),
    }
}

/// The text under `name` in an object.
pub open spec fn json_text(body: Json, name: Seq<char>) -> Option<Seq<char>> {
    match body.field(name) {
        Some(v) => v.text(),
        None => None,
    }
}

/// The number under `name` in an object.
pub open spec fn json_number(body: Json, name: Seq<char>) -> Option<u64> {
    match body.field(name) {
        Some(v) => v.unsigned(),
        None => None,
    }
}

/// The order-book notice in `body`.
pub open spec fn orderbook_notice(body: Json) -> Option<KalshiWsEventView> {
    match json_text(body, "market_ticker"@) {
        Some(ticker) => Some(
            KalshiWsEventView::Orderbook(
                OrderbookUpdateView {
                    ticker,
                    yes: json_side(body, "yes"@),
                    no: json_side(body, "no"@),
                },
            ),
        ),
        None => None,
    }
}

/// The price that a fill on `side` was made at, given the "Yes" price of
/// the notice: the price itself for "Yes", its complement to a dollar for
/// "No"; nothing where the notice names no price. None where the complement
/// would be negative.
pub open spec fn fill_price(side: Side, yes_price: Option<u64>) -> Option<u32> {
    match yes_price {
        None => Some(0),
        Some(p) => match side {
            Side::Yes => Some(p as u32),
            Side::No => if p as u32 <= 100 {
                Some((100 - (p as u32)) as u32)
            } else {
                None
            },
        },
    }
}

/// The side that a word names.
pub open spec fn side_named(word: Seq<char>) -> Option<Side> {
    if word == "yes"@ {
        Some(Side::Yes)
    } else if word == "no"@ {
        Some(Side::No)
    } else {
        None
    }
}

/// The fill notice in `body`.
pub open spec fn fill_notice(body: Json) -> Option<KalshiWsEventView> {
    match (
        json_text(body, "order_id"@),
        json_text(body, "market_ticker"@),
        json_text(body, "side"@),
        json_number(body, "count"@),
    ) {
        (Some(order_id), Some(ticker), Some(word), Some(count)) => match side_named(word) {
            Some(side) => match fill_price(side, json_number(body, "yes_price"@)) {
                Some(price_cents) => Some(
                    KalshiWsEventView::Fill(
                        FillEventView {
                            order_id,
                            ticker,
                            side,
                            shares: count as u32,
                            price_cents,
                        },
                    ),
                ),
                None => None,
            },
            None => None,
        },
        _ => None,
    }
}

/// The lifecycle notice in `body`.
pub open spec fn lifecycle_notice(body: Json) -> Option<KalshiWsEventView> {
    match (json_text(body, "market_ticker"@), json_text(body, "status"@)) {
        (Some(ticker), Some(status)) => Some(
            KalshiWsEventView::MarketLifecycle {
                ticker,
                status,
                result: json_text(body, "result"@),
            },
        ),
        _ => None,
    }
}

/// The notice that a message of the stream holds: decided by its `type`,
/// read from its `msg`. None for any other type and for a message that
/// lacks a field.
pub open spec fn notice_of(message: Json) -> Option<KalshiWsEventView> {
    match (json_text(message, "type"@), message.field("msg"@)) {
        (Some(kind), Some(body)) => if kind == "orderbook_snapshot"@ || kind
            == "orderbook_delta"@ {
            orderbook_notice(body)
        } else if kind == "fill"@ {
            fill_notice(body)
        } else if kind == "market_lifecycle"@ {
            lifecycle_notice(body)
        } else {
            None
        },
        _ => None,
    }
}

fn text_at(body: &Json, name: &str) -> (r: Option<String>)
    ensures
        match r {
            Some(s) => json_text(*body, name@) == Some(s@),
            None => json_text(*body, name@) is None,
        },
{
    match body.get(name) {
        Some(v) => match v.as_str() {
            Some(s) => Some(s.to_owned()),
            None => None,
        },
        None => None,
    }
}

fn number_at(body: &Json, name: &str) -> (r: Option<u64>)
    ensures
        r == json_number(*body, name@),
{
    match body.get(name) {
        Some(v) => v.as_u64(),
        None => None,
    }
}

fn level_from(item: &Json) -> (r: Option<(u32, u32)>)
    ensures
        r == json_level(*item),
{
    match item.as_array() {
        Some(l) => {
            if l.len() >= 2 {
                match (l[0].as_u64(), l[1].as_u64()) {
                    (Some(p), Some(q)) => Some(
                        (#[verifier::truncate]
                        (p as u32), #[verifier::truncate]
                        (q as u32)),
                    ),
                    _ => None,
                }
            } else {
                None
            }
        },
        None => None,
    }
}

fn side_at(body: &Json, name: &str) -> (r: Vec<(u32, u32)>)
    ensures
        r@ == json_side(*body, name@),
{
    let mut out: Vec<(u32, u32)> = Vec::new();
    match body.get(name) {
        Some(side) => match side.as_array() {
            Some(items) => {
                let mut i: usize = 0;
                while i < items.len()
                    invariant
                        i <= items.len(),
                        out@ == json_levels_upto(items@, i as int),
                    decreases items.len() - i,
                {
                    match level_from(&items[i]) {
                        Some(l) => {
                            out.push(l);
                        },
                        None => {},
                    }
                    i += 1;
                }
            },
            None => {},
        },
        None => {},
    }
    out
}

/// The notice that a message of the stream holds.
pub fn event_from_json(message: &Json) -> (r: Option<KalshiWsEvent>)
    ensures
        match r {
            Some(event) => notice_of(*message) == Some(event@),
            None => notice_of(*message) is None,
        },
{
    let kind = match text_at(message, "type") {
        Some(k) => k,
        None => {
            return None;
        },
    };
    let body = match message.get("msg") {
        Some(b) => b,
        None => {
            return None;
        },
    };
    if same_text(kind.as_str(), "orderbook_snapshot") || same_text(kind.as_str(), "orderbook_delta") {
        match text_at(body, "market_ticker") {
            Some(ticker) => Some(
                KalshiWsEvent::Orderbook(
                    OrderbookUpdate {
                        ticker,
                        yes: side_at(body, "yes"),
                        no: side_at(body, "no"),
                    },
                ),
            ),
            None => None,
        }
    } else if same_text(kind.as_str(), "fill") {
        let order_id = text_at(body, "order_id");
        let ticker = text_at(body, "market_ticker");
        let word = text_at(body, "side");
        let count = number_at(body, "count");
        match (order_id, ticker, word, count) {
            (Some(order_id), Some(ticker), Some(word), Some(count)) => {
                let side = if same_text(word.as_str(), "yes") {
                    Side::Yes
                } else if same_text(word.as_str(), "no") {
                    Side::No
                } else {
                    return None;
                };
                let price_cents: u32 = match number_at(body, "yes_price") {
                    None => 0,
                    Some(p) => {
                        let cut: u32 = #[verifier::truncate]
                        (p as u32);
                        match side {
                            Side::Yes => cut,
                            Side::No => {
                                if cut <= 100 {
                                    100 - cut
                                } else {
                                    return None;
                                }
                            },
                        }
                    },
                };
                Some(
                    KalshiWsEvent::Fill(
                        FillEvent {
                            order_id,
                            ticker,
                            side,
                            shares: #[verifier::truncate]
                            (count as u32),
                            price_cents,
                        },
                    ),
                )
            },
            _ => None,
        }
    } else if same_text(kind.as_str(), "market_lifecycle") {
        match (text_at(body, "market_ticker"), text_at(body, "status")) {
            (Some(ticker), Some(status)) => Some(
                KalshiWsEvent::MarketLifecycle(
                    MarketLifecycleEvent { ticker, status, result: text_at(body, "result") },
                ),
            ),
            _ => None,
        }
    } else {
        None
    }
}

/// The notice that a text message of the stream holds; none where the text
/// is not JSON.
pub open spec fn notice_in(text: Seq<char>) -> Option<KalshiWsEventView> {
    match json_of(text) {
        Some(message) => notice_of(message),
        None => None,
    }
}

/// Reads a text message of the stream.
pub fn parse_kalshi_message(text: &str) -> (r: Option<KalshiWsEvent>)
    ensures
        match r {
            Some(event) => notice_in(text@) == Some(event@),
            None => notice_in(text@) is None,
        },
{
    match parse_json(text) {
        Some(message) => event_from_json(&message),
        None => None,
    }
}

} // verus!
