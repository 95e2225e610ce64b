//! Open positions and the latest order book of each market, by market
//! ticker: `NoPosition -> Open` on a fill, `Open -> NoPosition` when the
//! position is cleared.

use crate::keyed::{
    distinct, has_key, key_index, keyed, lemma_key_at, lemma_keyed_absent, lemma_keyed_push,
    lemma_keyed_remove, lemma_keyed_update, without_key,
};
use crate::text::{chars_of, has_prefix, starts_with_chars};
use crate::types::{
    Config, ExitEvent, ExitEventView, ExitReason, FillEvent, FillEventView, OpenPosition,
    OpenPositionView, OrderRequest, OrderRequestView, OrderbookUpdate, OrderbookUpdateView, Side,
};
use vstd::prelude::*;

verus! {

/// The highest price among `levels`, if there are any.
pub open spec fn best_price(levels: Seq<(u32, u32)>) -> Option<u32>
    decreases levels.len(),
{
    if levels.len() == 0 {
        None
    } else {
        match best_price(levels.drop_last()) {
            Some(p) => Some(if p >= levels.last().0 {
                p
            } else {
                levels.last().0
            }),
            None => Some(levels.last().0),
        }
    }
}

/// The best price is the price of a level, and no level has a higher one;
/// there is none exactly when there are no levels.
pub proof fn lemma_best_price(levels: Seq<(u32, u32)>)
    ensures
        best_price(levels) is None <==> levels.len() == 0,
        best_price(levels) matches Some(p) ==> {
            &&& exists|i: int| 0 <= i < levels.len() && levels[i].0 == p
            &&& forall|i: int| 0 <= i < levels.len() ==> levels[i].0 <= p
        },
    decreases levels.len(),
{
    if levels.len() > 0 {
        let head = levels.drop_last();
        lemma_best_price(head);
        let p = best_price(levels)->0;
        if p == levels.last().0 {
            assert(levels[levels.len() - 1].0 == p);
        } else {
            let i = choose|i: int| 0 <= i < head.len() && head[i].0 == p;
            assert(levels[i].0 == p);
        }
        assert forall|i: int| 0 <= i < levels.len() implies levels[i].0 <= p by {
            if i < head.len() {
                assert(head[i].0 == levels[i].0);
            }
        }
    }
}

/// The price at which a position can be sold: the highest resting price on
/// the side that the position holds.
pub open spec fn exit_price(pos: OpenPositionView, book: OrderbookUpdateView) -> Option<u32> {
    best_price(
        match pos.side {
            Side::Yes => book.yes,
            Side::No => book.no,
        },
    )
}

/// The state of a [`PositionManager`]: the open position and the cached
/// order book of each ticker, the tickers with a position in the order in
/// which they were opened, and the two exit thresholds.
pub struct PositionManagerView {
    pub positions: Map<Seq<char>, OpenPositionView>,
    pub orderbooks: Map<Seq<char>, OrderbookUpdateView>,
    pub tickers: Seq<Seq<char>>,
    pub tp_cents: u32,
    pub sl_cents: u32,
}

impl PositionManagerView {
    /// The tickers are those that have a position, each once; every position
    /// and every order book is held under its own ticker.
    pub open spec fn wf(self) -> bool {
        &&& distinct(self.tickers)
        &&& forall|t: Seq<char>| self.positions.contains_key(t) <==> has_key(self.tickers, t)
        &&& forall|t: Seq<char>| #[trigger]
            self.positions.contains_key(t) ==> self.positions[t].ticker == t
        &&& forall|t: Seq<char>| #[trigger]
            self.orderbooks.contains_key(t) ==> self.orderbooks[t].ticker == t
    }

    /// The state after a fill: the fill's position stands under its ticker,
    /// in place of an earlier one if there was one.
    pub open spec fn filled(self, fill: FillEventView, entered_at: Seq<char>) -> Self {
        PositionManagerView {
            positions: self.positions.insert(
                fill.ticker,
                OpenPositionView {
                    ticker: fill.ticker,
                    side: fill.side,
                    shares: fill.shares,
                    entry_price_cents: fill.price_cents,
                    order_id: fill.order_id,
                    entered_at,
                },
            ),
            tickers: if self.positions.contains_key(fill.ticker) {
                self.tickers
            } else {
                self.tickers.push(fill.ticker)
            },
            ..self
        }
    }

    /// The state after an order-book update: the update stands under its
    /// ticker, in place of an earlier one if there was one.
    pub open spec fn with_book(self, update: OrderbookUpdateView) -> Self {
        PositionManagerView { orderbooks: self.orderbooks.insert(update.ticker, update), ..self }
    }

    /// The state without the position and the order book of `ticker`.
    pub open spec fn cleared(self, ticker: Seq<char>) -> Self {
        PositionManagerView {
            positions: self.positions.remove(ticker),
            orderbooks: self.orderbooks.remove(ticker),
            tickers: without_key(self.tickers, ticker),
            ..self
        }
    }

    /// The price at which the position of `ticker` can be sold: none unless
    /// the ticker has both a position and an order book, and the book has
    /// depth on the position's side.
    pub open spec fn exit_price_of(self, ticker: Seq<char>) -> Option<u32> {
        if self.positions.contains_key(ticker) && self.orderbooks.contains_key(ticker) {
            exit_price(self.positions[ticker], self.orderbooks[ticker])
        } else {
            None
        }
    }

    /// Exit price minus entry price, in cents per share.
    pub open spec fn pnl_per_share(self, ticker: Seq<char>) -> Option<int> {
        match self.exit_price_of(ticker) {
            Some(p) => Some(p - self.positions[ticker].entry_price_cents),
            None => None,
        }
    }

    /// The exit that the position of `ticker` calls for: take profit at or
    /// above the profit threshold, stop loss at or below the negated loss
    /// threshold, none in between or without a price.
    pub open spec fn exit_signal(self, ticker: Seq<char>) -> Option<ExitReason> {
        match self.pnl_per_share(ticker) {
            Some(pnl) => if pnl >= self.tp_cents {
                Some(ExitReason::TakeProfit)
            } else if pnl <= -self.sl_cents {
                Some(ExitReason::StopLoss)
            } else {
                None
            },
            None => None,
        }
    }

    /// The exits that the first `n` tickers call for, in their order.
    pub open spec fn exit_signals_upto(self, n: int) -> Seq<(Seq<char>, ExitReason)>
        decreases n,
    {
        if n <= 0 {
            Seq::empty()
        } else {
            let head = self.exit_signals_upto(n - 1);
            match self.exit_signal(self.tickers[n - 1]) {
                Some(reason) => head.push((self.tickers[n - 1], reason)),
                None => head,
            }
        }
    }

    /// The exits that the open positions call for.
    pub open spec fn exit_signals(self) -> Seq<(Seq<char>, ExitReason)> {
        self.exit_signals_upto(self.tickers.len() as int)
    }

    /// The order that closes the position of `ticker`.
    pub open spec fn exit_order(self, ticker: Seq<char>) -> Option<OrderRequestView> {
        match self.exit_price_of(ticker) {
            Some(p) => Some(
                OrderRequestView {
                    ticker: self.positions[ticker].ticker,
                    side: self.positions[ticker].side,
                    shares: self.positions[ticker].shares,
                    price_cents: p,
                },
            ),
            None => None,
        }
    }

    /// The record of closing the position of `ticker` for `reason`: none
    /// without an exit price, or if the total does not fit in 64 bits.
    pub open spec fn exit_event(self, ticker: Seq<char>, reason: ExitReason) -> Option<
        ExitEventView,
    > {
        match self.exit_price_of(ticker) {
            Some(p) => {
                let pos = self.positions[ticker];
                let total = (p - pos.entry_price_cents) * pos.shares;
                if i64::MIN <= total <= i64::MAX {
                    Some(
                        ExitEventView {
                            ticker: pos.ticker,
                            reason,
                            entry_price_cents: pos.entry_price_cents,
                            exit_price_cents: p,
                            shares: pos.shares,
                            pnl_cents: total as i64,
                            order_id: pos.order_id,
                        },
                    )
                } else {
                    None
                }
            },
            None => None,
        }
    }
}

/// The views of a list of exits.
pub open spec fn exit_views(v: Seq<(String, ExitReason)>) -> Seq<(Seq<char>, ExitReason)> {
    Seq::new(v.len(), |i: int| (v[i].0@, v[i].1))
}

/// The views of a list of strings.
pub open spec fn string_views(v: Seq<String>) -> Seq<Seq<char>> {
    Seq::new(v.len(), |i: int| v[i]@)
}

/// The tickers of a list of positions.
pub open spec fn position_keys(ps: Seq<OpenPosition>) -> Seq<Seq<char>> {
    Seq::new(ps.len(), |i: int| ps[i].ticker@)
}

/// The views of a list of positions.
pub open spec fn position_views(ps: Seq<OpenPosition>) -> Seq<OpenPositionView> {
    Seq::new(ps.len(), |i: int| ps[i]@)
}

/// The tickers of a list of order books.
pub open spec fn book_keys(bs: Seq<OrderbookUpdate>) -> Seq<Seq<char>> {
    Seq::new(bs.len(), |i: int| bs[i].ticker@)
}

/// The views of a list of order books.
pub open spec fn book_views(bs: Seq<OrderbookUpdate>) -> Seq<OrderbookUpdateView> {
    Seq::new(bs.len(), |i: int| bs[i]@)
}

/// The highest price among `levels`.
fn best_level_price(levels: &Vec<(u32, u32)>) -> (r: Option<u32>)
    ensures
        r == best_price(levels@),
{
    let mut best: Option<u32> = None;
    let mut i: usize = 0;
    proof {
        assert(levels@.take(0) =~= Seq::<(u32, u32)>::empty());
    }
    while i < levels.len()
        invariant
            i <= levels.len(),
            best == best_price(levels@.take(i as int)),
        decreases levels.len() - i,
    {
        let price = levels[i].0;
        proof {
            let next = levels@.take(i + 1);
            assert(next.drop_last() =~= levels@.take(i as int));
            assert(next.last() == levels@[i as int]);
        }
        best = match best {
            Some(p) => Some(if p >= price {
                p
            } else {
                price
            }),
            None => Some(price),
        };
        i += 1;
    }
    proof {
        assert(levels@.take(levels.len() as int) =~= levels@);
    }
    best
}

/// The price at which `pos` can be sold into `ob`: the highest resting price
/// on the side that the position holds.
pub fn best_exit_price(pos: &OpenPosition, ob: &OrderbookUpdate) -> (r: Option<u32>)
    ensures
        r == exit_price(pos@, ob@),
{
    match pos.side {
        Side::Yes => best_level_price(&ob.yes),
        Side::No => best_level_price(&ob.no),
    }
}

/// Open positions and cached order books, keyed by market ticker.
pub struct PositionManager {
    positions: Vec<OpenPosition>,
    orderbooks: Vec<OrderbookUpdate>,
    tp_cents: u32,
    sl_cents: u32,
}

impl View for PositionManager {
    type V = PositionManagerView;

    closed spec fn view(&self) -> PositionManagerView {
        PositionManagerView {
            positions: keyed(position_keys(self.positions@), position_views(self.positions@)),
            orderbooks: keyed(book_keys(self.orderbooks@), book_views(self.orderbooks@)),
            tickers: position_keys(self.positions@),
            tp_cents: self.tp_cents,
            sl_cents: self.sl_cents,
        }
    }
}

impl PositionManager {
    #[verifier::type_invariant]
    closed spec fn inv(&self) -> bool {
        &&& distinct(position_keys(self.positions@))
        &&& distinct(book_keys(self.orderbooks@))
    }

    proof fn lemma_view_wf(&self)
        requires
            self.inv(),
        ensures
            self@.wf(),
    {
        let keys = position_keys(self.positions@);
        let vals = position_views(self.positions@);
        assert forall|t: Seq<char>| #[trigger]
            self@.positions.contains_key(t) implies self@.positions[t].ticker == t by {
            lemma_key_at(keys, vals, key_index(keys, t));
        }
        let bkeys = book_keys(self.orderbooks@);
        let bvals = book_views(self.orderbooks@);
        assert forall|t: Seq<char>| #[trigger]
            self@.orderbooks.contains_key(t) implies self@.orderbooks[t].ticker == t by {
            lemma_key_at(bkeys, bvals, key_index(bkeys, t));
        }
    }

    /// A manager without positions or order books, with the thresholds of
    /// `config`.
    pub fn new(config: &Config) -> (r: Self)
        ensures
            r@.positions == Map::<Seq<char>, OpenPositionView>::empty(),
            r@.orderbooks == Map::<Seq<char>, OrderbookUpdateView>::empty(),
            r@.tickers == Seq::<Seq<char>>::empty(),
            r@.tp_cents == config.tp_cents_per_share,
            r@.sl_cents == config.sl_cents_per_share,
            r@.wf(),
    {
        let r = PositionManager {
            positions: Vec::new(),
            orderbooks: Vec::new(),
            tp_cents: config.tp_cents_per_share,
            sl_cents: config.sl_cents_per_share,
        };
        proof {
            assert(r@.positions =~= Map::<Seq<char>, OpenPositionView>::empty());
            assert(r@.orderbooks =~= Map::<Seq<char>, OrderbookUpdateView>::empty());
            assert(r@.tickers =~= Seq::<Seq<char>>::empty());
            r.lemma_view_wf();
        }
        r
    }

    /// Moves the state out of `self`, leaving an empty manager behind.
    fn take(&mut self) -> (r: Self)
        ensures
            r.positions == old(self).positions,
            r.orderbooks == old(self).orderbooks,
            r.tp_cents == old(self).tp_cents,
            r.sl_cents == old(self).sl_cents,
    {
        let mut r = PositionManager {
            positions: Vec::new(),
            orderbooks: Vec::new(),
            tp_cents: self.tp_cents,
            sl_cents: self.sl_cents,
        };
        core::mem::swap(self, &mut r);
        r
    }

    fn find_position(&self, ticker: &String) -> (r: Option<usize>)
        ensures
            match r {
                Some(i) => i < self.positions.len() && self.positions[i as int].ticker@ == ticker@,
                None => !has_key(position_keys(self.positions@), ticker@),
            },
    {
        let mut i: usize = 0;
        while i < self.positions.len()
            invariant
                i <= self.positions.len(),
                forall|j: int| 0 <= j < i ==> position_keys(self.positions@)[j] != ticker@,
            decreases self.positions.len() - i,
        {
            if self.positions[i].ticker == *ticker {
                return Some(i);
            }
            i += 1;
        }
        None
    }

    fn find_book(&self, ticker: &String) -> (r: Option<usize>)
        ensures
            match r {
                Some(i) => i < self.orderbooks.len() && self.orderbooks[i as int].ticker@
                    == ticker@,
                None => !has_key(book_keys(self.orderbooks@), ticker@),
            },
    {
        let mut i: usize = 0;
        while i < self.orderbooks.len()
            invariant
                i <= self.orderbooks.len(),
                forall|j: int| 0 <= j < i ==> book_keys(self.orderbooks@)[j] != ticker@,
            decreases self.orderbooks.len() - i,
        {
            if self.orderbooks[i].ticker == *ticker {
                return Some(i);
            }
            i += 1;
        }
        None
    }

    /// The position and the order book of `ticker`, where it has both.
    fn find_pair(&self, ticker: &str) -> (r: Option<(usize, usize)>)
        ensures
            self@.wf(),
            match r {
                Some((i, j)) => {
                    &&& i < self.positions.len()
                    &&& j < self.orderbooks.len()
                    &&& self@.positions.contains_key(ticker@)
                    &&& self@.orderbooks.contains_key(ticker@)
                    &&& self@.positions[ticker@] == self.positions[i as int]@
                    &&& self@.orderbooks[ticker@] == self.orderbooks[j as int]@
                },
                None => !self@.positions.contains_key(ticker@) || !self@.orderbooks.contains_key(
                    ticker@,
                ),
            },
    {
        proof {
            use_type_invariant(self);
            self.lemma_view_wf();
        }
        let key = ticker.to_owned();
        match self.find_position(&key) {
            Some(i) => match self.find_book(&key) {
                Some(j) => {
                    proof {
                        lemma_key_at(
                            position_keys(self.positions@),
                            position_views(self.positions@),
                            i as int,
                        );
                        lemma_key_at(
                            book_keys(self.orderbooks@),
                            book_views(self.orderbooks@),
                            j as int,
                        );
                    }
                    Some((i, j))
                },
                None => None,
            },
            None => None,
        }
    }

    /// The number of open positions.
    pub fn position_count(&self) -> (n: usize)
        ensures
            n == self@.tickers.len(),
            self@.wf(),
    {
        proof {
            use_type_invariant(self);
            self.lemma_view_wf();
        }
        self.positions.len()
    }

    /// Whether a position is open on a market whose ticker begins with
    /// `series`.
    pub fn has_position_for_series(&self, series: &str) -> (r: bool)
        ensures
            r == exists|i: int|
                0 <= i < self@.tickers.len() && has_prefix(#[trigger] self@.tickers[i], series@),
            self@.wf(),
    {
        proof {
            use_type_invariant(self);
            self.lemma_view_wf();
        }
        let prefix = chars_of(series);
        let mut i: usize = 0;
        while i < self.positions.len()
            invariant
                i <= self.positions.len(),
                prefix@ == series@,
                self@.wf(),
                forall|j: int| 0 <= j < i ==> !has_prefix(#[trigger] self@.tickers[j], series@),
            decreases self.positions.len() - i,
        {
            let ticker = chars_of(self.positions[i].ticker.as_str());
            if starts_with_chars(&ticker, &prefix) {
                proof {
                    assert(has_prefix(self@.tickers[i as int], series@));
                }
                return true;
            }
            i += 1;
        }
        false
    }

    /// The open position of `ticker`, if there is one.
    pub fn position_for_ticker(&self, ticker: &str) -> (r: Option<&OpenPosition>)
        ensures
            match r {
                Some(p) => self@.positions.contains_key(ticker@) && p@ == self@.positions[ticker@],
                None => !self@.positions.contains_key(ticker@),
            },
            self@.wf(),
    {
        proof {
            use_type_invariant(self);
            self.lemma_view_wf();
        }
        let key = ticker.to_owned();
        match self.find_position(&key) {
            Some(i) => {
                proof {
                    lemma_key_at(
                        position_keys(self.positions@),
                        position_views(self.positions@),
                        i as int,
                    );
                }
                Some(&self.positions[i])
            },
            None => None,
        }
    }

    /// Every open position, in the order in which the positions were opened.
    pub fn all_positions(&self) -> (r: Vec<&OpenPosition>)
        ensures
            r@.len() == self@.tickers.len(),
            forall|i: int|
                0 <= i < r@.len() ==> {
                    &&& self@.positions.contains_key(self@.tickers[i])
                    &&& (#[trigger] r@[i])@ == self@.positions[self@.tickers[i]]
                },
            self@.wf(),
    {
        proof {
            use_type_invariant(self);
            self.lemma_view_wf();
        }
        let mut r: Vec<&OpenPosition> = Vec::new();
        let mut i: usize = 0;
        while i < self.positions.len()
            invariant
                i <= self.positions.len(),
                r@.len() == i,
                distinct(position_keys(self.positions@)),
                forall|j: int|
                    0 <= j < i ==> {
                        &&& self@.positions.contains_key(self@.tickers[j])
                        &&& (#[trigger] r@[j])@ == self@.positions[self@.tickers[j]]
                    },
            decreases self.positions.len() - i,
        {
            proof {
                lemma_key_at(
                    position_keys(self.positions@),
                    position_views(self.positions@),
                    i as int,
                );
            }
            r.push(&self.positions[i]);
            i += 1;
        }
        r
    }

    /// The tickers with an open position, in the order in which the
    /// positions were opened.
    pub fn position_tickers(&self) -> (r: Vec<String>)
        ensures
            string_views(r@) == self@.tickers,
            self@.wf(),
    {
        proof {
            use_type_invariant(self);
            self.lemma_view_wf();
        }
        let mut r: Vec<String> = Vec::new();
        let mut i: usize = 0;
        while i < self.positions.len()
            invariant
                i <= self.positions.len(),
                string_views(r@) == self@.tickers.take(i as int),
            decreases self.positions.len() - i,
        {
            let ghost before = r@;
            let ticker = self.positions[i].ticker.clone();
            proof {
                assert(self@.tickers[i as int] == ticker@);
            }
            r.push(ticker);
            i += 1;
            proof {
                assert(string_views(r@) =~= string_views(before).push(ticker@));
                assert(string_views(r@) =~= self@.tickers.take(i as int));
            }
        }
        proof {
            assert(self@.tickers.take(self.positions.len() as int) =~= self@.tickers);
        }
        r
    }

    /// Records a fill: the ticker's position becomes the fill's, entered at
    /// `entered_at`. A position that the ticker already had is replaced.
    pub fn on_fill(&mut self, fill: &FillEvent, entered_at: &str)
        ensures
            final(self)@ == old(self)@.filled(fill@, entered_at@),
            final(self)@.wf(),
    {
        proof {
            use_type_invariant(&*self);
        }
        let pos = OpenPosition {
            ticker: fill.ticker.clone(),
            side: fill.side,
            shares: fill.shares,
            entry_price_cents: fill.price_cents,
            order_id: fill.order_id.clone(),
            entered_at: entered_at.to_owned(),
        };
        let ghost keys = position_keys(self.positions@);
        let ghost vals = position_views(self.positions@);
        let found = self.find_position(&fill.ticker);
        let PositionManager { positions: mut positions, orderbooks, tp_cents, sl_cents } =
            self.take();
        match found {
            Some(i) => {
                positions.set(i, pos);
                proof {
                    assert(position_keys(positions@) =~= keys);
                    assert(position_views(positions@) =~= vals.update(i as int, pos@));
                    lemma_key_at(keys, vals, i as int);
                    lemma_keyed_update(keys, vals, i as int, pos@);
                }
            },
            None => {
                positions.push(pos);
                proof {
                    assert(position_keys(positions@) =~= keys.push(fill.ticker@));
                    assert(position_views(positions@) =~= vals.push(pos@));
                    lemma_keyed_push(keys, vals, fill.ticker@, pos@);
                }
            },
        }
        *self = PositionManager { positions, orderbooks, tp_cents, sl_cents };
        proof {
            self.lemma_view_wf();
        }
    }

    /// Caches an order book: it becomes the ticker's book, in place of an
    /// earlier one.
    pub fn on_orderbook_update(&mut self, update: OrderbookUpdate)
        ensures
            final(self)@ == old(self)@.with_book(update@),
            final(self)@.wf(),
    {
        proof {
            use_type_invariant(&*self);
        }
        let ghost keys = book_keys(self.orderbooks@);
        let ghost vals = book_views(self.orderbooks@);
        let found = self.find_book(&update.ticker);
        let PositionManager { positions, orderbooks: mut orderbooks, tp_cents, sl_cents } =
            self.take();
        match found {
            Some(i) => {
                orderbooks.set(i, update);
                proof {
                    assert(book_keys(orderbooks@) =~= keys);
                    assert(book_views(orderbooks@) =~= vals.update(i as int, update@));
                    lemma_key_at(keys, vals, i as int);
                    lemma_keyed_update(keys, vals, i as int, update@);
                }
            },
            None => {
                orderbooks.push(update);
                proof {
                    assert(book_keys(orderbooks@) =~= keys.push(update.ticker@));
                    assert(book_views(orderbooks@) =~= vals.push(update@));
                    lemma_keyed_push(keys, vals, update.ticker@, update@);
                }
            },
        }
        *self = PositionManager { positions, orderbooks, tp_cents, sl_cents };
        proof {
            self.lemma_view_wf();
        }
    }

    /// Profit or loss per share, in cents, if the position of `ticker` were
    /// sold at the best resting price of its own side: none unless the
    /// ticker has a position and an order book with depth on that side.
    pub fn unrealized_pnl_per_share(&self, ticker: &str) -> (r: Option<i64>)
        ensures
            match r {
                Some(pnl) => self@.pnl_per_share(ticker@) == Some(pnl as int),
                None => self@.pnl_per_share(ticker@) is None,
            },
            self@.wf(),
    {
        match self.find_pair(ticker) {
            Some((i, j)) => {
                match best_exit_price(&self.positions[i], &self.orderbooks[j]) {
                    Some(p) => Some(p as i64 - self.positions[i].entry_price_cents as i64),
                    None => None,
                }
            },
            None => None,
        }
    }

    /// The exits that the open positions call for, in the order in which the
    /// positions were opened.
    pub fn check_exits(&self) -> (r: Vec<(String, ExitReason)>)
        ensures
            exit_views(r@) == self@.exit_signals(),
            self@.wf(),
    {
        proof {
            use_type_invariant(self);
            self.lemma_view_wf();
        }
        let mut exits: Vec<(String, ExitReason)> = Vec::new();
        let mut i: usize = 0;
        while i < self.positions.len()
            invariant
                i <= self.positions.len(),
                self@.tickers.len() == self.positions.len(),
                forall|k: int|
                    0 <= k < self.positions.len() ==> self@.tickers[k]
                        == #[trigger] self.positions[k].ticker@,
                exit_views(exits@) == self@.exit_signals_upto(i as int),
            decreases self.positions.len() - i,
        {
            let ghost before = exits@;
            let ticker = self.positions[i].ticker.clone();
            match self.unrealized_pnl_per_share(ticker.as_str()) {
                Some(pnl) => {
                    if pnl >= self.tp_cents as i64 {
                        exits.push((ticker, ExitReason::TakeProfit));
                        proof {
                            assert(exit_views(exits@) =~= exit_views(before).push(
                                (self@.tickers[i as int], ExitReason::TakeProfit),
                            ));
                        }
                    } else if pnl <= -(self.sl_cents as i64) {
                        exits.push((ticker, ExitReason::StopLoss));
                        proof {
                            assert(exit_views(exits@) =~= exit_views(before).push(
                                (self@.tickers[i as int], ExitReason::StopLoss),
                            ));
                        }
                    }
                },
                None => {},
            }
            i += 1;
        }
        exits
    }

    /// The order that sells the position of `ticker` at the best resting
    /// price of its own side: none unless the ticker has a position and an
    /// order book with depth on that side.
    pub fn build_exit_order(&self, ticker: &str) -> (r: Option<OrderRequest>)
        ensures
            match r {
                Some(order) => self@.exit_order(ticker@) == Some(order@),
                None => self@.exit_order(ticker@) is None,
            },
            self@.wf(),
    {
        match self.find_pair(ticker) {
            Some((i, j)) => {
                let pos = &self.positions[i];
                match best_exit_price(pos, &self.orderbooks[j]) {
                    Some(p) => Some(
                        OrderRequest {
                            ticker: pos.ticker.clone(),
                            side: pos.side,
                            shares: pos.shares,
                            price_cents: p,
                        },
                    ),
                    None => None,
                }
            },
            None => None,
        }
    }

    /// The ledger record of closing the position of `ticker` for `reason`
    /// at the best resting price of its own side. Its profit and loss is the
    /// per-share figure times the shares. None unless the ticker has a
    /// position and an order book with depth on that side, and the total fits
    /// in 64 bits.
    pub fn build_exit_event(&self, ticker: &str, reason: ExitReason) -> (r: Option<ExitEvent>)
        ensures
            match r {
                Some(event) => self@.exit_event(ticker@, reason) == Some(event@),
                None => self@.exit_event(ticker@, reason) is None,
            },
            self@.wf(),
    {
        match self.find_pair(ticker) {
            Some((i, j)) => {
                let pos = &self.positions[i];
                match best_exit_price(pos, &self.orderbooks[j]) {
                    Some(p) => {
                        let per_share: i128 = p as i128 - pos.entry_price_cents as i128;
                        assert(-0x1_0000_0000_0000_0000 < per_share * (pos.shares as i128)
                            < 0x1_0000_0000_0000_0000) by (nonlinear_arith)
                            requires
                                -0x1_0000_0000 < per_share < 0x1_0000_0000,
                                0 <= pos.shares < 0x1_0000_0000,
                        ;
                        let total: i128 = per_share * (pos.shares as i128);
                        if total < i64::MIN as i128 || total > i64::MAX as i128 {
                            return None;
                        }
                        Some(
                            ExitEvent {
                                ticker: pos.ticker.clone(),
                                reason,
                                entry_price_cents: pos.entry_price_cents,
                                exit_price_cents: p,
                                shares: pos.shares,
                                pnl_cents: total as i64,
                                order_id: pos.order_id.clone(),
                            },
                        )
                    },
                    None => None,
                }
            },
            None => None,
        }
    }

    /// Forgets the position and the order book of `ticker`. Without either,
    /// nothing changes.
    pub fn clear_position(&mut self, ticker: &str)
        ensures
            final(self)@ == old(self)@.cleared(ticker@),
            final(self)@.wf(),
    {
        proof {
            use_type_invariant(&*self);
        }
        let key = ticker.to_owned();
        let ghost keys = position_keys(self.positions@);
        let ghost vals = position_views(self.positions@);
        let ghost bkeys = book_keys(self.orderbooks@);
        let ghost bvals = book_views(self.orderbooks@);
        let found_position = self.find_position(&key);
        let found_book = self.find_book(&key);
        let PositionManager {
            positions: mut positions,
            orderbooks: mut orderbooks,
            tp_cents,
            sl_cents,
        } = self.take();
        match found_position {
            Some(i) => {
                positions.remove(i);
                proof {
                    assert(position_keys(positions@) =~= keys.remove(i as int));
                    assert(position_views(positions@) =~= vals.remove(i as int));
                    lemma_keyed_remove(keys, vals, i as int);
                }
            },
            None => {
                proof {
                    lemma_keyed_absent(keys, vals, ticker@);
                }
            },
        }
        match found_book {
            Some(j) => {
                orderbooks.remove(j);
                proof {
                    assert(book_keys(orderbooks@) =~= bkeys.remove(j as int));
                    assert(book_views(orderbooks@) =~= bvals.remove(j as int));
                    lemma_keyed_remove(bkeys, bvals, j as int);
                }
            },
            None => {
                proof {
                    lemma_keyed_absent(bkeys, bvals, ticker@);
                }
            },
        }
        *self = PositionManager { positions, orderbooks, tp_cents, sl_cents };
        proof {
            self.lemma_view_wf();
        }
    }
}

/// Every change keeps the state well formed: a ticker has at most one
/// position and at most one order book, whatever fills, order books and
/// clearings come, and in whatever order.
pub proof fn lemma_changes_keep_wf(
    v: PositionManagerView,
    fill: FillEventView,
    entered_at: Seq<char>,
    update: OrderbookUpdateView,
    ticker: Seq<char>,
)
    requires
        v.wf(),
    ensures
        v.filled(fill, entered_at).wf(),
        v.with_book(update).wf(),
        v.cleared(ticker).wf(),
{
    let f = v.filled(fill, entered_at);
    assert(distinct(f.tickers)) by {
        if !v.positions.contains_key(fill.ticker) {
            lemma_keyed_push(v.tickers, v.tickers, fill.ticker, fill.ticker);
        }
    }
    assert forall|t: Seq<char>| f.positions.contains_key(t) <==> has_key(f.tickers, t) by {
        if has_key(v.tickers, t) {
            let i = key_index(v.tickers, t);
            assert(f.tickers[i] == t);
        }
        if has_key(f.tickers, t) {
            let i = key_index(f.tickers, t);
            if i < v.tickers.len() {
                assert(v.tickers[i] == t);
            }
        }
        if t == fill.ticker && !v.positions.contains_key(fill.ticker) {
            assert(f.tickers[v.tickers.len() as int] == t);
        }
    }
    let c = v.cleared(ticker);
    if has_key(v.tickers, ticker) {
        let i = key_index(v.tickers, ticker);
        lemma_keyed_remove(v.tickers, v.tickers, i);
        assert forall|t: Seq<char>| c.positions.contains_key(t) <==> has_key(c.tickers, t) by {
            if has_key(c.tickers, t) {
                let a = key_index(c.tickers, t);
                let a1 = if a < i {
                    a
                } else {
                    a + 1
                };
                assert(c.tickers[a] == v.tickers[a1]);
            }
            if has_key(v.tickers, t) && t != ticker {
                let b = key_index(v.tickers, t);
                let b2 = if b < i {
                    b
                } else {
                    b - 1
                };
                assert(c.tickers[b2] == v.tickers[b]);
            }
        }
    }
}

/// Clearing a ticker twice is clearing it once, and clearing a ticker that
/// has neither position nor order book changes nothing.
pub proof fn lemma_clear_is_idempotent(v: PositionManagerView, ticker: Seq<char>)
    requires
        v.wf(),
    ensures
        v.cleared(ticker).cleared(ticker) == v.cleared(ticker),
        !v.positions.contains_key(ticker) && !v.orderbooks.contains_key(ticker) ==> v.cleared(
            ticker,
        ) == v,
{
    let c = v.cleared(ticker);
    lemma_changes_keep_wf(
        v,
        FillEventView {
            order_id: Seq::empty(),
            ticker,
            side: Side::Yes,
            shares: 0,
            price_cents: 0,
        },
        Seq::empty(),
        OrderbookUpdateView { ticker, yes: Seq::empty(), no: Seq::empty() },
        ticker,
    );
    assert(!has_key(c.tickers, ticker));
    assert(c.positions.remove(ticker) =~= c.positions);
    assert(c.orderbooks.remove(ticker) =~= c.orderbooks);
    if !v.positions.contains_key(ticker) && !v.orderbooks.contains_key(ticker) {
        assert(v.positions.remove(ticker) =~= v.positions);
        assert(v.orderbooks.remove(ticker) =~= v.orderbooks);
    }
}

/// Nothing is priced without both a position and an order book: without
/// either, a ticker has no exit price, no profit per share, no exit signal,
/// no exit order and no exit record. With both, the price is the highest
/// resting price of the position's own side, and the profit per share is
/// that price less the entry price.
pub proof fn lemma_exit_needs_position_and_book(
    v: PositionManagerView,
    ticker: Seq<char>,
    reason: ExitReason,
)
    ensures
        !v.positions.contains_key(ticker) || !v.orderbooks.contains_key(ticker) ==> {
            &&& v.exit_price_of(ticker) is None
            &&& v.pnl_per_share(ticker) is None
            &&& v.exit_signal(ticker) is None
            &&& v.exit_order(ticker) is None
            &&& v.exit_event(ticker, reason) is None
        },
        v.positions.contains_key(ticker) && v.orderbooks.contains_key(ticker) ==> {
            &&& v.exit_price_of(ticker) == exit_price(v.positions[ticker], v.orderbooks[ticker])
            &&& v.pnl_per_share(ticker) == match v.exit_price_of(ticker) {
                Some(p) => Some(p - v.positions[ticker].entry_price_cents),
                None => None,
            }
        },
{
}

/// After a fill and an order book for its ticker, the profit per share is
/// the best price of the fill's side less the fill's price.
pub proof fn lemma_fill_then_book(
    v: PositionManagerView,
    fill: FillEventView,
    entered_at: Seq<char>,
    update: OrderbookUpdateView,
)
    requires
        update.ticker == fill.ticker,
    ensures
        v.filled(fill, entered_at).with_book(update).pnl_per_share(fill.ticker) == match best_price(
            match fill.side {
                Side::Yes => update.yes,
                Side::No => update.no,
            },
        ) {
            Some(p) => Some(p - fill.price_cents),
            None => None,
        },
{
}

} // verus!
