//! What the event loop decides on each notice of the exchange's stream:
//! which positions change, and which markets the stream is to follow.

use crate::kalshi::{KalshiWsEvent, KalshiWsEventView};
use crate::keyed::{
    distinct, has_key, key_index, lemma_key_at, lemma_keyed_absent, lemma_keyed_push,
    lemma_keyed_remove, without_key,
};
use crate::position_manager::{string_views, PositionManager, PositionManagerView};
use crate::text::same_text;
use vstd::prelude::*;

verus! {

/// The channels of a subscription.
#[derive(Debug, Clone, Copy, PartialEq, Eq, Structural)]
pub enum ChannelSet {
    /// Order book, fills and market lifecycle.
    All,
    /// Order book and market lifecycle.
    BookAndLifecycle,
}

/// A command to the task that owns the stream.
#[derive(Debug, Clone)]
pub enum WsCommand {
    Subscribe { channels: ChannelSet, ticker: String },
    Unsubscribe { channels: ChannelSet, ticker: String },
}

/// The view of a [`WsCommand`].
pub struct WsCommandView {
    pub subscribe: bool,
    pub channels: ChannelSet,
    pub ticker: Seq<char>,
}

impl View for WsCommand {
    type V = WsCommandView;

    open spec fn view(&self) -> WsCommandView {
        match self {
            WsCommand::Subscribe { channels, ticker } => WsCommandView {
                subscribe: true,
                channels: *channels,
                ticker: ticker@,
            },
            WsCommand::Unsubscribe { channels, ticker } => WsCommandView {
                subscribe: false,
                channels: *channels,
                ticker: ticker@,
            },
        }
    }
}

/// The views of a list of commands.
pub open spec fn command_views(v: Seq<WsCommand>) -> Seq<WsCommandView> {
    Seq::new(v.len(), |i: int| v[i]@)
}

/// The command that subscribes to every channel of `ticker`.
pub open spec fn subscribe_all(ticker: Seq<char>) -> WsCommandView {
    WsCommandView { subscribe: true, channels: ChannelSet::All, ticker }
}

/// The command that unsubscribes from every channel of `ticker`.
pub open spec fn unsubscribe_all(ticker: Seq<char>) -> WsCommandView {
    WsCommandView { subscribe: false, channels: ChannelSet::All, ticker }
}

/// The tickers followed after the first `n` of `tickers` were looked at:
/// each that was not followed is added.
pub open spec fn followed_upto(subscribed: Seq<Seq<char>>, tickers: Seq<Seq<char>>, n: int) -> Seq<
    Seq<char>,
>
    decreases n,
{
    if n <= 0 {
        subscribed
    } else {
        let before = followed_upto(subscribed, tickers, n - 1);
        if has_key(before, tickers[n - 1]) {
            before
        } else {
            before.push(tickers[n - 1])
        }
    }
}

/// The subscriptions made while the first `n` of `tickers` were looked at.
pub open spec fn subscriptions_upto(
    subscribed: Seq<Seq<char>>,
    tickers: Seq<Seq<char>>,
    n: int,
) -> Seq<WsCommandView>
    decreases n,
{
    if n <= 0 {
        Seq::empty()
    } else {
        let commands = subscriptions_upto(subscribed, tickers, n - 1);
        if has_key(followed_upto(subscribed, tickers, n - 1), tickers[n - 1]) {
            commands
        } else {
            commands.push(subscribe_all(tickers[n - 1]))
        }
    }
}

/// Whether `t` is among the first `n` of `tickers`.
pub open spec fn is_among(tickers: Seq<Seq<char>>, n: int, t: Seq<char>) -> bool {
    exists|i: int| 0 <= i < n && tickers[i] == t
}

/// After the markets with a position were looked at, each of them is
/// followed, what was followed before still is, and nothing else is; the
/// subscriptions made are as many as the markets newly followed.
pub proof fn lemma_sync_follows_positions(
    subscribed: Seq<Seq<char>>,
    tickers: Seq<Seq<char>>,
    n: int,
)
    requires
        0 <= n <= tickers.len(),
    ensures
        forall|t: Seq<char>|
            #[trigger] has_key(followed_upto(subscribed, tickers, n), t) <==> has_key(
                subscribed,
                t,
            ) || is_among(tickers, n, t),
        followed_upto(subscribed, tickers, n).len() == subscribed.len() + subscriptions_upto(
            subscribed,
            tickers,
            n,
        ).len(),
    decreases n,
{
    if n > 0 {
        lemma_sync_follows_positions(subscribed, tickers, n - 1);
        let before = followed_upto(subscribed, tickers, n - 1);
        let after = followed_upto(subscribed, tickers, n);
        let last = tickers[n - 1];
        assert forall|t: Seq<char>| #[trigger]
            has_key(after, t) <==> has_key(subscribed, t) || is_among(tickers, n, t) by {
            assert(has_key(before, t) <==> has_key(subscribed, t) || is_among(tickers, n - 1, t));
            if is_among(tickers, n - 1, t) {
                let i = choose|i: int| 0 <= i < n - 1 && tickers[i] == t;
                assert(0 <= i < n && tickers[i] == t);
            }
            if is_among(tickers, n, t) && t != last {
                let i = choose|i: int| 0 <= i < n && tickers[i] == t;
                assert(0 <= i < n - 1 && tickers[i] == t);
            }
            if t == last {
                assert(0 <= n - 1 < n && tickers[n - 1] == t);
            }
            if has_key(before, t) {
                let k = key_index(before, t);
                assert(after[k] == t);
            }
            if has_key(after, t) && !has_key(before, t) {
                let k = key_index(after, t);
                if k < before.len() {
                    assert(before[k] == t);
                }
                assert(t == last);
            }
            if t == last && !has_key(before, last) {
                assert(after[before.len() as int] == last);
            }
        }
    }
}

/// Whether a market with this status is over.
pub open spec fn is_over(status: Seq<char>) -> bool {
    status == "settled"@ || status == "finalized"@
}

/// The positions after a notice.
pub open spec fn positions_after(
    positions: PositionManagerView,
    event: KalshiWsEventView,
    entered_at: Seq<char>,
) -> PositionManagerView {
    match event {
        KalshiWsEventView::Orderbook(update) => positions.with_book(update),
        KalshiWsEventView::Fill(fill) => positions.filled(fill, entered_at),
        KalshiWsEventView::MarketLifecycle { ticker, status, result } => if is_over(status)
            && positions.positions.contains_key(ticker) {
            positions.cleared(ticker)
        } else {
            positions
        },
        KalshiWsEventView::Disconnected => positions,
    }
}

/// The tickers followed after a notice.
pub open spec fn followed_after(
    subscribed: Seq<Seq<char>>,
    positions: PositionManagerView,
    event: KalshiWsEventView,
) -> Seq<Seq<char>> {
    match event {
        KalshiWsEventView::Fill(fill) => if has_key(subscribed, fill.ticker) {
            subscribed
        } else {
            subscribed.push(fill.ticker)
        },
        KalshiWsEventView::MarketLifecycle { ticker, status, result } => if is_over(status)
            && positions.positions.contains_key(ticker) {
            without_key(subscribed, ticker)
        } else {
            subscribed
        },
        _ => subscribed,
    }
}

/// The commands that a notice calls for. A fill on a market not yet
/// followed subscribes to its order book and lifecycle. The end of a market
/// with a position unsubscribes from it. After a loss of the connection
/// every market followed is subscribed to again.
pub open spec fn commands_after(
    subscribed: Seq<Seq<char>>,
    positions: PositionManagerView,
    event: KalshiWsEventView,
) -> Seq<WsCommandView> {
    match event {
        KalshiWsEventView::Orderbook(update) => Seq::empty(),
        KalshiWsEventView::Fill(fill) => if has_key(subscribed, fill.ticker) {
            Seq::empty()
        } else {
            seq![
                WsCommandView {
                    subscribe: true,
                    channels: ChannelSet::BookAndLifecycle,
                    ticker: fill.ticker,
                },
            ]
        },
        KalshiWsEventView::MarketLifecycle { ticker, status, result } => if is_over(status)
            && positions.positions.contains_key(ticker) {
            seq![unsubscribe_all(ticker)]
        } else {
            Seq::empty()
        },
        KalshiWsEventView::Disconnected => Seq::new(
            subscribed.len(),
            |i: int| subscribe_all(subscribed[i]),
        ),
    }
}

/// The markets that the stream follows.
pub struct Coordinator {
    subscribed: Vec<String>,
}

impl View for Coordinator {
    type V = Seq<Seq<char>>;

    closed spec fn view(&self) -> Seq<Seq<char>> {
        string_views(self.subscribed@)
    }
}

impl Coordinator {
    #[verifier::type_invariant]
    closed spec fn inv(&self) -> bool {
        distinct(string_views(self.subscribed@))
    }

    /// A coordinator that follows no market.
    pub fn new() -> (r: Self)
        ensures
            r@ == Seq::<Seq<char>>::empty(),
            distinct(r@),
    {
        let r = Coordinator { subscribed: Vec::new() };
        proof {
            assert(r@ =~= Seq::<Seq<char>>::empty());
        }
        r
    }

    fn find(&self, ticker: &String) -> (r: Option<usize>)
        ensures
            distinct(self@),
            match r {
                Some(i) => i < self@.len() && self@[i as int] == ticker@ && has_key(
                    self@,
                    ticker@,
                ) && key_index(self@, ticker@) == i,
                None => !has_key(self@, ticker@),
            },
    {
        proof {
            use_type_invariant(self);
        }
        let mut i: usize = 0;
        while i < self.subscribed.len()
            invariant
                i <= self.subscribed.len(),
                distinct(self@),
                forall|j: int| 0 <= j < i ==> self@[j] != ticker@,
            decreases self.subscribed.len() - i,
        {
            if self.subscribed[i] == *ticker {
                proof {
                    lemma_key_at(self@, self@, i as int);
                }
                return Some(i);
            }
            i += 1;
        }
        None
    }

    /// Whether the stream follows `ticker`.
    pub fn is_subscribed(&self, ticker: &str) -> (r: bool)
        ensures
            r == has_key(self@, ticker@),
            distinct(self@),
    {
        let key = ticker.to_owned();
        self.find(&key).is_some()
    }

    /// The tickers followed, in the order in which they were subscribed to.
    pub fn subscribed_tickers(&self) -> (r: Vec<String>)
        ensures
            string_views(r@) == self@,
            distinct(self@),
    {
        proof {
            use_type_invariant(self);
        }
        let mut out: Vec<String> = Vec::new();
        let mut i: usize = 0;
        while i < self.subscribed.len()
            invariant
                i <= self.subscribed.len(),
                string_views(out@) == self@.take(i as int),
            decreases self.subscribed.len() - i,
        {
            let ghost before = out@;
            let t = self.subscribed[i].clone();
            out.push(t);
            i += 1;
            proof {
                assert(string_views(out@) =~= string_views(before).push(t@));
                assert(string_views(out@) =~= self@.take(i as int));
            }
        }
        proof {
            assert(self@.take(self.subscribed.len() as int) =~= self@);
        }
        out
    }

    /// Follows `ticker` if it is not followed yet; says whether it was added.
    fn follow(&mut self, ticker: &String) -> (added: bool)
        ensures
            added == !has_key(old(self)@, ticker@),
            final(self)@ == if added {
                old(self)@.push(ticker@)
            } else {
                old(self)@
            },
            distinct(final(self)@),
    {
        match self.find(ticker) {
            Some(_) => false,
            None => {
                let mut taken = Coordinator { subscribed: Vec::new() };
                core::mem::swap(self, &mut taken);
                let Coordinator { subscribed: mut subscribed } = taken;
                let ghost before = string_views(subscribed@);
                subscribed.push(ticker.clone());
                proof {
                    assert(string_views(subscribed@) =~= before.push(ticker@));
                    lemma_keyed_push(before, before, ticker@, ticker@);
                }
                *self = Coordinator { subscribed };
                true
            },
        }
    }

    /// No longer follows `ticker`.
    fn drop_ticker(&mut self, ticker: &String)
        ensures
            final(self)@ == without_key(old(self)@, ticker@),
            distinct(final(self)@),
    {
        match self.find(ticker) {
            Some(i) => {
                let mut taken = Coordinator { subscribed: Vec::new() };
                core::mem::swap(self, &mut taken);
                let Coordinator { subscribed: mut subscribed } = taken;
                let ghost before = string_views(subscribed@);
                subscribed.remove(i);
                proof {
                    assert(string_views(subscribed@) =~= before.remove(i as int));
                    lemma_keyed_remove(before, before, i as int);
                }
                *self = Coordinator { subscribed };
            },
            None => {
                proof {
                    lemma_keyed_absent(self@, self@, ticker@);
                }
            },
        }
    }

    /// Follows every market with a position: each one not yet followed is
    /// subscribed to, in the order of the positions.
    pub fn sync_subscriptions(&mut self, positions: &PositionManager) -> (commands: Vec<WsCommand>)
        ensures
            final(self)@ == followed_upto(
                old(self)@,
                positions@.tickers,
                positions@.tickers.len() as int,
            ),
            command_views(commands@) == subscriptions_upto(
                old(self)@,
                positions@.tickers,
                positions@.tickers.len() as int,
            ),
            distinct(final(self)@),
    {
        proof {
            use_type_invariant(&*self);
        }
        let tickers = positions.position_tickers();
        let mut commands: Vec<WsCommand> = Vec::new();
        let mut i: usize = 0;
        let ghost all = positions@.tickers;
        while i < tickers.len()
            invariant
                i <= tickers.len(),
                all == positions@.tickers,
                string_views(tickers@) == all,
                self@ == followed_upto(old(self)@, all, i as int),
                command_views(commands@) == subscriptions_upto(old(self)@, all, i as int),
                distinct(self@),
            decreases tickers.len() - i,
        {
            let ghost before = commands@;
            proof {
                assert(string_views(tickers@)[i as int] == tickers@[i as int]@);
            }
            if self.follow(&tickers[i]) {
                let command = WsCommand::Subscribe {
                    channels: ChannelSet::All,
                    ticker: tickers[i].clone(),
                };
                commands.push(command);
                proof {
                    assert(command_views(commands@) =~= command_views(before).push(
                        subscribe_all(all[i as int]),
                    ));
                }
            }
            i += 1;
        }
        commands
    }

    /// Every market followed is subscribed to again.
    fn resubscribe(&self) -> (commands: Vec<WsCommand>)
        ensures
            command_views(commands@) == Seq::new(self@.len(), |i: int| subscribe_all(self@[i])),
    {
        let mut commands: Vec<WsCommand> = Vec::new();
        let mut i: usize = 0;
        while i < self.subscribed.len()
            invariant
                i <= self.subscribed.len(),
                commands@.len() == i,
                forall|k: int| 0 <= k < i ==> (#[trigger] commands@[k])@ == subscribe_all(self@[k]),
            decreases self.subscribed.len() - i,
        {
            commands.push(
                WsCommand::Subscribe {
                    channels: ChannelSet::All,
                    ticker: self.subscribed[i].clone(),
                },
            );
            i += 1;
        }
        proof {
            assert(command_views(commands@) =~= Seq::new(
                self@.len(),
                |i: int| subscribe_all(self@[i]),
            ));
        }
        commands
    }

    /// Takes a notice of the stream: changes the positions as it says, and
    /// names the commands for the stream. `entered_at` is the present
    /// moment, for a position that a fill opens.
    pub fn on_event(
        &mut self,
        positions: &mut PositionManager,
        event: KalshiWsEvent,
        entered_at: &str,
    ) -> (commands: Vec<WsCommand>)
        ensures
            final(positions)@ == positions_after(old(positions)@, event@, entered_at@),
            final(self)@ == followed_after(old(self)@, old(positions)@, event@),
            command_views(commands@) == commands_after(old(self)@, old(positions)@, event@),
            distinct(final(self)@),
    {
        proof {
            use_type_invariant(&*self);
        }
        let mut commands: Vec<WsCommand> = Vec::new();
        match event {
            KalshiWsEvent::Orderbook(update) => {
                positions.on_orderbook_update(update);
                proof {
                    assert(command_views(commands@) =~= Seq::<WsCommandView>::empty());
                }
            },
            KalshiWsEvent::Fill(fill) => {
                positions.on_fill(&fill, entered_at);
                if self.follow(&fill.ticker) {
                    let command = WsCommand::Subscribe {
                        channels: ChannelSet::BookAndLifecycle,
                        ticker: fill.ticker.clone(),
                    };
                    commands.push(command);
                    proof {
                        assert(command_views(commands@) =~= seq![command@]);
                    }
                } else {
                    proof {
                        assert(command_views(commands@) =~= Seq::<WsCommandView>::empty());
                    }
                }
            },
            KalshiWsEvent::MarketLifecycle(notice) => {
                let status = notice.status.as_str();
                let over = same_text(status, "settled") || same_text(status, "finalized");
                let held = positions.position_for_ticker(notice.ticker.as_str()).is_some();
                if over && held {
                    positions.clear_position(notice.ticker.as_str());
                    self.drop_ticker(&notice.ticker);
                    let command = WsCommand::Unsubscribe {
                        channels: ChannelSet::All,
                        ticker: notice.ticker.clone(),
                    };
                    commands.push(command);
                    proof {
                        assert(command_views(commands@) =~= seq![command@]);
                    }
                } else {
                    proof {
                        assert(command_views(commands@) =~= Seq::<WsCommandView>::empty());
                    }
                }
            },
            KalshiWsEvent::Disconnected => {
                commands = self.resubscribe();
            },
        }
        commands
    }

    /// After an exit was attempted on `ticker`: the market is no longer
    /// followed, and the stream is told so.
    pub fn after_exit(&mut self, ticker: &str) -> (command: WsCommand)
        ensures
            final(self)@ == without_key(old(self)@, ticker@),
            command@ == unsubscribe_all(ticker@),
            distinct(final(self)@),
    {
        let key = ticker.to_owned();
        self.drop_ticker(&key);
        WsCommand::Unsubscribe { channels: ChannelSet::All, ticker: key }
    }
}

impl ChannelSet {
    /// The names of the channels on the wire.
    pub open spec fn names(self) -> Seq<Seq<char>> {
        match self {
            ChannelSet::All => seq!["orderbook_delta"@, "fill"@, "market_lifecycle_v2"@],
            ChannelSet::BookAndLifecycle => seq!["orderbook_delta"@, "market_lifecycle_v2"@],
        }
    }

    /// The names of the channels on the wire.
    pub fn channel_names(self) -> (r: Vec<String>)
        ensures
            string_views(r@) == self.names(),
    {
        let mut out: Vec<String> = Vec::new();
        out.push("orderbook_delta".to_owned());
        match self {
            ChannelSet::All => {
                out.push("fill".to_owned());
            },
            ChannelSet::BookAndLifecycle => {},
        }
        out.push("market_lifecycle_v2".to_owned());
        proof {
            assert(string_views(out@) =~= self.names());
        }
        out
    }
}

} // verus!
