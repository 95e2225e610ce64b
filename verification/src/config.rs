//! The settings of the process, made from the raw values that it was
//! started with.

use crate::decimal::{parse_u32, parse_unsigned};
use crate::position_manager::string_views;
use crate::text::{
    chars_of, extend_str, same_text, split_chars, split_on, string_of, trim_chars, trimmed, views,
};
use crate::types::Config;
use vstd::prelude::*;

verus! {

/// The raw values: the private key as read from its file (empty where it
/// could not be read), and each variable as it was set, if it was.
#[derive(Debug, Clone)]
pub struct RawSettings {
    pub private_key_pem: String,
    pub paper_trade: Option<String>,
    pub confirm_live: Option<String>,
    pub series_tickers: Option<String>,
    pub kalshi_base_url: Option<String>,
    pub kalshi_ws_url: Option<String>,
    pub binance_ws_url: Option<String>,
    pub openrouter_api_key: Option<String>,
    pub kalshi_key_id: Option<String>,
    pub tp_cents_per_share: Option<String>,
    pub sl_cents_per_share: Option<String>,
    pub entry_cycle_interval_secs: Option<String>,
    pub position_check_interval_secs: Option<String>,
}

/// The text of a variable, or `default` where it was not set.
pub open spec fn text_or(value: Option<String>, default: Seq<char>) -> Seq<char> {
    match value {
        Some(v) => v@,
        None => default,
    }
}

/// The number that a variable holds once trimmed, or `default` where it
/// was not set or holds no number that fits in 32 bits.
pub open spec fn number_or(value: Option<String>, default: u32) -> u32 {
    match value {
        Some(v) => match parse_unsigned(trimmed(v@), u32::MAX as nat) {
            Some(n) => n as u32,
            None => default,
        },
        None => default,
    }
}

/// Whether trading is on paper: unless the variable says `false`.
pub open spec fn paper_of(value: Option<String>) -> bool {
    match value {
        Some(v) => v@ != "false"@,
        None => true,
    }
}

/// Whether live trading is confirmed: only where the variable says `true`.
pub open spec fn confirmed_of(value: Option<String>) -> bool {
    match value {
        Some(v) => v@ == "true"@,
        None => false,
    }
}

/// The names among the first `n` pieces, each trimmed, empty ones left out.
pub open spec fn names_upto(pieces: Seq<Seq<char>>, n: int) -> Seq<Seq<char>>
    decreases n,
{
    if n <= 0 {
        Seq::empty()
    } else if trimmed(pieces[n - 1]).len() == 0 {
        names_upto(pieces, n - 1)
    } else {
        names_upto(pieces, n - 1).push(trimmed(pieces[n - 1]))
    }
}

/// The series that a comma-separated list names; none where the variable
/// was not set.
pub open spec fn series_of(value: Option<String>) -> Seq<Seq<char>> {
    match value {
        Some(v) => names_upto(split_on(v@, ','), split_on(v@, ',').len() as int),
        None => Seq::empty(),
    }
}

/// At least one second.
pub open spec fn at_least_one(n: u32) -> u64 {
    if n == 0 {
        1
    } else {
        n as u64
    }
}

/// What the settings are for given raw values. The limits of the risk
/// policy are fixed: at most 2 shares, 1000 cents of daily loss, 7 losses in
/// a row, a balance of at least 500 cents, and 120 seconds to expiry.
pub open spec fn configured(raw: RawSettings, c: Config) -> bool {
    &&& c.max_shares == 2
    &&& c.max_daily_loss_cents == 1000
    &&& c.max_consecutive_losses == 7
    &&& c.min_balance_cents == 500
    &&& c.min_seconds_to_expiry == 120
    &&& c.tp_cents_per_share == number_or(raw.tp_cents_per_share, 20)
    &&& c.sl_cents_per_share == number_or(raw.sl_cents_per_share, 20)
    &&& c.entry_cycle_interval_secs == at_least_one(number_or(raw.entry_cycle_interval_secs, 60))
    &&& c.position_check_interval_secs == at_least_one(
        number_or(raw.position_check_interval_secs, 5),
    )
    &&& c.paper_trade == paper_of(raw.paper_trade)
    &&& c.confirm_live == confirmed_of(raw.confirm_live)
    &&& string_views(c.series_tickers@) == series_of(raw.series_tickers)
    &&& c.kalshi_base_url@ == text_or(raw.kalshi_base_url, "https://api.elections.kalshi.com"@)
    &&& c.kalshi_ws_url@ == text_or(
        raw.kalshi_ws_url,
        "wss://api.elections.kalshi.com/trade-api/ws/v2"@,
    )
    &&& c.binance_ws_url@ == text_or(
        raw.binance_ws_url,
        "wss://stream.binance.us:9443/stream?streams=btcusdt@kline_1m"@,
    )
    &&& c.openrouter_api_key@ == text_or(raw.openrouter_api_key, ""@)
    &&& c.kalshi_key_id@ == text_or(raw.kalshi_key_id, ""@)
    &&& c.kalshi_private_key_pem@ == raw.private_key_pem@
    &&& c.lockfile_path@ == "/tmp/kalshi-bot.lock"@
}

fn text_of(value: Option<String>, default: &str) -> (r: String)
    ensures
        r@ == text_or(value, default@),
{
    match value {
        Some(v) => v,
        None => default.to_owned(),
    }
}

fn number_of(value: &Option<String>, default: u32) -> (r: u32)
    ensures
        r == number_or(*value, default),
{
    match value {
        Some(v) => {
            let text = trim_chars(&chars_of(v.as_str()));
            match parse_u32(&text) {
                Some(n) => n,
                None => default,
            }
        },
        None => default,
    }
}

fn series_from(value: &Option<String>) -> (r: Vec<String>)
    ensures
        string_views(r@) == series_of(*value),
{
    let mut out: Vec<String> = Vec::new();
    match value {
        Some(v) => {
            let pieces = split_chars(&chars_of(v.as_str()), ',');
            let ghost all = views(pieces@);
            let mut i: usize = 0;
            proof {
                assert(string_views(out@) =~= names_upto(all, 0));
            }
            while i < pieces.len()
                invariant
                    i <= pieces.len(),
                    all == views(pieces@),
                    all == split_on(v@, ','),
                    string_views(out@) == names_upto(all, i as int),
                decreases pieces.len() - i,
            {
                let ghost before = out@;
                let name = trim_chars(&pieces[i]);
                proof {
                    assert(all[i as int] == pieces@[i as int]@);
                }
                if name.len() > 0 {
                    let s = string_of(&name);
                    out.push(s);
                    proof {
                        assert(string_views(out@) =~= string_views(before).push(name@));
                    }
                }
                i += 1;
            }
        },
        None => {
            proof {
                assert(string_views(out@) =~= Seq::<Seq<char>>::empty());
            }
        },
    }
    out
}

fn seconds_of(n: u32) -> (r: u64)
    ensures
        r == at_least_one(n),
{
    if n == 0 {
        1
    } else {
        n as u64
    }
}

/// Makes the settings from the raw values.
pub fn configure(raw: RawSettings) -> (c: Config)
    ensures
        configured(raw, c),
{
    let tp_cents_per_share = number_of(&raw.tp_cents_per_share, 20);
    let sl_cents_per_share = number_of(&raw.sl_cents_per_share, 20);
    let entry = number_of(&raw.entry_cycle_interval_secs, 60);
    let check = number_of(&raw.position_check_interval_secs, 5);
    let paper_trade = match &raw.paper_trade {
        Some(v) => !same_text(v, "false"),
        None => true,
    };
    let confirm_live = match &raw.confirm_live {
        Some(v) => same_text(v, "true"),
        None => false,
    };
    let series_tickers = series_from(&raw.series_tickers);
    Config {
        max_shares: 2,
        max_daily_loss_cents: 1000,
        max_consecutive_losses: 7,
        min_balance_cents: 500,
        min_seconds_to_expiry: 120,
        tp_cents_per_share,
        sl_cents_per_share,
        entry_cycle_interval_secs: seconds_of(entry),
        position_check_interval_secs: seconds_of(check),
        paper_trade,
        confirm_live,
        series_tickers,
        kalshi_base_url: text_of(raw.kalshi_base_url, "https://api.elections.kalshi.com"),
        kalshi_ws_url: text_of(
            raw.kalshi_ws_url,
            "wss://api.elections.kalshi.com/trade-api/ws/v2",
        ),
        binance_ws_url: text_of(
            raw.binance_ws_url,
            "wss://stream.binance.us:9443/stream?streams=btcusdt@kline_1m",
        ),
        openrouter_api_key: text_of(raw.openrouter_api_key, ""),
        kalshi_key_id: text_of(raw.kalshi_key_id, ""),
        kalshi_private_key_pem: raw.private_key_pem,
        lockfile_path: "/tmp/kalshi-bot.lock".to_owned(),
    }
}

/// The asset that a series is about: the letters that its ticker begins
/// with, after the `KX` that series tickers begin with.
pub open spec fn asset_of(series: Seq<char>) -> Seq<char> {
    let body = if series.len() >= 2 && series[0] == 'K' && series[1] == 'X' {
        series.skip(2)
    } else {
        series
    };
    body.take(leading_letters(body) as int)
}

/// Whether `c` is an ASCII letter.
pub open spec fn is_letter(c: char) -> bool {
    (0x41 <= c as u32 <= 0x5a) || (0x61 <= c as u32 <= 0x7a)
}

/// The number of letters that `s` begins with.
pub open spec fn leading_letters(s: Seq<char>) -> nat
    decreases s.len(),
{
    if s.len() > 0 && is_letter(s[0]) {
        1 + leading_letters(s.drop_first())
    } else {
        0
    }
}

/// A run of letters at the start of `s` that ends at another character, or
/// at the end of `s`, is all the letters that `s` begins with.
proof fn lemma_leading_letters_is(s: Seq<char>, k: int)
    requires
        0 <= k <= s.len(),
        forall|i: int| 0 <= i < k ==> is_letter(#[trigger] s[i]),
        k < s.len() ==> !is_letter(s[k]),
    ensures
        leading_letters(s) == k,
    decreases s.len(),
{
    if k > 0 {
        let t = s.drop_first();
        assert(is_letter(s[0]));
        assert forall|i: int| 0 <= i < k - 1 implies is_letter(#[trigger] t[i]) by {
            assert(t[i] == s[i + 1]);
        }
        lemma_leading_letters_is(t, k - 1);
    }
}

/// The asset that a series is about: `KXBTC15M` is about `BTC`.
pub fn series_to_asset_label(series_ticker: &str) -> (r: String)
    ensures
        r@ == asset_of(series_ticker@),
{
    let text = chars_of(series_ticker);
    let start: usize = if text.len() >= 2 && text[0] == 'K' && text[1] == 'X' {
        2
    } else {
        0
    };
    let ghost body = text@.skip(start as int);
    let mut out: Vec<char> = Vec::new();
    let mut i: usize = start;
    while i < text.len() && ((0x41 <= text[i] as u32 && text[i] as u32 <= 0x5a) || (0x61
        <= text[i] as u32 && text[i] as u32 <= 0x7a))
        invariant
            start <= i <= text.len(),
            body == text@.skip(start as int),
            out@ == body.take(i - start),
            forall|k: int| 0 <= k < i - start ==> is_letter(#[trigger] body[k]),
        decreases text.len() - i,
    {
        out.push(text[i]);
        proof {
            assert(body[i - start] == text@[i as int]);
            assert(out@ =~= body.take(i - start + 1));
        }
        i += 1;
    }
    proof {
        if i < text.len() {
            assert(body[i - start] == text@[i as int]);
        }
        lemma_leading_letters_is(body, i - start);
        if start == 0 {
            assert(body =~= text@);
        }
    }
    string_of(&out)
}

/// The symbol under which the price feed quotes the asset of a series
/// against the dollar: `KXBTC15M` is priced as `BTCUSDT`.
pub fn series_to_binance_symbol(series_ticker: &str) -> (r: String)
    ensures
        r@ == asset_of(series_ticker@) + "USDT"@,
{
    let mut out = chars_of(series_to_asset_label(series_ticker).as_str());
    extend_str(&mut out, "USDT");
    string_of(&out)
}

} // verus!
