//! The price stream's wire format: what a message says of the latest
//! candle.

use crate::json::{json_of, parse_json, Json};
use crate::kalshi::json_text;
use vstd::prelude::*;

verus! {

/// The symbol and the closing price of a candle, the price as the decimal
/// text that the stream sent.
#[derive(Debug, Clone)]
pub struct KlineClose {
    pub symbol: String,
    pub close: String,
}

/// The candle of a message: under `data` where the message comes from a
/// combined stream, else in the message itself.
pub open spec fn candle_in(message: Json) -> Option<Json> {
    match message.field("data"@) {
        Some(data) => data.field("k"@),
        None => message.field("k"@),
    }
}

/// The symbol and the closing price that a message holds; none where the
/// message has no candle, or the candle lacks either as text.
pub open spec fn kline_in(message: Json) -> Option<(Seq<char>, Seq<char>)> {
    match candle_in(message) {
        Some(k) => match (json_text(k, "s"@), json_text(k, "c"@)) {
            (Some(symbol), Some(close)) => Some((symbol, close)),
            _ => None,
        },
        None => None,
    }
}

/// The symbol and the closing price that a message holds.
pub fn kline_from_json(message: &Json) -> (r: Option<KlineClose>)
    ensures
        match r {
            Some(k) => kline_in(*message) == Some((k.symbol@, k.close@)),
            None => kline_in(*message) is None,
        },
{
    let candle = match message.get("data") {
        Some(data) => data.get("k"),
        None => message.get("k"),
    };
    match candle {
        Some(k) => {
            let close = match k.get("c") {
                Some(v) => match v.as_str() {
                    Some(s) => s.to_owned(),
                    None => {
                        return None;
                    },
                },
                None => {
                    return None;
                },
            };
            let symbol = match k.get("s") {
                Some(v) => match v.as_str() {
                    Some(s) => s.to_owned(),
                    None => {
                        return None;
                    },
                },
                None => {
                    return None;
                },
            };
            Some(KlineClose { symbol, close })
        },
        None => None,
    }
}

/// The symbol and the closing price that a text message holds; none where
/// the text is not JSON.
pub open spec fn kline_of(text: Seq<char>) -> Option<(Seq<char>, Seq<char>)> {
    match json_of(text) {
        Some(message) => kline_in(message),
        None => None,
    }
}

/// Reads a text message of the price stream.
pub fn parse_kline(text: &str) -> (r: Option<KlineClose>)
    ensures
        match r {
            Some(k) => kline_of(text@) == Some((k.symbol@, k.close@)),
            None => kline_of(text@) is None,
        },
{
    match parse_json(text) {
        Some(message) => kline_from_json(&message),
        None => None,
    }
}

} // verus!
