//! Time as the engine sees it: a moment handed in from outside, and the
//! timestamps of ledger rows and markets read as moments.

use crate::text::{chars_of, string_of};
use vstd::prelude::*;

verus! {

/// A moment: milliseconds since the start of 1970 in UTC, and the same
/// moment as RFC 3339 text.
#[derive(Debug, Clone)]
pub struct Clock {
    pub millis: i64,
    pub text: String,
}

/// The moment that an RFC 3339 timestamp names, in milliseconds since the
/// start of 1970 in UTC; none where the text is no such timestamp. This is
/// what `chrono::DateTime::parse_from_rfc3339` accepts, read off by
/// `timestamp_millis`.
pub uninterp spec fn rfc3339_millis(text: Seq<char>) -> Option<i64>;

/// `chrono::DateTime::parse_from_rfc3339`, then `timestamp_millis` on what
/// it accepted. Nothing is claimed of the result but that it depends on the
/// text alone.
#[verifier::external_body]
fn parse_rfc3339(text: &str) -> (r: Option<i64>)
    ensures
        r == rfc3339_millis(text@),
{
    match chrono::DateTime::parse_from_rfc3339(text) {
        Ok(moment) => Some(moment.timestamp_millis()),
        Err(_) => None,
    }
}

/// Reads an RFC 3339 timestamp.
pub fn timestamp_millis(text: &str) -> (r: Option<i64>)
    ensures
        r == rfc3339_millis(text@),
{
    parse_rfc3339(text)
}

/// Whether an order placed at `placed` is, at `now`, more than thirty
/// minutes old. An order without a readable timestamp never is.
pub open spec fn is_stale(placed: Option<i64>, now: i64) -> bool {
    match placed {
        Some(at) => now - at > 30 * 60_000,
        None => false,
    }
}

/// Decides [`is_stale`].
pub fn pending_is_stale(placed: Option<i64>, now_millis: i64) -> (b: bool)
    ensures
        b == is_stale(placed, now_millis),
{
    match placed {
        Some(at) => now_millis as i128 - at as i128 > 30 * 60_000,
        None => false,
    }
}

/// Whole seconds from `now` to `then`, rounded towards zero.
pub open spec fn seconds_between(now: i64, then: i64) -> int {
    if then >= now {
        (then - now) / 1000
    } else {
        -((now - then) / 1000)
    }
}

/// Whole seconds from `now_millis` to `then_millis`, rounded towards zero.
pub fn seconds_until(now_millis: i64, then_millis: i64) -> (s: i64)
    ensures
        s == seconds_between(now_millis, then_millis),
{
    if then_millis >= now_millis {
        let d: i128 = then_millis as i128 - now_millis as i128;
        (d / 1000) as i64
    } else {
        let d: i128 = now_millis as i128 - then_millis as i128;
        (-(d / 1000)) as i64
    }
}

/// The date that a timestamp begins with: its first ten characters.
pub open spec fn date_of(text: Seq<char>) -> Seq<char> {
    if text.len() >= 10 {
        text.take(10)
    } else {
        text
    }
}

/// The date that a timestamp begins with.
pub fn date_prefix(text: &str) -> (r: String)
    ensures
        r@ == date_of(text@),
{
    let chars = chars_of(text);
    if chars.len() < 10 {
        return string_of(&chars);
    }
    let mut out: Vec<char> = Vec::new();
    let mut i: usize = 0;
    while i < 10
        invariant
            i <= 10 <= chars.len(),
            out@ == chars@.take(i as int),
        decreases 10 - i,
    {
        out.push(chars[i]);
        i += 1;
        proof {
            assert(out@ =~= chars@.take(i as int));
        }
    }
    string_of(&out)
}

} // verus!
