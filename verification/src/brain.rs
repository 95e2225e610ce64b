//! The reasoning service's side of a cycle: what of the ledger and the
//! order book is shown to it, and what is made of its reply.
//!
//! A reply is free text. The JSON object in it is looked for in a fenced
//! block, then as the whole text, then between the outermost braces. A reply
//! that holds no decision counts as a pass.

use crate::decimal::{decimal_of, push_decimal, push_signed_decimal, signed_decimal_of};
use crate::json::{json_of, parse_json, Json};
use crate::text::{
    chars_of, extend_str, has_prefix, join_chars, join_with, matches_at, occurs_at, same_text,
    starts_with_chars, string_of, trim_chars, trimmed, views,
};
use crate::types::{row_views, Action, LedgerRow, LedgerRowView, Side, TradeDecision};
use vstd::prelude::*;

verus! {

/// The first place at or after `from` at which `needle` occurs in `hay`.
pub open spec fn find_from(hay: Seq<char>, needle: Seq<char>, from: int) -> Option<int>
    decreases hay.len() - from,
{
    if from < 0 || from + needle.len() > hay.len() {
        None
    } else if occurs_at(hay, needle, from) {
        Some(from)
    } else if from < hay.len() {
        find_from(hay, needle, from + 1)
    } else {
        None
    }
}

/// What is found is the first occurrence; nothing is found only where
/// there is none.
pub proof fn lemma_find_from(hay: Seq<char>, needle: Seq<char>, from: int)
    requires
        0 <= from,
    ensures
        match find_from(hay, needle, from) {
            Some(i) => from <= i && occurs_at(hay, needle, i) && forall|j: int|
                from <= j < i ==> !occurs_at(hay, needle, j),
            None => forall|j: int| from <= j ==> !occurs_at(hay, needle, j),
        },
    decreases hay.len() - from,
{
    if from + needle.len() <= hay.len() && !occurs_at(hay, needle, from) && from < hay.len() {
        lemma_find_from(hay, needle, from + 1);
    }
}

/// The last place at which `c` stands among the first `n` characters.
pub open spec fn last_of(hay: Seq<char>, c: char, n: int) -> Option<int>
    decreases n,
{
    if n <= 0 {
        None
    } else if hay[n - 1] == c {
        Some(n - 1)
    } else {
        last_of(hay, c, n - 1)
    }
}

/// The text in which the decision is looked for: what follows the first
/// opening fence up to the next fence (or the end); else the whole reply
/// where it begins with a brace once trimmed; else what stands from the
/// first opening brace to the last closing brace. Trimmed in each case.
/// None where the reply has neither fence nor such braces.
pub open spec fn reply_json(raw: Seq<char>) -> Option<Seq<char>> {
    match find_from(raw, "```json"@, 0) {
        Some(s) => {
            let start = s + 7;
            let end = match find_from(raw.skip(start), "```"@, 0) {
                Some(i) => start + i,
                None => raw.len() as int,
            };
            Some(trimmed(raw.subrange(start, end)))
        },
        None => if has_prefix(trimmed(raw), "{"@) {
            Some(trimmed(raw))
        } else {
            match (find_from(raw, "{"@, 0), last_of(raw, '}', raw.len() as int)) {
                (Some(s), Some(e)) => if s <= e {
                    Some(trimmed(raw.subrange(s, e + 1)))
                } else {
                    None
                },
                _ => None,
            }
        },
    }
}

fn find_chars(hay: &Vec<char>, needle: &Vec<char>) -> (r: Option<usize>)
    ensures
        match r {
            Some(i) => find_from(hay@, needle@, 0) == Some(i as int) && i + needle.len()
                <= hay.len(),
            None => find_from(hay@, needle@, 0) is None,
        },
{
    if needle.len() > hay.len() {
        return None;
    }
    let limit = hay.len() - needle.len();
    let mut at: usize = 0;
    while at < limit
        invariant
            at <= limit,
            limit == hay.len() - needle.len(),
            find_from(hay@, needle@, 0) == find_from(hay@, needle@, at as int),
        decreases limit - at,
    {
        if matches_at(hay, needle, at) {
            return Some(at);
        }
        at += 1;
    }
    if matches_at(hay, needle, limit) {
        Some(limit)
    } else {
        proof {
            assert(find_from(hay@, needle@, limit + 1) is None);
        }
        None
    }
}

fn find_last(hay: &Vec<char>, c: char) -> (r: Option<usize>)
    ensures
        match r {
            Some(i) => last_of(hay@, c, hay@.len() as int) == Some(i as int) && i < hay.len(),
            None => last_of(hay@, c, hay@.len() as int) is None,
        },
{
    let mut n: usize = hay.len();
    while n > 0
        invariant
            n <= hay.len(),
            last_of(hay@, c, hay@.len() as int) == last_of(hay@, c, n as int),
        decreases n,
    {
        if hay[n - 1] == c {
            return Some(n - 1);
        }
        n -= 1;
    }
    None
}

fn slice_of(hay: &Vec<char>, from: usize, to: usize) -> (r: Vec<char>)
    requires
        from <= to <= hay.len(),
    ensures
        r@ == hay@.subrange(from as int, to as int),
{
    let mut out: Vec<char> = Vec::new();
    let mut i: usize = from;
    while i < to
        invariant
            from <= i <= to <= hay.len(),
            out@ == hay@.subrange(from as int, i as int),
        decreases to - i,
    {
        out.push(hay[i]);
        i += 1;
        proof {
            assert(out@ =~= hay@.subrange(from as int, i as int));
        }
    }
    out
}

/// The text of a reply in which the decision is looked for.
pub fn extract_json(raw: &str) -> (r: Option<String>)
    ensures
        match r {
            Some(s) => reply_json(raw@) == Some(s@),
            None => reply_json(raw@) is None,
        },
{
    let text = chars_of(raw);
    let fence = chars_of("```json");
    let close = chars_of("```");
    let open = chars_of("{");
    proof {
        reveal_strlit("```json");
    }
    match find_chars(&text, &fence) {
        Some(s) => {
            let start = s + 7;
            let rest = slice_of(&text, start, text.len());
            proof {
                assert(rest@ =~= text@.skip(start as int));
            }
            let end = match find_chars(&rest, &close) {
                Some(i) => start + i,
                None => text.len(),
            };
            let body = slice_of(&text, start, end);
            Some(string_of(&trim_chars(&body)))
        },
        None => {
            let whole = trim_chars(&text);
            if starts_with_chars(&whole, &open) {
                Some(string_of(&whole))
            } else {
                match (find_chars(&text, &open), find_last(&text, '}')) {
                    (Some(s), Some(e)) => {
                        if s <= e {
                            let body = slice_of(&text, s, e + 1);
                            Some(string_of(&trim_chars(&body)))
                        } else {
                            None
                        }
                    },
                    _ => None,
                }
            }
        },
    }
}

/// The view of a [`TradeDecision`].
pub struct DecisionView {
    pub action: Action,
    pub side: Option<Side>,
    pub shares: Option<u32>,
    pub max_price_cents: Option<u32>,
    pub reasoning: Seq<char>,
}

impl View for TradeDecision {
    type V = DecisionView;

    open spec fn view(&self) -> DecisionView {
        DecisionView {
            action: self.action,
            side: self.side,
            shares: self.shares,
            max_price_cents: self.max_price_cents,
            reasoning: self.reasoning@,
        }
    }
}

/// The decision that stands for a reply without one: a pass.
pub open spec fn pass_view() -> DecisionView {
    DecisionView {
        action: Action::Pass,
        side: None,
        shares: None,
        max_price_cents: None,
        reasoning: "Failed to parse AI response"@,
    }
}

/// A field that may be left out: absent, or null.
pub open spec fn is_left_out(field: Option<Json>) -> bool {
    field is None || field == Some(Json::Null)
}

/// The action that an object names: `BUY` or `PASS`.
pub open spec fn action_in(json: Json) -> Option<Action> {
    match json.field("action"@) {
        Some(v) => match v.text() {
            Some(word) => if word == "BUY"@ {
                Some(Action::Buy)
            } else if word == "PASS"@ {
                Some(Action::Pass)
            } else {
                None
            },
            None => None,
        },
        None => None,
    }
}

/// The side that an object names, `yes` or `no`, where it names one; the
/// outer result is none where the field holds anything else.
pub open spec fn side_in(json: Json) -> Option<Option<Side>> {
    let field = json.field("side"@);
    if is_left_out(field) {
        Some(None)
    } else {
        match field->0.text() {
            Some(word) => if word == "yes"@ {
                Some(Some(Side::Yes))
            } else if word == "no"@ {
                Some(Some(Side::No))
            } else {
                None
            },
            None => None,
        }
    }
}

/// The number under `name`, where the object has one; the outer result is
/// none where the field holds anything but an integer from 0 that fits in
/// 32 bits.
pub open spec fn count_in(json: Json, name: Seq<char>) -> Option<Option<u32>> {
    let field = json.field(name);
    if is_left_out(field) {
        Some(None)
    } else {
        match field->0.unsigned() {
            Some(n) => if n <= u32::MAX {
                Some(Some(n as u32))
            } else {
                None
            },
            None => None,
        }
    }
}

/// The decision that an object holds: its action and its reasoning must be
/// there; side, shares and highest price may be left out. None where a
/// field is missing or holds what it should not.
pub open spec fn decision_in(json: Json) -> Option<DecisionView> {
    match (
        action_in(json),
        side_in(json),
        count_in(json, "shares"@),
        count_in(json, "max_price_cents"@),
        match json.field("reasoning"@) {
            Some(v) => v.text(),
            None => None,
        },
    ) {
        (Some(action), Some(side), Some(shares), Some(max_price_cents), Some(reasoning)) => Some(
            DecisionView { action, side, shares, max_price_cents, reasoning },
        ),
        _ => None,
    }
}

/// The decision of a reply: the one that the JSON in it holds, a pass where
/// it holds none.
pub open spec fn decision_of_reply(raw: Seq<char>) -> DecisionView {
    match reply_json(raw) {
        Some(text) => match json_of(text) {
            Some(json) => match decision_in(json) {
                Some(d) => d,
                None => pass_view(),
            },
            None => pass_view(),
        },
        None => pass_view(),
    }
}

/// The decision that stands for a reply without one.
pub fn pass_decision() -> (d: TradeDecision)
    ensures
        d@ == pass_view(),
{
    TradeDecision {
        action: Action::Pass,
        side: None,
        shares: None,
        max_price_cents: None,
        reasoning: "Failed to parse AI response".to_owned(),
    }
}

fn left_out(field: &Option<&Json>) -> (b: bool)
    ensures
        b == match *field {
            Some(v) => *v == Json::Null,
            None => true,
        },
{
    match field {
        Some(v) => match v {
            Json::Null => true,
            _ => false,
        },
        None => true,
    }
}

fn count_from(json: &Json, name: &str) -> (r: Option<Option<u32>>)
    ensures
        r == count_in(*json, name@),
{
    let field = json.get(name);
    if left_out(&field) {
        return Some(None);
    }
    match field {
        Some(v) => match v.as_u64() {
            Some(n) => {
                if n <= 0xffff_ffff {
                    Some(Some(n as u32))
                } else {
                    None
                }
            },
            None => None,
        },
        None => None,
    }
}

/// The decision that a JSON value holds.
pub fn decision_from_json(json: &Json) -> (r: Option<TradeDecision>)
    ensures
        match r {
            Some(d) => decision_in(*json) == Some(d@),
            None => decision_in(*json) is None,
        },
{
    let action = match json.get("action") {
        Some(v) => match v.as_str() {
            Some(word) => {
                if same_text(word, "BUY") {
                    Action::Buy
                } else if same_text(word, "PASS") {
                    Action::Pass
                } else {
                    return None;
                }
            },
            None => {
                return None;
            },
        },
        None => {
            return None;
        },
    };
    let side_field = json.get("side");
    let side = if left_out(&side_field) {
        None
    } else {
        match side_field {
            Some(v) => match v.as_str() {
                Some(word) => {
                    if same_text(word, "yes") {
                        Some(Side::Yes)
                    } else if same_text(word, "no") {
                        Some(Side::No)
                    } else {
                        return None;
                    }
                },
                None => {
                    return None;
                },
            },
            None => {
                return None;
            },
        }
    };
    let shares = match count_from(json, "shares") {
        Some(s) => s,
        None => {
            return None;
        },
    };
    let max_price_cents = match count_from(json, "max_price_cents") {
        Some(p) => p,
        None => {
            return None;
        },
    };
    let reasoning = match json.get("reasoning") {
        Some(v) => match v.as_str() {
            Some(text) => text.to_owned(),
            None => {
                return None;
            },
        },
        None => {
            return None;
        },
    };
    Some(TradeDecision { action, side, shares, max_price_cents, reasoning })
}

/// Reads the decision out of a reply of the reasoning service. A reply
/// without a readable decision is a pass.
pub fn parse_decision(raw: &str) -> (d: TradeDecision)
    ensures
        d@ == decision_of_reply(raw@),
{
    match extract_json(raw) {
        Some(text) => match parse_json(text.as_str()) {
            Some(json) => match decision_from_json(&json) {
                Some(d) => d,
                None => pass_decision(),
            },
            None => pass_decision(),
        },
        None => pass_decision(),
    }
}

/// One trade as the reasoning service is shown it.
pub open spec fn trade_line(row: LedgerRowView) -> Seq<char> {
    row.timestamp + " | "@ + row.ticker + " | "@ + row.side + " | "@ + decimal_of(
        row.shares as nat,
    ) + "x @ "@ + decimal_of(row.price as nat) + "¢ | "@ + row.result + " | "@
        + signed_decimal_of(row.pnl_cents as int) + "¢"@
}

/// The trades as the reasoning service is shown them: one line each.
pub open spec fn trades_text(rows: Seq<LedgerRowView>) -> Seq<char> {
    if rows.len() == 0 {
        "No trades yet."@
    } else {
        join_with(Seq::new(rows.len(), |i: int| trade_line(rows[i])), "\n"@)
    }
}

/// The trades as the reasoning service is shown them.
pub fn format_ledger(trades: &Vec<LedgerRow>) -> (r: String)
    ensures
        r@ == trades_text(row_views(trades@)),
{
    if trades.len() == 0 {
        return "No trades yet.".to_owned();
    }
    let mut lines: Vec<Vec<char>> = Vec::new();
    let mut i: usize = 0;
    while i < trades.len()
        invariant
            i <= trades.len(),
            lines@.len() == i,
            forall|k: int| 0 <= k < i ==> (#[trigger] lines@[k])@ == trade_line(trades@[k]@),
        decreases trades.len() - i,
    {
        let t = &trades[i];
        let mut line = chars_of(t.timestamp.as_str());
        extend_str(&mut line, " | ");
        extend_str(&mut line, t.ticker.as_str());
        extend_str(&mut line, " | ");
        extend_str(&mut line, t.side.as_str());
        extend_str(&mut line, " | ");
        push_decimal(&mut line, t.shares as u64);
        extend_str(&mut line, "x @ ");
        push_decimal(&mut line, t.price as u64);
        extend_str(&mut line, "¢ | ");
        extend_str(&mut line, t.result.as_str());
        extend_str(&mut line, " | ");
        push_signed_decimal(&mut line, t.pnl_cents);
        extend_str(&mut line, "¢");
        proof {
            assert(line@ =~= trade_line(t@));
        }
        lines.push(line);
        i += 1;
    }
    proof {
        assert(views(lines@) =~= Seq::new(
            trades@.len(),
            |i: int| trade_line(row_views(trades@)[i]),
        ));
    }
    let feed = chars_of("\n");
    string_of(&join_chars(&lines, &feed))
}

/// One level as the reasoning service is shown it.
pub open spec fn level_text(level: (u32, u32)) -> Seq<char> {
    decimal_of(level.0 as nat) + "¢ x"@ + decimal_of(level.1 as nat)
}

/// One side of the order book as the reasoning service is shown it: its
/// first five levels.
pub open spec fn side_text(levels: Seq<(u32, u32)>) -> Seq<char> {
    if levels.len() == 0 {
        "empty"@
    } else {
        join_with(
            Seq::new(
                if levels.len() < 5 {
                    levels.len()
                } else {
                    5
                },
                |i: int| level_text(levels[i]),
            ),
            ", "@,
        )
    }
}

/// One side of the order book as the reasoning service is shown it.
pub fn format_ob_side(levels: &Vec<(u32, u32)>) -> (r: String)
    ensures
        r@ == side_text(levels@),
{
    if levels.len() == 0 {
        return "empty".to_owned();
    }
    let n: usize = if levels.len() < 5 {
        levels.len()
    } else {
        5
    };
    let mut parts: Vec<Vec<char>> = Vec::new();
    let mut i: usize = 0;
    while i < n
        invariant
            i <= n <= levels.len(),
            parts@.len() == i,
            forall|k: int| 0 <= k < i ==> (#[trigger] parts@[k])@ == level_text(levels@[k]),
        decreases n - i,
    {
        let mut part: Vec<char> = Vec::new();
        push_decimal(&mut part, levels[i].0 as u64);
        extend_str(&mut part, "¢ x");
        push_decimal(&mut part, levels[i].1 as u64);
        proof {
            assert(part@ =~= level_text(levels@[i as int]));
        }
        parts.push(part);
        i += 1;
    }
    proof {
        assert(views(parts@) =~= Seq::new(n as nat, |i: int| level_text(levels@[i])));
    }
    let sep = chars_of(", ");
    string_of(&join_chars(&parts, &sep))
}

} // verus!
