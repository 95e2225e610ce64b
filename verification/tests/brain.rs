use kalshi_bot::brain::{
    decision_from_json, extract_json, format_ledger, format_ob_side, parse_decision, pass_decision,
};
use kalshi_bot::json::Json;
use kalshi_bot::types::{Action, LedgerRow, Side};

#[test]
fn json_is_taken_from_a_fenced_block() {
    let raw = "Here you go:\n```json\n{\"action\": \"PASS\", \"reasoning\": \"x\"}\n```\nbye ```";
    assert_eq!(extract_json(raw), Some("{\"action\": \"PASS\", \"reasoning\": \"x\"}".to_string()));
    let raw = "```json {\"a\": 1}";
    assert_eq!(extract_json(raw), Some("{\"a\": 1}".to_string()));
    let raw = "é```json\n1\n```";
    assert_eq!(extract_json(raw), Some("1".to_string()));
    assert_eq!(extract_json("```json"), Some(String::new()));
}

#[test]
fn json_is_the_whole_reply_when_it_begins_with_a_brace() {
    assert_eq!(extract_json("  {\"a\": 1} tail \n"), Some("{\"a\": 1} tail".to_string()));
}

#[test]
fn json_is_taken_between_the_outermost_braces() {
    assert_eq!(extract_json("I say {\"a\": {\"b\": 1}} so."), Some("{\"a\": {\"b\": 1}}".to_string()));
    assert_eq!(extract_json("x { y"), None);
    assert_eq!(extract_json("x } y { z"), None);
    assert_eq!(extract_json("nothing here"), None);
    assert_eq!(extract_json(""), None);
}

#[test]
fn reply_without_a_decision_is_a_pass() {
    for raw in ["no json at all", "{broken", "```json\n[1,2]\n```", "{\"action\": \"HOLD\", \"reasoning\": \"x\"}", "{\"action\": \"BUY\"}", "} {"] {
        let d = parse_decision(raw);
        assert_eq!(d.action, Action::Pass, "{}", raw);
        assert_eq!(d.side, None);
        assert_eq!(d.shares, None);
        assert_eq!(d.max_price_cents, None);
        assert_eq!(d.reasoning, "Failed to parse AI response");
    }
    assert_eq!(pass_decision().reasoning, "Failed to parse AI response");
}

#[test]
fn decision_is_read_from_a_reply() {
    let raw = "Sure.\n```json\n{\"action\": \"BUY\", \"side\": \"no\", \"shares\": 2, \"max_price_cents\": 40, \"reasoning\": \"edge\", \"extra\": [1]}\n```";
    let d = parse_decision(raw);
    assert_eq!(d.action, Action::Buy);
    assert_eq!(d.side, Some(Side::No));
    assert_eq!(d.shares, Some(2));
    assert_eq!(d.max_price_cents, Some(40));
    assert_eq!(d.reasoning, "edge");
}

#[test]
fn fields_may_be_left_out_or_null() {
    let d = parse_decision("{\"action\": \"PASS\", \"side\": null, \"reasoning\": \"wait\"}");
    assert_eq!(d.action, Action::Pass);
    assert_eq!((d.side, d.shares, d.max_price_cents), (None, None, None));
    assert_eq!(d.reasoning, "wait");
}

#[test]
fn a_field_of_the_wrong_kind_spoils_the_decision() {
    let field = |name: &str, value: Json| {
        let mut fields = vec![
            ("action".to_string(), Json::Text("BUY".to_string())),
            ("reasoning".to_string(), Json::Text("r".to_string())),
        ];
        fields.push((name.to_string(), value));
        Json::Object(fields)
    };
    assert!(decision_from_json(&field("side", Json::Text("YES".to_string()))).is_none());
    assert!(decision_from_json(&field("side", Json::Unsigned(1))).is_none());
    assert!(decision_from_json(&field("shares", Json::Signed(-1))).is_none());
    assert!(decision_from_json(&field("shares", Json::Fraction)).is_none());
    assert!(decision_from_json(&field("shares", Json::Unsigned(4_294_967_296))).is_none());
    assert!(decision_from_json(&field("max_price_cents", Json::Text("40".to_string()))).is_none());
    let d = decision_from_json(&field("shares", Json::Unsigned(4_294_967_295))).unwrap();
    assert_eq!(d.shares, Some(u32::MAX));
    let d = decision_from_json(&field("side", Json::Text("yes".to_string()))).unwrap();
    assert_eq!(d.side, Some(Side::Yes));
    assert!(decision_from_json(&Json::Array(vec![])).is_none());
    assert!(decision_from_json(&Json::Object(vec![("reasoning".to_string(), Json::Text("r".to_string()))])).is_none());
}

fn row(ticker: &str, result: &str, pnl: i64) -> LedgerRow {
    LedgerRow {
        timestamp: "t".to_string(),
        ticker: ticker.to_string(),
        side: "yes".to_string(),
        shares: 2,
        price: 40,
        result: result.to_string(),
        pnl_cents: pnl,
        cumulative_cents: 0,
        order_id: "o".to_string(),
    }
}

#[test]
fn trades_are_shown_one_per_line() {
    assert_eq!(format_ledger(&vec![]), "No trades yet.");
    assert_eq!(format_ledger(&vec![row("A", "win", 120)]), "t | A | yes | 2x @ 40¢ | win | 120¢");
    assert_eq!(
        format_ledger(&vec![row("A", "win", 120), row("B", "loss", -80)]),
        "t | A | yes | 2x @ 40¢ | win | 120¢\nt | B | yes | 2x @ 40¢ | loss | -80¢"
    );
}

#[test]
fn order_book_side_shows_its_first_five_levels() {
    assert_eq!(format_ob_side(&vec![]), "empty");
    assert_eq!(format_ob_side(&vec![(40, 5)]), "40¢ x5");
    assert_eq!(
        format_ob_side(&vec![(40, 5), (39, 1), (38, 0), (37, 7), (36, 2), (35, 9)]),
        "40¢ x5, 39¢ x1, 38¢ x0, 37¢ x7, 36¢ x2"
    );
}
