use kalshi_bot::json::{parse_json, Json};
use kalshi_bot::kalshi::{
    active_market, event_from_json, orderbook_from, parse_kalshi_message, positions_from,
    resting_from, settlements_from, soonest, yes_price, KalshiMarket, KalshiOrder, KalshiPosition,
    KalshiSettlement, KalshiWsEvent, MarketsResponse, OrderbookData, OrderbookResponse,
    OrdersResponse, PositionsResponse, SettlementsResponse,
};
use kalshi_bot::types::Side;

fn listed(ticker: &str, expected: Option<&str>, expiration: Option<&str>) -> KalshiMarket {
    KalshiMarket {
        ticker: ticker.to_string(),
        event_ticker: "EV".to_string(),
        market_type: None,
        title: "title".to_string(),
        subtitle: None,
        open_time: None,
        close_time: None,
        expiration_time: expiration.map(|s| s.to_string()),
        expected_expiration_time: expected.map(|s| s.to_string()),
        status: Some("open".to_string()),
        yes_bid: Some(40),
        yes_ask: Some(42),
        no_bid: None,
        no_ask: Some(60),
        last_price: Some(41),
        volume: Some(7),
        volume_24h: None,
        open_interest: Some(3),
        result: None,
        series_ticker: None,
    }
}

// 2026-02-12T20:45:00Z
const NOW: i64 = 1_770_929_100_000;

#[test]
fn json_numbers_strings_and_fields() {
    let v = parse_json(r#"{"b": [1, -2, 1.5, 18446744073709551615], "a": "x", "n": null, "t": true}"#)
        .unwrap();
    assert_eq!(v.get("a").unwrap().as_str(), Some("x"));
    assert!(v.get("missing").is_none());
    assert!(matches!(v.get("n"), Some(Json::Null)));
    assert!(matches!(v.get("t"), Some(Json::Bool(true))));
    let items = v.get("b").unwrap().as_array().unwrap();
    assert_eq!(items.len(), 4);
    assert_eq!(items[0].as_u64(), Some(1));
    assert!(matches!(items[1], Json::Signed(-2)));
    assert_eq!(items[1].as_u64(), None);
    assert!(matches!(items[2], Json::Fraction));
    assert_eq!(items[3].as_u64(), Some(u64::MAX));
    assert!(v.as_str().is_none());
    assert!(v.as_array().is_none());
    assert!(items[0].get("a").is_none());
}

#[test]
fn json_rejects_what_is_not_one_document() {
    assert!(parse_json("").is_none());
    assert!(parse_json("{").is_none());
    assert!(parse_json("{} {}").is_none());
    assert!(parse_json("{'a': 1}").is_none());
    assert!(matches!(parse_json(" 12 "), Some(Json::Unsigned(12))));
}

#[test]
fn orderbook_notice_is_read() {
    let text = r#"{"type":"orderbook_snapshot","msg":{"market_ticker":"T1","yes":[[40,5],[41,7,9],[42],["x",1],[43,-1]],"no":[[60,2]]}}"#;
    match parse_kalshi_message(text) {
        Some(KalshiWsEvent::Orderbook(u)) => {
            assert_eq!(u.ticker, "T1");
            assert_eq!(u.yes, vec![(40, 5), (41, 7)]);
            assert_eq!(u.no, vec![(60, 2)]);
        }
        other => panic!("{:?}", other),
    }
    let text = r#"{"type":"orderbook_delta","msg":{"market_ticker":"T1","yes":"none"}}"#;
    match parse_kalshi_message(text) {
        Some(KalshiWsEvent::Orderbook(u)) => {
            assert!(u.yes.is_empty());
            assert!(u.no.is_empty());
        }
        other => panic!("{:?}", other),
    }
    assert!(parse_kalshi_message(r#"{"type":"orderbook_delta","msg":{"yes":[[1,2]]}}"#).is_none());
}

#[test]
fn fill_notice_is_read() {
    let text = r#"{"type":"fill","msg":{"order_id":"o1","market_ticker":"T1","side":"yes","count":3,"yes_price":41}}"#;
    match parse_kalshi_message(text) {
        Some(KalshiWsEvent::Fill(f)) => {
            assert_eq!(f.order_id, "o1");
            assert_eq!(f.ticker, "T1");
            assert_eq!(f.side, Side::Yes);
            assert_eq!(f.shares, 3);
            assert_eq!(f.price_cents, 41);
        }
        other => panic!("{:?}", other),
    }
    let text = r#"{"type":"fill","msg":{"order_id":"o1","market_ticker":"T1","side":"no","count":3,"yes_price":41}}"#;
    match parse_kalshi_message(text) {
        Some(KalshiWsEvent::Fill(f)) => {
            assert_eq!(f.side, Side::No);
            assert_eq!(f.price_cents, 59);
        }
        other => panic!("{:?}", other),
    }
    let text = r#"{"type":"fill","msg":{"order_id":"o1","market_ticker":"T1","side":"no","count":3}}"#;
    match parse_kalshi_message(text) {
        Some(KalshiWsEvent::Fill(f)) => assert_eq!(f.price_cents, 0),
        other => panic!("{:?}", other),
    }
}

#[test]
fn fill_notice_with_a_bad_field_is_dropped() {
    for text in [
        r#"{"type":"fill","msg":{"market_ticker":"T1","side":"yes","count":3}}"#,
        r#"{"type":"fill","msg":{"order_id":"o1","side":"yes","count":3}}"#,
        r#"{"type":"fill","msg":{"order_id":"o1","market_ticker":"T1","side":"maybe","count":3}}"#,
        r#"{"type":"fill","msg":{"order_id":"o1","market_ticker":"T1","side":"yes","count":-3}}"#,
        r#"{"type":"fill","msg":{"order_id":"o1","market_ticker":"T1","side":"yes"}}"#,
        r#"{"type":"fill","msg":{"order_id":"o1","market_ticker":"T1","side":"no","count":3,"yes_price":101}}"#,
        r#"{"type":"fill"}"#,
        r#"{"msg":{}}"#,
        r#"{"type":"other","msg":{}}"#,
        r#"{"type":7,"msg":{}}"#,
        r#"[1,2]"#,
        "not json",
    ] {
        assert!(parse_kalshi_message(text).is_none(), "{}", text);
    }
}

#[test]
fn lifecycle_notice_is_read() {
    let text = r#"{"type":"market_lifecycle","msg":{"market_ticker":"T1","status":"settled","result":"yes"}}"#;
    match parse_kalshi_message(text) {
        Some(KalshiWsEvent::MarketLifecycle(m)) => {
            assert_eq!(m.ticker, "T1");
            assert_eq!(m.status, "settled");
            assert_eq!(m.result, Some("yes".to_string()));
        }
        other => panic!("{:?}", other),
    }
    let text = r#"{"type":"market_lifecycle","msg":{"market_ticker":"T1","status":"open","result":3}}"#;
    match parse_kalshi_message(text) {
        Some(KalshiWsEvent::MarketLifecycle(m)) => assert_eq!(m.result, None),
        other => panic!("{:?}", other),
    }
}

#[test]
fn notice_from_a_tree_built_by_hand() {
    let message = Json::Object(vec![
        ("msg".to_string(), Json::Object(vec![
            ("count".to_string(), Json::Unsigned(4_294_967_297)),
            ("market_ticker".to_string(), Json::Text("T9".to_string())),
            ("order_id".to_string(), Json::Text("o9".to_string())),
            ("side".to_string(), Json::Text("yes".to_string())),
            ("yes_price".to_string(), Json::Unsigned(4_294_967_296 + 33)),
        ])),
        ("type".to_string(), Json::Text("fill".to_string())),
    ]);
    match event_from_json(&message) {
        Some(KalshiWsEvent::Fill(f)) => {
            assert_eq!(f.shares, 1);
            assert_eq!(f.price_cents, 33);
        }
        other => panic!("{:?}", other),
    }
}

#[test]
fn positions_follow_the_sign_of_the_exposure() {
    let resp = PositionsResponse {
        market_positions: vec![
            KalshiPosition { ticker: "A".to_string(), market_exposure: Some(3), resting_orders_count: None },
            KalshiPosition { ticker: "B".to_string(), market_exposure: Some(0), resting_orders_count: Some(1) },
            KalshiPosition { ticker: "C".to_string(), market_exposure: None, resting_orders_count: None },
            KalshiPosition { ticker: "D".to_string(), market_exposure: Some(-7), resting_orders_count: None },
            KalshiPosition { ticker: "E".to_string(), market_exposure: Some(i64::MIN), resting_orders_count: None },
            KalshiPosition { ticker: "F".to_string(), market_exposure: Some(4_294_967_296 + 5), resting_orders_count: None },
        ],
    };
    let ps = positions_from(&resp);
    let got: Vec<(String, Side, u32)> = ps.iter().map(|p| (p.ticker.clone(), p.side, p.count)).collect();
    assert_eq!(
        got,
        vec![
            ("A".to_string(), Side::Yes, 3),
            ("D".to_string(), Side::No, 7),
            ("E".to_string(), Side::No, 0),
            ("F".to_string(), Side::Yes, 5),
        ]
    );
}

#[test]
fn settlements_are_wins_where_revenue_was_paid() {
    let resp = SettlementsResponse {
        settlements: vec![
            KalshiSettlement { ticker: "A".to_string(), market_result: "yes".to_string(), revenue: Some(200), settled_time: Some("t".to_string()) },
            KalshiSettlement { ticker: "B".to_string(), market_result: "no".to_string(), revenue: Some(0), settled_time: None },
            KalshiSettlement { ticker: "C".to_string(), market_result: "no".to_string(), revenue: None, settled_time: None },
        ],
    };
    let ss = settlements_from(&resp);
    assert_eq!(ss.len(), 3);
    assert_eq!((ss[0].result.as_str(), ss[0].pnl_cents, ss[0].settled_time.as_str()), ("win", 200, "t"));
    assert_eq!((ss[1].result.as_str(), ss[1].pnl_cents, ss[1].settled_time.as_str()), ("loss", 0, ""));
    assert_eq!((ss[2].result.as_str(), ss[2].pnl_cents), ("loss", 0));
    assert_eq!(ss[0].market_result, "yes");
    assert_eq!(ss[0].ticker, "A");
    assert_eq!((ss[0].side, ss[0].count, ss[0].price_cents), (Side::Yes, 0, 0));
}

#[test]
fn resting_orders_keep_id_and_ticker() {
    let resp = OrdersResponse {
        orders: vec![
            KalshiOrder { order_id: "o1".to_string(), ticker: "A".to_string(), status: "resting".to_string() },
            KalshiOrder { order_id: "o2".to_string(), ticker: "B".to_string(), status: "resting".to_string() },
        ],
    };
    let rs = resting_from(&resp);
    assert_eq!(rs.len(), 2);
    assert_eq!((rs[1].order_id.as_str(), rs[1].ticker.as_str()), ("o2", "B"));
}

#[test]
fn orderbook_levels_need_two_numbers() {
    let resp = OrderbookResponse {
        orderbook: OrderbookData {
            yes: Some(vec![vec![40, 5], vec![41], vec![], vec![42, 6, 7], vec![4_294_967_296 + 1, 2]]),
            no: None,
        },
    };
    let ob = orderbook_from(&resp);
    assert_eq!(ob.yes, vec![(40, 5), (42, 6), (1, 2)]);
    assert!(ob.no.is_empty());
}

#[test]
fn yes_price_is_the_complement_for_no() {
    assert_eq!(yes_price(Side::Yes, 40), 40);
    assert_eq!(yes_price(Side::No, 40), 60);
    assert_eq!(yes_price(Side::No, 100), 0);
    assert_eq!(yes_price(Side::No, 0), 100);
    assert_eq!(yes_price(Side::Yes, 250), 250);
}

#[test]
fn soonest_takes_the_first_of_the_least_positive() {
    assert_eq!(soonest(&vec![]), None);
    assert_eq!(soonest(&vec![None, Some(0), Some(-5)]), None);
    assert_eq!(soonest(&vec![Some(900), None, Some(300), Some(-1), Some(300), Some(1200)]), Some(2));
    assert_eq!(soonest(&vec![Some(1)]), Some(0));
}

#[test]
fn active_market_is_the_soonest_due_in_the_future() {
    let resp = MarketsResponse {
        markets: vec![
            listed("PAST", Some("2026-02-12T20:44:59Z"), None),
            listed("LATE", Some("2026-02-12T21:15:00Z"), None),
            listed("BAD", Some("soon"), Some("2026-02-12T20:46:00Z")),
            listed("NEXT", None, Some("2026-02-12T22:00:00+01:00")),
            listed("NONE", None, None),
            listed("TIE", Some("2026-02-12T21:00:00Z"), None),
        ],
        cursor: None,
    };
    let m = active_market(&resp, NOW).unwrap();
    assert_eq!(m.ticker, "NEXT");
    assert_eq!(m.seconds_to_expiry, 900);
    assert_eq!(m.expiration_time, "2026-02-12T22:00:00+01:00");
    assert_eq!(m.event_ticker, "EV");
    assert_eq!(m.title, "title");
    assert_eq!((m.yes_bid, m.yes_ask, m.no_bid, m.no_ask, m.last_price), (Some(40), Some(42), None, Some(60), Some(41)));
    assert_eq!((m.volume, m.volume_24h, m.open_interest), (7, 0, 3));
}

#[test]
fn no_active_market_when_none_is_due_in_the_future() {
    let resp = MarketsResponse {
        markets: vec![
            listed("PAST", Some("2026-02-12T20:44:59Z"), None),
            listed("NOW", Some("2026-02-12T20:45:00.999Z"), None),
            listed("NONE", None, None),
        ],
        cursor: None,
    };
    assert!(active_market(&resp, NOW).is_none());
    assert!(active_market(&MarketsResponse { markets: vec![], cursor: None }, NOW).is_none());
}
