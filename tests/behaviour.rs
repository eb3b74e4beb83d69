use mexc_sniper::bot::{Bot, BotCommand};
use mexc_sniper::decimal::{
    amount_to_text, int_to_text, parse_amount, parse_int, parse_signed_amount, parse_uint,
    signed_amount_to_text, uint_to_text,
};
use mexc_sniper::detector::PatternDetector;
use mexc_sniper::exchange::{
    check_response, Config, ExchangeError, HttpMethod, MexcClient, OrderRequest, OrderResponse,
};
use mexc_sniper::manager::{PositionError, PositionManager};
use mexc_sniper::models::{ttl_for, CalendarEventItem, OrderItem, OrderStatus, PositionItem, Timestamp};
use mexc_sniper::records::{AttributeValue, Record, StoreError};
use mexc_sniper::signing::{create_signature, text_less, QueryParams};
use mexc_sniper::sniper::{SnipeOrderParams, SnipingManager};
use mexc_sniper::status::{BotStatus, ComponentHealth};
use mexc_sniper::store::DynamoDBStore;
use mexc_sniper::trading::{cancel_target, record_order_outcome, validate_order_request, TradingError};

const ONE: u64 = 100_000_000;

fn at(millis: i64) -> Timestamp {
    Timestamp { millis, rfc3339: "2024-01-01T00:00:00+00:00".to_string() }
}

fn config() -> Config {
    Config {
        mexc_api_key: "key".to_string(),
        mexc_secret_key: "Jefe".to_string(),
        mexc_base_url: "https://api.mexc.com".to_string(),
        aws_region: "ap-southeast-1".to_string(),
        dynamodb_table: "mexc_trading_data".to_string(),
        rust_api_port: 8080,
        jwt_secret: None,
        clerk_secret_key: None,
        supabase_url: None,
        supabase_service_role_key: None,
        openai_api_key: None,
    }
}

fn text_of(item: &Record, key: &str) -> Option<String> {
    match item.get(key) {
        Some(AttributeValue::S(s)) => Some(s),
        Some(AttributeValue::N(s)) => Some(s),
        _ => None,
    }
}

fn order_at(id: &str, millis: i64) -> OrderItem {
    OrderItem::new_at(
        "user-1".to_string(),
        "ETHUSDT".to_string(),
        "BUY".to_string(),
        "LIMIT".to_string(),
        2 * ONE,
        Some(2000 * ONE),
        id.to_string(),
        at(millis),
    )
}

fn event_at(id: &str) -> CalendarEventItem {
    CalendarEventItem::new_at(
        "user-1".to_string(),
        "VFARM".to_string(),
        "VFARMUSDT".to_string(),
        1_700_000_000_000,
        "sts:2".to_string(),
        95_000_000,
        id.to_string(),
        at(1_699_999_000_000),
    )
}

fn response(id: &str, status: &str) -> OrderResponse {
    OrderResponse {
        order_id: id.to_string(),
        symbol: "VFARMUSDT".to_string(),
        side: "BUY".to_string(),
        order_type: "MARKET".to_string(),
        quantity: ONE,
        price: 0,
        status: status.to_string(),
        filled_qty: 0,
        created_at: 1_700_000_000_001,
    }
}

// Decimal text.

#[test]
fn amounts_are_written_in_shortest_form() {
    assert_eq!(amount_to_text(50_000_000), "0.5");
    assert_eq!(amount_to_text(2000 * ONE), "2000");
    assert_eq!(amount_to_text(0), "0");
    assert_eq!(amount_to_text(1), "0.00000001");
    assert_eq!(amount_to_text(123_450_000), "1.2345");
    assert_eq!(amount_to_text(u64::MAX), "184467440737.09551615");
}

#[test]
fn integers_are_written_in_decimal() {
    assert_eq!(int_to_text(-42), "-42");
    assert_eq!(int_to_text(0), "0");
    assert_eq!(int_to_text(i64::MIN), "-9223372036854775808");
    assert_eq!(uint_to_text(1_700_000_000_000), "1700000000000");
    assert_eq!(signed_amount_to_text(-20 * ONE as i128), "-20");
    assert_eq!(signed_amount_to_text(i128::MIN), "-1701411834604692317316873037158.84105728");
}

#[test]
fn amounts_are_read_strictly() {
    assert_eq!(parse_amount("0.5"), Some(50_000_000));
    assert_eq!(parse_amount("2000"), Some(2000 * ONE));
    assert_eq!(parse_amount("2000.0"), Some(2000 * ONE));
    assert_eq!(parse_amount("0.00000001"), Some(1));
    assert_eq!(parse_amount("0.000000001"), None);
    assert_eq!(parse_amount("1."), None);
    assert_eq!(parse_amount(".5"), None);
    assert_eq!(parse_amount("1e3"), None);
    assert_eq!(parse_amount(""), None);
    assert_eq!(parse_amount("-1"), None);
    assert_eq!(parse_amount("184467440737.09551616"), None);
    assert_eq!(parse_signed_amount("-20"), Some(-20 * ONE as i128));
    assert_eq!(parse_signed_amount("10.5"), Some(1_050_000_000));
}

#[test]
fn integers_are_read_strictly() {
    assert_eq!(parse_int("-42"), Some(-42));
    assert_eq!(parse_int("9223372036854775807"), Some(i64::MAX));
    assert_eq!(parse_int("-9223372036854775808"), Some(i64::MIN));
    assert_eq!(parse_int("9223372036854775808"), None);
    assert_eq!(parse_int("12a"), None);
    assert_eq!(parse_int("-"), None);
    assert_eq!(parse_uint("007"), Some(7));
}

#[test]
fn amounts_survive_writing_and_reading() {
    for u in [0u64, 1, 50_000_000, 123_456_789, 2000 * ONE, u64::MAX] {
        assert_eq!(parse_amount(&amount_to_text(u)), Some(u));
    }
    for v in [i128::MIN, -1, 0, 1, -20 * ONE as i128, i128::MAX] {
        assert_eq!(parse_signed_amount(&signed_amount_to_text(v)), Some(v));
    }
    for v in [i64::MIN, -1, 0, i64::MAX] {
        assert_eq!(parse_int(&int_to_text(v)), Some(v));
    }
    assert_eq!(parse_signed_amount("1701411834604692317316873037158.84105728"), None);
}

// Signing.

#[test]
fn signature_matches_published_hmac_sha256_vector() {
    let sig = create_signature("Jefe", "what do ya want for nothing?");
    assert_eq!(sig, "5bdcc146bf60754e6a042426089575c75a003f089d2739839dec58b964ec3843");
}

#[test]
fn signature_is_deterministic_and_64_lowercase_hex() {
    let a = create_signature("secret", "symbol=ETHUSDT&timestamp=1");
    let b = create_signature("secret", "symbol=ETHUSDT&timestamp=1");
    let c = create_signature("secret", "symbol=ETHUSDT&timestamp=2");
    assert_eq!(a, b);
    assert_ne!(a, c);
    assert_eq!(a.len(), 64);
    assert!(a.chars().all(|ch| ch.is_ascii_digit() || ('a'..='f').contains(&ch)));
}

#[test]
fn query_keys_are_sorted_whatever_the_insertion_order() {
    let mut p = QueryParams::new();
    p.insert("symbol".to_string(), "ETHUSDT".to_string());
    p.insert("side".to_string(), "BUY".to_string());
    p.insert("type".to_string(), "LIMIT".to_string());
    p.insert("quantity".to_string(), "1".to_string());
    p.insert("price".to_string(), "2000".to_string());
    p.insert("timestamp".to_string(), "1700000000000".to_string());
    let mut q = QueryParams::new();
    q.insert("timestamp".to_string(), "1700000000000".to_string());
    q.insert("price".to_string(), "2000".to_string());
    q.insert("type".to_string(), "LIMIT".to_string());
    q.insert("quantity".to_string(), "1".to_string());
    q.insert("symbol".to_string(), "ETHUSDT".to_string());
    q.insert("side".to_string(), "BUY".to_string());
    let expected = "price=2000&quantity=1&side=BUY&symbol=ETHUSDT&timestamp=1700000000000&type=LIMIT";
    assert_eq!(p.build_query_string(), expected);
    assert_eq!(q.build_query_string(), expected);
}

#[test]
fn query_insert_replaces_an_existing_key() {
    let mut p = QueryParams::new();
    p.insert("symbol".to_string(), "A".to_string());
    p.insert("symbol".to_string(), "B".to_string());
    assert_eq!(p.build_query_string(), "symbol=B");
    assert_eq!(QueryParams::new().build_query_string(), "");
}

#[test]
fn text_order_is_lexicographic() {
    assert!(text_less("orderId", "symbol"));
    assert!(text_less("side", "symbol"));
    assert!(text_less("time", "timestamp"));
    assert!(!text_less("type", "timestamp"));
    assert!(!text_less("a", "a"));
    assert!(text_less("", "a"));
}

#[test]
fn order_request_is_signed_over_sorted_parameters() {
    let client = MexcClient::new(&config());
    let order = OrderRequest {
        symbol: "ETHUSDT".to_string(),
        side: "BUY".to_string(),
        order_type: "LIMIT".to_string(),
        quantity: ONE,
        price: Some(2000 * ONE),
    };
    let r = client.create_order(&order, 1_700_000_000_000);
    let q = "price=2000&quantity=1&side=BUY&symbol=ETHUSDT&timestamp=1700000000000&type=LIMIT";
    let sig = create_signature("Jefe", q);
    assert_eq!(r.method, HttpMethod::Post);
    assert_eq!(r.url, format!("https://api.mexc.com/api/v3/order?{}&signature={}", q, sig));
    assert_eq!(r.api_key, "key");
    assert!(!r.url.contains("key"));
}

#[test]
fn order_reference_and_balance_requests() {
    let client = MexcClient::new(&config());
    let g = client.get_order("ETHUSDT", "42", 5);
    let q = "orderId=42&symbol=ETHUSDT&timestamp=5";
    assert_eq!(g.method, HttpMethod::Get);
    assert_eq!(
        g.url,
        format!("https://api.mexc.com/api/v3/order?{}&signature={}", q, create_signature("Jefe", q))
    );
    let c = client.cancel_order("ETHUSDT", "42", 5);
    assert_eq!(c.method, HttpMethod::Delete);
    assert_eq!(c.url, g.url);
    let b = client.get_account_balance(7);
    assert_eq!(
        b.url,
        format!(
            "https://api.mexc.com/api/v3/account?timestamp=7&signature={}",
            create_signature("Jefe", "timestamp=7")
        )
    );
    let t = client.get_ticker("BTCUSDT");
    assert_eq!(t.method, HttpMethod::Get);
    assert_eq!(t.url, "https://api.mexc.com/api/v3/ticker/24hr?symbol=BTCUSDT");
}

#[test]
fn response_status_decides_upstream_error() {
    assert!(matches!(check_response(200, "{}".to_string()), Ok(b) if b == "{}"));
    assert!(matches!(check_response(299, "x".to_string()), Ok(_)));
    assert!(matches!(
        check_response(400, "bad symbol".to_string()),
        Err(ExchangeError::Upstream(b)) if b == "bad symbol"
    ));
    assert!(matches!(check_response(503, String::new()), Err(ExchangeError::Upstream(_))));
}

// Orders and storage.

#[test]
fn order_starts_pending_with_retention() {
    let o = order_at("o-1", 1_700_000_000_123);
    assert_eq!(o.status, OrderStatus::Pending.as_str());
    assert_eq!(o.filled_qty, 0);
    assert_eq!(o.ttl, 1_700_000_000 + 7_776_000);
    assert_eq!(o.sort_key(), "ORDER#1700000000123#o-1");
    assert_eq!(ttl_for(-1), -1 + 7_776_000);
    assert_eq!(ttl_for(-1000), -1 + 7_776_000);
    assert_eq!(ttl_for(-1001), -2 + 7_776_000);
}

#[test]
fn order_status_names() {
    assert_eq!(OrderStatus::Open.as_str(), "open");
    assert_eq!(OrderStatus::Filled.as_str(), "filled");
    assert_eq!(OrderStatus::Cancelled.as_str(), "cancelled");
    assert_eq!(OrderStatus::Error.as_str(), "error");
}

#[test]
fn filled_quantity_never_exceeds_quantity() {
    let mut o = order_at("o-1", 1);
    assert!(o.record_fill(ONE).is_ok());
    assert_eq!(o.filled_qty, ONE);
    assert!(o.record_fill(2 * ONE).is_ok());
    assert!(o.record_fill(2 * ONE + 1).is_err());
    assert_eq!(o.filled_qty, 2 * ONE);
}

#[test]
fn order_is_written_and_read_back() {
    let store = DynamoDBStore::new("t".to_string());
    let mut o = order_at("o-1", 1_700_000_000_123);
    o.mark_accepted("mx-9".to_string(), "NEW".to_string());
    let put = store.put_order(&o);
    assert_eq!(put.table_name, "t");
    assert_eq!(text_of(&put.item, "user_id").unwrap(), "user-1");
    assert_eq!(text_of(&put.item, "sk").unwrap(), "ORDER#1700000000123#o-1");
    assert_eq!(text_of(&put.item, "quantity").unwrap(), "2");
    assert_eq!(text_of(&put.item, "price").unwrap(), "2000");
    assert_eq!(text_of(&put.item, "data_type").unwrap(), "ORDER");
    assert!(put.item.get("error_message").is_none());
    let back = store.item_to_order(&put.item).ok().unwrap();
    assert_eq!(back.order_id, "o-1");
    assert_eq!(back.quantity, 2 * ONE);
    assert_eq!(back.price, Some(2000 * ONE));
    assert_eq!(back.status, "NEW");
    assert_eq!(back.mexc_order_id, Some("mx-9".to_string()));
    assert_eq!(back.timestamp, 1_700_000_000_123);
    assert_eq!(back.ttl, o.ttl);
}

#[test]
fn same_order_written_twice_has_one_key() {
    let store = DynamoDBStore::new("t".to_string());
    let a = order_at("o-1", 5);
    let mut b = order_at("o-1", 5);
    b.mark_accepted("mx".to_string(), "FILLED".to_string());
    let pa = store.put_order(&a);
    let pb = store.put_order(&b);
    let key = |p: &Record| (text_of(p, "user_id").unwrap(), text_of(p, "sk").unwrap());
    assert_eq!(key(&pa.item), key(&pb.item));
    let mut table = std::collections::HashMap::new();
    table.insert(key(&pa.item), 1);
    table.insert(key(&pb.item), 2);
    table.insert(key(&pa.item), 3);
    assert_eq!(table.len(), 1);
}

#[test]
fn strict_decoding_reports_the_broken_field() {
    let store = DynamoDBStore::new("t".to_string());
    let mut item = store.put_order(&order_at("o-1", 5)).item;
    item.attrs.retain(|(k, _)| k != "symbol");
    assert!(matches!(store.item_to_order(&item), Err(StoreError::CorruptRecord(k)) if k == "symbol"));

    let mut item = store.put_order(&order_at("o-1", 5)).item;
    for (k, v) in item.attrs.iter_mut() {
        if k == "quantity" {
            *v = AttributeValue::N("2.5e3".to_string());
        }
    }
    assert!(matches!(store.item_to_order(&item), Err(StoreError::CorruptRecord(k)) if k == "quantity"));

    let mut item = store.put_order(&order_at("o-1", 5)).item;
    item.put("price", AttributeValue::S("x".to_string()));
    // The first "price" attribute is read; it is still well formed.
    assert!(store.item_to_order(&item).is_ok());
}

#[test]
fn get_order_finds_the_order_by_id() {
    let store = DynamoDBStore::new("t".to_string());
    let items = vec![
        store.put_calendar_event(&event_at("e-1")).item,
        store.put_order(&order_at("o-1", 5)).item,
        store.put_order(&order_at("o-2", 6)).item,
    ];
    let found = store.get_order(&items, "o-2").ok().unwrap().unwrap();
    assert_eq!(found.order_id, "o-2");
    assert_eq!(found.timestamp, 6);
    assert!(store.get_order(&items, "o-3").ok().unwrap().is_none());
    assert!(store.get_order(&items, "-2").ok().unwrap().is_none());
}

#[test]
fn queries_filter_by_kind_and_attribute() {
    let store = DynamoDBStore::new("t".to_string());
    let mut open = order_at("o-1", 5);
    open.mark_accepted("m".to_string(), "open".to_string());
    let manager = PositionManager::new(DynamoDBStore::new("t".to_string()));
    let (pos, pos_put) = manager.open_position("user-1", "ETHUSDT", 100 * ONE, 2 * ONE, "long");
    let items = vec![
        store.put_order(&order_at("o-0", 4)).item,
        store.put_order(&open).item,
        pos_put.item,
        store.put_calendar_event(&event_at("e-1")).item,
    ];
    let orders = store.query_orders_by_status(&items, "open").ok().unwrap();
    assert_eq!(orders.len(), 1);
    assert_eq!(orders[0].order_id, "o-1");
    let pending = store.query_orders_by_status(&items, "pending").ok().unwrap();
    assert_eq!(pending.len(), 1);
    let positions = store.query_open_positions(&items).ok().unwrap();
    assert_eq!(positions.len(), 1);
    assert_eq!(positions[0].position_id, pos.position_id);
    let events = store
        .query_calendar_events_by_time(&items, 1_700_000_000_000, 1_700_000_000_000)
        .ok()
        .unwrap();
    assert_eq!(events.len(), 1);
    assert_eq!(events[0].executed_orders.len(), 0);
    let none = store.query_calendar_events_by_time(&items, 0, 1_699_999_999_999).ok().unwrap();
    assert!(none.is_empty());
    assert_eq!(manager.get_open_positions(&items).ok().unwrap().len(), 1);
}

// Pattern detector.

#[test]
fn pattern_three_intervals_below_sts_minimum_is_none() {
    let detector = PatternDetector::new(80_000_000);
    assert!(detector.detect_pattern("T", &[1000, 2000, 3000]).is_none());
}

#[test]
fn pattern_two_intervals_is_st_2() {
    let detector = PatternDetector::new(85_000_000);
    let p = detector.detect_pattern("T", &[1000, 2000]).unwrap();
    assert_eq!(p.pattern_type, "st:2");
    assert_eq!(p.confidence, 85_000_000);
}

#[test]
fn pattern_four_intervals_is_tt_4() {
    let detector = PatternDetector::new(75_000_000);
    let p = detector.detect_pattern("T", &[1, 2, 3, 4]).unwrap();
    assert_eq!(p.pattern_type, "tt:4");
    assert_eq!(p.confidence, 75_000_000);
}

#[test]
fn pattern_rules_in_precedence_order() {
    let strict = PatternDetector::new(90_000_000);
    let p = strict.detect_pattern("T", &[1, 2, 3, 4]).unwrap();
    assert_eq!(p.pattern_type, "sts:2");
    assert_eq!(p.confidence, 95_000_000);
    assert!(strict.detect_pattern("T", &[1]).is_none());
    assert!(PatternDetector::new(69_999_999).detect_pattern("T", &[1, 2, 3, 4]).is_none());
    assert!(PatternDetector::new(79_999_999).detect_pattern("T", &[1, 2]).is_none());
    assert!(PatternDetector::new(100_000_000).detect_pattern("T", &[]).is_none());
}

// Positions.

#[test]
fn pnl_long_and_short() {
    let mut long = PositionItem::new_at(
        "u".to_string(),
        "S".to_string(),
        100 * ONE,
        2 * ONE,
        "long".to_string(),
        "p".to_string(),
        at(1),
    );
    long.calculate_pnl_at(110 * ONE, at(2));
    assert_eq!(long.pnl, Some(20 * ONE as i128));
    assert_eq!(long.pnl_percentage, Some(10 * ONE as i128));
    assert_eq!(long.current_price, 110 * ONE);

    let mut short = PositionItem::new_at(
        "u".to_string(),
        "S".to_string(),
        100 * ONE,
        2 * ONE,
        "short".to_string(),
        "p".to_string(),
        at(1),
    );
    short.calculate_pnl_at(90 * ONE, at(2));
    assert_eq!(short.pnl, Some(20 * ONE as i128));
    assert_eq!(short.pnl_percentage, Some(10 * ONE as i128));
}

#[test]
fn pnl_losses_and_edge_cases() {
    let mut p = PositionItem::new_at(
        "u".to_string(),
        "S".to_string(),
        100 * ONE,
        2 * ONE,
        "long".to_string(),
        "p".to_string(),
        at(1),
    );
    p.calculate_pnl_at(90 * ONE, at(2));
    assert_eq!(p.pnl, Some(-20 * ONE as i128));
    assert_eq!(p.pnl_percentage, Some(-10 * ONE as i128));
    p.side = "sideways".to_string();
    p.calculate_pnl_at(90 * ONE, at(3));
    assert_eq!(p.pnl, Some(0));
    let mut z = PositionItem::new_at(
        "u".to_string(),
        "S".to_string(),
        0,
        ONE,
        "long".to_string(),
        "p".to_string(),
        at(1),
    );
    z.calculate_pnl_at(ONE, at(2));
    assert_eq!(z.pnl, Some(ONE as i128));
    assert_eq!(z.pnl_percentage, None);
    // 1/3 percent rounds toward zero.
    let mut t = PositionItem::new_at(
        "u".to_string(),
        "S".to_string(),
        3 * ONE,
        ONE,
        "short".to_string(),
        "p".to_string(),
        at(1),
    );
    t.calculate_pnl_at(4 * ONE, at(2));
    assert_eq!(t.pnl_percentage, Some(-3_333_333_333));
}

#[test]
fn position_update_and_close_go_through_the_store() {
    let manager = PositionManager::new(DynamoDBStore::new("t".to_string()));
    let (pos, put) = manager.open_position("user-1", "ETHUSDT", 100 * ONE, 2 * ONE, "long");
    assert_eq!(pos.status, "open");
    let items = vec![put.item];
    let (updated, write) = manager
        .update_position_price(&items, &pos.position_id, 110 * ONE, at(9))
        .ok()
        .unwrap();
    assert_eq!(updated.pnl, Some(20 * ONE as i128));
    assert_eq!(text_of(&write.item, "pnl").unwrap(), "20");
    assert_eq!(text_of(&write.item, "pnl_percentage").unwrap(), "10");
    let (realized, closed) = manager
        .close_position(&items, &pos.position_id, 90 * ONE, at(10))
        .ok()
        .unwrap();
    assert_eq!(realized, -20 * ONE as i128);
    assert_eq!(text_of(&closed.item, "status").unwrap(), "closed");
    assert!(matches!(
        manager.update_position_price(&items, "missing", ONE, at(11)),
        Err(PositionError::NotFound)
    ));
}

// Snipe flow, with the exchange's answer given by the test.

#[test]
fn snipe_success_writes_order_then_sniped_event() {
    let client = MexcClient::new(&config());
    let manager = SnipingManager::new(client, DynamoDBStore::new("t".to_string()));
    let event = event_at("e-1");
    let params = SnipeOrderParams { side: "BUY".to_string(), quantity: ONE };
    let (order, request) = manager.prepare_snipe("user-1", &event, params, "o-7".to_string(), at(5));
    assert_eq!(order.status, "pending");
    assert_eq!(order.order_type, "market");
    assert_eq!(request.order_type, "MARKET");
    assert_eq!(request.symbol, "VFARMUSDT");
    assert_eq!(request.price, None);

    let result = manager.execute_snipe(order, event, Ok(response("mx-1", "NEW")), 1_700_000_000_500);
    assert!(matches!(&result.outcome, Ok(id) if id == "o-7"));
    assert_eq!(result.writes.len(), 2);
    let order_write = &result.writes[0].item;
    let event_write = &result.writes[1].item;
    assert_eq!(text_of(order_write, "data_type").unwrap(), "ORDER");
    assert_eq!(text_of(order_write, "status").unwrap(), "NEW");
    assert_eq!(text_of(order_write, "mexc_order_id").unwrap(), "mx-1");
    assert_eq!(text_of(event_write, "data_type").unwrap(), "CALENDAR");
    assert_eq!(text_of(event_write, "status").unwrap(), "sniped");
    assert_eq!(text_of(event_write, "execution_time").unwrap(), "1700000000500");
    match event_write.get("executed_orders") {
        Some(AttributeValue::Ss(ids)) => assert_eq!(ids, vec!["o-7".to_string()]),
        _ => panic!("executed orders missing"),
    }
    assert_eq!(result.event.status, "sniped");
}

#[test]
fn snipe_failure_leaves_event_detected() {
    let client = MexcClient::new(&config());
    let manager = SnipingManager::new(client, DynamoDBStore::new("t".to_string()));
    let event = event_at("e-1");
    let params = SnipeOrderParams { side: "BUY".to_string(), quantity: ONE };
    let (order, _) = manager.prepare_snipe("user-1", &event, params, "o-7".to_string(), at(5));
    let result = manager.execute_snipe(
        order,
        event,
        Err(ExchangeError::Upstream("insufficient balance".to_string())),
        9,
    );
    assert!(matches!(&result.outcome, Err(ExchangeError::Upstream(m)) if m == "insufficient balance"));
    assert!(result.writes.is_empty());
    assert_eq!(result.event.status, "detected");
    assert!(result.event.executed_orders.is_empty());
    assert_eq!(result.event.execution_time, None);
    assert_eq!(result.order.status, "pending");
}

// Order endpoints.

#[test]
fn order_endpoint_decisions() {
    let bad = OrderRequest {
        symbol: "S".to_string(),
        side: "BUY".to_string(),
        order_type: "MARKET".to_string(),
        quantity: 0,
        price: None,
    };
    assert!(matches!(validate_order_request(&bad), Err(TradingError::Validation(_))));
    let good = OrderRequest { quantity: 1, ..bad };
    assert!(validate_order_request(&good).is_ok());

    let store = DynamoDBStore::new("t".to_string());
    let (failed, put, result) = record_order_outcome(
        &store,
        order_at("o-1", 5),
        Err(ExchangeError::Transport("timeout".to_string())),
    );
    assert!(matches!(result, Err(ExchangeError::Transport(_))));
    assert_eq!(failed.status, "error");
    assert_eq!(failed.error_message, Some("timeout".to_string()));
    assert_eq!(text_of(&put.item, "error_message").unwrap(), "timeout");
    assert!(matches!(cancel_target(&failed), Err(TradingError::NotSent)));

    let (ok, _, result) = record_order_outcome(&store, order_at("o-2", 5), Ok(response("mx-2", "NEW")));
    assert!(result.is_ok());
    assert_eq!(ok.status, "NEW");
    assert!(matches!(cancel_target(&ok), Ok(id) if id == "mx-2"));
}

// Bot, status and settings.

#[test]
fn bot_commands_and_keyboards() {
    let mut bot = Bot::new();
    bot.handle_reactions();
    assert_eq!(bot.handle_command("/status"), BotCommand::Status);
    assert_eq!(bot.handle_command("/positions"), BotCommand::Positions);
    assert_eq!(bot.handle_command("/settings"), BotCommand::Settings);
    assert_eq!(bot.handle_command("/snipe"), BotCommand::Unknown);
    assert!(bot.inline_keyboard(1).is_none());
    bot.update_inline_keyboard(1, vec!["SNIPE JETZT".to_string()]);
    bot.update_inline_keyboard(2, vec!["A".to_string(), "B".to_string()]);
    bot.update_inline_keyboard(1, vec!["ANALYSE MEHR".to_string()]);
    assert_eq!(bot.inline_keyboard(1), Some(vec!["ANALYSE MEHR".to_string()]));
    assert_eq!(bot.inline_keyboard(2), Some(vec!["A".to_string(), "B".to_string()]));
}

#[test]
fn status_report_reflects_exchange_health() {
    let healthy = ComponentHealth { healthy: true, latency_ms: Some(12), error: None };
    let (report, http) = BotStatus::report("0.1.0".to_string(), 100, 160, "now".to_string(), healthy);
    assert_eq!(report.status, "healthy");
    assert_eq!(http, 200);
    assert_eq!(report.uptime_seconds, 60);
    let down = ComponentHealth { healthy: false, latency_ms: None, error: Some("x".to_string()) };
    let (report, http) = BotStatus::report("0.1.0".to_string(), 100, 50, "now".to_string(), down);
    assert_eq!(report.status, "degraded");
    assert_eq!(http, 503);
    assert_eq!(report.uptime_seconds, 0);
    assert_eq!(report.services.storage, "operational");
}

#[test]
fn config_settings_are_read() {
    assert_eq!(Config::port_from_text("8080"), Some(8080));
    assert_eq!(Config::port_from_text("65535"), Some(65535));
    assert_eq!(Config::port_from_text("65536"), None);
    assert_eq!(Config::port_from_text("http"), None);
    assert!(Config::ssm_requested("true"));
    assert!(Config::ssm_requested("1"));
    assert!(!Config::ssm_requested("yes"));
}
