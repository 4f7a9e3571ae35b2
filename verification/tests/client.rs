use fourier::feed::default_precision;
use fourier::order_engine::{price_per_unit, OrderEngine, OrderWithResponse};
use fourier::roostoo::{
    decimal, read_balance, read_cancel_order, read_exchange_info, read_pending_count,
    read_place_order, read_query_order, read_server_time, read_ticker, same_text, BalanceInfo,
    BalanceResponse, CancelOrderResponse, Decimal, ExchangeInfo, Method, OrderDetail, OrderSide,
    OrderType, PendingCountResponse, PlaceOrderFields, QueryOrderResponse, Request, RoostooClient,
    RoostooError, ServerTime, TickerResponse, WalletEntry,
};
use fourier::strategy::Order;

fn client() -> RoostooClient {
    RoostooClient::new("test_api_key".to_string(), "test_secret_key".to_string())
}

fn pairs(params: &[fourier::roostoo::Param]) -> Vec<(String, String)> {
    params.iter().map(|p| (p.name.clone(), p.value.clone())).collect()
}

fn named(list: &[(&str, &str)]) -> Vec<(String, String)> {
    list.iter().map(|(n, v)| (n.to_string(), v.to_string())).collect()
}

fn detail() -> OrderDetail {
    OrderDetail {
        pair: "BTC/USD".to_string(),
        order_id: 81,
        status: "FILLED".to_string(),
        role: "TAKER".to_string(),
        server_time_usage: 12,
        create_timestamp: 1,
        finish_timestamp: 2,
        side: "BUY".to_string(),
        order_type: "MARKET".to_string(),
        stop_type: "GTC".to_string(),
        price: 0,
        quantity: 5,
        filled_quantity: 5,
        filled_aver_price: 100,
        coin_change: 5,
        unit_change: -500,
        commission_coin: "USD".to_string(),
        commission_charge_value: 1,
        commission_percent: 1000,
    }
}

fn text(e: &RoostooError) -> String {
    e.to_string()
}

#[test]
fn test_client_creation() {
    let client = RoostooClient::new("test_api_key".to_string(), "test_secret_key".to_string());
    assert_eq!(client.api_key, "test_api_key");
    assert_eq!(client.secret_key, "test_secret_key");
}

#[test]
fn the_client_starts_at_the_mock_venue() {
    assert_eq!(client().base_url, "https://mock-api.roostoo.com");
    let moved = client().with_base_url("http://localhost:1".to_string());
    assert_eq!(moved.base_url, "http://localhost:1");
    assert_eq!(moved.api_key, "test_api_key");
    assert_eq!(moved.secret_key, "test_secret_key");
}

#[test]
fn sides_are_read_from_the_wire() {
    assert_eq!(OrderSide::from_wire("BUY"), Some(OrderSide::Buy));
    assert_eq!(OrderSide::from_wire("SELL"), Some(OrderSide::Sell));
    assert_eq!(OrderSide::from_wire("buy"), None);
    assert_eq!(OrderSide::from_wire(""), None);
    assert_eq!(OrderSide::Buy.as_str(), "BUY");
    assert_eq!(OrderType::Market.as_str(), "MARKET");
    assert!(same_text("a", "a"));
    assert!(!same_text("a", "ab"));
}

#[test]
fn a_signature_is_the_hmac_in_hexadecimal() {
    let c = RoostooClient::new("k".to_string(), "key".to_string());
    assert_eq!(
        c.create_signature("The quick brown fox jumps over the lazy dog"),
        "f7bc83f430538424b13298e6aa6fb143ef4d59a14946175997479dbc2d1a3cd8"
    );
    assert_eq!(
        client().create_signature("timestamp=1700000000000"),
        "61dc9079a6aef7bc92337c1a152e9898a15b1dbf2993fd72ff88e9579293ff75"
    );
}

#[test]
fn signed_headers_carry_key_and_signature() {
    let headers = client().create_signed_headers("timestamp=1700000000000");
    assert_eq!(
        pairs(&headers),
        named(&[
            ("RST-API-KEY", "test_api_key"),
            ("MSG-SIGNATURE", "61dc9079a6aef7bc92337c1a152e9898a15b1dbf2993fd72ff88e9579293ff75"),
            ("content-type", "application/x-www-form-urlencoded"),
        ])
    );
}

#[test]
fn numbers_are_written_in_decimal() {
    assert_eq!(decimal(0), "0");
    assert_eq!(decimal(7), "7");
    assert_eq!(decimal(10), "10");
    assert_eq!(decimal(1700000000000), "1700000000000");
    assert_eq!(decimal(u64::MAX), "18446744073709551615");
}

#[test]
fn fixed_point_numbers_have_all_their_digits() {
    assert_eq!(Decimal { units: 50000, digits: 5 }.to_string(), "0.50000");
    assert_eq!(Decimal { units: 123456, digits: 2 }.to_string(), "1234.56");
    assert_eq!(Decimal { units: 5, digits: 0 }.to_string(), "5");
    assert_eq!(Decimal { units: 7, digits: 3 }.to_string(), "0.007");
    assert_eq!(Decimal { units: 1000, digits: 3 }.to_string(), "1.000");
    assert_eq!(Decimal { units: 0, digits: 2 }.to_string(), "0.00");
    assert_eq!(Decimal { units: 120, digits: 3 }.to_string(), "0.120");
    assert_eq!(Decimal { units: u64::MAX, digits: 1 }.to_string(), "1844674407370955161.5");
}

#[test]
fn unsigned_queries_carry_only_their_address() {
    let r = client().check_server_time();
    assert_eq!(r.method, Method::Get);
    assert_eq!(r.url, "https://mock-api.roostoo.com/v3/serverTime");
    assert!(r.query.is_empty() && r.headers.is_empty() && r.body.is_none());
    let r = client().with_base_url("http://v".to_string()).get_exchange_info();
    assert_eq!(r.url, "http://v/v3/exchangeInfo");
    assert!(r.query.is_empty() && r.headers.is_empty() && r.body.is_none());
}

#[test]
fn a_ticker_query_names_pair_and_time() {
    let r = client().get_ticker("BTC/USD", 1700000000000);
    assert_eq!(r.method, Method::Get);
    assert_eq!(r.url, "https://mock-api.roostoo.com/v3/ticker");
    assert_eq!(pairs(&r.query), named(&[("pair", "BTC/USD"), ("timestamp", "1700000000000")]));
    assert!(r.headers.is_empty() && r.body.is_none());
}

fn signed_query(r: &Request, url: &str) {
    assert_eq!(r.method, Method::Get);
    assert_eq!(r.url, url);
    assert_eq!(pairs(&r.query), named(&[("timestamp", "1700000000000")]));
    assert_eq!(
        pairs(&r.headers),
        named(&[
            ("RST-API-KEY", "test_api_key"),
            ("MSG-SIGNATURE", "61dc9079a6aef7bc92337c1a152e9898a15b1dbf2993fd72ff88e9579293ff75"),
            ("content-type", "application/x-www-form-urlencoded"),
        ])
    );
    assert!(r.body.is_none());
}

#[test]
fn balance_and_pending_queries_are_signed_over_the_time() {
    signed_query(&client().get_balance(1700000000000), "https://mock-api.roostoo.com/v3/balance");
    signed_query(
        &client().get_pending_count(1700000000000),
        "https://mock-api.roostoo.com/v3/pending_count",
    );
}

#[test]
fn an_order_is_posted_with_sorted_parameters() {
    let c = RoostooClient::new("k1".to_string(), "s3".to_string());
    let r = c
        .place_order(
            "BTC/USD",
            OrderSide::Buy,
            OrderType::Market,
            Decimal { units: 50000, digits: 5 },
            None,
            1700000000000,
        )
        .unwrap();
    let params = "pair=BTC/USD&quantity=0.50000&side=BUY&timestamp=1700000000000&type=MARKET";
    assert_eq!(r.method, Method::Post);
    assert_eq!(r.url, "https://mock-api.roostoo.com/v3/place_order");
    assert!(r.query.is_empty());
    assert_eq!(r.body.as_deref(), Some(params));
    assert_eq!(
        pairs(&r.headers),
        named(&[
            ("RST-API-KEY", "k1"),
            ("MSG-SIGNATURE", "3bae0980a3a67702e03b10e961f6f6b891eff850aebe29c732a98a942ce07fd5"),
            ("content-type", "application/x-www-form-urlencoded"),
        ])
    );
}

#[test]
fn a_limit_order_carries_its_price() {
    let r = client()
        .place_order(
            "ETH/USD",
            OrderSide::Sell,
            OrderType::Limit,
            Decimal { units: 15, digits: 1 },
            Some(Decimal { units: 250050, digits: 2 }),
            5,
        )
        .unwrap();
    assert_eq!(
        r.body.as_deref(),
        Some("pair=ETH/USD&price=2500.50&quantity=1.5&side=SELL&timestamp=5&type=LIMIT")
    );
}

#[test]
fn a_limit_order_needs_a_price() {
    let r = client().place_order(
        "ETH/USD",
        OrderSide::Sell,
        OrderType::Limit,
        Decimal { units: 15, digits: 1 },
        None,
        5,
    );
    match r {
        Err(RoostooError::InvalidParameter(m)) => assert_eq!(m, "LIMIT orders require a price"),
        _ => panic!("the order must be refused"),
    }
}

#[test]
fn orders_are_selected_by_identifier_or_else_by_pair() {
    let c = client();
    let body = |r: Request| r.body.unwrap();
    assert_eq!(body(c.query_order(Some(81), Some("BTC/USD"), Some(true), 9)), "order_id=81&timestamp=9");
    assert_eq!(body(c.query_order(None, Some("BTC/USD"), Some(true), 9)), "pair=BTC/USD&pending_only=TRUE&timestamp=9");
    assert_eq!(body(c.query_order(None, Some("BTC/USD"), Some(false), 9)), "pair=BTC/USD&pending_only=FALSE&timestamp=9");
    assert_eq!(body(c.query_order(None, Some("BTC/USD"), None, 9)), "pair=BTC/USD&timestamp=9");
    assert_eq!(body(c.query_order(None, None, Some(true), 9)), "timestamp=9");
    assert_eq!(body(c.cancel_order(Some(3), None, 9)), "order_id=3&timestamp=9");
    assert_eq!(body(c.cancel_order(None, Some("X/USD"), 9)), "pair=X/USD&timestamp=9");
    assert_eq!(body(c.cancel_order(None, None, 9)), "timestamp=9");
    let q = c.query_order(Some(81), None, None, 9);
    assert_eq!(q.method, Method::Post);
    assert_eq!(q.url, "https://mock-api.roostoo.com/v3/query_order");
    assert_eq!(q.headers[1].value, c.create_signature("order_id=81&timestamp=9"));
    let x = c.cancel_order(Some(3), None, 9);
    assert_eq!(x.url, "https://mock-api.roostoo.com/v3/cancel_order");
    assert_eq!(x.headers[1].value, c.create_signature("order_id=3&timestamp=9"));
    assert_eq!(x.headers[0].value, "test_api_key");
}

#[test]
fn errors_say_what_kind_they_are() {
    assert_eq!(text(&RoostooError::RequestError("down".to_string())), "HTTP request error: down");
    assert_eq!(text(&RoostooError::ApiError("no".to_string())), "API error: no");
    assert_eq!(text(&RoostooError::SerializationError("eof".to_string())), "Serialization error: eof");
    assert_eq!(text(&RoostooError::AuthError("key".to_string())), "Authentication error: key");
    assert_eq!(text(&RoostooError::InvalidParameter("p".to_string())), "Invalid parameter: p");
    assert_eq!(text(&RoostooError::JsonParseError("j".to_string())), "Invalid JSON: j");
}

#[test]
fn plain_replies_are_read_by_their_status() {
    assert_eq!(read_server_time(true, Ok(ServerTime { server_time: 5 })).unwrap().server_time, 5);
    assert_eq!(text(&read_server_time(true, Err("bad".to_string())).unwrap_err()), "HTTP request error: bad");
    assert_eq!(
        text(&read_server_time(false, Ok(ServerTime { server_time: 5 })).unwrap_err()),
        "API error: Failed to get server time"
    );
    let info = ExchangeInfo { is_running: true, initial_wallet: Vec::new(), trade_pairs: Vec::new() };
    assert!(read_exchange_info(true, Ok(info.clone())).unwrap().is_running);
    assert_eq!(
        text(&read_exchange_info(false, Ok(info)).unwrap_err()),
        "API error: Failed to get exchange info"
    );
    let pending = PendingCountResponse {
        success: false,
        err_msg: "none".to_string(),
        total_pending: 0,
        order_pairs: Vec::new(),
    };
    assert_eq!(read_pending_count(Ok(pending)).unwrap().err_msg, "none");
    assert_eq!(text(&read_pending_count(Err("x".to_string())).unwrap_err()), "HTTP request error: x");
}

#[test]
fn refusals_are_errors() {
    let ticker = |success: bool| TickerResponse {
        success,
        err_msg: "no pair".to_string(),
        server_time: 1,
        data: Vec::new(),
    };
    assert_eq!(read_ticker(true, Ok(ticker(true))).unwrap().server_time, 1);
    assert_eq!(text(&read_ticker(true, Ok(ticker(false))).unwrap_err()), "API error: no pair");
    assert_eq!(text(&read_ticker(false, Ok(ticker(true))).unwrap_err()), "API error: Failed to get ticker");
    assert_eq!(text(&read_ticker(true, Err("e".to_string())).unwrap_err()), "HTTP request error: e");

    let query = |success: bool| QueryOrderResponse {
        success,
        err_msg: "no order".to_string(),
        order_matched: vec![detail()],
    };
    assert_eq!(read_query_order(true, Ok(query(true))).unwrap().order_matched.len(), 1);
    assert_eq!(text(&read_query_order(true, Ok(query(false))).unwrap_err()), "API error: no order");
    assert_eq!(text(&read_query_order(false, Ok(query(true))).unwrap_err()), "API error: Failed to query order");

    let cancel = |success: bool| CancelOrderResponse {
        success,
        err_msg: "late".to_string(),
        canceled_list: vec![4, 5],
    };
    assert_eq!(read_cancel_order(true, Ok(cancel(true))).unwrap().canceled_list, vec![4, 5]);
    assert_eq!(text(&read_cancel_order(true, Ok(cancel(false))).unwrap_err()), "API error: late");
    assert_eq!(text(&read_cancel_order(false, Ok(cancel(true))).unwrap_err()), "API error: Failed to cancel order");
}

#[test]
fn balances_are_read_with_their_own_errors() {
    let wallet = |success: bool| BalanceResponse {
        success,
        err_msg: "locked".to_string(),
        spot_wallet: vec![
            WalletEntry { currency: "BTC".to_string(), balance: BalanceInfo { free: 2, lock: 1 } },
            WalletEntry { currency: "USD".to_string(), balance: BalanceInfo { free: 970, lock: 0 } },
        ],
        margin_wallet: Vec::new(),
    };
    let read = read_balance(true, Ok(wallet(true)), "").unwrap();
    assert_eq!(read.spot_free("USD"), Some(970));
    assert_eq!(read.spot_free("BTC"), Some(2));
    assert_eq!(read.spot_free("ETH"), None);
    assert_eq!(text(&read_balance(true, Ok(wallet(false)), "").unwrap_err()), "API error: locked");
    assert_eq!(text(&read_balance(true, Err("eof".to_string()), "").unwrap_err()), "Serialization error: eof");
    assert_eq!(
        text(&read_balance(false, Ok(wallet(true)), "teapot").unwrap_err()),
        "API error: HTTP error: teapot"
    );
}

#[test]
fn a_placement_reply_is_read_field_by_field() {
    let fields = |success: Option<bool>, err_msg: Option<&str>, with_detail: bool| PlaceOrderFields {
        success,
        err_msg: err_msg.map(|m| m.to_string()),
        order_detail: if with_detail { Some(detail()) } else { None },
    };
    let ok = read_place_order(true, Ok(fields(Some(true), None, true))).unwrap();
    assert!(ok.success);
    assert_eq!(ok.err_msg, "");
    assert_eq!(ok.order_detail.unwrap().order_id, 81);
    let bare = read_place_order(true, Ok(fields(Some(true), Some("warn"), false))).unwrap();
    assert!(bare.success && bare.order_detail.is_none());
    assert_eq!(bare.err_msg, "warn");
    let refused = read_place_order(true, Ok(fields(Some(false), Some("no funds"), true))).unwrap();
    assert!(!refused.success && refused.order_detail.is_none());
    assert_eq!(refused.err_msg, "no funds");
    assert_eq!(
        text(&read_place_order(true, Ok(fields(None, None, true))).unwrap_err()),
        "Invalid JSON: Missing 'Success' field"
    );
    assert_eq!(
        text(&read_place_order(true, Err("eof".to_string())).unwrap_err()),
        "Invalid JSON: Invalid JSON: eof"
    );
    assert_eq!(
        text(&read_place_order(false, Ok(fields(Some(true), None, true))).unwrap_err()),
        "API error: HTTP request failed"
    );
}

#[test]
fn a_price_per_lot_goes_out_as_a_price_per_unit() {
    assert_eq!(price_per_unit(12345, 5), Some(Decimal { units: 12345, digits: 3 }));
    assert_eq!(price_per_unit(12345, 0), Some(Decimal { units: 12345, digits: 8 }));
    assert_eq!(price_per_unit(12345, 8), Some(Decimal { units: 12345, digits: 0 }));
    assert_eq!(price_per_unit(12345, 10), Some(Decimal { units: 1234500, digits: 0 }));
    assert_eq!(price_per_unit(0, u64::MAX), Some(Decimal { units: 0, digits: 0 }));
    assert_eq!(price_per_unit(1, 27), Some(Decimal { units: 10_000_000_000_000_000_000, digits: 0 }));
    assert_eq!(price_per_unit(2, 27), None);
    assert_eq!(price_per_unit(1, 28), None);
    assert_eq!(price_per_unit(1, 1000), None);
}

#[test]
fn the_desk_shapes_the_request_of_an_envelope() {
    let desk = OrderEngine::build("k1".to_string(), "s3".to_string());
    assert_eq!(desk.client.base_url, "https://mock-api.roostoo.com");
    let envelope = |order_type: OrderType, price: Option<u64>, precision: u64| OrderWithResponse {
        order: Order {
            pair: "BTC/USD".to_string(),
            side: OrderSide::Buy,
            order_type,
            quantity: 50000,
            price,
        },
        precision,
    };
    let r = desk.request(&envelope(OrderType::Market, None, 5), 1700000000000).unwrap();
    assert_eq!(
        r.body.as_deref(),
        Some("pair=BTC/USD&quantity=0.50000&side=BUY&timestamp=1700000000000&type=MARKET")
    );
    assert_eq!(
        r.headers[1].value,
        "3bae0980a3a67702e03b10e961f6f6b891eff850aebe29c732a98a942ce07fd5"
    );
    let r = desk.request(&envelope(OrderType::Limit, Some(100_000_000), 5), 7).unwrap();
    assert_eq!(
        r.body.as_deref(),
        Some("pair=BTC/USD&price=100000.000&quantity=0.50000&side=BUY&timestamp=7&type=LIMIT")
    );
    assert_eq!(
        text(&desk.request(&envelope(OrderType::Limit, None, 5), 7).unwrap_err()),
        "Invalid parameter: LIMIT orders require a price"
    );
    assert_eq!(
        text(&desk.request(&envelope(OrderType::Limit, Some(5), 40), 7).unwrap_err()),
        "Invalid parameter: price out of range"
    );
}

#[test]
fn the_desk_hands_back_the_detail_of_an_accepted_order() {
    let reply = |success: bool, with_detail: bool| {
        Ok(fourier::roostoo::PlaceOrderResponse {
            success,
            err_msg: String::new(),
            order_detail: if with_detail { Some(detail()) } else { None },
        })
    };
    assert_eq!(OrderEngine::confirmation(reply(true, true)).unwrap().order_id, 81);
    assert!(OrderEngine::confirmation(reply(true, false)).is_none());
    assert!(OrderEngine::confirmation(reply(false, true)).is_none());
    assert!(OrderEngine::confirmation(Err(RoostooError::ApiError("x".to_string()))).is_none());
}

#[test]
fn each_symbol_has_its_precision() {
    for (symbol, precision) in [
        ("BTC", 5),
        ("ETH", 4),
        ("SOL", 3),
        ("BNB", 3),
        ("DOGE", 0),
        ("ICP", 2),
        ("XRP", 1),
        ("AAVE", 3),
        ("UNI", 2),
        ("XLM", 0),
        ("SUI", 1),
        ("BONK", 0),
        ("FIL", 2),
        ("TRX", 1),
        ("WIF", 2),
        ("", 2),
        ("btc", 2),
        ("BTCUSDT", 2),
    ] {
        assert_eq!(default_precision(symbol), precision, "{}", symbol);
    }
}
