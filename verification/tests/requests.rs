use argus_polymarket::json::JsonNode;
use argus_polymarket::request::{
    cancellation_members, placed_orders, read_cancellation, read_search_results,
    round_trip_millis, search_results,
};
use argus_polymarket::{
    InBoundMessage, OrderPlacedMsg, PlaceMultipleOrdersResponse, ProtocolFns, Request,
};

fn text(s: &str) -> String {
    s.to_string()
}

fn reply(data: &str, error: Option<&str>) -> Result<InBoundMessage, String> {
    Ok(InBoundMessage {
        action: text("x"),
        data: text(data),
        error: error.map(|e| e.to_string()),
        compressed: None,
        correlation_id: None,
    })
}

fn no_reply() -> Result<InBoundMessage, String> {
    Err(text("too late"))
}

fn placed(order_id: &str) -> OrderPlacedMsg {
    OrderPlacedMsg {
        error_msg: text(""),
        order_id: text(order_id),
        taking_amount: text("1"),
        making_amount: text("2"),
        status: text("live"),
        success: true,
    }
}

#[test]
fn requests_carry_their_actions_and_payloads() {
    let cases: Vec<(Request, &str, &str)> = vec![
        (Request::SubscribeToInstrument(text("t1")), "subscribe", "[\"t1\"]"),
        (Request::SubscribeToEvent(text("btc")), "subscribe_to_market_by_ticker", "[\"btc\"]"),
        (Request::UnsubscribeFromInstrument(text("t1")), "unsubscribe", "[\"t1\"]"),
        (
            Request::UnsubscribeFromEvent(text("btc")),
            "unsubscribe_from_market_by_ticker",
            "[\"btc\"]",
        ),
        (Request::SearchForMarkets(text("btc"), None), "search_markets", "[\"btc\",\"10\"]"),
        (Request::SearchForMarkets(text("q"), Some(200)), "search_markets", "[\"q\",\"200\"]"),
        (Request::GetPriceToBeat(text("btc")), "get_price_to_beat", "[\"btc\"]"),
        (Request::RttToServer, "ping", "[]"),
        (Request::RttToExchange, "rtt_to_exchange", "[]"),
        (
            Request::FetchClobIdInformation(text("7")),
            "fetch_clob_id_information",
            "[\"7\"]",
        ),
        (Request::GetBalance, "get_balance", "[]"),
        (Request::PlaceOrder(text("{\"price\":0.5}")), "place_order", "{\"price\":0.5}"),
        (
            Request::PlaceMultipleOrders(text("[{\"price\":0.5}]")),
            "place_multiple_orders",
            "{\"orders\":[{\"price\":0.5}]}",
        ),
        (Request::CancelOrder(text("0x1")), "cancel_order", "{\"order_id\":\"0x1\"}"),
        (
            Request::CancelMultipleOrders(vec![text("a"), text("b\"c")]),
            "cancel_multiple_orders",
            "{\"order_ids\":[\"a\",\"b\\\"c\"]}",
        ),
        (Request::CancelMultipleOrders(vec![]), "cancel_multiple_orders", "{\"order_ids\":[]}"),
        (Request::GetOrders, "get_orders", "[]"),
        (Request::GetOrderStatus(text("0x1")), "get_order_status", "{\"order_id\":\"0x1\"}"),
        (Request::GetTokenBalance(text("9")), "get_token_balance", "{\"token_id\":\"9\"}"),
    ];
    for (request, action, payload) in cases {
        assert_eq!(request.action(), action);
        assert_eq!(request.payload(), payload);
        let message = request.message(Some(text("id")));
        assert_eq!(message.action, action);
        assert_eq!(message.data, payload);
        assert_eq!(message.correlation_id, "id");
        let value: serde_json::Value = serde_json::from_str(&message.to_json()).unwrap();
        assert_eq!(value["action"], action);
        assert_eq!(value["data"].to_string(), payload);
        assert_eq!(value["correlation_id"], "id");
    }
}

#[test]
fn request_without_correlation_id_gets_one() {
    let message = Request::GetBalance.message(None);
    assert_eq!(message.correlation_id.len(), 36);
}

#[test]
fn request_is_framed() {
    let message = Request::SearchForMarkets(text("btc"), Some(50)).message(Some(text("c")));
    let packet = ProtocolFns::protocol_1_encoder(&message);
    let expected: &[u8] =
        b"~0068|{\"action\":\"search_markets\",\"data\":[\"btc\",\"50\"],\"correlation_id\":\"c\"}";
    assert_eq!(packet, expected.to_vec());
}

#[test]
fn reply_without_error_gives_its_payload() {
    let requests = [
        Request::SubscribeToInstrument(text("")),
        Request::UnsubscribeFromEvent(text("")),
        Request::RttToServer,
        Request::GetOrders,
    ];
    for request in requests {
        assert_eq!(request.outcome(reply("[1]", None)), Ok(text("[1]")));
    }
}

#[test]
fn server_errors_are_reported() {
    let cases: Vec<(Request, &str)> = vec![
        (
            Request::SubscribeToInstrument(text("")),
            "Server error when subscribing to instrument: ",
        ),
        (Request::SubscribeToEvent(text("")), "Server error when subscribing to event: "),
        (Request::SearchForMarkets(text(""), None), "Server error when searching for markets: "),
        (Request::GetPriceToBeat(text("")), "Server error when getting price to beat: "),
        (Request::RttToServer, "Error from server when pinging: "),
        (Request::RttToExchange, "Error from server when getting RTT to exchange: "),
        (
            Request::FetchClobIdInformation(text("")),
            "Error from server when fetching clob id information: ",
        ),
        (Request::GetBalance, "Error from server when getting balance: "),
        (Request::PlaceOrder(text("")), "Error from server when placing order: "),
        (
            Request::PlaceMultipleOrders(text("")),
            "Error from server when placing multiple orders: ",
        ),
        (Request::CancelOrder(text("")), "Error from server when cancelling order: "),
        (
            Request::CancelMultipleOrders(vec![]),
            "Error from server when cancelling multiple orders: ",
        ),
        (Request::GetOrders, "Server error when fetching orders: "),
        (Request::GetOrderStatus(text("")), "Server error when fetching order status: "),
        (Request::GetTokenBalance(text("")), "Server error when fetching token balance: "),
    ];
    for (request, prefix) in cases {
        assert_eq!(
            request.outcome(reply("[1]", Some("say \"no\""))),
            Err(format!("{}Some(\"say \\\"no\\\"\")", prefix))
        );
        assert_eq!(request.server_error("X"), Some(format!("{}Some(X)", prefix)));
    }
}

#[test]
fn unsubscription_pays_no_attention_to_server_errors() {
    for request in
        [Request::UnsubscribeFromInstrument(text("")), Request::UnsubscribeFromEvent(text(""))]
    {
        assert_eq!(request.outcome(reply("[1]", Some("no"))), Ok(text("[1]")));
        assert_eq!(request.server_error("X"), None);
    }
}

#[test]
fn missing_replies_are_reported() {
    let cases: Vec<(Request, &str)> = vec![
        (
            Request::SubscribeToInstrument(text("")),
            "Failed to get subscription confirmation: too late",
        ),
        (
            Request::SubscribeToEvent(text("")),
            "Failed to get subscription confirmation: too late",
        ),
        (
            Request::UnsubscribeFromInstrument(text("")),
            "Failed to get unsubscription confirmation: too late",
        ),
        (
            Request::UnsubscribeFromEvent(text("")),
            "Failed to get unsubscription confirmation: too late",
        ),
        (
            Request::SearchForMarkets(text(""), None),
            "Failed to get search results: too late",
        ),
        (Request::GetPriceToBeat(text("")), "Failed to get price to beat: too late"),
        (Request::CancelOrder(text("")), "too late"),
        (Request::GetOrders, "Failed to get orders: too late"),
        (Request::GetOrderStatus(text("")), "Failed to get order status: too late"),
        (Request::GetTokenBalance(text("")), "Failed to get token balance: too late"),
    ];
    for (request, message) in cases {
        assert_eq!(request.outcome(no_reply()), Err(text(message)));
    }
}

#[test]
fn unreadable_replies_are_reported() {
    let cases: Vec<(Request, &str)> = vec![
        (
            Request::SubscribeToInstrument(text("")),
            "Failed to parse subscription response: bad",
        ),
        (Request::SubscribeToEvent(text("")), "Failed to parse subscription response: bad"),
        (
            Request::UnsubscribeFromInstrument(text("")),
            "Failed to parse unsubscription response: bad",
        ),
        (
            Request::UnsubscribeFromEvent(text("")),
            "Failed to parse unsubscription response: bad",
        ),
        (
            Request::SearchForMarkets(text(""), None),
            "Failed to parse market search results: bad",
        ),
        (Request::GetPriceToBeat(text("")), "Failed to parse price to beat: bad"),
        (
            Request::FetchClobIdInformation(text("")),
            "Failed to parse CLOB info from response data: bad",
        ),
        (Request::GetOrders, "Failed to parse orders response: bad"),
        (Request::GetOrderStatus(text("")), "Failed to parse order status response: bad"),
        (Request::GetTokenBalance(text("")), "Failed to parse token balance response: bad"),
    ];
    for (request, message) in cases {
        assert_eq!(request.unreadable("bad"), message);
    }
}

#[test]
fn search_results_are_read() {
    assert_eq!(
        read_search_results("[\"btc-updown-5m\", \"a\\u0041\"]"),
        Ok(vec![text("btc-updown-5m"), text("aA")])
    );
    assert_eq!(read_search_results("[]"), Ok(vec![]));
}

#[test]
fn unreadable_search_results_are_reported() {
    let message = read_search_results("[1]").unwrap_err();
    assert_eq!(
        message,
        "Failed to parse market search results: invalid type: integer `1`, expected a string"
    );
    assert_eq!(
        search_results(Err(text("bad"))),
        Err(text("Failed to parse market search results: bad"))
    );
    assert_eq!(search_results(Ok(vec![text("m")])), Ok(vec![text("m")]));
}

#[test]
fn cancellation_is_read() {
    let cancelled =
        read_cancellation("{\"not_canceled\": {\"0x2\": \"matched\"}, \"canceled\": [\"0x1\"]}")
            .unwrap();
    assert_eq!(cancelled.not_canceled, "{\"0x2\":\"matched\"}");
    assert_eq!(cancelled.canceled, vec![text("0x1")]);
}

#[test]
fn incomplete_cancellations_are_reported() {
    assert_eq!(
        read_cancellation("[]").unwrap_err(),
        "Failed to parse order cancellation response data"
    );
    assert_eq!(
        read_cancellation("no json").unwrap_err(),
        "Failed to parse order cancellation response data"
    );
    assert_eq!(
        read_cancellation("{\"canceled\":[]}").unwrap_err(),
        "Failed to get `not_canceled` key from order cancellation response data"
    );
    assert_eq!(
        read_cancellation("{\"not_canceled\":{}}").unwrap_err(),
        "Unable to get `canceled` key from order cancellation response data"
    );
    assert_eq!(
        read_cancellation("{\"not_canceled\":{},\"canceled\":7}").unwrap_err(),
        "invalid type: integer `7`, expected a sequence"
    );
}

#[test]
fn cancellation_members_are_found() {
    let members = vec![
        (text("canceled"), text("[\"a\"]")),
        (text("extra"), text("1")),
        (text("not_canceled"), text("null")),
    ];
    assert_eq!(
        cancellation_members(Ok(JsonNode::Object(members))),
        Ok((text("null"), text("[\"a\"]")))
    );
    assert_eq!(
        cancellation_members(Ok(JsonNode::Text(text("x")))),
        Err(text("Failed to parse order cancellation response data"))
    );
    assert_eq!(
        cancellation_members(Err(text("bad"))),
        Err(text("Failed to parse order cancellation response data"))
    );
}

#[test]
fn failed_orders_are_dropped() {
    let response = PlaceMultipleOrdersResponse {
        success: vec![placed("0x1"), placed("0x2")],
        failed: vec![text("{}")],
    };
    let orders = placed_orders(response);
    assert_eq!(orders.len(), 2);
    assert_eq!(orders[0].order_id, "0x1");
    assert_eq!(orders[1].order_id, "0x2");
}

#[test]
fn round_trip_is_the_difference() {
    assert_eq!(round_trip_millis(1000, 1007), 7);
    assert_eq!(round_trip_millis(5, 5), 0);
}
