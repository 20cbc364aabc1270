use argus_polymarket::json::JsonNode;
use argus_polymarket::numeric::{u64_from_document, u64_from_text, JsonField, NumericText};
use argus_polymarket::text::{decimal_text, hex_byte_text, push_padded};
use argus_polymarket::{
    deserialize_f64_from_string, deserialize_optional_f64_from_string,
    deserialize_u64_from_string, OrderSide, PlaceOrder,
};

fn quoted(text: &str) -> JsonField<f64> {
    JsonField::Text(NumericText {
        text: text.to_string(),
        parsed: text.parse::<f64>().map_err(|e| e.to_string()),
    })
}

fn digits(text: &str) -> Result<u64, String> {
    deserialize_u64_from_string(&format!("\"{}\"", text))
}

fn number(integer: Option<u64>) -> JsonNode {
    JsonNode::Number { text: "3".to_string(), integer }
}

#[test]
fn u64_is_read_bare_or_quoted() {
    assert_eq!(deserialize_u64_from_string("1746000000"), Ok(1746000000));
    assert_eq!(digits("1746000000"), Ok(1746000000));
    assert_eq!(digits("+7"), Ok(7));
    assert_eq!(digits("007"), Ok(7));
    assert_eq!(digits("18446744073709551615"), Ok(u64::MAX));
}

#[test]
fn unreadable_u64_is_reported() {
    for json in ["1.5", "-1", "1e3", "18446744073709551616"] {
        assert_eq!(deserialize_u64_from_string(json), Err("expected u64".to_string()));
    }
    for json in ["null", "true", "[1]", "{\"a\":1}"] {
        assert_eq!(
            deserialize_u64_from_string(json),
            Err("expected string or number for u64 field".to_string())
        );
    }
    assert_eq!(
        deserialize_u64_from_string("nul"),
        Err("EOF while parsing a value at line 1 column 3".to_string())
    );
    assert_eq!(
        digits("12x"),
        Err("failed to parse u64 from string: invalid digit found in string".to_string())
    );
    assert_eq!(
        digits(""),
        Err("failed to parse u64 from string: cannot parse integer from empty string".to_string())
    );
    assert_eq!(
        digits("18446744073709551616"),
        Err("failed to parse u64 from string: number too large to fit in target type".to_string())
    );
    assert!(digits("-1").is_err());
    assert!(digits("+").is_err());
    assert_eq!(u64_from_document(Ok(number(Some(3)))), Ok(3));
    assert_eq!(
        u64_from_document(Ok(number(None))),
        Err("expected u64".to_string())
    );
    assert_eq!(u64_from_document(Err("bad".to_string())), Err("bad".to_string()));
    assert_eq!(u64_from_text(Ok(3)), Ok(3));
    assert_eq!(
        u64_from_text(Err("bad".to_string())),
        Err("failed to parse u64 from string: bad".to_string())
    );
}

#[test]
fn f64_is_read_bare_or_quoted() {
    assert_eq!(deserialize_f64_from_string(JsonField::Number(Some(0.45))), Ok(0.45));
    assert_eq!(deserialize_f64_from_string(quoted("0.45")), Ok(0.45));
}

#[test]
fn unreadable_f64_is_reported() {
    assert_eq!(
        deserialize_f64_from_string::<f64>(JsonField::Number(None)),
        Err("expected f64".to_string())
    );
    assert_eq!(
        deserialize_f64_from_string::<f64>(JsonField::Null),
        Err("expected string or number for f64 field".to_string())
    );
    assert_eq!(
        deserialize_f64_from_string(quoted("abc")),
        Err("failed to parse f64 from string: invalid float literal".to_string())
    );
    assert!(deserialize_f64_from_string(quoted("")).is_err());
}

#[test]
fn optional_f64_may_be_missing() {
    assert_eq!(deserialize_optional_f64_from_string::<f64>(JsonField::Null), Ok(None));
    assert_eq!(deserialize_optional_f64_from_string(quoted("")), Ok(None));
    assert_eq!(deserialize_optional_f64_from_string(quoted("0.45")), Ok(Some(0.45)));
    assert_eq!(
        deserialize_optional_f64_from_string(JsonField::Number(Some(0.45))),
        Ok(Some(0.45))
    );
}

#[test]
fn unreadable_optional_f64_is_reported() {
    assert_eq!(
        deserialize_optional_f64_from_string::<f64>(JsonField::Number(None)),
        Err("expected f64".to_string())
    );
    assert_eq!(
        deserialize_optional_f64_from_string::<f64>(JsonField::Other),
        Err("expected string, number, or null for optional f64 field".to_string())
    );
    assert_eq!(
        deserialize_optional_f64_from_string(quoted("x")),
        Err("failed to parse f64 from string: invalid float literal".to_string())
    );
}

#[test]
fn numbers_are_written_out() {
    assert_eq!(decimal_text(0), "0");
    assert_eq!(decimal_text(10), "10");
    assert_eq!(decimal_text(9999), "9999");
    assert_eq!(hex_byte_text(0x0a), "0x0A");
    assert_eq!(hex_byte_text(0xff), "0xFF");
    let mut text = String::new();
    push_padded(&mut text, "42", '0', 4);
    push_padded(&mut text, "12345", '0', 4);
    assert_eq!(text, "004212345");
}

#[test]
fn written_number_reads_back() {
    for n in [0usize, 7, 10, 4095, 123456789] {
        assert_eq!(digits(&decimal_text(n)), Ok(n as u64));
    }
}

#[test]
fn order_defaults_to_good_till_cancelled() {
    let order = PlaceOrder::new("token", 0.45, 10.0, OrderSide::Buy, None);
    assert_eq!(order.token_id, "token");
    assert_eq!(order.price, 0.45);
    assert_eq!(order.size, 10.0);
    assert_eq!(order.side, "buy");
    assert_eq!(order.order_type, "GTC");
    let order = PlaceOrder::new("token", 0.45, 10.0, OrderSide::Sell, Some("FOK"));
    assert_eq!(order.side, "sell");
    assert_eq!(order.order_type, "FOK");
}

#[test]
fn order_has_to_be_worth_more_than_the_minimum() {
    assert_eq!(PlaceOrder::<f64>::is_marketable(true, "4.5", "o"), Ok(()));
    assert_eq!(
        PlaceOrder::<f64>::is_marketable(false, "0.5", "o"),
        Err("Order value is too small: 0.5. Order value must be greater than 1. Order=o"
            .to_string())
    );
}
