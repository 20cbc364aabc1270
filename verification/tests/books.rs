use argus_polymarket::ranking::{best_first, price_key};
use argus_polymarket::{Order, OrderBook, OrderBooks, Protocol2IR, ProtocolFns, ProtocolKind};

fn level(price: &str, quantity: &str) -> Order<String> {
    Order { price: price.to_string(), quantity: quantity.to_string() }
}

fn pairs(orders: &[Order<f64>]) -> Vec<(f64, f64)> {
    orders.iter().map(|o| (o.price, o.quantity)).collect()
}

fn numbers(ir: Protocol2IR<String>) -> Protocol2IR<f64> {
    let values = ir.values.iter().map(|v| fast_float::parse(v.as_str()).unwrap()).collect();
    Protocol2IR { symbol: ir.symbol, values }
}

fn book(symbol: &str, remote_timestamp: u64) -> OrderBook<u64> {
    OrderBook {
        symbol: symbol.to_string(),
        bids: vec![],
        asks: vec![],
        remote_timestamp,
        argus_timestamp: 0,
    }
}

/// A packet with ten levels per side.
fn full_packet(symbol: &str) -> Vec<u8> {
    let mut values: Vec<String> = Vec::new();
    for i in 0..10 {
        values.push(format!("0.{}", 49 - i));
        values.push(format!("{}", 100 + i));
    }
    for i in 0..10 {
        values.push(format!("0.{}", 51 + i));
        values.push(format!("{}", 200 + i));
    }
    values.push("1746000000123".to_string());
    values.push("1746000000.5".to_string());
    let content = format!("{:04}|{}{}L", symbol.len(), symbol, values.join(","));
    format!("~{:04}{}", content.len(), content).into_bytes()
}

#[test]
fn book_packet_comes_apart() {
    let ir = ProtocolFns::protocol_2_decoder(b"~00140003|abc1,2.5,-3L").unwrap();
    assert_eq!(ir.symbol, "abc");
    assert_eq!(ir.values, vec!["1".to_string(), "2.5".to_string(), "-3".to_string()]);
}

#[test]
fn comma_at_the_end_adds_nothing() {
    let ir = ProtocolFns::protocol_2_decoder(b"~00140003|abc1,2,L").unwrap();
    assert_eq!(ir.values, vec!["1".to_string(), "2".to_string()]);
    let ir = ProtocolFns::protocol_2_decoder(b"~00140003|abc,,1L").unwrap();
    assert_eq!(ir.values, vec!["".to_string(), "".to_string(), "1".to_string()]);
}

#[test]
fn packet_without_values_comes_apart() {
    let ir = ProtocolFns::protocol_2_decoder(b"~00090003|abcL").unwrap();
    assert_eq!(ir.symbol, "abc");
    assert_eq!(ir.values.len(), 0);
    let ir = ProtocolFns::protocol_2_decoder(b"~00060000|L").unwrap();
    assert_eq!(ir.symbol, "");
    assert_eq!(ir.values.len(), 0);
}

#[test]
fn symbol_length_counts_bytes() {
    let packet = "~00120003|a\u{e9}1,2L".as_bytes();
    assert!(ProtocolFns::is_readable_book_packet(packet));
    let ir = ProtocolFns::protocol_2_decoder(packet).unwrap();
    assert_eq!(ir.symbol, "a\u{e9}");
    assert_eq!(ir.values, vec!["1".to_string(), "2".to_string()]);
}

#[test]
fn symbol_may_hold_separators() {
    let ir = ProtocolFns::protocol_2_decoder(b"~00140005|a,|,L7,8L").unwrap();
    assert_eq!(ir.symbol, "a,|,L");
    assert_eq!(ir.values, vec!["7".to_string(), "8".to_string()]);
}

#[test]
fn packet_with_another_last_byte_is_refused() {
    assert_eq!(
        ProtocolFns::protocol_2_decoder(b"~00140003|abc1,2}").unwrap_err(),
        "Invalid packet for protocol 2: expected last byte to be 0x4C, got 0x7D"
    );
}

#[test]
fn unreadable_packets_are_told_apart() {
    assert!(ProtocolFns::is_readable_book_packet(b"~00140003|abc1,2L"));
    assert!(ProtocolFns::is_readable_book_packet(b"~0014+003|abc1,2L"));
    // The last byte, the symbol length, the symbol and the encoding have to be in order.
    assert!(!ProtocolFns::is_readable_book_packet(b"~00140003|abc1,2}"));
    assert!(!ProtocolFns::is_readable_book_packet(b"~0014 003|abc1,2L"));
    assert!(!ProtocolFns::is_readable_book_packet(b"~00140099|abc1,2L"));
    assert!(!ProtocolFns::is_readable_book_packet(b"~00140003|abc\xff,2L"));
    assert!(!ProtocolFns::is_readable_book_packet("~00140002|a\u{e9}1L".as_bytes()));
    assert!(!ProtocolFns::is_readable_book_packet(b"~0002000L"));
    assert!(!ProtocolFns::is_readable_book_packet(b""));
}

#[test]
fn values_are_laid_out_as_documented() {
    let ir = Protocol2IR {
        symbol: "s".to_string(),
        values: vec![1, 2, 3, 4, 5, 6, 7, 8, 90, 91],
    };
    assert!(ir.fills_book(Some(2)));
    assert!(!ir.fills_book(Some(3)));
    assert!(!ir.fills_book(None));
    let book = ProtocolFns::values_to_orderbook(ir, Some(2));
    assert_eq!(book.symbol, "s");
    assert_eq!((book.bids[0].price, book.bids[0].quantity), (1, 2));
    assert_eq!((book.bids[1].price, book.bids[1].quantity), (3, 4));
    assert_eq!((book.asks[0].price, book.asks[0].quantity), (5, 6));
    assert_eq!((book.asks[1].price, book.asks[1].quantity), (7, 8));
    assert_eq!(book.bids.len(), 2);
    assert_eq!(book.asks.len(), 2);
    assert_eq!(book.remote_timestamp, 90);
    assert_eq!(book.argus_timestamp, 91);
}

#[test]
fn fewer_levels_can_be_asked_for() {
    let ir = Protocol2IR {
        symbol: "s".to_string(),
        values: vec![1, 2, 3, 4, 5, 6, 7, 8, 90, 91],
    };
    let book = ProtocolFns::values_to_orderbook(ir, Some(1));
    assert_eq!(book.bids.len(), 1);
    assert_eq!((book.asks[0].price, book.asks[0].quantity), (5, 6));
    assert_eq!(book.asks.len(), 1);
}

#[test]
fn two_timestamps_fill_an_empty_book() {
    let ir = Protocol2IR { symbol: "s".to_string(), values: vec![90, 91] };
    assert!(ir.fills_book(Some(0)));
    let book = ProtocolFns::values_to_orderbook(ir, Some(0));
    assert_eq!(book.bids.len(), 0);
    assert_eq!(book.asks.len(), 0);
    assert_eq!((book.remote_timestamp, book.argus_timestamp), (90, 91));
    assert!(!Protocol2IR { symbol: "s".to_string(), values: vec![90] }.fills_book(Some(0)));
}

#[test]
fn default_depth_is_ten_levels() {
    let packet = full_packet("btc-updown-5m-UP-123");
    assert_eq!(ProtocolFns::analyse_bytes(&packet), Ok(ProtocolKind::Protocol2));
    let book = ProtocolFns::bytes_to_orderbook(&packet, None);
    assert_eq!(book.symbol, "btc-updown-5m-UP-123");
    assert_eq!(book.bids.len(), 10);
    assert_eq!(book.asks.len(), 10);
    assert_eq!(book.bids[0].price, "0.49");
    assert_eq!(book.bids[9].quantity, "109");
    assert_eq!(book.asks[0].price, "0.51");
    assert_eq!(book.asks[9].quantity, "209");
    assert_eq!(book.remote_timestamp, "1746000000123");
    assert_eq!(book.argus_timestamp, "1746000000.5");
}

#[test]
fn parsed_values_make_a_book_of_numbers() {
    let ir = ProtocolFns::protocol_2_decoder(&full_packet("sym")).unwrap();
    let book = ProtocolFns::values_to_orderbook(numbers(ir), Some(2));
    assert_eq!(pairs(&book.bids), vec![(0.49, 100.0), (0.48, 101.0)]);
    assert_eq!(pairs(&book.asks), vec![(0.51, 200.0), (0.52, 201.0)]);
    assert_eq!(book.remote_timestamp, 1746000000123.0);
    assert_eq!(book.argus_timestamp, 1746000000.5);
}

#[test]
fn latest_snapshot_is_kept() {
    let mut books: OrderBooks<u64> = OrderBooks::new();
    assert!(books.get("a").is_none());
    books.insert(book("a", 1));
    books.insert(book("b", 2));
    books.insert(book("a", 3));
    assert_eq!(books.get("a").unwrap().remote_timestamp, 3);
    assert_eq!(books.get("b").unwrap().remote_timestamp, 2);
    assert_eq!(books.get("b").unwrap().symbol, "b");
    assert!(books.get("c").is_none());
    assert_eq!(books.len(), 2);
    assert!(books.contains_key("a"));
    assert!(!books.contains_key("c"));
    let empty: OrderBooks<u64> = OrderBooks::new();
    assert_eq!(empty.len(), 0);
}

#[test]
fn book_is_displayed_side_by_side() {
    let book = OrderBook {
        symbol: "btc".to_string(),
        bids: vec![level("0.45", "10.00"), level("0.44", "5.00")],
        asks: vec![level("10.55", "7.50"), level("9.60", "1200.00"), level("0.61", "3.00")],
        remote_timestamp: "".to_string(),
        argus_timestamp: "".to_string(),
    };
    let expected = "Order Book for symbol: btc\n\
        Bid 1: Price: 0.45, Quantity: 10.00 | Ask 1: Price: 10.55, Quantity:    7.50\n\
        Bid 2: Price: 0.44, Quantity:  5.00 | Ask 2: Price:  9.60, Quantity: 1200.00\n"
        .to_string()
        + &" ".repeat(35)
        + " | Ask 3: Price:  0.61, Quantity:    3.00\n";
    assert_eq!(book.display_orderbook(&vec![45, 44], &vec![1, 2, 3]), expected);
}

#[test]
fn columns_are_aligned() {
    let bids: Vec<Order<String>> =
        (0..12).map(|i| level(&format!("{}", i * i), &format!("{}", i))).collect();
    let book = OrderBook {
        symbol: "s".to_string(),
        bids,
        asks: vec![level("1", "2")],
        remote_timestamp: "".to_string(),
        argus_timestamp: "".to_string(),
    };
    let text = book.display_orderbook(&vec![7; 12], &vec![0]);
    let lines: Vec<&str> = text.lines().skip(1).collect();
    assert_eq!(lines.len(), 12);
    for line in &lines {
        assert_eq!(line.len(), lines[0].len());
        assert_eq!(line.find(" | "), lines[0].find(" | "));
    }
    assert!(lines[0].starts_with("Bid  1: Price:   0, Quantity:  0 | Ask 1: Price: 1"));
}

#[test]
fn empty_book_is_its_heading() {
    let book: OrderBook<String> = OrderBook {
        symbol: "eth".to_string(),
        bids: vec![],
        asks: vec![],
        remote_timestamp: "1".to_string(),
        argus_timestamp: "2".to_string(),
    };
    assert_eq!(book.display_orderbook(&vec![], &vec![]), "Order Book for symbol: eth\n");
}

#[test]
fn levels_are_displayed_best_first() {
    let key = |price: f64| price_key(price.to_bits());
    let book = OrderBook {
        symbol: "btc".to_string(),
        bids: vec![level("0.25", "1.00"), level("0.50", "2.00")],
        asks: vec![level("0.75", "3.00"), level("0.60", "4.00")],
        remote_timestamp: "".to_string(),
        argus_timestamp: "".to_string(),
    };
    let text = book
        .display_orderbook(&vec![key(0.25), key(0.50)], &vec![key(0.75), key(0.60)]);
    assert_eq!(
        text,
        "Order Book for symbol: btc\n\
        Bid 1: Price: 0.50, Quantity: 2.00 | Ask 1: Price: 0.60, Quantity: 4.00\n\
        Bid 2: Price: 0.25, Quantity: 1.00 | Ask 2: Price: 0.75, Quantity: 3.00\n"
    );
}

#[test]
fn ranking_keeps_equal_levels_in_order() {
    let orders = |names: &str| -> Vec<Order<char>> {
        names.chars().map(|c| Order { price: c, quantity: c }).collect()
    };
    let names = |orders: Vec<Order<char>>| -> String { orders.iter().map(|o| o.price).collect() };
    let keys = vec![3, 1, 3, 2, 1];
    assert_eq!(names(best_first(orders("abcde"), &keys, false)), "bedac");
    assert_eq!(names(best_first(orders("abcde"), &keys, true)), "acdbe");
    assert_eq!(names(best_first(orders("abc"), &vec![1, 1, 2], false)), "abc");
    assert_eq!(names(best_first(orders("abc"), &vec![2, 1, 1], true)), "abc");
    assert_eq!(names(best_first(orders(""), &vec![], true)), "");
}

#[test]
fn price_keys_are_in_the_order_of_prices() {
    let prices = [
        f64::NEG_INFINITY, -2.5, -1.0, -0.01, 0.0, 1e-300, 0.01, 0.25, 0.5, 0.99, 1.0, 97000.5,
        f64::INFINITY,
    ];
    for pair in prices.windows(2) {
        assert!(price_key(pair[0].to_bits()) < price_key(pair[1].to_bits()));
    }
    assert_eq!(price_key((-0.0f64).to_bits()), price_key(0.0f64.to_bits()));
    assert_eq!(price_key(0), 0x8000_0000_0000_0000);
    assert_eq!(price_key(u64::MAX), 1);
}
