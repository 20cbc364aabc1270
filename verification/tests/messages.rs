use argus_polymarket::json::JsonNode;
use argus_polymarket::message::{
    fields_from_document, frame_json, inflate_payload, optional_bool_from_document,
    optional_text_from_document, read_message, replace_payload, text_after_pipe,
    text_from_document,
};
use argus_polymarket::{InBoundMessage, OutBoundMessage, PacketReader, ProtocolFns, ProtocolKind};
use base64::Engine;
use std::io::Write;

fn request(action: &str, data: &str, id: &str) -> OutBoundMessage {
    OutBoundMessage::new(action.to_string(), data.to_string(), Some(id.to_string()))
}

fn reply(data: &str, compressed: Option<bool>) -> InBoundMessage {
    InBoundMessage {
        action: "search_markets".to_string(),
        data: data.to_string(),
        error: None,
        compressed,
        correlation_id: Some("id".to_string()),
    }
}

fn deflate(text: &[u8]) -> Vec<u8> {
    let mut encoder =
        flate2::write::ZlibEncoder::new(Vec::new(), flate2::Compression::default());
    encoder.write_all(text).unwrap();
    encoder.finish().unwrap()
}

fn base64_string(bytes: &[u8]) -> String {
    format!("\"{}\"", base64::engine::general_purpose::STANDARD.encode(bytes))
}

#[test]
fn given_correlation_id_is_kept() {
    let message = request("subscribe", "[\"x\"]", "my-id");
    assert_eq!(message.action, "subscribe");
    assert_eq!(message.data, "[\"x\"]");
    assert_eq!(message.correlation_id, "my-id");
}

#[test]
fn generated_correlation_id_is_a_random_uuid() {
    let first = OutBoundMessage::new("ping".to_string(), "[]".to_string(), None).correlation_id;
    let second = OutBoundMessage::new("ping".to_string(), "[]".to_string(), None).correlation_id;
    assert_ne!(first, second);
    for id in [first, second] {
        let chars: Vec<char> = id.chars().collect();
        assert_eq!(chars.len(), 36);
        for (i, c) in chars.iter().enumerate() {
            match i {
                8 | 13 | 18 | 23 => assert_eq!(*c, '-'),
                14 => assert_eq!(*c, '4'),
                19 => assert!("89ab".contains(*c)),
                _ => assert!("0123456789abcdef".contains(*c)),
            }
        }
    }
}

#[test]
fn request_is_encoded_with_its_length() {
    let packet = ProtocolFns::protocol_1_encoder(&request("ping", "[]", "abc"));
    let expected: &[u8] = b"~0050|{\"action\":\"ping\",\"data\":[],\"correlation_id\":\"abc\"}";
    assert_eq!(packet, expected.to_vec());
}

#[test]
fn length_counts_bytes() {
    assert_eq!(frame_json("\"\u{e9}\""), "~0004|\"\u{e9}\"".as_bytes().to_vec());
    assert_eq!(frame_json(""), b"~0000|".to_vec());
}

#[test]
fn length_above_four_digits_is_written_out() {
    let json = format!("\"{}\"", "x".repeat(9998));
    let packet = frame_json(&json);
    assert_eq!(packet[..8].to_vec(), b"~10000|\"".to_vec());
    assert_eq!(packet.len(), 10007);
    let text = String::from_utf8(packet).unwrap();
    assert_eq!(text_after_pipe(&text), Some(json));
}

#[test]
fn strings_are_escaped() {
    let json = request("a\"b\\c", "[]", "\n\r\t\u{8}\u{c}\u{1}\u{1f}\u{7f}/\u{e9}").to_json();
    assert_eq!(
        json,
        "{\"action\":\"a\\\"b\\\\c\",\"data\":[],\"correlation_id\":\"\\n\\r\\t\\b\\f\\u0001\\u001f\u{7f}/\u{e9}\"}"
    );
}

fn decode(packet: &[u8]) -> InBoundMessage {
    ProtocolFns::protocol_1_decoder(packet).unwrap()
}

#[test]
fn request_is_read_back_as_it_was_written() {
    let payloads = [
        "{\"order_id\":\"0x1|2\"}",
        "[]",
        "[\"btc\",\"10\"]",
        "\"L}|\u{e9}\\n\"",
        "null",
        "-7",
        "{\"a\":[{\"b\":null},true,18446744073709551615]}",
        "0.1",
    ];
    for payload in payloads {
        let message = request("can\"cel|}L\u{e9}", payload, "id|\n");
        let decoded = decode(&ProtocolFns::protocol_1_encoder(&message));
        assert_eq!(decoded.action, message.action);
        assert_eq!(decoded.data, payload);
        assert_eq!(decoded.correlation_id, Some(message.correlation_id));
        assert_eq!(decoded.error, None);
        assert_eq!(decoded.compressed, None);
    }
}

#[test]
fn deep_payload_is_read_back() {
    let payload = format!("{}{}", "[".repeat(99), "]".repeat(99));
    let decoded = decode(&ProtocolFns::protocol_1_encoder(&request("a", &payload, "b")));
    assert_eq!(decoded.data, payload);
    let payload = format!("{}{}", "[".repeat(127), "]".repeat(127));
    let packet = ProtocolFns::protocol_1_encoder(&request("a", &payload, "b"));
    assert_eq!(
        ProtocolFns::protocol_1_decoder(&packet).unwrap_err(),
        "Failed to deserialize message"
    );
}

#[test]
fn payload_comes_back_in_compact_form() {
    let message = request("a", " { \"z\" : 1 , \"b\" : [ 2 ] } ", "c");
    let decoded = decode(&ProtocolFns::protocol_1_encoder(&message));
    assert_eq!(decoded.data, "{\"b\":[2],\"z\":1}");
}

#[test]
fn all_fields_of_a_message_are_read() {
    let decoded = decode(
        b"~0000|{\"extra\":[1],\"compressed\":true,\"error\":\"no\",\"correlation_id\":null,\"data\":{\"a\":1.5},\"action\":\"x\\ty\"}",
    );
    assert_eq!(decoded.action, "x\ty");
    assert_eq!(decoded.data, "{\"a\":1.5}");
    assert_eq!(decoded.error, Some("no".to_string()));
    assert_eq!(decoded.compressed, Some(true));
    assert_eq!(decoded.correlation_id, None);
    let decoded = decode(b"~0000|[\"x\",null,null,false,\"id\"]");
    assert_eq!(decoded.action, "x");
    assert_eq!(decoded.data, "null");
    assert_eq!(decoded.error, None);
    assert_eq!(decoded.compressed, Some(false));
    assert_eq!(decoded.correlation_id, Some("id".to_string()));
}

#[test]
fn body_that_is_no_message_is_refused() {
    let bodies = [
        "",
        "{",
        "7",
        "\"x\"",
        "{}",
        "{\"action\":\"x\"}",
        "{\"data\":1}",
        "{\"action\":1,\"data\":1}",
        "{\"action\":null,\"data\":1}",
        "{\"action\":\"x\",\"data\":1,\"error\":2}",
        "{\"action\":\"x\",\"data\":1,\"compressed\":\"true\"}",
        "{\"action\":\"x\",\"data\":1,\"correlation_id\":7}",
        "[\"x\",1,null,null]",
    ];
    for body in bodies {
        let packet = format!("~0000|{}", body);
        assert_eq!(
            ProtocolFns::protocol_1_decoder(packet.as_bytes()).unwrap_err(),
            "Failed to deserialize message"
        );
        assert!(read_message(body).is_none());
    }
}

#[test]
fn packet_without_separator_is_refused() {
    for packet in ["~0000", ""] {
        assert_eq!(
            ProtocolFns::protocol_1_decoder(packet.as_bytes()).unwrap_err(),
            "Invalid message format"
        );
    }
}

#[test]
fn fields_are_told_apart() {
    assert_eq!(text_from_document(Ok(JsonNode::Text("a".to_string()))), Some("a".to_string()));
    assert_eq!(text_from_document(Ok(JsonNode::Null)), None);
    assert_eq!(optional_text_from_document(Ok(JsonNode::Null)), Some(None));
    assert_eq!(optional_text_from_document(Ok(JsonNode::Bool(true))), None);
    assert_eq!(optional_text_from_document(Err("bad".to_string())), None);
    assert_eq!(optional_bool_from_document(Ok(JsonNode::Null)), Some(None));
    assert_eq!(optional_bool_from_document(Ok(JsonNode::Bool(true))), Some(Some(true)));
    assert_eq!(optional_bool_from_document(Ok(JsonNode::Text("true".to_string()))), None);
    let members = vec![("data".to_string(), "1".to_string())];
    let fields = fields_from_document(Ok(JsonNode::Object(members))).unwrap();
    assert_eq!(fields.data, Some("1".to_string()));
    assert_eq!(fields.action, None);
    assert!(fields_from_document(Ok(JsonNode::List(vec![]))).is_none());
    assert!(fields_from_document(Err("bad".to_string())).is_none());
}

#[test]
fn only_the_first_separator_counts() {
    assert_eq!(text_after_pipe("a|b|c"), Some("b|c".to_string()));
    assert_eq!(text_after_pipe("|"), Some("".to_string()));
    assert_eq!(text_after_pipe("abc"), None);
}

#[test]
fn bytes_that_are_not_text_are_replaced() {
    let decoded = decode(b"~0000|{\"action\":\"\xff\",\"data\":1}");
    assert_eq!(decoded.action, "\u{fffd}");
    let decoded = decode("~0000|{\"action\":\"\u{e9}\",\"data\":1}".as_bytes());
    assert_eq!(decoded.action, "\u{e9}");
}

#[test]
fn requests_are_read_back_one_by_one() {
    let first = ProtocolFns::protocol_1_encoder(&request("ping", "[]", "1"));
    let second = ProtocolFns::protocol_1_encoder(&request(
        "cancel_order",
        "{\"order_id\":\"L}L\"}",
        "2",
    ));
    let mut stream = first.clone();
    stream.extend(second.iter());
    let packets = PacketReader::new().push_bytes(&stream);
    assert_eq!(packets.len(), 2);
    assert_eq!(packets[0].bytes, first);
    assert_eq!(packets[0].kind, ProtocolKind::Protocol1);
    assert_eq!(packets[1].bytes, second);
    assert_eq!(packets[1].kind, ProtocolKind::Protocol1);
}

#[test]
fn compressed_payload_is_inflated() {
    let data = base64_string(&deflate(b"[\"btc-updown-5m\",\"eth\"]"));
    let mut message = reply(&data, Some(true));
    ProtocolFns::maybe_decompress_p1(&mut message);
    assert_eq!(message.data, "[\"btc-updown-5m\",\"eth\"]");
    assert_eq!(message.compressed, Some(false));
    assert_eq!(message.action, "search_markets");
    assert_eq!(message.correlation_id, Some("id".to_string()));
}

#[test]
fn second_decompression_changes_nothing() {
    let inner = base64_string(&deflate(b"[1]"));
    let data = base64_string(&deflate(inner.as_bytes()));
    let mut message = reply(&data, Some(true));
    ProtocolFns::maybe_decompress_p1(&mut message);
    assert_eq!(message.data, inner);
    ProtocolFns::maybe_decompress_p1(&mut message);
    assert_eq!(message.data, inner);
    assert_eq!(message.compressed, Some(false));
}

#[test]
fn message_without_the_mark_stays_as_it_is() {
    let data = base64_string(&deflate(b"[1]"));
    for mark in [None, Some(false)] {
        let mut message = reply(&data, mark);
        ProtocolFns::maybe_decompress_p1(&mut message);
        assert_eq!(message.data, data);
        assert_eq!(message.compressed, mark);
    }
}

#[test]
fn payload_that_cannot_be_inflated_stays_as_it_is() {
    let cases = [
        "[1,2]".to_string(),
        "\"not base64!\"".to_string(),
        base64_string(b"not zlib"),
        base64_string(&deflate(b"not json")),
        base64_string(&deflate(b"\xff\xfe")),
        base64_string(&deflate(b"[1]")[..6]),
        "not json".to_string(),
    ];
    for data in cases {
        assert_eq!(inflate_payload(&data), None);
        let mut message = reply(&data, Some(true));
        ProtocolFns::maybe_decompress_p1(&mut message);
        assert_eq!(message.data, data);
        assert_eq!(message.compressed, Some(true));
    }
}

#[test]
fn payload_is_replaced_only_where_there_is_a_replacement() {
    let mut message = reply("\"x\"", Some(true));
    replace_payload(&mut message, None);
    assert_eq!(message.data, "\"x\"");
    assert_eq!(message.compressed, Some(true));
    replace_payload(&mut message, Some("[7]".to_string()));
    assert_eq!(message.data, "[7]");
    assert_eq!(message.compressed, Some(false));
    replace_payload(&mut message, Some("[8]".to_string()));
    assert_eq!(message.data, "[7]");
}
