use argus_polymarket::reader::{PacketReader, ReadAction, ReadOutcome};
use argus_polymarket::{ProtocolFns, ProtocolKind};

#[test]
fn json_packet_is_protocol_1() {
    let kind = ProtocolFns::analyse_bytes(b"~0008|{\"a\":1}");
    assert_eq!(kind, Ok(ProtocolKind::Protocol1));
}

#[test]
fn book_packet_is_protocol_2() {
    let kind = ProtocolFns::analyse_bytes(b"~00140003|abc1,2,3L");
    assert_eq!(kind, Ok(ProtocolKind::Protocol2));
}

#[test]
fn short_packet_is_refused() {
    assert_eq!(
        ProtocolFns::analyse_bytes(b"~0001"),
        Err("Invalid packet: expected length of at least 6, got 5".to_string())
    );
    assert_eq!(
        ProtocolFns::analyse_bytes(b""),
        Err("Invalid packet: expected length of at least 6, got 0".to_string())
    );
}

#[test]
fn wrong_first_byte_is_refused() {
    assert_eq!(
        ProtocolFns::analyse_bytes(b"\x0a0008|{\"a\":1}"),
        Err("Invalid header: expected first byte to be 0x7E, got 0x0A".to_string())
    );
}

#[test]
fn length_bytes_have_to_be_digits() {
    assert_eq!(
        ProtocolFns::analyse_bytes(b"~00/8|{\"a\":1}"),
        Err("Invalid header: expected a length digit, got 0x2F".to_string())
    );
    assert_eq!(
        ProtocolFns::analyse_bytes(b"~000:|{\"a\":1111}"),
        Err("Invalid header: expected a length digit, got 0x3A".to_string())
    );
    assert_eq!(
        ProtocolFns::analyse_bytes(b"~0x:0|{\"a\":1}"),
        Err("Invalid header: expected a length digit, got 0x78".to_string())
    );
    assert_eq!(
        ProtocolFns::analyse_bytes(b"~\xff000|{\"a\":1}"),
        Err("Invalid header: expected a length digit, got 0xFF".to_string())
    );
    assert_eq!(ProtocolFns::analyse_bytes(b"~0009|{\"a\":11}"), Ok(ProtocolKind::Protocol1));
}

#[test]
fn packet_shorter_than_declared_is_refused() {
    assert_eq!(
        ProtocolFns::analyse_bytes(b"~1234|{\"a\":1}"),
        Err("Invalid packet: expected length of at least 1239, got 13".to_string())
    );
}

#[test]
fn json_packet_has_to_open_with_a_brace() {
    assert_eq!(
        ProtocolFns::analyse_bytes(b"~0002|[]"),
        Err("Invalid packet for protocol 1: expected byte after pipe to be 0x7B, got 0x5B"
            .to_string())
    );
}

#[test]
fn json_packet_has_to_close_with_a_brace() {
    assert_eq!(
        ProtocolFns::analyse_bytes(b"~0008|{\"a\":1L"),
        Err("Invalid packet for protocol 1: expected last byte to be 0x7D, got 0x4C".to_string())
    );
}

#[test]
fn json_packet_without_a_body_is_too_short() {
    assert_eq!(
        ProtocolFns::analyse_bytes(b"~0000|"),
        Err("Invalid packet: expected length of at least 7, got 6".to_string())
    );
}

#[test]
fn book_packet_needs_its_pipe() {
    assert_eq!(
        ProtocolFns::analyse_bytes(b"~00050003abcL"),
        Err("Invalid packet for protocol 2: expected byte after symbol length to be 0x7C, got 0x61"
            .to_string())
    );
    assert_eq!(
        ProtocolFns::analyse_bytes(b"~0001000"),
        Err("Invalid packet: expected length of at least 10, got 8".to_string())
    );
}

#[test]
fn book_packet_has_to_close_with_its_letter() {
    assert_eq!(
        ProtocolFns::analyse_bytes(b"~00050003|abc}"),
        Err("Invalid packet for protocol 2: expected last byte to be 0x4C, got 0x7D".to_string())
    );
}

#[test]
fn reader_hands_a_packet_on_with_its_last_byte() {
    let bytes = b"~0008|{\"a\":1}";
    let mut reader = PacketReader::new();
    for (i, byte) in bytes.iter().enumerate() {
        let packet = reader.push_byte(*byte);
        if i + 1 < bytes.len() {
            assert!(packet.is_none());
        } else {
            let packet = packet.unwrap();
            assert_eq!(packet.bytes, bytes.to_vec());
            assert_eq!(packet.kind, ProtocolKind::Protocol1);
        }
    }
}

#[test]
fn reader_cuts_a_stream_at_any_place() {
    let stream = b"~0008|{\"a\":1}~00140003|abc1,2,3L~0011|{\"b\":\"LL}\"}";
    for cut in 0..stream.len() + 1 {
        let mut reader = PacketReader::new();
        let mut packets = reader.push_bytes(&stream[..cut]);
        packets.extend(reader.push_bytes(&stream[cut..]));
        assert_eq!(packets.len(), 3);
        assert_eq!(packets[0].bytes, b"~0008|{\"a\":1}".to_vec());
        assert_eq!(packets[0].kind, ProtocolKind::Protocol1);
        assert_eq!(packets[1].bytes, b"~00140003|abc1,2,3L".to_vec());
        assert_eq!(packets[1].kind, ProtocolKind::Protocol2);
        assert_eq!(packets[2].bytes, b"~0011|{\"b\":\"LL}\"}".to_vec());
        assert_eq!(packets[2].kind, ProtocolKind::Protocol1);
    }
}

#[test]
fn symbol_with_a_closing_byte_does_not_end_the_packet() {
    let packet = b"~00130003|LLL1,2L";
    let mut reader = PacketReader::new();
    let packets = reader.push_bytes(packet);
    assert_eq!(packets.len(), 0);
    let mut reader = PacketReader::new();
    let packets = reader.push_bytes(b"~00120003|LLL1,2L");
    assert_eq!(packets.len(), 1);
    assert_eq!(packets[0].bytes.len(), 17);
}

#[test]
fn packet_with_two_closing_braces_ends_at_the_first() {
    let mut reader = PacketReader::new();
    let packets = reader.push_bytes(b"~0008|{\"a\":{}}");
    assert_eq!(packets.len(), 1);
    assert_eq!(packets[0].bytes, b"~0008|{\"a\":{}".to_vec());
}

#[test]
fn nothing_of_the_stream_is_lost() {
    let stream = b"~0008|{\"a\":1}~0008|{\"b\"";
    let mut reader = PacketReader::new();
    let packets = reader.push_bytes(stream);
    assert_eq!(packets.len(), 1);
    let rest = reader.push_bytes(b":2}");
    assert_eq!(rest.len(), 1);
    let mut all = packets[0].bytes.clone();
    all.extend(rest[0].bytes.iter());
    assert_eq!(all, b"~0008|{\"a\":1}~0008|{\"b\":2}".to_vec());
}

#[test]
fn empty_read_means_that_the_stream_is_closed() {
    let mut reader = PacketReader::new();
    assert!(matches!(reader.on_read(ReadOutcome::Received(b"")), ReadAction::Closed));
}

#[test]
fn failed_read_stops_the_reading() {
    let mut reader = PacketReader::new();
    match reader.on_read(ReadOutcome::Failed("broken pipe".to_string())) {
        ReadAction::Stop(message) => assert_eq!(message, "Error reading from stream: broken pipe"),
        _ => panic!("the reading goes on"),
    }
}

#[test]
fn successful_read_forwards_packets() {
    let mut reader = PacketReader::new();
    match reader.on_read(ReadOutcome::Received(b"~0008|{\"a\":1}~00")) {
        ReadAction::Forward(packets) => assert_eq!(packets.len(), 1),
        _ => panic!("nothing is forwarded"),
    }
    match reader.on_read(ReadOutcome::Received(b"08|{\"a\":1}")) {
        ReadAction::Forward(packets) => assert_eq!(packets.len(), 1),
        _ => panic!("nothing is forwarded"),
    }
}
