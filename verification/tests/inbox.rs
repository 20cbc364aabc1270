use argus_polymarket::inbox::{
    notices_of_search, remaining_wait, reply_step, reply_timeout, take_reply,
    unnumbered_notice_text, ReplyStep, WaitOutcome, DEFAULT_TIMEOUT_SECS,
};
use argus_polymarket::process::{open_packet, process_message, Delivery, PacketContents};
use argus_polymarket::{
    InBoundMessage, OutBoundMessage, ProtocolKind, SystemMessagesPushed,
};
use base64::Engine;
use std::io::Write;

fn message(action: &str, data: &str, id: Option<&str>) -> InBoundMessage {
    InBoundMessage {
        action: action.to_string(),
        data: data.to_string(),
        error: None,
        compressed: None,
        correlation_id: id.map(|id| id.to_string()),
    }
}

fn request(action: &str, id: &str) -> OutBoundMessage {
    OutBoundMessage::new(action.to_string(), "[]".to_string(), Some(id.to_string()))
}

#[test]
fn drained_messages_come_in_order_and_only_once() {
    let mut pushed = SystemMessagesPushed::new();
    assert_eq!(pushed.drain().len(), 0);
    pushed.add_message(message("notification", "1", None));
    pushed.add_message(message("account_update", "2", None));
    let drained = pushed.drain();
    assert_eq!(drained.len(), 2);
    assert_eq!(drained[0].data, "1");
    assert_eq!(drained[1].data, "2");
    assert_eq!(pushed.drain().len(), 0);
}

#[test]
fn warning_is_due_above_five_unread_messages() {
    let mut pushed = SystemMessagesPushed::new();
    for _ in 0..5 {
        assert_eq!(pushed.add_message(message("notification", "1", None)), None);
    }
    assert_eq!(pushed.add_message(message("notification", "1", None)), Some(6));
    assert_eq!(pushed.add_message(message("notification", "1", None)), Some(7));
    assert_eq!(pushed.unread().len(), 7);
    pushed.drain();
    assert_eq!(pushed.add_message(message("notification", "1", None)), None);
}

#[test]
fn reply_is_found_by_its_correlation_id() {
    let mut messages = vec![
        message("ping", "1", Some("a")),
        message("ping", "2", Some("b")),
        message("ping", "3", Some("b")),
    ];
    let reply = take_reply(&mut messages, &request("ping", "b")).unwrap();
    assert_eq!(reply.data, "2");
    assert_eq!(messages.len(), 2);
    assert_eq!(messages[0].data, "1");
    assert_eq!(messages[1].data, "3");
}

#[test]
fn interleaved_replies_are_told_apart() {
    let mut messages = vec![
        message("pong", "for nobody", None),
        message("get_orders", "for c", Some("c")),
        message("get_balance", "for b", Some("b")),
        message("ping", "for a", Some("a")),
    ];
    for id in ["a", "b", "c"] {
        let reply = take_reply(&mut messages, &request("ping", id)).unwrap();
        assert_eq!(reply.data, format!("for {}", id));
    }
    assert_eq!(messages.len(), 1);
}

#[test]
fn reply_without_correlation_id_is_found_by_its_action() {
    let mut messages = vec![message("pong", "1", None), message("ping", "2", None)];
    let reply = take_reply(&mut messages, &request("ping", "a")).unwrap();
    assert_eq!(reply.data, "2");
    assert_eq!(messages.len(), 1);
}

#[test]
fn requests_do_not_take_each_others_replies() {
    let mut messages = vec![
        message("ping", "any", None),
        message("ping", "for b", Some("b")),
        message("get_orders", "for a", Some("a")),
    ];
    let reply = take_reply(&mut messages, &request("get_orders", "a")).unwrap();
    assert_eq!(reply.data, "for a");
    let reply = take_reply(&mut messages, &request("get_orders", "b")).unwrap();
    assert_eq!(reply.data, "for b");
    assert_eq!(messages.len(), 1);
    assert_eq!(messages[0].data, "any");
}

#[test]
fn reply_to_another_request_stays() {
    let mut messages = vec![message("ping", "1", Some("b"))];
    assert!(take_reply(&mut messages, &request("ping", "a")).is_none());
    assert_eq!(messages.len(), 1);
}

#[test]
fn wait_is_over_when_the_time_is_up() {
    let mut messages = vec![message("ping", "1", Some("a"))];
    match reply_step(&mut messages, &request("ping", "a"), WaitOutcome::TimedOut, 10000) {
        ReplyStep::Failed(reason) => {
            assert_eq!(reason, "Timeout on .wait_timeout for message with action ping")
        }
        _ => panic!("the wait goes on"),
    }
    match reply_step(&mut messages, &request("ping", "a"), WaitOutcome::Notified(10000), 10000) {
        ReplyStep::Failed(reason) => {
            assert_eq!(reason, "Timeout waiting for message with action ping")
        }
        _ => panic!("the wait goes on"),
    }
    assert_eq!(messages.len(), 1);
}

#[test]
fn request_without_time_fails_at_once() {
    let mut messages = vec![message("ping", "1", Some("a"))];
    match reply_step(&mut messages, &request("ping", "a"), WaitOutcome::Started, 0) {
        ReplyStep::Failed(reason) => {
            assert_eq!(reason, "Timeout on .wait_timeout for message with action ping")
        }
        _ => panic!("the wait goes on"),
    }
    assert_eq!(messages.len(), 1);
}

#[test]
fn reply_that_is_there_is_not_waited_for() {
    let mut messages = vec![message("ping", "1", Some("a"))];
    match reply_step(&mut messages, &request("ping", "a"), WaitOutcome::Started, 10000) {
        ReplyStep::Reply { reply, notices } => {
            assert_eq!(reply.data, "1");
            assert_eq!(notices.len(), 0);
        }
        _ => panic!("the reply is not found"),
    }
    assert_eq!(messages.len(), 0);
}

#[test]
fn wait_ends_with_the_reply() {
    let mut messages = vec![message("ping", "1", Some("b"))];
    match reply_step(&mut messages, &request("ping", "a"), WaitOutcome::Started, 10000) {
        ReplyStep::KeepWaiting { millis, .. } => assert_eq!(millis, 10000),
        _ => panic!("the wait is over"),
    }
    match reply_step(&mut messages, &request("ping", "a"), WaitOutcome::Notified(9001), 10000) {
        ReplyStep::KeepWaiting { millis, .. } => assert_eq!(millis, 999),
        _ => panic!("the wait is over"),
    }
    messages.push(message("ping", "2", Some("a")));
    match reply_step(&mut messages, &request("ping", "a"), WaitOutcome::Notified(9999), 10000) {
        ReplyStep::Reply { reply, .. } => assert_eq!(reply.data, "2"),
        _ => panic!("the reply is not found"),
    }
    assert_eq!(messages.len(), 1);
}

#[test]
fn messages_without_correlation_id_are_noticed() {
    let mut messages = vec![
        message("say \"hi\"", "1", None),
        message("ping", "2", Some("b")),
        message("ping", "3", None),
        message("pong", "4", None),
    ];
    let expected = vec![
        "Expected correlation id a but got None, msg_action=\"say \\\"hi\\\"\"".to_string(),
        "Expected correlation id a but got None, msg_action=\"ping\"".to_string(),
    ];
    assert_eq!(notices_of_search(&messages, &request("ping", "a")), expected);
    match reply_step(&mut messages, &request("ping", "a"), WaitOutcome::Started, 10000) {
        ReplyStep::Reply { reply, notices } => {
            assert_eq!(reply.data, "3");
            assert_eq!(notices, expected);
        }
        _ => panic!("the reply is not found"),
    }
    match reply_step(&mut messages, &request("ping", "b"), WaitOutcome::Notified(1), 10000) {
        ReplyStep::Reply { notices, .. } => assert_eq!(notices.len(), 1),
        _ => panic!("the reply is not found"),
    }
    match reply_step(&mut messages, &request("ping", "c"), WaitOutcome::Notified(1), 10000) {
        ReplyStep::KeepWaiting { notices, .. } => assert_eq!(notices.len(), 2),
        _ => panic!("a reply is found"),
    }
    assert_eq!(
        unnumbered_notice_text(&request("ping", "id"), "X"),
        "Expected correlation id id but got None, msg_action=X"
    );
}

#[test]
fn replies_are_waited_for_ten_seconds() {
    assert_eq!(DEFAULT_TIMEOUT_SECS, 10);
    assert_eq!(reply_timeout(None), 10000);
    assert_eq!(reply_timeout(Some(3)), 3000);
    assert_eq!(reply_timeout(Some(0)), 0);
    assert_eq!(reply_timeout(Some(u64::MAX)), u64::MAX);
}

#[test]
fn only_what_is_left_of_the_time_is_waited() {
    assert_eq!(remaining_wait(10000, 9000), 1000);
    assert_eq!(remaining_wait(10000, 10000), 0);
    assert_eq!(remaining_wait(10000, 20000), 0);
}

#[test]
fn pushed_messages_are_told_from_replies() {
    for action in ["notification", "fatal_error", "account_update"] {
        match process_message(message(action, "1", None)) {
            Delivery::System(msg) => assert_eq!(msg.action, action),
            Delivery::Reply(_) => panic!("taken for a reply"),
        }
    }
    for action in ["ping", "Notification", "", "notifications"] {
        match process_message(message(action, "1", None)) {
            Delivery::Reply(msg) => assert_eq!(msg.action, action),
            Delivery::System(_) => panic!("taken for a system message"),
        }
    }
}

#[test]
fn processed_messages_are_decompressed() {
    let mut encoder =
        flate2::write::ZlibEncoder::new(Vec::new(), flate2::Compression::default());
    encoder.write_all(b"{\"a\":[]}").unwrap();
    let zipped = encoder.finish().unwrap();
    let data = format!("\"{}\"", base64::engine::general_purpose::STANDARD.encode(zipped));
    let mut compressed = message("search_markets", &data, Some("a"));
    compressed.compressed = Some(true);
    match process_message(compressed) {
        Delivery::Reply(msg) => {
            assert_eq!(msg.data, "{\"a\":[]}");
            assert_eq!(msg.compressed, Some(false));
        }
        Delivery::System(_) => panic!("taken for a system message"),
    }
}

#[test]
fn packets_are_opened() {
    match open_packet(b"~0023|{\"action\":\"x\",\"data\":[]}", ProtocolKind::Protocol1) {
        Ok(PacketContents::Message(msg)) => {
            assert_eq!(msg.action, "x");
            assert_eq!(msg.data, "[]");
        }
        _ => panic!("no message"),
    }
    match open_packet(b"~00140003|abc1,2L", ProtocolKind::Protocol2) {
        Ok(PacketContents::Book(ir)) => {
            assert_eq!(ir.symbol, "abc");
            assert_eq!(ir.values.len(), 2);
        }
        _ => panic!("no book"),
    }
    assert_eq!(
        open_packet(b"~0008", ProtocolKind::Protocol1).unwrap_err(),
        "Invalid message format"
    );
    assert_eq!(
        open_packet(b"~0008|{\"a\":1}", ProtocolKind::Protocol1).unwrap_err(),
        "Failed to deserialize message"
    );
    assert_eq!(
        open_packet(b"~0014003|abc1,2L", ProtocolKind::Protocol2).unwrap_err(),
        "Failed to decode protocol 2 message"
    );
}
