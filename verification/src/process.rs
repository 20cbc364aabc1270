//! What becomes of a packet once it is complete.

use vstd::prelude::*;
use vstd::string::*;

use crate::message::InBoundMessage;
#[allow(unused_imports)]
use crate::message::{after_pipe, inflated, message_in, with_payload};
use crate::orderbook::Protocol2IR;
#[allow(unused_imports)]
use crate::orderbook::{packet_symbol, packet_values, readable_book_packet};
use crate::packet::{ProtocolFns, ProtocolKind};
#[allow(unused_imports)]
use crate::text::{received_text, texts};

verus! {

/// Whether the server pushes messages with this action by itself, rather than in reply to
/// a request.
pub open spec fn is_pushed_action(action: Seq<char>) -> bool {
    ||| action == "notification"@
    ||| action == "fatal_error"@
    ||| action == "account_update"@
}

/// What a packet holds.
#[derive(Debug)]
pub enum PacketContents {
    /// A message.
    Message(InBoundMessage),
    /// The symbol and the values of an order book.
    Book(Protocol2IR<String>),
}

/// Takes a packet apart. It is an error if it is a JSON packet without a separator or without
/// a message, or an order book packet that is not readable.
pub fn open_packet(bytes: &[u8], kind: ProtocolKind) -> (contents: Result<PacketContents, String>)
    ensures
        match kind {
            ProtocolKind::Protocol1 => match after_pipe(received_text(bytes@)) {
                Some(json) => match message_in(json) {
                    Some(read) => {
                        &&& contents matches Ok(PacketContents::Message(msg))
                        &&& msg@ == read
                    },
                    None => {
                        &&& contents matches Err(reason)
                        &&& reason@ == "Failed to deserialize message"@
                    },
                },
                None => contents matches Err(reason) && reason@ == "Invalid message format"@,
            },
            ProtocolKind::Protocol2 => if readable_book_packet(bytes@) {
                &&& contents matches Ok(PacketContents::Book(ir))
                &&& ir.symbol@ == packet_symbol(bytes@)
                &&& texts(ir.values@) == packet_values(bytes@)
            } else {
                &&& contents matches Err(reason)
                &&& reason@ == "Failed to decode protocol 2 message"@
            },
        },
{
    match kind {
        ProtocolKind::Protocol1 => match ProtocolFns::protocol_1_decoder(bytes) {
            Ok(msg) => Ok(PacketContents::Message(msg)),
            Err(reason) => Err(reason),
        },
        ProtocolKind::Protocol2 => {
            if !ProtocolFns::is_readable_book_packet(bytes) {
                return Err("Failed to decode protocol 2 message".to_string());
            }
            match ProtocolFns::protocol_2_decoder(bytes) {
                Ok(ir) => Ok(PacketContents::Book(ir)),
                Err(reason) => Err(reason),
            }
        },
    }
}

/// The buffer that a message goes to.
#[derive(Debug)]
pub enum Delivery {
    /// The system messages.
    System(InBoundMessage),
    /// The messages among which requests look for their replies.
    Reply(InBoundMessage),
}

/// Decompresses a decoded message, and decides which buffer it goes to: what the server
/// pushes by itself is a system message, everything else a reply.
pub fn process_message(decoded: InBoundMessage) -> (delivery: Delivery)
    ensures
        match delivery {
            Delivery::System(msg) => {
                &&& is_pushed_action(decoded@.action)
                &&& msg@ == with_payload(decoded@, inflated(decoded@.data))
            },
            Delivery::Reply(msg) => {
                &&& !is_pushed_action(decoded@.action)
                &&& msg@ == with_payload(decoded@, inflated(decoded@.data))
            },
        },
{
    let mut msg = decoded;
    ProtocolFns::maybe_decompress_p1(&mut msg);
    if msg.action == "notification".to_string() || msg.action == "fatal_error".to_string()
        || msg.action == "account_update".to_string() {
        Delivery::System(msg)
    } else {
        Delivery::Reply(msg)
    }
}

} // verus!
