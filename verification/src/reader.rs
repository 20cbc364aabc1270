//! Cutting the incoming byte stream into packets.

use vstd::prelude::*;

use crate::packet::{ProtocolFns, ProtocolKind, BOOK_CLOSE, JSON_CLOSE};
#[allow(unused_imports)]
use crate::packet::analysis;

verus! {

/// A complete packet, with the protocol that it belongs to.
#[derive(Debug)]
pub struct Packet {
    pub bytes: Vec<u8>,
    pub kind: ProtocolKind,
}

/// A packet as a mathematical value.
pub ghost struct PacketView {
    pub bytes: Seq<u8>,
    pub kind: ProtocolKind,
}

impl View for Packet {
    type V = PacketView;

    open spec fn view(&self) -> PacketView {
        PacketView { bytes: self.bytes@, kind: self.kind }
    }
}

/// The packets of a sequence, as mathematical values.
pub open spec fn packet_views(packets: Seq<Packet>) -> Seq<PacketView> {
    packets.map_values(|packet: Packet| packet@)
}

/// Whether a packet may end with `byte`.
pub open spec fn is_terminator(byte: u8) -> bool {
    byte == BOOK_CLOSE || byte == JSON_CLOSE
}

/// The protocol of the packet that `bytes` is seen to be once its last byte has come
/// in, or `None` where more bytes are waited for.
pub open spec fn completed(bytes: Seq<u8>) -> Option<ProtocolKind> {
    match analysis(bytes) {
        Ok(kind) if is_terminator(bytes.last()) => Some(kind),
        _ => None,
    }
}

/// What reading a stretch of the stream leaves: the bytes of the packet that is still
/// incomplete, and the packets that were completed, in order.
pub ghost struct Framing {
    pub pending: Seq<u8>,
    pub packets: Seq<PacketView>,
}

/// Reads one more byte.
pub open spec fn frame_byte(state: Framing, byte: u8) -> Framing {
    let bytes = state.pending.push(byte);
    match completed(bytes) {
        Some(kind) => Framing {
            pending: Seq::empty(),
            packets: state.packets.push(PacketView { bytes, kind }),
        },
        None => Framing { pending: bytes, packets: state.packets },
    }
}

/// Reads `stream`, with `pending` left over from before.
pub open spec fn frame(pending: Seq<u8>, stream: Seq<u8>) -> Framing
    decreases stream.len(),
{
    if stream.len() == 0 {
        Framing { pending, packets: Seq::empty() }
    } else {
        frame_byte(frame(pending, stream.drop_last()), stream.last())
    }
}

/// What a read from the connection gave.
#[derive(Debug)]
pub enum ReadOutcome<'a> {
    /// The read returned these bytes.
    Received(&'a [u8]),
    /// The read failed with this message.
    Failed(String),
}

/// What is to be done after a read.
#[derive(Debug)]
pub enum ReadAction {
    /// Hand the packets on, in this order, and read again.
    Forward(Vec<Packet>),
    /// The server has closed the stream: nothing more will come.
    Closed,
    /// Report the message and stop reading.
    Stop(String),
}

/// The rolling buffer of the incoming stream.
#[derive(Debug)]
pub struct PacketReader {
    buffer: Vec<u8>,
}

impl View for PacketReader {
    type V = Seq<u8>;

    /// The bytes that have come in since the last complete packet.
    closed spec fn view(&self) -> Seq<u8> {
        self.buffer@
    }
}

impl PacketReader {
    /// A reader at the start of a stream.
    pub fn new() -> (reader: Self)
        ensures
            reader@ == Seq::<u8>::empty(),
    {
        PacketReader { buffer: Vec::new() }
    }

    /// Takes in one byte, and gives the packet that it completes, if it completes one.
    pub fn push_byte(&mut self, byte: u8) -> (packet: Option<Packet>)
        ensures
            match completed(old(self)@.push(byte)) {
                Some(kind) => {
                    &&& packet matches Some(p)
                    &&& p@ == (PacketView { bytes: old(self)@.push(byte), kind })
                    &&& final(self)@ == Seq::<u8>::empty()
                },
                None => packet is None && final(self)@ == old(self)@.push(byte),
            },
    {
        self.buffer.push(byte);
        if byte == BOOK_CLOSE || byte == JSON_CLOSE {
            if let Ok(kind) = ProtocolFns::analyse_bytes(self.buffer.as_slice()) {
                let mut bytes: Vec<u8> = Vec::new();
                std::mem::swap(&mut bytes, &mut self.buffer);
                return Some(Packet { bytes, kind });
            }
        }
        None
    }

    /// Takes in a stretch of the stream, and gives the packets that it completes.
    pub fn push_bytes(&mut self, stream: &[u8]) -> (packets: Vec<Packet>)
        ensures
            final(self)@ == frame(old(self)@, stream@).pending,
            packet_views(packets@) == frame(old(self)@, stream@).packets,
    {
        let mut packets: Vec<Packet> = Vec::new();
        let mut i: usize = 0;
        while i < stream.len()
            invariant
                i <= stream@.len(),
                self@ == frame(old(self)@, stream@.take(i as int)).pending,
                packet_views(packets@) == frame(old(self)@, stream@.take(i as int)).packets,
            decreases stream@.len() - i,
        {
            let ghost before = packets@;
            if let Some(packet) = self.push_byte(stream[i]) {
                packets.push(packet);
                assert(packet_views(packets@) =~= packet_views(before).push(packet@));
            }
            assert(stream@.take(i + 1).drop_last() =~= stream@.take(i as int));
            assert(stream@.take(i + 1).last() == stream@[i as int]);
            i += 1;
        }
        assert(stream@.take(i as int) =~= stream@);
        packets
    }

    /// Decides what follows a read: bytes are cut into packets, an empty read means
    /// that the server has closed the stream, and a failed read ends the reading.
    pub fn on_read(&mut self, outcome: ReadOutcome) -> (action: ReadAction)
        ensures
            match outcome {
                ReadOutcome::Received(stream) => {
                    &&& final(self)@ == frame(old(self)@, stream@).pending
                    &&& if stream@.len() == 0 {
                        action is Closed
                    } else {
                        &&& action matches ReadAction::Forward(packets)
                        &&& packet_views(packets@) == frame(old(self)@, stream@).packets
                    }
                },
                ReadOutcome::Failed(error) => {
                    &&& final(self)@ == old(self)@
                    &&& action matches ReadAction::Stop(message)
                    &&& message@ == "Error reading from stream: "@ + error@
                },
            },
    {
        match outcome {
            ReadOutcome::Received(stream) => {
                if stream.len() == 0 {
                    ReadAction::Closed
                } else {
                    ReadAction::Forward(self.push_bytes(stream))
                }
            },
            ReadOutcome::Failed(error) => {
                ReadAction::Stop("Error reading from stream: ".to_string().concat(error.as_str()))
            },
        }
    }
}

} // verus!
