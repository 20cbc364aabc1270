//! What holds of the byte stream and of JSON packets: nothing is lost, packets are handed on
//! whole and in order, and what is written can be read back.

#[allow(unused_imports)]
use vstd::arithmetic::div_mod::lemma_div_denominator;
use vstd::prelude::*;
#[allow(unused_imports)]
use vstd::utf8::{
    decode_utf8, decode_utf8_split, encode_utf8, encode_utf8_decode_utf8, encode_utf8_valid_utf8,
    is_ascii_chars, is_ascii_chars_encode_utf8, is_char_boundary_iff_not_is_continuation_byte,
    is_continuation_byte, valid_utf8,
};

#[allow(unused_imports)]
use crate::json::{json_compact, json_document, json_escaped, json_quoted, JsonView};
#[allow(unused_imports)]
use crate::message::{
    after_pipe, echo, inflated, outbound_json, outbound_packet, packet_text, with_payload, InBoundView,
    OutBoundView,
};
#[allow(unused_imports)]
use crate::packet::{analysis, bad_length_byte, declared_length, ProtocolKind};
#[allow(unused_imports)]
use crate::reader::{completed, frame, frame_byte, is_terminator, Framing, PacketView};
#[allow(unused_imports)]
use crate::text::{decimal, digit_char, is_digit, lemma_decimal_is_digits, pad_left, repeated};

verus! {

/// The bytes of the packets of a sequence, one packet after the other.
pub open spec fn packet_bytes(packets: Seq<PacketView>) -> Seq<u8>
    decreases packets.len(),
{
    if packets.len() == 0 {
        Seq::empty()
    } else {
        packet_bytes(packets.drop_last()) + packets.last().bytes
    }
}

/// The stream can be read in any pieces: reading one stretch and then another gives the
/// packets that reading both at once gives.
pub proof fn law_stretches_join(pending: Seq<u8>, first: Seq<u8>, second: Seq<u8>)
    ensures
        frame(pending, first + second) == (Framing {
            pending: frame(frame(pending, first).pending, second).pending,
            packets: frame(pending, first).packets + frame(
                frame(pending, first).pending,
                second,
            ).packets,
        }),
    decreases second.len(),
{
    let start = frame(pending, first);
    if second.len() == 0 {
        assert(first + second =~= first);
        assert(start.packets + Seq::<PacketView>::empty() =~= start.packets);
    } else {
        let all = first + second;
        assert(all.drop_last() =~= first + second.drop_last());
        law_stretches_join(pending, first, second.drop_last());
        let before = frame(start.pending, second.drop_last());
        let bytes = before.pending.push(second.last());
        match completed(bytes) {
            Some(kind) => {
                let packet = PacketView { bytes, kind };
                assert((start.packets + before.packets).push(packet) =~= start.packets
                    + before.packets.push(packet));
            },
            None => {},
        }
    }
}

/// No byte of the stream is lost, doubled or moved: the packets that were completed and the
/// bytes still pending are, one after the other, what was pending before and what came in.
pub proof fn law_stream_is_kept(pending: Seq<u8>, stream: Seq<u8>)
    ensures
        packet_bytes(frame(pending, stream).packets) + frame(pending, stream).pending == pending
            + stream,
    decreases stream.len(),
{
    if stream.len() == 0 {
        assert(Seq::<u8>::empty() + pending =~= pending + stream);
    } else {
        let before = frame(pending, stream.drop_last());
        law_stream_is_kept(pending, stream.drop_last());
        let bytes = before.pending.push(stream.last());
        assert(pending + stream =~= (pending + stream.drop_last()).push(stream.last()));
        assert(packet_bytes(before.packets) + bytes =~= (packet_bytes(before.packets)
            + before.pending).push(stream.last()));
        match completed(bytes) {
            Some(kind) => {
                let packet = PacketView { bytes, kind };
                assert(before.packets.push(packet).drop_last() =~= before.packets);
                assert(packet_bytes(before.packets.push(packet)) + Seq::<u8>::empty()
                    =~= packet_bytes(before.packets) + bytes);
            },
            None => {},
        }
    }
}

/// Every packet that is handed on is one that the analysis recognises, with the protocol
/// that goes with it: a JSON packet ends with `}`, an order book packet with `L`.
pub proof fn law_packets_are_recognised(pending: Seq<u8>, stream: Seq<u8>, i: int)
    requires
        0 <= i < frame(pending, stream).packets.len(),
    ensures
        ({
            let packet = frame(pending, stream).packets[i];
            &&& analysis(packet.bytes) == Ok::<ProtocolKind, Seq<char>>(packet.kind)
            &&& packet.kind == ProtocolKind::Protocol1 ==> packet.bytes.last() == 0x7D
            &&& packet.kind == ProtocolKind::Protocol2 ==> packet.bytes.last() == 0x4C
        }),
    decreases stream.len(),
{
    if stream.len() > 0 {
        let before = frame(pending, stream.drop_last());
        if i < before.packets.len() {
            law_packets_are_recognised(pending, stream.drop_last(), i);
        }
    }
}

/// A packet is handed on as soon as it is complete: what is pending is never a complete
/// packet, if it was not one to start with.
pub proof fn law_nothing_complete_is_pending(pending: Seq<u8>, stream: Seq<u8>)
    requires
        completed(pending) is None,
    ensures
        completed(frame(pending, stream).pending) is None,
    decreases stream.len(),
{
    if stream.len() > 0 {
        law_nothing_complete_is_pending(pending, stream.drop_last());
    }
}

pub(crate) proof fn lemma_encode_concat(a: Seq<char>, b: Seq<char>)
    ensures
        encode_utf8(a + b) == encode_utf8(a) + encode_utf8(b),
    decreases a.len(),
{
    if a.len() == 0 {
        assert(a + b =~= b);
        assert(encode_utf8(a) + encode_utf8(b) =~= encode_utf8(b));
    } else {
        assert((a + b).drop_first() =~= a.drop_first() + b);
        lemma_encode_concat(a.drop_first(), b);
        assert(encode_utf8(a + b) =~= encode_utf8(a) + encode_utf8(b));
    }
}

/// The four digits of a number below ten thousand.
pub(crate) open spec fn four_digits(n: nat) -> Seq<char> {
    seq![
        digit_char((n / 1000) as int),
        digit_char(((n / 100) % 10) as int),
        digit_char(((n / 10) % 10) as int),
        digit_char((n % 10) as int),
    ]
}

pub(crate) proof fn lemma_four_digits(n: nat)
    requires
        n <= 9999,
    ensures
        pad_left(decimal(n), '0', 4) == four_digits(n),
{
    reveal_with_fuel(decimal, 4);
    assert(digit_char(0) == '0');
    if n < 10 {
        assert(pad_left(decimal(n), '0', 4) =~= four_digits(n));
    } else if n < 100 {
        assert(n / 10 < 10);
        assert(pad_left(decimal(n), '0', 4) =~= four_digits(n));
    } else if n < 1000 {
        lemma_div_denominator(n as int, 10, 10);
        assert(pad_left(decimal(n), '0', 4) =~= four_digits(n));
    } else {
        lemma_div_denominator(n as int, 10, 10);
        lemma_div_denominator(n as int, 100, 10);
        assert(pad_left(decimal(n), '0', 4) =~= four_digits(n));
    }
}

/// The six bytes in front of a JSON text of `n` bytes.
spec fn header_bytes(n: nat) -> Seq<u8> {
    seq![
        0x7E,
        (0x30 + n / 1000) as u8,
        (0x30 + (n / 100) % 10) as u8,
        (0x30 + (n / 10) % 10) as u8,
        (0x30 + n % 10) as u8,
        0x7C,
    ]
}

proof fn lemma_header_bytes(n: nat)
    requires
        n <= 9999,
    ensures
        encode_utf8("~"@ + four_digits(n) + "|"@) == header_bytes(n),
{
    reveal_strlit("~");
    reveal_strlit("|");
    let digits = four_digits(n);
    let header = "~"@ + digits + "|"@;
    assert(header =~= seq!['~', digits[0], digits[1], digits[2], digits[3], '|']);
    assert(is_ascii_chars(header));
    is_ascii_chars_encode_utf8(header);
    assert(encode_utf8(header) =~= header_bytes(n));
}

/// A number below ten thousand is the sum of its four digits.
pub(crate) proof fn lemma_digits_sum(n: nat)
    requires
        n <= 9999,
    ensures
        n / 1000 <= 9,
        (n / 100) % 10 <= 9,
        (n / 10) % 10 <= 9,
        n % 10 <= 9,
        n == (n / 1000) * 1000 + ((n / 100) % 10) * 100 + ((n / 10) % 10) * 10 + n % 10,
{
    lemma_div_denominator(n as int, 10, 10);
    lemma_div_denominator(n as int, 100, 10);
    let tens = n / 10;
    let hundreds = n / 100;
    let thousands = n / 1000;
    assert(hundreds == tens / 10);
    assert(thousands == hundreds / 10);
    assert(n == tens * 10 + n % 10);
    assert(tens == hundreds * 10 + tens % 10);
    assert(hundreds == thousands * 10 + hundreds % 10);
}

/// What the analysis finds in the header of a JSON text of `n` bytes.
proof fn lemma_header_is_read(n: nat, rest: Seq<u8>)
    requires
        n <= 9999,
    ensures
        bad_length_byte(header_bytes(n) + rest) is None,
        declared_length(header_bytes(n) + rest) == n,
{
    let bytes = header_bytes(n) + rest;
    lemma_digits_sum(n);
    assert(bytes[1] == 0x30 + n / 1000);
    assert(bytes[2] == 0x30 + (n / 100) % 10);
    assert(bytes[3] == 0x30 + (n / 10) % 10);
    assert(bytes[4] == 0x30 + n % 10);
}

/// The bytes of a JSON packet whose JSON text is short enough for four length digits.
proof fn lemma_packet_bytes(json: Seq<char>)
    requires
        encode_utf8(json).len() <= 9999,
    ensures
        ({
            let bytes = encode_utf8(packet_text(json));
            let n = encode_utf8(json).len();
            &&& bytes.len() == 6 + n
            &&& bytes[0] == 0x7E
            &&& bad_length_byte(bytes) is None
            &&& declared_length(bytes) == n
            &&& bytes[5] == 0x7C
            &&& bytes.skip(6) == encode_utf8(json)
        }),
{
    let n = encode_utf8(json).len();
    let bytes = encode_utf8(packet_text(json));
    assert(bytes == header_bytes(n) + encode_utf8(json)) by {
        let header = "~"@ + four_digits(n) + "|"@;
        lemma_four_digits(n);
        lemma_header_bytes(n);
        assert(packet_text(json) =~= header + json);
        lemma_encode_concat(header, json);
    }
    lemma_header_is_read(n, encode_utf8(json));
    assert(bytes.skip(6) =~= encode_utf8(json));
}

/// Whether a packet is complete with its last byte, and not before.
pub open spec fn exact_packet(packet: PacketView) -> bool {
    &&& completed(packet.bytes) == Some(packet.kind)
    &&& forall|k: int|
        0 <= k < packet.bytes.len() ==> completed(#[trigger] packet.bytes.take(k)) is None
}

/// Packets that come in one after the other are handed on one by one, in order, and nothing
/// is left over.
pub proof fn law_packets_are_read_back(packets: Seq<PacketView>)
    requires
        forall|i: int| 0 <= i < packets.len() ==> exact_packet(#[trigger] packets[i]),
    ensures
        frame(Seq::empty(), packet_bytes(packets)) == (Framing { pending: Seq::empty(), packets }),
    decreases packets.len(),
{
    if packets.len() == 0 {
        assert(packets =~= Seq::empty());
    } else {
        let front = packets.drop_last();
        let packet = packets[packets.len() - 1];
        assert forall|i: int| 0 <= i < front.len() implies exact_packet(#[trigger] front[i]) by {
            assert(front[i] == packets[i]);
        }
        law_packets_are_read_back(front);
        lemma_exact_packet_is_framed(packet);
        law_stretches_join(Seq::empty(), packet_bytes(front), packet.bytes);
        assert(front + seq![packet] =~= packets);
    }
}

proof fn lemma_exact_packet_is_framed(packet: PacketView)
    requires
        exact_packet(packet),
    ensures
        frame(Seq::empty(), packet.bytes) == (Framing {
            pending: Seq::empty(),
            packets: seq![packet],
        }),
{
    let bytes = packet.bytes;
    let n = bytes.len() as int;
    lemma_exact_packet_prefix(packet, n - 1);
    assert(bytes.drop_last() =~= bytes.take(n - 1));
    assert(bytes.drop_last().push(bytes.last()) =~= bytes);
    assert(Seq::<PacketView>::empty().push(packet) =~= seq![packet]);
}

proof fn lemma_exact_packet_prefix(packet: PacketView, k: int)
    requires
        exact_packet(packet),
        0 <= k < packet.bytes.len(),
    ensures
        frame(Seq::empty(), packet.bytes.take(k)) == (Framing {
            pending: packet.bytes.take(k),
            packets: Seq::empty(),
        }),
    decreases k,
{
    let part = packet.bytes.take(k);
    if k > 0 {
        lemma_exact_packet_prefix(packet, k - 1);
        assert(part.drop_last() =~= packet.bytes.take(k - 1));
        assert(part.drop_last().push(part.last()) =~= part);
    } else {
        assert(part =~= Seq::empty());
    }
}

/// A text whose encoding ends with an ASCII character ends with that character.
proof fn lemma_last_character(text: Seq<char>, c: char)
    requires
        (c as u32) < 0x80,
        encode_utf8(text).len() > 0,
        encode_utf8(text).last() == c as u8,
    ensures
        text.len() > 0,
        text.last() == c,
{
    let bytes = encode_utf8(text);
    let at = bytes.len() - 1;
    let end = bytes.subrange(at, bytes.len() as int);
    encode_utf8_valid_utf8(text);
    encode_utf8_decode_utf8(text);
    is_char_boundary_iff_not_is_continuation_byte(bytes, at);
    decode_utf8_split(bytes, at);
    let single = seq![c];
    assert(is_ascii_chars(single));
    is_ascii_chars_encode_utf8(single);
    assert(end =~= encode_utf8(single));
    encode_utf8_decode_utf8(single);
}

/// The encoding of a text starts and ends with the ASCII characters that the text starts
/// and ends with.
proof fn lemma_ends_of_encoding(text: Seq<char>)
    requires
        text.len() >= 2,
        is_ascii_chars(seq![text[0]]),
        is_ascii_chars(seq![text.last()]),
    ensures
        encode_utf8(text).len() >= 2,
        encode_utf8(text)[0] == text[0] as u8,
        encode_utf8(text).last() == text.last() as u8,
        encode_utf8(text).drop_last() == encode_utf8(text.drop_last()),
{
    let open = seq![text[0]];
    let close = seq![text.last()];
    let middle = text.subrange(1, text.len() - 1);
    assert(text =~= open + (middle + close));
    assert(text.drop_last() =~= open + middle);
    lemma_encode_concat(open, middle + close);
    lemma_encode_concat(middle, close);
    lemma_encode_concat(open, middle);
    is_ascii_chars_encode_utf8(open);
    is_ascii_chars_encode_utf8(close);
    assert(encode_utf8(text).drop_last() =~= encode_utf8(open) + encode_utf8(middle));
}

/// The packet of a JSON object is recognised with its last byte, and not before. It takes a
/// JSON text of at most 9999 bytes, for which the four length digits suffice, and one that
/// does not end with two closing braces: the check of the length lets a packet end one byte
/// early, at the first of the two.
pub proof fn law_json_packet_is_exact(json: Seq<char>)
    requires
        encode_utf8(json).len() <= 9999,
        json.len() >= 2,
        json[0] == '{',
        json.last() == '}',
        json[json.len() - 2] != '}',
    ensures
        exact_packet(
            PacketView { bytes: encode_utf8(packet_text(json)), kind: ProtocolKind::Protocol1 },
        ),
{
    let body = encode_utf8(json);
    let bytes = encode_utf8(packet_text(json));
    let n = bytes.len() as int;
    lemma_packet_bytes(json);
    lemma_ends_of_encoding(json);
    assert(bytes[6] == bytes.skip(6)[0]);
    assert(bytes.last() == bytes.skip(6).last());
    assert forall|k: int| 0 <= k < n implies completed(#[trigger] bytes.take(k)) is None by {
        let part = bytes.take(k);
        if k == n - 1 {
            assert(part.last() == bytes.skip(6)[k - 7]);
            assert(part.last() == body.drop_last().last());
            if part.last() == 0x7D {
                lemma_last_character(json.drop_last(), '}');
            }
        } else if k >= 6 {
            assert(declared_length(part) == declared_length(bytes));
        }
    }
}

/// The packet of a request is recognised with its last byte, and not before. It takes a JSON
/// text of at most 9999 bytes.
pub proof fn law_request_is_exact(message: OutBoundView)
    requires
        encode_utf8(outbound_json(message)).len() <= 9999,
    ensures
        exact_packet(
            PacketView { bytes: outbound_packet(message), kind: ProtocolKind::Protocol1 },
        ),
{
    reveal_strlit("{\"action\":");
    reveal_strlit("}");
    let json = outbound_json(message);
    let n = json.len() as int;
    assert(json[0] == "{\"action\":"@[0]);
    assert(json[n - 1] == '}');
    assert(json_quoted(message.correlation_id).last() == '"');
    assert(json[n - 2] == '"');
    law_json_packet_is_exact(json);
}

/// The packets of several requests.
pub open spec fn request_packets(messages: Seq<OutBoundView>) -> Seq<PacketView> {
    Seq::new(
        messages.len(),
        |i: int|
            PacketView { bytes: outbound_packet(messages[i]), kind: ProtocolKind::Protocol1 },
    )
}

/// Requests that are written one after the other are read as one packet each, in order, and
/// nothing is left over. It takes JSON texts of at most 9999 bytes.
pub proof fn law_requests_are_read_back(messages: Seq<OutBoundView>)
    requires
        forall|i: int|
            0 <= i < messages.len() ==> encode_utf8(
                outbound_json(#[trigger] messages[i]),
            ).len() <= 9999,
    ensures
        frame(Seq::empty(), packet_bytes(request_packets(messages))) == (Framing {
            pending: Seq::empty(),
            packets: request_packets(messages),
        }),
{
    let packets = request_packets(messages);
    assert forall|i: int| 0 <= i < packets.len() implies exact_packet(#[trigger] packets[i]) by {
        law_request_is_exact(messages[i]);
    }
    law_packets_are_read_back(packets);
}

/// Unframing undoes framing: the packet of a JSON text is UTF-8, and what stands behind its
/// first separator is the JSON text.
pub proof fn law_unframing_undoes_framing(json: Seq<char>)
    ensures
        valid_utf8(encode_utf8(packet_text(json))),
        after_pipe(decode_utf8(encode_utf8(packet_text(json)))) == Some(json),
{
    let text = packet_text(json);
    encode_utf8_valid_utf8(text);
    encode_utf8_decode_utf8(text);
    let length = decimal(encode_utf8(json).len());
    let digits = pad_left(length, '0', 4);
    lemma_decimal_is_digits(encode_utf8(json).len());
    reveal_strlit("~");
    reveal_strlit("|");
    let at = 1 + digits.len() as int;
    assert(text.len() == at + 1 + json.len());
    assert(text[at] == '|');
    assert forall|i: int| 0 <= i < digits.len() implies is_digit(#[trigger] digits[i]) by {
        if length.len() >= 4 {
            assert(digits[i] == length[i]);
        } else if i >= 4 - length.len() {
            assert(digits[i] == length[i - (4 - length.len())]);
        }
    }
    assert forall|i: int| 0 <= i < at implies text[i] != '|' by {
        if i > 0 {
            assert(text[i] == digits[i - 1]);
            assert(is_digit(digits[i - 1]));
        }
    }
    text.index_of_first_ensures('|');
    assert(text.contains('|'));
    assert(text.index_of_first('|') == Some(at)) by {
        let found = text.index_of_first('|')->0;
        if found < at {
            assert(text[found] != '|');
        }
    }
    assert(text.skip(at + 1) =~= json);
}

/// The JSON text of a request comes back out of its packet.
pub proof fn law_request_is_decoded(message: OutBoundView)
    ensures
        valid_utf8(outbound_packet(message)),
        after_pipe(decode_utf8(outbound_packet(message))) == Some(outbound_json(message)),
{
    law_unframing_undoes_framing(outbound_json(message));
}

/// A payload that is already in compact form comes back letter for letter when a request is
/// read.
pub proof fn law_compact_payload_comes_back(request: OutBoundView, document: JsonView)
    requires
        json_document(request.data) == Ok::<JsonView, Seq<char>>(document),
        request.data == json_compact(document),
    ensures
        echo(request).data == request.data,
{
}

/// Decompressing a message a second time changes nothing.
pub proof fn law_decompression_happens_once(message: InBoundView)
    ensures
        ({
            let once = with_payload(message, inflated(message.data));
            with_payload(once, inflated(once.data)) == once
        }),
{
}

} // verus!
