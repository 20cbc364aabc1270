//! What the analysis of packets accepts and refuses, byte by byte, and how the numerals in
//! its messages are to be read.

use vstd::prelude::*;

#[allow(unused_imports)]
use crate::packet::{analysis, ProtocolKind};
#[allow(unused_imports)]
use crate::reader::{completed, frame, packet_views, Packet, PacketView};
#[allow(unused_imports)]
use crate::text::{
    all_digits, decimal, digits_value, hex_byte, optional_text, pad_left, received_text, repeated,
    spelled_number, text_result, texts, utf8_lossy,
};
#[allow(unused_imports)]
use vstd::utf8::{decode_utf8, valid_utf8};

verus! {

/// A JSON packet is a `~`, four digits, `|`, `{`, anything, and `}`, with at least as many
/// bytes behind the header as the digits say; and nothing else is one. What stands between
/// the braces makes no difference, be it another brace right before the last.
pub proof fn law_what_a_json_packet_is(bytes: Seq<u8>)
    ensures
        analysis(bytes) == Ok::<ProtocolKind, Seq<char>>(ProtocolKind::Protocol1) <==> {
            &&& bytes.len() >= 7
            &&& bytes[0] == 0x7E
            &&& forall|i: int| 1 <= i < 5 ==> 0x30 <= #[trigger] bytes[i] && bytes[i] <= 0x39
            &&& bytes.len() >= 5 + 1000 * (bytes[1] - 0x30) + 100 * (bytes[2] - 0x30) + 10 * (
            bytes[3] - 0x30) + (bytes[4] - 0x30)
            &&& bytes[5] == 0x7C
            &&& bytes[6] == 0x7B
            &&& bytes[bytes.len() - 1] == 0x7D
        },
{
    if analysis(bytes) is Ok {
        assert forall|i: int| 1 <= i < 5 implies 0x30 <= #[trigger] bytes[i] && bytes[i]
            <= 0x39 by {
            assert(i == 1 || i == 2 || i == 3 || i == 4);
        }
    }
}

/// An order book packet is a `~`, four digits, four bytes of which the first is no `|`, a
/// `|`, anything, and `L`, with at least as many bytes behind the header as the digits say;
/// and nothing else is one.
pub proof fn law_what_a_book_packet_is(bytes: Seq<u8>)
    ensures
        analysis(bytes) == Ok::<ProtocolKind, Seq<char>>(ProtocolKind::Protocol2) <==> {
            &&& bytes.len() >= 10
            &&& bytes[0] == 0x7E
            &&& forall|i: int| 1 <= i < 5 ==> 0x30 <= #[trigger] bytes[i] && bytes[i] <= 0x39
            &&& bytes.len() >= 5 + 1000 * (bytes[1] - 0x30) + 100 * (bytes[2] - 0x30) + 10 * (
            bytes[3] - 0x30) + (bytes[4] - 0x30)
            &&& bytes[5] != 0x7C
            &&& bytes[9] == 0x7C
            &&& bytes[bytes.len() - 1] == 0x4C
        },
{
    if analysis(bytes) is Ok {
        assert forall|i: int| 1 <= i < 5 implies 0x30 <= #[trigger] bytes[i] && bytes[i]
            <= 0x39 by {
            assert(i == 1 || i == 2 || i == 3 || i == 4);
        }
    }
}

/// What stands between the first ten and the last byte, beyond its length, makes no
/// difference to the analysis.
pub proof fn law_content_makes_no_difference(a: Seq<u8>, b: Seq<u8>)
    requires
        a.len() == b.len(),
        a.len() >= 11,
        forall|i: int| 0 <= i < 10 ==> a[i] == b[i],
        a[a.len() - 1] == b[b.len() - 1],
    ensures
        analysis(a) == analysis(b),
{
    assert(forall|i: int| 0 <= i < 10 ==> #[trigger] a[i] == b[i]);
    assert(a[1] == b[1] && a[2] == b[2] && a[3] == b[3] && a[4] == b[4]);
    assert(a[0] == b[0] && a[5] == b[5] && a[6] == b[6] && a[9] == b[9]);
}

/// Bytes that are too few for a header are refused, with their number.
pub proof fn law_short_header_is_refused(bytes: Seq<u8>)
    requires
        bytes.len() < 6,
    ensures
        analysis(bytes) == Err::<ProtocolKind, Seq<char>>(
            "Invalid packet: expected length of at least "@ + decimal(6) + ", got "@ + decimal(
                bytes.len(),
            ),
        ),
{
}

/// Bytes that do not start with `~` are refused, with the byte that they start with.
pub proof fn law_wrong_start_is_refused(bytes: Seq<u8>)
    requires
        bytes.len() >= 6,
        bytes[0] != 0x7E,
    ensures
        analysis(bytes) == Err::<ProtocolKind, Seq<char>>(
            "Invalid header: expected first byte to be 0x7E"@ + ", got "@ + hex_byte(bytes[0]),
        ),
{
}

/// The first length byte that is no digit is refused and named.
pub proof fn law_wrong_length_byte_is_refused(bytes: Seq<u8>, k: int)
    requires
        bytes.len() >= 6,
        bytes[0] == 0x7E,
        1 <= k < 5,
        forall|i: int| 1 <= i < k ==> 0x30 <= #[trigger] bytes[i] && bytes[i] <= 0x39,
        bytes[k] < 0x30 || bytes[k] > 0x39,
    ensures
        analysis(bytes) == Err::<ProtocolKind, Seq<char>>(
            "Invalid header: expected a length digit"@ + ", got "@ + hex_byte(bytes[k]),
        ),
{
    assert(k == 1 || k == 2 || k == 3 || k == 4);
    assert(forall|i: int| 1 <= i < k ==> 0x30 <= #[trigger] bytes[i]);
    if k > 1 {
        assert(0x30 <= bytes[1] && bytes[1] <= 0x39);
    }
    if k > 2 {
        assert(0x30 <= bytes[2] && bytes[2] <= 0x39);
    }
    if k > 3 {
        assert(0x30 <= bytes[3] && bytes[3] <= 0x39);
    }
}

/// A packet that is shorter than its header says is refused, with both lengths.
pub proof fn law_missing_bytes_are_refused(bytes: Seq<u8>, length: nat)
    requires
        bytes.len() >= 6,
        bytes[0] == 0x7E,
        forall|i: int| 1 <= i < 5 ==> 0x30 <= #[trigger] bytes[i] && bytes[i] <= 0x39,
        length == 1000 * (bytes[1] - 0x30) + 100 * (bytes[2] - 0x30) + 10 * (bytes[3] - 0x30) + (
        bytes[4] - 0x30),
        bytes.len() < 5 + length,
    ensures
        analysis(bytes) == Err::<ProtocolKind, Seq<char>>(
            "Invalid packet: expected length of at least "@ + decimal((5 + length) as nat)
                + ", got "@ + decimal(bytes.len()),
        ),
{
    assert(0x30 <= bytes[1] && 0x30 <= bytes[2] && 0x30 <= bytes[3] && 0x30 <= bytes[4]);
}

/// A packet with a `|` behind its header is refused if it goes on with anything but `{`, and
/// otherwise if it ends with anything but `}`.
pub proof fn law_wrong_json_packet_is_refused(bytes: Seq<u8>, length: nat)
    requires
        bytes.len() >= 6,
        bytes[0] == 0x7E,
        forall|i: int| 1 <= i < 5 ==> 0x30 <= #[trigger] bytes[i] && bytes[i] <= 0x39,
        length == 1000 * (bytes[1] - 0x30) + 100 * (bytes[2] - 0x30) + 10 * (bytes[3] - 0x30) + (
        bytes[4] - 0x30),
        bytes.len() >= 5 + length,
        bytes[5] == 0x7C,
    ensures
        bytes.len() == 6 ==> analysis(bytes) == Err::<ProtocolKind, Seq<char>>(
            "Invalid packet: expected length of at least "@ + decimal(7) + ", got "@ + decimal(6),
        ),
        bytes.len() >= 7 && bytes[6] != 0x7B ==> analysis(bytes) == Err::<
            ProtocolKind,
            Seq<char>,
        >(
            "Invalid packet for protocol 1: expected byte after pipe to be 0x7B"@ + ", got "@
                + hex_byte(bytes[6]),
        ),
        bytes.len() >= 7 && bytes[6] == 0x7B && bytes[bytes.len() - 1] != 0x7D ==> analysis(bytes)
            == Err::<ProtocolKind, Seq<char>>(
            "Invalid packet for protocol 1: expected last byte to be 0x7D"@ + ", got "@ + hex_byte(
                bytes[bytes.len() - 1],
            ),
        ),
{
    assert(0x30 <= bytes[1] && 0x30 <= bytes[2] && 0x30 <= bytes[3] && 0x30 <= bytes[4]);
}

/// A packet with anything else behind its header is refused if it has no `|` behind the
/// symbol length, and otherwise if it ends with anything but `L`.
pub proof fn law_wrong_book_packet_is_refused(bytes: Seq<u8>, length: nat)
    requires
        bytes.len() >= 6,
        bytes[0] == 0x7E,
        forall|i: int| 1 <= i < 5 ==> 0x30 <= #[trigger] bytes[i] && bytes[i] <= 0x39,
        length == 1000 * (bytes[1] - 0x30) + 100 * (bytes[2] - 0x30) + 10 * (bytes[3] - 0x30) + (
        bytes[4] - 0x30),
        bytes.len() >= 5 + length,
        bytes[5] != 0x7C,
    ensures
        bytes.len() < 10 ==> analysis(bytes) == Err::<ProtocolKind, Seq<char>>(
            "Invalid packet: expected length of at least "@ + decimal(10) + ", got "@ + decimal(
                bytes.len(),
            ),
        ),
        bytes.len() >= 10 && bytes[9] != 0x7C ==> analysis(bytes) == Err::<
            ProtocolKind,
            Seq<char>,
        >(
            "Invalid packet for protocol 2: expected byte after symbol length to be 0x7C"@
                + ", got "@ + hex_byte(bytes[9]),
        ),
        bytes.len() >= 10 && bytes[9] == 0x7C && bytes[bytes.len() - 1] != 0x4C ==> analysis(bytes)
            == Err::<ProtocolKind, Seq<char>>(
            "Invalid packet for protocol 2: expected last byte to be 0x4C"@ + ", got "@ + hex_byte(
                bytes[bytes.len() - 1],
            ),
        ),
{
    assert(0x30 <= bytes[1] && 0x30 <= bytes[2] && 0x30 <= bytes[3] && 0x30 <= bytes[4]);
}

/// The reader takes for complete just what the analysis recognises.
pub proof fn law_completion_is_recognition(bytes: Seq<u8>, kind: ProtocolKind)
    ensures
        completed(bytes) == Some(kind) <==> analysis(bytes) == Ok::<ProtocolKind, Seq<char>>(kind),
{
}

/// A byte that completes what is pending hands it on at once, with the byte; any other byte
/// is kept with what is pending. Nothing else happens to either.
pub proof fn law_one_byte_at_a_time(pending: Seq<u8>, stream: Seq<u8>, byte: u8)
    ensures
        ({
            let before = frame(pending, stream);
            let after = frame(pending, stream.push(byte));
            match analysis(before.pending.push(byte)) {
                Ok(kind) => {
                    &&& after.pending.len() == 0
                    &&& after.packets.len() == before.packets.len() + 1
                    &&& after.packets[before.packets.len() as int].bytes == before.pending.push(
                        byte,
                    )
                    &&& after.packets[before.packets.len() as int].kind == kind
                    &&& forall|i: int|
                        0 <= i < before.packets.len() ==> #[trigger] after.packets[i]
                            == before.packets[i]
                },
                Err(_) => {
                    &&& after.pending == before.pending.push(byte)
                    &&& after.packets == before.packets
                },
            }
        }),
        frame(pending, Seq::empty()).pending == pending,
        frame(pending, Seq::empty()).packets.len() == 0,
{
    assert(stream.push(byte).drop_last() =~= stream);
}

/// A packet is looked at with all its bytes and its kind.
pub proof fn law_packet_views(packets: Seq<Packet>)
    ensures
        packet_views(packets).len() == packets.len(),
        forall|i: int|
            0 <= i < packets.len() ==> {
                &&& (#[trigger] packet_views(packets)[i]).bytes == packets[i].bytes@
                &&& packet_views(packets)[i].kind == packets[i].kind
            },
{
}

/// The last digit of a decimal numeral is the remainder by ten, and the digits before it are
/// the numeral of the quotient; a number below ten has one digit.
pub proof fn law_decimal_digit_by_digit(n: nat)
    ensures
        n < 10 ==> decimal(n).len() == 1,
        n >= 10 ==> decimal(n).drop_last() == decimal(n / 10),
        decimal(n).last() as int == 0x30 + n % 10,
{
    if n >= 10 {
        assert(decimal(n).drop_last() =~= decimal(n / 10));
    }
}

/// What digits stand for, digit by digit.
pub proof fn law_digits_are_read_one_by_one(digits: Seq<char>, c: char)
    requires
        '0' <= c <= '9',
    ensures
        digits_value(Seq::empty()) == 0,
        digits_value(digits.push(c)) == 10 * digits_value(digits) + (c as int - 0x30),
{
    assert(digits.push(c).drop_last() =~= digits);
}

/// Digits spell a number, with or without a plus sign, and any other text spells none.
pub proof fn law_what_spells_a_number(text: Seq<char>)
    ensures
        text.len() > 0 && (forall|i: int|
            0 <= i < text.len() ==> '0' <= #[trigger] text[i] && text[i] <= '9') ==> {
            &&& spelled_number(text) == Some(digits_value(text))
            &&& spelled_number(seq!['+'] + text) == Some(digits_value(text))
        },
        spelled_number(text) is Some ==> text.len() > 0 && (forall|i: int|
            1 <= i < text.len() ==> '0' <= #[trigger] text[i] && text[i] <= '9') && (('0'
            <= text[0] && text[0] <= '9') || (text[0] == '+' && text.len() > 1)),
{
    let signed = seq!['+'] + text;
    assert(signed.drop_first() =~= text);
    if text.len() > 0 && (forall|i: int|
        0 <= i < text.len() ==> '0' <= #[trigger] text[i] && text[i] <= '9') {
        assert(text[0] != '+') by {
            assert('0' <= text[0]);
        }
        assert(all_digits(text));
        assert(signed[0] == '+');
    }
    if spelled_number(text) is Some && text.len() > 0 && text[0] == '+' {
        let rest = text.drop_first();
        assert(all_digits(rest));
        assert forall|i: int| 1 <= i < text.len() implies '0' <= #[trigger] text[i] && text[i]
            <= '9' by {
            assert(rest[i - 1] == text[i]);
        }
    }
}

/// The two hexadecimal digits of a byte give the byte back: the first one counts sixteen.
pub proof fn law_hex_byte_reads_back(byte: u8)
    ensures
        hex_byte(byte).len() == 4,
        hex_byte(byte)[0] == '0',
        hex_byte(byte)[1] == 'x',
        forall|i: int|
            2 <= i < 4 ==> ('0' <= #[trigger] hex_byte(byte)[i] && hex_byte(byte)[i] <= '9') || (
            'A' <= hex_byte(byte)[i] && hex_byte(byte)[i] <= 'F'),
        ({
            let high = hex_byte(byte)[2] as int;
            let low = hex_byte(byte)[3] as int;
            byte == 16 * (if high < 0x40 {
                high - 0x30
            } else {
                high - 0x37
            }) + (if low < 0x40 {
                low - 0x30
            } else {
                low - 0x37
            })
        }),
{
    reveal_strlit("0x");
}

/// Padding puts fill characters in front of a text that is too short, as many as it takes,
/// and leaves the text itself as it is.
pub proof fn law_padding_keeps_the_text(text: Seq<char>, fill: char, width: nat)
    ensures
        ({
            let padded = pad_left(text, fill, width);
            let blank = padded.len() - text.len();
            &&& blank >= 0
            &&& padded.len() >= width
            &&& blank > 0 ==> padded.len() == width
            &&& padded.skip(blank) == text
            &&& forall|i: int| 0 <= i < blank ==> #[trigger] padded[i] == fill
        }),
{
    let padded = pad_left(text, fill, width);
    assert(padded.skip(padded.len() - text.len()) =~= text);
}

/// A run of one character is that character as often as asked for.
pub proof fn law_repetition(c: char, width: nat)
    ensures
        repeated(c, width).len() == width,
        forall|i: int| 0 <= i < width ==> #[trigger] repeated(c, width)[i] == c,
{
}

/// Bytes that are UTF-8 are read as what they encode, and others with replacements.
pub proof fn law_text_is_received(bytes: Seq<u8>)
    ensures
        valid_utf8(bytes) ==> received_text(bytes) == decode_utf8(bytes),
        !valid_utf8(bytes) ==> received_text(bytes) == utf8_lossy(bytes),
{
}

/// Strings are looked at by their characters: all of them, in order; a missing one is missing,
/// and a message keeps its words.
pub proof fn law_texts_are_kept(strings: Seq<String>, text: String)
    ensures
        texts(strings).len() == strings.len(),
        forall|i: int| 0 <= i < strings.len() ==> #[trigger] texts(strings)[i] == strings[i]@,
        optional_text(Some(text)) == Some(text@),
        optional_text(None) is None,
        text_result(Err::<u64, String>(text)) == Err::<u64, Seq<char>>(text@),
{
}

/// A result keeps its value.
pub proof fn law_results_are_kept<T>(value: T, text: String)
    ensures
        text_result(Ok::<T, String>(value)) == Ok::<T, Seq<char>>(value),
        text_result(Err::<T, String>(text)) == Err::<T, Seq<char>>(text@),
{
}

} // verus!
