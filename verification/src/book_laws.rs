//! What holds of order book packets: a packet in the documented layout is recognised, and
//! comes apart into what it was made of.

use vstd::prelude::*;
#[allow(unused_imports)]
use vstd::utf8::{
    decode_utf8, decode_utf8_encode_utf8, encode_utf8, encode_utf8_decode_utf8, encode_utf8_valid_utf8, is_ascii_chars,
    is_ascii_chars_encode_utf8, is_char_boundary, is_char_boundary_iff_not_is_continuation_byte,
    is_char_boundary_start_end_of_seq, is_continuation_byte, valid_utf8, valid_utf8_concat,
    valid_utf8_split,
};

#[allow(unused_imports)]
use crate::orderbook::{
    book_of, book_texts, comma_separated, fills_book, lemma_boundary_in_rest,
    lemma_comma_separated_last, lemma_comma_separated_step, levels, packet_body, packet_content, packet_symbol, packet_values, readable_book_packet,
    symbol_length, wanted_depth, BookView, Order, OrderBook,
};
#[allow(unused_imports)]
use crate::packet::{analysis, bad_length_byte, declared_length, ProtocolKind, BOOK_CLOSE, PIPE};
#[allow(unused_imports)]
use crate::laws::{
    exact_packet, four_digits, lemma_digits_sum, lemma_encode_concat, lemma_four_digits,
};
#[allow(unused_imports)]
use crate::reader::{completed, PacketView};
#[allow(unused_imports)]
use crate::text::{
    all_digits, decimal, digits_value, is_digit, pad_left, spelled_number, without_plus,
};

verus! {

/// Texts with commas between them.
pub open spec fn comma_joined(values: Seq<Seq<char>>) -> Seq<char>
    decreases values.len(),
{
    if values.len() == 0 {
        Seq::empty()
    } else if values.len() == 1 {
        values[0]
    } else {
        values[0] + seq![','] + comma_joined(values.drop_first())
    }
}

/// What stands between the header and the closing byte of an order book packet: the number
/// of bytes of the symbol in four digits, `|`, the symbol, and the values with commas
/// between them.
pub open spec fn book_content(symbol: Seq<char>, values: Seq<Seq<char>>) -> Seq<char> {
    pad_left(decimal(encode_utf8(symbol).len()), '0', 4) + seq!['|'] + symbol + comma_joined(
        values,
    )
}

/// An order book packet with the given header.
pub open spec fn book_packet(
    header: Seq<u8>,
    symbol: Seq<char>,
    values: Seq<Seq<char>>,
) -> Seq<u8> {
    header + encode_utf8(book_content(symbol, values)) + seq![BOOK_CLOSE]
}

/// Whether texts can stand between commas: they hold no comma, and the last one is not
/// empty.
pub open spec fn are_values(values: Seq<Seq<char>>) -> bool {
    &&& forall|i: int| 0 <= i < values.len() ==> !(#[trigger] values[i]).contains(',')
    &&& values.len() > 0 ==> values.last().len() > 0
}

/// Splitting at commas undoes joining with commas.
pub proof fn law_splitting_undoes_joining(values: Seq<Seq<char>>)
    requires
        are_values(values),
    ensures
        comma_separated(comma_joined(values)) == values,
    decreases values.len(),
{
    let body = comma_joined(values);
    if values.len() == 0 {
        assert(values =~= Seq::empty());
    } else if values.len() == 1 {
        lemma_comma_separated_last(body);
        assert(seq![body] =~= values);
    } else {
        let rest = values.drop_first();
        let i = values[0].len() as int;
        assert(rest.last() == values.last());
        assert forall|j: int| 0 <= j < rest.len() implies !(#[trigger] rest[j]).contains(
            ',',
        ) by {
            assert(rest[j] == values[j + 1]);
        }
        law_splitting_undoes_joining(rest);
        assert(body[i] == ',');
        assert forall|j: int| 0 <= j < i implies body[j] != ',' by {
            assert(body[j] == values[0][j]);
            assert(!values[0].contains(','));
        }
        lemma_comma_separated_step(body, i);
        assert(body.take(i) =~= values[0]);
        assert(body.skip(i + 1) =~= comma_joined(rest));
        assert(seq![values[0]] + rest =~= values);
    }
}

/// The place between two texts is a character boundary of their encoding.
proof fn lemma_boundary_between(first: Seq<u8>, second: Seq<u8>)
    requires
        valid_utf8(first),
        valid_utf8(second),
    ensures
        valid_utf8(first + second),
        is_char_boundary(first + second, first.len() as int),
{
    let both = first + second;
    valid_utf8_concat(first, second);
    if second.len() == 0 {
        is_char_boundary_start_end_of_seq(both);
    } else {
        is_char_boundary_start_end_of_seq(second);
        is_char_boundary_iff_not_is_continuation_byte(second, 0);
        is_char_boundary_iff_not_is_continuation_byte(both, first.len() as int);
        assert(both[first.len() as int] == second[0]);
    }
}

proof fn lemma_four_digits_spell(n: nat)
    requires
        n <= 9999,
    ensures
        spelled_number(four_digits(n)) == Some(n),
        is_ascii_chars(four_digits(n)),
        forall|i: int| 0 <= i < 4 ==> is_digit(#[trigger] four_digits(n)[i]),
{
    let digits = four_digits(n);
    assert forall|i: int| 0 <= i < 4 implies is_digit(#[trigger] digits[i]) by {
        if i == 0 {
        } else if i == 1 {
        } else if i == 2 {
        } else {
        }
    }
    assert(is_digit(digits[0]));
    assert(without_plus(digits) == digits);
    assert(all_digits(digits));
    reveal_with_fuel(digits_value, 5);
    let three = digits.drop_last();
    let two = three.drop_last();
    let one = two.drop_last();
    assert(three.last() == digits[2]);
    assert(two.last() == digits[1]);
    assert(one.last() == digits[0]);
    lemma_digits_sum(n);
}

/// A packet in the documented layout comes apart into the symbol and the values that it was
/// made of; and if its header is that of a packet of at most this length, it is recognised
/// as an order book packet.
pub proof fn law_book_packet_is_read_back(
    header: Seq<u8>,
    symbol: Seq<char>,
    values: Seq<Seq<char>>,
)
    requires
        header.len() == 5,
        encode_utf8(symbol).len() <= 9999,
        are_values(values),
    ensures
        ({
            let packet = book_packet(header, symbol, values);
            &&& readable_book_packet(packet)
            &&& packet_symbol(packet) == symbol
            &&& packet_values(packet) == values
            &&& header[0] == 0x7E && bad_length_byte(header) is None && declared_length(header)
                <= packet.len() - 5 ==> analysis(packet) == Ok::<ProtocolKind, Seq<char>>(
                ProtocolKind::Protocol2,
            )
        }),
{
    let n = encode_utf8(symbol).len();
    let packet = book_packet(header, symbol, values);
    let digits = four_digits(n);
    let joined = comma_joined(values);
    let head = encode_utf8(digits);
    let pipe = encode_utf8(seq!['|']);
    let name = encode_utf8(symbol);
    let body = encode_utf8(joined);
    let content = packet_content(packet);
    lemma_four_digits(n);
    lemma_four_digits_spell(n);
    law_splitting_undoes_joining(values);
    is_ascii_chars_encode_utf8(digits);
    is_ascii_chars_encode_utf8(seq!['|']);
    assert(content == head + pipe + name + body) by {
        assert(content =~= encode_utf8(book_content(symbol, values)));
        lemma_encode_concat(digits + seq!['|'] + symbol, joined);
        lemma_encode_concat(digits + seq!['|'], symbol);
        lemma_encode_concat(digits, seq!['|']);
    }
    encode_utf8_valid_utf8(digits);
    encode_utf8_valid_utf8(seq!['|']);
    encode_utf8_valid_utf8(symbol);
    encode_utf8_valid_utf8(joined);
    lemma_boundary_between(name, body);
    lemma_boundary_between(pipe, name + body);
    lemma_boundary_between(head, pipe + (name + body));
    assert(content =~= head + (pipe + (name + body)));
    lemma_boundary_between(head, pipe);
    lemma_boundary_between(head + pipe, name + body);
    assert(content =~= (head + pipe) + (name + body));
    lemma_boundary_between(head + pipe, name);
    lemma_boundary_between(head + pipe + name, body);
    encode_utf8_decode_utf8(digits);
    encode_utf8_decode_utf8(symbol);
    encode_utf8_decode_utf8(joined);
    assert(content.take(4) =~= head);
    assert(symbol_length(packet) == Some(n));
    assert(content.subrange(5, 5 + n as int) =~= name);
    assert(content.skip(5 + n as int) =~= body);
    assert(packet[5] == head[0]);
    assert(is_digit(digits[0]));
    assert(packet[9] == content[4]);
    assert(content[4] == pipe[0]);
}

/// An order book packet whose header gives the number of bytes behind it is recognised with
/// its last byte, and not before, even if the symbol holds a byte that could close it.
pub proof fn law_book_packet_is_exact(header: Seq<u8>, symbol: Seq<char>, values: Seq<Seq<char>>)
    requires
        header.len() == 5,
        header[0] == 0x7E,
        bad_length_byte(header) is None,
        declared_length(header) == book_packet(header, symbol, values).len() - 5,
        encode_utf8(symbol).len() <= 9999,
        are_values(values),
    ensures
        exact_packet(
            PacketView {
                bytes: book_packet(header, symbol, values),
                kind: ProtocolKind::Protocol2,
            },
        ),
{
    let packet = book_packet(header, symbol, values);
    law_book_packet_is_read_back(header, symbol, values);
    assert forall|k: int| 0 <= k < packet.len() implies completed(
        #[trigger] packet.take(k),
    ) is None by {
        let part = packet.take(k);
        if k >= 6 {
            assert(declared_length(part) == declared_length(header));
        }
    }
}

/// The values of levels, price before quantity.
pub open spec fn level_values<V>(orders: Seq<Order<V>>) -> Seq<V> {
    Seq::new(
        2 * orders.len(),
        |i: int|
            if i % 2 == 0 {
                orders[i / 2].price
            } else {
                orders[i / 2].quantity
            },
    )
}

/// Values in the documented layout, as many bids as asks and then the exchange timestamp and
/// the server timestamp, make the book of their first `depth` levels.
pub proof fn law_book_has_the_documented_layout<V>(
    symbol: Seq<char>,
    bids: Seq<Order<V>>,
    asks: Seq<Order<V>>,
    remote_timestamp: V,
    argus_timestamp: V,
    depth: nat,
)
    requires
        bids.len() == asks.len(),
        depth <= bids.len(),
    ensures
        ({
            let values = level_values(bids) + level_values(asks) + seq![
                remote_timestamp,
                argus_timestamp,
            ];
            &&& fills_book(values.len(), depth)
            &&& book_of(symbol, values, depth) == (BookView {
                symbol,
                bids: bids.take(depth as int),
                asks: asks.take(depth as int),
                remote_timestamp,
                argus_timestamp,
            })
        }),
{
    let values = level_values(bids) + level_values(asks) + seq![remote_timestamp, argus_timestamp];
    let half = 2 * bids.len() as int;
    let book = book_of(symbol, values, depth);
    assert((values.len() - 2) / 2 == half);
    assert forall|i: int| 0 <= i < depth implies book.bids[i] == #[trigger] bids[i] by {
        assert(values[2 * i] == level_values(bids)[2 * i]);
        assert(values[2 * i + 1] == level_values(bids)[2 * i + 1]);
        assert((2 * i + 1) / 2 == i);
    }
    assert forall|i: int| 0 <= i < depth implies book.asks[i] == #[trigger] asks[i] by {
        assert(values.skip(half)[2 * i] == level_values(asks)[2 * i]);
        assert(values.skip(half)[2 * i + 1] == level_values(asks)[2 * i + 1]);
        assert((2 * i + 1) / 2 == i);
    }
    assert(book.bids =~= bids.take(depth as int));
    assert(book.asks =~= asks.take(depth as int));
}

/// What the server writes about a book is what the client reads: a packet in the documented
/// layout makes the book of its first `depth` levels.
pub proof fn law_book_survives_the_wire(
    header: Seq<u8>,
    symbol: Seq<char>,
    bids: Seq<Order<Seq<char>>>,
    asks: Seq<Order<Seq<char>>>,
    remote_timestamp: Seq<char>,
    argus_timestamp: Seq<char>,
    depth: nat,
)
    requires
        header.len() == 5,
        encode_utf8(symbol).len() <= 9999,
        bids.len() == asks.len(),
        depth <= bids.len(),
        are_values(
            level_values(bids) + level_values(asks) + seq![remote_timestamp, argus_timestamp],
        ),
    ensures
        ({
            let values = level_values(bids) + level_values(asks) + seq![
                remote_timestamp,
                argus_timestamp,
            ];
            let packet = book_packet(header, symbol, values);
            &&& readable_book_packet(packet)
            &&& fills_book(packet_values(packet).len(), depth)
            &&& book_of(packet_symbol(packet), packet_values(packet), depth) == (BookView {
                symbol,
                bids: bids.take(depth as int),
                asks: asks.take(depth as int),
                remote_timestamp,
                argus_timestamp,
            })
        }),
{
    let values = level_values(bids) + level_values(asks) + seq![remote_timestamp, argus_timestamp];
    law_book_packet_is_read_back(header, symbol, values);
    law_book_has_the_documented_layout(
        symbol,
        bids,
        asks,
        remote_timestamp,
        argus_timestamp,
        depth,
    );
}

/// Joining the pieces with commas gives back what was split, but for a comma at the end; and
/// no piece holds a comma.
pub proof fn law_joining_undoes_splitting(body: Seq<char>)
    ensures
        forall|i: int|
            0 <= i < comma_separated(body).len() ==> !(#[trigger] comma_separated(body)[i]).contains(
                ',',
            ),
        body.len() > 0 && body.last() == ',' ==> comma_joined(comma_separated(body)) + seq![',']
            == body,
        body.len() > 0 && body.last() != ',' ==> comma_joined(comma_separated(body)) == body
            && comma_separated(body).last().len() > 0,
        body.len() == 0 <==> comma_separated(body).len() == 0,
    decreases body.len(),
{
    let pieces = comma_separated(body);
    body.index_of_first_ensures(',');
    if body.len() == 0 {
    } else if body.contains(',') {
        let comma = body.index_of_first(',')->0;
        let first = body.take(comma);
        let rest = body.skip(comma + 1);
        law_joining_undoes_splitting(rest);
        let others = comma_separated(rest);
        assert(pieces == seq![first] + others);
        assert(pieces.drop_first() =~= others);
        assert(!first.contains(','));
        assert forall|i: int| 0 <= i < pieces.len() implies !(#[trigger] pieces[i]).contains(
            ',',
        ) by {
            if i > 0 {
                assert(pieces[i] == others[i - 1]);
            }
        }
        if rest.len() == 0 {
            assert(body =~= first + seq![',']);
            assert(others.len() == 0);
            assert(pieces =~= seq![first]);
        } else {
            assert(rest.last() == body.last());
            assert(pieces.last() == others.last());
            assert(body =~= first + seq![','] + rest);
            assert(comma_joined(pieces) =~= first + seq![','] + comma_joined(others));
            if body.last() == ',' {
                assert(comma_joined(pieces) + seq![','] =~= body);
            }
        }
    } else {
        assert(pieces =~= seq![body]);
        if body.last() == ',' {
            assert(body[body.len() - 1] == ',');
        }
    }
}

/// A packet is taken apart by what its four digits say, whatever symbol and values it holds:
/// any text of four bytes that spells the number of bytes of the symbol will do, and any
/// byte may stand behind it.
pub proof fn law_any_packet_comes_apart(
    header: Seq<u8>,
    head: Seq<char>,
    separator: char,
    symbol: Seq<char>,
    body: Seq<char>,
)
    requires
        header.len() == 5,
        is_ascii_chars(head),
        head.len() == 4,
        is_ascii_chars(seq![separator]),
        spelled_number(head) == Some(encode_utf8(symbol).len()),
    ensures
        ({
            let packet = header + encode_utf8(head + seq![separator] + symbol + body) + seq![
                0x4Cu8,
            ];
            &&& readable_book_packet(packet)
            &&& packet_symbol(packet) == symbol
            &&& packet_body(packet) == body
            &&& packet_values(packet) == comma_separated(body)
        }),
{
    let packet = header + encode_utf8(head + seq![separator] + symbol + body) + seq![0x4Cu8];
    let first = encode_utf8(head);
    let pipe = encode_utf8(seq![separator]);
    let name = encode_utf8(symbol);
    let rest = encode_utf8(body);
    let content = packet_content(packet);
    is_ascii_chars_encode_utf8(head);
    is_ascii_chars_encode_utf8(seq![separator]);
    assert(content == first + pipe + name + rest) by {
        assert(content =~= encode_utf8(head + seq![separator] + symbol + body));
        lemma_encode_concat(head + seq![separator] + symbol, body);
        lemma_encode_concat(head + seq![separator], symbol);
        lemma_encode_concat(head, seq![separator]);
    }
    encode_utf8_valid_utf8(head);
    encode_utf8_valid_utf8(seq![separator]);
    encode_utf8_valid_utf8(symbol);
    encode_utf8_valid_utf8(body);
    lemma_boundary_between(name, rest);
    lemma_boundary_between(pipe, name + rest);
    lemma_boundary_between(first, pipe + (name + rest));
    assert(content =~= first + (pipe + (name + rest)));
    lemma_boundary_between(first, pipe);
    lemma_boundary_between(first + pipe, name + rest);
    assert(content =~= (first + pipe) + (name + rest));
    lemma_boundary_between(first + pipe, name);
    lemma_boundary_between(first + pipe + name, rest);
    encode_utf8_decode_utf8(head);
    encode_utf8_decode_utf8(symbol);
    encode_utf8_decode_utf8(body);
    assert(content.take(4) =~= first);
    assert(content.subrange(5, 5 + name.len() as int) =~= name);
    assert(content.skip(5 + name.len() as int) =~= rest);
}

/// A packet that can be taken apart is made of what it is taken apart into: behind the header
/// four bytes that spell a number, one more byte, a symbol of so many bytes, the values, and
/// `L`.
pub proof fn law_packet_is_made_of_its_parts(bytes: Seq<u8>)
    requires
        readable_book_packet(bytes),
    ensures
        bytes.len() >= 11,
        bytes[bytes.len() - 1] == 0x4C,
        spelled_number(decode_utf8(bytes.subrange(5, 9))) == Some(
            encode_utf8(packet_symbol(bytes)).len(),
        ),
        bytes.subrange(10, bytes.len() - 1) == encode_utf8(packet_symbol(bytes)) + encode_utf8(
            packet_body(bytes),
        ),
        packet_values(bytes) == comma_separated(packet_body(bytes)),
{
    let content = packet_content(bytes);
    let n = symbol_length(bytes)->0 as int;
    assert(content.take(4) =~= bytes.subrange(5, 9));
    let rest = content.skip(5);
    lemma_boundary_in_rest(content, 5, 5 + n);
    valid_utf8_split(rest, n);
    assert(content.subrange(5, 5 + n) =~= rest.subrange(0, n));
    assert(content.skip(5 + n) =~= rest.subrange(n, rest.len() as int));
    decode_utf8_encode_utf8(rest.subrange(0, n));
    decode_utf8_encode_utf8(rest.subrange(n, rest.len() as int));
    assert(bytes.subrange(10, bytes.len() - 1) =~= rest.subrange(0, n) + rest.subrange(
        n,
        rest.len() as int,
    ));
}

/// A book of so many levels takes four values for each level and two more.
pub proof fn law_how_many_values_fill_a_book(count: nat, depth: nat)
    ensures
        fills_book(count, depth) <==> count >= 4 * depth + 2,
{
}

/// Each level of a book has its own two values: bids from the first value on, asks from the
/// middle on, and the timestamps are the last two.
pub proof fn law_each_level_has_its_values<V>(
    symbol: Seq<char>,
    values: Seq<V>,
    depth: nat,
    i: int,
)
    requires
        values.len() >= 4 * depth + 2,
        0 <= i < depth,
    ensures
        ({
            let book = book_of(symbol, values, depth);
            let half = (values.len() - 2) / 2;
            &&& book.symbol == symbol
            &&& book.bids.len() == depth
            &&& book.asks.len() == depth
            &&& book.bids[i].price == values[2 * i]
            &&& book.bids[i].quantity == values[2 * i + 1]
            &&& book.asks[i].price == values[half + 2 * i]
            &&& book.asks[i].quantity == values[half + 2 * i + 1]
            &&& book.remote_timestamp == values[values.len() - 2]
            &&& book.argus_timestamp == values[values.len() - 1]
        }),
{
}

/// Ten levels are read where no number is asked for, and otherwise as many as are.
pub proof fn law_how_many_levels_are_read(depth: usize)
    ensures
        wanted_depth(None) == 10,
        wanted_depth(Some(depth)) == depth,
{
}

/// A book is looked at with all its levels, and each level with its own texts.
pub proof fn law_book_views(book: OrderBook<String>)
    ensures
        book@.symbol == book.symbol@,
        book@.bids == book.bids@,
        book@.asks == book.asks@,
        book@.remote_timestamp == book.remote_timestamp,
        book@.argus_timestamp == book.argus_timestamp,
        book_texts(book@).symbol == book.symbol@,
        book_texts(book@).bids.len() == book.bids@.len(),
        book_texts(book@).asks.len() == book.asks@.len(),
        forall|i: int|
            0 <= i < book.bids@.len() ==> {
                &&& (#[trigger] book_texts(book@).bids[i]).price == book.bids@[i].price@
                &&& book_texts(book@).bids[i].quantity == book.bids@[i].quantity@
            },
        forall|i: int|
            0 <= i < book.asks@.len() ==> {
                &&& (#[trigger] book_texts(book@).asks[i]).price == book.asks@[i].price@
                &&& book_texts(book@).asks[i].quantity == book.asks@[i].quantity@
            },
        book_texts(book@).remote_timestamp == book.remote_timestamp@,
        book_texts(book@).argus_timestamp == book.argus_timestamp@,
{
}

} // verus!
