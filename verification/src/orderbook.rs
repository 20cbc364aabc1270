//! Order book snapshots: reading them out of packets.

use vstd::prelude::*;
use vstd::string::*;
#[allow(unused_imports)]
use vstd::utf8::{
    decode_utf8, decode_utf8_encode_utf8, encode_utf8_decode_utf8, is_char_boundary,
    is_char_boundary_iff_not_is_continuation_byte, is_char_boundary_start_end_of_seq, valid_utf8,
    valid_utf8_split,
};

use crate::packet::{wrong_byte_text, ProtocolFns, BOOK_CLOSE};
#[allow(unused_imports)]
use crate::packet::wrong_byte;
use crate::text::{parse_u64, utf8_text};
#[allow(unused_imports)]
use crate::text::{spelled_number, texts};

verus! {

/// The number of levels that a snapshot has where nothing else is asked for.
pub const DEFAULT_DEPTH: usize = 10;

/// The number of levels that is asked for.
pub open spec fn wanted_depth(depth: Option<usize>) -> nat {
    match depth {
        Some(depth) => depth as nat,
        None => DEFAULT_DEPTH as nat,
    }
}

/// One level of an order book.
#[derive(Debug, Clone)]
pub struct Order<V> {
    pub price: V,
    pub quantity: V,
}

/// A snapshot of an order book.
#[derive(Debug, Clone)]
pub struct OrderBook<V> {
    pub symbol: String,
    pub bids: Vec<Order<V>>,
    pub asks: Vec<Order<V>>,
    pub remote_timestamp: V,
    pub argus_timestamp: V,
}

/// What an order book packet holds: the symbol and the values behind it, in order.
#[derive(Debug, Clone)]
pub struct Protocol2IR<V> {
    pub symbol: String,
    pub values: Vec<V>,
}

/// An order book as a mathematical value.
pub ghost struct BookView<V> {
    pub symbol: Seq<char>,
    pub bids: Seq<Order<V>>,
    pub asks: Seq<Order<V>>,
    pub remote_timestamp: V,
    pub argus_timestamp: V,
}

impl<V> View for OrderBook<V> {
    type V = BookView<V>;

    open spec fn view(&self) -> BookView<V> {
        BookView {
            symbol: self.symbol@,
            bids: self.bids@,
            asks: self.asks@,
            remote_timestamp: self.remote_timestamp,
            argus_timestamp: self.argus_timestamp,
        }
    }
}

/// The bytes between the header and the closing byte of a packet.
pub open spec fn packet_content(bytes: Seq<u8>) -> Seq<u8> {
    bytes.subrange(5, bytes.len() - 1)
}

/// The length of the symbol in bytes, as the first four bytes of the content spell it.
pub open spec fn symbol_length(bytes: Seq<u8>) -> Option<nat> {
    spelled_number(decode_utf8(packet_content(bytes).take(4)))
}

/// Whether an order book packet can be taken apart: its content is text and starts with a
/// symbol length of four bytes, one more byte, and a symbol of that length.
pub open spec fn readable_book_packet(bytes: Seq<u8>) -> bool {
    let content = packet_content(bytes);
    &&& bytes.len() >= 11
    &&& bytes.last() == BOOK_CLOSE
    &&& valid_utf8(content)
    &&& is_char_boundary(content, 4)
    &&& is_char_boundary(content, 5)
    &&& symbol_length(bytes) matches Some(n)
    &&& 5 + n <= content.len()
    &&& is_char_boundary(content, 5 + n as int)
}

/// The symbol of an order book packet.
pub open spec fn packet_symbol(bytes: Seq<u8>) -> Seq<char> {
    decode_utf8(packet_content(bytes).subrange(5, 5 + symbol_length(bytes)->0 as int))
}

/// The text behind the symbol of an order book packet.
pub open spec fn packet_body(bytes: Seq<u8>) -> Seq<char> {
    decode_utf8(packet_content(bytes).skip(5 + symbol_length(bytes)->0 as int))
}

/// The pieces between the commas of `body`; nothing stands behind a comma at the end.
pub open spec fn comma_separated(body: Seq<char>) -> Seq<Seq<char>>
    decreases body.len(),
{
    if body.len() == 0 {
        Seq::empty()
    } else if body.contains(',') {
        proof {
            body.index_of_first_ensures(',');
        }
        let comma = body.index_of_first(',')->0;
        seq![body.take(comma)] + comma_separated(body.skip(comma + 1))
    } else {
        seq![body]
    }
}

/// The values of an order book packet.
pub open spec fn packet_values(bytes: Seq<u8>) -> Seq<Seq<char>> {
    comma_separated(packet_body(bytes))
}

/// Whether `count` values are enough for a book of `depth` levels: two timestamps, and
/// a price and a quantity per level in each half of the rest.
pub open spec fn fills_book(count: nat, depth: nat) -> bool {
    count >= 2 && (count - 2) / 2 >= 2 * depth
}

/// The first `depth` levels of `values`, price before quantity.
pub open spec fn levels<V>(values: Seq<V>, depth: nat) -> Seq<Order<V>> {
    Seq::new(depth, |i: int| Order { price: values[2 * i], quantity: values[2 * i + 1] })
}

/// The book that `values` make up: bids in the first half and asks in the second half of
/// what stands before the last two values, which are the timestamps.
pub open spec fn book_of<V>(symbol: Seq<char>, values: Seq<V>, depth: nat) -> BookView<V> {
    let count = values.len() as int;
    BookView {
        symbol,
        bids: levels(values, depth),
        asks: levels(values.skip((count - 2) / 2), depth),
        remote_timestamp: values[count - 2],
        argus_timestamp: values[count - 1],
    }
}

/// The texts of a sequence of levels.
pub open spec fn order_texts(orders: Seq<Order<String>>) -> Seq<Order<Seq<char>>> {
    orders.map_values(|o: Order<String>| Order { price: o.price@, quantity: o.quantity@ })
}

/// The texts of a book of strings.
pub open spec fn book_texts(book: BookView<String>) -> BookView<Seq<char>> {
    BookView {
        symbol: book.symbol,
        bids: order_texts(book.bids),
        asks: order_texts(book.asks),
        remote_timestamp: book.remote_timestamp@,
        argus_timestamp: book.argus_timestamp@,
    }
}

pub(crate) proof fn lemma_comma_separated_step(body: Seq<char>, i: int)
    requires
        0 <= i < body.len(),
        body[i] == ',',
        forall|j: int| 0 <= j < i ==> body[j] != ',',
    ensures
        comma_separated(body) == seq![body.take(i)] + comma_separated(body.skip(i + 1)),
{
    body.index_of_first_ensures(',');
    assert(body.contains(','));
    let k = body.index_of_first(',')->0;
    assert(k == i) by {
        if k < i {
            assert(body[k] != ',');
        }
    }
}

pub(crate) proof fn lemma_comma_separated_last(body: Seq<char>)
    requires
        body.len() > 0,
        !body.contains(','),
    ensures
        comma_separated(body) == seq![body],
{
    body.index_of_first_ensures(',');
}

/// Splits `body` at its commas.
fn split_at_commas(body: &str) -> (values: Vec<String>)
    ensures
        texts(values@) == comma_separated(body@),
{
    let mut values: Vec<String> = Vec::new();
    let mut working = String::new();
    let ghost mut start: int = 0;
    assert(body@.skip(0) =~= body@);
    assert(texts(values@) + comma_separated(body@.skip(0)) =~= comma_separated(body@));
    for c in chars: body.chars()
        invariant
            chars.seq() == body@,
            0 <= start <= chars.index(),
            working@ == body@.subrange(start, chars.index() as int),
            forall|j: int| start <= j < chars.index() ==> body@[j] != ',',
            texts(values@) + comma_separated(body@.skip(start)) == comma_separated(body@),
    {
        let ghost i = chars.index() as int;
        if c == ',' {
            let mut value = String::new();
            std::mem::swap(&mut value, &mut working);
            proof {
                let rest = body@.skip(start);
                lemma_comma_separated_step(rest, i - start);
                assert(rest.take(i - start) =~= value@);
                assert(rest.skip(i - start + 1) =~= body@.skip(i + 1));
                assert(texts(values@.push(value)) =~= texts(values@).push(value@));
                assert(texts(values@) + (seq![value@] + comma_separated(body@.skip(i + 1)))
                    =~= texts(values@.push(value)) + comma_separated(body@.skip(i + 1)));
                start = i + 1;
            }
            values.push(value);
            assert(working@ =~= body@.subrange(start, i + 1));
        } else {
            working.push(c);
            assert(working@ =~= body@.subrange(start, i + 1));
        }
    }
    if !working.as_str().is_empty() {
        proof {
            let rest = body@.skip(start);
            assert(rest =~= working@);
            lemma_comma_separated_last(rest);
            assert(texts(values@.push(working)) =~= texts(values@) + seq![working@]);
        }
        values.push(working);
    } else {
        assert(body@.skip(start) =~= Seq::empty());
        assert(texts(values@) + comma_separated(body@.skip(start)) =~= texts(values@));
    }
    values
}

/// Pairs up `values`: price, quantity, price, quantity, and so on.
fn orders_of<V>(values: Vec<V>) -> (orders: Vec<Order<V>>)
    requires
        values@.len() % 2 == 0,
    ensures
        orders@ == levels(values@, values@.len() / 2),
{
    let ghost all = values@;
    let mut values = values;
    let mut backwards: Vec<Order<V>> = Vec::new();
    while values.len() > 0
        invariant
            all.len() % 2 == 0,
            values@.len() % 2 == 0,
            values@.len() + 2 * backwards@.len() == all.len(),
            values@ == all.take(values@.len() as int),
            forall|k: int|
                0 <= k < backwards@.len() ==> #[trigger] backwards@[k] == levels(
                    all,
                    all.len() / 2,
                )[all.len() / 2 - 1 - k],
        decreases values@.len(),
    {
        let ghost count = values@.len() as int;
        let quantity = values.pop();
        let price = values.pop();
        if let (Some(price), Some(quantity)) = (price, quantity) {
            let ghost level = (count - 2) / 2;
            assert(2 * level == count - 2);
            backwards.push(Order { price, quantity });
        }
    }
    let mut orders: Vec<Order<V>> = Vec::new();
    while backwards.len() > 0
        invariant
            orders@.len() + backwards@.len() == all.len() / 2,
            orders@ == levels(all, all.len() / 2).take(orders@.len() as int),
            forall|k: int|
                0 <= k < backwards@.len() ==> #[trigger] backwards@[k] == levels(
                    all,
                    all.len() / 2,
                )[all.len() / 2 - 1 - k],
        decreases backwards@.len(),
    {
        let ghost at = orders@.len() as int;
        if let Some(order) = backwards.pop() {
            assert(order == levels(all, all.len() / 2)[at]);
            orders.push(order);
            assert(orders@ =~= levels(all, all.len() / 2).take(at + 1));
        }
    }
    assert(orders@ =~= levels(all, all.len() / 2));
    orders
}

impl<V> Protocol2IR<V> {
    /// Whether the values are enough for a book of `depth` levels, [`DEFAULT_DEPTH`] where it
    /// is `None`.
    pub fn fills_book(&self, depth: Option<usize>) -> (enough: bool)
        ensures
            enough == fills_book(self.values@.len(), wanted_depth(depth)),
    {
        let depth: usize = depth.unwrap_or(DEFAULT_DEPTH);
        let count: usize = self.values.len();
        count >= 2 && (count - 2) / 2 / 2 >= depth
    }
}

impl ProtocolFns {
    /// Whether [`ProtocolFns::protocol_2_decoder`] can take the packet apart.
    pub fn is_readable_book_packet(message_bytes: &[u8]) -> (readable: bool)
        ensures
            readable == readable_book_packet(message_bytes@),
    {
        let len: usize = message_bytes.len();
        if len < 11 || message_bytes[len - 1] != BOOK_CLOSE {
            return false;
        }
        let content = match utf8_text(&message_bytes[5..len - 1]) {
            Some(content) => content,
            None => return false,
        };
        let text = content.as_str();
        proof {
            decode_utf8_encode_utf8(packet_content(message_bytes@));
        }
        if !text.is_char_boundary(4) || !text.is_char_boundary(5) {
            return false;
        }
        let (digits, _) = text.split_at(4);
        proof {
            encode_utf8_decode_utf8(digits@);
            assert(digits.spec_bytes() =~= packet_content(message_bytes@).take(4));
        }
        match parse_u64(digits) {
            Ok(n) => n <= (len - 11) as u64 && text.is_char_boundary(5 + n as usize),
            Err(_) => false,
        }
    }

    /// Decodes an order book packet into the symbol and the values that it holds.
    ///
    /// Strips the framing bytes, and splits what stands behind the symbol at its commas.
    /// A packet that does not end with `L` is an error; the content of one that does has
    /// to be text and to start with a symbol length and a symbol of that length. The
    /// values are given as they are spelled.
    pub fn protocol_2_decoder(message_bytes: &[u8]) -> (ir: Result<Protocol2IR<String>, String>)
        requires
            message_bytes@.len() > 0,
            message_bytes@.last() == BOOK_CLOSE ==> readable_book_packet(message_bytes@),
        ensures
            match ir {
                Ok(ir) => {
                    &&& message_bytes@.last() == BOOK_CLOSE
                    &&& ir.symbol@ == packet_symbol(message_bytes@)
                    &&& texts(ir.values@) == packet_values(message_bytes@)
                },
                Err(message) => {
                    &&& message_bytes@.last() != BOOK_CLOSE
                    &&& message@ == wrong_byte(
                        "Invalid packet for protocol 2: expected last byte to be 0x4C"@,
                        message_bytes@.last(),
                    )
                },
            },
    {
        let len: usize = message_bytes.len();
        if message_bytes[len - 1] != BOOK_CLOSE {
            return Err(
                wrong_byte_text(
                    "Invalid packet for protocol 2: expected last byte to be 0x4C",
                    message_bytes[len - 1],
                ),
            );
        }
        let content = utf8_text(&message_bytes[5..len - 1]).unwrap();
        let text = content.as_str();
        let ghost inner = packet_content(message_bytes@);
        proof {
            decode_utf8_encode_utf8(inner);
        }
        let (digits, _) = text.split_at(4);
        proof {
            encode_utf8_decode_utf8(digits@);
            assert(digits.spec_bytes() =~= inner.take(4));
        }
        let symbol_len: usize = parse_u64(digits).unwrap() as usize;
        let (_, rest) = text.split_at(5);
        proof {
            lemma_boundary_in_rest(inner, 5, 5 + symbol_len as int);
            encode_utf8_decode_utf8(rest@);
            assert(rest.spec_bytes() =~= inner.skip(5));
        }
        let (symbol, body) = rest.split_at(symbol_len);
        proof {
            encode_utf8_decode_utf8(symbol@);
            encode_utf8_decode_utf8(body@);
            assert(symbol.spec_bytes() =~= inner.subrange(5, 5 + symbol_len));
            assert(body.spec_bytes() =~= inner.skip(5 + symbol_len));
        }
        let symbol = symbol.to_string();
        let values = split_at_commas(body);
        Ok(Protocol2IR { symbol, values })
    }

    /// Lays the values of a packet out as an order book.
    ///
    /// The values are (price, quantity) pairs, bids in the first half and asks in the
    /// second, and behind them the exchange timestamp and the server timestamp. `depth`
    /// levels are taken from each side, [`DEFAULT_DEPTH`] where it is `None`.
    pub fn values_to_orderbook<V>(ir: Protocol2IR<V>, depth: Option<usize>) -> (book: OrderBook<V>)
        requires
            fills_book(ir.values@.len(), wanted_depth(depth)),
        ensures
            book@ == book_of(ir.symbol@, ir.values@, wanted_depth(depth)),
    {
        let ghost all = ir.values@;
        let depth: usize = depth.unwrap_or(DEFAULT_DEPTH);
        let mut values = ir.values;
        let count: usize = values.len();
        let split: usize = (count - 2) / 2;
        let argus_timestamp = values.pop();
        let remote_timestamp = values.pop();
        let mut ask_values = values.split_off(split);
        assert(values@ =~= all.take(split as int));
        assert(ask_values@ =~= all.subrange(split as int, count - 2));
        values.truncate(2 * depth);
        ask_values.truncate(2 * depth);
        let bids = orders_of(values);
        let asks = orders_of(ask_values);
        assert(bids@ =~= levels(all, depth as nat));
        assert(asks@ =~= levels(all.skip(split as int), depth as nat));
        OrderBook {
            symbol: ir.symbol,
            bids,
            asks,
            remote_timestamp: remote_timestamp.unwrap(),
            argus_timestamp: argus_timestamp.unwrap(),
        }
    }

    /// Decodes an order book packet directly into an [`OrderBook`], with the values as they
    /// are spelled.
    ///
    /// The packet has to be readable, and to hold two values per level and side besides
    /// the timestamps.
    pub fn bytes_to_orderbook(message_bytes: &[u8], depth: Option<usize>) -> (book: OrderBook<
        String,
    >)
        requires
            readable_book_packet(message_bytes@),
            fills_book(packet_values(message_bytes@).len(), wanted_depth(depth)),
        ensures
            book_texts(book@) == book_of(
                packet_symbol(message_bytes@),
                packet_values(message_bytes@),
                wanted_depth(depth),
            ),
    {
        let ir = ProtocolFns::protocol_2_decoder(message_bytes).unwrap();
        let ghost values = ir.values@;
        let ghost levels_wanted = wanted_depth(depth);
        let book = ProtocolFns::values_to_orderbook(ir, depth);
        proof {
            let split = (values.len() - 2) / 2;
            assert(order_texts(levels(values, levels_wanted)) =~= levels(
                texts(values),
                levels_wanted,
            ));
            assert(order_texts(levels(values.skip(split), levels_wanted)) =~= levels(
                texts(values).skip(split),
                levels_wanted,
            ));
        }
        book
    }
}

/// A character boundary behind another one is a boundary of what stands behind the first.
pub(crate) proof fn lemma_boundary_in_rest(bytes: Seq<u8>, first: int, second: int)
    requires
        valid_utf8(bytes),
        0 <= first <= second <= bytes.len(),
        is_char_boundary(bytes, first),
        is_char_boundary(bytes, second),
    ensures
        valid_utf8(bytes.skip(first)),
        is_char_boundary(bytes.skip(first), second - first),
{
    let rest = bytes.skip(first);
    assert(rest =~= bytes.subrange(first, bytes.len() as int));
    valid_utf8_split(bytes, first);
    if second < bytes.len() {
        is_char_boundary_iff_not_is_continuation_byte(bytes, second);
        is_char_boundary_iff_not_is_continuation_byte(rest, second - first);
    } else {
        is_char_boundary_start_end_of_seq(rest);
    }
}

} // verus!
