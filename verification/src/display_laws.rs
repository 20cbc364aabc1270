//! What a displayed book shows: every level, on its own line, next to that of the other side.

use vstd::prelude::*;
#[allow(unused_imports)]
use vstd::utf8::{encode_utf8, is_ascii_chars, is_ascii_chars_encode_utf8};

#[allow(unused_imports)]
use crate::display::{
    ascii_orders, book_display, book_lines, cell, index_width, law_columns_are_aligned,
    price_width, quantity_width, wider,
};
use crate::orderbook::{BookView, Order};
#[allow(unused_imports)]
use crate::ranking::{
    best_first_book, is_better, law_best_comes_first, law_ranking_keeps_the_levels,
    lemma_ranked_is_a_permutation, picked, ranked, signed_magnitude,
};
#[allow(unused_imports)]
use crate::text::{decimal, pad_left, repeated};

verus! {

/// A line shows the level of its number on a side that has one, be it the first or the last:
/// the number, the price and the quantity, each in its column.
pub proof fn law_every_level_is_shown(label: Seq<char>, orders: Seq<Order<Seq<char>>>, i: int)
    requires
        0 <= i < orders.len(),
    ensures
        cell(label, orders, i) == label + pad_left(
            decimal((i + 1) as nat),
            ' ',
            decimal(orders.len()).len(),
        ) + ": Price: "@ + pad_left(orders[i].price, ' ', price_width(orders)) + ", Quantity: "@
            + pad_left(orders[i].quantity, ' ', quantity_width(orders)),
{
}

/// A line shows a level of its side that ends with the quantity, and before it the words, the
/// price and the words before the price.
pub proof fn law_price_and_quantity_are_shown(
    label: Seq<char>,
    orders: Seq<Order<Seq<char>>>,
    i: int,
)
    requires
        0 <= i < orders.len(),
    ensures
        ({
            let text = cell(label, orders, i);
            let quantity = orders[i].quantity;
            let column = if quantity.len() < quantity_width(orders) {
                quantity_width(orders) as int
            } else {
                quantity.len() as int
            };
            let front = text.take(text.len() - column);
            &&& text.skip(text.len() - quantity.len()) == quantity
            &&& front.skip(front.len() - ", Quantity: "@.len()) == ", Quantity: "@
            &&& front.take(front.len() - ", Quantity: "@.len()).skip(
                front.len() - ", Quantity: "@.len() - orders[i].price.len(),
            ) == orders[i].price
        }),
{
    let text = cell(label, orders, i);
    let price = orders[i].price;
    let quantity = orders[i].quantity;
    let last = pad_left(quantity, ' ', quantity_width(orders));
    let words = ", Quantity: "@;
    let before = label + pad_left(decimal((i + 1) as nat), ' ', index_width(orders))
        + ": Price: "@;
    let middle = pad_left(price, ' ', price_width(orders));
    assert(text =~= before + middle + words + last);
    let front = text.take(text.len() - last.len());
    assert(front =~= before + middle + words);
    assert(last.skip(last.len() - quantity.len()) =~= quantity);
    assert(text.skip(text.len() - quantity.len()) =~= quantity);
    assert(front.skip(front.len() - words.len()) =~= words);
    let rest = front.take(front.len() - words.len());
    assert(rest =~= before + middle);
    assert(middle.skip(middle.len() - price.len()) =~= price);
    assert(rest.skip(rest.len() - price.len()) =~= price);
}

/// A side is blank on a line for which it has no level, and on no other.
pub proof fn law_only_missing_levels_are_blank(
    label: Seq<char>,
    orders: Seq<Order<Seq<char>>>,
    i: int,
)
    requires
        0 <= i,
        label.len() > 0,
        label[0] != ' ',
    ensures
        i >= orders.len() <==> forall|k: int|
            0 <= k < cell(label, orders, i).len() ==> #[trigger] cell(label, orders, i)[k] == ' ',
{
    if i < orders.len() {
        assert(cell(label, orders, i)[0] == label[0]);
        assert(cell(label, orders, i).len() > 0);
    }
}

/// All lines give a side the same width, with or without a level.
pub proof fn law_lines_are_equally_wide(
    label: Seq<char>,
    orders: Seq<Order<Seq<char>>>,
    i: int,
    j: int,
)
    requires
        0 <= i,
        0 <= j,
        ascii_orders(orders),
    ensures
        cell(label, orders, i).len() == cell(label, orders, j).len(),
{
    law_columns_are_aligned(label, orders, i);
    law_columns_are_aligned(label, orders, j);
}

/// A price column is as wide as the widest price, and no wider.
pub proof fn law_price_column_fits(orders: Seq<Order<Seq<char>>>)
    ensures
        orders.len() == 0 ==> price_width(orders) == 0,
        forall|i: int|
            0 <= i < orders.len() ==> encode_utf8((#[trigger] orders[i]).price).len()
                <= price_width(orders),
        orders.len() > 0 ==> exists|i: int|
            0 <= i < orders.len() && encode_utf8((#[trigger] orders[i]).price).len()
                == price_width(orders),
    decreases orders.len(),
{
    if orders.len() > 0 {
        let front = orders.drop_last();
        let n = orders.len() - 1;
        law_price_column_fits(front);
        assert forall|i: int| 0 <= i < orders.len() implies encode_utf8(
            (#[trigger] orders[i]).price,
        ).len() <= price_width(orders) by {
            if i < n {
                assert(front[i] == orders[i]);
            }
        }
        if encode_utf8(orders[n].price).len() == price_width(orders) {
        } else {
            let k = choose|k: int|
                0 <= k < front.len() && encode_utf8((#[trigger] front[k]).price).len()
                    == price_width(front);
            assert(orders[k] == front[k]);
        }
    }
}

/// A quantity column is as wide as the widest quantity, and no wider.
pub proof fn law_quantity_column_fits(orders: Seq<Order<Seq<char>>>)
    ensures
        orders.len() == 0 ==> quantity_width(orders) == 0,
        forall|i: int|
            0 <= i < orders.len() ==> encode_utf8((#[trigger] orders[i]).quantity).len()
                <= quantity_width(orders),
        orders.len() > 0 ==> exists|i: int|
            0 <= i < orders.len() && encode_utf8((#[trigger] orders[i]).quantity).len()
                == quantity_width(orders),
    decreases orders.len(),
{
    if orders.len() > 0 {
        let front = orders.drop_last();
        let n = orders.len() - 1;
        law_quantity_column_fits(front);
        assert forall|i: int| 0 <= i < orders.len() implies encode_utf8(
            (#[trigger] orders[i]).quantity,
        ).len() <= quantity_width(orders) by {
            if i < n {
                assert(front[i] == orders[i]);
            }
        }
        if encode_utf8(orders[n].quantity).len() == quantity_width(orders) {
        } else {
            let k = choose|k: int|
                0 <= k < front.len() && encode_utf8((#[trigger] front[k]).quantity).len()
                    == quantity_width(front);
            assert(orders[k] == front[k]);
        }
    }
}

/// A displayed book is its heading and one line for each level of the deeper side: the bid on
/// the left, the ask on the right.
pub proof fn law_display_line_by_line(book: BookView<Seq<char>>, rows: nat)
    requires
        rows >= book.bids.len(),
        rows >= book.asks.len(),
        rows == book.bids.len() || rows == book.asks.len(),
    ensures
        book_display(book) == "Order Book for symbol: "@ + book.symbol + "\n"@ + Seq::new(
            rows,
            |i: int|
                cell("Bid "@, book.bids, i) + " | "@ + cell("Ask "@, book.asks, i) + "\n"@,
        ).flatten(),
{
    let lines = Seq::new(
        rows,
        |i: int| cell("Bid "@, book.bids, i) + " | "@ + cell("Ask "@, book.asks, i) + "\n"@,
    );
    lemma_lines(book, lines);
    lines.lemma_flatten_and_flatten_alt_are_equivalent();
}

proof fn lemma_lines(book: BookView<Seq<char>>, lines: Seq<Seq<char>>)
    requires
        forall|i: int|
            0 <= i < lines.len() ==> #[trigger] lines[i] == cell("Bid "@, book.bids, i) + " | "@
                + cell("Ask "@, book.asks, i) + "\n"@,
    ensures
        book_lines(book.bids, book.asks, lines.len()) == lines.flatten_alt(),
    decreases lines.len(),
{
    if lines.len() > 0 {
        let n = lines.len() - 1;
        lemma_lines(book, lines.drop_last());
        assert(lines[n] == cell("Bid "@, book.bids, n) + " | "@ + cell("Ask "@, book.asks, n)
            + "\n"@);
        assert(lines.flatten_alt() =~= lines.drop_last().flatten_alt() + lines[n]);
        assert(book_lines(book.bids, book.asks, lines.len()) =~= lines.flatten_alt());
    }
}

/// A book that is put into order has the levels that it had, each once, bids from the highest
/// key down and asks from the lowest key up; its symbol and its timestamps stay.
pub proof fn law_both_sides_come_best_first<V>(
    book: BookView<V>,
    bid_keys: Seq<u64>,
    ask_keys: Seq<u64>,
)
    requires
        book.bids.len() == bid_keys.len(),
        book.asks.len() == ask_keys.len(),
    ensures
        ({
            let sorted = best_first_book(book, bid_keys, ask_keys);
            let bid_places = ranked(bid_keys, true);
            let ask_places = ranked(ask_keys, false);
            &&& sorted.symbol == book.symbol
            &&& sorted.remote_timestamp == book.remote_timestamp
            &&& sorted.argus_timestamp == book.argus_timestamp
            &&& sorted.bids.len() == book.bids.len()
            &&& sorted.asks.len() == book.asks.len()
            &&& sorted.bids.to_multiset() == book.bids.to_multiset()
            &&& sorted.asks.to_multiset() == book.asks.to_multiset()
            &&& bid_places.len() == bid_keys.len() && bid_places.no_duplicates()
            &&& ask_places.len() == ask_keys.len() && ask_places.no_duplicates()
            &&& forall|i: int|
                0 <= i < bid_keys.len() ==> 0 <= #[trigger] bid_places[i] < bid_keys.len()
                    && sorted.bids[i] == book.bids[bid_places[i]]
            &&& forall|i: int|
                0 <= i < ask_keys.len() ==> 0 <= #[trigger] ask_places[i] < ask_keys.len()
                    && sorted.asks[i] == book.asks[ask_places[i]]
            &&& forall|i: int, j: int|
                0 <= i < j < bid_keys.len() ==> bid_keys[#[trigger] bid_places[i]]
                    >= bid_keys[#[trigger] bid_places[j]]
            &&& forall|i: int, j: int|
                0 <= i < j < ask_keys.len() ==> ask_keys[#[trigger] ask_places[i]]
                    <= ask_keys[#[trigger] ask_places[j]]
        }),
{
    let bid_places = ranked(bid_keys, true);
    let ask_places = ranked(ask_keys, false);
    law_ranking_keeps_the_levels(book.bids, bid_keys, true);
    law_ranking_keeps_the_levels(book.asks, ask_keys, false);
    lemma_ranked_is_a_permutation(bid_keys, true);
    lemma_ranked_is_a_permutation(ask_keys, false);
    assert forall|i: int, j: int| 0 <= i < j < bid_keys.len() implies bid_keys[#[trigger]
    bid_places[i]] >= bid_keys[#[trigger] bid_places[j]] by {
        law_best_comes_first(bid_keys, true, i, j);
    }
    assert forall|i: int, j: int| 0 <= i < j < ask_keys.len() implies ask_keys[#[trigger]
    ask_places[i]] <= ask_keys[#[trigger] ask_places[j]] by {
        law_best_comes_first(ask_keys, false, i, j);
    }
}

/// The order of bit patterns: with the sign bit clear the larger pattern is the larger number,
/// with it set the smaller one; a number with the sign is at most zero, and one without it at
/// least zero.
pub proof fn law_bit_patterns_are_in_order(a: u64, b: u64)
    ensures
        a < 0x8000_0000_0000_0000 && b < 0x8000_0000_0000_0000 ==> (a < b <==> signed_magnitude(a)
            < signed_magnitude(b)),
        a >= 0x8000_0000_0000_0000 && b >= 0x8000_0000_0000_0000 ==> (a < b <==> signed_magnitude(a)
            > signed_magnitude(b)),
        a >= 0x8000_0000_0000_0000 ==> signed_magnitude(a) <= 0,
        a < 0x8000_0000_0000_0000 ==> signed_magnitude(a) >= 0,
        signed_magnitude(0) == 0,
        signed_magnitude(0x8000_0000_0000_0000) == 0,
{
}

} // verus!
