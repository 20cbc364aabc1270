//! The side-by-side view of an order book.

use vstd::prelude::*;
use vstd::string::*;
#[allow(unused_imports)]
use vstd::utf8::{encode_utf8, is_ascii_chars, is_ascii_chars_encode_utf8};

use crate::orderbook::{Order, OrderBook};
#[allow(unused_imports)]
use crate::orderbook::{book_texts, order_texts, BookView};
#[allow(unused_imports)]
use crate::ranking::{best_first_book, law_ranking_keeps_the_levels, picked, ranked};
use crate::text::{decimal_text, push_padded, push_repeated};
#[allow(unused_imports)]
use crate::text::{decimal, lemma_decimal_length_grows, pad_left, repeated};

verus! {

/// The larger of two widths.
pub open spec fn wider(a: nat, b: nat) -> nat {
    if a < b {
        b
    } else {
        a
    }
}

/// The length in bytes of the longest price of `orders`.
pub open spec fn price_width(orders: Seq<Order<Seq<char>>>) -> nat
    decreases orders.len(),
{
    if orders.len() == 0 {
        0
    } else {
        wider(price_width(orders.drop_last()), encode_utf8(orders.last().price).len())
    }
}

/// The length in bytes of the longest quantity of `orders`.
pub open spec fn quantity_width(orders: Seq<Order<Seq<char>>>) -> nat
    decreases orders.len(),
{
    if orders.len() == 0 {
        0
    } else {
        wider(quantity_width(orders.drop_last()), encode_utf8(orders.last().quantity).len())
    }
}

/// The number of digits of the last line number of a side.
pub open spec fn index_width(orders: Seq<Order<Seq<char>>>) -> nat {
    decimal(orders.len()).len()
}

/// One side of line `i`: the level, right-aligned in columns as wide as the side needs, or
/// blanks of the same width where the side has no such level.
pub open spec fn cell(label: Seq<char>, orders: Seq<Order<Seq<char>>>, i: int) -> Seq<char> {
    if i < orders.len() {
        label + pad_left(decimal((i + 1) as nat), ' ', index_width(orders)) + ": Price: "@
            + pad_left(orders[i].price, ' ', price_width(orders)) + ", Quantity: "@ + pad_left(
            orders[i].quantity,
            ' ',
            quantity_width(orders),
        )
    } else {
        repeated(
            ' ',
            label.len() + index_width(orders) + 9 + price_width(orders) + 12 + quantity_width(
                orders,
            ),
        )
    }
}

/// The first `count` lines: bids on the left and asks on the right.
pub open spec fn book_lines(
    bids: Seq<Order<Seq<char>>>,
    asks: Seq<Order<Seq<char>>>,
    count: nat,
) -> Seq<char>
    decreases count,
{
    if count == 0 {
        Seq::empty()
    } else {
        book_lines(bids, asks, (count - 1) as nat) + cell("Bid "@, bids, count - 1) + " | "@ + cell(
            "Ask "@,
            asks,
            count - 1,
        ) + "\n"@
    }
}

/// The printed form of a book: a heading, then one line per level of the deeper side.
pub open spec fn book_display(book: BookView<Seq<char>>) -> Seq<char> {
    "Order Book for symbol: "@ + book.symbol + "\n"@ + book_lines(
        book.bids,
        book.asks,
        wider(book.bids.len(), book.asks.len()),
    )
}

/// The column widths of one side.
struct Columns {
    index: usize,
    price: usize,
    quantity: usize,
}

impl Columns {
    spec fn fits(self, orders: Seq<Order<Seq<char>>>) -> bool {
        &&& self.index == index_width(orders)
        &&& self.price == price_width(orders)
        &&& self.quantity == quantity_width(orders)
    }

    fn of(orders: &Vec<Order<String>>) -> (columns: Self)
        ensures
            columns.fits(order_texts(orders@)),
    {
        let ghost all = order_texts(orders@);
        let mut price: usize = 0;
        let mut quantity: usize = 0;
        let mut i: usize = 0;
        assert(all.take(0) =~= Seq::empty());
        while i < orders.len()
            invariant
                i <= orders@.len(),
                all == order_texts(orders@),
                price == price_width(all.take(i as int)),
                quantity == quantity_width(all.take(i as int)),
            decreases orders@.len() - i,
        {
            let p: usize = orders[i].price.as_str().as_bytes().len();
            let q: usize = orders[i].quantity.as_str().as_bytes().len();
            if price < p {
                price = p;
            }
            if quantity < q {
                quantity = q;
            }
            assert(all.take(i + 1).drop_last() =~= all.take(i as int));
            assert(all.take(i + 1).last() == all[i as int]);
            i += 1;
        }
        assert(all.take(i as int) =~= all);
        let index: usize = decimal_text(orders.len()).as_str().unicode_len();
        Columns { index, price, quantity }
    }
}

/// Appends one side of line `i`.
fn push_cell(
    text: &mut String,
    label: &str,
    orders: &Vec<Order<String>>,
    columns: &Columns,
    i: usize,
)
    requires
        i < usize::MAX,
        columns.fits(order_texts(orders@)),
        label@.len() == 4,
    ensures
        final(text)@ == old(text)@ + cell(label@, order_texts(orders@), i as int),
{
    let ghost start = text@;
    let ghost all = order_texts(orders@);
    if i < orders.len() {
        text.append(label);
        push_padded(text, decimal_text(i + 1).as_str(), ' ', columns.index);
        text.append(": Price: ");
        push_padded(text, orders[i].price.as_str(), ' ', columns.price);
        text.append(", Quantity: ");
        push_padded(text, orders[i].quantity.as_str(), ' ', columns.quantity);
        assert(text@ =~= start + cell(label@, all, i as int));
    } else {
        push_repeated(text, ' ', 4);
        push_repeated(text, ' ', columns.index);
        push_repeated(text, ' ', 9);
        push_repeated(text, ' ', columns.price);
        push_repeated(text, ' ', 12);
        push_repeated(text, ' ', columns.quantity);
        assert(text@ =~= start + cell(label@, all, i as int));
    }
}

/// Writes out a book whose levels are already in order.
fn lay_out(book: &OrderBook<String>) -> (text: String)
    ensures
        text@ == book_display(book_texts(book@)),
{
    let mut text = "Order Book for symbol: ".to_string();
    text.append(book.symbol.as_str());
    text.append("\n");
    let ghost heading = text@;
    let ghost bids = order_texts(book.bids@);
    let ghost asks = order_texts(book.asks@);
    let bid_columns = Columns::of(&book.bids);
    let ask_columns = Columns::of(&book.asks);
    let rows: usize = if book.bids.len() < book.asks.len() {
        book.asks.len()
    } else {
        book.bids.len()
    };
    proof {
        reveal_strlit("Bid ");
        reveal_strlit("Ask ");
    }
    let mut i: usize = 0;
    while i < rows
        invariant
            i <= rows,
            bids == order_texts(book.bids@),
            asks == order_texts(book.asks@),
            bid_columns.fits(bids),
            ask_columns.fits(asks),
            "Bid "@.len() == 4,
            "Ask "@.len() == 4,
            text@ == heading + book_lines(bids, asks, i as nat),
        decreases rows - i,
    {
        push_cell(&mut text, "Bid ", &book.bids, &bid_columns, i);
        text.append(" | ");
        push_cell(&mut text, "Ask ", &book.asks, &ask_columns, i);
        text.append("\n");
        assert(text@ =~= heading + book_lines(bids, asks, (i + 1) as nat));
        i += 1;
    }
    text
}

proof fn lemma_picked_texts(orders: Seq<Order<String>>, keys: Seq<u64>, highest_first: bool)
    requires
        orders.len() == keys.len(),
    ensures
        order_texts(picked(orders, ranked(keys, highest_first))) == picked(
            order_texts(orders),
            ranked(keys, highest_first),
        ),
{
    let places = ranked(keys, highest_first);
    law_ranking_keeps_the_levels(orders, keys, highest_first);
    assert(order_texts(picked(orders, places)) =~= picked(order_texts(orders), places));
}

impl OrderBook<String> {
    /// A formatted side-by-side view of the order book, whose prices and quantities are
    /// already written out.
    ///
    /// Bids are shown on the left and asks on the right, both sorted best-first: bids from
    /// the highest price down, asks from the lowest price up. `bid_keys` and `ask_keys` hold
    /// a key for each level, in the order of the prices. Column widths are computed from the
    /// actual data so the output aligns cleanly regardless of price or quantity magnitude.
    /// There is nothing but the heading if both sides are empty.
    pub fn display_orderbook(self, bid_keys: &Vec<u64>, ask_keys: &Vec<u64>) -> (text: String)
        requires
            self.bids@.len() == bid_keys@.len(),
            self.asks@.len() == ask_keys@.len(),
        ensures
            text@ == book_display(best_first_book(book_texts(self@), bid_keys@, ask_keys@)),
    {
        proof {
            lemma_picked_texts(self.bids@, bid_keys@, true);
            lemma_picked_texts(self.asks@, ask_keys@, false);
        }
        lay_out(&self.best_first(bid_keys, ask_keys))
    }
}

/// The width of one side of a line.
pub open spec fn side_width(label: Seq<char>, orders: Seq<Order<Seq<char>>>) -> nat {
    label.len() + index_width(orders) + 9 + price_width(orders) + 12 + quantity_width(orders)
}

/// Whether all prices and quantities of a side are ASCII texts.
pub open spec fn ascii_orders(orders: Seq<Order<Seq<char>>>) -> bool {
    forall|i: int|
        0 <= i < orders.len() ==> {
            &&& is_ascii_chars((#[trigger] orders[i]).price)
            &&& is_ascii_chars(orders[i].quantity)
        }
}

proof fn lemma_widths_bound(orders: Seq<Order<Seq<char>>>, i: int)
    requires
        0 <= i < orders.len(),
    ensures
        encode_utf8(orders[i].price).len() <= price_width(orders),
        encode_utf8(orders[i].quantity).len() <= quantity_width(orders),
    decreases orders.len(),
{
    if i < orders.len() - 1 {
        lemma_widths_bound(orders.drop_last(), i);
    }
}

/// The columns are aligned: every line gives a side the same width, whether the side has a
/// level there or not. Numbers are written in ASCII, for which bytes and characters agree.
pub proof fn law_columns_are_aligned(label: Seq<char>, orders: Seq<Order<Seq<char>>>, i: int)
    requires
        0 <= i,
        ascii_orders(orders),
    ensures
        cell(label, orders, i).len() == side_width(label, orders),
{
    if i < orders.len() {
        lemma_widths_bound(orders, i);
        is_ascii_chars_encode_utf8(orders[i].price);
        is_ascii_chars_encode_utf8(orders[i].quantity);
        lemma_decimal_length_grows((i + 1) as nat, orders.len());
        reveal_strlit(": Price: ");
        reveal_strlit(", Quantity: ");
    }
}

/// A book without levels is displayed as its heading.
pub proof fn law_empty_book_is_its_heading(book: BookView<Seq<char>>)
    requires
        book.bids.len() == 0,
        book.asks.len() == 0,
    ensures
        book_display(best_first_book(book, Seq::empty(), Seq::empty()))
            == "Order Book for symbol: "@ + book.symbol + "\n"@,
{
    let heading = "Order Book for symbol: "@ + book.symbol + "\n"@;
    law_ranking_keeps_the_levels(book.bids, Seq::empty(), true);
    law_ranking_keeps_the_levels(book.asks, Seq::empty(), false);
    assert(heading + Seq::<char>::empty() =~= heading);
}

} // verus!
