//! Putting the levels of an order book into order, best price first.

use vstd::prelude::*;
#[allow(unused_imports)]
use vstd::relations::{sorted_by, total_ordering};
#[allow(unused_imports)]
use vstd::seq_lib::{
    lemma_sorted_unique, to_multiset_build, to_multiset_contains, to_multiset_insert,
    to_multiset_len, to_multiset_remove,
};

use crate::orderbook::{Order, OrderBook};
#[allow(unused_imports)]
use crate::orderbook::BookView;

verus! {

/// The sign bit of a 64-bit pattern.
pub const SIGN_BIT: u64 = 0x8000_0000_0000_0000;

/// The number that a bit pattern is if its first bit is a sign and the others a magnitude.
/// The bit patterns of floating-point numbers are in the order of these numbers.
pub open spec fn signed_magnitude(bits: u64) -> int {
    if bits < SIGN_BIT {
        bits as int
    } else {
        SIGN_BIT - bits
    }
}

/// The key of a price that is given by its bit pattern: keys are in the order of prices, and
/// the two zeros have the same key.
pub fn price_key(bits: u64) -> (key: u64)
    ensures
        key == SIGN_BIT + signed_magnitude(bits),
{
    if bits < SIGN_BIT {
        SIGN_BIT + bits
    } else {
        SIGN_BIT - (bits - SIGN_BIT)
    }
}

/// Whether a level with the key `a` is better than one with the key `b`.
pub open spec fn is_better(a: u64, b: u64, highest_first: bool) -> bool {
    if highest_first {
        a > b
    } else {
        a < b
    }
}

/// The order in which positions are shown: the better key first, and of equal keys the
/// earlier position.
pub open spec fn best_first_order(keys: Seq<u64>, highest_first: bool) -> spec_fn(
    int,
    int,
) -> bool {
    |a: int, b: int|
        is_better(keys[a], keys[b], highest_first) || (keys[a] == keys[b] && a <= b)
}

/// The first `count` positions, in their own order.
pub open spec fn positions(count: nat) -> Seq<int> {
    Seq::new(count, |i: int| i)
}

/// The positions of `keys`, best first.
pub open spec fn ranked(keys: Seq<u64>, highest_first: bool) -> Seq<int> {
    positions(keys.len()).sort_by(best_first_order(keys, highest_first))
}

/// The items at the given positions.
pub open spec fn picked<T>(items: Seq<T>, places: Seq<int>) -> Seq<T> {
    places.map_values(|place: int| items[place])
}

/// A book with both sides best first: bids from the highest key down, asks from the lowest
/// key up.
pub open spec fn best_first_book<V>(
    book: BookView<V>,
    bid_keys: Seq<u64>,
    ask_keys: Seq<u64>,
) -> BookView<V> {
    BookView {
        bids: picked(book.bids, ranked(bid_keys, true)),
        asks: picked(book.asks, ranked(ask_keys, false)),
        ..book
    }
}

proof fn lemma_order_is_total(keys: Seq<u64>, highest_first: bool)
    ensures
        total_ordering(best_first_order(keys, highest_first)),
{
}

/// Whether `a` is better than `b`.
fn better(a: u64, b: u64, highest_first: bool) -> (answer: bool)
    ensures
        answer == is_better(a, b, highest_first),
{
    if highest_first {
        a > b
    } else {
        a < b
    }
}

/// Puts levels into order by their keys, best first; levels with equal keys stay in the
/// order that they are in.
pub fn best_first<V>(orders: Vec<Order<V>>, keys: &Vec<u64>, highest_first: bool) -> (sorted: Vec<
    Order<V>,
>)
    requires
        orders@.len() == keys@.len(),
    ensures
        sorted@ == picked(orders@, ranked(keys@, highest_first)),
{
    let ghost all = orders@;
    let ghost order = best_first_order(keys@, highest_first);
    let ghost mut places: Seq<int> = Seq::empty();
    let mut rest = orders;
    let mut sorted: Vec<Order<V>> = Vec::new();
    let mut sorted_keys: Vec<u64> = Vec::new();
    let mut i: usize = 0;
    assert(all.skip(0) =~= all);
    assert(places =~= positions(0));
    while i < keys.len()
        invariant
            i <= keys@.len(),
            all.len() == keys@.len(),
            order == best_first_order(keys@, highest_first),
            rest@ == all.skip(i as int),
            places.len() == i,
            sorted@.len() == i,
            sorted_keys@.len() == i,
            forall|k: int|
                #![trigger places[k]]
                0 <= k < i ==> {
                    &&& 0 <= places[k] < i
                    &&& sorted@[k] == all[places[k]]
                    &&& sorted_keys@[k] == keys@[places[k]]
                },
            sorted_by(places, order),
            places.to_multiset() == positions(i as nat).to_multiset(),
        decreases keys@.len() - i,
    {
        let level = rest.remove(0);
        let key: u64 = keys[i];
        let mut at: usize = i;
        while at > 0 && better(key, sorted_keys[at - 1], highest_first)
            invariant
                at <= i,
                sorted_keys@.len() == i,
                forall|k: int|
                    at <= k < i ==> is_better(key, #[trigger] sorted_keys@[k], highest_first),
            decreases at,
        {
            at -= 1;
        }
        let ghost before = places;
        proof {
            places = before.insert(at as int, i as int);
            before.insert_ensures(at as int, i as int);
            assert forall|a: int, b: int| 0 <= a < b < places.len() implies #[trigger] order(
                places[a],
                places[b],
            ) by {
                let x = if a < at {
                    a
                } else {
                    a - 1
                };
                let y = if b < at {
                    b
                } else {
                    b - 1
                };
                if a == at {
                    assert(places[b] == before[y]);
                    assert(is_better(key, sorted_keys@[y], highest_first));
                } else if b == at {
                    assert(places[a] == before[x]);
                    let last = at - 1;
                    assert(!is_better(key, sorted_keys@[last], highest_first));
                    assert(before[last] < i);
                    if x < last {
                        assert(order(before[x], before[last]));
                    }
                } else {
                    assert(places[a] == before[x]);
                    assert(places[b] == before[y]);
                    assert(order(before[x], before[y]));
                }
            }
            to_multiset_insert(before, at as int, i as int);
            to_multiset_build(positions(i as nat), i as int);
            assert(positions((i + 1) as nat) =~= positions(i as nat).push(i as int));
        }
        sorted.insert(at, level);
        sorted_keys.insert(at, key);
        assert forall|k: int| #![trigger places[k]] 0 <= k < i + 1 implies {
            &&& 0 <= places[k] < i + 1
            &&& sorted@[k] == all[places[k]]
            &&& sorted_keys@[k] == keys@[places[k]]
        } by {
            if k < at {
                assert(places[k] == before[k]);
            } else if k > at {
                assert(places[k] == before[k - 1]);
            }
        }
        assert(rest@ =~= all.skip(i + 1));
        i += 1;
    }
    proof {
        lemma_order_is_total(keys@, highest_first);
        positions(keys@.len()).lemma_sort_by_ensures(order);
        lemma_sorted_unique(places, ranked(keys@, highest_first), order);
        assert(sorted@ =~= picked(all, places));
    }
    sorted
}

impl<V> OrderBook<V> {
    /// Puts both sides into order, best price first: bids from the highest price down, asks
    /// from the lowest price up. `bid_keys` and `ask_keys` hold a key for each level, in the
    /// order of the prices.
    pub fn best_first(self, bid_keys: &Vec<u64>, ask_keys: &Vec<u64>) -> (book: OrderBook<V>)
        requires
            self.bids@.len() == bid_keys@.len(),
            self.asks@.len() == ask_keys@.len(),
        ensures
            book@ == best_first_book(self@, bid_keys@, ask_keys@),
    {
        OrderBook {
            symbol: self.symbol,
            bids: best_first(self.bids, bid_keys, true),
            asks: best_first(self.asks, ask_keys, false),
            remote_timestamp: self.remote_timestamp,
            argus_timestamp: self.argus_timestamp,
        }
    }
}

proof fn lemma_picked_multiset<T>(items: Seq<T>, a: Seq<int>, b: Seq<int>)
    requires
        a.to_multiset() == b.to_multiset(),
    ensures
        picked(items, a).to_multiset() == picked(items, b).to_multiset(),
    decreases a.len(),
{
    to_multiset_len(a);
    to_multiset_len(b);
    if a.len() == 0 {
        assert(picked(items, a) =~= picked(items, b));
    } else {
        let n = a.len() - 1;
        let place = a[n];
        to_multiset_contains(a, place);
        to_multiset_contains(b, place);
        let j = choose|j: int| 0 <= j < b.len() && b[j] == place;
        to_multiset_remove(a, n);
        to_multiset_remove(b, j);
        lemma_picked_multiset(items, a.remove(n), b.remove(j));
        to_multiset_insert(picked(items, a.remove(n)), n, items[place]);
        to_multiset_insert(picked(items, b.remove(j)), j, items[place]);
        assert(picked(items, a) =~= picked(items, a.remove(n)).insert(n, items[place]));
        assert(picked(items, b) =~= picked(items, b.remove(j)).insert(j, items[place]));
    }
}

/// Putting levels into order keeps every level: none is lost, doubled or changed.
pub proof fn law_ranking_keeps_the_levels<T>(items: Seq<T>, keys: Seq<u64>, highest_first: bool)
    requires
        items.len() == keys.len(),
    ensures
        picked(items, ranked(keys, highest_first)).to_multiset() == items.to_multiset(),
        ranked(keys, highest_first).len() == keys.len(),
        forall|i: int|
            0 <= i < keys.len() ==> 0 <= #[trigger] ranked(keys, highest_first)[i] < keys.len(),
{
    let all = positions(keys.len());
    let places = ranked(keys, highest_first);
    lemma_order_is_total(keys, highest_first);
    all.lemma_sort_by_ensures(best_first_order(keys, highest_first));
    lemma_picked_multiset(items, places, all);
    assert(picked(items, all) =~= items);
    to_multiset_len(all);
    to_multiset_len(places);
    assert forall|i: int| 0 <= i < places.len() implies 0 <= #[trigger] places[i]
        < keys.len() by {
        assert(places.contains(places[i]));
        assert(all.contains(places[i]));
    }
}

/// The best comes first: from one level to a later one, keys never rise if the highest one
/// is the best, and never fall if the lowest one is; levels with equal keys stay in the
/// order that they were in.
pub proof fn law_best_comes_first(keys: Seq<u64>, highest_first: bool, i: int, j: int)
    requires
        0 <= i < j < keys.len(),
    ensures
        ({
            let places = ranked(keys, highest_first);
            &&& highest_first ==> keys[places[i]] >= keys[places[j]]
            &&& !highest_first ==> keys[places[i]] <= keys[places[j]]
            &&& keys[places[i]] == keys[places[j]] ==> places[i] < places[j]
        }),
{
    let all = positions(keys.len());
    let places = ranked(keys, highest_first);
    let order = best_first_order(keys, highest_first);
    lemma_order_is_total(keys, highest_first);
    all.lemma_sort_by_ensures(order);
    law_ranking_keeps_the_levels(keys, keys, highest_first);
    assert(order(places[i], places[j]));
    if places[i] == places[j] {
        lemma_no_duplicates(places, all);
    }
}

/// Whether keys come best first.
pub open spec fn comes_best_first(keys: Seq<u64>, highest_first: bool) -> bool {
    forall|i: int, j: int|
        0 <= i < j < keys.len() ==> !is_better(
            #[trigger] keys[j],
            #[trigger] keys[i],
            highest_first,
        )
}

/// Keys that come best first stay in their order.
pub proof fn law_best_first_stays(keys: Seq<u64>, highest_first: bool)
    requires
        comes_best_first(keys, highest_first),
    ensures
        ranked(keys, highest_first) == positions(keys.len()),
{
    let all = positions(keys.len());
    let order = best_first_order(keys, highest_first);
    lemma_order_is_total(keys, highest_first);
    all.lemma_sort_by_ensures(order);
    assert forall|i: int, j: int| 0 <= i < j < all.len() implies #[trigger] order(
        all[i],
        all[j],
    ) by {
        assert(!is_better(keys[j], keys[i], highest_first));
    }
    lemma_sorted_unique(all, ranked(keys, highest_first), order);
}

/// A book whose sides come best first, as the server sends them, is left as it is.
pub proof fn law_sorted_book_stays<V>(
    book: BookView<V>,
    bid_keys: Seq<u64>,
    ask_keys: Seq<u64>,
)
    requires
        book.bids.len() == bid_keys.len(),
        book.asks.len() == ask_keys.len(),
        comes_best_first(bid_keys, true),
        comes_best_first(ask_keys, false),
    ensures
        best_first_book(book, bid_keys, ask_keys) == book,
{
    law_best_first_stays(bid_keys, true);
    law_best_first_stays(ask_keys, false);
    assert(picked(book.bids, positions(bid_keys.len())) =~= book.bids);
    assert(picked(book.asks, positions(ask_keys.len())) =~= book.asks);
}

/// No position is ranked twice.
pub(crate) proof fn lemma_ranked_is_a_permutation(keys: Seq<u64>, highest_first: bool)
    ensures
        ranked(keys, highest_first).no_duplicates(),
{
    let all = positions(keys.len());
    lemma_order_is_total(keys, highest_first);
    all.lemma_sort_by_ensures(best_first_order(keys, highest_first));
    lemma_no_duplicates(ranked(keys, highest_first), all);
}

proof fn lemma_no_duplicates(places: Seq<int>, all: Seq<int>)
    requires
        places.to_multiset() == all.to_multiset(),
        all.no_duplicates(),
    ensures
        places.no_duplicates(),
{
    all.lemma_multiset_has_no_duplicates();
    places.lemma_multiset_has_no_duplicates_conv();
}

} // verus!
