//! The latest snapshot of every order book.

use vstd::hash_map::StringHashMap;
use vstd::prelude::*;

use crate::orderbook::OrderBook;

verus! {

/// The latest order book of each symbol.
#[verifier::reject_recursive_types(V)]
pub struct OrderBooks<V> {
    books: StringHashMap<OrderBook<V>>,
}

impl<V> View for OrderBooks<V> {
    type V = Map<Seq<char>, OrderBook<V>>;

    closed spec fn view(&self) -> Map<Seq<char>, OrderBook<V>> {
        self.books@
    }
}

impl<V> OrderBooks<V> {
    /// Each book is kept under its own symbol.
    #[verifier::type_invariant]
    spec fn keyed_by_symbol(self) -> bool {
        forall|symbol: Seq<char>| #[trigger]
            self.books@.contains_key(symbol) ==> self.books@[symbol].symbol@ == symbol
    }

    /// No books.
    pub fn new() -> (books: Self)
        ensures
            books@ == Map::<Seq<char>, OrderBook<V>>::empty(),
    {
        OrderBooks { books: StringHashMap::new() }
    }

    /// Puts a snapshot in the place of the one that was there for its symbol.
    pub fn insert(&mut self, book: OrderBook<V>)
        ensures
            final(self)@ == old(self)@.insert(book.symbol@, book),
    {
        proof {
            use_type_invariant(&*self);
        }
        let mut books: StringHashMap<OrderBook<V>> = StringHashMap::new();
        std::mem::swap(&mut books, &mut self.books);
        books.insert(book.symbol.clone(), book);
        self.books = books;
    }

    /// The latest snapshot for a symbol.
    pub fn get(&self, symbol: &str) -> (book: Option<&OrderBook<V>>)
        ensures
            match book {
                Some(book) => {
                    &&& self@.contains_key(symbol@)
                    &&& *book == self@[symbol@]
                    &&& book.symbol@ == symbol@
                },
                None => !self@.contains_key(symbol@),
            },
    {
        proof {
            use_type_invariant(self);
        }
        self.books.get(symbol)
    }

    /// The number of symbols that there is a snapshot for.
    pub fn len(&self) -> (count: usize)
        ensures
            count == self@.len(),
    {
        self.books.len()
    }

    /// Whether there is a snapshot for a symbol.
    pub fn contains_key(&self, symbol: &str) -> (present: bool)
        ensures
            present == self@.contains_key(symbol@),
    {
        self.books.contains_key(symbol)
    }
}

/// The books after a number of snapshots have come in.
pub open spec fn after_snapshots<V>(
    books: Map<Seq<char>, OrderBook<V>>,
    snapshots: Seq<OrderBook<V>>,
) -> Map<Seq<char>, OrderBook<V>>
    decreases snapshots.len(),
{
    if snapshots.len() == 0 {
        books
    } else {
        after_snapshots(books, snapshots.drop_last()).insert(
            snapshots.last().symbol@,
            snapshots.last(),
        )
    }
}

/// A lookup sees the most recent snapshot: the last one that came in for the symbol.
pub proof fn law_latest_snapshot_is_kept<V>(
    books: Map<Seq<char>, OrderBook<V>>,
    snapshots: Seq<OrderBook<V>>,
    i: int,
)
    requires
        0 <= i < snapshots.len(),
        forall|j: int|
            i < j < snapshots.len() ==> #[trigger] snapshots[j].symbol@ != snapshots[i].symbol@,
    ensures
        after_snapshots(books, snapshots).contains_key(snapshots[i].symbol@),
        after_snapshots(books, snapshots)[snapshots[i].symbol@] == snapshots[i],
    decreases snapshots.len(),
{
    if i < snapshots.len() - 1 {
        let front = snapshots.drop_last();
        assert(forall|j: int| 0 <= j < front.len() ==> front[j] == snapshots[j]);
        assert(snapshots[snapshots.len() - 1].symbol@ != snapshots[i].symbol@);
        law_latest_snapshot_is_kept(books, front, i);
    }
}

/// Snapshots of other symbols leave a book as it is.
pub proof fn law_other_books_stay<V>(
    books: Map<Seq<char>, OrderBook<V>>,
    snapshots: Seq<OrderBook<V>>,
    symbol: Seq<char>,
)
    requires
        forall|j: int| 0 <= j < snapshots.len() ==> #[trigger] snapshots[j].symbol@ != symbol,
    ensures
        after_snapshots(books, snapshots).contains_key(symbol) == books.contains_key(symbol),
        books.contains_key(symbol) ==> after_snapshots(books, snapshots)[symbol] == books[symbol],
    decreases snapshots.len(),
{
    if snapshots.len() > 0 {
        let front = snapshots.drop_last();
        assert(forall|j: int| 0 <= j < front.len() ==> front[j] == snapshots[j]);
        assert(snapshots[snapshots.len() - 1].symbol@ != symbol);
        law_other_books_stay(books, front, symbol);
    }
}

} // verus!
