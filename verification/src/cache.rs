//! The cache of the latest quote per symbol.
//!
//! A cache is a map from symbol to quote together with the order in which the
//! symbols first came in. It holds at most one quote per symbol, and an entry
//! leaves it only by being replaced.

use crate::quote::{Quote, QuoteView};
use crate::text::same_text;
use vstd::prelude::*;

verus! {

/// Whether `order` lists the keys of `quotes`, each of them once, and every
/// quote is filed under its own symbol.
pub open spec fn listed(quotes: Map<Seq<char>, QuoteView>, order: Seq<Seq<char>>) -> bool {
    &&& order.no_duplicates()
    &&& forall|symbol: Seq<char>|
        #![trigger quotes.contains_key(symbol)]
        #![trigger order.contains(symbol)]
        quotes.contains_key(symbol) <==> order.contains(symbol)
    &&& forall|symbol: Seq<char>| #[trigger]
        quotes.contains_key(symbol) ==> quotes[symbol].symbol == symbol
}

/// The order of the symbols after a quote for `symbol` has come in: a symbol
/// that is new goes to the end, a known one keeps its place.
pub open spec fn put_order(order: Seq<Seq<char>>, symbol: Seq<char>) -> Seq<Seq<char>> {
    if order.contains(symbol) {
        order
    } else {
        order.push(symbol)
    }
}

/// What a cache that held `quotes` holds after the quotes of `puts` were put
/// into it, one after another.
pub open spec fn after_puts(
    quotes: Map<Seq<char>, QuoteView>,
    puts: Seq<QuoteView>,
) -> Map<Seq<char>, QuoteView>
    decreases puts.len(),
{
    if puts.len() == 0 {
        quotes
    } else {
        after_puts(quotes, puts.drop_last()).insert(puts.last().symbol, puts.last())
    }
}

/// The order of the symbols of a cache after the quotes of `puts` were put
/// into it, one after another.
pub open spec fn order_after_puts(order: Seq<Seq<char>>, puts: Seq<QuoteView>) -> Seq<Seq<char>>
    decreases puts.len(),
{
    if puts.len() == 0 {
        order
    } else {
        put_order(order_after_puts(order, puts.drop_last()), puts.last().symbol)
    }
}

/// A put keeps a cache well-formed: one quote per symbol, each under its own
/// symbol, each symbol listed once.
pub proof fn lemma_put_keeps_listed(
    quotes: Map<Seq<char>, QuoteView>,
    order: Seq<Seq<char>>,
    quote: QuoteView,
)
    requires
        listed(quotes, order),
    ensures
        listed(quotes.insert(quote.symbol, quote), put_order(order, quote.symbol)),
{
    let after = quotes.insert(quote.symbol, quote);
    let listing = put_order(order, quote.symbol);
    if !order.contains(quote.symbol) {
        assert forall|i: int, j: int|
            0 <= i < listing.len() && 0 <= j < listing.len() && i != j implies listing[i]
            != listing[j] by {
            if i < order.len() {
                assert(order.contains(listing[i]));
            }
            if j < order.len() {
                assert(order.contains(listing[j]));
            }
        }
        assert(listing[order.len() as int] == quote.symbol);
    }
    assert forall|symbol: Seq<char>| after.contains_key(symbol) <==> listing.contains(
        symbol,
    ) by {
        if after.contains_key(symbol) && symbol != quote.symbol {
            assert(quotes.contains_key(symbol));
            assert(order.contains(symbol));
            let i = choose|i: int| 0 <= i < order.len() && order[i] == symbol;
            assert(listing[i] == symbol);
        }
        if listing.contains(symbol) {
            let i = choose|i: int| 0 <= i < listing.len() && listing[i] == symbol;
            if i < order.len() {
                assert(order.contains(order[i]));
            }
        }
    }
}

/// Any number of puts keeps a cache well-formed.
pub proof fn lemma_puts_keep_listed(
    quotes: Map<Seq<char>, QuoteView>,
    order: Seq<Seq<char>>,
    puts: Seq<QuoteView>,
)
    requires
        listed(quotes, order),
    ensures
        listed(after_puts(quotes, puts), order_after_puts(order, puts)),
    decreases puts.len(),
{
    if puts.len() > 0 {
        lemma_puts_keep_listed(quotes, order, puts.drop_last());
        lemma_put_keeps_listed(
            after_puts(quotes, puts.drop_last()),
            order_after_puts(order, puts.drop_last()),
            puts.last(),
        );
    }
}

/// What is found for a symbol after any sequence of puts is one quote as it
/// was put, whole: the latest one that was put for the symbol. It is never
/// made of parts of two quotes.
pub proof fn lemma_found_as_put(
    quotes: Map<Seq<char>, QuoteView>,
    puts: Seq<QuoteView>,
    latest: int,
)
    requires
        0 <= latest < puts.len(),
        forall|later: int|
            latest < later < puts.len() ==> puts[later].symbol != puts[latest].symbol,
    ensures
        after_puts(quotes, puts).contains_key(puts[latest].symbol),
        after_puts(quotes, puts)[puts[latest].symbol] == puts[latest],
    decreases puts.len(),
{
    if latest < puts.len() - 1 {
        let before = puts.drop_last();
        assert(before[latest] == puts[latest]);
        assert forall|later: int| latest < later < before.len() implies before[later].symbol
            != before[latest].symbol by {
            assert(before[later] == puts[later]);
        }
        lemma_found_as_put(quotes, before, latest);
    }
}

/// Puts for other symbols leave what a cache holds for a symbol as it is:
/// the quote that was there, or none.
pub proof fn lemma_untouched_by_others(
    quotes: Map<Seq<char>, QuoteView>,
    puts: Seq<QuoteView>,
    symbol: Seq<char>,
)
    requires
        forall|i: int| 0 <= i < puts.len() ==> puts[i].symbol != symbol,
    ensures
        after_puts(quotes, puts).contains_key(symbol) == quotes.contains_key(symbol),
        after_puts(quotes, puts)[symbol] == quotes[symbol],
    decreases puts.len(),
{
    if puts.len() > 0 {
        let before = puts.drop_last();
        assert forall|i: int| 0 <= i < before.len() implies before[i].symbol != symbol by {
            assert(before[i] == puts[i]);
        }
        lemma_untouched_by_others(quotes, before, symbol);
    }
}

/// No quote is found for a symbol for which none was ever put, whatever was
/// put for other symbols.
pub proof fn lemma_absent_until_put(puts: Seq<QuoteView>, symbol: Seq<char>)
    requires
        forall|i: int| 0 <= i < puts.len() ==> puts[i].symbol != symbol,
    ensures
        !after_puts(Map::empty(), puts).contains_key(symbol),
{
    lemma_untouched_by_others(Map::empty(), puts, symbol);
}

/// The latest quote of each symbol.
pub struct QuoteCache {
    entries: Vec<Quote>,
}

impl View for QuoteCache {
    type V = Map<Seq<char>, QuoteView>;

    closed spec fn view(&self) -> Map<Seq<char>, QuoteView> {
        Map::new(
            |symbol: Seq<char>| self.symbols().contains(symbol),
            |symbol: Seq<char>| self.entries@[self.symbols().index_of(symbol)]@,
        )
    }
}

impl QuoteCache {
    spec fn symbols(self) -> Seq<Seq<char>> {
        Seq::new(self.entries@.len(), |i: int| self.entries@[i]@.symbol)
    }

    /// What every cache satisfies: no symbol has two entries.
    pub closed spec fn wf(self) -> bool {
        self.symbols().no_duplicates()
    }

    /// The symbols of the cache in the order in which they first came in.
    pub closed spec fn order(self) -> Seq<Seq<char>> {
        self.symbols()
    }

    proof fn lemma_entry(self, i: int)
        requires
            self.wf(),
            0 <= i < self.entries@.len(),
        ensures
            self@.contains_key(self.entries@[i]@.symbol),
            self@[self.entries@[i]@.symbol] == self.entries@[i]@,
    {
        let symbol = self.entries@[i]@.symbol;
        assert(self.symbols()[i] == symbol);
        let j = self.symbols().index_of(symbol);
        assert(self.symbols()[j] == symbol);
    }

    /// The order of a cache lists the keys of its map, each of them once.
    pub proof fn lemma_listed(self)
        requires
            self.wf(),
        ensures
            listed(self@, self.order()),
    {
        assert forall|symbol: Seq<char>| #[trigger]
            self@.contains_key(symbol) implies self@[symbol].symbol == symbol by {
            let j = self.symbols().index_of(symbol);
            assert(self.symbols()[j] == symbol);
        }
    }

    /// An empty cache.
    pub fn new() -> (r: QuoteCache)
        ensures
            r.wf(),
            r@ == Map::<Seq<char>, QuoteView>::empty(),
            r.order() == Seq::<Seq<char>>::empty(),
    {
        let r = QuoteCache { entries: Vec::new() };
        assert(r@ =~= Map::<Seq<char>, QuoteView>::empty());
        assert(r.order() =~= Seq::<Seq<char>>::empty());
        r
    }

    /// Where the entry for `symbol` stands, if the cache has one.
    fn position(&self, symbol: &str) -> (r: Option<usize>)
        ensures
            match r {
                Some(i) => i < self.entries@.len() && self.entries@[i as int]@.symbol == symbol@,
                None => !self.symbols().contains(symbol@),
            },
    {
        let mut i: usize = 0;
        while i < self.entries.len()
            invariant
                i <= self.entries@.len(),
                forall|j: int| 0 <= j < i ==> self.symbols()[j] != symbol@,
            decreases self.entries@.len() - i,
        {
            if same_text(self.entries[i].symbol(), symbol) {
                return Some(i);
            }
            i += 1;
        }
        None
    }

    /// Files `quote` under its symbol, in place of the quote that was held
    /// for that symbol, if any. No other entry changes.
    pub fn put(&mut self, quote: Quote)
        requires
            old(self).wf(),
        ensures
            final(self).wf(),
            final(self)@ == old(self)@.insert(quote@.symbol, quote@),
            final(self).order() == put_order(old(self).order(), quote@.symbol),
    {
        let ghost before = *self;
        let ghost added = quote@;
        match self.position(quote.symbol()) {
            Some(i) => {
                self.entries.set(i, quote);
                assert(before.symbols()[i as int] == added.symbol);
                assert(self.symbols() =~= before.symbols());
                assert forall|symbol: Seq<char>| #[trigger]
                    self@.contains_key(symbol) implies self@[symbol] == before@.insert(
                    added.symbol,
                    added,
                )[symbol] by {
                    let j = self.symbols().index_of(symbol);
                    assert(self.symbols()[j] == symbol);
                    self.lemma_entry(j);
                    before.lemma_entry(j);
                    if j != i {
                        assert(before.symbols()[j] != before.symbols()[i as int]);
                        assert(self.entries@[j] == before.entries@[j]);
                    }
                }
            },
            None => {
                self.entries.push(quote);
                assert(self.symbols() =~= before.symbols().push(added.symbol));
                assert forall|a: int, b: int|
                    0 <= a < self.symbols().len() && 0 <= b < self.symbols().len() && a
                        != b implies self.symbols()[a] != self.symbols()[b] by {
                    if a < before.symbols().len() {
                        assert(before.symbols()[a] == self.symbols()[a]);
                    }
                    if b < before.symbols().len() {
                        assert(before.symbols()[b] == self.symbols()[b]);
                    }
                }
                assert forall|symbol: Seq<char>| #[trigger]
                    self@.contains_key(symbol) implies self@[symbol] == before@.insert(
                    added.symbol,
                    added,
                )[symbol] by {
                    let j = self.symbols().index_of(symbol);
                    assert(self.symbols()[j] == symbol);
                    self.lemma_entry(j);
                    if j < before.entries@.len() {
                        before.lemma_entry(j);
                    }
                }
                assert forall|symbol: Seq<char>|
                    before@.insert(added.symbol, added).contains_key(
                        symbol,
                    ) implies #[trigger] self@.contains_key(symbol) by {
                    if symbol == added.symbol {
                        assert(self.symbols()[before.entries@.len() as int] == symbol);
                    } else {
                        let j = before.symbols().index_of(symbol);
                        assert(before.symbols()[j] == symbol);
                        assert(self.symbols()[j] == symbol);
                    }
                }
                assert forall|symbol: Seq<char>| #[trigger]
                    self@.contains_key(symbol) implies before@.insert(
                    added.symbol,
                    added,
                ).contains_key(symbol) by {
                    let j = self.symbols().index_of(symbol);
                    assert(self.symbols()[j] == symbol);
                    if j < before.entries@.len() {
                        assert(before.symbols()[j] == symbol);
                    }
                }
            },
        }
        assert(self@ =~= before@.insert(added.symbol, added));
    }
}

impl QuoteCache {
    /// The quote held for `symbol`; `None` where none was ever put for it,
    /// whatever the cache holds for other symbols.
    pub fn get(&self, symbol: &str) -> (r: Option<Quote>)
        requires
            self.wf(),
        ensures
            match r {
                Some(quote) => self@.contains_key(symbol@) && quote@ == self@[symbol@],
                None => !self@.contains_key(symbol@),
            },
    {
        proof {
            self.lemma_listed();
        }
        match self.position(symbol) {
            Some(i) => {
                proof {
                    self.lemma_entry(i as int);
                }
                Some(self.entries[i].clone())
            },
            None => None,
        }
    }

    /// The symbols of the cache in the order in which they first came in.
    pub fn list_symbols(&self) -> (r: Vec<String>)
        requires
            self.wf(),
        ensures
            r.deep_view() == self.order(),
    {
        proof {
            self.lemma_listed();
        }
        let mut out: Vec<String> = Vec::new();
        let mut i: usize = 0;
        while i < self.entries.len()
            invariant
                i <= self.entries@.len(),
                out@.len() == i,
                forall|j: int| 0 <= j < i ==> out@[j]@ == self.symbols()[j],
            decreases self.entries@.len() - i,
        {
            out.push(self.entries[i].symbol().to_owned());
            i += 1;
        }
        assert(out.deep_view() =~= self.order());
        out
    }
}

} // verus!
