//! The service that keeps the quotes for the lifetime of the program.
//!
//! A service holds the cache and answers for it. Reading takes the service
//! by shared reference and writing by exclusive reference: any number of
//! readers may look quotes up at a time, and a write is seen whole or not at
//! all. A program that refreshes and serves at once puts the service behind
//! a lock of its own and holds the lock for one operation at a time.

use crate::cache::{put_order, QuoteCache};
use crate::quote::{Quote, QuoteView};
use crate::refresher::{after_settle, due, settled, Action, Phase, Refresher};
use vstd::prelude::*;

verus! {

/// What can look a quote up by its symbol and list the symbols it knows.
pub trait QuoteRetriever {
    /// What every retriever satisfies.
    spec fn wf(&self) -> bool;

    /// The quotes that are held, each under its symbol.
    spec fn quotes(&self) -> Map<Seq<char>, QuoteView>;

    /// The symbols for which a quote is held, in the order in which they are
    /// listed.
    spec fn order(&self) -> Seq<Seq<char>>;

    /// The quote held for `symbol`: the one that was written for it last.
    /// `None` where none was ever written for it, whatever is held for other
    /// symbols.
    fn find(&self, symbol: &str) -> (r: Option<Quote>)
        requires
            self.wf(),
        ensures
            match r {
                Some(quote) => self.quotes().contains_key(symbol@) && quote@
                    == self.quotes()[symbol@],
                None => !self.quotes().contains_key(symbol@),
            },
    ;

    /// The symbols for which a quote is held, each of them once.
    fn available_quotes(&self) -> (r: Vec<String>)
        requires
            self.wf(),
        ensures
            r.deep_view() == self.order(),
            r.deep_view().no_duplicates(),
    ;
}

/// Keeps the latest quote of each symbol.
pub struct QuoteService {
    quotes: QuoteCache,
}

impl QuoteService {
    /// A service that holds no quote yet.
    pub fn new() -> (r: QuoteService)
        ensures
            r.wf(),
            r.quotes() == Map::<Seq<char>, QuoteView>::empty(),
            r.order() == Seq::<Seq<char>>::empty(),
    {
        QuoteService { quotes: QuoteCache::new() }
    }

    /// Replaces the quote held for the symbol of `quote` in one step. No
    /// other entry changes.
    pub fn put(&mut self, quote: Quote)
        requires
            old(self).wf(),
        ensures
            final(self).wf(),
            final(self).quotes() == old(self).quotes().insert(quote@.symbol, quote@),
            final(self).order() == put_order(old(self).order(), quote@.symbol),
    {
        self.quotes.put(quote);
    }

    /// Reports the outcome of the fetch that `refresher` awaits and has it
    /// write to the cache of the service, as `Refresher::settle` says.
    pub fn settle(&mut self, refresher: &mut Refresher, outcome: Option<Quote>) -> (r: Option<
        Action,
    >)
        requires
            old(self).wf(),
        ensures
            final(self).wf(),
            final(self).quotes() == settled(
                old(self).quotes(),
                old(refresher).phase(),
                old(refresher).symbols(),
                match outcome {
                    Some(quote) => Some(quote@),
                    None => None,
                },
            ),
            final(refresher).symbols() == old(refresher).symbols(),
            final(refresher).interval() == old(refresher).interval(),
            final(refresher).phase() == after_settle(
                old(refresher).phase(),
                old(refresher).symbols().len(),
            ),
            final(refresher).wf(),
            match old(refresher).phase() {
                Phase::Fetching(_) => match due(
                    final(refresher).phase(),
                    final(refresher).symbols(),
                    final(refresher).interval(),
                ) {
                    Some(action) => r matches Some(given) && given@ == action,
                    None => r is None,
                },
                _ => r is None,
            },
    {
        refresher.settle(&mut self.quotes, outcome)
    }
}

impl QuoteRetriever for QuoteService {
    closed spec fn wf(&self) -> bool {
        self.quotes.wf()
    }

    closed spec fn quotes(&self) -> Map<Seq<char>, QuoteView> {
        self.quotes@
    }

    closed spec fn order(&self) -> Seq<Seq<char>> {
        self.quotes.order()
    }

    fn find(&self, symbol: &str) -> (r: Option<Quote>) {
        self.quotes.get(symbol)
    }

    fn available_quotes(&self) -> (r: Vec<String>) {
        proof {
            self.quotes.lemma_listed();
        }
        self.quotes.list_symbols()
    }
}

} // verus!
