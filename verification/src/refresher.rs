//! The rules by which the cache is refreshed.
//!
//! A refresher goes over its tracked symbols in their order, one pass after
//! another. For each symbol it asks for a fetch and is told the outcome: a
//! quote is put into the cache at once, a failure is passed over, and either
//! way the next symbol is due. After the last symbol it asks for a sleep, and
//! only when it has been woken does the next pass begin.
//!
//! The refresher decides; it neither fetches nor sleeps. Its caller performs
//! each action and reports back.

use crate::cache::QuoteCache;
use crate::quote::{Quote, QuoteView};
use crate::text::{lines, lines_of, same_text};
use vstd::prelude::*;

verus! {

/// The seconds that a refresher rests between two passes unless told
/// otherwise.
pub const QUOTE_POOLING_TIME: u64 = 600;

/// Where a refresher stands.
#[derive(Debug, Clone, Copy, PartialEq, Eq, Structural)]
pub enum Phase {
    /// Between two passes: the next one has not begun.
    Idle,
    /// In a pass, waiting for the outcome of the fetch of the tracked symbol
    /// at this position.
    Fetching(usize),
    /// After a pass, resting.
    Sleeping,
}

/// What a refresher asks of its caller, as mathematical values.
pub ghost enum ActionView {
    /// Fetch the quote of this symbol and report the outcome.
    Fetch(Seq<char>),
    /// Rest for this many seconds and report back.
    Sleep(u64),
}

/// What a refresher asks of its caller.
#[derive(Debug)]
pub enum Action {
    /// Fetch the quote of this symbol and report the outcome.
    Fetch(String),
    /// Rest for this many seconds and report back.
    Sleep(u64),
}

impl View for Action {
    type V = ActionView;

    open spec fn view(&self) -> ActionView {
        match self {
            Action::Fetch(symbol) => ActionView::Fetch(symbol@),
            Action::Sleep(seconds) => ActionView::Sleep(*seconds),
        }
    }
}

/// The phase after a pass was asked to begin, with `total` symbols to go
/// over. Only an idle refresher begins a pass.
pub open spec fn after_begin(phase: Phase, total: nat) -> Phase {
    match phase {
        Phase::Idle => if total == 0 {
            Phase::Sleeping
        } else {
            Phase::Fetching(0)
        },
        _ => phase,
    }
}

/// The phase after the outcome of a fetch was reported. It is the same for
/// a quote and for a failure.
pub open spec fn after_settle(phase: Phase, total: nat) -> Phase {
    match phase {
        Phase::Fetching(at) => if at + 1 < total {
            Phase::Fetching((at + 1) as usize)
        } else {
            Phase::Sleeping
        },
        _ => phase,
    }
}

/// The phase after the end of a rest was reported.
pub open spec fn after_wake(phase: Phase) -> Phase {
    match phase {
        Phase::Sleeping => Phase::Idle,
        _ => phase,
    }
}

/// What is due in `phase`: the fetch of the symbol at hand, or the rest.
/// Nothing is due while idle.
pub open spec fn due(phase: Phase, symbols: Seq<Seq<char>>, interval: u64) -> Option<ActionView> {
    match phase {
        Phase::Idle => None,
        Phase::Fetching(at) => Some(ActionView::Fetch(symbols[at as int])),
        Phase::Sleeping => Some(ActionView::Sleep(interval)),
    }
}

/// Whether `outcome` is the quote that is awaited in `phase`: a fetch is
/// awaited, and the quote is one for the symbol at hand. A failure is none,
/// nor is a quote for another symbol.
pub open spec fn awaited(phase: Phase, symbols: Seq<Seq<char>>, outcome: Option<QuoteView>) -> bool {
    match (phase, outcome) {
        (Phase::Fetching(at), Some(quote)) => at < symbols.len() && quote.symbol == symbols[at as int],
        _ => false,
    }
}

/// What the cache holds after an outcome was reported in `phase`: the quote
/// that is awaited is put, anything else changes nothing.
pub open spec fn settled(
    quotes: Map<Seq<char>, QuoteView>,
    phase: Phase,
    symbols: Seq<Seq<char>>,
    outcome: Option<QuoteView>,
) -> Map<Seq<char>, QuoteView> {
    if awaited(phase, symbols, outcome) {
        quotes.insert(outcome->0.symbol, outcome->0)
    } else {
        quotes
    }
}

/// What the cache holds after the fetches of a pass over `symbols` had
/// these outcomes, the first for the first symbol and so on: each outcome was
/// settled in its turn.
pub open spec fn refreshed(
    quotes: Map<Seq<char>, QuoteView>,
    symbols: Seq<Seq<char>>,
    outcomes: Seq<Option<QuoteView>>,
) -> Map<Seq<char>, QuoteView>
    decreases outcomes.len(),
{
    if outcomes.len() == 0 {
        quotes
    } else {
        settled(
            refreshed(quotes, symbols, outcomes.drop_last()),
            Phase::Fetching((outcomes.len() - 1) as usize),
            symbols,
            outcomes.last(),
        )
    }
}

/// A failure does not keep a later symbol of the same pass from being
/// written: the quote fetched for a later symbol is in the cache after the
/// pass, whatever failed before it, unless the list names the symbol once
/// more and a quote came for it there too.
pub proof fn lemma_failure_is_passed_over(
    quotes: Map<Seq<char>, QuoteView>,
    symbols: Seq<Seq<char>>,
    outcomes: Seq<Option<QuoteView>>,
    failed: int,
    later: int,
)
    requires
        outcomes.len() <= symbols.len() <= usize::MAX,
        0 <= failed < later < outcomes.len(),
        outcomes[failed] is None,
        outcomes[later] is Some,
        outcomes[later]->0.symbol == symbols[later],
        forall|after: int|
            later < after < outcomes.len() && outcomes[after] is Some ==> symbols[after]
                != symbols[later],
    ensures
        refreshed(quotes, symbols, outcomes).contains_key(symbols[later]),
        refreshed(quotes, symbols, outcomes)[symbols[later]] == outcomes[later]->0,
    decreases outcomes.len(),
{
    if later < outcomes.len() - 1 {
        let before = outcomes.drop_last();
        assert(before[later] == outcomes[later]);
        assert(before[failed] == outcomes[failed]);
        assert forall|after: int|
            later < after < before.len() && before[after] is Some implies symbols[after]
            != symbols[later] by {
            assert(before[after] == outcomes[after]);
        }
        lemma_failure_is_passed_over(quotes, symbols, before, failed, later);
    }
}

/// A pass leaves the entry of a symbol as it was where every fetch of the
/// symbol failed: the quote of an earlier pass stays, and where there was
/// none there is none.
pub proof fn lemma_failure_leaves_entry(
    quotes: Map<Seq<char>, QuoteView>,
    symbols: Seq<Seq<char>>,
    outcomes: Seq<Option<QuoteView>>,
    symbol: Seq<char>,
)
    requires
        outcomes.len() <= symbols.len() <= usize::MAX,
        forall|i: int| 0 <= i < outcomes.len() && symbols[i] == symbol ==> outcomes[i] is None,
    ensures
        refreshed(quotes, symbols, outcomes).contains_key(symbol) == quotes.contains_key(symbol),
        refreshed(quotes, symbols, outcomes)[symbol] == quotes[symbol],
    decreases outcomes.len(),
{
    if outcomes.len() > 0 {
        let before = outcomes.drop_last();
        assert forall|i: int| 0 <= i < before.len() && symbols[i] == symbol implies before[i]
            is None by {
            assert(before[i] == outcomes[i]);
        }
        lemma_failure_leaves_entry(quotes, symbols, before, symbol);
    }
}

/// A pass writes under no other symbols than those it goes over: what is
/// found after it was there before, or is the quote of a symbol of the list.
/// A cache that starts empty never holds a quote for a symbol that is not
/// on the list.
pub proof fn lemma_only_listed_symbols(
    quotes: Map<Seq<char>, QuoteView>,
    symbols: Seq<Seq<char>>,
    outcomes: Seq<Option<QuoteView>>,
    symbol: Seq<char>,
)
    requires
        outcomes.len() <= symbols.len() <= usize::MAX,
        refreshed(quotes, symbols, outcomes).contains_key(symbol),
    ensures
        quotes.contains_key(symbol) || symbols.contains(symbol),
    decreases outcomes.len(),
{
    if outcomes.len() > 0 {
        let before = outcomes.drop_last();
        let last = outcomes.len() - 1;
        if awaited(Phase::Fetching(last as usize), symbols, outcomes.last())
            && outcomes.last()->0.symbol == symbol {
            assert(symbols[last] == symbol);
        } else {
            lemma_only_listed_symbols(quotes, symbols, before, symbol);
        }
    }
}

/// The timestamp held for a symbol does not go back in a pass, as long as no
/// quote that comes for the symbol is older than the one the cache held for
/// it before the pass.
pub proof fn lemma_timestamps_do_not_go_back(
    quotes: Map<Seq<char>, QuoteView>,
    symbols: Seq<Seq<char>>,
    outcomes: Seq<Option<QuoteView>>,
    symbol: Seq<char>,
)
    requires
        outcomes.len() <= symbols.len() <= usize::MAX,
        quotes.contains_key(symbol),
        forall|i: int|
            0 <= i < outcomes.len() && outcomes[i] is Some && outcomes[i]->0.symbol == symbol
                ==> quotes[symbol].timestamp.instant() <= outcomes[i]->0.timestamp.instant(),
    ensures
        refreshed(quotes, symbols, outcomes).contains_key(symbol),
        quotes[symbol].timestamp.instant() <= refreshed(
            quotes,
            symbols,
            outcomes,
        )[symbol].timestamp.instant(),
    decreases outcomes.len(),
{
    if outcomes.len() > 0 {
        let before = outcomes.drop_last();
        assert forall|i: int|
            0 <= i < before.len() && before[i] is Some && before[i]->0.symbol
                == symbol implies quotes[symbol].timestamp.instant()
            <= before[i]->0.timestamp.instant() by {
            assert(before[i] == outcomes[i]);
        }
        lemma_timestamps_do_not_go_back(quotes, symbols, before, symbol);
    }
}

/// What a refresher can be told.
pub ghost enum Event {
    /// A pass is asked to begin.
    Begin,
    /// The outcome of a fetch is reported.
    Settle,
    /// The end of a rest is reported.
    Wake,
}

/// The phase after `event`, with `total` symbols to go over.
pub open spec fn step(phase: Phase, total: nat, event: Event) -> Phase {
    match event {
        Event::Begin => after_begin(phase, total),
        Event::Settle => after_settle(phase, total),
        Event::Wake => after_wake(phase),
    }
}

/// The phase after the events, one after another.
pub open spec fn replay(phase: Phase, total: nat, events: Seq<Event>) -> Phase
    decreases events.len(),
{
    if events.len() == 0 {
        phase
    } else {
        step(replay(phase, total, events.drop_last()), total, events.last())
    }
}

/// How many passes begin in the course of the events.
pub open spec fn passes_begun(phase: Phase, total: nat, events: Seq<Event>) -> nat
    decreases events.len(),
{
    if events.len() == 0 {
        0
    } else if events.last() is Begin && replay(phase, total, events.drop_last()) is Idle {
        passes_begun(phase, total, events.drop_last()) + 1
    } else {
        passes_begun(phase, total, events.drop_last())
    }
}

/// How many symbols are settled in the course of the events.
pub open spec fn symbols_settled(phase: Phase, total: nat, events: Seq<Event>) -> nat
    decreases events.len(),
{
    if events.len() == 0 {
        0
    } else if events.last() is Settle && replay(phase, total, events.drop_last()) is Fetching {
        symbols_settled(phase, total, events.drop_last()) + 1
    } else {
        symbols_settled(phase, total, events.drop_last())
    }
}

/// How many symbols of the pass at hand are settled in `phase`.
pub open spec fn settled_in_pass(phase: Phase, total: nat) -> nat {
    match phase {
        Phase::Idle => 0,
        Phase::Fetching(at) => at as nat,
        Phase::Sleeping => total,
    }
}

/// Passes do not overlap. Take a refresher in the middle of a pass, with
/// `at` of its `total` symbols settled, and let anything be reported to it in
/// any order. Before the next pass begins every symbol that was left of this
/// pass has been settled, and between two later beginnings all the symbols
/// are settled once more.
pub proof fn lemma_passes_do_not_overlap(at: usize, total: nat, events: Seq<Event>)
    requires
        at < total <= usize::MAX,
    ensures
        passes_begun(Phase::Fetching(at), total, events) >= 1 ==> symbols_settled(
            Phase::Fetching(at),
            total,
            events,
        ) >= (total - at) + (passes_begun(Phase::Fetching(at), total, events) - 1) * total,
{
    lemma_pass_accounts(at, total, events);
    let begun = passes_begun(Phase::Fetching(at), total, events) as int;
    if begun >= 1 {
        assert(total * (begun + 1) == total + total * begun && total * begun == total + (begun
            - 1) * total) by (nonlinear_arith);
    }
}

/// The account of a refresher that started with `at` symbols of a pass
/// settled: what was settled since is what the passes begun since account
/// for, and the phase is one of a pass over `total` symbols.
proof fn lemma_pass_accounts(at: usize, total: nat, events: Seq<Event>)
    requires
        at < total <= usize::MAX,
    ensures
        ({
            let start = Phase::Fetching(at);
            let phase = replay(start, total, events);
            let settled = symbols_settled(start, total, events);
            let begun = passes_begun(start, total, events);
            &&& phase matches Phase::Fetching(now) ==> now < total
            &&& phase is Idle ==> settled + at == total * (begun + 1)
            &&& !(phase is Idle) ==> settled + at == total * begun + settled_in_pass(phase, total)
        }),
    decreases events.len(),
{
    let start = Phase::Fetching(at);
    if events.len() == 0 {
        assert(total * 0 == 0) by (nonlinear_arith);
    } else {
        let before = events.drop_last();
        lemma_pass_accounts(at, total, before);
        let begun = passes_begun(start, total, before) as int;
        assert(total * (begun + 1) == total * begun + total) by (nonlinear_arith);
    }
}

/// The symbols to track, as a list names them: one per line.
pub fn tracked_symbols(list: &str) -> (r: Vec<String>)
    ensures
        r.deep_view() == lines_of(list@),
{
    lines(list)
}

/// Goes over the tracked symbols, pass after pass.
pub struct Refresher {
    symbols: Vec<String>,
    interval: u64,
    phase: Phase,
}

impl Refresher {
    /// The tracked symbols, in the order in which they are refreshed.
    pub closed spec fn symbols(self) -> Seq<Seq<char>> {
        self.symbols.deep_view()
    }

    /// The seconds of rest between two passes.
    pub closed spec fn interval(self) -> u64 {
        self.interval
    }

    /// Where the refresher stands.
    pub closed spec fn phase(self) -> Phase {
        self.phase
    }

    /// What every refresher satisfies: a fetch is only awaited for a symbol
    /// that is tracked.
    pub open spec fn wf(self) -> bool {
        self.phase() matches Phase::Fetching(at) ==> at < self.symbols().len()
    }

    #[verifier::type_invariant]
    spec fn held(self) -> bool {
        self.wf()
    }

    /// An idle refresher of `symbols` that rests `interval` seconds between
    /// two passes.
    pub fn new(symbols: Vec<String>, interval: u64) -> (r: Refresher)
        ensures
            r.symbols() == symbols.deep_view(),
            r.interval() == interval,
            r.phase() == Phase::Idle,
    {
        Refresher { symbols, interval, phase: Phase::Idle }
    }

    /// Where the refresher stands.
    pub fn current_phase(&self) -> (r: Phase)
        ensures
            r == self.phase(),
            self.wf(),
    {
        proof {
            use_type_invariant(self);
        }
        self.phase
    }

    /// What the refresher waits for in its phase.
    fn pending(&self) -> (r: Option<Action>)
        ensures
            match due(self.phase(), self.symbols(), self.interval()) {
                Some(action) => r matches Some(given) && given@ == action,
                None => r is None,
            },
    {
        proof {
            use_type_invariant(self);
        }
        match self.phase {
            Phase::Idle => None,
            Phase::Fetching(at) => Some(Action::Fetch(self.symbols[at].clone())),
            Phase::Sleeping => Some(Action::Sleep(self.interval)),
        }
    }

    /// Begins a pass, if the refresher is idle, and says what is due: the
    /// fetch of the first symbol, or the rest where no symbol is tracked.
    /// A refresher that is not idle stays as it is, and nothing is due.
    pub fn begin(&mut self) -> (r: Option<Action>)
        ensures
            final(self).symbols() == old(self).symbols(),
            final(self).interval() == old(self).interval(),
            final(self).phase() == after_begin(old(self).phase(), old(self).symbols().len()),
            final(self).wf(),
            match old(self).phase() {
                Phase::Idle => match due(
                    final(self).phase(),
                    final(self).symbols(),
                    final(self).interval(),
                ) {
                    Some(action) => r matches Some(given) && given@ == action,
                    None => r is None,
                },
                _ => r is None,
            },
    {
        proof {
            use_type_invariant(&*self);
        }
        match self.phase {
            Phase::Idle => {
                if self.symbols.len() == 0 {
                    self.phase = Phase::Sleeping;
                } else {
                    self.phase = Phase::Fetching(0);
                }
                self.pending()
            },
            _ => None,
        }
    }

    /// Takes the outcome of the fetch that is awaited and says what is due
    /// next. A quote for the symbol at hand is put into `cache` at once; a
    /// failure leaves `cache` as it is, and so does a quote for another
    /// symbol. Either way the next symbol is due, or the rest after the last
    /// one. Where no fetch is awaited the outcome is dropped, nothing
    /// changes, and nothing is due.
    pub fn settle(&mut self, cache: &mut QuoteCache, outcome: Option<Quote>) -> (r: Option<Action>)
        requires
            old(cache).wf(),
        ensures
            final(cache).wf(),
            final(cache)@ == settled(
                old(cache)@,
                old(self).phase(),
                old(self).symbols(),
                match outcome {
                    Some(quote) => Some(quote@),
                    None => None,
                },
            ),
            final(self).symbols() == old(self).symbols(),
            final(self).interval() == old(self).interval(),
            final(self).phase() == after_settle(old(self).phase(), old(self).symbols().len()),
            final(self).wf(),
            match old(self).phase() {
                Phase::Fetching(_) => match due(
                    final(self).phase(),
                    final(self).symbols(),
                    final(self).interval(),
                ) {
                    Some(action) => r matches Some(given) && given@ == action,
                    None => r is None,
                },
                _ => r is None,
            },
    {
        proof {
            use_type_invariant(&*self);
        }
        match self.phase {
            Phase::Fetching(at) => {
                match outcome {
                    Some(quote) => {
                        if same_text(quote.symbol(), self.symbols[at].as_str()) {
                            cache.put(quote);
                        }
                    },
                    None => {},
                }
                let total = self.symbols.len();
                if at + 1 < total {
                    self.phase = Phase::Fetching(at + 1);
                } else {
                    self.phase = Phase::Sleeping;
                }
                self.pending()
            },
            _ => None,
        }
    }

    /// Takes note that the rest is over: a sleeping refresher becomes idle,
    /// any other stays as it is.
    pub fn wake(&mut self)
        ensures
            final(self).symbols() == old(self).symbols(),
            final(self).interval() == old(self).interval(),
            final(self).phase() == after_wake(old(self).phase()),
            final(self).wf(),
    {
        proof {
            use_type_invariant(&*self);
        }
        match self.phase {
            Phase::Sleeping => {
                self.phase = Phase::Idle;
            },
            _ => {},
        }
    }
}

} // verus!
