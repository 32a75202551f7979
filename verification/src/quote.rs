//! The value of an asset at a point in time.

use crate::instant::{rfc3339_text, Timestamp};
use vstd::prelude::*;
use vstd::string::*;

verus! {

/// What a `Quote` holds, as mathematical values.
pub ghost struct QuoteView {
    /// The symbol of the asset, case-sensitive.
    pub symbol: Seq<char>,
    /// The price, in the decimal notation in which it is served.
    pub value: Seq<char>,
    /// When the price was observed.
    pub timestamp: Timestamp,
}

/// The value of an asset at a given point in time. A quote is never changed
/// once it is made: a fresher observation is a new quote.
#[derive(Debug)]
pub struct Quote {
    symbol: String,
    value: String,
    pub timestamp: Timestamp,
}

impl View for Quote {
    type V = QuoteView;

    closed spec fn view(&self) -> QuoteView {
        QuoteView { symbol: self.symbol@, value: self.value@, timestamp: self.timestamp }
    }
}

/// The JSON object that presents a quote: its timestamp in RFC 3339
/// notation, its symbol and its value, in this order. Symbol and value stand
/// in it as they are.
pub open spec fn quote_json(quote: QuoteView) -> Seq<char> {
    "{ \"timestamp\": \""@ + rfc3339_text(
        quote.timestamp.seconds(),
        quote.timestamp.nanos(),
        quote.timestamp.offset(),
    ) + "\", \"symbol\": \""@ + quote.symbol + "\", \"value\": "@ + quote.value + " }"@
}

impl Quote {
    /// A quote of `value` for `symbol`, observed at `timestamp`.
    pub fn new(symbol: &str, value: &str, timestamp: Timestamp) -> (r: Quote)
        ensures
            r@ == (QuoteView { symbol: symbol@, value: value@, timestamp }),
    {
        Quote { symbol: symbol.to_owned(), value: value.to_owned(), timestamp }
    }

    /// The symbol of the asset.
    pub fn symbol(&self) -> (r: &str)
        ensures
            r@ == self@.symbol,
    {
        self.symbol.as_str()
    }

    /// The price in decimal notation.
    pub fn value(&self) -> (r: &str)
        ensures
            r@ == self@.value,
    {
        self.value.as_str()
    }

    /// When the price was observed.
    pub fn timestamp(&self) -> (r: Timestamp)
        ensures
            r == self@.timestamp,
    {
        self.timestamp
    }

    /// The quote as a JSON object.
    pub fn as_json(&self) -> (r: String)
        ensures
            r@ == quote_json(self@),
    {
        let mut out = "{ \"timestamp\": \"".to_owned();
        out.append(self.timestamp.to_rfc3339().as_str());
        out.append("\", \"symbol\": \"");
        out.append(self.symbol.as_str());
        out.append("\", \"value\": ");
        out.append(self.value.as_str());
        out.append(" }");
        out
    }
}

impl Clone for Quote {
    fn clone(&self) -> (r: Quote)
        ensures
            r@ == self@,
    {
        Quote {
            symbol: self.symbol.clone(),
            value: self.value.clone(),
            timestamp: self.timestamp,
        }
    }
}

} // verus!
