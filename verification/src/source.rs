//! Reading a quote out of what the price source sends.
//!
//! The source answers with a JSON document. The price is the number found in
//! it under a fixed JSONPath expression. The document is held as a
//! `serde_json::Value` and searched by the `jsonpath` crate; what is done with
//! the outcome is decided here.

use crate::instant::Timestamp;
use crate::quote::{Quote, QuoteView};
use crate::text::holds;
use vstd::prelude::*;
use vstd::string::*;

verus! {

/// Where the price stands in the document of the source.
pub const JSON_PATH_MARKET_RAW_PRICE: &'static str =
    "$.quoteSummary.result[0].price.regularMarketPrice.raw";

/// A JSON document of serde_json. Nothing of its inside is known here.
#[verifier::external_type_specification]
#[verifier::external_body]
pub struct ExValue(serde_json::Value);

/// The nodes of `json` that the JSONPath `expression` selects, in document
/// order, or `None` where jsonpath does not accept the expression.
pub uninterp spec fn selection(expression: Seq<char>, json: serde_json::Value) -> Option<
    Seq<serde_json::Value>,
>;

/// The decimal notation of the number that `value` is, or `None` where it is
/// no number.
pub uninterp spec fn number_text(value: serde_json::Value) -> Option<Seq<char>>;

/// Why no price could be read.
#[derive(Debug, PartialEq, Eq, Structural, Clone, Copy)]
pub enum FetchError {
    /// The path expression is not one that can be searched for.
    InvalidPath,
    /// The document holds no number where the price should stand.
    FieldNotFound,
    /// The clock of the machine is set to a time that no timestamp can hold.
    ClockOutOfRange,
}

/// The first of the candidates that is present.
pub open spec fn first_present(candidates: Seq<Option<Seq<char>>>) -> Option<Seq<char>>
    decreases candidates.len(),
{
    if candidates.len() == 0 {
        None
    } else if candidates[0] is Some {
        candidates[0]
    } else {
        first_present(candidates.drop_first())
    }
}

/// The number texts of the nodes, node by node.
pub open spec fn number_texts(nodes: Seq<serde_json::Value>) -> Seq<Option<Seq<char>>> {
    nodes.map_values(|node: serde_json::Value| number_text(node))
}

/// What the search of `json` for `expression` finds: the first selected
/// node that is a number, in decimal notation.
pub open spec fn searched(expression: Seq<char>, json: serde_json::Value) -> Result<
    Seq<char>,
    FetchError,
> {
    match selection(expression, json) {
        None => Err(FetchError::InvalidPath),
        Some(nodes) => match first_present(number_texts(nodes)) {
            Some(text) => Ok(text),
            None => Err(FetchError::FieldNotFound),
        },
    }
}

/// The field that `expression` names in `json`: the first selected node that
/// is a number, in decimal notation. Only plain paths are searched for: an
/// expression with a question mark in it, as every filter has one, is not a
/// valid path here.
pub open spec fn field_text(expression: Seq<char>, json: serde_json::Value) -> Result<
    Seq<char>,
    FetchError,
> {
    if expression.contains('?') {
        Err(FetchError::InvalidPath)
    } else {
        searched(expression, json)
    }
}

/// The market price that the document of the source states, in decimal
/// notation: what the search for the path of the price finds.
pub open spec fn market_price(json: serde_json::Value) -> Result<Seq<char>, FetchError> {
    searched(JSON_PATH_MARKET_RAW_PRICE@, json)
}

/// The texts of the candidates, each as a sequence of characters.
pub open spec fn texts_of(candidates: Seq<Option<String>>) -> Seq<Option<Seq<char>>> {
    candidates.map_values(
        |candidate: Option<String>|
            match candidate {
                Some(text) => Some(text@),
                None => None,
            },
    )
}

impl FetchError {
    /// What went wrong, in words.
    pub fn message(&self) -> (r: &'static str)
        ensures
            r@ == match self {
                FetchError::InvalidPath => "Invalid path expression"@,
                FetchError::FieldNotFound => "Field not found"@,
                FetchError::ClockOutOfRange => "Clock out of range"@,
            },
    {
        match self {
            FetchError::InvalidPath => "Invalid path expression",
            FetchError::FieldNotFound => "Field not found",
            FetchError::ClockOutOfRange => "Clock out of range",
        }
    }
}

/// The address at which the source serves the price of `symbol`.
pub open spec fn url_text(symbol: Seq<char>) -> Seq<char> {
    "https://query1.finance.yahoo.com/v10/finance/quoteSummary/"@ + symbol
        + "?formatted=true&modules=price"@
}

/// The address at which the source serves the price of `symbol`.
pub fn quote_url(symbol: &str) -> (r: String)
    ensures
        r@ == url_text(symbol@),
{
    let mut out = "https://query1.finance.yahoo.com/v10/finance/quoteSummary/".to_owned();
    out.append(symbol);
    out.append("?formatted=true&modules=price");
    out
}

/// Picks the first candidate that is present.
pub fn first_field(candidates: Vec<Option<String>>) -> (r: Result<String, FetchError>)
    ensures
        match first_present(texts_of(candidates@)) {
            Some(text) => r matches Ok(found) && found@ == text,
            None => r == Err::<String, FetchError>(FetchError::FieldNotFound),
        },
{
    let ghost all = texts_of(candidates@);
    let mut i: usize = 0;
    assert(all.skip(0) =~= all);
    while i < candidates.len()
        invariant
            i <= candidates@.len(),
            all == texts_of(candidates@),
            first_present(all) == first_present(all.skip(i as int)),
        decreases candidates@.len() - i,
    {
        proof {
            assert(all.skip(i as int).drop_first() =~= all.skip(i + 1));
            assert(all.skip(i as int)[0] == all[i as int]);
        }
        match &candidates[i] {
            Some(text) => {
                return Ok(text.clone());
            },
            None => {},
        }
        i += 1;
    }
    Err(FetchError::FieldNotFound)
}

/// Reads the field that `expression` names out of `json`.
pub fn extract_field(json: &serde_json::Value, expression: &str) -> (r: Result<
    String,
    FetchError,
>)
    ensures
        match field_text(expression@, *json) {
            Ok(text) => r matches Ok(found) && found@ == text,
            Err(error) => r == Err::<String, FetchError>(error),
        },
{
    if holds(expression, '?') {
        return Err(FetchError::InvalidPath);
    }
    match select(expression, json) {
        None => Err(FetchError::InvalidPath),
        Some(nodes) => {
            let ghost selected = selection(expression@, *json)->0;
            let mut candidates: Vec<Option<String>> = Vec::new();
            let mut i: usize = 0;
            while i < nodes.len()
                invariant
                    i <= nodes@.len(),
                    nodes@.len() == selected.len(),
                    forall|j: int| 0 <= j < nodes@.len() ==> *nodes@[j] == selected[j],
                    candidates@.len() == i,
                    forall|j: int|
                        0 <= j < i ==> texts_of(candidates@)[j] == number_texts(selected)[j],
                decreases nodes@.len() - i,
            {
                let ghost before = candidates@;
                candidates.push(number_of(nodes[i]));
                assert(forall|j: int| 0 <= j < i ==> candidates@[j] == before[j]);
                i += 1;
            }
            assert(texts_of(candidates@) =~= number_texts(selected));
            first_field(candidates)
        },
    }
}

/// Reads the market price out of the document of the source, in decimal
/// notation.
pub fn extract_market_price(json: &serde_json::Value) -> (r: Result<String, FetchError>)
    ensures
        match market_price(*json) {
            Ok(text) => r matches Ok(found) && found@ == text,
            Err(error) => r == Err::<String, FetchError>(error),
        },
{
    proof {
        reveal_strlit("$.quoteSummary.result[0].price.regularMarketPrice.raw");
        assert(!JSON_PATH_MARKET_RAW_PRICE@.contains('?'));
    }
    extract_field(json, JSON_PATH_MARKET_RAW_PRICE)
}

/// Makes the quote of `symbol` from the document that the source sent for
/// it, as observed at `timestamp`.
pub fn quote_at(symbol: &str, json: &serde_json::Value, timestamp: Timestamp) -> (r: Result<
    Quote,
    FetchError,
>)
    ensures
        match market_price(*json) {
            Ok(text) => r matches Ok(quote) && quote@ == (QuoteView {
                symbol: symbol@,
                value: text,
                timestamp,
            }),
            Err(error) => r matches Err(given) && given == error,
        },
{
    match extract_market_price(json) {
        Ok(value) => Ok(Quote::new(symbol, value.as_str(), timestamp)),
        Err(error) => Err(error),
    }
}

/// Makes the quote of `symbol` from the document that the source sent for
/// it, observed now. Whether the clock can be read as a timestamp is not
/// known before it is read.
pub fn get_quote(symbol: &str, json: &serde_json::Value) -> (r: Result<Quote, FetchError>)
    ensures
        match market_price(*json) {
            Ok(text) => match r {
                Ok(quote) => quote@.symbol == symbol@ && quote@.value == text,
                Err(given) => given == FetchError::ClockOutOfRange,
            },
            Err(error) => r matches Err(given) && given == error,
        },
{
    match extract_market_price(json) {
        Ok(value) => match Timestamp::now() {
            Some(timestamp) => Ok(Quote::new(symbol, value.as_str(), timestamp)),
            None => Err(FetchError::ClockOutOfRange),
        },
        Err(error) => Err(error),
    }
}

/// Searches `json` with jsonpath: `Selector::new` compiles the expression and
/// `Selector::find` walks the document. Trusted: the nodes found depend on
/// the expression and the document alone, and come in the order in which
/// jsonpath yields them. An expression with a filter in it is kept out:
/// every filter holds a question mark, and jsonpath stops the program on the
/// filters that it has not implemented.
#[verifier::external_body]
fn select<'a>(expression: &str, json: &'a serde_json::Value) -> (r: Option<
    Vec<&'a serde_json::Value>,
>)
    requires
        !expression@.contains('?'),
    ensures
        match r {
            Some(nodes) => selection(expression@, *json) == Some(
                nodes@.map_values(|node: &serde_json::Value| *node),
            ),
            None => selection(expression@, *json) is None,
        },
{
    let selector = jsonpath::Selector::new(expression).ok()?;
    Some(selector.find(json).collect())
}

/// Reads a node as a number with serde_json's `Value::as_f64` and writes the
/// number down the way Rust prints it. Trusted: the text depends on the node
/// alone, and there is none exactly where the node is no number.
#[verifier::external_body]
fn number_of(value: &serde_json::Value) -> (r: Option<String>)
    ensures
        match r {
            Some(text) => number_text(*value) == Some(text@),
            None => number_text(*value) is None,
        },
{
    match value.as_f64() {
        Some(number) => Some(number.to_string()),
        None => None,
    }
}

} // verus!
