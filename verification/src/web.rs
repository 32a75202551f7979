//! The client-facing protocol: which request asks for what, and the text of
//! each response.

use crate::cache::QuoteCache;
use crate::quote::{quote_json, QuoteView};
use crate::service::{QuoteRetriever, QuoteService};
use crate::text::{
    after_last, begins_with, chars_of, count_of, decimal, decimal_text, find_from, index_from,
    last_part_start, occurrences, same_text, utf8_text,
};
use vstd::prelude::*;
use vstd::string::*;
use vstd::utf8::*;

verus! {

/// The status line of a response that carries a body.
pub const STATUS_OK: &'static str = "HTTP/1.1 200 OK";

/// The status line of a response to a request that names nothing known.
pub const STATUS_NOT_FOUND: &'static str = "HTTP/1.1 404 NOT FOUND";

/// The path under which the quotes are served.
pub const QUOTES_PATH: &'static str = "/api/v1/quotes";

/// What a request asks for, as mathematical values.
pub ghost enum RequestView {
    /// The list of the symbols that are known.
    Symbols,
    /// The quote of one symbol.
    Quote(Seq<char>),
    /// Nothing that the service offers.
    Unknown,
}

/// What a request asks for.
#[derive(Debug)]
pub enum Request {
    /// The list of the symbols that are known.
    Symbols,
    /// The quote of one symbol.
    Quote(String),
    /// Nothing that the service offers.
    Unknown,
}

impl View for Request {
    type V = RequestView;

    open spec fn view(&self) -> RequestView {
        match self {
            Request::Symbols => RequestView::Symbols,
            Request::Quote(symbol) => RequestView::Quote(symbol@),
            Request::Unknown => RequestView::Unknown,
        }
    }
}

/// The path of a request: what stands between the first space of its text
/// and the next one, or the end of the text. A text without a space has none.
pub open spec fn request_path(text: Seq<char>) -> Option<Seq<char>> {
    let start = index_from(text, ' ', 0) + 1;
    if start > text.len() {
        None
    } else {
        Some(text.subrange(start, index_from(text, ' ', start)))
    }
}

/// What a path asks for. The path of the quotes itself asks for the list of
/// symbols. A path that begins with it and has five parts between its
/// slashes asks for the quote of the symbol that is its last part.
pub open spec fn route(path: Seq<char>) -> RequestView {
    if path == QUOTES_PATH@ {
        RequestView::Symbols
    } else if QUOTES_PATH@.is_prefix_of(path) && occurrences(path, '/') == 4 {
        RequestView::Quote(after_last(path, '/'))
    } else {
        RequestView::Unknown
    }
}

/// What the bytes of a request ask for. Bytes that are no UTF-8 text, or
/// whose text has no path, ask for nothing known.
pub open spec fn intent(request: Seq<u8>) -> RequestView {
    if !valid_utf8(request) {
        RequestView::Unknown
    } else {
        match request_path(decode_utf8(request)) {
            Some(path) => route(path),
            None => RequestView::Unknown,
        }
    }
}

/// The response to a request that names nothing known: no body.
pub open spec fn not_found() -> Seq<char> {
    response_text(STATUS_NOT_FOUND@, Seq::empty())
}

/// The response to `request` from a cache that holds `quotes`, its symbols
/// listed in `order`.
pub open spec fn response_to(
    request: RequestView,
    quotes: Map<Seq<char>, QuoteView>,
    order: Seq<Seq<char>>,
) -> Seq<char> {
    match request {
        RequestView::Symbols => response_text(STATUS_OK@, json_list(order)),
        RequestView::Quote(symbol) => if quotes.contains_key(symbol) {
            response_text(STATUS_OK@, quote_json(quotes[symbol]))
        } else {
            not_found()
        },
        RequestView::Unknown => not_found(),
    }
}

/// `value` between double quotes, as it is.
pub open spec fn quoted(value: Seq<char>) -> Seq<char> {
    "\""@ + value + "\""@
}

/// The values, each between double quotes, with a comma between neighbours.
pub open spec fn comma_separated(values: Seq<Seq<char>>) -> Seq<char>
    decreases values.len(),
{
    if values.len() == 0 {
        Seq::empty()
    } else if values.len() == 1 {
        quoted(values[0])
    } else {
        comma_separated(values.drop_last()) + ","@ + quoted(values.last())
    }
}

/// The JSON array of the values as strings; `[]` where there is none.
pub open spec fn json_list(values: Seq<Seq<char>>) -> Seq<char> {
    "["@ + comma_separated(values) + "]"@
}

/// The text of a response: the status line, the length of the body in bytes,
/// its content type, an empty line and the body.
pub open spec fn response_text(status_line: Seq<char>, contents: Seq<char>) -> Seq<char> {
    status_line + "\r\nContent-Length: "@ + decimal(encode_utf8(contents).len())
        + "\r\nContent-Type: application/json\r\n\r\n"@ + contents
}

/// Renders the values as a JSON array of strings.
pub fn to_json(values: Vec<String>) -> (r: String)
    ensures
        r@ == json_list(values.deep_view()),
{
    let ghost all = values.deep_view();
    let mut items = String::new();
    let mut i: usize = 0;
    while i < values.len()
        invariant
            i <= values@.len(),
            all == values.deep_view(),
            items@ == comma_separated(all.take(i as int)),
        decreases values@.len() - i,
    {
        let ghost before = items@;
        if i > 0 {
            items.append(",");
        }
        items.append("\"");
        items.append(values[i].as_str());
        items.append("\"");
        proof {
            let done = all.take(i + 1);
            assert(done.drop_last() =~= all.take(i as int));
            assert(done.last() == values@[i as int]@);
            if i == 0 {
                assert(items@ =~= quoted(done[0]));
            } else {
                assert(items@ =~= before + ","@ + quoted(done.last()));
            }
        }
        i += 1;
    }
    assert(all.take(i as int) =~= all);
    let mut out = "[".to_owned();
    out.append(items.as_str());
    out.append("]");
    out
}

/// Puts a response together from its status line and its body.
pub fn write_response(status_line: &str, contents: &str) -> (r: String)
    ensures
        r@ == response_text(status_line@, contents@),
{
    let mut out = status_line.to_owned();
    out.append("\r\nContent-Length: ");
    out.append(decimal_text(contents.as_bytes().len()).as_str());
    out.append("\r\nContent-Type: application/json\r\n\r\n");
    out.append(contents);
    out
}

/// Reads what a request asks for from its bytes.
pub fn parse_request(request: &[u8]) -> (r: Request)
    ensures
        r@ == intent(request@),
{
    let text = match utf8_text(request) {
        Some(text) => text,
        None => {
            return Request::Unknown;
        },
    };
    let chars = chars_of(text);
    let space = find_from(&chars, ' ', 0);
    if space >= chars.len() {
        return Request::Unknown;
    }
    let start = space + 1;
    let end = find_from(&chars, ' ', start);
    let path_text = text.substring_char(start, end);
    if same_text(path_text, QUOTES_PATH) {
        return Request::Symbols;
    }
    let path = chars_of(path_text);
    let prefix = chars_of(QUOTES_PATH);
    if begins_with(&path, &prefix) && count_of(&path, '/') == 4 {
        let from = last_part_start(&path, '/');
        Request::Quote(path_text.substring_char(from, path.len()).to_owned())
    } else {
        Request::Unknown
    }
}

/// Answers `request` from `cache`. Nothing is written to the cache.
pub fn respond(request: &Request, cache: &QuoteCache) -> (r: String)
    requires
        cache.wf(),
    ensures
        r@ == response_to(request@, cache@, cache.order()),
{
    proof {
        reveal_strlit("");
        assert(""@ =~= Seq::<char>::empty());
    }
    match request {
        Request::Symbols => write_response(STATUS_OK, to_json(cache.list_symbols()).as_str()),
        Request::Quote(symbol) => match cache.get(symbol.as_str()) {
            Some(quote) => write_response(STATUS_OK, quote.as_json().as_str()),
            None => write_response(STATUS_NOT_FOUND, ""),
        },
        Request::Unknown => write_response(STATUS_NOT_FOUND, ""),
    }
}

/// Answers the request whose bytes are `request` from the quotes that the
/// service holds. Nothing is written to the service.
pub fn handle_connection(request: &[u8], quote_service: &QuoteService) -> (r: String)
    requires
        quote_service.wf(),
    ensures
        r@ == response_to(intent(request@), quote_service.quotes(), quote_service.order()),
{
    proof {
        reveal_strlit("");
        assert(""@ =~= Seq::<char>::empty());
    }
    match parse_request(request) {
        Request::Symbols => write_response(
            STATUS_OK,
            to_json(quote_service.available_quotes()).as_str(),
        ),
        Request::Quote(symbol) => match quote_service.find(symbol.as_str()) {
            Some(quote) => write_response(STATUS_OK, quote.as_json().as_str()),
            None => write_response(STATUS_NOT_FOUND, ""),
        },
        Request::Unknown => write_response(STATUS_NOT_FOUND, ""),
    }
}

} // verus!
