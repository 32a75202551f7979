use web_server::cache::QuoteCache;
use web_server::instant::Timestamp;
use web_server::quote::Quote;
use web_server::refresher::{tracked_symbols, Action, Phase, Refresher, QUOTE_POOLING_TIME};
use web_server::service::{QuoteRetriever, QuoteService};
use web_server::web::handle_connection;

fn at(seconds: i64) -> Timestamp {
    Timestamp::new(seconds, 0, 0).unwrap()
}

fn symbols(names: &[&str]) -> Vec<String> {
    names.iter().map(|name| name.to_string()).collect()
}

fn fetch_of(action: Option<Action>) -> String {
    match action {
        Some(Action::Fetch(symbol)) => symbol,
        other => panic!("{:?}", other),
    }
}

fn sleep_of(action: Option<Action>) -> u64 {
    match action {
        Some(Action::Sleep(seconds)) => seconds,
        other => panic!("{:?}", other),
    }
}

fn body_of(response: &str) -> &str {
    let start = response.find("\r\n\r\n").unwrap();
    &response[start + 4..]
}

const NOT_FOUND: &str =
    "HTTP/1.1 404 NOT FOUND\r\nContent-Length: 0\r\nContent-Type: application/json\r\n\r\n";

#[test]
fn pooling_time_is_ten_minutes() {
    assert_eq!(QUOTE_POOLING_TIME, 600);
}

#[test]
fn tracked_symbols_are_the_lines_of_the_list() {
    assert_eq!(tracked_symbols("AAA\nBBB\n"), symbols(&["AAA", "BBB"]));
    assert_eq!(tracked_symbols("AAA\r\nBBB"), symbols(&["AAA", "BBB"]));
    assert_eq!(tracked_symbols(""), Vec::<String>::new());
}

#[test]
fn a_pass_goes_over_the_symbols_in_order() {
    let mut cache = QuoteCache::new();
    let mut refresher = Refresher::new(symbols(&["AAA", "BBB", "CCC"]), 600);
    assert_eq!(refresher.current_phase(), Phase::Idle);

    assert_eq!(fetch_of(refresher.begin()), "AAA");
    assert_eq!(refresher.current_phase(), Phase::Fetching(0));
    let next = refresher.settle(&mut cache, Some(Quote::new("AAA", "1", at(1))));
    assert_eq!(fetch_of(next), "BBB");
    assert_eq!(refresher.current_phase(), Phase::Fetching(1));
    let next = refresher.settle(&mut cache, Some(Quote::new("BBB", "2", at(2))));
    assert_eq!(fetch_of(next), "CCC");
    let next = refresher.settle(&mut cache, Some(Quote::new("CCC", "3", at(3))));
    assert_eq!(sleep_of(next), 600);
    assert_eq!(refresher.current_phase(), Phase::Sleeping);
    refresher.wake();
    assert_eq!(refresher.current_phase(), Phase::Idle);

    assert_eq!(cache.list_symbols(), symbols(&["AAA", "BBB", "CCC"]));
    assert_eq!(cache.get("BBB").unwrap().value(), "2");
}

#[test]
fn a_failure_is_passed_over() {
    let mut cache = QuoteCache::new();
    let mut refresher = Refresher::new(symbols(&["AAA", "BBB", "CCC"]), 600);
    assert_eq!(fetch_of(refresher.begin()), "AAA");
    assert_eq!(fetch_of(refresher.settle(&mut cache, None)), "BBB");
    let next = refresher.settle(&mut cache, Some(Quote::new("BBB", "2", at(2))));
    assert_eq!(fetch_of(next), "CCC");
    let next = refresher.settle(&mut cache, Some(Quote::new("CCC", "3", at(3))));
    assert_eq!(sleep_of(next), 600);
    assert!(cache.get("AAA").is_none());
    assert_eq!(cache.get("BBB").unwrap().value(), "2");
    assert_eq!(cache.get("CCC").unwrap().value(), "3");
    assert_eq!(cache.list_symbols(), symbols(&["BBB", "CCC"]));
}

#[test]
fn a_failure_leaves_the_stale_quote() {
    let mut cache = QuoteCache::new();
    let mut refresher = Refresher::new(symbols(&["AAA"]), 5);
    assert_eq!(fetch_of(refresher.begin()), "AAA");
    assert_eq!(sleep_of(refresher.settle(&mut cache, Some(Quote::new("AAA", "10", at(1))))), 5);
    refresher.wake();
    assert_eq!(fetch_of(refresher.begin()), "AAA");
    assert_eq!(sleep_of(refresher.settle(&mut cache, None)), 5);
    let stale = cache.get("AAA").unwrap();
    assert_eq!(stale.value(), "10");
    assert_eq!(stale.timestamp().unix_seconds(), 1);
}

#[test]
fn the_next_pass_waits_for_the_end_of_this_one() {
    let mut cache = QuoteCache::new();
    let mut refresher = Refresher::new(symbols(&["AAA", "BBB"]), 600);
    assert_eq!(fetch_of(refresher.begin()), "AAA");

    assert!(refresher.begin().is_none());
    assert_eq!(refresher.current_phase(), Phase::Fetching(0));
    refresher.wake();
    assert_eq!(refresher.current_phase(), Phase::Fetching(0));

    assert_eq!(fetch_of(refresher.settle(&mut cache, None)), "BBB");
    assert!(refresher.begin().is_none());
    assert_eq!(refresher.current_phase(), Phase::Fetching(1));

    assert_eq!(sleep_of(refresher.settle(&mut cache, None)), 600);
    assert!(refresher.begin().is_none());
    assert_eq!(refresher.current_phase(), Phase::Sleeping);

    refresher.wake();
    assert_eq!(fetch_of(refresher.begin()), "AAA");
}

#[test]
fn an_outcome_that_nobody_awaits_is_dropped() {
    let mut cache = QuoteCache::new();
    let mut refresher = Refresher::new(symbols(&["AAA"]), 600);
    assert!(refresher.settle(&mut cache, Some(Quote::new("AAA", "1", at(1)))).is_none());
    assert_eq!(refresher.current_phase(), Phase::Idle);
    assert!(cache.get("AAA").is_none());

    assert_eq!(fetch_of(refresher.begin()), "AAA");
    assert_eq!(sleep_of(refresher.settle(&mut cache, None)), 600);
    assert!(refresher.settle(&mut cache, Some(Quote::new("AAA", "1", at(1)))).is_none());
    assert_eq!(refresher.current_phase(), Phase::Sleeping);
    assert!(cache.get("AAA").is_none());
}

#[test]
fn a_quote_for_another_symbol_is_passed_over() {
    let mut cache = QuoteCache::new();
    let mut refresher = Refresher::new(symbols(&["AAA", "BBB"]), 600);
    assert_eq!(fetch_of(refresher.begin()), "AAA");
    let next = refresher.settle(&mut cache, Some(Quote::new("ZZZ", "1", at(1))));
    assert_eq!(fetch_of(next), "BBB");
    assert!(cache.get("ZZZ").is_none());
    assert!(cache.get("AAA").is_none());
    let next = refresher.settle(&mut cache, Some(Quote::new("BBB", "2", at(2))));
    assert_eq!(sleep_of(next), 600);
    assert_eq!(cache.list_symbols(), symbols(&["BBB"]));
}

#[test]
fn only_listed_symbols_are_ever_found() {
    let mut service = QuoteService::new();
    let mut refresher = Refresher::new(symbols(&["AAA", "BBB"]), 600);
    for pass in 0..3 {
        assert_eq!(fetch_of(refresher.begin()), "AAA");
        service.settle(&mut refresher, Some(Quote::new("AAA", "1", at(pass))));
        service.settle(&mut refresher, Some(Quote::new("CCC", "2", at(pass))));
        refresher.wake();
    }
    assert_eq!(service.available_quotes(), symbols(&["AAA"]));
    assert!(service.find("CCC").is_none());
    assert!(service.find("BBB").is_none());
}

#[test]
fn without_symbols_a_pass_is_only_a_rest() {
    let mut refresher = Refresher::new(Vec::new(), 42);
    assert_eq!(sleep_of(refresher.begin()), 42);
    assert_eq!(refresher.current_phase(), Phase::Sleeping);
    refresher.wake();
    assert_eq!(refresher.current_phase(), Phase::Idle);
}

#[test]
fn scenario_a_one_symbol_fetched_one_failed() {
    let mut service = QuoteService::new();
    let mut refresher = Refresher::new(symbols(&["AAA", "BBB"]), QUOTE_POOLING_TIME);
    let t1 = Timestamp::new(1_643_300_103, 0, 0).unwrap();

    assert_eq!(fetch_of(refresher.begin()), "AAA");
    let value = format!("{}", 10.0_f64);
    let next = service.settle(&mut refresher, Some(Quote::new("AAA", &value, t1)));
    assert_eq!(fetch_of(next), "BBB");
    assert_eq!(sleep_of(service.settle(&mut refresher, None)), 600);

    let found = handle_connection(b"GET /api/v1/quotes/AAA HTTP/1.1\r\n\r\n", &service);
    assert!(found.starts_with("HTTP/1.1 200 OK\r\n"));
    let body: serde_json::Value = serde_json::from_str(body_of(&found)).unwrap();
    assert_eq!(body["symbol"].as_str(), Some("AAA"));
    assert_eq!(body["value"].as_f64(), Some(10.0));
    assert_eq!(body["timestamp"].as_str(), Some(t1.to_rfc3339().as_str()));
    assert_eq!(
        body_of(&found),
        "{ \"timestamp\": \"2022-01-27T16:15:03+00:00\", \"symbol\": \"AAA\", \"value\": 10 }"
    );

    let missing = handle_connection(b"GET /api/v1/quotes/BBB HTTP/1.1\r\n\r\n", &service);
    assert_eq!(missing, NOT_FOUND);

    let list = handle_connection(b"GET /api/v1/quotes HTTP/1.1\r\n\r\n", &service);
    assert!(list.starts_with("HTTP/1.1 200 OK\r\nContent-Length: 7\r\n"));
    assert_eq!(body_of(&list), "[\"AAA\"]");
}

#[test]
fn scenario_b_the_second_pass_replaces_the_first() {
    let mut service = QuoteService::new();
    let mut refresher = Refresher::new(symbols(&["AAA"]), QUOTE_POOLING_TIME);
    let t1 = at(1_000);
    let t2 = at(1_600);
    assert!(t1.is_before(&t2));

    assert_eq!(fetch_of(refresher.begin()), "AAA");
    let first = format!("{}", 10.0_f64);
    assert_eq!(sleep_of(service.settle(&mut refresher, Some(Quote::new("AAA", &first, t1)))), 600);
    assert_eq!(service.find("AAA").unwrap().value(), "10");
    refresher.wake();

    assert_eq!(fetch_of(refresher.begin()), "AAA");
    let second = format!("{}", 12.0_f64);
    assert_eq!(sleep_of(service.settle(&mut refresher, Some(Quote::new("AAA", &second, t2)))), 600);

    let found = handle_connection(b"GET /api/v1/quotes/AAA HTTP/1.1\r\n\r\n", &service);
    let body: serde_json::Value = serde_json::from_str(body_of(&found)).unwrap();
    assert_eq!(body["value"].as_f64(), Some(12.0));
    assert_ne!(body["value"].as_f64(), Some(10.0));
    assert_eq!(body["timestamp"].as_str(), Some(t2.to_rfc3339().as_str()));
    assert_eq!(service.find("AAA").unwrap().timestamp().unix_seconds(), 1_600);
    assert_eq!(service.available_quotes(), symbols(&["AAA"]));
}

#[test]
fn scenario_c_unknown_symbol_and_unknown_operation() {
    let mut service = QuoteService::new();
    service.put(Quote::new("AAA", "10", at(1)));
    let untracked = handle_connection(b"GET /api/v1/quotes/ZZZ HTTP/1.1\r\n\r\n", &service);
    assert_eq!(untracked, NOT_FOUND);
    let requests: [&[u8]; 9] = [
        b"GET / HTTP/1.1\r\n\r\n",
        b"GET /api/v1/quote HTTP/1.1\r\n\r\n",
        b"GET /api/v1/quotes/ HTTP/1.1\r\n\r\n",
        b"GET /api/v1/quotes/AAA/history HTTP/1.1\r\n\r\n",
        b"GET /api/v1/quotes?symbol=AAA HTTP/1.1\r\n\r\n",
        b"GET",
        b"",
        b"\xff\xfe GET /api/v1/quotes/AAA",
        b"/api/v1/quotes",
    ];
    for request in requests {
        assert_eq!(handle_connection(request, &service), NOT_FOUND, "{:?}", request);
    }
}

#[test]
fn request_in_a_zero_padded_buffer() {
    let mut service = QuoteService::new();
    service.put(Quote::new("AAA", "10", at(1)));
    let mut buffer = [0u8; 1024];
    let request = b"GET /api/v1/quotes/AAA HTTP/1.1\r\nHost: localhost\r\n\r\n";
    buffer[..request.len()].copy_from_slice(request);
    let found = handle_connection(&buffer, &service);
    assert!(found.starts_with("HTTP/1.1 200 OK\r\n"));
    assert!(body_of(&found).contains("\"symbol\": \"AAA\""));
}
