use web_server::instant::Timestamp;
use web_server::quote::Quote;
use web_server::service::{QuoteRetriever, QuoteService};
use web_server::web::{handle_connection, parse_request, to_json, write_response, Request};

fn body_of(response: &str) -> &str {
    let at = response.find("\r\n\r\n").unwrap();
    &response[at + 4..]
}

#[test]
fn to_json_renders_empty_list() {
    assert_eq!(to_json(vec![]), "[]");
}

#[test]
fn to_json_quotes_and_separates() {
    assert_eq!(to_json(vec!["AAA".to_string()]), "[\"AAA\"]");
    assert_eq!(
        to_json(vec!["AAA".to_string(), "BBB".to_string(), "C".to_string()]),
        "[\"AAA\",\"BBB\",\"C\"]"
    );
}

#[test]
fn write_response_counts_bytes() {
    assert_eq!(
        write_response("HTTP/1.1 200 OK", "[\"AAA\"]"),
        "HTTP/1.1 200 OK\r\nContent-Length: 7\r\nContent-Type: application/json\r\n\r\n[\"AAA\"]"
    );
    assert_eq!(
        write_response("HTTP/1.1 404 NOT FOUND", ""),
        "HTTP/1.1 404 NOT FOUND\r\nContent-Length: 0\r\nContent-Type: application/json\r\n\r\n"
    );
    let long = "x".repeat(1234);
    assert!(write_response("S", &long).starts_with("S\r\nContent-Length: 1234\r\n"));
    assert!(write_response("S", "é").starts_with("S\r\nContent-Length: 2\r\n"));
}

#[test]
fn parse_request_recognises_the_two_operations() {
    assert!(matches!(parse_request(b"GET /api/v1/quotes HTTP/1.1\r\n\r\n"), Request::Symbols));
    match parse_request(b"GET /api/v1/quotes/MSFT HTTP/1.1\r\n\r\n") {
        Request::Quote(symbol) => assert_eq!(symbol, "MSFT"),
        other => panic!("{:?}", other),
    }
}

#[test]
fn parse_request_rejects_other_shapes() {
    assert!(matches!(parse_request(b""), Request::Unknown));
    assert!(matches!(parse_request(b"GET"), Request::Unknown));
    assert!(matches!(parse_request(b"GET / HTTP/1.1"), Request::Unknown));
    assert!(matches!(parse_request(b"GET /api/v1/quotes/A/B HTTP/1.1"), Request::Unknown));
    assert!(matches!(parse_request(b"GET /api/v2/quotes/A HTTP/1.1"), Request::Unknown));
    assert!(matches!(parse_request(b"GET \xff/api/v1/quotes HTTP/1.1"), Request::Unknown));
}

#[test]
fn scenario_one_success_one_failure() {
    let mut service = QuoteService::new();
    let t1 = Timestamp::new(1_643_300_103, 0, 0).unwrap();
    service.put(Quote::new("AAA", "10", t1));

    let found = handle_connection(b"GET /api/v1/quotes/AAA HTTP/1.1\r\n\r\n", &service);
    assert!(found.starts_with("HTTP/1.1 200 OK\r\n"));
    assert_eq!(
        body_of(&found),
        "{ \"timestamp\": \"2022-01-27T16:15:03+00:00\", \"symbol\": \"AAA\", \"value\": 10 }"
    );

    let missing = handle_connection(b"GET /api/v1/quotes/BBB HTTP/1.1\r\n\r\n", &service);
    assert_eq!(
        missing,
        "HTTP/1.1 404 NOT FOUND\r\nContent-Length: 0\r\nContent-Type: application/json\r\n\r\n"
    );

    let list = handle_connection(b"GET /api/v1/quotes HTTP/1.1\r\n\r\n", &service);
    assert_eq!(body_of(&list), "[\"AAA\"]");
    assert_eq!(service.available_quotes(), vec!["AAA".to_string()]);
}
