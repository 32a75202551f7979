use web_server::cache::QuoteCache;
use web_server::instant::Timestamp;
use web_server::quote::Quote;
use web_server::service::{QuoteRetriever, QuoteService};

fn at(seconds: i64) -> Timestamp {
    Timestamp::new(seconds, 0, 0).unwrap()
}

#[test]
fn empty_cache_holds_nothing() {
    let cache = QuoteCache::new();
    assert!(cache.get("AAA").is_none());
    assert!(cache.get("").is_none());
    assert!(cache.list_symbols().is_empty());
}

#[test]
fn get_returns_what_was_put() {
    let mut cache = QuoteCache::new();
    cache.put(Quote::new("AAA", "10", at(100)));
    let found = cache.get("AAA").unwrap();
    assert_eq!(found.symbol(), "AAA");
    assert_eq!(found.value(), "10");
    assert_eq!(found.timestamp().unix_seconds(), 100);
}

#[test]
fn absent_before_first_write_whatever_else_is_held() {
    let mut cache = QuoteCache::new();
    cache.put(Quote::new("AAA", "10", at(100)));
    cache.put(Quote::new("CCC", "30", at(101)));
    assert!(cache.get("BBB").is_none());
    assert!(cache.get("AA").is_none());
    assert!(cache.get("AAAA").is_none());
}

#[test]
fn symbols_are_case_sensitive() {
    let mut cache = QuoteCache::new();
    cache.put(Quote::new("abc", "1", at(1)));
    assert!(cache.get("ABC").is_none());
    cache.put(Quote::new("ABC", "2", at(2)));
    assert_eq!(cache.get("abc").unwrap().value(), "1");
    assert_eq!(cache.get("ABC").unwrap().value(), "2");
    assert_eq!(cache.list_symbols(), vec!["abc".to_string(), "ABC".to_string()]);
}

#[test]
fn put_replaces_the_whole_quote() {
    let mut cache = QuoteCache::new();
    cache.put(Quote::new("AAA", "10", at(100)));
    cache.put(Quote::new("BBB", "20", at(100)));
    cache.put(Quote::new("AAA", "12", at(200)));
    let found = cache.get("AAA").unwrap();
    assert_eq!(found.value(), "12");
    assert_eq!(found.timestamp().unix_seconds(), 200);
    let other = cache.get("BBB").unwrap();
    assert_eq!(other.value(), "20");
    assert_eq!(other.timestamp().unix_seconds(), 100);
}

#[test]
fn one_entry_per_symbol_in_order_of_arrival() {
    let mut cache = QuoteCache::new();
    cache.put(Quote::new("BBB", "1", at(1)));
    cache.put(Quote::new("AAA", "2", at(2)));
    cache.put(Quote::new("BBB", "3", at(3)));
    cache.put(Quote::new("CCC", "4", at(4)));
    cache.put(Quote::new("AAA", "5", at(5)));
    assert_eq!(
        cache.list_symbols(),
        vec!["BBB".to_string(), "AAA".to_string(), "CCC".to_string()]
    );
}

#[test]
fn service_starts_empty() {
    let service = QuoteService::new();
    assert!(service.find("AAA").is_none());
    assert!(service.available_quotes().is_empty());
}

#[test]
fn service_finds_the_latest_put() {
    let mut service = QuoteService::new();
    service.put(Quote::new("AAA", "10", at(100)));
    service.put(Quote::new("BBB", "20", at(101)));
    service.put(Quote::new("AAA", "12", at(200)));
    let found = service.find("AAA").unwrap();
    assert_eq!(found.symbol(), "AAA");
    assert_eq!(found.value(), "12");
    assert_eq!(found.timestamp().unix_seconds(), 200);
    assert!(service.find("ZZZ").is_none());
    assert_eq!(service.available_quotes(), vec!["AAA".to_string(), "BBB".to_string()]);
}

#[test]
fn service_serves_readers_behind_a_lock() {
    let shared = std::sync::Arc::new(std::sync::RwLock::new(QuoteService::new()));
    shared.write().unwrap().put(Quote::new("AAA", "10", at(100)));
    let first = shared.read().unwrap();
    let second = shared.read().unwrap();
    assert_eq!(first.find("AAA").unwrap().value(), "10");
    assert_eq!(second.find("AAA").unwrap().value(), "10");
    assert!(second.find("BBB").is_none());
}

#[test]
fn service_can_be_read_many_times_over() {
    let mut service = QuoteService::new();
    service.put(Quote::new("AAA", "10", at(100)));
    for _ in 0..100 {
        assert_eq!(service.find("AAA").unwrap().value(), "10");
        assert_eq!(service.available_quotes().len(), 1);
    }
    service.put(Quote::new("AAA", "11", at(101)));
    assert_eq!(service.find("AAA").unwrap().value(), "11");
}
