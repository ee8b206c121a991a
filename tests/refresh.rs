use arraybutt::cache::{CacheError, CacheRetrievalError, QuoteCache, DEFAULT_REQ_DELAY};

const DOC: &str = "{\"2020\": {\"3\": [\"hello\", \"world\"]}}";

fn texts(cache: &QuoteCache) -> Vec<String> {
    let c = cache.get_quotes().unwrap();
    let mut out = Vec::new();
    for (_, year) in c.years.iter() {
        for (_, month) in year.months.iter() {
            for q in &month.quotes {
                out.push(q.text.clone());
            }
        }
    }
    out
}

#[test]
fn fresh_cache_is_empty_and_due() {
    let mut cache = QuoteCache::new("http://example.invalid/q.json".to_string(), DEFAULT_REQ_DELAY);
    assert_eq!(cache.get_quotes().err(), Some(CacheError));
    assert!(cache.refresh_due(1_600_000_000_000));
    assert!(cache.begin_refresh(1_600_000_000_000));
    assert_eq!(cache.last_request_time, 1_600_000_000_000);
    assert_eq!(cache.get_quotes().err(), Some(CacheError));
}

#[test]
fn default_delay_is_thirty_minutes() {
    assert_eq!(DEFAULT_REQ_DELAY, 30 * 60 * 1000);
}

#[test]
fn ttl_gates_refresh() {
    let ttl: u64 = 60_000;
    let mut cache = QuoteCache::new("u".to_string(), ttl);
    let start: u64 = 1_000_000;
    assert!(cache.begin_refresh(start));
    assert_eq!(cache.complete_refresh(Ok(DOC.to_string())), Ok(()));
    // One second before the time-to-live runs out: nothing happens.
    let now = start + ttl - 1000;
    assert!(!cache.begin_refresh(now));
    assert_eq!(cache.last_request_time, start);
    assert_eq!(texts(&cache), vec!["hello", "world"]);
    // One second after it: a refresh is due and stamped.
    let now = start + ttl + 1000;
    assert!(cache.begin_refresh(now));
    assert_eq!(cache.last_request_time, now);
}

#[test]
fn clock_before_last_attempt_is_not_due() {
    let mut cache = QuoteCache::new("u".to_string(), 0);
    assert!(cache.begin_refresh(5000));
    assert!(!cache.refresh_due(4000));
    assert!(cache.refresh_due(5000));
}

#[test]
fn failed_fetch_keeps_stale_snapshot() {
    let mut cache = QuoteCache::new("u".to_string(), 1000);
    assert!(cache.begin_refresh(10_000));
    assert_eq!(cache.complete_refresh(Ok(DOC.to_string())), Ok(()));
    assert!(cache.begin_refresh(20_000));
    let r = cache.complete_refresh(Err("timed out".to_string()));
    assert_eq!(r, Err(CacheRetrievalError::Fetch("timed out".to_string())));
    assert_eq!(cache.last_request_time, 20_000);
    assert!(!cache.refresh_due(20_500));
    assert_eq!(texts(&cache), vec!["hello", "world"]);
    assert_eq!(cache.get_quotes().unwrap().size, 2);
}

#[test]
fn undecodable_or_malformed_text_keeps_snapshot() {
    let mut cache = QuoteCache::new("u".to_string(), 0);
    assert_eq!(cache.complete_refresh(Ok(DOC.to_string())), Ok(()));
    assert!(matches!(cache.complete_refresh(Ok("{oops".to_string())), Err(CacheRetrievalError::Decode(_))));
    assert_eq!(cache.complete_refresh(Ok("[1, 2]".to_string())), Err(CacheRetrievalError::MalformedDocument));
    assert_eq!(texts(&cache), vec!["hello", "world"]);
}

#[test]
fn failure_before_any_load_leaves_cache_empty() {
    let mut cache = QuoteCache::new("u".to_string(), 0);
    assert!(cache.begin_refresh(1));
    assert!(cache.complete_refresh(Err("refused".to_string())).is_err());
    assert_eq!(cache.get_quotes().err(), Some(CacheError));
}

#[test]
fn zero_ttl_always_refreshes() {
    let mut cache = QuoteCache::new("u".to_string(), 0);
    for now in [0u64, 0, 7, 7, 100] {
        assert!(cache.begin_refresh(now));
        assert_eq!(cache.complete_refresh(Ok(DOC.to_string())), Ok(()));
        assert_eq!(cache.get_quotes().unwrap().size, 2);
    }
}

#[test]
fn successful_refresh_replaces_snapshot() {
    let mut cache = QuoteCache::new("u".to_string(), 0);
    assert_eq!(cache.complete_refresh(Ok(DOC.to_string())), Ok(()));
    assert_eq!(cache.complete_refresh(Ok("{\"2021\": {\"1\": [\"new\"]}}".to_string())), Ok(()));
    assert_eq!(texts(&cache), vec!["new"]);
    assert_eq!(cache.get_quotes().unwrap().size, 1);
}

#[test]
fn error_messages_name_the_failure() {
    assert_eq!(CacheError.message(), "Cache miss!");
    assert_eq!(
        CacheRetrievalError::Fetch("timed out".to_string()).message(),
        "Cache retrieval failed: timed out"
    );
    assert_eq!(
        CacheRetrievalError::MalformedDocument.message(),
        "Cache retrieval failed: the document is not a JSON object"
    );
}

#[test]
fn decoder_failure_is_reported_as_decode() {
    let mut cache = QuoteCache::new("u".to_string(), 0);
    assert!(cache.begin_refresh(3));
    let r = cache.complete_refresh(Ok("not json at all".to_string()));
    assert!(matches!(r, Err(CacheRetrievalError::Decode(ref m)) if !m.is_empty()));
    assert_eq!(cache.get_quotes().err(), Some(CacheError));
    assert_eq!(cache.last_request_time, 3);
}
