use ua_engine::cache::{CacheKey, LruCache};
use ua_engine::detection::{Bot, Detection, Unrecognized};

fn key(ua: &str) -> CacheKey {
    CacheKey { ua: ua.to_owned(), headers: Vec::new() }
}

fn bot_result(name: &str) -> Result<Detection, Unrecognized> {
    Ok(Detection::Bot(Bot {
        name: name.to_owned(),
        category: None,
        url: None,
        producer: None,
    }))
}

#[test]
fn get_returns_what_put_stored() {
    let mut c = LruCache::new(4);
    c.put(key("a"), bot_result("Alpha"));
    assert_eq!(c.get(&key("a")), Some(bot_result("Alpha")));
    assert_eq!(c.get(&key("b")), None);
}

#[test]
fn rewrite_replaces_the_stored_value() {
    let mut c = LruCache::new(4);
    c.put(key("a"), bot_result("Old"));
    c.put(key("a"), bot_result("New"));
    assert_eq!(c.len(), 1);
    assert_eq!(c.get(&key("a")), Some(bot_result("New")));
}

#[test]
fn capacity_is_never_exceeded() {
    let mut c = LruCache::new(3);
    for name in ["a", "b", "c", "d", "e"] {
        c.put(key(name), Err(Unrecognized));
    }
    assert_eq!(c.len(), 3);
}

#[test]
fn a_fresh_key_at_capacity_evicts_exactly_the_oldest() {
    let mut c = LruCache::new(2);
    c.put(key("first"), bot_result("F"));
    c.put(key("second"), bot_result("S"));
    c.put(key("third"), bot_result("T"));
    assert_eq!(c.get(&key("first")), None);
    assert_eq!(c.get(&key("second")), Some(bot_result("S")));
    assert_eq!(c.get(&key("third")), Some(bot_result("T")));
}

#[test]
fn a_read_resets_recency() {
    let mut c = LruCache::new(2);
    c.put(key("first"), bot_result("F"));
    c.put(key("second"), bot_result("S"));
    // Touching "first" makes "second" the least recently used entry,
    // so the next fresh key evicts "second", not "first".
    assert_eq!(c.get(&key("first")), Some(bot_result("F")));
    c.put(key("third"), bot_result("T"));
    assert_eq!(c.get(&key("second")), None);
    assert_eq!(c.get(&key("first")), Some(bot_result("F")));
    assert_eq!(c.get(&key("third")), Some(bot_result("T")));
}

#[test]
fn a_rewrite_resets_recency_too() {
    let mut c = LruCache::new(2);
    c.put(key("first"), bot_result("F"));
    c.put(key("second"), bot_result("S"));
    c.put(key("first"), bot_result("F2"));
    c.put(key("third"), bot_result("T"));
    assert_eq!(c.get(&key("second")), None);
    assert_eq!(c.get(&key("first")), Some(bot_result("F2")));
}

#[test]
fn zero_capacity_stores_nothing_and_never_errors() {
    let mut c = LruCache::new(0);
    c.put(key("a"), bot_result("A"));
    assert_eq!(c.len(), 0);
    assert_eq!(c.get(&key("a")), None);
}

#[test]
fn keys_differ_when_headers_differ() {
    let mut c = LruCache::new(4);
    let plain = key("ua");
    let with_header = CacheKey {
        ua: "ua".to_owned(),
        headers: vec![("name".to_owned(), "value".to_owned())],
    };
    c.put(plain, bot_result("Plain"));
    c.put(with_header, bot_result("WithHeader"));
    assert_eq!(c.len(), 2);
    assert_eq!(c.get(&key("ua")), Some(bot_result("Plain")));
    let probe = CacheKey {
        ua: "ua".to_owned(),
        headers: vec![("name".to_owned(), "value".to_owned())],
    };
    assert_eq!(c.get(&probe), Some(bot_result("WithHeader")));
}
