use ua_engine::detection::{ClientKind, Detection, DeviceKind, Unrecognized};
use ua_engine::engine::Engine;
use ua_engine::rules::{BotRuleSrc, ClientRuleSrc, DeviceRuleSrc, OsRuleSrc, RuleSetSrc};

const CHROME_UA: &str = "Mozilla/5.0 (Windows NT 10.0; Win64; x64) AppleWebKit/537.36 (KHTML, like Gecko) Chrome/120.0.0.0 Safari/537.36";
const GOOGLEBOT_UA: &str =
    "Mozilla/5.0 (compatible; Googlebot/2.1; +http://www.google.com/bot.html)";

fn empty_rules() -> RuleSetSrc {
    RuleSetSrc {
        version: "test-rules".to_owned(),
        bots: Vec::new(),
        clients: Vec::new(),
        devices: Vec::new(),
        oses: Vec::new(),
    }
}

#[test]
fn crawler_signature_yields_bot() {
    let mut e = Engine::new(16).unwrap();
    match e.classify(GOOGLEBOT_UA, None) {
        Ok(Detection::Bot(b)) => {
            assert_eq!(b.name, "Googlebot");
            assert_eq!(b.category.as_deref(), Some("Search bot"));
            assert!(b.url.is_some());
            let producer = b.producer.expect("producer recorded for Googlebot");
            assert_eq!(producer.name.as_deref(), Some("Google Inc."));
        }
        other => panic!("expected a bot, got {:?}", other),
    }
}

#[test]
fn desktop_browser_yields_client_and_os() {
    let mut e = Engine::new(16).unwrap();
    match e.classify(CHROME_UA, None) {
        Ok(Detection::KnownClient(k)) => {
            let client = k.client.expect("client recognized");
            assert_eq!(client.name, "Chrome");
            assert_eq!(client.kind, ClientKind::Browser);
            assert_eq!(client.version.as_deref(), Some("120.0.0.0"));
            assert_eq!(client.engine.as_deref(), Some("Blink"));
            let os = k.os.expect("os recognized");
            assert_eq!(os.name, "Windows 10");
            assert_eq!(os.family.as_deref(), Some("Windows"));
            let device = k.device.expect("desktop device class recognized");
            assert_eq!(device.kind, Some(DeviceKind::Desktop));
            assert_eq!(device.brand, None);
        }
        other => panic!("expected a known client, got {:?}", other),
    }
}

#[test]
fn empty_string_is_unrecognized() {
    let mut e = Engine::new(16).unwrap();
    assert_eq!(e.classify("", None), Err(Unrecognized));
}

#[test]
fn gibberish_is_unrecognized_not_empty_client() {
    let mut e = Engine::new(16).unwrap();
    match e.classify("qqqq zzzz 1234", None) {
        Err(Unrecognized) => {}
        other => panic!("expected the unrecognized outcome, got {:?}", other),
    }
}

#[test]
fn bot_takes_precedence_over_client_patterns() {
    // The input carries both a crawler signature and a browser signature;
    // the bot family is checked first and short-circuits.
    let ua = "Mozilla/5.0 AppleWebKit/537.36 (KHTML, like Gecko; compatible; Googlebot/2.1; +http://www.google.com/bot.html) Chrome/99.0.0.0 Safari/537.36";
    let mut e = Engine::new(16).unwrap();
    match e.classify(ua, None) {
        Ok(Detection::Bot(b)) => assert_eq!(b.name, "Googlebot"),
        other => panic!("expected bot precedence, got {:?}", other),
    }
}

#[test]
fn first_declared_matching_pattern_wins() {
    let mut rules = empty_rules();
    rules.clients.push(ClientRuleSrc {
        pattern: "Alpha/([0-9.]+)".to_owned(),
        name: "First".to_owned(),
        kind: ClientKind::Browser,
        version_group: Some(1),
        engine: None,
        engine_version_group: None,
    });
    rules.clients.push(ClientRuleSrc {
        pattern: "Alpha".to_owned(),
        name: "Second".to_owned(),
        kind: ClientKind::Browser,
        version_group: None,
        engine: None,
        engine_version_group: None,
    });
    let mut e = Engine::from_rules(&rules, 4).unwrap();
    match e.classify("Alpha/2.5", None) {
        Ok(Detection::KnownClient(k)) => {
            let c = k.client.unwrap();
            assert_eq!(c.name, "First");
            assert_eq!(c.version.as_deref(), Some("2.5"));
        }
        other => panic!("expected a client, got {:?}", other),
    }

    // With the declaration order reversed, the looser rule wins instead.
    let mut swapped = empty_rules();
    swapped.clients.push(ClientRuleSrc {
        pattern: "Alpha".to_owned(),
        name: "Second".to_owned(),
        kind: ClientKind::Browser,
        version_group: None,
        engine: None,
        engine_version_group: None,
    });
    swapped.clients.push(ClientRuleSrc {
        pattern: "Alpha/([0-9.]+)".to_owned(),
        name: "First".to_owned(),
        kind: ClientKind::Browser,
        version_group: Some(1),
        engine: None,
        engine_version_group: None,
    });
    let mut e2 = Engine::from_rules(&swapped, 4).unwrap();
    match e2.classify("Alpha/2.5", None) {
        Ok(Detection::KnownClient(k)) => {
            let c = k.client.unwrap();
            assert_eq!(c.name, "Second");
            assert_eq!(c.version, None);
        }
        other => panic!("expected a client, got {:?}", other),
    }
}

#[test]
fn repeated_call_is_cached_and_identical() {
    let mut e = Engine::new(16).unwrap();
    let first = e.classify(CHROME_UA, None);
    assert_eq!(e.cached_len(), 1);
    let second = e.classify(CHROME_UA, None);
    assert_eq!(e.cached_len(), 1);
    assert_eq!(first, second);
}

#[test]
fn determinism_across_cache_capacities() {
    // The same inputs through an uncached engine (capacity 0) and a cached
    // one yield identical outcomes; only the cache occupancy differs.
    let inputs = [CHROME_UA, GOOGLEBOT_UA, "", "curl/8.5.0", "VLC/3.0.18 LibVLC/3.0.18"];
    let mut uncached = Engine::new(0).unwrap();
    let mut cached = Engine::new(64).unwrap();
    for ua in inputs {
        let a = uncached.classify(ua, None);
        let b = cached.classify(ua, None);
        assert_eq!(a, b);
    }
    assert_eq!(uncached.cached_len(), 0);
    assert_eq!(cached.cached_len(), inputs.len());
}

#[test]
fn capacity_one_engine_recomputes_identically() {
    let mut e = Engine::new(1).unwrap();
    let first = e.classify(CHROME_UA, None);
    let _ = e.classify(GOOGLEBOT_UA, None);
    assert_eq!(e.cached_len(), 1);
    // The first key was evicted; the recomputed outcome is identical.
    let again = e.classify(CHROME_UA, None);
    assert_eq!(first, again);
}

#[test]
fn different_headers_are_different_cache_keys() {
    let mut e = Engine::new(16).unwrap();
    let plain = e.classify(CHROME_UA, None);
    let with_header = e.classify(
        CHROME_UA,
        Some(vec![("sec-ch-ua-model".to_owned(), "Pixel 8".to_owned())]),
    );
    assert_eq!(plain, with_header);
    assert_eq!(e.cached_len(), 2);
}

#[test]
fn header_order_does_not_split_the_cache_key() {
    // The key holds the header set in a canonical order: the same pairs in
    // a different order are the same key, and the second call is a hit.
    let mut e = Engine::new(16).unwrap();
    let h1 = vec![
        ("sec-ch-ua-model".to_owned(), "Pixel 8".to_owned()),
        ("sec-ch-ua-platform".to_owned(), "Android".to_owned()),
    ];
    let h2 = vec![
        ("sec-ch-ua-platform".to_owned(), "Android".to_owned()),
        ("sec-ch-ua-model".to_owned(), "Pixel 8".to_owned()),
    ];
    let first = e.classify(CHROME_UA, Some(h1));
    assert_eq!(e.cached_len(), 1);
    let second = e.classify(CHROME_UA, Some(h2));
    assert_eq!(e.cached_len(), 1);
    assert_eq!(first, second);
}

#[test]
fn samsung_device_model_is_extracted() {
    let ua = "Mozilla/5.0 (Linux; Android 13; SM-G991B) AppleWebKit/537.36 (KHTML, like Gecko) Chrome/112.0.0.0 Mobile Safari/537.36";
    let mut e = Engine::new(16).unwrap();
    match e.classify(ua, None) {
        Ok(Detection::KnownClient(k)) => {
            let d = k.device.unwrap();
            assert_eq!(d.brand.as_deref(), Some("Samsung"));
            assert_eq!(d.model.as_deref(), Some("SM-G991B"));
            assert_eq!(d.kind, Some(DeviceKind::Smartphone));
            let os = k.os.unwrap();
            assert_eq!(os.name, "Android");
        }
        other => panic!("expected a known client, got {:?}", other),
    }
}

#[test]
fn version_is_trimmed_of_trailing_separators() {
    let mut rules = empty_rules();
    rules.clients.push(ClientRuleSrc {
        pattern: "Foo/([0-9.]+)".to_owned(),
        name: "Foo".to_owned(),
        kind: ClientKind::Library,
        version_group: Some(1),
        engine: None,
        engine_version_group: None,
    });
    let mut e = Engine::from_rules(&rules, 4).unwrap();
    match e.classify("Foo/1.2.3.", None) {
        Ok(Detection::KnownClient(k)) => {
            assert_eq!(k.client.unwrap().version.as_deref(), Some("1.2.3"));
        }
        other => panic!("expected a client, got {:?}", other),
    }
    // A capture that is nothing but separators yields no version at all.
    match e.classify("Foo/...", None) {
        Ok(Detection::KnownClient(k)) => {
            assert_eq!(k.client.unwrap().version, None);
        }
        other => panic!("expected a client, got {:?}", other),
    }
}

#[test]
fn malformed_pattern_is_a_construction_fault() {
    let mut rules = empty_rules();
    rules.bots.push(BotRuleSrc {
        pattern: "(".to_owned(),
        name: "Broken".to_owned(),
        category: None,
        url: None,
        producer_name: None,
        producer_url: None,
    });
    let fault = Engine::from_rules(&rules, 4).err().expect("a broken pattern must refuse to load");
    assert!(!fault.message_text().is_empty());
}

#[test]
fn empty_rule_name_is_a_construction_fault() {
    let mut rules = empty_rules();
    rules.oses.push(OsRuleSrc {
        pattern: "Anything".to_owned(),
        name: String::new(),
        family: None,
        platform: None,
    });
    assert!(Engine::from_rules(&rules, 4).is_err());
}

#[test]
fn os_only_match_is_recognized_not_empty() {
    // A match in a single family yields a known client with just that
    // sub-record, which is distinct from the unrecognized outcome.
    let mut rules = empty_rules();
    rules.oses.push(OsRuleSrc {
        pattern: "HaikuOS".to_owned(),
        name: "Haiku".to_owned(),
        family: Some("Haiku".to_owned()),
        platform: Some("x86".to_owned()),
    });
    rules.devices.push(DeviceRuleSrc {
        pattern: "NeverMatchesAnything12345".to_owned(),
        brand: Some("Nobody".to_owned()),
        model_group: None,
        kind: None,
    });
    let mut e = Engine::from_rules(&rules, 4).unwrap();
    match e.classify("Browser on HaikuOS", None) {
        Ok(Detection::KnownClient(k)) => {
            assert!(k.client.is_none());
            assert!(k.device.is_none());
            let os = k.os.unwrap();
            assert_eq!(os.name, "Haiku");
            assert_eq!(os.family.as_deref(), Some("Haiku"));
            assert_eq!(os.platform.as_deref(), Some("x86"));
        }
        other => panic!("expected a known client, got {:?}", other),
    }
    assert_eq!(e.classify("something else entirely", None), Err(Unrecognized));
}

#[test]
fn engine_reports_capacity_and_db_version() {
    let e = Engine::new(7).unwrap();
    assert_eq!(e.cache_capacity(), 7);
    assert_eq!(e.db_version(), "builtin-1");
    let custom = Engine::from_rules(&empty_rules(), 0).unwrap();
    assert_eq!(custom.cache_capacity(), 0);
    assert_eq!(custom.db_version(), "test-rules");
}
