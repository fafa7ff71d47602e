use zcash_address::unified::{Address, Encoding, Receiver};
use zcash_protocol::consensus::NetworkType;
use zcash_radio_scan::{
    cache_entry_for, cache_entry_fresh, cache_path, extract_unified_address, find_address_in_json,
    process_posts, retry_delay, should_retry_status, tip_from_decoded, validate_unified_address,
    Action, AddressNetwork, CachedTipEntry, DecodedAddress, Denylist, Event, JsonValue, Post,
    ReceiverKind, Resolver, Stage, TipInfo, CACHE_TTL_SECS,
};

const BASE: &str = "https://forum.example/t/topic/7";

fn encoded(items: Vec<Receiver>, net: NetworkType) -> String {
    Address::try_from_items(items).unwrap().encode(&net)
}

fn shielded_ua() -> String {
    encoded(vec![Receiver::Orchard([7u8; 43])], NetworkType::Main)
}

fn profile(text: &str) -> JsonValue {
    JsonValue::Object(vec![
        ("id".to_string(), JsonValue::Number("4".to_string())),
        (
            "user".to_string(),
            JsonValue::Object(vec![
                ("name".to_string(), JsonValue::String("Someone".to_string())),
                (
                    "bio".to_string(),
                    JsonValue::Array(vec![JsonValue::Null, JsonValue::String(text.to_string())]),
                ),
            ]),
        ),
    ])
}

fn started(user: &str) -> Resolver {
    let mut r = Resolver::new(user.to_string(), BASE.to_string());
    assert!(matches!(r.start(), Action::ReadCache));
    r
}

fn expect_get(a: Action) -> String {
    match a {
        Action::Get { url } => url,
        _ => panic!("expected a request"),
    }
}

#[test]
fn retry_policy() {
    assert!(should_retry_status(500));
    assert!(should_retry_status(503));
    assert!(should_retry_status(599));
    assert!(should_retry_status(429));
    assert!(!should_retry_status(404));
    assert!(!should_retry_status(200));
    assert!(!should_retry_status(600));
    assert_eq!(retry_delay(0), 500);
    assert_eq!(retry_delay(1), 1000);
    assert_eq!(retry_delay(2), 2000);
    assert_eq!(retry_delay(5), 16000);
    assert_eq!(retry_delay(40), 16000);
}

#[test]
fn cache_paths_are_safe() {
    assert_eq!(cache_path("alice"), "./target/profile_cache/alice.json");
    assert_eq!(cache_path("a.b c/é"), "./target/profile_cache/a_b_c__.json");
}

#[test]
fn cache_freshness_window() {
    let e = CachedTipEntry { cached_at: 1000, tip_unified_address: None, tip_has_transparent: false };
    assert!(cache_entry_fresh(&e, 1000 + CACHE_TTL_SECS));
    assert!(!cache_entry_fresh(&e, 1001 + CACHE_TTL_SECS));
    assert!(cache_entry_fresh(&e, 10));
    let tip = Some(TipInfo { address: "u1x".to_string(), has_transparent: false });
    let c = cache_entry_for(&tip, 77);
    assert_eq!(c.cached_at, 77);
    assert_eq!(c.tip_unified_address.as_deref(), Some("u1x"));
    let none = cache_entry_for(&None, 78);
    assert!(none.tip_unified_address.is_none() && !none.tip_has_transparent);
}

#[test]
fn candidate_search() {
    assert_eq!(
        extract_unified_address("tips: U1ABCDEFGHIJK0 thanks"),
        Some("u1abcdefghijk0".to_string())
    );
    assert_eq!(extract_unified_address("u1short"), None);
    let v = profile("send to u1qqqqqqqqqqqq please");
    assert_eq!(find_address_in_json(&v), Some("u1qqqqqqqqqqqq".to_string()));
    assert_eq!(find_address_in_json(&profile("nothing here")), None);
    assert_eq!(find_address_in_json(&JsonValue::Bool(true)), None);
}

#[test]
fn validation_rules() {
    let ua = shielded_ua();
    let tip = validate_unified_address(&ua).unwrap();
    assert_eq!(tip.address, ua);
    assert!(!tip.has_transparent);
    assert!(validate_unified_address("u1notanaddress").is_none());
    let test_net = encoded(vec![Receiver::Orchard([7u8; 43])], NetworkType::Test);
    assert!(validate_unified_address(&test_net).is_none());
    let with_t = encoded(
        vec![Receiver::Orchard([7u8; 43]), Receiver::P2pkh([1u8; 20])],
        NetworkType::Main,
    );
    assert!(validate_unified_address(&with_t).is_none());
    let d = DecodedAddress { network: AddressNetwork::Main, receivers: vec![ReceiverKind::Sapling] };
    assert_eq!(tip_from_decoded("u1abc", Some(d)).unwrap().address, "u1abc");
    let d = DecodedAddress {
        network: AddressNetwork::Main,
        receivers: vec![ReceiverKind::Orchard, ReceiverKind::P2sh],
    };
    assert!(tip_from_decoded("u1abc", Some(d)).is_none());
    let d = DecodedAddress { network: AddressNetwork::Regtest, receivers: vec![ReceiverKind::Orchard] };
    assert!(tip_from_decoded("u1abc", Some(d)).is_none());
    assert!(tip_from_decoded("u1abc", None).is_none());
}

#[test]
fn empty_handle_needs_no_cache() {
    let mut r = Resolver::new(String::new(), BASE.to_string());
    assert!(matches!(r.start(), Action::Finish { tip: None }));
    assert_eq!(r.stage, Stage::Done);
}

#[test]
fn fresh_cache_is_returned_without_request() {
    let mut r = started("alice");
    let entry = CachedTipEntry {
        cached_at: 5000,
        tip_unified_address: Some("u1cached".to_string()),
        tip_has_transparent: false,
    };
    match r.on_event(Event::CacheLoaded { entry: Some(entry), now: 5000 + CACHE_TTL_SECS }) {
        Action::Finish { tip: Some(t) } => assert_eq!(t.address, "u1cached"),
        _ => panic!("expected the cached tip"),
    }
    let mut r = started("alice");
    let negative = CachedTipEntry { cached_at: 5000, tip_unified_address: None, tip_has_transparent: false };
    assert!(matches!(
        r.on_event(Event::CacheLoaded { entry: Some(negative), now: 6000 }),
        Action::Finish { tip: None }
    ));
}

#[test]
fn stale_cache_triggers_lookup() {
    let mut r = started("alice");
    let entry = CachedTipEntry {
        cached_at: 5000,
        tip_unified_address: Some("u1cached".to_string()),
        tip_has_transparent: false,
    };
    let a = r.on_event(Event::CacheLoaded { entry: Some(entry), now: 5001 + CACHE_TTL_SECS });
    assert_eq!(expect_get(a), "https://forum.example/u/alice.json");
    assert_eq!(r.stage, Stage::AwaitStatus);
}

#[test]
fn retry_then_success() {
    let ua = shielded_ua();
    let mut r = started("bob");
    let url = expect_get(r.on_event(Event::CacheLoaded { entry: None, now: 1 }));
    for attempt in 0..2usize {
        match r.on_event(Event::Status { code: 503 }) {
            Action::Sleep { millis } => assert_eq!(millis, retry_delay(attempt)),
            _ => panic!("expected a retry"),
        }
        assert_eq!(expect_get(r.on_event(Event::Slept)), url);
    }
    assert!(matches!(r.on_event(Event::Status { code: 200 }), Action::ReadJsonBody));
    let body = profile(&format!("my tip address: {}", ua));
    let tip = match r.on_event(Event::JsonBody { value: Some(body) }) {
        Action::WriteCache { tip: Some(t) } => t,
        _ => panic!("expected a cache write"),
    };
    assert_eq!(tip.address, ua);
    let entry = cache_entry_for(&Some(tip), 100);
    assert!(cache_entry_fresh(&entry, 100));
    match r.on_event(Event::Written) {
        Action::Finish { tip: Some(t) } => assert_eq!(t.address, ua),
        _ => panic!("expected the tip"),
    }
}

#[test]
fn retry_exhaustion_caches_nothing() {
    let mut r = started("carol");
    expect_get(r.on_event(Event::CacheLoaded { entry: None, now: 1 }));
    assert!(matches!(r.on_event(Event::Status { code: 500 }), Action::Sleep { .. }));
    expect_get(r.on_event(Event::Slept));
    assert!(matches!(r.on_event(Event::TransportFailed), Action::Sleep { .. }));
    expect_get(r.on_event(Event::Slept));
    assert!(matches!(r.on_event(Event::Status { code: 502 }), Action::Finish { tip: None }));
    assert_eq!(r.stage, Stage::Done);
}

#[test]
fn transparent_receiver_is_a_cached_negative() {
    let with_t = encoded(
        vec![Receiver::Orchard([9u8; 43]), Receiver::P2pkh([1u8; 20])],
        NetworkType::Main,
    );
    let mut r = started("dave");
    expect_get(r.on_event(Event::CacheLoaded { entry: None, now: 1 }));
    assert!(matches!(r.on_event(Event::Status { code: 200 }), Action::ReadJsonBody));
    let a = r.on_event(Event::JsonBody { value: Some(profile(&with_t)) });
    assert!(matches!(a, Action::WriteCache { tip: None }));
    assert!(matches!(r.on_event(Event::Written), Action::Finish { tip: None }));
}

#[test]
fn page_fallback_and_not_found() {
    let ua = shielded_ua();
    let mut r = started("erin");
    expect_get(r.on_event(Event::CacheLoaded { entry: None, now: 1 }));
    assert!(matches!(r.on_event(Event::Status { code: 200 }), Action::ReadJsonBody));
    let page = expect_get(r.on_event(Event::JsonBody { value: Some(profile("no address")) }));
    assert_eq!(page, "https://forum.example/u/erin");
    assert!(matches!(r.on_event(Event::Status { code: 200 }), Action::ReadTextBody));
    let a = r.on_event(Event::TextBody { text: Some(format!("<p>{}</p>", ua.to_uppercase())) });
    match a {
        Action::WriteCache { tip: Some(t) } => assert_eq!(t.address, ua),
        _ => panic!("expected a tip from the page"),
    }

    let mut r = started("frank");
    expect_get(r.on_event(Event::CacheLoaded { entry: None, now: 1 }));
    assert!(matches!(r.on_event(Event::Status { code: 404 }), Action::WriteCache { tip: None }));

    let mut r = started("gina");
    expect_get(r.on_event(Event::CacheLoaded { entry: None, now: 1 }));
    assert!(matches!(r.on_event(Event::Status { code: 403 }), Action::Finish { tip: None }));
    assert!(matches!(r.on_event(Event::Slept), Action::Finish { tip: None }));
}

#[test]
fn authors_and_tips_merge() {
    let posts = vec![
        Post {
            post_number: 1,
            cooked: "<a href=\"https://youtu.be/AAAAAAAAAAA\">a</a>".to_string(),
            username: " bob ".to_string(),
        },
        Post {
            post_number: 2,
            cooked: "<a href=\"https://youtu.be/BBBBBBBBBBB\">b</a>".to_string(),
            username: "bob".to_string(),
        },
        Post {
            post_number: 3,
            cooked: "<a href=\"https://youtu.be/CCCCCCCCCCC\">c</a>".to_string(),
            username: "".to_string(),
        },
        Post {
            post_number: 4,
            cooked: "<a href=\"https://youtu.be/DDDDDDDDDDD\">d</a>".to_string(),
            username: "carol".to_string(),
        },
    ];
    let mut map = process_posts(&posts, "https://f", &Denylist::from_ids(vec![]));
    assert_eq!(map.authors(), vec!["bob".to_string(), "carol".to_string()]);
    let results = vec![
        ("carol".to_string(), None),
        (
            "bob".to_string(),
            Some(TipInfo { address: "u1bobaddress".to_string(), has_transparent: false }),
        ),
    ];
    map.apply_tips(&results);
    let a = map.get("AAAAAAAAAAA").unwrap();
    assert_eq!(a.tip_unified_address.as_deref(), Some("u1bobaddress"));
    assert_eq!(a.tip_has_transparent, Some(false));
    assert_eq!(map.get("BBBBBBBBBBB").unwrap().tip_unified_address.as_deref(), Some("u1bobaddress"));
    assert!(map.get("CCCCCCCCCCC").unwrap().tip_unified_address.is_none());
    let d = map.get("DDDDDDDDDDD").unwrap();
    assert!(d.tip_unified_address.is_none() && d.tip_has_transparent.is_none());
}
