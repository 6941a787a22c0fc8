use binary_options_tools::error::{ConnectorError, PocketError};
use binary_options_tools::utils::{
    build_handshake, contains_text, geo_target, get_index, index_from_parts, ip_provider,
    next_geo_target, public_ip_first_step, public_ip_from_body, public_ip_next_step,
    public_ip_not_found, IpLookupStep, IP_PROVIDER_COUNT,
};

#[test]
fn public_ip_lookup_steps() {
    assert!(matches!(public_ip_first_step(), IpLookupStep::Ask(0, "https://i.pn/json/")));
    assert!(matches!(public_ip_next_step(0, None), IpLookupStep::Ask(1, "https://ip.pn/json/")));
    assert!(matches!(public_ip_next_step(2, Some(b"not json")), IpLookupStep::Ask(3, "https://api.ipify.org?format=json")));
    match public_ip_next_step(3, Some(br#"{"ip":"4.4.4.4"}"#)) {
        IpLookupStep::Found(ip) => assert_eq!(ip, "4.4.4.4"),
        other => panic!("unexpected {:?}", other),
    }
    match public_ip_next_step(7, Some(br#"{}"#)) {
        IpLookupStep::Failed(PocketError::General(m)) => {
            assert_eq!(m, "Failed to retrieve public IP from any provider")
        }
        other => panic!("unexpected {:?}", other),
    }
    match public_ip_next_step(7, Some(br#"{"origin":"5.5.5.5"}"#)) {
        IpLookupStep::Found(ip) => assert_eq!(ip, "5.5.5.5"),
        other => panic!("unexpected {:?}", other),
    }
}

#[test]
fn index_joins_time_and_suffix() {
    assert_eq!(index_from_parts(1_700_000_000, 42).unwrap(), 170_000_000_042);
    assert_eq!(index_from_parts(0, 10).unwrap(), 10);
    assert_eq!(index_from_parts(184_467_440_737_095_516, 15).unwrap(), u64::MAX);
    match index_from_parts(184_467_440_737_095_516, 16) {
        Err(PocketError::General(m)) => assert_eq!(m, "number too large to fit in target type"),
        other => panic!("unexpected {:?}", other),
    }
    match index_from_parts(-3, 50) {
        Err(PocketError::General(m)) => assert_eq!(m, "invalid digit found in string"),
        other => panic!("unexpected {:?}", other),
    }
}

#[test]
fn fresh_index_ends_in_two_random_digits() {
    let mut suffixes = std::collections::HashSet::new();
    for _ in 0..200 {
        let i = get_index().unwrap();
        assert!((10..=98).contains(&(i % 100)));
        assert!(i / 100 > 1_600_000_000);
        suffixes.insert(i % 100);
    }
    assert!(suffixes.len() > 1);
}

#[test]
fn providers_in_order() {
    assert_eq!(ip_provider(0), Some("https://i.pn/json/"));
    assert_eq!(ip_provider(3), Some("https://api.ipify.org?format=json"));
    assert_eq!(ip_provider(7), Some("https://ipwho.is/"));
    assert_eq!(ip_provider(IP_PROVIDER_COUNT), None);
}

#[test]
fn substring_search() {
    assert!(contains_text("https://ipapi.co/", "ipapi.co"));
    assert!(contains_text("abc", ""));
    assert!(contains_text("abc", "abc"));
    assert!(!contains_text("ab", "abc"));
    assert!(!contains_text("https://ip.pn/json/", "i.pn"));
    assert!(contains_text("ééx", "éx"));
}

#[test]
fn geo_targets_per_provider() {
    let ip = "1.2.3.4";
    assert_eq!(geo_target("https://i.pn/json/", ip).as_deref(), Some("https://i.pn/json/1.2.3.4"));
    assert_eq!(geo_target("https://ip.pn/json/", ip).as_deref(), Some("https://ip.pn/json/1.2.3.4"));
    assert_eq!(geo_target("https://ipv4.myip.coffee", ip), None);
    assert_eq!(geo_target("https://api.ipify.org?format=json", ip), None);
    assert_eq!(geo_target("https://httpbin.org/ip", ip), None);
    assert_eq!(geo_target("https://ifconfig.co/json", ip), None);
    assert_eq!(geo_target("https://ipapi.co/", ip).as_deref(), Some("https://ipapi.co/1.2.3.4/json/"));
    assert_eq!(geo_target("https://ipwho.is/", ip).as_deref(), Some("https://ipwho.is/1.2.3.4"));
}

#[test]
fn geo_targets_are_walked_in_order() {
    let ip = "8.8.8.8";
    let mut seen = Vec::new();
    let mut from = 0;
    while let Some((i, t)) = next_geo_target(from, ip) {
        seen.push((i, t));
        from = i + 1;
    }
    assert_eq!(
        seen,
        vec![
            (0, "https://i.pn/json/8.8.8.8".to_string()),
            (1, "https://ip.pn/json/8.8.8.8".to_string()),
            (6, "https://ipapi.co/8.8.8.8/json/".to_string()),
            (7, "https://ipwho.is/8.8.8.8".to_string()),
        ]
    );
}

#[test]
fn public_ip_read_from_replies() {
    assert_eq!(public_ip_from_body(br#"{"ip":"5.6.7.8"}"#).as_deref(), Some("5.6.7.8"));
    assert_eq!(public_ip_from_body(br#"{"query":"5.6.7.9","ip":3}"#).as_deref(), Some("5.6.7.9"));
    assert_eq!(public_ip_from_body(br#"{"origin":"9.9.9.9"}"#).as_deref(), Some("9.9.9.9"));
    assert_eq!(
        public_ip_from_body(br#"{"origin":"1.1.1.1","ip":"2.2.2.2"}"#).as_deref(),
        Some("2.2.2.2")
    );
    assert_eq!(public_ip_from_body(b"5.6.7.8"), None);
    assert_eq!(public_ip_from_body(br#"["ip"]"#), None);
    assert_eq!(public_ip_from_body(br#"{"address":"1.1.1.1"}"#), None);
    match public_ip_not_found() {
        PocketError::General(m) => assert_eq!(m, "Failed to retrieve public IP from any provider"),
        other => panic!("unexpected {:?}", other),
    }
}

#[test]
fn handshake_request_headers() {
    let req = build_handshake("wss://api-eu.po.market/socket.io/?EIO=4&transport=websocket", "abc123", "UA/1.0", "dGhlIHNhbXBsZSBub25jZQ==").unwrap();
    assert_eq!(req.uri, "wss://api-eu.po.market/socket.io/?EIO=4&transport=websocket");
    let expected = vec![
        ("Host", "api-eu.po.market"),
        ("User-Agent", "UA/1.0"),
        ("Origin", "https://pocketoption.com"),
        ("Cookie", "session_token=abc123"),
        ("Upgrade", "websocket"),
        ("Connection", "upgrade"),
        ("Sec-Websocket-Key", "dGhlIHNhbXBsZSBub25jZQ=="),
        ("Sec-Websocket-Version", "13"),
    ];
    let got: Vec<(&str, &str)> = req.headers.iter().map(|(n, v)| (n.as_str(), v.as_str())).collect();
    assert_eq!(got, expected);
    let local = build_handshake("ws://127.0.0.1:0", "s", "u", "k").unwrap();
    assert_eq!(local.uri, "ws://127.0.0.1:0/");
    assert_eq!(local.headers[0].1, "127.0.0.1");
}

#[test]
fn handshake_refuses_bad_urls() {
    match build_handshake("not a url", "s", "u", "k") {
        Err(ConnectorError::UrlParsing(m)) => assert_eq!(m, "relative URL without a base"),
        other => panic!("unexpected {:?}", other.is_ok()),
    }
    match build_handshake("data:text/plain,hello", "s", "u", "k") {
        Err(ConnectorError::UrlParsing(m)) => assert_eq!(m, "Host not found"),
        other => panic!("unexpected {:?}", other.is_ok()),
    }
}
