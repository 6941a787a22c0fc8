use binary_options_tools::amount::Amount;
use binary_options_tools::client::{
    assets_wait_outcome, balance_or_unknown, check_compile_request, check_listed_asset,
    history_period, require_listed_asset, select_connection_url, servers_with_custom_url,
    validate_loaded_assets,
};
use binary_options_tools::error::PocketError;

#[test]
fn connection_url_prefers_the_session() {
    let configured = vec!["wss://a/".to_string(), "wss://b/".to_string()];
    assert_eq!(select_connection_url(Some("wss://s/".to_string()), &configured).as_deref(), Some("wss://s/"));
    assert_eq!(select_connection_url(None, &configured).as_deref(), Some("wss://a/"));
    assert_eq!(select_connection_url(None, &Vec::new()), None);
}

#[test]
fn history_period_follows_subscription() {
    assert_eq!(history_period(Some(5)), 5);
    assert_eq!(history_period(None), 60);
    assert_eq!(history_period(Some((1u64 << 32) + 7)), 7);
}

#[test]
fn asset_checks() {
    assert!(matches!(require_listed_asset(None, "EURUSD"), Err(PocketError::General(ref m)) if m == "Assets not found"));
    assert!(matches!(require_listed_asset(Some(false), "EURUSD"), Err(PocketError::InvalidAsset(ref a)) if a == "EURUSD"));
    assert!(require_listed_asset(Some(true), "EURUSD").is_ok());
    assert!(check_listed_asset(None, "EURUSD").is_ok());
    assert!(check_listed_asset(Some(true), "EURUSD").is_ok());
    assert!(matches!(check_listed_asset(Some(false), "XAU"), Err(PocketError::InvalidAsset(ref a)) if a == "XAU"));
}

#[test]
fn compile_request_checks() {
    assert!(matches!(check_compile_request(0, Some(false), "X"), Err(PocketError::InvalidPeriod(0))));
    assert!(matches!(check_compile_request(20, Some(false), "X"), Err(PocketError::InvalidAsset(_))));
    assert!(check_compile_request(20, None, "X").is_ok());
}

#[test]
fn asset_validation_needs_loaded_assets() {
    assert!(matches!(validate_loaded_assets(None), Err(PocketError::General(ref m)) if m == "Assets not loaded"));
    assert!(validate_loaded_assets(Some(Ok(()))).is_ok());
    assert!(matches!(validate_loaded_assets(Some(Err(PocketError::InvalidAsset("Z".into())))), Err(PocketError::InvalidAsset(_))));
}

#[test]
fn unknown_balance_is_minus_one() {
    let b = balance_or_unknown(None);
    assert_eq!((b.mantissa(), b.scale()), (-10, 1));
    let k = balance_or_unknown(Amount::from_parts(150050, 2));
    assert_eq!((k.mantissa(), k.scale()), (150050, 2));
}

#[test]
fn assets_timeout_message() {
    assert!(assets_wait_outcome(true, "15s", true, false).is_ok());
    match assets_wait_outcome(false, "15s", true, false) {
        Err(PocketError::General(m)) => assert_eq!(m, "Timeout waiting for assets (timeout: 15s, account: demo, balance set: false)"),
        other => panic!("unexpected {:?}", other),
    }
    match assets_wait_outcome(false, "1.5s", false, true) {
        Err(PocketError::General(m)) => assert_eq!(m, "Timeout waiting for assets (timeout: 1.5s, account: real, balance set: true)"),
        other => panic!("unexpected {:?}", other),
    }
}

#[test]
fn custom_url_joins_the_servers_when_it_parses() {
    let defaults = vec!["wss://a/".to_string()];
    assert_eq!(servers_with_custom_url(&defaults, "ws://127.0.0.1:0"), vec!["wss://a/".to_string(), "ws://127.0.0.1:0/".to_string()]);
    assert_eq!(servers_with_custom_url(&defaults, "not a url"), defaults);
    assert_eq!(servers_with_custom_url(&Vec::new(), "wss://Example.COM/x"), vec!["wss://example.com/x".to_string()]);
}
