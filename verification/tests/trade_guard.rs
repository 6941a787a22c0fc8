use binary_options_tools::amount::Amount;
use binary_options_tools::error::PocketError;
use binary_options_tools::ids::NIL_ID;
use binary_options_tools::trade::{
    Action, TradeFingerprint, TradeState, DUPLICATE_WINDOW, PENDING_ORDER_LIFETIME,
    RECENT_TRADE_LIFETIME,
};

fn amount(mantissa: i128, scale: u32) -> Amount {
    Amount::from_parts(mantissa, scale).unwrap()
}

fn general_message(r: &Result<impl std::fmt::Debug, PocketError>) -> String {
    match r {
        Err(PocketError::General(m)) => m.clone(),
        other => panic!("expected a general error, got {:?}", other),
    }
}

const SECOND: u64 = 1_000_000_000;

#[test]
fn test_high_level_client_duplicate_prevention_race() {
    let mut state = TradeState::new();
    let a = amount(10, 1);
    let first = state.begin_trade("EURUSD_otc", Action::Call, 60, a, Ok(()), true, 10 * SECOND);
    let second = state.begin_trade("EURUSD_otc", Action::Call, 60, a, Ok(()), true, 10 * SECOND);
    assert!(first.is_ok());
    let msg = general_message(&second);
    assert!(msg.contains("Duplicate trade blocked"), "One call should be blocked as duplicate");
}

#[test]
fn placeholder_duplicate_names_pending() {
    let mut state = TradeState::new();
    let a = amount(1, 0);
    state.begin_trade("EURUSD_otc", Action::Put, 30, a, Ok(()), false, 0).unwrap();
    let again = state.begin_trade("EURUSD_otc", Action::Put, 30, a, Ok(()), false, SECOND);
    assert_eq!(general_message(&again), "Duplicate trade blocked (original ID: pending)");
}

#[test]
fn confirmed_duplicate_names_the_deal() {
    let mut state = TradeState::new();
    let a = amount(25, 0);
    let ticket = state.begin_trade("AUDUSD", Action::Call, 60, a, Ok(()), false, 0).unwrap();
    let deal: u128 = 0x67e5504410b1426f9247bb680e5fe0c8;
    state.confirm_trade(&ticket, deal, SECOND);
    let again = state.begin_trade("AUDUSD", Action::Call, 60, a, Ok(()), false, 2 * SECOND);
    assert_eq!(
        general_message(&again),
        "Duplicate trade blocked (original ID: 67e55044-10b1-426f-9247-bb680e5fe0c8)"
    );
    assert_eq!(state.recent_trade(&ticket.fingerprint), Some((deal, SECOND)));
}

#[test]
fn same_value_amounts_are_the_same_trade() {
    let mut state = TradeState::new();
    state.begin_trade("EURUSD_otc", Action::Call, 60, amount(10, 1), Ok(()), false, 0).unwrap();
    let again =
        state.begin_trade("EURUSD_otc", Action::Call, 60, amount(100, 2), Ok(()), false, 1);
    assert!(general_message(&again).starts_with("Duplicate trade blocked"));
    let other = state.begin_trade("EURUSD_otc", Action::Put, 60, amount(100, 2), Ok(()), false, 1);
    assert!(other.is_ok());
}

#[test]
fn different_fingerprints_are_not_duplicates() {
    let mut state = TradeState::new();
    let a = amount(5, 0);
    assert!(state.begin_trade("EURUSD_otc", Action::Call, 60, a, Ok(()), false, 0).is_ok());
    assert!(state.begin_trade("EURUSD_otc", Action::Call, 120, a, Ok(()), false, 0).is_ok());
    assert!(state.begin_trade("GBPUSD_otc", Action::Call, 60, a, Ok(()), false, 0).is_ok());
    assert!(state.begin_trade("EURUSD_otc", Action::Call, 60, amount(6, 0), Ok(()), false, 0).is_ok());
}

#[test]
fn duplicate_window_ends_after_two_seconds() {
    let mut state = TradeState::new();
    let a = amount(3, 0);
    state.begin_trade("EURUSD", Action::Call, 60, a, Ok(()), false, 0).unwrap();
    let blocked = state.begin_trade("EURUSD", Action::Call, 60, a, Ok(()), false, DUPLICATE_WINDOW - 1);
    assert!(blocked.is_err());
    let allowed = state.begin_trade("EURUSD", Action::Call, 60, a, Ok(()), false, DUPLICATE_WINDOW);
    assert!(allowed.is_ok());
}

#[test]
fn amount_checks_come_in_order() {
    let mut state = TradeState::new();
    let r = state.begin_trade("X", Action::Call, 60, amount(0, 0), Err(PocketError::InvalidAsset("X".to_string())), false, 0);
    assert_eq!(general_message(&r), "Amount must be positive");
    let r = state.begin_trade("X", Action::Call, 60, amount(-5, 1), Ok(()), false, 0);
    assert_eq!(general_message(&r), "Amount must be positive");
    let r = state.begin_trade("X", Action::Call, 60, amount(5, 1), Err(PocketError::InvalidAsset("X".to_string())), false, 0);
    assert!(matches!(r, Err(PocketError::InvalidAsset(ref s)) if s == "X"));
    let r = state.begin_trade("X", Action::Call, 60, amount(99, 2), Ok(()), false, 0);
    assert_eq!(general_message(&r), "Amount must be at least 1.0");
    let r = state.begin_trade("X", Action::Call, 60, amount(2000001, 2), Ok(()), false, 0);
    assert_eq!(general_message(&r), "Amount must be at most 20000.0");
    assert!(state.begin_trade("X", Action::Call, 60, amount(20000, 0), Ok(()), false, 0).is_ok());
    assert!(state.begin_trade("Y", Action::Call, 60, amount(100, 2), Ok(()), false, 0).is_ok());
}

#[test]
fn refused_trade_leaves_state_alone() {
    let mut state = TradeState::new();
    let r = state.begin_trade("X", Action::Call, 60, amount(1, 1), Ok(()), false, 0);
    assert!(r.is_err());
    let fp = TradeFingerprint::new("X", Action::Call, 60, &amount(1, 1));
    assert_eq!(state.recent_trade(&fp), None);
}

#[test]
fn begun_trade_is_pending_with_its_order() {
    let mut state = TradeState::new();
    let a = amount(150, 2);
    let ticket = state.begin_trade("EURUSD_otc", Action::Put, 300, a, Ok(()), true, 7).unwrap();
    assert_ne!(ticket.request_id, NIL_ID);
    assert_eq!((ticket.request_id >> 76) & 0xf, 4);
    let order = state.pending_order(ticket.request_id).unwrap();
    assert_eq!(order.asset, "EURUSD_otc");
    assert_eq!(order.action, Action::Put);
    assert_eq!(order.time, 300);
    assert_eq!(order.is_demo, 1);
    assert_eq!(order.request_id, ticket.request_id);
    assert_eq!(order.amount.mantissa(), 150);
    assert_eq!(order.amount.scale(), 2);
    assert_eq!(state.recent_trade(&ticket.fingerprint), Some((NIL_ID, 7)));
}

#[test]
fn abandoned_trade_can_be_sent_again() {
    let mut state = TradeState::new();
    let a = amount(2, 0);
    let ticket = state.begin_trade("EURUSD", Action::Call, 60, a, Ok(()), false, 0).unwrap();
    state.abandon_trade(&ticket);
    assert!(state.pending_order(ticket.request_id).is_none());
    assert_eq!(state.recent_trade(&ticket.fingerprint), None);
    assert!(state.begin_trade("EURUSD", Action::Call, 60, a, Ok(()), false, 1).is_ok());
}

#[test]
fn old_recent_trades_are_forgotten() {
    let mut state = TradeState::new();
    let first = state.begin_trade("A", Action::Call, 60, amount(2, 0), Ok(()), false, 0).unwrap();
    state.begin_trade("B", Action::Call, 60, amount(2, 0), Ok(()), false, RECENT_TRADE_LIFETIME).unwrap();
    assert_eq!(state.recent_trade(&first.fingerprint), None);
}

#[test]
fn reconcile_reports_and_drops_old_orders() {
    let mut state = TradeState::new();
    let old = state.begin_trade("A", Action::Call, 60, amount(2, 0), Ok(()), false, 0).unwrap();
    let mid = state.begin_trade("B", Action::Call, 60, amount(2, 0), Ok(()), false, 100 * SECOND).unwrap();
    let young = state.begin_trade("C", Action::Call, 60, amount(2, 0), Ok(()), false, 119 * SECOND).unwrap();
    let stale = state.reconcile(PENDING_ORDER_LIFETIME);
    assert_eq!(stale.len(), 2);
    assert!(stale.contains(&old.request_id));
    assert!(stale.contains(&mid.request_id));
    assert!(!stale.contains(&young.request_id));
    assert!(state.pending_order(old.request_id).is_none());
    assert!(state.pending_order(mid.request_id).is_some());
    assert!(state.pending_order(young.request_id).is_some());
    let again = state.reconcile(PENDING_ORDER_LIFETIME);
    assert!(again.contains(&mid.request_id));
    assert!(state.pending_order(mid.request_id).is_some());
}
