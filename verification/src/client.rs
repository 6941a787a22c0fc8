//! The decisions a trading client takes around its requests: which server to
//! connect to, which candle period warms up a subscription, when an asset may
//! be asked about, and what to answer when a value has not arrived.
use vstd::prelude::*;
use crate::amount::Amount;
use crate::error::PocketError;
use crate::utils::{parse_url, url_parse_outcome};

verus! {

/// The server a client connects to first: the one the session is tied to, if
/// known, else the first of the configured servers.
pub fn select_connection_url(session_url: Option<String>, configured: &Vec<String>) -> (r: Option<
    String,
>)
    ensures
        match session_url {
            Some(u) => r == Some(u),
            None => if configured@.len() > 0 {
                r matches Some(u) && u@ == configured@[0]@
            } else {
                r is None
            },
        },
{
    match session_url {
        Some(u) => Some(u),
        None => {
            if configured.len() > 0 {
                Some(configured[0].clone())
            } else {
                None
            }
        },
    }
}

/// The characters of each server address.
pub open spec fn server_texts(v: Seq<String>) -> Seq<Seq<char>> {
    v.map_values(|x: String| x@)
}

/// The servers to connect to with a custom address: the default servers, then
/// the custom address in its parsed form when it parses; an address that does
/// not parse is left out.
pub fn servers_with_custom_url(defaults: &Vec<String>, url: &str) -> (r: Vec<String>)
    ensures
        match url_parse_outcome(url@) {
            Ok((s, _)) => server_texts(r@) == server_texts(defaults@).push(s),
            Err(_) => server_texts(r@) == server_texts(defaults@),
        },
{
    let mut r: Vec<String> = Vec::new();
    let mut i: usize = 0;
    while i < defaults.len()
        invariant
            i <= defaults.len(),
            server_texts(r@) == server_texts(defaults@).take(i as int),
        decreases defaults.len() - i,
    {
        let s = defaults[i].clone();
        proof {
            assert(s == defaults@[i as int]);
            assert(server_texts(r@.push(s)) =~= server_texts(r@).push(s@));
            assert(server_texts(defaults@).take(i + 1) =~= server_texts(defaults@).take(
                i as int,
            ).push(defaults@[i as int]@));
        }
        r.push(s);
        i = i + 1;
    }
    proof {
        assert(server_texts(defaults@).take(defaults.len() as int) =~= server_texts(defaults@));
    }
    match parse_url(url) {
        Ok((serialized, _)) => {
            proof {
                assert(server_texts(r@.push(serialized)) =~= server_texts(r@).push(serialized@));
            }
            r.push(serialized);
        },
        Err(_) => {},
    }
    r
}

/// The candle period, in seconds, of the history that warms up a
/// subscription: the subscription's own duration in whole seconds (kept to
/// its low 32 bits) when it has one, else one minute.
pub fn history_period(duration_secs: Option<u64>) -> (r: u32)
    ensures
        match duration_secs {
            Some(d) => r == d % 0x1_0000_0000,
            None => r == 60,
        },
{
    match duration_secs {
        Some(d) => (d % 0x1_0000_0000) as u32,
        None => 60,
    }
}

/// The error carries an invalid asset with the characters `a`.
pub open spec fn is_invalid_asset(e: PocketError, a: Seq<char>) -> bool {
    e matches PocketError::InvalidAsset(s) && s@ == a
}

/// The check before subscribing to an asset or leaving its subscription:
/// the assets must be loaded (`listed` is `None` while they are not) and must
/// list the asset.
pub fn require_listed_asset(listed: Option<bool>, asset: &str) -> (r: Result<(), PocketError>)
    ensures
        match listed {
            None => r matches Err(PocketError::General(m)) && m@ == "Assets not found"@,
            Some(false) => r matches Err(e) && is_invalid_asset(e, asset@),
            Some(true) => r is Ok,
        },
{
    match listed {
        None => Err(PocketError::General(String::from_str("Assets not found"))),
        Some(false) => Err(PocketError::InvalidAsset(String::from_str(asset))),
        Some(true) => Ok(()),
    }
}

/// The check before asking for candles or ticks of an asset: once the assets
/// are loaded they must list it; before that the request goes ahead.
pub fn check_listed_asset(listed: Option<bool>, asset: &str) -> (r: Result<(), PocketError>)
    ensures
        listed == Some(false) ==> (r matches Err(e) && is_invalid_asset(e, asset@)),
        listed != Some(false) ==> r is Ok,
{
    match listed {
        Some(false) => Err(PocketError::InvalidAsset(String::from_str(asset))),
        _ => Ok(()),
    }
}

/// The check before compiling candles of a custom period from ticks: the
/// period is not zero, then the asset check of `check_listed_asset`.
pub fn check_compile_request(custom_period: u32, listed: Option<bool>, asset: &str) -> (r: Result<
    (),
    PocketError,
>)
    ensures
        custom_period == 0 ==> (r matches Err(PocketError::InvalidPeriod(p)) && p == 0),
        custom_period != 0 && listed == Some(false) ==> (r matches Err(e) && is_invalid_asset(
            e,
            asset@,
        )),
        custom_period != 0 && listed != Some(false) ==> r is Ok,
{
    if custom_period == 0 {
        return Err(PocketError::InvalidPeriod(0));
    }
    check_listed_asset(listed, asset)
}

/// The asset check of a trade: the outcome of validating the asset against the
/// loaded assets, or a failure while they are not loaded (`validation` is
/// `None`).
pub fn validate_loaded_assets(validation: Option<Result<(), PocketError>>) -> (r: Result<
    (),
    PocketError,
>)
    ensures
        match validation {
            Some(v) => r == v,
            None => r matches Err(PocketError::General(m)) && m@ == "Assets not loaded"@,
        },
{
    match validation {
        Some(v) => v,
        None => Err(PocketError::General(String::from_str("Assets not loaded"))),
    }
}

/// The balance to report: the known balance, or `-1.0` while it is unknown.
pub fn balance_or_unknown(balance: Option<Amount>) -> (r: Amount)
    ensures
        match balance {
            Some(b) => r == b,
            None => r@ == (-10int, 1nat),
        },
{
    match balance {
        Some(b) => b,
        None => Amount::from_parts(-10, 1).unwrap(),
    }
}

/// The message when the assets did not arrive in time.
pub open spec fn assets_timeout_message(timeout_text: Seq<char>, demo: bool, balance_set: bool) -> Seq<
    char,
> {
    "Timeout waiting for assets (timeout: "@ + timeout_text + ", account: "@ + (if demo {
        "demo"@
    } else {
        "real"@
    }) + ", balance set: "@ + (if balance_set {
        "true"@
    } else {
        "false"@
    }) + ")"@
}

/// The outcome of waiting for the assets: success once they are loaded, else a
/// failure naming the timeout (as `timeout_text`), the kind of account and
/// whether the balance has arrived.
pub fn assets_wait_outcome(loaded: bool, timeout_text: &str, demo: bool, balance_set: bool) -> (r:
    Result<(), PocketError>)
    ensures
        loaded ==> r is Ok,
        !loaded ==> (r matches Err(PocketError::General(m)) && m@ == assets_timeout_message(
            timeout_text@,
            demo,
            balance_set,
        )),
{
    if loaded {
        return Ok(());
    }
    let mut m = String::from_str("Timeout waiting for assets (timeout: ");
    m.append(timeout_text);
    m.append(", account: ");
    if demo {
        m.append("demo");
    } else {
        m.append("real");
    }
    m.append(", balance set: ");
    if balance_set {
        m.append("true");
    } else {
        m.append("false");
    }
    m.append(")");
    Err(PocketError::General(m))
}

} // verus!
