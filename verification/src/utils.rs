//! Helpers around the connection: request indices, the providers asked for
//! the public address and its location, reading their replies, and the
//! websocket handshake request.
use rand::Rng;
use vstd::prelude::*;
use crate::error::{ConnectorError, PocketError};

verus! {

/// A random number in `low..high`: `rand::rng().random_range(low..high)`.
/// The thread generator draws it uniformly; the contract states only the range.
#[verifier::external_body]
fn random_in_range(low: u32, high: u32) -> (r: u32)
    requires
        low < high,
    ensures
        low <= r < high,
{
    rand::rng().random_range(low..high)
}

/// The current UNIX time in whole seconds: `chrono::Utc::now().timestamp()`.
/// It depends on the clock, so nothing is stated of it.
#[verifier::external_body]
fn unix_time_now() -> (r: i64) {
    chrono::Utc::now().timestamp()
}

/// The index made of a UNIX time and a two-digit suffix: the decimal digits of
/// the time followed by those of the suffix, read back as a `u64`.
///
/// A negative time gives a leading minus sign, which is not a digit of an
/// unsigned number; a time too large gives a number past `u64::MAX`.
pub fn index_from_parts(timestamp: i64, suffix: u32) -> (r: Result<u64, PocketError>)
    requires
        10 <= suffix <= 98,
    ensures
        timestamp < 0 ==> (r matches Err(PocketError::General(m)) && m@
            == "invalid digit found in string"@),
        timestamp >= 0 && timestamp * 100 + suffix > u64::MAX ==> (r matches Err(
            PocketError::General(m),
        ) && m@ == "number too large to fit in target type"@),
        timestamp >= 0 && timestamp * 100 + suffix <= u64::MAX ==> r == Ok::<u64, PocketError>(
            (timestamp * 100 + suffix) as u64,
        ),
{
    if timestamp < 0 {
        return Err(PocketError::General(String::from_str("invalid digit found in string")));
    }
    let wide: u128 = (timestamp as u128) * 100 + (suffix as u128);
    if wide > u64::MAX as u128 {
        return Err(PocketError::General(String::from_str("number too large to fit in target type")));
    }
    Ok(wide as u64)
}

/// A fresh request index: the current UNIX time followed by two random digits
/// from 10 to 98.
pub fn get_index() -> (r: Result<u64, PocketError>)
    ensures
        r matches Ok(i) ==> 10 <= i % 100 <= 98,
        r matches Err(e) ==> (e matches PocketError::General(m) && (m@
            == "invalid digit found in string"@ || m@ == "number too large to fit in target type"@)),
{
    let suffix = random_in_range(10, 99);
    let time = unix_time_now();
    let r = index_from_parts(time, suffix);
    proof {
        if r is Ok {
            law_index_splits(time as int, suffix as int);
        }
    }
    r
}

/// An index splits back into its time (all but the last two digits) and its
/// suffix (the last two digits).
pub proof fn law_index_splits(timestamp: int, suffix: int)
    requires
        timestamp >= 0,
        10 <= suffix <= 98,
    ensures
        (timestamp * 100 + suffix) / 100 == timestamp,
        (timestamp * 100 + suffix) % 100 == suffix,
{
    assert((timestamp * 100 + suffix) / 100 == timestamp && (timestamp * 100 + suffix) % 100
        == suffix) by (nonlinear_arith)
        requires
            timestamp >= 0,
            10 <= suffix <= 98,
    ;
}

/// The number of providers asked for the public address.
pub const IP_PROVIDER_COUNT: usize = 8;

/// The providers asked for the public address, in the order they are tried.
pub open spec fn ip_provider_url(i: int) -> Seq<char> {
    if i == 0 {
        "https://i.pn/json/"@
    } else if i == 1 {
        "https://ip.pn/json/"@
    } else if i == 2 {
        "https://ipv4.myip.coffee"@
    } else if i == 3 {
        "https://api.ipify.org?format=json"@
    } else if i == 4 {
        "https://httpbin.org/ip"@
    } else if i == 5 {
        "https://ifconfig.co/json"@
    } else if i == 6 {
        "https://ipapi.co/"@
    } else {
        "https://ipwho.is/"@
    }
}

/// The provider at `index`, if there is one.
pub fn ip_provider(index: usize) -> (r: Option<&'static str>)
    ensures
        r is Some <==> index < IP_PROVIDER_COUNT,
        r matches Some(u) ==> u@ == ip_provider_url(index as int),
{
    match index {
        0 => Some("https://i.pn/json/"),
        1 => Some("https://ip.pn/json/"),
        2 => Some("https://ipv4.myip.coffee"),
        3 => Some("https://api.ipify.org?format=json"),
        4 => Some("https://httpbin.org/ip"),
        5 => Some("https://ifconfig.co/json"),
        6 => Some("https://ipapi.co/"),
        7 => Some("https://ipwho.is/"),
        _ => None,
    }
}

/// The providers, in the order they are asked: i.pn, ip.pn, ipv4.myip.coffee,
/// api.ipify.org, httpbin.org, ifconfig.co, ipapi.co and ipwho.is, at these
/// addresses; there are eight of them.
pub proof fn law_ip_provider_list()
    ensures
        ip_provider_url(0) == "https://i.pn/json/"@,
        ip_provider_url(1) == "https://ip.pn/json/"@,
        ip_provider_url(2) == "https://ipv4.myip.coffee"@,
        ip_provider_url(3) == "https://api.ipify.org?format=json"@,
        ip_provider_url(4) == "https://httpbin.org/ip"@,
        ip_provider_url(5) == "https://ifconfig.co/json"@,
        ip_provider_url(6) == "https://ipapi.co/"@,
        ip_provider_url(7) == "https://ipwho.is/"@,
        IP_PROVIDER_COUNT == 8,
{
}

/// `p` occurs in `s` as a run of consecutive characters.
pub open spec fn has_substring(s: Seq<char>, p: Seq<char>) -> bool {
    exists|i: int| 0 <= i && i + p.len() <= s.len() && #[trigger] s.subrange(i, i + p.len()) == p
}

/// Whether `p` occurs in `s`.
pub fn contains_text(s: &str, p: &str) -> (r: bool)
    ensures
        r == has_substring(s@, p@),
{
    let n = s.unicode_len();
    let m = p.unicode_len();
    if m > n {
        proof {
            assert forall|i: int| 0 <= i && i + p@.len() <= s@.len() implies #[trigger] s@.subrange(
                i,
                i + p@.len(),
            ) != p@ by {}
        }
        return false;
    }
    let mut i: usize = 0;
    while i <= n - m
        invariant
            n == s@.len(),
            m == p@.len(),
            m <= n,
            i <= n - m + 1,
            forall|k: int| 0 <= k < i ==> #[trigger] s@.subrange(k, k + m) != p@,
        decreases n - m + 1 - i,
    {
        let mut j: usize = 0;
        let mut same = true;
        while j < m && same
            invariant
                n == s@.len(),
                m == p@.len(),
                i + m <= n,
                j <= m,
                same ==> forall|k: int| 0 <= k < j ==> s@[i + k] == p@[k],
                !same ==> j > 0 && s@[i + j - 1] != p@[j - 1],
            decreases m - j,
        {
            if s.get_char(i + j) != p.get_char(j) {
                same = false;
            }
            j = j + 1;
        }
        if same {
            proof {
                assert(s@.subrange(i as int, i + m) =~= p@);
            }
            return true;
        }
        proof {
            assert(s@.subrange(i as int, i + m)[j - 1] == s@[i + j - 1]);
        }
        i = i + 1;
    }
    false
}

/// The address of the location lookup for `ip` at a provider, for the
/// providers that look up locations: `ipapi.co` takes the address followed by
/// `/json/`, while `ipwho.is`, `i.pn` and `ip.pn` take the bare address.
pub open spec fn geo_target_text(provider: Seq<char>, ip: Seq<char>) -> Option<Seq<char>> {
    if has_substring(provider, "ipapi.co"@) {
        Some(provider + ip + "/json/"@)
    } else if has_substring(provider, "ipwho.is"@) || has_substring(provider, "i.pn"@)
        || has_substring(provider, "ip.pn"@) {
        Some(provider + ip)
    } else {
        None
    }
}

/// The address of the location lookup for `ip` at `provider`, or `None` for a
/// provider that does not look up locations.
pub fn geo_target(provider: &str, ip: &str) -> (r: Option<String>)
    ensures
        match r {
            Some(t) => geo_target_text(provider@, ip@) == Some(t@),
            None => geo_target_text(provider@, ip@) is None,
        },
{
    if contains_text(provider, "ipapi.co") {
        let mut t = String::from_str(provider);
        t.append(ip);
        t.append("/json/");
        Some(t)
    } else if contains_text(provider, "ipwho.is") || contains_text(provider, "i.pn")
        || contains_text(provider, "ip.pn") {
        let mut t = String::from_str(provider);
        t.append(ip);
        Some(t)
    } else {
        None
    }
}

/// The first provider at or after `from` that looks up locations, with the
/// address to ask it for `ip`.
pub fn next_geo_target(from: usize, ip: &str) -> (r: Option<(usize, String)>)
    ensures
        match r {
            Some((i, t)) => {
                &&& from <= i < IP_PROVIDER_COUNT
                &&& geo_target_text(ip_provider_url(i as int), ip@) == Some(t@)
                &&& forall|j: int|
                    from <= j < i ==> #[trigger] geo_target_text(ip_provider_url(j), ip@) is None
            },
            None => forall|j: int|
                from <= j < IP_PROVIDER_COUNT ==> #[trigger] geo_target_text(
                    ip_provider_url(j),
                    ip@,
                ) is None,
        },
{
    let mut i = from;
    while i < IP_PROVIDER_COUNT
        invariant
            from <= i,
            forall|j: int|
                from <= j < i ==> #[trigger] geo_target_text(ip_provider_url(j), ip@) is None,
        decreases IP_PROVIDER_COUNT - i,
    {
        match ip_provider(i) {
            Some(provider) => match geo_target(provider, ip) {
                Some(t) => {
                    return Some((i, t));
                },
                None => {},
            },
            None => {},
        }
        i = i + 1;
    }
    None
}

/// The string member `key` of the JSON document `body`, when `body` is JSON
/// whose top level is an object holding a string under `key`.
pub uninterp spec fn json_string_member(body: Seq<u8>, key: Seq<char>) -> Option<Seq<char>>;

/// Reads `body` with `serde_json::from_slice` into a `serde_json::Value`, looks
/// `key` up in it by indexing, and takes the member with `as_str`. The result
/// is named by `json_string_member`; a body that is not JSON, a top level that
/// is not an object, a missing key and a member that is not a string all give
/// `None`.
#[verifier::external_body]
fn json_string_field(body: &[u8], key: &str) -> (r: Option<String>)
    ensures
        match r {
            Some(s) => json_string_member(body@, key@) == Some(s@),
            None => json_string_member(body@, key@) is None,
        },
{
    match serde_json::from_slice::<serde_json::Value>(body) {
        Ok(v) => match v[key].as_str() {
            Some(s) => Some(s.to_string()),
            None => None,
        },
        Err(_) => None,
    }
}

/// The public address in a provider's reply: the first string member among
/// `ip`, `query` and `origin`.
pub open spec fn public_ip_text(body: Seq<u8>) -> Option<Seq<char>> {
    match json_string_member(body, "ip"@) {
        Some(s) => Some(s),
        None => match json_string_member(body, "query"@) {
            Some(s) => Some(s),
            None => json_string_member(body, "origin"@),
        },
    }
}

/// Reads the public address from a provider's reply.
pub fn public_ip_from_body(body: &[u8]) -> (r: Option<String>)
    ensures
        match r {
            Some(s) => public_ip_text(body@) == Some(s@),
            None => public_ip_text(body@) is None,
        },
{
    match json_string_field(body, "ip") {
        Some(s) => Some(s),
        None => match json_string_field(body, "query") {
            Some(s) => Some(s),
            None => json_string_field(body, "origin"),
        },
    }
}

/// The failure when no provider gave the public address.
pub fn public_ip_not_found() -> (e: PocketError)
    ensures
        e matches PocketError::General(m) && m@ == "Failed to retrieve public IP from any provider"@,
{
    PocketError::General(String::from_str("Failed to retrieve public IP from any provider"))
}

/// What the public-address lookup does next.
#[derive(Debug)]
pub enum IpLookupStep {
    /// Ask the provider at this index, at this address.
    Ask(usize, &'static str),
    /// A provider gave the public address.
    Found(String),
    /// No provider gave it.
    Failed(PocketError),
}

/// The step that asks the provider at `index`, or gives up past the last one.
pub open spec fn ask_or_fail(step: IpLookupStep, index: int) -> bool {
    if index < IP_PROVIDER_COUNT {
        step matches IpLookupStep::Ask(i, u) && i == index && u@ == ip_provider_url(index)
    } else {
        step matches IpLookupStep::Failed(PocketError::General(m)) && m@
            == "Failed to retrieve public IP from any provider"@
    }
}

fn ask_provider(index: usize) -> (step: IpLookupStep)
    ensures
        ask_or_fail(step, index as int),
{
    match ip_provider(index) {
        Some(u) => IpLookupStep::Ask(index, u),
        None => IpLookupStep::Failed(public_ip_not_found()),
    }
}

/// The first step of the public-address lookup: ask the first provider.
pub fn public_ip_first_step() -> (step: IpLookupStep)
    ensures
        ask_or_fail(step, 0),
{
    ask_provider(0)
}

/// The step after the provider at `index` answered with `reply` (`None` when
/// the request failed): the address from the reply if it holds one, else the
/// next provider, else failure. Providers are asked in order and the first
/// that gives an address wins.
pub fn public_ip_next_step(index: usize, reply: Option<&[u8]>) -> (step: IpLookupStep)
    ensures
        match reply {
            Some(body) if public_ip_text(body@) is Some => step matches IpLookupStep::Found(s)
                && s@ == public_ip_text(body@)->0,
            _ => ask_or_fail(step, index + 1),
        },
{
    match reply {
        Some(body) => match public_ip_from_body(body) {
            Some(ip) => {
                return IpLookupStep::Found(ip);
            },
            None => {},
        },
        None => {},
    }
    if index >= IP_PROVIDER_COUNT {
        return IpLookupStep::Failed(public_ip_not_found());
    }
    ask_provider(index + 1)
}

/// The characters of an optional string.
pub open spec fn opt_text(o: Option<String>) -> Option<Seq<char>> {
    match o {
        Some(s) => Some(s@),
        None => None,
    }
}

/// What parsing an address gives: on success its serialization and its host,
/// if it has one; on failure the parse error's message.
pub uninterp spec fn url_parse_outcome(input: Seq<char>) -> Result<
    (Seq<char>, Option<Seq<char>>),
    Seq<char>,
>;

/// Parses `input` with `url::Url::parse`; on success gives the serialization
/// (`to_string`) and `host_str`, on failure the error's `to_string`. The result
/// is named by `url_parse_outcome`.
#[verifier::external_body]
pub(crate) fn parse_url(input: &str) -> (r: Result<(String, Option<String>), String>)
    ensures
        match r {
            Ok((u, h)) => url_parse_outcome(input@) == Ok::<
                (Seq<char>, Option<Seq<char>>),
                Seq<char>,
            >((u@, opt_text(h))),
            Err(m) => url_parse_outcome(input@) == Err::<(Seq<char>, Option<Seq<char>>), Seq<char>>(
                m@,
            ),
        },
{
    match url::Url::parse(input) {
        Ok(u) => {
            let host = match u.host_str() {
                Some(h) => Some(h.to_string()),
                None => None,
            };
            Ok((u.to_string(), host))
        },
        Err(e) => Err(e.to_string()),
    }
}

/// The websocket handshake request: the address and the headers, in order.
pub struct HandshakeRequest {
    pub uri: String,
    pub headers: Vec<(String, String)>,
}

/// The origin the handshake presents.
pub open spec fn handshake_origin() -> Seq<char> {
    "https://pocketoption.com"@
}

/// The headers of the handshake to `host`.
pub open spec fn handshake_headers(
    host: Seq<char>,
    user_agent: Seq<char>,
    session_id: Seq<char>,
    key: Seq<char>,
) -> Seq<(Seq<char>, Seq<char>)> {
    seq![
        ("Host"@, host),
        ("User-Agent"@, user_agent),
        ("Origin"@, handshake_origin()),
        ("Cookie"@, "session_token="@ + session_id),
        ("Upgrade"@, "websocket"@),
        ("Connection"@, "upgrade"@),
        ("Sec-Websocket-Key"@, key),
        ("Sec-Websocket-Version"@, "13"@),
    ]
}

/// The characters of a list of headers.
pub open spec fn headers_text(h: Seq<(String, String)>) -> Seq<(Seq<char>, Seq<char>)> {
    h.map_values(|p: (String, String)| (p.0@, p.1@))
}

fn push_header(headers: &mut Vec<(String, String)>, name: &str, value: String)
    ensures
        headers_text(final(headers)@) == headers_text(old(headers)@).push((name@, value@)),
{
    let ghost before = old(headers)@;
    let pair = (String::from_str(name), value);
    headers.push(pair);
    proof {
        assert(headers_text(before.push(pair)) =~= headers_text(before).push((name@, pair.1@)));
    }
}

/// The handshake request for the websocket at `url`, for a session with
/// `session_id` and `user_agent`, with the handshake key `key`.
pub fn build_handshake(url: &str, session_id: &str, user_agent: &str, key: &str) -> (r: Result<
    HandshakeRequest,
    ConnectorError,
>)
    ensures
        match url_parse_outcome(url@) {
            Err(m) => r matches Err(ConnectorError::UrlParsing(e)) && e@ == m,
            Ok((_, None)) => r matches Err(ConnectorError::UrlParsing(e)) && e@ == "Host not found"@,
            Ok((serialized, Some(host))) => r matches Ok(req) && req.uri@ == serialized
                && headers_text(req.headers@) == handshake_headers(
                host,
                user_agent@,
                session_id@,
                key@,
            ),
        },
{
    let (uri, host) = match parse_url(url) {
        Ok(parsed) => parsed,
        Err(m) => {
            return Err(ConnectorError::UrlParsing(m));
        },
    };
    let host = match host {
        Some(h) => h,
        None => {
            return Err(ConnectorError::UrlParsing(String::from_str("Host not found")));
        },
    };
    let mut headers: Vec<(String, String)> = Vec::new();
    proof {
        assert(headers_text(headers@) =~= Seq::empty());
    }
    push_header(&mut headers, "Host", host);
    push_header(&mut headers, "User-Agent", String::from_str(user_agent));
    push_header(&mut headers, "Origin", String::from_str("https://pocketoption.com"));
    let mut cookie = String::from_str("session_token=");
    cookie.append(session_id);
    push_header(&mut headers, "Cookie", cookie);
    push_header(&mut headers, "Upgrade", String::from_str("websocket"));
    push_header(&mut headers, "Connection", String::from_str("upgrade"));
    push_header(&mut headers, "Sec-Websocket-Key", String::from_str(key));
    push_header(&mut headers, "Sec-Websocket-Version", String::from_str("13"));
    proof {
        assert(headers_text(headers@) =~= handshake_headers(
            opt_text(Some(host))->0,
            user_agent@,
            session_id@,
            key@,
        ));
    }
    Ok(HandshakeRequest { uri, headers })
}

} // verus!
