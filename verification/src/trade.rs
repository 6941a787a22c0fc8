//! The trade guard: checks on a market trade before it is sent, a short
//! debounce that blocks the same trade sent twice, and the record of market
//! orders kept for reconciliation after a reconnect.
//!
//! Times are readings of a monotonic clock in nanoseconds. The time elapsed
//! since an earlier reading saturates at zero, as a monotonic clock's does.
use vstd::prelude::*;
use crate::amount::{
    Amount, above_whole, below_whole, law_normalized_equal_iff_same_value, normalize, same_value,
};
use crate::error::PocketError;
use crate::ids::{NIL_ID, new_request_id, uuid_hyphenated, uuid_text, lemma_version_four_not_nil};
use crate::keyed::{
    as_map, keys_unique, lemma_filter_take_step, lemma_map_filter, lemma_map_push,
    lemma_map_values_push, lemma_lookup_some_iff_present, lookup, restrict,
};

verus! {

/// The smallest amount of a market trade.
pub const MINIMUM_TRADE_AMOUNT: u32 = 1;

/// The largest amount of a market trade.
pub const MAXIMUM_TRADE_AMOUNT: u32 = 20000;

/// Within this many nanoseconds the same trade is blocked as a duplicate.
pub const DUPLICATE_WINDOW: u64 = 2000000000;

/// Recent trades older than this many nanoseconds are forgotten.
pub const RECENT_TRADE_LIFETIME: u64 = 5000000000;

/// Pending market orders older than this many nanoseconds are reported for
/// verification on reconnect.
pub const RECONCILE_AFTER: u64 = 5000000000;

/// Pending market orders at least this many nanoseconds old are dropped on
/// reconnect.
pub const PENDING_ORDER_LIFETIME: u64 = 120000000000;

/// Nanoseconds from `since` to `now`, zero when `now` is earlier.
pub open spec fn elapsed(since: u64, now: u64) -> int {
    if now >= since {
        now - since
    } else {
        0
    }
}

/// Nanoseconds from `since` to `now`, zero when `now` is earlier.
pub fn elapsed_nanos(since: u64, now: u64) -> (r: u64)
    ensures
        r == elapsed(since, now),
{
    if now >= since {
        now - since
    } else {
        0
    }
}

/// The direction of a trade.
#[derive(Clone, Copy, Debug, PartialEq, Eq, Structural)]
pub enum Action {
    /// A bet that the price rises (a buy).
    Call,
    /// A bet that the price falls (a sell).
    Put,
}

/// What identifies a trade for the duplicate check: the asset's characters,
/// the direction, the expiry in seconds and the amount in normalized form.
pub type FingerprintKey = (Seq<char>, Action, u32, (int, nat));

/// The fingerprint of a trade; two trades with equal fingerprints are the same
/// trade for the duplicate check.
#[derive(Debug)]
pub struct TradeFingerprint {
    asset: String,
    action: Action,
    time: u32,
    amount: Amount,
}

impl View for TradeFingerprint {
    type V = FingerprintKey;

    closed spec fn view(&self) -> FingerprintKey {
        (self.asset@, self.action, self.time, self.amount@)
    }
}

impl TradeFingerprint {
    /// The fingerprint of a trade of `amount` on `asset`. Amounts that stand
    /// for the same number give the same fingerprint.
    pub fn new(asset: &str, action: Action, time: u32, amount: &Amount) -> (r: TradeFingerprint)
        ensures
            r@ == (asset@, action, time, normalize(amount@)),
    {
        TradeFingerprint {
            asset: String::from_str(asset),
            action,
            time,
            amount: amount.normalized(),
        }
    }

    /// A copy of this fingerprint.
    pub fn duplicate(&self) -> (r: TradeFingerprint)
        ensures
            r@ == self@,
    {
        TradeFingerprint {
            asset: self.asset.clone(),
            action: self.action,
            time: self.time,
            amount: self.amount,
        }
    }

    /// The two fingerprints are the same.
    pub fn matches(&self, other: &TradeFingerprint) -> (r: bool)
        ensures
            r == (self@ == other@),
    {
        let same_asset = self.asset == other.asset;
        let same_action = self.action == other.action;
        same_asset && same_action && self.time == other.time && self.amount.same_parts(
            &other.amount,
        )
    }
}

/// A market order recorded while its trade is in flight.
#[derive(Debug)]
pub struct PendingMarketOrder {
    /// The amount as the trade asked for it.
    pub amount: Amount,
    /// The asset's symbol.
    pub asset: String,
    /// The direction.
    pub action: Action,
    /// The expiry in seconds.
    pub time: u32,
    /// 1 on a demo account, 0 on a real one.
    pub is_demo: u32,
    /// The identifier the trade request carries.
    pub request_id: u128,
}

impl PendingMarketOrder {
    /// A copy of this order.
    pub fn duplicate(&self) -> (r: PendingMarketOrder)
        ensures
            r == *self,
    {
        PendingMarketOrder {
            amount: self.amount,
            asset: self.asset.clone(),
            action: self.action,
            time: self.time,
            is_demo: self.is_demo,
            request_id: self.request_id,
        }
    }
}

struct RecentTrade {
    fingerprint: TradeFingerprint,
    deal_id: u128,
    created_at: u64,
}

impl RecentTrade {
    spec fn entry(self) -> (FingerprintKey, (u128, u64)) {
        (self.fingerprint@, (self.deal_id, self.created_at))
    }

    fn duplicate(&self) -> (r: RecentTrade)
        ensures
            r.entry() == self.entry(),
    {
        RecentTrade {
            fingerprint: self.fingerprint.duplicate(),
            deal_id: self.deal_id,
            created_at: self.created_at,
        }
    }
}

struct PendingEntry {
    order: PendingMarketOrder,
    created_at: u64,
}

impl PendingEntry {
    spec fn entry(self) -> (u128, (PendingMarketOrder, u64)) {
        (self.order.request_id, (self.order, self.created_at))
    }

    fn duplicate(&self) -> (r: PendingEntry)
        ensures
            r.entry() == self.entry(),
    {
        PendingEntry { order: self.order.duplicate(), created_at: self.created_at }
    }
}

/// What a trade guard holds: the recent trades, each fingerprint with the
/// deal's identifier (nil while the deal is not known) and when it was
/// recorded; and the pending market orders by request identifier, each with
/// when it was recorded.
pub struct TradeStateView {
    pub recent: Map<FingerprintKey, (u128, u64)>,
    pub pending: Map<u128, (PendingMarketOrder, u64)>,
}

/// The entries of `m` recorded less than `limit` nanoseconds before `now`.
pub open spec fn younger_than<K, V>(m: Map<K, (V, u64)>, now: u64, limit: u64) -> Map<
    K,
    (V, u64),
> {
    Map::new(|k: K| m.dom().contains(k) && elapsed(m[k].1, now) < limit, |k: K| m[k])
}

/// A trade with fingerprint `key` sent at `now` is blocked as a duplicate.
pub open spec fn blocks_duplicate(v: TradeStateView, key: FingerprintKey, now: u64) -> bool {
    v.recent.dom().contains(key) && elapsed(v.recent[key].1, now) < DUPLICATE_WINDOW
}

/// The amount lies within the limits of a market trade.
pub open spec fn amount_in_limits(a: (int, nat)) -> bool {
    a.0 > 0 && !below_whole(a, MINIMUM_TRADE_AMOUNT as int) && !above_whole(
        a,
        MAXIMUM_TRADE_AMOUNT as int,
    )
}

/// The message of a blocked duplicate trade.
pub open spec fn duplicate_message(original: u128) -> Seq<char> {
    "Duplicate trade blocked (original ID: "@ + (if original == NIL_ID {
        "pending"@
    } else {
        uuid_hyphenated(original)
    }) + ")"@
}

/// The error carries a general failure with the message `m`.
pub open spec fn is_general(e: PocketError, m: Seq<char>) -> bool {
    e matches PocketError::General(s) && s@ == m
}

/// A trade that passed the guard: the request's identifier and the trade's
/// fingerprint.
#[derive(Debug)]
pub struct TradeTicket {
    pub request_id: u128,
    pub fingerprint: TradeFingerprint,
}

/// The duplicate guard and the pending market orders of a client.
pub struct TradeState {
    recent: Vec<RecentTrade>,
    pending: Vec<PendingEntry>,
}

/// Keeps the recent trades other than `exclude` and, with `young_at`, only those
/// recorded less than `RECENT_TRADE_LIFETIME` before it.
spec fn keep_recent(exclude: Option<FingerprintKey>, young_at: Option<u64>) -> spec_fn(
    (FingerprintKey, (u128, u64)),
) -> bool {
    |e: (FingerprintKey, (u128, u64))|
        (exclude matches Some(k) ==> e.0 != k) && (young_at matches Some(now) ==> elapsed(
            e.1.1,
            now,
        ) < RECENT_TRADE_LIFETIME)
}

/// Keeps the pending orders other than `exclude` and, with `young_at`, only
/// those recorded less than `PENDING_ORDER_LIFETIME` before it.
spec fn keep_pending(exclude: Option<u128>, young_at: Option<u64>) -> spec_fn(
    (u128, (PendingMarketOrder, u64)),
) -> bool {
    |e: (u128, (PendingMarketOrder, u64))|
        (exclude matches Some(k) ==> e.0 != k) && (young_at matches Some(now) ==> elapsed(
            e.1.1,
            now,
        ) < PENDING_ORDER_LIFETIME)
}

/// Pending orders recorded more than `RECONCILE_AFTER` before `now`.
spec fn stale_pending(now: u64) -> spec_fn((u128, (PendingMarketOrder, u64))) -> bool {
    |e: (u128, (PendingMarketOrder, u64))| elapsed(e.1.1, now) > RECONCILE_AFTER
}

spec fn recent_entries(v: Seq<RecentTrade>) -> Seq<(FingerprintKey, (u128, u64))> {
    v.map_values(|e: RecentTrade| e.entry())
}

spec fn pending_entries(v: Seq<PendingEntry>) -> Seq<(u128, (PendingMarketOrder, u64))> {
    v.map_values(|e: PendingEntry| e.entry())
}

fn recent_filtered(
    v: &Vec<RecentTrade>,
    exclude: Option<&TradeFingerprint>,
    young_at: Option<u64>,
) -> (out: Vec<RecentTrade>)
    ensures
        recent_entries(out@) == recent_entries(v@).filter(
            keep_recent(
                match exclude {
                    Some(f) => Some(f@),
                    None => None,
                },
                young_at,
            ),
        ),
{
    let ghost ex: Option<FingerprintKey> = match exclude {
        Some(f) => Some(f@),
        None => None,
    };
    let ghost p = keep_recent(ex, young_at);
    let ghost s = recent_entries(v@);
    let mut out: Vec<RecentTrade> = Vec::new();
    let mut i: usize = 0;
    while i < v.len()
        invariant
            i <= v.len(),
            s == recent_entries(v@),
            p == keep_recent(ex, young_at),
            ex == (match exclude {
                Some(f) => Some(f@),
                None => None,
            }),
            recent_entries(out@) == s.take(i as int).filter(p),
        decreases v.len() - i,
    {
        let e = &v[i];
        let other = match exclude {
            Some(f) => !e.fingerprint.matches(f),
            None => true,
        };
        let young = match young_at {
            Some(now) => elapsed_nanos(e.created_at, now) < RECENT_TRADE_LIFETIME,
            None => true,
        };
        proof {
            lemma_filter_take_step(s, p, i as int);
            assert(s[i as int] == e.entry());
        }
        if other && young {
            let c = e.duplicate();
            proof {
                lemma_map_values_push(out@, c, |e: RecentTrade| e.entry());
            }
            out.push(c);
        }
        i = i + 1;
    }
    proof {
        assert(s.take(v.len() as int) =~= s);
    }
    out
}

fn pending_filtered(v: &Vec<PendingEntry>, exclude: Option<u128>, young_at: Option<u64>) -> (out:
    Vec<PendingEntry>)
    ensures
        pending_entries(out@) == pending_entries(v@).filter(keep_pending(exclude, young_at)),
{
    let ghost p = keep_pending(exclude, young_at);
    let ghost s = pending_entries(v@);
    let mut out: Vec<PendingEntry> = Vec::new();
    let mut i: usize = 0;
    while i < v.len()
        invariant
            i <= v.len(),
            s == pending_entries(v@),
            p == keep_pending(exclude, young_at),
            pending_entries(out@) == s.take(i as int).filter(p),
        decreases v.len() - i,
    {
        let e = &v[i];
        let other = match exclude {
            Some(k) => e.order.request_id != k,
            None => true,
        };
        let young = match young_at {
            Some(now) => elapsed_nanos(e.created_at, now) < PENDING_ORDER_LIFETIME,
            None => true,
        };
        proof {
            lemma_filter_take_step(s, p, i as int);
            assert(s[i as int] == e.entry());
        }
        if other && young {
            let c = e.duplicate();
            proof {
                lemma_map_values_push(out@, c, |e: PendingEntry| e.entry());
            }
            out.push(c);
        }
        i = i + 1;
    }
    proof {
        assert(s.take(v.len() as int) =~= s);
    }
    out
}

impl View for TradeState {
    type V = TradeStateView;

    closed spec fn view(&self) -> TradeStateView {
        TradeStateView {
            recent: as_map(recent_entries(self.recent@)),
            pending: as_map(pending_entries(self.pending@)),
        }
    }
}

impl TradeState {
    #[verifier::type_invariant]
    spec fn keys_are_unique(self) -> bool {
        &&& keys_unique(recent_entries(self.recent@))
        &&& keys_unique(pending_entries(self.pending@))
    }

    /// A guard with no recent trade and no pending order.
    pub fn new() -> (r: TradeState)
        ensures
            r@.recent == Map::<FingerprintKey, (u128, u64)>::empty(),
            r@.pending == Map::<u128, (PendingMarketOrder, u64)>::empty(),
    {
        let r = TradeState { recent: Vec::new(), pending: Vec::new() };
        proof {
            assert(recent_entries(r.recent@) =~= Seq::empty());
            assert(pending_entries(r.pending@) =~= Seq::empty());
            assert(as_map(recent_entries(r.recent@)) =~= Map::empty());
            assert(as_map(pending_entries(r.pending@)) =~= Map::empty());
        }
        r
    }

    /// The deal identifier and recording time held for a fingerprint.
    pub fn recent_trade(&self, fingerprint: &TradeFingerprint) -> (r: Option<(u128, u64)>)
        ensures
            r == (if self@.recent.dom().contains(fingerprint@) {
                Some(self@.recent[fingerprint@])
            } else {
                None
            }),
    {
        let ghost s = recent_entries(self.recent@);
        let mut i = self.recent.len();
        proof {
            assert(s.take(i as int) =~= s);
        }
        while i > 0
            invariant
                i <= self.recent.len(),
                s == recent_entries(self.recent@),
                lookup(s, fingerprint@) == lookup(s.take(i as int), fingerprint@),
            decreases i,
        {
            let e = &self.recent[i - 1];
            proof {
                assert(s.take(i as int).drop_last() =~= s.take(i - 1));
                assert(s.take(i as int).last() == e.entry());
            }
            if e.fingerprint.matches(fingerprint) {
                return Some((e.deal_id, e.created_at));
            }
            i = i - 1;
        }
        proof {
            assert(s.take(0) =~= Seq::<(FingerprintKey, (u128, u64))>::empty());
        }
        None
    }

    /// The pending order recorded under a request identifier.
    pub fn pending_order(&self, request_id: u128) -> (r: Option<&PendingMarketOrder>)
        ensures
            r matches Some(o) ==> self@.pending.dom().contains(request_id) && *o
                == self@.pending[request_id].0,
            r is None ==> !self@.pending.dom().contains(request_id),
    {
        let ghost s = pending_entries(self.pending@);
        let mut i = self.pending.len();
        proof {
            assert(s.take(i as int) =~= s);
        }
        while i > 0
            invariant
                i <= self.pending.len(),
                s == pending_entries(self.pending@),
                lookup(s, request_id) == lookup(s.take(i as int), request_id),
            decreases i,
        {
            let e = &self.pending[i - 1];
            proof {
                assert(s.take(i as int).drop_last() =~= s.take(i - 1));
                assert(s.take(i as int).last() == e.entry());
            }
            if e.order.request_id == request_id {
                return Some(&e.order);
            }
            i = i - 1;
        }
        proof {
            assert(s.take(0) =~= Seq::<(u128, (PendingMarketOrder, u64))>::empty());
        }
        None
    }
}


/// The fingerprint of a trade, as `TradeFingerprint::new` makes it.
pub open spec fn fingerprint_key(asset: Seq<char>, action: Action, time: u32, amount: (int, nat)) -> FingerprintKey {
    (asset, action, time, normalize(amount))
}

fn general_error(message: &str) -> (e: PocketError)
    ensures
        is_general(e, message@),
{
    PocketError::General(String::from_str(message))
}

fn duplicate_error(original: u128) -> (e: PocketError)
    ensures
        is_general(e, duplicate_message(original)),
{
    let mut m = String::from_str("Duplicate trade blocked (original ID: ");
    if original == NIL_ID {
        m.append("pending");
    } else {
        let t = uuid_text(original);
        m.append(t.as_str());
    }
    m.append(")");
    PocketError::General(m)
}

impl TradeState {
    /// Checks a market trade and, when it passes, records it in the duplicate
    /// guard (with the nil deal identifier, until the deal is known) and among
    /// the pending orders under a fresh request identifier.
    ///
    /// The checks come in this order: the amount is above zero; the asset
    /// check that the caller ran passed; the amount is at least
    /// `MINIMUM_TRADE_AMOUNT` and at most `MAXIMUM_TRADE_AMOUNT`; the same
    /// trade was not recorded less than `DUPLICATE_WINDOW` ago. Recording a
    /// trade also forgets the recent trades at least `RECENT_TRADE_LIFETIME`
    /// old. A refused trade leaves the guard unchanged.
    pub fn begin_trade(
        &mut self,
        asset: &str,
        action: Action,
        time: u32,
        amount: Amount,
        asset_check: Result<(), PocketError>,
        is_demo: bool,
        now: u64,
    ) -> (r: Result<TradeTicket, PocketError>)
        ensures
            !(amount@.0 > 0) ==> (r matches Err(e) && is_general(e, "Amount must be positive"@)),
            amount@.0 > 0 && asset_check is Err ==> (r matches Err(e) && asset_check == Err::<
                (),
                PocketError,
            >(e)),
            amount@.0 > 0 && asset_check is Ok && below_whole(amount@, MINIMUM_TRADE_AMOUNT as int)
                ==> (r matches Err(e) && is_general(e, "Amount must be at least 1.0"@)),
            amount@.0 > 0 && asset_check is Ok && !below_whole(
                amount@,
                MINIMUM_TRADE_AMOUNT as int,
            ) && above_whole(amount@, MAXIMUM_TRADE_AMOUNT as int) ==> (r matches Err(e)
                && is_general(e, "Amount must be at most 20000.0"@)),
            amount_in_limits(amount@) && asset_check is Ok && blocks_duplicate(
                old(self)@,
                fingerprint_key(asset@, action, time, amount@),
                now,
            ) ==> (r matches Err(e) && is_general(
                e,
                duplicate_message(
                    old(self)@.recent[fingerprint_key(asset@, action, time, amount@)].0,
                ),
            )),
            r is Ok <==> (amount_in_limits(amount@) && asset_check is Ok && !blocks_duplicate(
                old(self)@,
                fingerprint_key(asset@, action, time, amount@),
                now,
            )),
            r is Err ==> final(self)@ == old(self)@,
            r matches Ok(t) ==> {
                &&& t.fingerprint@ == fingerprint_key(asset@, action, time, amount@)
                &&& t.request_id != NIL_ID
                &&& (t.request_id >> 76u128) & 0xfu128 == 4u128
                &&& final(self)@.recent == younger_than(
                    old(self)@.recent,
                    now,
                    RECENT_TRADE_LIFETIME,
                ).insert(t.fingerprint@, (NIL_ID, now))
                &&& final(self)@.pending == old(self)@.pending.insert(
                    t.request_id,
                    (final(self)@.pending[t.request_id].0, now),
                )
                &&& final(self)@.pending[t.request_id].0.amount == amount
                &&& final(self)@.pending[t.request_id].0.asset@ == asset@
                &&& final(self)@.pending[t.request_id].0.action == action
                &&& final(self)@.pending[t.request_id].0.time == time
                &&& final(self)@.pending[t.request_id].0.is_demo == (if is_demo {
                    1u32
                } else {
                    0u32
                })
                &&& final(self)@.pending[t.request_id].0.request_id == t.request_id
            },
    {
        proof {
            use_type_invariant(&*self);
        }
        if !amount.is_positive() {
            return Err(general_error("Amount must be positive"));
        }
        match asset_check {
            Err(e) => {
                return Err(e);
            },
            Ok(()) => {},
        }
        if amount.is_below_whole(MINIMUM_TRADE_AMOUNT) {
            return Err(general_error("Amount must be at least 1.0"));
        }
        if amount.is_above_whole(MAXIMUM_TRADE_AMOUNT) {
            return Err(general_error("Amount must be at most 20000.0"));
        }
        let fingerprint = TradeFingerprint::new(asset, action, time, &amount);
        let request_id = new_request_id();
        proof {
            lemma_version_four_not_nil(request_id);
        }
        match self.recent_trade(&fingerprint) {
            Some((existing, created_at)) => {
                if elapsed_nanos(created_at, now) < DUPLICATE_WINDOW {
                    return Err(duplicate_error(existing));
                }
            },
            None => {},
        }
        let ghost key = fingerprint@;
        let ghost old_recent = recent_entries(self.recent@);
        let ghost old_pending = pending_entries(self.pending@);
        let mut recent = recent_filtered(&self.recent, Some(&fingerprint), Some(now));
        let entry = RecentTrade { fingerprint: fingerprint.duplicate(), deal_id: NIL_ID, created_at: now };
        proof {
            let p = keep_recent(Some(key), Some(now));
            lemma_map_filter(old_recent, p);
            lemma_map_values_push(recent@, entry, |e: RecentTrade| e.entry());
            lemma_map_push(recent_entries(recent@), entry.entry());
            assert(as_map(recent_entries(recent@).push(entry.entry())) =~= younger_than(
                as_map(old_recent),
                now,
                RECENT_TRADE_LIFETIME,
            ).insert(key, (NIL_ID, now)));
        }
        recent.push(entry);
        let order = PendingMarketOrder {
            amount,
            asset: String::from_str(asset),
            action,
            time,
            is_demo: if is_demo {
                1
            } else {
                0
            },
            request_id,
        };
        let mut pending = pending_filtered(&self.pending, Some(request_id), None);
        let pentry = PendingEntry { order, created_at: now };
        proof {
            let p = keep_pending(Some(request_id), None);
            lemma_map_filter(old_pending, p);
            lemma_map_values_push(pending@, pentry, |e: PendingEntry| e.entry());
            lemma_map_push(pending_entries(pending@), pentry.entry());
            assert(as_map(pending_entries(pending@).push(pentry.entry())) =~= as_map(
                old_pending,
            ).insert(request_id, (pentry.order, now)));
        }
        pending.push(pentry);
        self.recent = recent;
        self.pending = pending;
        Ok(TradeTicket { request_id, fingerprint })
    }
}


impl TradeState {
    /// Records the deal that a trade opened: the fingerprint now holds the
    /// deal's identifier, recorded at `now`. The pending order stays until the
    /// deal is confirmed elsewhere.
    pub fn confirm_trade(&mut self, ticket: &TradeTicket, deal_id: u128, now: u64)
        ensures
            final(self)@.recent == old(self)@.recent.insert(ticket.fingerprint@, (deal_id, now)),
            final(self)@.pending == old(self)@.pending,
    {
        proof {
            use_type_invariant(&*self);
        }
        let ghost key = ticket.fingerprint@;
        let ghost old_recent = recent_entries(self.recent@);
        let mut recent = recent_filtered(&self.recent, Some(&ticket.fingerprint), None);
        let entry = RecentTrade {
            fingerprint: ticket.fingerprint.duplicate(),
            deal_id,
            created_at: now,
        };
        proof {
            let p = keep_recent(Some(key), None);
            lemma_map_filter(old_recent, p);
            lemma_map_values_push(recent@, entry, |e: RecentTrade| e.entry());
            lemma_map_push(recent_entries(recent@), entry.entry());
            assert(as_map(recent_entries(recent@).push(entry.entry())) =~= as_map(
                old_recent,
            ).insert(key, (deal_id, now)));
        }
        recent.push(entry);
        self.recent = recent;
    }

    /// Forgets a trade that failed: its fingerprint leaves the duplicate guard
    /// and its order leaves the pending orders, so the same trade may be sent
    /// again at once.
    pub fn abandon_trade(&mut self, ticket: &TradeTicket)
        ensures
            final(self)@.recent == old(self)@.recent.remove(ticket.fingerprint@),
            final(self)@.pending == old(self)@.pending.remove(ticket.request_id),
    {
        proof {
            use_type_invariant(&*self);
        }
        let ghost key = ticket.fingerprint@;
        let ghost old_recent = recent_entries(self.recent@);
        let ghost old_pending = pending_entries(self.pending@);
        let recent = recent_filtered(&self.recent, Some(&ticket.fingerprint), None);
        let pending = pending_filtered(&self.pending, Some(ticket.request_id), None);
        proof {
            lemma_map_filter(old_recent, keep_recent(Some(key), None));
            lemma_map_filter(old_pending, keep_pending(Some(ticket.request_id), None));
            assert(as_map(recent_entries(recent@)) =~= as_map(old_recent).remove(key));
            assert(as_map(pending_entries(pending@)) =~= as_map(old_pending).remove(
                ticket.request_id,
            ));
        }
        self.recent = recent;
        self.pending = pending;
    }

    /// Reconciles the pending market orders after a reconnect: returns the
    /// request identifiers of the orders recorded more than `RECONCILE_AFTER`
    /// before `now`, which may have been lost, and drops the orders at least
    /// `PENDING_ORDER_LIFETIME` old.
    pub fn reconcile(&mut self, now: u64) -> (stale: Vec<u128>)
        ensures
            forall|id: u128|
                stale@.contains(id) <==> (old(self)@.pending.dom().contains(id) && elapsed(
                    old(self)@.pending[id].1,
                    now,
                ) > RECONCILE_AFTER),
            final(self)@.pending == younger_than(old(self)@.pending, now, PENDING_ORDER_LIFETIME),
            final(self)@.recent == old(self)@.recent,
    {
        proof {
            use_type_invariant(&*self);
        }
        let ghost s = pending_entries(self.pending@);
        let ghost sp = stale_pending(now);
        let mut stale: Vec<u128> = Vec::new();
        let mut i: usize = 0;
        while i < self.pending.len()
            invariant
                i <= self.pending.len(),
                s == pending_entries(self.pending@),
                sp == stale_pending(now),
                stale@ == s.take(i as int).filter(sp).map_values(
                    |e: (u128, (PendingMarketOrder, u64))| e.0,
                ),
            decreases self.pending.len() - i,
        {
            let e = &self.pending[i];
            proof {
                lemma_filter_take_step(s, sp, i as int);
                assert(s[i as int] == e.entry());
            }
            if elapsed_nanos(e.created_at, now) > RECONCILE_AFTER {
                proof {
                    lemma_map_values_push(
                        s.take(i as int).filter(sp),
                        s[i as int],
                        |e: (u128, (PendingMarketOrder, u64))| e.0,
                    );
                }
                stale.push(e.order.request_id);
            }
            i = i + 1;
        }
        proof {
            assert(s.take(s.len() as int) =~= s);
            let f = s.filter(sp);
            lemma_map_filter(s, sp);
            assert forall|id: u128| stale@.contains(id) <==> (as_map(s).dom().contains(id) && elapsed(
                as_map(s)[id].1,
                now,
            ) > RECONCILE_AFTER) by {
                lemma_lookup_some_iff_present(f, id);
                assert(stale@ == f.map_values(|e: (u128, (PendingMarketOrder, u64))| e.0));
                assert(as_map(f).dom().contains(id) == (lookup(f, id) is Some));
                assert(restrict(as_map(s), sp).dom().contains(id) == (as_map(s).dom().contains(id)
                    && sp((id, as_map(s)[id]))));
                if stale@.contains(id) {
                    let j = choose|j: int| 0 <= j < stale@.len() && stale@[j] == id;
                    assert(f[j].0 == id);
                }
                if lookup(f, id) is Some {
                    let j = choose|j: int| 0 <= j < f.len() && #[trigger] f[j].0 == id;
                    assert(stale@[j] == id);
                }
            }
        }
        let ghost old_pending = s;
        let pending = pending_filtered(&self.pending, None, Some(now));
        proof {
            lemma_map_filter(old_pending, keep_pending(None, Some(now)));
            assert(as_map(pending_entries(pending@)) =~= younger_than(
                as_map(old_pending),
                now,
                PENDING_ORDER_LIFETIME,
            ));
        }
        self.pending = pending;
        stale
    }
}


/// A trade begun at `now` blocks the same trade sent less than
/// `DUPLICATE_WINDOW` later.
pub proof fn law_begun_trade_blocks_repeat(
    before: TradeStateView,
    after: TradeStateView,
    key: FingerprintKey,
    now: u64,
    later: u64,
)
    requires
        after.recent == younger_than(before.recent, now, RECENT_TRADE_LIFETIME).insert(
            key,
            (NIL_ID, now),
        ),
        elapsed(now, later) < DUPLICATE_WINDOW,
    ensures
        blocks_duplicate(after, key, later),
{
}

/// A trade whose deal was recorded at `now` blocks the same trade sent less
/// than `DUPLICATE_WINDOW` later, and the block names that deal.
pub proof fn law_confirmed_trade_blocks_repeat(
    before: TradeStateView,
    after: TradeStateView,
    key: FingerprintKey,
    deal_id: u128,
    now: u64,
    later: u64,
)
    requires
        after.recent == before.recent.insert(key, (deal_id, now)),
        elapsed(now, later) < DUPLICATE_WINDOW,
    ensures
        blocks_duplicate(after, key, later),
        after.recent[key].0 == deal_id,
{
}

/// Abandoning a trade undoes beginning it: the pending orders are as before
/// (the request identifier was fresh), the fingerprint no longer blocks
/// anything, and the other recent trades are those that were young enough.
pub proof fn law_abandon_undoes_begin(
    before: TradeStateView,
    begun: TradeStateView,
    abandoned: TradeStateView,
    key: FingerprintKey,
    request_id: u128,
    order: (PendingMarketOrder, u64),
    now: u64,
    later: u64,
)
    requires
        begun.recent == younger_than(before.recent, now, RECENT_TRADE_LIFETIME).insert(
            key,
            (NIL_ID, now),
        ),
        begun.pending == before.pending.insert(request_id, order),
        abandoned.recent == begun.recent.remove(key),
        abandoned.pending == begun.pending.remove(request_id),
        !before.pending.dom().contains(request_id),
    ensures
        abandoned.pending == before.pending,
        abandoned.recent == younger_than(before.recent, now, RECENT_TRADE_LIFETIME).remove(key),
        !blocks_duplicate(abandoned, key, later),
{
    assert(abandoned.pending =~= before.pending);
    assert(abandoned.recent =~= younger_than(before.recent, now, RECENT_TRADE_LIFETIME).remove(
        key,
    ));
}

/// Right after a trade is begun, every recent trade is younger than
/// `RECENT_TRADE_LIFETIME`.
pub proof fn law_recent_trades_stay_young(
    before: TradeStateView,
    after: TradeStateView,
    key: FingerprintKey,
    now: u64,
)
    requires
        after.recent == younger_than(before.recent, now, RECENT_TRADE_LIFETIME).insert(
            key,
            (NIL_ID, now),
        ),
    ensures
        forall|k: FingerprintKey| #[trigger]
            after.recent.dom().contains(k) ==> elapsed(after.recent[k].1, now)
                < RECENT_TRADE_LIFETIME,
{
}

/// Reconciling twice at the same time drops nothing more the second time.
pub proof fn law_reconcile_idempotent<K, V>(m: Map<K, (V, u64)>, now: u64)
    ensures
        younger_than(younger_than(m, now, PENDING_ORDER_LIFETIME), now, PENDING_ORDER_LIFETIME)
            == younger_than(m, now, PENDING_ORDER_LIFETIME),
{
    assert(younger_than(younger_than(m, now, PENDING_ORDER_LIFETIME), now, PENDING_ORDER_LIFETIME)
        =~= younger_than(m, now, PENDING_ORDER_LIFETIME));
}

/// Two trades on the same asset, direction and expiry have the same
/// fingerprint exactly when their amounts stand for the same number.
pub proof fn law_fingerprint_follows_value(
    asset: Seq<char>,
    action: Action,
    time: u32,
    a: (int, nat),
    b: (int, nat),
)
    ensures
        (fingerprint_key(asset, action, time, a) == fingerprint_key(asset, action, time, b))
            <==> same_value(a, b),
{
    law_normalized_equal_iff_same_value(a, b);
}

} // verus!
