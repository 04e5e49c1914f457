//! Rate limiting of token operations, globally per operation type and per
//! address, over configurable time windows.

use vstd::prelude::*;
use crate::address::Address;
use crate::ledger_map::LedgerMap;

verus! {

/// A limit of `limit` operations per window of `window_seconds`.
#[derive(Clone, Copy, PartialEq, Eq, Debug, Structural)]
pub struct RateLimitConfig {
    pub limit: u64,
    pub window_seconds: u64,
}

/// Operations counted in the current window, and when the window started.
#[derive(Clone, Copy, PartialEq, Eq, Debug, Structural)]
pub struct RateLimitState {
    pub count: u64,
    pub last_reset: u64,
}

/// What a rate-limit check decided.
#[derive(Clone, Copy, PartialEq, Eq, Debug, Structural)]
pub enum RateLimitVerdict {
    /// The operation is within every limit and was counted.
    Allowed,
    /// The global limit of the operation type is reached.
    GlobalExceeded { count: u64, limit: u64, window_seconds: u64 },
    /// The address's limit of the operation type is reached.
    AddressExceeded { count: u64, limit: u64, window_seconds: u64 },
}

/// The rate-limit ledger.
pub struct BcForgeRateLimit {
    /// Global limit of each operation type.
    pub global_limits: LedgerMap<String, RateLimitConfig>,
    /// Limit of each (address, operation type).
    pub address_limits: LedgerMap<(Address, String), RateLimitConfig>,
    /// Global window state of each operation type.
    pub global_counts: LedgerMap<String, RateLimitState>,
    /// Window state of each (address, operation type).
    pub address_counts: LedgerMap<(Address, String), RateLimitState>,
}

/// The stored window state under `k`, or a fresh one.
pub open spec fn window_state<K>(m: Map<K, RateLimitState>, k: K) -> RateLimitState {
    if m.contains_key(k) {
        m[k]
    } else {
        RateLimitState { count: 0, last_reset: 0 }
    }
}

/// Whether the window of `st` is over at `now`.
pub open spec fn window_over(cfg: RateLimitConfig, st: RateLimitState, now: u64) -> bool {
    now >= st.last_reset + cfg.window_seconds
}

/// The window state at `now`: a new empty window once the old one is over.
pub open spec fn refreshed(cfg: RateLimitConfig, st: RateLimitState, now: u64) -> RateLimitState {
    if window_over(cfg, st, now) {
        RateLimitState { count: 0, last_reset: now }
    } else {
        st
    }
}

/// Whether the limit under `k` is reached at `now`.
pub open spec fn limit_reached<K>(m: Map<K, RateLimitState>, k: K, cfg: RateLimitConfig, now: u64) -> bool {
    refreshed(cfg, window_state(m, k), now).count >= cfg.limit
}

/// The window states after checking the limit under `k` at `now`: a window
/// that ended is restarted, and an operation within the limit is counted.
pub open spec fn counts_after<K>(m: Map<K, RateLimitState>, k: K, cfg: RateLimitConfig, now: u64) -> Map<K, RateLimitState> {
    let st = window_state(m, k);
    let st1 = refreshed(cfg, st, now);
    if st1.count >= cfg.limit {
        if window_over(cfg, st, now) {
            m.insert(k, st1)
        } else {
            m
        }
    } else {
        m.insert(k, RateLimitState { count: (st1.count + 1) as u64, last_reset: st1.last_reset })
    }
}

/// The window start plus the window length fits in a `u64`.
pub open spec fn window_fits<K>(m: Map<K, RateLimitState>, k: K, cfg: RateLimitConfig) -> bool {
    window_state(m, k).last_reset + cfg.window_seconds <= u64::MAX
}

/// The rate-limit ledger as plain values.
pub struct RateLimitView {
    pub global_limits: Map<Seq<char>, RateLimitConfig>,
    pub address_limits: Map<(Seq<char>, Seq<char>), RateLimitConfig>,
    pub global_counts: Map<Seq<char>, RateLimitState>,
    pub address_counts: Map<(Seq<char>, Seq<char>), RateLimitState>,
}

impl View for BcForgeRateLimit {
    type V = RateLimitView;

    open spec fn view(&self) -> RateLimitView {
        RateLimitView {
            global_limits: self.global_limits@,
            address_limits: self.address_limits@,
            global_counts: self.global_counts@,
            address_counts: self.address_counts@,
        }
    }
}

impl RateLimitView {
    /// No window start plus window length that a check of `op` for
    /// `address` computes overflows.
    pub open spec fn check_fits(self, address: Option<Seq<char>>, op: Seq<char>) -> bool {
        &&& self.global_limits.contains_key(op) ==> window_fits(self.global_counts, op, self.global_limits[op])
        &&& (address matches Some(a) && self.address_limits.contains_key((a, op))) ==>
            window_fits(self.address_counts, (address.unwrap(), op), self.address_limits[(address.unwrap(), op)])
    }

    /// The verdict of checking `op` for `address` at `now`.
    pub open spec fn verdict(self, address: Option<Seq<char>>, op: Seq<char>, now: u64) -> RateLimitVerdict {
        if self.global_limits.contains_key(op) && limit_reached(self.global_counts, op, self.global_limits[op], now) {
            let cfg = self.global_limits[op];
            RateLimitVerdict::GlobalExceeded {
                count: refreshed(cfg, window_state(self.global_counts, op), now).count,
                limit: cfg.limit,
                window_seconds: cfg.window_seconds,
            }
        } else if address matches Some(a) && self.address_limits.contains_key((a, op))
            && limit_reached(self.address_counts, (a, op), self.address_limits[(a, op)], now) {
            let k = (address.unwrap(), op);
            let cfg = self.address_limits[k];
            RateLimitVerdict::AddressExceeded {
                count: refreshed(cfg, window_state(self.address_counts, k), now).count,
                limit: cfg.limit,
                window_seconds: cfg.window_seconds,
            }
        } else {
            RateLimitVerdict::Allowed
        }
    }

    /// The global window states after checking `op` at `now`.
    pub open spec fn global_counts_after(self, op: Seq<char>, now: u64) -> Map<Seq<char>, RateLimitState> {
        if self.global_limits.contains_key(op) {
            counts_after(self.global_counts, op, self.global_limits[op], now)
        } else {
            self.global_counts
        }
    }

    /// The address window states after checking `op` for `address` at `now`.
    pub open spec fn address_counts_after(self, address: Option<Seq<char>>, op: Seq<char>, now: u64) -> Map<(Seq<char>, Seq<char>), RateLimitState> {
        if self.verdict(address, op, now) is GlobalExceeded {
            self.address_counts
        } else if address matches Some(a) && self.address_limits.contains_key((a, op)) {
            counts_after(self.address_counts, (address.unwrap(), op), self.address_limits[(address.unwrap(), op)], now)
        } else {
            self.address_counts
        }
    }

}

impl BcForgeRateLimit {
    /// An empty ledger: no limits configured.
    pub fn new() -> (r: BcForgeRateLimit)
        ensures
            r.global_limits@ == Map::<Seq<char>, RateLimitConfig>::empty(),
            r.address_limits@ == Map::<(Seq<char>, Seq<char>), RateLimitConfig>::empty(),
            r.global_counts@ == Map::<Seq<char>, RateLimitState>::empty(),
            r.address_counts@ == Map::<(Seq<char>, Seq<char>), RateLimitState>::empty(),
    {
        BcForgeRateLimit {
            global_limits: LedgerMap::new(),
            address_limits: LedgerMap::new(),
            global_counts: LedgerMap::new(),
            address_counts: LedgerMap::new(),
        }
    }

    /// Whether the limit under `key` is reached at `now`, without counting.
    fn window_reached<K: crate::ledger_map::LedgerKey>(
        counts: &LedgerMap<K, RateLimitState>,
        key: &K,
        cfg: RateLimitConfig,
        now: u64,
    ) -> (r: Option<u64>)
        requires
            window_fits(counts@, key@, cfg),
        ensures
            r is Some == limit_reached(counts@, key@, cfg, now),
            r matches Some(c) ==> c == refreshed(cfg, window_state(counts@, key@), now).count,
    {
        let mut state = match counts.get(key) {
            Some(st) => *st,
            None => RateLimitState { count: 0, last_reset: 0 },
        };
        if now >= state.last_reset + cfg.window_seconds {
            state.count = 0;
            state.last_reset = now;
        }
        if state.count >= cfg.limit {
            return Some(state.count);
        }
        None
    }

    /// The verdict that checking `operation_type` for `address` at `now`
    /// would give, without counting anything.
    pub fn peek_verdict(&self, address: Option<&Address>, operation_type: &String, now: u64) -> (r: RateLimitVerdict)
        requires
            self@.check_fits(match address { Some(a) => Some(a@), None => None }, operation_type@),
        ensures
            r == self@.verdict(match address { Some(a) => Some(a@), None => None }, operation_type@, now),
    {
        match self.global_limits.get(operation_type) {
            Some(cfg) => {
                let cfg = *cfg;
                match Self::window_reached(&self.global_counts, operation_type, cfg, now) {
                    Some(count) => {
                        return RateLimitVerdict::GlobalExceeded {
                            count,
                            limit: cfg.limit,
                            window_seconds: cfg.window_seconds,
                        };
                    },
                    None => {},
                }
            },
            None => {},
        }
        match address {
            Some(addr) => {
                let key = (addr.duplicate(), operation_type.clone());
                match self.address_limits.get(&key) {
                    Some(cfg) => {
                        let cfg = *cfg;
                        match Self::window_reached(&self.address_counts, &key, cfg, now) {
                            Some(count) => {
                                return RateLimitVerdict::AddressExceeded {
                                    count,
                                    limit: cfg.limit,
                                    window_seconds: cfg.window_seconds,
                                };
                            },
                            None => {},
                        }
                    },
                    None => {},
                }
            },
            None => {},
        }
        RateLimitVerdict::Allowed
    }

    /// Checks one window under a key and updates its state.
    fn check_window<K: crate::ledger_map::LedgerKey>(
        counts: &mut LedgerMap<K, RateLimitState>,
        key: K,
        cfg: RateLimitConfig,
        now: u64,
    ) -> (r: Option<u64>)
        requires
            window_fits(old(counts)@, key@, cfg),
        ensures
            final(counts)@ == counts_after(old(counts)@, key@, cfg, now),
            r is Some == limit_reached(old(counts)@, key@, cfg, now),
            r matches Some(c) ==> c == refreshed(cfg, window_state(old(counts)@, key@), now).count,
    {
        let mut state = match counts.get(&key) {
            Some(st) => *st,
            None => RateLimitState { count: 0, last_reset: 0 },
        };
        if now >= state.last_reset + cfg.window_seconds {
            state.count = 0;
            state.last_reset = now;
            counts.set(key.key_clone(), state);
        }
        if state.count >= cfg.limit {
            return Some(state.count);
        }
        state.count = state.count + 1;
        counts.set(key, state);
        None
    }

    /// Checks `operation_type` for `address` at `now` against the global and
    /// the per-address limits, counting the operation where it is allowed.
    pub fn check_rate_limit_verdict(&mut self, address: Option<&Address>, operation_type: &String, now: u64) -> (r: RateLimitVerdict)
        requires
            old(self)@.check_fits(match address { Some(a) => Some(a@), None => None }, operation_type@),
        ensures
            r == old(self)@.verdict(match address { Some(a) => Some(a@), None => None }, operation_type@, now),
            final(self).global_counts@ == old(self)@.global_counts_after(operation_type@, now),
            final(self).address_counts@ == old(self)@.address_counts_after(
                match address { Some(a) => Some(a@), None => None }, operation_type@, now),
            final(self).global_limits@ == old(self).global_limits@,
            final(self).address_limits@ == old(self).address_limits@,
    {
        match self.global_limits.get(operation_type) {
            Some(cfg) => {
                let cfg = *cfg;
                match Self::check_window(&mut self.global_counts, operation_type.clone(), cfg, now) {
                    Some(count) => {
                        return RateLimitVerdict::GlobalExceeded {
                            count,
                            limit: cfg.limit,
                            window_seconds: cfg.window_seconds,
                        };
                    },
                    None => {},
                }
            },
            None => {},
        }
        match address {
            Some(addr) => {
                let key = (addr.duplicate(), operation_type.clone());
                match self.address_limits.get(&key) {
                    Some(cfg) => {
                        let cfg = *cfg;
                        match Self::check_window(&mut self.address_counts, key, cfg, now) {
                            Some(count) => {
                                return RateLimitVerdict::AddressExceeded {
                                    count,
                                    limit: cfg.limit,
                                    window_seconds: cfg.window_seconds,
                                };
                            },
                            None => {},
                        }
                    },
                    None => {},
                }
            },
            None => {},
        }
        RateLimitVerdict::Allowed
    }

    /// Whether `operation_type` for `address` at `now` is within every
    /// limit; an allowed operation is counted.
    pub fn internal_check_rate_limit(&mut self, address: Option<&Address>, operation_type: &String, _amount: u64, now: u64) -> (r: bool)
        requires
            old(self)@.check_fits(match address { Some(a) => Some(a@), None => None }, operation_type@),
        ensures
            r == (old(self)@.verdict(match address { Some(a) => Some(a@), None => None }, operation_type@, now) is Allowed),
            final(self).global_counts@ == old(self)@.global_counts_after(operation_type@, now),
            final(self).address_counts@ == old(self)@.address_counts_after(
                match address { Some(a) => Some(a@), None => None }, operation_type@, now),
            final(self).global_limits@ == old(self).global_limits@,
            final(self).address_limits@ == old(self).address_limits@,
    {
        let verdict = self.check_rate_limit_verdict(address, operation_type, now);
        match verdict {
            RateLimitVerdict::Allowed => true,
            _ => false,
        }
    }

    /// Contract entry point of [`Self::internal_check_rate_limit`].
    pub fn check_rate_limit(&mut self, address: Option<Address>, operation_type: String, amount: u64, now: u64) -> (r: bool)
        requires
            old(self)@.check_fits(match address { Some(a) => Some(a@), None => None }, operation_type@),
        ensures
            r == (old(self)@.verdict(match address { Some(a) => Some(a@), None => None }, operation_type@, now) is Allowed),
            final(self).global_counts@ == old(self)@.global_counts_after(operation_type@, now),
            final(self).address_counts@ == old(self)@.address_counts_after(
                match address { Some(a) => Some(a@), None => None }, operation_type@, now),
            final(self).global_limits@ == old(self).global_limits@,
            final(self).address_limits@ == old(self).address_limits@,
    {
        let address_ref = address.as_ref();
        self.internal_check_rate_limit(address_ref, &operation_type, amount, now)
    }

    /// Sets the global limit of `operation_type`.
    pub fn internal_set_global_rate_limit(&mut self, operation_type: &String, limit: u64, window_seconds: u64)
        ensures
            final(self).global_limits@ == old(self).global_limits@.insert(operation_type@,
                RateLimitConfig { limit, window_seconds }),
            final(self).address_limits@ == old(self).address_limits@,
            final(self).global_counts@ == old(self).global_counts@,
            final(self).address_counts@ == old(self).address_counts@,
    {
        self.global_limits.set(operation_type.clone(), RateLimitConfig { limit, window_seconds });
    }

    /// Sets the limit of `operation_type` for `address`.
    pub fn internal_set_address_rate_limit(&mut self, address: &Address, operation_type: &String, limit: u64, window_seconds: u64)
        ensures
            final(self).address_limits@ == old(self).address_limits@.insert((address@, operation_type@),
                RateLimitConfig { limit, window_seconds }),
            final(self).global_limits@ == old(self).global_limits@,
            final(self).global_counts@ == old(self).global_counts@,
            final(self).address_counts@ == old(self).address_counts@,
    {
        self.address_limits.set((address.duplicate(), operation_type.clone()), RateLimitConfig { limit, window_seconds });
    }

    /// Contract entry point of [`Self::internal_set_global_rate_limit`].
    pub fn set_global_rate_limit(&mut self, operation_type: String, limit: u64, window_seconds: u64)
        ensures
            final(self).global_limits@ == old(self).global_limits@.insert(operation_type@,
                RateLimitConfig { limit, window_seconds }),
            final(self).address_limits@ == old(self).address_limits@,
            final(self).global_counts@ == old(self).global_counts@,
            final(self).address_counts@ == old(self).address_counts@,
    {
        self.internal_set_global_rate_limit(&operation_type, limit, window_seconds)
    }

    /// Contract entry point of [`Self::internal_set_address_rate_limit`].
    pub fn set_address_rate_limit(&mut self, address: Address, operation_type: String, limit: u64, window_seconds: u64)
        ensures
            final(self).address_limits@ == old(self).address_limits@.insert((address@, operation_type@),
                RateLimitConfig { limit, window_seconds }),
            final(self).global_limits@ == old(self).global_limits@,
            final(self).global_counts@ == old(self).global_counts@,
            final(self).address_counts@ == old(self).address_counts@,
    {
        self.internal_set_address_rate_limit(&address, &operation_type, limit, window_seconds)
    }
}

/// A check within the limit counts exactly one operation in the current
/// window; a refused check counts none and at most restarts an ended
/// window. Other keys are untouched.
pub proof fn lemma_check_counts_one<K>(m: Map<K, RateLimitState>, k: K, cfg: RateLimitConfig, now: u64)
    ensures
        !limit_reached(m, k, cfg, now) ==> window_state(counts_after(m, k, cfg, now), k)
            == (RateLimitState {
                count: (refreshed(cfg, window_state(m, k), now).count + 1) as u64,
                last_reset: refreshed(cfg, window_state(m, k), now).last_reset,
            }),
        limit_reached(m, k, cfg, now) ==> window_state(counts_after(m, k, cfg, now), k)
            == refreshed(cfg, window_state(m, k), now),
        forall|j: K| j != k ==> #[trigger] window_state(counts_after(m, k, cfg, now), j) == window_state(m, j),
{
}

/// Once a window is over, the next check starts a new one at `now`: with a
/// positive limit it is allowed and counted as the window's first.
pub proof fn lemma_window_reset<K>(m: Map<K, RateLimitState>, k: K, cfg: RateLimitConfig, now: u64)
    requires
        window_over(cfg, window_state(m, k), now),
        cfg.limit > 0,
    ensures
        !limit_reached(m, k, cfg, now),
        window_state(counts_after(m, k, cfg, now), k) == (RateLimitState { count: 1, last_reset: now }),
{
}

/// A window never counts past its limit.
pub proof fn lemma_count_within_limit<K>(m: Map<K, RateLimitState>, k: K, cfg: RateLimitConfig, now: u64)
    requires
        window_state(m, k).count <= cfg.limit,
    ensures
        window_state(counts_after(m, k, cfg, now), k).count <= cfg.limit,
{
}

/// A check refused by the global limit leaves every per-address window
/// alone.
pub proof fn lemma_global_refusal_spares_addresses(v: RateLimitView, address: Option<Seq<char>>, op: Seq<char>, now: u64)
    requires
        v.verdict(address, op, now) is GlobalExceeded,
    ensures
        v.address_counts_after(address, op, now) == v.address_counts,
{
}

/// Whether a window with limit `cfg` and stored state `st` admits one more
/// operation at `now`: a window that is over admits one when the limit is
/// positive; a running one admits one while it counted fewer than the limit.
pub open spec fn admits(cfg: RateLimitConfig, st: RateLimitState, now: u64) -> bool {
    if now >= st.last_reset + cfg.window_seconds { 0 < cfg.limit } else { st.count < cfg.limit }
}

/// A check is allowed exactly when every configured window admits one more
/// operation: the global window of the operation type, then the caller's own.
/// A type with no limit configured is never refused, and the limit-th
/// operation of a window is still allowed while the next one is not.
pub proof fn lemma_verdict_allows_within_limits(v: RateLimitView, a: Option<Seq<char>>, op: Seq<char>, now: u64)
    ensures
        v.verdict(a, op, now) is Allowed <==> (
            (v.global_limits.contains_key(op) ==> admits(v.global_limits[op], window_state(v.global_counts, op), now))
            && (a matches Some(x) && v.address_limits.contains_key((x, op)) ==>
                admits(v.address_limits[(a.unwrap(), op)], window_state(v.address_counts, (a.unwrap(), op)), now))),
        !v.global_limits.contains_key(op) && (a is None || !v.address_limits.contains_key((a.unwrap(), op)))
            ==> v.verdict(a, op, now) is Allowed,
        v.global_limits.contains_key(op) && !admits(v.global_limits[op], window_state(v.global_counts, op), now)
            ==> v.verdict(a, op, now) is GlobalExceeded,
{
}

/// An allowed check adds exactly one to the count of each configured window
/// it passed, in the window that is current at `now`.
pub proof fn lemma_allowed_check_counts(v: RateLimitView, op: Seq<char>, now: u64)
    requires
        v.global_limits.contains_key(op),
        admits(v.global_limits[op], window_state(v.global_counts, op), now),
    ensures
        window_state(v.global_counts_after(op, now), op).count == (
            if now >= window_state(v.global_counts, op).last_reset + v.global_limits[op].window_seconds { 1 }
            else { window_state(v.global_counts, op).count + 1 }),
{
}

} // verus!

