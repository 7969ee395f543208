//! Leases: time-bounded grants of a resource that holders renew and that
//! are reclaimed on cancel or expiry.
use vstd::prelude::*;

use crate::env::{new_id, now_millis};
use crate::error::Error;
use crate::strmap::StrMap;
use crate::text::{eq_ignore_ascii_case, parse_u64, str_eq};

verus! {

/// Sentinel: client defers to the server's preferred TTL.
///
/// Deliberately `0` — proto3 gives every unset `uint64` field a zero value,
/// so a client that forgets to set `ttl_seconds` lands here by construction.
pub const LEASE_ANY: u64 = 0;

/// Sentinel: client requests an indefinite lease. Only honored when
/// `LeaseConfig::max_ttl` is `None` (FOREVER); otherwise capped to max.
pub const LEASE_FOREVER: u64 = 0xffff_ffff_ffff_ffff;

/// Default cap on a granted TTL, in seconds.
pub const DEFAULT_MAX_TTL: u64 = 3600;

/// Default TTL granted for `LEASE_ANY`, in seconds.
pub const DEFAULT_PREFERRED_TTL: u64 = 300;

/// Instant at which a lease granted at `now` (milliseconds since the epoch)
/// for `ttl` seconds expires, saturating at the largest representable
/// instant.
pub open spec fn expiry(now: i64, ttl: u64) -> i64 {
    if now + 1000 * ttl > i64::MAX {
        i64::MAX
    } else {
        (now + 1000 * ttl) as i64
    }
}

/// Compute [`expiry`].
pub fn expiry_instant(now: i64, ttl: u64) -> (at: i64)
    ensures
        at == expiry(now, ttl),
{
    let total: i128 = now as i128 + (ttl as i128) * 1000;
    if total > i64::MAX as i128 {
        i64::MAX
    } else {
        total as i64
    }
}

/// The whole seconds and leftover nanoseconds of an instant given in
/// milliseconds since the epoch, as wire timestamps carry it: seconds
/// rounded down, nanoseconds in `0..1_000_000_000`.
pub fn timestamp_parts(ms: i64) -> (parts: (i64, i32))
    ensures
        parts.0 == ms / 1000,
        parts.1 == (ms % 1000) * 1_000_000,
{
    if ms >= 0 {
        (ms / 1000, ((ms % 1000) * 1_000_000) as i32)
    } else {
        let a: u64 = (-(ms as i128)) as u64;
        let q: u64 = a / 1000;
        let r: u64 = a % 1000;
        proof {
            assert(a == q * 1000 + r) by (nonlinear_arith)
                requires
                    q == a / 1000,
                    r == a % 1000,
            ;
            assert(ms == -(q * 1000 + r));
        }
        if r == 0 {
            proof {
                assert(ms == (-(q as int)) * 1000);
                assert(ms / 1000 == -(q as int)) by (nonlinear_arith)
                    requires
                        ms == (-(q as int)) * 1000,
                ;
                assert(ms % 1000 == 0) by (nonlinear_arith)
                    requires
                        ms == (-(q as int)) * 1000,
                ;
            }
            (-(q as i64), 0)
        } else {
            proof {
                assert(ms == (-(q as int) - 1) * 1000 + (1000 - r));
                assert(ms / 1000 == -(q as int) - 1 && ms % 1000 == 1000 - r) by (nonlinear_arith)
                    requires
                        ms == (-(q as int) - 1) * 1000 + (1000 - r),
                        0 < r < 1000,
                ;
            }
            (-(q as i64) - 1, ((1000 - r) * 1_000_000) as i32)
        }
    }
}

/// A granted lease. Instants are milliseconds since the Unix epoch.
#[derive(Debug)]
pub struct LeaseRecord {
    pub lease_id: String,
    pub resource_id: String,
    pub granted_at: i64,
    pub expires_at: i64,
    /// The TTL actually granted (seconds). `LEASE_FOREVER` = never expires.
    pub ttl_seconds: u64,
}

impl Clone for LeaseRecord {
    fn clone(&self) -> (r: Self)
        ensures
            r == *self,
    {
        LeaseRecord {
            lease_id: self.lease_id.clone(),
            resource_id: self.resource_id.clone(),
            granted_at: self.granted_at,
            expires_at: self.expires_at,
            ttl_seconds: self.ttl_seconds,
        }
    }
}

impl LeaseRecord {
    /// The lease is expired at instant `now`: it is not a FOREVER lease and
    /// `now` has reached its expiry.
    pub open spec fn expired_at(&self, now: i64) -> bool {
        self.ttl_seconds != LEASE_FOREVER && now >= self.expires_at
    }

    /// Whether the lease is expired at instant `now`.
    pub fn is_expired_at(&self, now: i64) -> (expired: bool)
        ensures
            expired == self.expired_at(now),
    {
        // FOREVER leases never expire.
        if self.ttl_seconds == LEASE_FOREVER {
            return false;
        }
        now >= self.expires_at
    }

    /// Whether the lease is expired now, by the wall clock.
    pub fn is_expired(&self) -> (expired: bool)
        ensures
            exists|now: i64| expired == self.expired_at(now),
    {
        self.is_expired_at(now_millis())
    }
}

/// Server-side lease policy.
#[derive(Debug)]
pub struct LeaseConfig {
    /// `None` = FOREVER allowed (no cap).
    pub max_ttl: Option<u64>,
    /// Returned when a client requests `LEASE_ANY`.
    pub preferred_ttl: u64,
}

impl Clone for LeaseConfig {
    fn clone(&self) -> (r: Self)
        ensures
            r == *self,
    {
        LeaseConfig { max_ttl: self.max_ttl, preferred_ttl: self.preferred_ttl }
    }
}

/// The TTL granted for a request of `requested` seconds under a policy.
pub open spec fn negotiated(max_ttl: Option<u64>, preferred_ttl: u64, requested: u64) -> u64 {
    if requested == LEASE_ANY {
        preferred_ttl
    } else if requested == LEASE_FOREVER {
        match max_ttl {
            None => LEASE_FOREVER,
            Some(max) => max,
        }
    } else {
        match max_ttl {
            None => requested,
            Some(max) => if requested < max {
                requested
            } else {
                max
            },
        }
    }
}

/// The cap a raw `MAX_LEASE_TTL` setting denotes: `forever` (any case)
/// lifts the cap, a decimal number sets it, and anything else, as well as
/// no setting at all, means the default.
pub open spec fn max_ttl_setting(raw: Option<Seq<char>>) -> Option<u64> {
    match raw {
        None => Some(DEFAULT_MAX_TTL),
        Some(v) => if crate::text::ascii_case_eq(v, "forever"@) {
            None
        } else if crate::text::is_unsigned_literal(v, u64::MAX as int) {
            Some(crate::text::digits_value(crate::text::unsigned_digits(v)) as u64)
        } else {
            Some(DEFAULT_MAX_TTL)
        },
    }
}

/// The preferred TTL a raw `PREFERRED_LEASE_TTL` setting denotes: a decimal
/// number, or the default for anything else.
pub open spec fn preferred_ttl_setting(raw: Option<Seq<char>>) -> u64 {
    match raw {
        Some(v) => if crate::text::is_unsigned_literal(v, u64::MAX as int) {
            crate::text::digits_value(crate::text::unsigned_digits(v)) as u64
        } else {
            DEFAULT_PREFERRED_TTL
        },
        None => DEFAULT_PREFERRED_TTL,
    }
}

/// The first present setting: a namespaced one wins over the global one.
pub open spec fn first_setting(namespaced: Option<String>, global: Option<String>) -> Option<Seq<char>> {
    match namespaced {
        Some(v) => Some(v@),
        None => match global {
            Some(v) => Some(v@),
            None => None,
        },
    }
}

impl LeaseConfig {
    /// The default policy: a one-hour cap and a five-minute preferred TTL.
    pub fn default() -> (c: Self)
        ensures
            c.max_ttl == Some(DEFAULT_MAX_TTL),
            c.preferred_ttl == DEFAULT_PREFERRED_TTL,
    {
        LeaseConfig { max_ttl: Some(DEFAULT_MAX_TTL), preferred_ttl: DEFAULT_PREFERRED_TTL }
    }

    /// The policy of the global settings `MAX_LEASE_TTL` and
    /// `PREFERRED_LEASE_TTL`, given by their values (`None` when unset).
    pub fn from_env(global_max: Option<String>, global_preferred: Option<String>) -> (c: Self)
        ensures
            c.max_ttl == max_ttl_setting(first_setting(None, global_max)),
            c.preferred_ttl == preferred_ttl_setting(first_setting(None, global_preferred)),
    {
        Self::from_env_for(None, global_max, None, global_preferred)
    }

    /// The policy of one resource namespace, from the values of its
    /// settings (`<NS>_MAX_LEASE_TTL`, `<NS>_PREFERRED_LEASE_TTL`) where
    /// set, else of the global ones (`MAX_LEASE_TTL`,
    /// `PREFERRED_LEASE_TTL`); `None` stands for an unset variable.
    pub fn from_env_for(
        namespaced_max: Option<String>,
        global_max: Option<String>,
        namespaced_preferred: Option<String>,
        global_preferred: Option<String>,
    ) -> (c: Self)
        ensures
            c.max_ttl == max_ttl_setting(first_setting(namespaced_max, global_max)),
            c.preferred_ttl == preferred_ttl_setting(
                first_setting(namespaced_preferred, global_preferred),
            ),
    {
        let max_raw = match namespaced_max {
            Some(v) => Some(v),
            None => global_max,
        };
        let max_ttl = match max_raw {
            Some(v) => if eq_ignore_ascii_case(v.as_str(), "forever") {
                None
            } else {
                match parse_u64(v.as_str()) {
                    Some(n) => Some(n),
                    None => Some(DEFAULT_MAX_TTL),
                }
            },
            None => Some(DEFAULT_MAX_TTL),
        };
        let preferred_raw = match namespaced_preferred {
            Some(v) => Some(v),
            None => global_preferred,
        };
        let preferred_ttl = match preferred_raw {
            Some(v) => match parse_u64(v.as_str()) {
                Some(n) => n,
                None => DEFAULT_PREFERRED_TTL,
            },
            None => DEFAULT_PREFERRED_TTL,
        };
        LeaseConfig { max_ttl, preferred_ttl }
    }

    /// Negotiate the granted TTL from a client-requested value.
    pub fn negotiate(&self, requested: u64) -> (granted: u64)
        ensures
            granted == negotiated(self.max_ttl, self.preferred_ttl, requested),
    {
        if requested == LEASE_ANY {
            self.preferred_ttl
        } else if requested == LEASE_FOREVER {
            match self.max_ttl {
                None => LEASE_FOREVER,
                Some(max) => max,
            }
        } else {
            match self.max_ttl {
                None => requested,
                Some(max) => if requested < max {
                    requested
                } else {
                    max
                },
            }
        }
    }
}

/// Why a lease was reclaimed.
#[derive(Debug, Clone, Copy, PartialEq, Eq, Structural)]
pub enum ReclaimReason {
    /// The reaper found the lease past its `expires_at`.
    Expired,
    /// The holder explicitly called `cancel()`.
    Cancelled,
}

/// A lease reclamation event — broadcast to cascade handlers and to
/// expiry watchers, on both natural expiry and explicit cancel.
#[derive(Debug)]
pub struct LeaseReclaimed {
    pub record: LeaseRecord,
    pub reason: ReclaimReason,
}

/// The outcome of renewing lease `lease_id` at instant `now` for a granted
/// TTL of `ttl` seconds, with the live leases going from `before` to
/// `after`: unknown and expired leases are refused and nothing changes;
/// otherwise the lease gets a new expiry and TTL, all else kept.
pub open spec fn renewal(
    before: Map<Seq<char>, LeaseRecord>,
    after: Map<Seq<char>, LeaseRecord>,
    lease_id: Seq<char>,
    ttl: u64,
    now: i64,
    r: Result<LeaseRecord, Error>,
) -> bool {
    if !before.contains_key(lease_id) {
        &&& r matches Err(Error::LeaseNotFound(id)) && id@ == lease_id
        &&& after == before
    } else if before[lease_id].expired_at(now) {
        &&& r matches Err(Error::LeaseExpired(id)) && id@ == lease_id
        &&& after == before
    } else {
        let prev = before[lease_id];
        &&& r matches Ok(rec) && rec == (LeaseRecord {
            lease_id: prev.lease_id,
            resource_id: prev.resource_id,
            granted_at: prev.granted_at,
            expires_at: expiry(now, ttl),
            ttl_seconds: ttl,
        })
        &&& after == before.insert(lease_id, r->Ok_0)
    }
}

/// `after` is `before` without the leases expired at `now`, and `expired`
/// lists exactly those, each as it was in `before`.
pub open spec fn drained(
    before: Map<Seq<char>, LeaseRecord>,
    after: Map<Seq<char>, LeaseRecord>,
    expired: Seq<LeaseRecord>,
    now: i64,
) -> bool {
    &&& forall|k: Seq<char>| #[trigger] after.contains_key(k) <==> before.contains_key(k)
        && !before[k].expired_at(now)
    &&& forall|k: Seq<char>| #[trigger] after.contains_key(k) ==> after[k] == before[k]
    &&& forall|i: int| 0 <= i < expired.len() ==> {
        let rec = #[trigger] expired[i];
        &&& before.contains_key(rec.lease_id@)
        &&& before[rec.lease_id@] == rec
        &&& rec.expired_at(now)
    }
    &&& forall|k: Seq<char>| #[trigger] before.contains_key(k) && before[k].expired_at(now)
        ==> exists|i: int| 0 <= i < expired.len() && (#[trigger] expired[i]).lease_id@ == k
}

/// The effect of cancelling lease `lease_id` on a manager: a live lease is
/// removed and its reclamation queued; otherwise nothing changes.
pub open spec fn cancellation(before: LeaseManager, after: LeaseManager, lease_id: Seq<char>) -> bool {
    &&& after.config() == before.config()
    &&& if before.leases().contains_key(lease_id) {
        &&& after.leases() == before.leases().remove(lease_id)
        &&& after.pending_reclaims() == before.pending_reclaims().push(
            LeaseReclaimed { record: before.leases()[lease_id], reason: ReclaimReason::Cancelled },
        )
    } else {
        &&& after.leases() == before.leases()
        &&& after.pending_reclaims() == before.pending_reclaims()
    }
}

/// The live leases and queued reclamations after cancelling the leases
/// `ids` in order, unknown ones being skipped.
pub open spec fn cancel_all(
    leases: Map<Seq<char>, LeaseRecord>,
    reclaims: Seq<LeaseReclaimed>,
    ids: Seq<Seq<char>>,
) -> (Map<Seq<char>, LeaseRecord>, Seq<LeaseReclaimed>)
    decreases ids.len(),
{
    if ids.len() == 0 {
        (leases, reclaims)
    } else {
        let (l, p) = cancel_all(leases, reclaims, ids.drop_last());
        let id = ids.last();
        if l.contains_key(id) {
            (l.remove(id), p.push(LeaseReclaimed { record: l[id], reason: ReclaimReason::Cancelled }))
        } else {
            (l, p)
        }
    }
}

/// Each item of `items` was renewed in turn, at instant `now`, under the
/// policy of `manager`: `states` are the live leases before the first
/// renewal and after each, and `results[i]` is the outcome of the `i`-th.
pub open spec fn renewed_in_turn(
    manager: LeaseManager,
    states: Seq<Map<Seq<char>, LeaseRecord>>,
    items: Seq<(String, u64)>,
    now: i64,
    results: Seq<(String, Result<LeaseRecord, Error>)>,
) -> bool {
    &&& states.len() == items.len() + 1
    &&& results.len() == items.len()
    &&& forall|i: int| 0 <= i < items.len() ==> (#[trigger] results[i]).0 == items[i].0 && renewal(
        states[i],
        states[i + 1],
        items[i].0@,
        manager.granted_ttl(items[i].1),
        now,
        results[i].1,
    )
}

/// A reclamation is reported to an expiry watcher whose filter is empty or
/// names the lease's resource.
pub fn watch_expiry_accepts(filter: &str, record: &LeaseRecord) -> (yes: bool)
    ensures
        yes == (filter@.len() == 0 || filter@ == record.resource_id@),
{
    filter.is_empty() || str_eq(filter, record.resource_id.as_str())
}

/// The records of a list of reclamations.
pub open spec fn reclaimed_records(s: Seq<LeaseReclaimed>) -> Seq<LeaseRecord> {
    s.map_values(|e: LeaseReclaimed| e.record)
}

/// Grants, renews and reclaims the leases of one service.
pub struct LeaseManager {
    leases: StrMap<LeaseRecord>,
    config: LeaseConfig,
    reclaimed: Vec<LeaseReclaimed>,
}

impl LeaseManager {
    #[verifier::type_invariant]
    closed spec fn keyed_by_id(&self) -> bool {
        forall|k: Seq<char>| #[trigger] self.leases@.contains_key(k) ==> self.leases@[k].lease_id@ == k
    }

    /// The live leases, by lease id.
    pub closed spec fn leases(&self) -> Map<Seq<char>, LeaseRecord> {
        self.leases@
    }

    /// The policy TTLs are negotiated under.
    pub closed spec fn config(&self) -> LeaseConfig {
        self.config
    }

    /// Cancellations not yet handed out by [`LeaseManager::take_reclaimed`].
    pub closed spec fn pending_reclaims(&self) -> Seq<LeaseReclaimed> {
        self.reclaimed@
    }

    /// The TTL this manager grants for a request of `requested` seconds.
    pub open spec fn granted_ttl(&self, requested: u64) -> u64 {
        negotiated(self.config().max_ttl, self.config().preferred_ttl, requested)
    }

    /// A manager with no leases.
    pub fn new(config: LeaseConfig) -> (m: Self)
        ensures
            m.leases() == Map::<Seq<char>, LeaseRecord>::empty(),
            m.config() == config,
            m.pending_reclaims() == Seq::<LeaseReclaimed>::empty(),
    {
        LeaseManager { leases: StrMap::new(), config, reclaimed: Vec::new() }
    }

    /// The negotiated TTL for `requested`.
    pub fn negotiate(&self, requested: u64) -> (granted: u64)
        ensures
            granted == self.granted_ttl(requested),
    {
        self.config.negotiate(requested)
    }

    /// The lease with id `lease_id`, if live.
    pub fn get(&self, lease_id: &str) -> (r: Option<LeaseRecord>)
        ensures
            r is Some == self.leases().contains_key(lease_id@),
            r matches Some(rec) ==> rec == self.leases()[lease_id@],
    {
        match self.leases.get(lease_id) {
            Some(rec) => Some(rec.clone()),
            None => None,
        }
    }

    /// Grant a lease on `resource_id` under the id `lease_id`, at instant
    /// `now`, for the TTL negotiated from `requested_ttl`.
    pub fn grant_at(&mut self, resource_id: &str, requested_ttl: u64, lease_id: String, now: i64) -> (r:
        LeaseRecord)
        ensures
            r.lease_id == lease_id,
            r.resource_id@ == resource_id@,
            r.granted_at == now,
            r.ttl_seconds == old(self).granted_ttl(requested_ttl),
            r.expires_at == expiry(now, r.ttl_seconds),
            final(self).leases() == old(self).leases().insert(lease_id@, r),
            final(self).config() == old(self).config(),
            final(self).pending_reclaims() == old(self).pending_reclaims(),
    {
        proof {
            use_type_invariant(&*self);
        }
        let ttl = self.config.negotiate(requested_ttl);
        let record = LeaseRecord {
            lease_id: lease_id.clone(),
            resource_id: resource_id.to_owned(),
            granted_at: now,
            expires_at: expiry_instant(now, ttl),
            ttl_seconds: ttl,
        };
        let mut leases = StrMap::new();
        std::mem::swap(&mut leases, &mut self.leases);
        leases.insert(lease_id, record.clone());
        self.leases = leases;
        record
    }

    /// Grant a lease on `resource_id` for the TTL negotiated from
    /// `requested_ttl`, under a fresh id, starting now.
    pub fn grant(&mut self, resource_id: &str, requested_ttl: u64) -> (r: LeaseRecord)
        ensures
            r.resource_id@ == resource_id@,
            r.ttl_seconds == old(self).granted_ttl(requested_ttl),
            r.expires_at == expiry(r.granted_at, r.ttl_seconds),
            final(self).leases() == old(self).leases().insert(r.lease_id@, r),
            final(self).config() == old(self).config(),
            final(self).pending_reclaims() == old(self).pending_reclaims(),
    {
        let lease_id = new_id();
        let now = now_millis();
        self.grant_at(resource_id, requested_ttl, lease_id, now)
    }

    /// Renew lease `lease_id` at instant `now` for the TTL negotiated from
    /// `requested_ttl`. Fails if the lease is unknown or already expired.
    pub fn renew_at(&mut self, lease_id: &str, requested_ttl: u64, now: i64) -> (r: Result<
        LeaseRecord,
        Error,
    >)
        ensures
            final(self).config() == old(self).config(),
            final(self).pending_reclaims() == old(self).pending_reclaims(),
            renewal(old(self).leases(), final(self).leases(), lease_id@, old(self).granted_ttl(requested_ttl), now, r),
    {
        proof {
            use_type_invariant(&*self);
        }
        let prev = match self.leases.get(lease_id) {
            Some(rec) => rec.clone(),
            None => {
                return Err(Error::LeaseNotFound(lease_id.to_owned()));
            },
        };
        if prev.is_expired_at(now) {
            return Err(Error::LeaseExpired(lease_id.to_owned()));
        }
        let ttl = self.config.negotiate(requested_ttl);
        let record = LeaseRecord {
            lease_id: prev.lease_id,
            resource_id: prev.resource_id,
            granted_at: prev.granted_at,
            expires_at: expiry_instant(now, ttl),
            ttl_seconds: ttl,
        };
        let mut leases = StrMap::new();
        std::mem::swap(&mut leases, &mut self.leases);
        leases.insert(lease_id.to_owned(), record.clone());
        self.leases = leases;
        Ok(record)
    }

    /// Renew lease `lease_id` now, by the wall clock.
    pub fn renew(&mut self, lease_id: &str, requested_ttl: u64) -> (r: Result<LeaseRecord, Error>)
        ensures
            final(self).config() == old(self).config(),
            final(self).pending_reclaims() == old(self).pending_reclaims(),
            exists|now: i64| #[trigger] renewal(old(self).leases(), final(self).leases(), lease_id@, old(self).granted_ttl(requested_ttl), now, r),
    {
        let now = now_millis();
        self.renew_at(lease_id, requested_ttl, now)
    }

    /// Renew each `(lease id, requested TTL)` of `items` in turn at
    /// instant `now`, reporting each outcome under its lease id; a failed
    /// renewal does not stop the others.
    pub fn renew_all_at(&mut self, items: &Vec<(String, u64)>, now: i64) -> (results: Vec<(String, Result<LeaseRecord, Error>)>)
        ensures
            final(self).config() == old(self).config(),
            final(self).pending_reclaims() == old(self).pending_reclaims(),
            exists|states: Seq<Map<Seq<char>, LeaseRecord>>| {
                &&& #[trigger] renewed_in_turn(*old(self), states, items@, now, results@)
                &&& states[0] == old(self).leases()
                &&& states[items@.len() as int] == final(self).leases()
            },
    {
        let mut results: Vec<(String, Result<LeaseRecord, Error>)> = Vec::new();
        let ghost mut states: Seq<Map<Seq<char>, LeaseRecord>> = seq![self.leases()];
        let mut i: usize = 0;
        while i < items.len()
            invariant
                i <= items@.len(),
                states.len() == i + 1,
                results@.len() == i,
                states[0] == old(self).leases(),
                states[i as int] == self.leases(),
                self.config() == old(self).config(),
                self.pending_reclaims() == old(self).pending_reclaims(),
                forall|j: int| 0 <= j < i ==> (#[trigger] results@[j]).0 == items@[j].0 && renewal(
                    states[j],
                    states[j + 1],
                    items@[j].0@,
                    old(self).granted_ttl(items@[j].1),
                    now,
                    results@[j].1,
                ),
            decreases items@.len() - i,
        {
            let r = self.renew_at(items[i].0.as_str(), items[i].1, now);
            proof {
                states = states.push(self.leases());
            }
            results.push((items[i].0.clone(), r));
            i = i + 1;
        }
        proof {
            assert(renewed_in_turn(*old(self), states, items@, now, results@));
        }
        results
    }

    /// Renew each item in turn now, by the wall clock.
    pub fn renew_all(&mut self, items: &Vec<(String, u64)>) -> (results: Vec<(String, Result<LeaseRecord, Error>)>)
        ensures
            final(self).config() == old(self).config(),
            final(self).pending_reclaims() == old(self).pending_reclaims(),
            exists|states: Seq<Map<Seq<char>, LeaseRecord>>, now: i64| {
                &&& #[trigger] renewed_in_turn(*old(self), states, items@, now, results@)
                &&& states[0] == old(self).leases()
                &&& states[items@.len() as int] == final(self).leases()
            },
    {
        let now = now_millis();
        self.renew_all_at(items, now)
    }

    /// Cancel lease `lease_id`: it is removed at once and its reclamation
    /// is queued for the watchers. Fails if the lease is unknown.
    pub fn cancel(&mut self, lease_id: &str) -> (r: Result<(), Error>)
        ensures
            final(self).config() == old(self).config(),
            old(self).leases().contains_key(lease_id@) ==> {
                &&& final(self).leases() == old(self).leases().remove(lease_id@)
                &&& final(self).pending_reclaims() == old(self).pending_reclaims().push(
                    LeaseReclaimed { record: old(self).leases()[lease_id@], reason: ReclaimReason::Cancelled },
                )
            },
            !old(self).leases().contains_key(lease_id@) ==> {
                &&& final(self).leases() == old(self).leases()
                &&& final(self).pending_reclaims() == old(self).pending_reclaims()
            },
            r is Ok == old(self).leases().contains_key(lease_id@),
            r matches Err(e) ==> e matches Error::LeaseNotFound(id) && id@ == lease_id@,
            cancellation(*old(self), *final(self), lease_id@),
    {
        proof {
            use_type_invariant(&*self);
        }
        let mut leases = StrMap::new();
        std::mem::swap(&mut leases, &mut self.leases);
        let removed = leases.remove(lease_id);
        self.leases = leases;
        match removed {
            Some(record) => {
                let mut reclaimed = Vec::new();
                std::mem::swap(&mut reclaimed, &mut self.reclaimed);
                reclaimed.push(LeaseReclaimed { record, reason: ReclaimReason::Cancelled });
                self.reclaimed = reclaimed;
                proof {
                    assert(self.config == old(self).config);
                    assert(self.leases@ == old(self).leases@.remove(lease_id@));
                    assert(self.reclaimed@ == old(self).reclaimed@.push(
                        LeaseReclaimed { record: old(self).leases@[lease_id@], reason: ReclaimReason::Cancelled },
                    ));
                }
                Ok(())
            },
            None => Err(Error::LeaseNotFound(lease_id.to_owned())),
        }
    }

    /// Hand out the queued cancellations, oldest first, and forget them.
    pub fn take_reclaimed(&mut self) -> (events: Vec<LeaseReclaimed>)
        ensures
            events@ == old(self).pending_reclaims(),
            final(self).pending_reclaims() == Seq::<LeaseReclaimed>::empty(),
            final(self).leases() == old(self).leases(),
            final(self).config() == old(self).config(),
    {
        proof {
            use_type_invariant(&*self);
        }
        let mut events = Vec::new();
        std::mem::swap(&mut events, &mut self.reclaimed);
        events
    }

    /// A live lease on `resource_id`, if there is one.
    pub fn get_by_resource(&self, resource_id: &str) -> (r: Option<LeaseRecord>)
        ensures
            r matches Some(rec) ==> {
                &&& self.leases().contains_key(rec.lease_id@)
                &&& self.leases()[rec.lease_id@] == rec
                &&& rec.resource_id@ == resource_id@
            },
            r is None ==> forall|k: Seq<char>| #[trigger] self.leases().contains_key(k)
                ==> self.leases()[k].resource_id@ != resource_id@,
    {
        proof {
            use_type_invariant(self);
        }
        let n = self.leases.len();
        let mut i: usize = 0;
        while i < n
            invariant
                n == self.leases.size(),
                i <= n,
                forall|k: Seq<char>| #[trigger] self.leases@.contains_key(k) ==> exists|j: int|
                    0 <= j < self.leases.size() && #[trigger] self.leases.key_at(j) == k,
                forall|k: Seq<char>| #[trigger] self.leases@.contains_key(k) ==> self.leases@[k].lease_id@ == k,
                forall|j: int| 0 <= j < i ==> self.leases@[#[trigger] self.leases.key_at(j)].resource_id@
                    != resource_id@,
            decreases n - i,
        {
            let (_key, rec) = self.leases.entry(i);
            if str_eq(rec.resource_id.as_str(), resource_id) {
                return Some(rec.clone());
            }
            i = i + 1;
        }
        None
    }

    /// Remove every lease expired at instant `now` and return them.
    pub fn drain_expired_at(&mut self, now: i64) -> (expired: Vec<LeaseRecord>)
        ensures
            final(self).config() == old(self).config(),
            final(self).pending_reclaims() == old(self).pending_reclaims(),
            drained(old(self).leases(), final(self).leases(), expired@, now),
    {
        proof {
            use_type_invariant(&*self);
        }
        let ghost before = self.leases@;
        let n = self.leases.len();
        let mut kept: StrMap<LeaseRecord> = StrMap::new();
        let mut expired: Vec<LeaseRecord> = Vec::new();
        let mut i: usize = 0;
        while i < n
            invariant
                n == self.leases.size(),
                i <= n,
                before == self.leases@,
                forall|k: Seq<char>| #[trigger] self.leases@.contains_key(k) ==> exists|j: int|
                    0 <= j < self.leases.size() && #[trigger] self.leases.key_at(j) == k,
                forall|j: int| 0 <= j < self.leases.size() ==> #[trigger] self.leases@.contains_key(
                    self.leases.key_at(j),
                ),
                forall|a: int, b: int|
                    0 <= a < self.leases.size() && 0 <= b < self.leases.size() && a != b
                        ==> self.leases.key_at(a) != self.leases.key_at(b),
                forall|k: Seq<char>| #[trigger] self.leases@.contains_key(k) ==> self.leases@[k].lease_id@ == k,
                forall|k: Seq<char>| #[trigger] kept@.contains_key(k) <==> exists|j: int|
                    0 <= j < i && #[trigger] self.leases.key_at(j) == k && !self.leases@[k].expired_at(now),
                forall|k: Seq<char>| #[trigger] kept@.contains_key(k) ==> kept@[k] == self.leases@[k],
                forall|x: int| 0 <= x < expired@.len() ==> {
                    let rec = #[trigger] expired@[x];
                    &&& self.leases@.contains_key(rec.lease_id@)
                    &&& self.leases@[rec.lease_id@] == rec
                    &&& rec.expired_at(now)
                },
                forall|j: int| 0 <= j < i && self.leases@[#[trigger] self.leases.key_at(j)].expired_at(now)
                    ==> exists|x: int| 0 <= x < expired@.len() && (#[trigger] expired@[x]).lease_id@
                    == self.leases.key_at(j),
            decreases n - i,
        {
            let (key, rec) = self.leases.entry(i);
            let ghost prev_kept = kept@;
            let ghost prev_expired = expired@;
            if rec.is_expired_at(now) {
                expired.push(rec.clone());
                proof {
                    assert(expired@[expired@.len() - 1].lease_id@ == self.leases.key_at(i as int));
                    assert forall|j: int| 0 <= j < i + 1 && self.leases@[#[trigger] self.leases.key_at(j)].expired_at(now)
                        implies exists|x: int| 0 <= x < expired@.len() && (#[trigger] expired@[x]).lease_id@
                        == self.leases.key_at(j) by {
                        if j < i {
                            let x = choose|x: int| 0 <= x < prev_expired.len() && (#[trigger] prev_expired[x]).lease_id@
                                == self.leases.key_at(j);
                            assert(expired@[x] == prev_expired[x]);
                        } else {
                            assert(expired@[expired@.len() - 1].lease_id@ == self.leases.key_at(j));
                        }
                    }
                }
            } else {
                kept.insert(key.clone(), rec.clone());
            }
            proof {
                assert forall|k: Seq<char>| #[trigger] kept@.contains_key(k) <==> exists|j: int|
                    0 <= j < i + 1 && #[trigger] self.leases.key_at(j) == k && !self.leases@[k].expired_at(now) by {
                    if kept@.contains_key(k) && k != key@ {
                        assert(prev_kept.contains_key(k));
                    }
                    if exists|j: int| 0 <= j < i + 1 && #[trigger] self.leases.key_at(j) == k
                        && !self.leases@[k].expired_at(now) {
                        let j = choose|j: int| 0 <= j < i + 1 && #[trigger] self.leases.key_at(j) == k
                            && !self.leases@[k].expired_at(now);
                        if j < i {
                            assert(prev_kept.contains_key(k));
                        }
                    }
                }
            }
            i = i + 1;
        }
        proof {
            assert forall|k: Seq<char>| #[trigger] before.contains_key(k) && before[k].expired_at(now)
                implies exists|x: int| 0 <= x < expired@.len() && (#[trigger] expired@[x]).lease_id@ == k by {
                let j = choose|j: int| 0 <= j < self.leases.size() && #[trigger] self.leases.key_at(j) == k;
                assert(self.leases@[self.leases.key_at(j)].expired_at(now));
            }
        }
        proof {
            assert forall|k: Seq<char>| #[trigger] kept@.contains_key(k) implies kept@[k].lease_id@ == k by {
                let j = choose|j: int| 0 <= j < i && #[trigger] self.leases.key_at(j) == k && !self.leases@[k].expired_at(now);
                assert(self.leases@.contains_key(self.leases.key_at(j)));
            }
        }
        self.leases = kept;
        expired
    }

    /// Remove every lease expired now, by the wall clock, and return them.
    pub fn drain_expired(&mut self) -> (expired: Vec<LeaseRecord>)
        ensures
            final(self).config() == old(self).config(),
            final(self).pending_reclaims() == old(self).pending_reclaims(),
            exists|now: i64| #[trigger] drained(old(self).leases(), final(self).leases(), expired@, now),
    {
        let now = now_millis();
        self.drain_expired_at(now)
    }

    /// One sweep of the reaper at instant `now`: every lease expired at
    /// `now` is removed and reported as expired, followed by the queued
    /// cancellations, oldest first; the queue is then empty.
    pub fn sweep_at(&mut self, now: i64) -> (events: Vec<LeaseReclaimed>)
        ensures
            final(self).config() == old(self).config(),
            final(self).pending_reclaims() == Seq::<LeaseReclaimed>::empty(),
            exists|k: int| {
                &&& 0 <= k <= events@.len()
                &&& #[trigger] drained(
                    old(self).leases(),
                    final(self).leases(),
                    reclaimed_records(events@.take(k)),
                    now,
                )
                &&& forall|i: int| 0 <= i < k ==> (#[trigger] events@[i]).reason == ReclaimReason::Expired
                &&& events@.skip(k) == old(self).pending_reclaims()
            },
    {
        let expired = self.drain_expired_at(now);
        let mut events: Vec<LeaseReclaimed> = Vec::new();
        let mut i: usize = 0;
        while i < expired.len()
            invariant
                i <= expired@.len(),
                events@.len() == i,
                forall|j: int| 0 <= j < i ==> (#[trigger] events@[j]).record == expired@[j] && events@[j].reason
                    == ReclaimReason::Expired,
            decreases expired@.len() - i,
        {
            events.push(LeaseReclaimed { record: expired[i].clone(), reason: ReclaimReason::Expired });
            i = i + 1;
        }
        let ghost k = events@.len() as int;
        let ghost first = events@;
        let mut cancelled = self.take_reclaimed();
        events.append(&mut cancelled);
        proof {
            assert(events@.take(k) =~= first);
            assert(reclaimed_records(first) =~= expired@);
            assert(events@.skip(k) =~= old(self).pending_reclaims());
            assert(forall|i: int| 0 <= i < k ==> (#[trigger] events@[i]).reason == ReclaimReason::Expired);
        }
        events
    }

    /// Cancel each of the leases `ids`, in order; unknown ones are skipped.
    pub fn cancel_each(&mut self, ids: &Vec<String>)
        ensures
            final(self).config() == old(self).config(),
            (final(self).leases(), final(self).pending_reclaims()) == cancel_all(
                old(self).leases(),
                old(self).pending_reclaims(),
                ids@.map_values(|s: String| s@),
            ),
    {
        let ghost texts = ids@.map_values(|s: String| s@);
        let mut i: usize = 0;
        while i < ids.len()
            invariant
                i <= ids@.len(),
                texts == ids@.map_values(|s: String| s@),
                self.config() == old(self).config(),
                (self.leases(), self.pending_reclaims()) == cancel_all(
                    old(self).leases(),
                    old(self).pending_reclaims(),
                    texts.take(i as int),
                ),
            decreases ids@.len() - i,
        {
            proof {
                assert(texts.take(i + 1).drop_last() =~= texts.take(i as int));
                assert(texts.take(i + 1).last() == ids@[i as int]@);
            }
            let _ = self.cancel(ids[i].as_str());
            i = i + 1;
        }
        proof {
            assert(texts.take(ids@.len() as int) =~= texts);
        }
    }
}

/// A capped policy never grants more than its cap, whatever is asked,
/// except for `LEASE_ANY`, which always gets the preferred TTL (itself not
/// held to the cap).
pub proof fn law_grant_within_cap(max: u64, preferred_ttl: u64, requested: u64)
    requires
        requested != LEASE_ANY,
    ensures
        negotiated(Some(max), preferred_ttl, requested) <= max,
        requested <= max ==> negotiated(Some(max), preferred_ttl, requested) == requested,
{
}

/// `LEASE_ANY` is answered with the preferred TTL, under any cap.
pub proof fn law_any_gets_preferred(max_ttl: Option<u64>, preferred_ttl: u64)
    ensures
        negotiated(max_ttl, preferred_ttl, LEASE_ANY) == preferred_ttl,
{
}

/// Without a cap every request other than `LEASE_ANY` is granted as
/// asked; in particular `LEASE_FOREVER` stays forever.
pub proof fn law_uncapped_grants_request(preferred_ttl: u64, requested: u64)
    requires
        requested != LEASE_ANY,
    ensures
        negotiated(None, preferred_ttl, requested) == requested,
{
}

/// A forever lease never expires.
pub proof fn law_forever_never_expires(r: LeaseRecord, now: i64)
    requires
        r.ttl_seconds == LEASE_FOREVER,
    ensures
        !r.expired_at(now),
{
}

/// A lease granted at `now` for a positive TTL is live at `now`.
pub proof fn law_fresh_lease_is_live(r: LeaseRecord, now: i64)
    requires
        r.ttl_seconds > 0,
        r.expires_at == expiry(now, r.ttl_seconds),
        now < i64::MAX,
    ensures
        !r.expired_at(now),
{
}

/// Once expired, a lease stays expired.
pub proof fn law_expiry_is_final(r: LeaseRecord, t1: i64, t2: i64)
    requires
        t1 <= t2,
        r.expired_at(t1),
    ensures
        r.expired_at(t2),
{
}

/// Draining at `now` leaves no lease expired at `now`, keeps every other
/// lease as it was, and reports every lease it removed.
pub proof fn law_drain_leaves_live_leases(
    before: Map<Seq<char>, LeaseRecord>,
    after: Map<Seq<char>, LeaseRecord>,
    expired: Seq<LeaseRecord>,
    now: i64,
)
    requires
        drained(before, after, expired, now),
    ensures
        forall|k: Seq<char>| #[trigger] after.contains_key(k) ==> !after[k].expired_at(now),
        forall|k: Seq<char>| #[trigger] before.contains_key(k) && !before[k].expired_at(now)
            ==> after.contains_key(k) && after[k] == before[k],
        forall|k: Seq<char>| #[trigger] before.contains_key(k) && before[k].expired_at(now)
            ==> !after.contains_key(k) && exists|i: int| 0 <= i < expired.len() && (#[trigger] expired[i]).lease_id@ == k,
{
}

/// A successful renewal at `now` for a positive TTL leaves the lease live
/// at `now`, on the same resource and under the same id.
pub proof fn law_renewed_lease_is_live(
    before: Map<Seq<char>, LeaseRecord>,
    after: Map<Seq<char>, LeaseRecord>,
    lease_id: Seq<char>,
    ttl: u64,
    now: i64,
    rec: LeaseRecord,
)
    requires
        renewal(before, after, lease_id, ttl, now, Ok(rec)),
        ttl > 0,
        now < i64::MAX,
    ensures
        after.contains_key(lease_id),
        after[lease_id] == rec,
        !rec.expired_at(now),
        rec.resource_id == before[lease_id].resource_id,
        rec.lease_id == before[lease_id].lease_id,
{
}

/// Renewing a lease that is unknown or already expired changes nothing.
pub proof fn law_renewal_refused_changes_nothing(
    before: Map<Seq<char>, LeaseRecord>,
    after: Map<Seq<char>, LeaseRecord>,
    lease_id: Seq<char>,
    ttl: u64,
    now: i64,
    r: Result<LeaseRecord, Error>,
)
    requires
        renewal(before, after, lease_id, ttl, now, r),
        !before.contains_key(lease_id) || before[lease_id].expired_at(now),
    ensures
        r is Err,
        after == before,
{
}

/// After a cancellation the lease is gone, and a reclamation of it is
/// queued exactly when it was live.
pub proof fn law_cancelled_lease_is_gone(before: LeaseManager, after: LeaseManager, lease_id: Seq<char>)
    requires
        cancellation(before, after, lease_id),
    ensures
        !after.leases().contains_key(lease_id),
        before.leases().contains_key(lease_id) ==> after.pending_reclaims().last().record == before.leases()[lease_id]
            && after.pending_reclaims().len() == before.pending_reclaims().len() + 1,
        !before.leases().contains_key(lease_id) ==> after.pending_reclaims() == before.pending_reclaims(),
{
}

/// Cancelling a lease undoes its grant: the live leases are as before the
/// grant, provided the grant did not replace a lease of the same id.
pub proof fn law_cancel_undoes_grant(
    before: LeaseManager,
    granted: LeaseManager,
    cancelled: LeaseManager,
    lease_id: Seq<char>,
    record: LeaseRecord,
)
    requires
        !before.leases().contains_key(lease_id),
        granted.leases() == before.leases().insert(lease_id, record),
        cancellation(granted, cancelled, lease_id),
    ensures
        cancelled.leases() == before.leases(),
{
    assert(cancelled.leases() =~= before.leases());
}

} // verus!
