//! The EventMgr: leased subscriptions to the events of a source. Durable
//! subscriptions buffer matching events in a mailbox until drained; every
//! subscription sees matching events live. Events are numbered per source
//! and event type.
use vstd::prelude::*;

use crate::env::{concat, new_id, now_millis};
use crate::error::Error;
use crate::lease::{cancellation, renewal, LeaseManager, LeaseRecord};
use crate::matcher::{matches_template, template_matches};
use crate::strmap::StrMap;
use crate::text::{is_prefix_of, starts_with, str_eq};

verus! {

#[derive(Debug, Clone, Copy, PartialEq, Eq, Structural)]
pub enum DeliveryMode {
    Durable,
    BestEffort,
}

/// What an event is, as text and numbers.
pub struct EventView {
    pub event_id: Seq<char>,
    pub source: Seq<char>,
    pub event_type: String,
    pub seq_num: u64,
    pub attrs: Map<Seq<char>, String>,
    pub payload: Seq<u8>,
    pub emitted_at: i64,
}

/// A single emitted event.
#[derive(Debug)]
pub struct EventRecord {
    pub event_id: String,
    pub source: String,
    pub event_type: String,
    pub seq_num: u64,
    pub attrs: StrMap<String>,
    pub payload: Vec<u8>,
    pub emitted_at: i64,
}

impl View for EventRecord {
    type V = EventView;

    open spec fn view(&self) -> EventView {
        EventView {
            event_id: self.event_id@,
            source: self.source@,
            event_type: self.event_type,
            seq_num: self.seq_num,
            attrs: self.attrs@,
            payload: self.payload@,
            emitted_at: self.emitted_at,
        }
    }
}

fn clone_bytes(b: &Vec<u8>) -> (r: Vec<u8>)
    ensures
        r@ == b@,
{
    let mut out: Vec<u8> = Vec::new();
    let mut i: usize = 0;
    while i < b.len()
        invariant
            i <= b@.len(),
            out@ == b@.take(i as int),
        decreases b@.len() - i,
    {
        out.push(b[i]);
        proof {
            assert(out@ =~= b@.take(i + 1));
        }
        i = i + 1;
    }
    proof {
        assert(b@.take(b@.len() as int) =~= b@);
    }
    out
}

impl Clone for EventRecord {
    fn clone(&self) -> (r: Self)
        ensures
            r@ == self@,
    {
        EventRecord {
            event_id: self.event_id.clone(),
            source: self.source.clone(),
            event_type: self.event_type.clone(),
            seq_num: self.seq_num,
            attrs: self.attrs.clone(),
            payload: clone_bytes(&self.payload),
            emitted_at: self.emitted_at,
        }
    }
}

/// What a subscription is, as text and numbers.
pub struct SubscriptionView {
    pub registration_id: Seq<char>,
    pub source: Seq<char>,
    pub template: Map<Seq<char>, String>,
    pub delivery: DeliveryMode,
    pub lease_id: Seq<char>,
    pub handback: Seq<u8>,
    pub initial_seq_num: u64,
}

/// A leased subscription.
#[derive(Debug)]
pub struct SubscriptionRecord {
    pub registration_id: String,
    pub source: String,
    pub template: StrMap<String>,
    pub delivery: DeliveryMode,
    pub lease_id: String,
    pub handback: Vec<u8>,
    pub initial_seq_num: u64,
}

impl View for SubscriptionRecord {
    type V = SubscriptionView;

    open spec fn view(&self) -> SubscriptionView {
        SubscriptionView {
            registration_id: self.registration_id@,
            source: self.source@,
            template: self.template@,
            delivery: self.delivery,
            lease_id: self.lease_id@,
            handback: self.handback@,
            initial_seq_num: self.initial_seq_num,
        }
    }
}

impl Clone for SubscriptionRecord {
    fn clone(&self) -> (r: Self)
        ensures
            r@ == self@,
    {
        SubscriptionRecord {
            registration_id: self.registration_id.clone(),
            source: self.source.clone(),
            template: self.template.clone(),
            delivery: self.delivery,
            lease_id: self.lease_id.clone(),
            handback: clone_bytes(&self.handback),
            initial_seq_num: self.initial_seq_num,
        }
    }
}

/// The attributes a subscription's template is matched against: the
/// event's attributes with `event_type` set to its type.
pub open spec fn checked_attrs(e: EventView) -> Map<Seq<char>, String> {
    e.attrs.insert("event_type"@, e.event_type)
}

/// The subscription wants the event: same source, and the template is
/// satisfied.
pub open spec fn wants(s: SubscriptionView, e: EventView) -> bool {
    s.source == e.source && template_matches(s.template, checked_attrs(e))
}

/// The counter key of a source and event type.
pub open spec fn counter_key(source: Seq<char>, event_type: Seq<char>) -> Seq<char> {
    source + "::"@ + event_type
}

/// `m` is the largest sequence number of any event type of `source`, or 0
/// when the source has emitted nothing.
pub open spec fn seq_snapshot(counters: Map<Seq<char>, u64>, source: Seq<char>, m: u64) -> bool {
    let prefix = source + "::"@;
    &&& forall|k: Seq<char>| #[trigger] counters.contains_key(k) && is_prefix_of(prefix, k) ==> counters[k] <= m
    &&& (m == 0 || exists|k: Seq<char>| #[trigger] counters.contains_key(k) && is_prefix_of(prefix, k) && counters[k]
        == m)
}

/// The number following `n`, wrapping at the top of the range.
pub open spec fn next_seq(n: u64) -> u64 {
    if n == u64::MAX {
        0
    } else {
        (n + 1) as u64
    }
}

/// A durable subscription keeps a copy of each event it wants.
pub open spec fn enqueues(s: SubscriptionView, e: EventView) -> bool {
    s.delivery == DeliveryMode::Durable && wants(s, e)
}

/// The mailboxes after `e` is put into the mailbox of every subscription
/// in `subs` that keeps it; the others are unchanged.
pub open spec fn enqueued(
    subs: Map<Seq<char>, SubscriptionView>,
    mailboxes: Map<Seq<char>, Seq<EventView>>,
    e: EventView,
) -> Map<Seq<char>, Seq<EventView>> {
    Map::new(
        |k: Seq<char>| mailboxes.contains_key(k),
        |k: Seq<char>|
            if subs.contains_key(k) && enqueues(subs[k], e) {
                mailboxes[k].push(e)
            } else {
                mailboxes[k]
            },
    )
}

/// The last sequence number recorded under `key`, 0 when there is none.
pub open spec fn last_seq(counters: Map<Seq<char>, u64>, key: Seq<char>) -> u64 {
    if counters.contains_key(key) {
        counters[key]
    } else {
        0
    }
}

/// The delivery mode a wire value selects: 1 is best-effort, anything
/// else durable.
pub open spec fn delivery_of(d: i32) -> DeliveryMode {
    if d == 1 {
        DeliveryMode::BestEffort
    } else {
        DeliveryMode::Durable
    }
}

/// Decode the delivery mode of a subscribe request.
pub fn delivery_from_i32(d: i32) -> (m: DeliveryMode)
    ensures
        m == delivery_of(d),
{
    if d == 1 {
        DeliveryMode::BestEffort
    } else {
        DeliveryMode::Durable
    }
}

/// Compute [`checked_attrs`] of an event.
pub fn event_check_attrs(e: &EventRecord) -> (attrs: StrMap<String>)
    ensures
        attrs@ == checked_attrs(e@),
{
    let mut attrs = e.attrs.clone();
    attrs.insert("event_type".to_owned(), e.event_type.clone());
    attrs
}

/// Whether the subscription wants the event: the live-stream filter, and
/// for durable subscriptions the mailbox filter too.
pub fn delivers(sub: &SubscriptionRecord, e: &EventRecord) -> (yes: bool)
    ensures
        yes == wants(sub@, e@),
{
    if !str_eq(sub.source.as_str(), e.source.as_str()) {
        return false;
    }
    let attrs = event_check_attrs(e);
    matches_template(&sub.template, &attrs)
}

/// A subscription with its mailbox.
pub struct Subscriber {
    pub record: SubscriptionRecord,
    pub mailbox: Vec<EventRecord>,
}

/// The views of a list of events.
pub open spec fn event_views(v: Seq<EventRecord>) -> Seq<EventView> {
    v.map_values(|e: EventRecord| e@)
}

impl Clone for Subscriber {
    fn clone(&self) -> (r: Self)
        ensures
            r.record@ == self.record@,
            event_views(r.mailbox@) == event_views(self.mailbox@),
    {
        let mut mailbox: Vec<EventRecord> = Vec::new();
        let mut i: usize = 0;
        while i < self.mailbox.len()
            invariant
                i <= self.mailbox@.len(),
                mailbox@.len() == i,
                forall|j: int| 0 <= j < i ==> (#[trigger] mailbox@[j])@ == self.mailbox@[j]@,
            decreases self.mailbox@.len() - i,
        {
            mailbox.push(self.mailbox[i].clone());
            i = i + 1;
        }
        proof {
            assert(event_views(mailbox@) =~= event_views(self.mailbox@));
        }
        Subscriber { record: self.record.clone(), mailbox }
    }
}

/// Leased subscriptions, their mailboxes, and the sequence counters.
pub struct EventManager {
    subs: StrMap<Subscriber>,
    counters: StrMap<u64>,
    lease_manager: LeaseManager,
}

impl EventManager {
    /// The subscriptions, by registration id.
    pub closed spec fn subscriptions(&self) -> Map<Seq<char>, SubscriptionView> {
        Map::new(|k: Seq<char>| self.subs@.contains_key(k), |k: Seq<char>| self.subs@[k].record@)
    }

    /// The mailboxes, by registration id: one per subscription.
    pub closed spec fn mailboxes(&self) -> Map<Seq<char>, Seq<EventView>> {
        Map::new(|k: Seq<char>| self.subs@.contains_key(k), |k: Seq<char>| event_views(self.subs@[k].mailbox@))
    }

    /// The last sequence number per `source::event_type` key.
    pub closed spec fn counters(&self) -> Map<Seq<char>, u64> {
        self.counters@
    }

    /// The lease manager granting subscription leases.
    pub closed spec fn leases(&self) -> LeaseManager {
        self.lease_manager
    }

    /// A manager with no subscriptions and no events emitted.
    pub fn new(lease_manager: LeaseManager) -> (m: Self)
        ensures
            m.subscriptions() == Map::<Seq<char>, SubscriptionView>::empty(),
            m.mailboxes() == Map::<Seq<char>, Seq<EventView>>::empty(),
            m.counters() == Map::<Seq<char>, u64>::empty(),
            m.leases() == lease_manager,
    {
        let m = EventManager { subs: StrMap::new(), counters: StrMap::new(), lease_manager };
        proof {
            assert(m.subscriptions() =~= Map::<Seq<char>, SubscriptionView>::empty());
            assert(m.mailboxes() =~= Map::<Seq<char>, Seq<EventView>>::empty());
        }
        m
    }

    /// The lease manager, for lease renewal, cancellation and reaping.
    pub fn lease_manager(&mut self) -> (m: &mut LeaseManager)
        ensures
            *m == old(self).leases(),
            final(self).leases() == *final(m),
            final(self).subscriptions() == old(self).subscriptions(),
            final(self).mailboxes() == old(self).mailboxes(),
            final(self).counters() == old(self).counters(),
    {
        &mut self.lease_manager
    }

    /// The current largest sequence number of any event type of `source`.
    fn snapshot(&self, source: &str) -> (m: u64)
        ensures
            seq_snapshot(self.counters(), source@, m),
    {
        let prefix = concat(source, "::");
        let n = self.counters.len();
        let mut best: u64 = 0;
        let mut i: usize = 0;
        while i < n
            invariant
                n == self.counters.size(),
                i <= n,
                prefix@ == source@ + "::"@,
                forall|k: Seq<char>| #[trigger] self.counters@.contains_key(k) ==> exists|j: int|
                    0 <= j < self.counters.size() && #[trigger] self.counters.key_at(j) == k,
                forall|j: int| 0 <= j < self.counters.size() ==> #[trigger] self.counters@.contains_key(self.counters.key_at(j)),
                forall|j: int| 0 <= j < i && is_prefix_of(prefix@, #[trigger] self.counters.key_at(j))
                    ==> self.counters@[self.counters.key_at(j)] <= best,
                best == 0 || exists|k: Seq<char>| #[trigger] self.counters@.contains_key(k) && is_prefix_of(prefix@, k)
                    && self.counters@[k] == best,
            decreases n - i,
        {
            let (key, value) = self.counters.entry(i);
            if starts_with(key.as_str(), prefix.as_str()) && *value > best {
                best = *value;
            }
            i = i + 1;
        }
        proof {
            assert forall|k: Seq<char>| #[trigger] self.counters@.contains_key(k) && is_prefix_of(prefix@, k) implies self.counters@[k]
                <= best by {
                let j = choose|j: int| 0 <= j < self.counters.size() && #[trigger] self.counters.key_at(j) == k;
            }
        }
        best
    }

    /// Subscribe to the events of `source` matching `template` under the
    /// registration id `registration_id`, leased as `lease_id` on
    /// `event:<registration_id>` from instant `now`. Returns the
    /// registration id, the lease, and the largest sequence number the
    /// source has reached so far.
    pub fn subscribe_at(
        &mut self,
        source: String,
        template: StrMap<String>,
        delivery: DeliveryMode,
        ttl_secs: u64,
        handback: Vec<u8>,
        registration_id: String,
        lease_id: String,
        now: i64,
    ) -> (r: (String, LeaseRecord, u64))
        ensures
            r.0 == registration_id,
            r.1.lease_id == lease_id,
            r.1.resource_id@ == "event:"@ + registration_id@,
            r.1.granted_at == now,
            r.1.ttl_seconds == old(self).leases().granted_ttl(ttl_secs),
            r.1.expires_at == crate::lease::expiry(now, r.1.ttl_seconds),
            seq_snapshot(old(self).counters(), source@, r.2),
            final(self).subscriptions() == old(self).subscriptions().insert(
                registration_id@,
                SubscriptionView {
                    registration_id: registration_id@,
                    source: source@,
                    template: template@,
                    delivery,
                    lease_id: lease_id@,
                    handback: handback@,
                    initial_seq_num: r.2,
                },
            ),
            final(self).mailboxes() == old(self).mailboxes().insert(registration_id@, Seq::<EventView>::empty()),
            final(self).counters() == old(self).counters(),
            final(self).leases().leases() == old(self).leases().leases().insert(lease_id@, r.1),
            final(self).leases().config() == old(self).leases().config(),
            final(self).leases().pending_reclaims() == old(self).leases().pending_reclaims(),
    {
        let resource_id = concat("event:", registration_id.as_str());
        let lease = self.lease_manager.grant_at(resource_id.as_str(), ttl_secs, lease_id, now);
        let initial_seq_num = self.snapshot(source.as_str());
        let record = SubscriptionRecord {
            registration_id: registration_id.clone(),
            source,
            template,
            delivery,
            lease_id: lease.lease_id.clone(),
            handback,
            initial_seq_num,
        };
        let ghost old_subs = self.subs@;
        let ghost rv = record@;
        self.subs.insert(registration_id.clone(), Subscriber { record, mailbox: Vec::new() });
        proof {
            assert(self.subscriptions() =~= old(self).subscriptions().insert(registration_id@, rv));
            assert(event_views(Seq::<EventRecord>::empty()) =~= Seq::<EventView>::empty());
            assert(self.mailboxes() =~= old(self).mailboxes().insert(registration_id@, Seq::<EventView>::empty()));
        }
        (registration_id, lease, initial_seq_num)
    }

    /// Subscribe now, under fresh registration and lease ids.
    pub fn subscribe(
        &mut self,
        source: String,
        template: StrMap<String>,
        delivery: DeliveryMode,
        ttl_secs: u64,
        handback: Vec<u8>,
    ) -> (r: (String, LeaseRecord, u64))
        ensures
            r.1.resource_id@ == "event:"@ + r.0@,
            r.1.ttl_seconds == old(self).leases().granted_ttl(ttl_secs),
            seq_snapshot(old(self).counters(), source@, r.2),
            final(self).subscriptions() == old(self).subscriptions().insert(
                r.0@,
                SubscriptionView {
                    registration_id: r.0@,
                    source: source@,
                    template: template@,
                    delivery,
                    lease_id: r.1.lease_id@,
                    handback: handback@,
                    initial_seq_num: r.2,
                },
            ),
            final(self).mailboxes() == old(self).mailboxes().insert(r.0@, Seq::<EventView>::empty()),
            final(self).counters() == old(self).counters(),
            final(self).leases().leases() == old(self).leases().leases().insert(r.1.lease_id@, r.1),
    {
        let registration_id = new_id();
        let lease_id = new_id();
        let now = now_millis();
        self.subscribe_at(source, template, delivery, ttl_secs, handback, registration_id, lease_id, now)
    }

    /// The registration ids of the subscriptions that keep `e`, each once.
    fn keepers(&self, e: &EventRecord) -> (ids: Vec<String>)
        ensures
            forall|t: int| 0 <= t < ids@.len() ==> {
                &&& self.subs@.contains_key(#[trigger] ids@[t]@)
                &&& enqueues(self.subs@[ids@[t]@].record@, e@)
            },
            forall|k: Seq<char>| #[trigger] self.subs@.contains_key(k) && enqueues(self.subs@[k].record@, e@)
                ==> exists|t: int| 0 <= t < ids@.len() && (#[trigger] ids@[t])@ == k,
            forall|t1: int, t2: int| 0 <= t1 < ids@.len() && 0 <= t2 < ids@.len() && t1 != t2
                ==> (#[trigger] ids@[t1])@ != (#[trigger] ids@[t2])@,
    {
        let n = self.subs.len();
        let mut ids: Vec<String> = Vec::new();
        let mut j: usize = 0;
        while j < n
            invariant
                n == self.subs.size(),
                j <= n,
                forall|k: Seq<char>| #[trigger] self.subs@.contains_key(k) ==> exists|i: int|
                    0 <= i < self.subs.size() && #[trigger] self.subs.key_at(i) == k,
                forall|i: int| 0 <= i < self.subs.size() ==> #[trigger] self.subs@.contains_key(self.subs.key_at(i)),
                forall|i1: int, i2: int|
                    0 <= i1 < self.subs.size() && 0 <= i2 < self.subs.size() && i1 != i2
                        ==> self.subs.key_at(i1) != self.subs.key_at(i2),
                forall|t: int| 0 <= t < ids@.len() ==> exists|i: int|
                    0 <= i < j && self.subs.key_at(i) == (#[trigger] ids@[t])@,
                forall|t: int| 0 <= t < ids@.len() ==> {
                    &&& self.subs@.contains_key(#[trigger] ids@[t]@)
                    &&& enqueues(self.subs@[ids@[t]@].record@, e@)
                },
                forall|i: int| 0 <= i < j && enqueues(self.subs@[#[trigger] self.subs.key_at(i)].record@, e@)
                    ==> exists|t: int| 0 <= t < ids@.len() && (#[trigger] ids@[t])@ == self.subs.key_at(i),
                forall|t1: int, t2: int| 0 <= t1 < ids@.len() && 0 <= t2 < ids@.len() && t1 != t2
                    ==> (#[trigger] ids@[t1])@ != (#[trigger] ids@[t2])@,
            decreases n - j,
        {
            let (key, sub) = self.subs.entry(j);
            let keep = sub.record.delivery == DeliveryMode::Durable && delivers(&sub.record, e);
            if keep {
                let ghost before = ids@;
                ids.push(key.clone());
                proof {
                    assert forall|t: int| 0 <= t < ids@.len() implies exists|i: int|
                        0 <= i < j + 1 && self.subs.key_at(i) == (#[trigger] ids@[t])@ by {
                        if t < before.len() {
                            assert(ids@[t] == before[t]);
                        } else {
                            assert(self.subs.key_at(j as int) == ids@[t]@);
                        }
                    }
                    assert forall|t1: int, t2: int| 0 <= t1 < ids@.len() && 0 <= t2 < ids@.len() && t1 != t2
                        implies (#[trigger] ids@[t1])@ != (#[trigger] ids@[t2])@ by {
                        if t1 < before.len() && t2 < before.len() {
                            assert(ids@[t1] == before[t1] && ids@[t2] == before[t2]);
                        } else if t1 < before.len() {
                            assert(ids@[t1] == before[t1]);
                            let i = choose|i: int| 0 <= i < j && self.subs.key_at(i) == (#[trigger] before[t1])@;
                        } else {
                            assert(ids@[t2] == before[t2]);
                            let i = choose|i: int| 0 <= i < j && self.subs.key_at(i) == (#[trigger] before[t2])@;
                        }
                    }
                    assert forall|i: int| 0 <= i < j + 1 && enqueues(self.subs@[#[trigger] self.subs.key_at(i)].record@, e@)
                        implies exists|t: int| 0 <= t < ids@.len() && (#[trigger] ids@[t])@ == self.subs.key_at(i) by {
                        if i < j {
                            let t = choose|t: int| 0 <= t < before.len() && (#[trigger] before[t])@ == self.subs.key_at(i);
                            assert(ids@[t] == before[t]);
                        } else {
                            assert(ids@[before.len() as int]@ == self.subs.key_at(i));
                        }
                    }
                }
            }
            j = j + 1;
        }
        proof {
            assert forall|k: Seq<char>| #[trigger] self.subs@.contains_key(k) && enqueues(self.subs@[k].record@, e@)
                implies exists|t: int| 0 <= t < ids@.len() && (#[trigger] ids@[t])@ == k by {
                let i = choose|i: int| 0 <= i < self.subs.size() && #[trigger] self.subs.key_at(i) == k;
            }
        }
        ids
    }

    /// Emit an event of `source` and `event_type` with id `event_id` at
    /// instant `now`. It takes the next sequence number of its
    /// `source::event_type` counter and is put into the mailbox of every
    /// durable subscription that wants it.
    pub fn emit_at(
        &mut self,
        source: String,
        event_type: String,
        attrs: StrMap<String>,
        payload: Vec<u8>,
        event_id: String,
        now: i64,
    ) -> (e: EventRecord)
        ensures
            e@ == (EventView {
                event_id: event_id@,
                source: source@,
                event_type,
                seq_num: next_seq(last_seq(old(self).counters(), counter_key(source@, event_type@))),
                attrs: attrs@,
                payload: payload@,
                emitted_at: now,
            }),
            final(self).counters() == old(self).counters().insert(counter_key(source@, event_type@), e.seq_num),
            final(self).subscriptions() == old(self).subscriptions(),
            final(self).mailboxes() == enqueued(old(self).subscriptions(), old(self).mailboxes(), e@),
            final(self).leases() == old(self).leases(),
    {
        let key = concat(concat(source.as_str(), "::").as_str(), event_type.as_str());
        let prev: u64 = match self.counters.get(key.as_str()) {
            Some(n) => *n,
            None => 0,
        };
        let seq_num: u64 = if prev == u64::MAX {
            0
        } else {
            prev + 1
        };
        self.counters.insert(key, seq_num);
        let event = EventRecord { event_id, source, event_type, seq_num, attrs, payload, emitted_at: now };
        let ids = self.keepers(&event);
        let mut subs: StrMap<Subscriber> = StrMap::new();
        std::mem::swap(&mut subs, &mut self.subs);
        let ghost old_subs = subs@;
        let ghost ev = event@;
        let mut t: usize = 0;
        while t < ids.len()
            invariant
                t <= ids@.len(),
                ev == event@,
                forall|u: int| 0 <= u < ids@.len() ==> old_subs.contains_key(#[trigger] ids@[u]@),
                forall|u1: int, u2: int| 0 <= u1 < ids@.len() && 0 <= u2 < ids@.len() && u1 != u2
                    ==> (#[trigger] ids@[u1])@ != (#[trigger] ids@[u2])@,
                forall|k: Seq<char>| #[trigger] subs@.contains_key(k) == old_subs.contains_key(k),
                forall|k: Seq<char>| #[trigger] subs@.contains_key(k) ==> subs@[k].record@ == old_subs[k].record@,
                forall|k: Seq<char>| #[trigger] subs@.contains_key(k) ==> event_views(subs@[k].mailbox@) == if exists|u: int|
                    0 <= u < t && (#[trigger] ids@[u])@ == k {
                    event_views(old_subs[k].mailbox@).push(ev)
                } else {
                    event_views(old_subs[k].mailbox@)
                },
            decreases ids@.len() - t,
        {
            let id = &ids[t];
            let ghost before = subs@;
            let removed = subs.remove(id.as_str());
            match removed {
                Some(sub) => {
                    let mut sub = sub;
                    let ghost mb = sub.mailbox@;
                    sub.mailbox.push(event.clone());
                    proof {
                        assert(event_views(sub.mailbox@) =~= event_views(mb).push(ev));
                    }
                    subs.insert(id.clone(), sub);
                },
                None => {},
            }
            proof {
                assert forall|k: Seq<char>| #[trigger] subs@.contains_key(k) implies event_views(subs@[k].mailbox@)
                    == if exists|u: int| 0 <= u < t + 1 && (#[trigger] ids@[u])@ == k {
                    event_views(old_subs[k].mailbox@).push(ev)
                } else {
                    event_views(old_subs[k].mailbox@)
                } by {
                    if k == ids@[t as int]@ {
                        assert(!exists|u: int| 0 <= u < t && (#[trigger] ids@[u])@ == k);
                    } else {
                        assert((exists|u: int| 0 <= u < t + 1 && (#[trigger] ids@[u])@ == k) == (exists|u: int|
                            0 <= u < t && (#[trigger] ids@[u])@ == k));
                    }
                }
            }
            t = t + 1;
        }
        self.subs = subs;
        proof {
            assert(self.subscriptions() =~= old(self).subscriptions());
            assert(self.counters() =~= old(self).counters().insert(counter_key(ev.source, ev.event_type@), seq_num));
            assert forall|k: Seq<char>| #[trigger] self.subs@.contains_key(k) implies (exists|u: int|
                0 <= u < ids@.len() && (#[trigger] ids@[u])@ == k) == enqueues(old_subs[k].record@, ev) by {
                if enqueues(old_subs[k].record@, ev) {
                }
            }
            assert(self.mailboxes() =~= enqueued(old(self).subscriptions(), old(self).mailboxes(), ev));
        }
        event
    }

    /// Emit an event now, under a fresh id.
    pub fn emit(&mut self, source: String, event_type: String, attrs: StrMap<String>, payload: Vec<u8>) -> (e:
        EventRecord)
        ensures
            e.source@ == source@,
            e.event_type == event_type,
            e.seq_num == next_seq(last_seq(old(self).counters(), counter_key(source@, event_type@))),
            e.attrs@ == attrs@,
            e.payload@ == payload@,
            final(self).counters() == old(self).counters().insert(counter_key(source@, event_type@), e.seq_num),
            final(self).subscriptions() == old(self).subscriptions(),
            final(self).mailboxes() == enqueued(old(self).subscriptions(), old(self).mailboxes(), e@),
            final(self).leases() == old(self).leases(),
    {
        let event_id = new_id();
        let now = now_millis();
        self.emit_at(source, event_type, attrs, payload, event_id, now)
    }

    /// The subscription registered as `registration_id`, if any.
    pub fn get_subscription(&self, registration_id: &str) -> (r: Option<SubscriptionRecord>)
        ensures
            r is Some == self.subscriptions().contains_key(registration_id@),
            r matches Some(sub) ==> sub@ == self.subscriptions()[registration_id@],
    {
        match self.subs.get(registration_id) {
            Some(sub) => Some(sub.record.clone()),
            None => None,
        }
    }

    /// What a receiver of subscription `registration_id` gets before live
    /// events: the subscription, and for a durable one its drained backlog
    /// (a best-effort one has none). Fails if there is no such
    /// subscription.
    pub fn receive_backlog(&mut self, registration_id: &str) -> (r: Result<(SubscriptionRecord, Vec<EventRecord>), Error>)
        ensures
            final(self).subscriptions() == old(self).subscriptions(),
            final(self).counters() == old(self).counters(),
            final(self).leases() == old(self).leases(),
            !old(self).subscriptions().contains_key(registration_id@) ==> {
                &&& r matches Err(Error::SubscriptionNotFound(id)) && id@ == registration_id@
                &&& final(self).mailboxes() == old(self).mailboxes()
            },
            old(self).subscriptions().contains_key(registration_id@) ==> {
                let sub = old(self).subscriptions()[registration_id@];
                &&& r matches Ok((s, backlog)) && s@ == sub && if sub.delivery == DeliveryMode::Durable {
                    &&& event_views(backlog@) == old(self).mailboxes()[registration_id@]
                    &&& final(self).mailboxes() == old(self).mailboxes().insert(registration_id@, Seq::<EventView>::empty())
                } else {
                    &&& backlog@.len() == 0
                    &&& final(self).mailboxes() == old(self).mailboxes()
                }
            },
    {
        let sub = match self.get_subscription(registration_id) {
            Some(s) => s,
            None => {
                return Err(Error::SubscriptionNotFound(registration_id.to_owned()));
            },
        };
        if sub.delivery == DeliveryMode::Durable {
            match self.drain_mailbox(registration_id) {
                Ok(backlog) => Ok((sub, backlog)),
                Err(e) => Err(e),
            }
        } else {
            Ok((sub, Vec::new()))
        }
    }

    /// Hand out every event queued in the mailbox of `registration_id`,
    /// oldest first, and empty it. Fails if there is no such mailbox.
    pub fn drain_mailbox(&mut self, registration_id: &str) -> (r: Result<Vec<EventRecord>, Error>)
        ensures
            r is Ok == old(self).mailboxes().contains_key(registration_id@),
            r matches Err(e) ==> e matches Error::SubscriptionNotFound(id) && id@ == registration_id@,
            r matches Ok(events) ==> {
                &&& event_views(events@) == old(self).mailboxes()[registration_id@]
                &&& final(self).mailboxes() == old(self).mailboxes().insert(registration_id@, Seq::<EventView>::empty())
            },
            r is Err ==> final(self).mailboxes() == old(self).mailboxes(),
            final(self).subscriptions() == old(self).subscriptions(),
            final(self).counters() == old(self).counters(),
            final(self).leases() == old(self).leases(),
    {
        match self.subs.remove(registration_id) {
            Some(sub) => {
                let mut sub = sub;
                let mut events: Vec<EventRecord> = Vec::new();
                std::mem::swap(&mut events, &mut sub.mailbox);
                self.subs.insert(registration_id.to_owned(), sub);
                proof {
                    assert(event_views(Seq::<EventRecord>::empty()) =~= Seq::<EventView>::empty());
                    assert(self.subscriptions() =~= old(self).subscriptions());
                    assert(self.mailboxes() =~= old(self).mailboxes().insert(
                        registration_id@,
                        Seq::<EventView>::empty(),
                    ));
                }
                Ok(events)
            },
            None => Err(Error::SubscriptionNotFound(registration_id.to_owned())),
        }
    }

    /// Remove subscription `registration_id` with its mailbox and cancel
    /// its lease. Fails if there is no such subscription, or if its lease
    /// is no longer live (the subscription is removed all the same).
    pub fn cancel_subscription(&mut self, registration_id: &str) -> (r: Result<(), Error>)
        ensures
            !old(self).subscriptions().contains_key(registration_id@) ==> {
                &&& r matches Err(Error::SubscriptionNotFound(id)) && id@ == registration_id@
                &&& final(self).subscriptions() == old(self).subscriptions()
                &&& final(self).mailboxes() == old(self).mailboxes()
                &&& final(self).leases() == old(self).leases()
            },
            old(self).subscriptions().contains_key(registration_id@) ==> {
                let lease_id = old(self).subscriptions()[registration_id@].lease_id;
                &&& final(self).subscriptions() == old(self).subscriptions().remove(registration_id@)
                &&& final(self).mailboxes() == old(self).mailboxes().remove(registration_id@)
                &&& cancellation(old(self).leases(), final(self).leases(), lease_id)
                &&& r is Ok == old(self).leases().leases().contains_key(lease_id)
                &&& r matches Err(e) ==> e matches Error::LeaseNotFound(id) && id@ == lease_id
            },
            final(self).counters() == old(self).counters(),
    {
        match self.subs.remove(registration_id) {
            Some(sub) => {
                proof {
                    assert(self.subscriptions() =~= old(self).subscriptions().remove(registration_id@));
                    assert(self.mailboxes() =~= old(self).mailboxes().remove(registration_id@));
                }
                self.lease_manager.cancel(sub.record.lease_id.as_str())
            },
            None => Err(Error::SubscriptionNotFound(registration_id.to_owned())),
        }
    }

    /// Renew the lease of subscription `registration_id` at instant `now`.
    /// Fails if there is no such subscription, or as the lease renewal does.
    pub fn renew_subscription_at(&mut self, registration_id: &str, ttl_secs: u64, now: i64) -> (r: Result<
        LeaseRecord,
        Error,
    >)
        ensures
            !old(self).subscriptions().contains_key(registration_id@) ==> {
                &&& r matches Err(Error::SubscriptionNotFound(id)) && id@ == registration_id@
                &&& final(self).leases() == old(self).leases()
            },
            old(self).subscriptions().contains_key(registration_id@) ==> {
                &&& final(self).leases().config() == old(self).leases().config()
                &&& final(self).leases().pending_reclaims() == old(self).leases().pending_reclaims()
                &&& renewal(
                    old(self).leases().leases(),
                    final(self).leases().leases(),
                    old(self).subscriptions()[registration_id@].lease_id,
                    old(self).leases().granted_ttl(ttl_secs),
                    now,
                    r,
                )
            },
            final(self).subscriptions() == old(self).subscriptions(),
            final(self).mailboxes() == old(self).mailboxes(),
            final(self).counters() == old(self).counters(),
    {
        match self.subs.get(registration_id) {
            Some(sub) => {
                let lease_id = sub.record.lease_id.clone();
                self.lease_manager.renew_at(lease_id.as_str(), ttl_secs, now)
            },
            None => Err(Error::SubscriptionNotFound(registration_id.to_owned())),
        }
    }

    /// Renew the lease of subscription `registration_id` now.
    pub fn renew_subscription(&mut self, registration_id: &str, ttl_secs: u64) -> (r: Result<LeaseRecord, Error>)
        ensures
            !old(self).subscriptions().contains_key(registration_id@) ==> {
                &&& r matches Err(Error::SubscriptionNotFound(id)) && id@ == registration_id@
                &&& final(self).leases() == old(self).leases()
            },
            old(self).subscriptions().contains_key(registration_id@) ==> exists|now: i64| #[trigger]
                renewal(
                    old(self).leases().leases(),
                    final(self).leases().leases(),
                    old(self).subscriptions()[registration_id@].lease_id,
                    old(self).leases().granted_ttl(ttl_secs),
                    now,
                    r,
                ),
            final(self).subscriptions() == old(self).subscriptions(),
            final(self).mailboxes() == old(self).mailboxes(),
            final(self).counters() == old(self).counters(),
    {
        let now = now_millis();
        self.renew_subscription_at(registration_id, ttl_secs, now)
    }

    /// The subscription held by lease `lease_id` goes away with the lease:
    /// remove it and its mailbox and return its registration id, or `None`
    /// when no subscription holds that lease.
    pub fn unsubscribe_by_lease(&mut self, lease_id: &str) -> (r: Option<String>)
        ensures
            r matches Some(id) ==> {
                &&& old(self).subscriptions().contains_key(id@)
                &&& old(self).subscriptions()[id@].lease_id == lease_id@
                &&& final(self).subscriptions() == old(self).subscriptions().remove(id@)
                &&& final(self).mailboxes() == old(self).mailboxes().remove(id@)
            },
            r is None ==> {
                &&& forall|k: Seq<char>| #[trigger] old(self).subscriptions().contains_key(k)
                    ==> old(self).subscriptions()[k].lease_id != lease_id@
                &&& final(self).subscriptions() == old(self).subscriptions()
                &&& final(self).mailboxes() == old(self).mailboxes()
            },
            final(self).counters() == old(self).counters(),
            final(self).leases() == old(self).leases(),
    {
        let n = self.subs.len();
        let mut i: usize = 0;
        let mut found: Option<String> = None;
        while i < n
            invariant_except_break
                found is None,
            invariant
                n == self.subs.size(),
                i <= n,
                forall|k: Seq<char>| #[trigger] self.subs@.contains_key(k) ==> exists|j: int|
                    0 <= j < self.subs.size() && #[trigger] self.subs.key_at(j) == k,
                forall|j: int| 0 <= j < i ==> self.subs@[#[trigger] self.subs.key_at(j)].record.lease_id@ != lease_id@,
            ensures
                found matches Some(id) ==> self.subs@.contains_key(id@) && self.subs@[id@].record.lease_id@
                    == lease_id@,
                found is None ==> forall|k: Seq<char>| #[trigger] self.subs@.contains_key(k)
                    ==> self.subs@[k].record.lease_id@ != lease_id@,
            decreases n - i,
        {
            let (key, sub) = self.subs.entry(i);
            if str_eq(sub.record.lease_id.as_str(), lease_id) {
                found = Some(key.clone());
                break;
            }
            i = i + 1;
        }
        proof {
            if found is None {
                assert forall|k: Seq<char>| #[trigger] self.subs@.contains_key(k)
                    implies self.subs@[k].record.lease_id@ != lease_id@ by {
                    let j = choose|j: int| 0 <= j < self.subs.size() && #[trigger] self.subs.key_at(j) == k;
                }
            }
        }
        match found {
            Some(id) => {
                let _ = self.subs.remove(id.as_str());
                proof {
                    assert(self.subscriptions() =~= old(self).subscriptions().remove(id@));
                    assert(self.mailboxes() =~= old(self).mailboxes().remove(id@));
                }
                Some(id)
            },
            None => None,
        }
    }
}

/// Events of one source and type are numbered one after the other: the
/// number an emit takes is the one after the number the previous emit on
/// that key took, and emits on other keys leave the key's count alone.
pub proof fn law_sequence_numbers_follow_on(counters: Map<Seq<char>, u64>, key: Seq<char>, other: Seq<char>)
    requires
        other != key,
    ensures
        ({
            let first = next_seq(last_seq(counters, key));
            let after_first = counters.insert(key, first);
            &&& next_seq(last_seq(after_first, key)) == next_seq(first)
            &&& first < u64::MAX ==> next_seq(first) == first + 1
            &&& last_seq(after_first, other) == last_seq(counters, other)
        }),
{
}

/// A key no event was emitted on starts its count at 1.
pub proof fn law_first_event_is_numbered_one(counters: Map<Seq<char>, u64>, key: Seq<char>)
    requires
        !counters.contains_key(key),
    ensures
        next_seq(last_seq(counters, key)) == 1,
{
}

/// An emitted event lands in exactly the mailboxes of the durable
/// subscriptions that want it, at the end; best-effort mailboxes and the
/// mailboxes of subscriptions that do not want it are untouched.
pub proof fn law_emit_fills_durable_mailboxes_only(
    subs: Map<Seq<char>, SubscriptionView>,
    mailboxes: Map<Seq<char>, Seq<EventView>>,
    e: EventView,
    k: Seq<char>,
)
    requires
        mailboxes.contains_key(k),
        subs.contains_key(k),
    ensures
        enqueued(subs, mailboxes, e).dom() == mailboxes.dom(),
        subs[k].delivery == DeliveryMode::BestEffort ==> enqueued(subs, mailboxes, e)[k] == mailboxes[k],
        !wants(subs[k], e) ==> enqueued(subs, mailboxes, e)[k] == mailboxes[k],
        subs[k].delivery == DeliveryMode::Durable && wants(subs[k], e) ==> enqueued(subs, mailboxes, e)[k]
            == mailboxes[k].push(e),
{
    assert(enqueued(subs, mailboxes, e).dom() =~= mailboxes.dom());
}

/// A subscription with an empty template on a source wants every event of
/// that source, and no event of another source.
pub proof fn law_empty_template_wants_whole_source(s: SubscriptionView, e: EventView)
    requires
        s.template == Map::<Seq<char>, String>::empty(),
    ensures
        wants(s, e) <==> s.source == e.source,
{
}

/// The snapshot taken at subscription is the highest number any event
/// type of the source has reached: no counter of the source is above it.
pub proof fn law_snapshot_is_the_high_water_mark(counters: Map<Seq<char>, u64>, source: Seq<char>, m: u64, t: Seq<char>)
    requires
        seq_snapshot(counters, source, m),
        counters.contains_key(counter_key(source, t)),
    ensures
        counters[counter_key(source, t)] <= m,
{
    let k = counter_key(source, t);
    assert(k.subrange(0, (source + "::"@).len() as int) =~= source + "::"@);
}

} // verus!
