//! The Registry: attribute-based service discovery. Services register by
//! what they are; consumers find them by template. Every entry is leased:
//! when its lease is gone, so is the entry.
use vstd::prelude::*;

use crate::env::{concat, new_id, now_millis};
use crate::error::Error;
use crate::lease::{LeaseManager, LeaseRecord};
use crate::matcher::{is_wildcard, matches_template, raw_accepts, template_matches};
use crate::strmap::StrMap;
use crate::text::{is_prefix_of, occurs_in, str_eq};

verus! {

/// How to reach a registered service.
#[derive(Debug)]
pub struct TransportConfig {
    pub transport_type: String,
    pub config: StrMap<String>,
}

impl Clone for TransportConfig {
    fn clone(&self) -> (r: Self)
        ensures
            r.transport_type == self.transport_type,
            r.config@ == self.config@,
    {
        TransportConfig { transport_type: self.transport_type.clone(), config: self.config.clone() }
    }
}

/// The two transports carry the same text.
pub open spec fn same_transport(a: Option<TransportConfig>, b: Option<TransportConfig>) -> bool {
    match (a, b) {
        (None, None) => true,
        (Some(x), Some(y)) => x.transport_type == y.transport_type && x.config@ == y.config@,
        _ => false,
    }
}

/// One registered capability.
#[derive(Debug)]
pub struct RegistryEntry {
    pub capability_id: String,
    pub lease_id: String,
    pub interface: String,
    pub attrs: StrMap<String>,
    pub transport: Option<TransportConfig>,
}

/// The two entries carry the same text.
pub open spec fn same_entry(a: RegistryEntry, b: RegistryEntry) -> bool {
    &&& a.capability_id == b.capability_id
    &&& a.lease_id == b.lease_id
    &&& a.interface == b.interface
    &&& a.attrs@ == b.attrs@
    &&& same_transport(a.transport, b.transport)
}

fn clone_transport(t: &Option<TransportConfig>) -> (r: Option<TransportConfig>)
    ensures
        same_transport(r, *t),
{
    match t {
        Some(x) => Some(x.clone()),
        None => None,
    }
}

impl Clone for RegistryEntry {
    fn clone(&self) -> (r: Self)
        ensures
            same_entry(r, *self),
    {
        RegistryEntry {
            capability_id: self.capability_id.clone(),
            lease_id: self.lease_id.clone(),
            interface: self.interface.clone(),
            attrs: self.attrs.clone(),
            transport: clone_transport(&self.transport),
        }
    }
}

/// The attributes a template is matched against: the entry's own
/// attributes, with `interface` set to the entry's interface.
pub open spec fn searchable(e: RegistryEntry) -> Map<Seq<char>, String> {
    e.attrs@.insert("interface"@, e.interface)
}

/// Compute [`searchable`].
pub fn searchable_attrs(e: &RegistryEntry) -> (attrs: StrMap<String>)
    ensures
        attrs@ == searchable(*e),
{
    let mut attrs = e.attrs.clone();
    attrs.insert("interface".to_owned(), e.interface.clone());
    attrs
}

/// Position of the first entry of `s` satisfying the template, if any.
pub open spec fn first_match(s: Seq<RegistryEntry>, template: Map<Seq<char>, String>) -> Option<int> {
    if exists|i: int| 0 <= i < s.len() && template_matches(template, searchable(#[trigger] s[i])) {
        Some(
            choose|i: int|
                0 <= i < s.len() && template_matches(template, searchable(#[trigger] s[i])) && forall|j: int|
                    0 <= j < i ==> !template_matches(template, searchable(#[trigger] s[j])),
        )
    } else {
        None
    }
}

/// The two sequences hold the same entries, position by position.
pub open spec fn same_entries(a: Seq<RegistryEntry>, b: Seq<RegistryEntry>) -> bool {
    a.len() == b.len() && forall|i: int| 0 <= i < a.len() ==> same_entry(#[trigger] a[i], b[i])
}

/// Position of the entry of `s` with capability id `id`, if any.
pub open spec fn find_capability(s: Seq<RegistryEntry>, id: Seq<char>) -> Option<int> {
    if exists|i: int| 0 <= i < s.len() && (#[trigger] s[i]).capability_id@ == id {
        Some(choose|i: int| 0 <= i < s.len() && (#[trigger] s[i]).capability_id@ == id)
    } else {
        None
    }
}

/// Capability ids of `s` are pairwise distinct.
pub open spec fn distinct_capabilities(s: Seq<RegistryEntry>) -> bool {
    forall|i: int, j: int|
        0 <= i < s.len() && 0 <= j < s.len() && i != j ==> s[i].capability_id@ != s[j].capability_id@
}

/// `e` is stored in `s` under its capability id: `s` with the entry of
/// that id replaced by `e`, or `e` appended when there is none.
pub open spec fn put_entry(s: Seq<RegistryEntry>, e: RegistryEntry) -> Seq<RegistryEntry> {
    if exists|i: int| 0 <= i < s.len() && (#[trigger] s[i]).capability_id@ == e.capability_id@ {
        s.update(
            choose|i: int| 0 <= i < s.len() && (#[trigger] s[i]).capability_id@ == e.capability_id@,
            e,
        )
    } else {
        s.push(e)
    }
}

/// Storing entries with the same text gives the same registry.
pub proof fn lemma_put_same(s: Seq<RegistryEntry>, a: RegistryEntry, b: RegistryEntry)
    requires
        same_entry(a, b),
    ensures
        same_entries(put_entry(s, a), put_entry(s, b)),
{
}

/// Registry business logic layer: the registered entries.
pub struct RegistryIndex {
    entries: Vec<RegistryEntry>,
}

impl RegistryIndex {
    #[verifier::type_invariant]
    closed spec fn wf(&self) -> bool {
        distinct_capabilities(self.entries@)
    }

    /// The registered entries, in registration order.
    pub closed spec fn entries(&self) -> Seq<RegistryEntry> {
        self.entries@
    }

    /// An empty registry.
    pub fn new() -> (r: Self)
        ensures
            r.entries() == Seq::<RegistryEntry>::empty(),
    {
        RegistryIndex { entries: Vec::new() }
    }

    /// Position of the entry with capability id `capability_id`.
    fn position(&self, capability_id: &str) -> (pos: Option<usize>)
        ensures
            match pos {
                Some(i) => i < self.entries@.len() && self.entries@[i as int].capability_id@
                    == capability_id@,
                None => forall|i: int| 0 <= i < self.entries@.len()
                    ==> (#[trigger] self.entries@[i]).capability_id@ != capability_id@,
            },
    {
        let mut i: usize = 0;
        while i < self.entries.len()
            invariant
                i <= self.entries@.len(),
                forall|j: int| 0 <= j < i ==> (#[trigger] self.entries@[j]).capability_id@ != capability_id@,
            decreases self.entries@.len() - i,
        {
            if str_eq(self.entries[i].capability_id.as_str(), capability_id) {
                return Some(i);
            }
            i = i + 1;
        }
        None
    }

    /// Store `entry` under its capability id, replacing the entry of that
    /// id if there is one.
    pub fn register(&mut self, entry: RegistryEntry)
        ensures
            final(self).entries() == put_entry(old(self).entries(), entry),
    {
        proof {
            use_type_invariant(&*self);
        }
        let ghost s = self.entries@;
        let pos = self.position(entry.capability_id.as_str());
        let mut entries = Vec::new();
        std::mem::swap(&mut entries, &mut self.entries);
        match pos {
            Some(i) => {
                entries.set(i, entry);
                proof {
                    assert(exists|j: int| 0 <= j < s.len() && (#[trigger] s[j]).capability_id@ == entry.capability_id@);
                    let c = choose|j: int| 0 <= j < s.len() && (#[trigger] s[j]).capability_id@ == entry.capability_id@;
                    assert(c == i as int);
                    assert(distinct_capabilities(entries@)) by {
                        assert forall|a: int, b: int| 0 <= a < entries@.len() && 0 <= b < entries@.len() && a != b
                            implies entries@[a].capability_id@ != entries@[b].capability_id@ by {
                            if a != i && b != i {
                                assert(entries@[a] == s[a] && entries@[b] == s[b]);
                            } else if a == i {
                                assert(entries@[b] == s[b]);
                            } else {
                                assert(entries@[a] == s[a]);
                            }
                        }
                    }
                }
            },
            None => {
                entries.push(entry);
                proof {
                    assert(distinct_capabilities(entries@)) by {
                        assert forall|a: int, b: int| 0 <= a < entries@.len() && 0 <= b < entries@.len() && a != b
                            implies entries@[a].capability_id@ != entries@[b].capability_id@ by {
                            if a < s.len() {
                                assert(entries@[a] == s[a]);
                            }
                            if b < s.len() {
                                assert(entries@[b] == s[b]);
                            }
                        }
                    }
                }
            },
        }
        self.entries = entries;
    }

    /// Update an existing entry in-place. Returns None (and changes
    /// nothing) if its capability_id is not registered; otherwise the entry
    /// it replaced.
    pub fn update(&mut self, entry: RegistryEntry) -> (prev: Option<RegistryEntry>)
        ensures
            prev is Some == find_capability(old(self).entries(), entry.capability_id@) is Some,
            prev matches Some(p) ==> same_entry(p, old(self).entries()[find_capability(old(self).entries(), entry.capability_id@)->0]),
            prev is Some ==> final(self).entries() == put_entry(old(self).entries(), entry),
            prev is None ==> final(self).entries() == old(self).entries(),
    {
        match self.get(entry.capability_id.as_str()) {
            Some(prev) => {
                self.register(entry);
                Some(prev)
            },
            None => None,
        }
    }

    /// Get an entry by capability_id.
    pub fn get(&self, capability_id: &str) -> (r: Option<RegistryEntry>)
        ensures
            r is Some == find_capability(self.entries(), capability_id@) is Some,
            r matches Some(e) ==> same_entry(e, self.entries()[find_capability(self.entries(), capability_id@)->0]),
    {
        proof {
            use_type_invariant(self);
        }
        match self.position(capability_id) {
            Some(i) => {
                proof {
                    let c = choose|j: int| 0 <= j < self.entries@.len() && (#[trigger] self.entries@[j]).capability_id@ == capability_id@;
                    assert(c == i as int);
                }
                Some(self.entries[i].clone())
            },
            None => None,
        }
    }

    /// Position of the first entry holding lease `lease_id`.
    fn position_by_lease(&self, lease_id: &str) -> (pos: Option<usize>)
        ensures
            match pos {
                Some(i) => i < self.entries@.len() && self.entries@[i as int].lease_id@ == lease_id@
                    && forall|j: int| 0 <= j < i ==> (#[trigger] self.entries@[j]).lease_id@ != lease_id@,
                None => forall|i: int| 0 <= i < self.entries@.len() ==> (#[trigger] self.entries@[i]).lease_id@
                    != lease_id@,
            },
    {
        let mut i: usize = 0;
        while i < self.entries.len()
            invariant
                i <= self.entries@.len(),
                forall|j: int| 0 <= j < i ==> (#[trigger] self.entries@[j]).lease_id@ != lease_id@,
            decreases self.entries@.len() - i,
        {
            if str_eq(self.entries[i].lease_id.as_str(), lease_id) {
                return Some(i);
            }
            i = i + 1;
        }
        None
    }

    /// Get an entry by its lease_id: the first registered with it.
    pub fn get_by_lease(&self, lease_id: &str) -> (r: Option<RegistryEntry>)
        ensures
            r is None <==> forall|i: int| 0 <= i < self.entries().len() ==> (#[trigger] self.entries()[i]).lease_id@
                != lease_id@,
            r matches Some(e) ==> exists|i: int| 0 <= i < self.entries().len() && same_entry(e, #[trigger] self.entries()[i])
                && e.lease_id@ == lease_id@ && forall|j: int| 0 <= j < i ==> (#[trigger] self.entries()[j]).lease_id@ != lease_id@,
    {
        match self.position_by_lease(lease_id) {
            Some(i) => Some(self.entries[i].clone()),
            None => None,
        }
    }

    /// Remove the first entry holding lease `lease_id`, returning it.
    pub fn unregister_by_lease(&mut self, lease_id: &str) -> (r: Option<RegistryEntry>)
        ensures
            r is None <==> forall|i: int| 0 <= i < old(self).entries().len() ==> (#[trigger] old(self).entries()[i]).lease_id@
                != lease_id@,
            r is None ==> final(self).entries() == old(self).entries(),
            r matches Some(e) ==> exists|i: int| {
                &&& 0 <= i < old(self).entries().len()
                &&& e == #[trigger] old(self).entries()[i]
                &&& e.lease_id@ == lease_id@
                &&& forall|j: int| 0 <= j < i ==> (#[trigger] old(self).entries()[j]).lease_id@ != lease_id@
                &&& final(self).entries() == old(self).entries().remove(i)
            },
    {
        proof {
            use_type_invariant(&*self);
        }
        let ghost s = self.entries@;
        match self.position_by_lease(lease_id) {
            Some(i) => {
                let mut entries = Vec::new();
                std::mem::swap(&mut entries, &mut self.entries);
                let e = entries.remove(i);
                proof {
                    assert(distinct_capabilities(entries@)) by {
                        assert forall|a: int, b: int| 0 <= a < entries@.len() && 0 <= b < entries@.len() && a != b
                            implies entries@[a].capability_id@ != entries@[b].capability_id@ by {
                            let a2 = if a < i { a } else { a + 1 };
                            let b2 = if b < i { b } else { b + 1 };
                            assert(entries@[a] == s[a2] && entries@[b] == s[b2]);
                        }
                    }
                }
                self.entries = entries;
                Some(e)
            },
            None => None,
        }
    }

    /// The first entry whose searchable attributes satisfy `template`.
    pub fn lookup(&self, template: &StrMap<String>) -> (r: Option<RegistryEntry>)
        ensures
            match first_match(self.entries(), template@) {
                Some(i) => r matches Some(e) && same_entry(e, self.entries()[i]),
                None => r is None,
            },
    {
        let mut i: usize = 0;
        while i < self.entries.len()
            invariant
                i <= self.entries@.len(),
                forall|j: int| 0 <= j < i ==> !template_matches(template@, searchable(#[trigger] self.entries@[j])),
            decreases self.entries@.len() - i,
        {
            let attrs = searchable_attrs(&self.entries[i]);
            if matches_template(template, &attrs) {
                proof {
                    let s = self.entries@;
                    assert(exists|j: int| 0 <= j < s.len() && template_matches(template@, searchable(#[trigger] s[j])));
                    let c = choose|j: int|
                        0 <= j < s.len() && template_matches(template@, searchable(#[trigger] s[j])) && forall|k: int|
                            0 <= k < j ==> !template_matches(template@, searchable(#[trigger] s[k]));
                    if c < i {
                    } else if c > i {
                        assert(!template_matches(template@, searchable(s[i as int])));
                    }
                }
                return Some(self.entries[i].clone());
            }
            i = i + 1;
        }
        None
    }

    /// Every entry whose searchable attributes satisfy `template`, in
    /// registration order.
    pub fn lookup_all(&self, template: &StrMap<String>) -> (r: Vec<RegistryEntry>)
        ensures
            r@.len() == self.entries().filter(|e: RegistryEntry| template_matches(template@, searchable(e))).len(),
            forall|i: int| 0 <= i < r@.len() ==> same_entry(
                #[trigger] r@[i],
                self.entries().filter(|e: RegistryEntry| template_matches(template@, searchable(e)))[i],
            ),
    {
        let ghost pred = |e: RegistryEntry| template_matches(template@, searchable(e));
        let mut out: Vec<RegistryEntry> = Vec::new();
        let mut i: usize = 0;
        while i < self.entries.len()
            invariant
                i <= self.entries@.len(),
                pred == (|e: RegistryEntry| template_matches(template@, searchable(e))),
                out@.len() == self.entries@.take(i as int).filter(pred).len(),
                forall|j: int| 0 <= j < out@.len() ==> same_entry(#[trigger] out@[j], self.entries@.take(i as int).filter(pred)[j]),
            decreases self.entries@.len() - i,
        {
            let ghost before = self.entries@.take(i as int);
            proof {
                assert(self.entries@.take(i + 1) =~= before.push(self.entries@[i as int]));
                crate::strmap::lemma_filter_push(before, pred, self.entries@[i as int]);
            }
            let attrs = searchable_attrs(&self.entries[i]);
            if matches_template(template, &attrs) {
                out.push(self.entries[i].clone());
            }
            i = i + 1;
        }
        proof {
            assert(self.entries@.take(self.entries@.len() as int) =~= self.entries@);
        }
        out
    }
}


/// A newly registered capability.
pub const REGISTERED: i32 = 0;

/// A capability whose lease was reclaimed.
pub const EXPIRED: i32 = 1;

/// A capability re-registered or whose attributes changed.
pub const MODIFIED: i32 = 2;

/// Broadcast channel payload for registry change events.
#[derive(Debug)]
pub struct RegistryChangedEvent {
    pub event_type: i32,
    pub entry: RegistryEntry,
}

impl Clone for RegistryChangedEvent {
    fn clone(&self) -> (r: Self)
        ensures
            r.event_type == self.event_type,
            same_entry(r.entry, self.entry),
    {
        RegistryChangedEvent { event_type: self.event_type, entry: self.entry.clone() }
    }
}

/// A request to register a capability, or to re-register (renew and
/// replace) one when `capability_id` is not empty.
pub struct RegisterRequest {
    pub capability_id: String,
    pub interface: String,
    pub attrs: StrMap<String>,
    pub ttl_seconds: u64,
    pub transport: Option<TransportConfig>,
}

/// A registration that went through: the capability and its lease.
pub struct Registered {
    pub capability_id: String,
    pub lease: LeaseRecord,
    pub event: RegistryChangedEvent,
}

/// Why a registry request was refused.
#[derive(Debug)]
pub enum RegistryError {
    /// No capability with this id is registered.
    CapabilityNotFound(String),
    /// The capability's lease could not be renewed.
    LeaseRejected(Error),
    /// No capability satisfies the template.
    NoMatch,
}

/// `attrs` after removing the keys of `remove`, then adding `add`: adds
/// override removes when a key appears in both.
pub open spec fn modified_attrs(
    attrs: Map<Seq<char>, String>,
    remove: Seq<String>,
    add: Map<Seq<char>, String>,
) -> Map<Seq<char>, String> {
    Map::new(
        |k: Seq<char>|
            add.contains_key(k) || (attrs.contains_key(k) && !(exists|i: int|
                0 <= i < remove.len() && (#[trigger] remove[i])@ == k)),
        |k: Seq<char>|
            if add.contains_key(k) {
                add[k]
            } else {
                attrs[k]
            },
    )
}

/// The effect of reclaiming lease `lease_id` on the entries: the first
/// entry holding it is removed and reported as expired; when none holds
/// it, nothing changes and nothing is reported.
pub open spec fn reclaim_effect(
    before: Seq<RegistryEntry>,
    after: Seq<RegistryEntry>,
    lease_id: Seq<char>,
    r: Option<RegistryChangedEvent>,
) -> bool {
    &&& r is None <==> forall|i: int| 0 <= i < before.len() ==> (#[trigger] before[i]).lease_id@ != lease_id
    &&& r is None ==> after == before
    &&& r matches Some(ev) ==> (ev.event_type == EXPIRED && exists|i: int| {
        &&& 0 <= i < before.len()
        &&& ev.entry == #[trigger] before[i]
        &&& ev.entry.lease_id@ == lease_id
        &&& forall|j: int| 0 <= j < i ==> (#[trigger] before[j]).lease_id@ != lease_id
        &&& after == before.remove(i)
    })
}

/// What re-registering the existing capability `req.capability_id` at
/// instant `now` does: its lease is renewed for the negotiated TTL; a
/// refused renewal is reported and leaves the entries alone; otherwise the
/// entry is replaced by the request's interface, attributes and transport,
/// keeping its id and lease, and a MODIFIED event carries the new entry.
pub open spec fn re_registered(
    before: RegistryServiceImpl,
    after: RegistryServiceImpl,
    req: RegisterRequest,
    now: i64,
    r: Result<Registered, RegistryError>,
) -> bool {
    let existing = before.entries()[find_capability(before.entries(), req.capability_id@)->0];
    let ttl = before.leases().granted_ttl(req.ttl_seconds);
    exists|renewed: Result<LeaseRecord, Error>| {
        &&& #[trigger] crate::lease::renewal(
            before.leases().leases(),
            after.leases().leases(),
            existing.lease_id@,
            ttl,
            now,
            renewed,
        )
        &&& renewed matches Err(e) ==> {
            &&& r matches Err(RegistryError::LeaseRejected(x)) && x == e
            &&& after.entries() == before.entries()
        }
        &&& renewed matches Ok(lease) ==> r matches Ok(reg) && {
            &&& reg.capability_id == req.capability_id
            &&& reg.lease == lease
            &&& reg.event.event_type == MODIFIED
            &&& reg.event.entry.capability_id == req.capability_id
            &&& reg.event.entry.lease_id == existing.lease_id
            &&& reg.event.entry.interface == req.interface
            &&& reg.event.entry.attrs@ == req.attrs@
            &&& same_transport(reg.event.entry.transport, req.transport)
            &&& same_entries(after.entries(), put_entry(before.entries(), reg.event.entry))
        }
    }
}

/// The Registry service: the entries and the leases that keep them.
pub struct RegistryServiceImpl {
    index: RegistryIndex,
    lease_manager: LeaseManager,
}

impl RegistryServiceImpl {
    /// The registered entries.
    pub closed spec fn entries(&self) -> Seq<RegistryEntry> {
        self.index.entries()
    }

    /// The lease manager granting this registry's leases.
    pub closed spec fn leases(&self) -> LeaseManager {
        self.lease_manager
    }

    pub fn new(index: RegistryIndex, lease_manager: LeaseManager) -> (s: Self)
        ensures
            s.entries() == index.entries(),
            s.leases() == lease_manager,
    {
        RegistryServiceImpl { index, lease_manager }
    }

    /// The lease manager, for lease renewal, cancellation and reaping.
    pub fn lease_manager(&mut self) -> (m: &mut LeaseManager)
        ensures
            *m == old(self).leases(),
            final(self).leases() == *final(m),
            final(self).entries() == old(self).entries(),
    {
        &mut self.lease_manager
    }

    /// The registered entries, for resolving templates elsewhere in the
    /// process.
    pub fn index(&self) -> (i: &RegistryIndex)
        ensures
            i.entries() == self.entries(),
    {
        &self.index
    }

    /// Register, or re-register, a capability at instant `now`. A new
    /// registration is filed under `new_capability_id` with a lease granted
    /// under `new_lease_id` on resource `registry:<capability id>`. A
    /// re-registration renews the capability's lease and replaces its
    /// interface, attributes and transport, keeping its id and lease.
    pub fn register_at(
        &mut self,
        req: RegisterRequest,
        new_capability_id: String,
        new_lease_id: String,
        now: i64,
    ) -> (r: Result<Registered, RegistryError>)
        ensures
            final(self).leases().config() == old(self).leases().config(),
            final(self).leases().pending_reclaims() == old(self).leases().pending_reclaims(),
            req.capability_id@.len() == 0 ==> {
                let ttl = old(self).leases().granted_ttl(req.ttl_seconds);
                &&& r matches Ok(reg) && {
                    &&& reg.capability_id == new_capability_id
                    &&& reg.lease.lease_id == new_lease_id
                    &&& reg.lease.resource_id@ == "registry:"@ + new_capability_id@
                    &&& reg.lease.granted_at == now
                    &&& reg.lease.ttl_seconds == ttl
                    &&& reg.lease.expires_at == crate::lease::expiry(now, ttl)
                    &&& reg.event.event_type == REGISTERED
                    &&& reg.event.entry.capability_id == new_capability_id
                    &&& reg.event.entry.lease_id == new_lease_id
                    &&& reg.event.entry.interface == req.interface
                    &&& reg.event.entry.attrs@ == req.attrs@
                    &&& same_transport(reg.event.entry.transport, req.transport)
                    &&& final(self).leases().leases() == old(self).leases().leases().insert(new_lease_id@, reg.lease)
                    &&& same_entries(final(self).entries(), put_entry(old(self).entries(), reg.event.entry))
                }
            },
            req.capability_id@.len() > 0 && find_capability(old(self).entries(), req.capability_id@) is None ==> {
                &&& r matches Err(RegistryError::CapabilityNotFound(id)) && id == req.capability_id
                &&& final(self).entries() == old(self).entries()
                &&& final(self).leases() == old(self).leases()
            },
            req.capability_id@.len() > 0 && find_capability(old(self).entries(), req.capability_id@) is Some
                ==> re_registered(*old(self), *final(self), req, now, r),
    {
        if !req.capability_id.as_str().is_empty() {
            let existing = match self.index.get(req.capability_id.as_str()) {
                Some(e) => e,
                None => {
                    return Err(RegistryError::CapabilityNotFound(req.capability_id));
                },
            };
            let renewed = self.lease_manager.renew_at(existing.lease_id.as_str(), req.ttl_seconds, now);
            let lease = match renewed {
                Ok(l) => l,
                Err(e) => {
                    return Err(RegistryError::LeaseRejected(e));
                },
            };
            let entry = RegistryEntry {
                capability_id: req.capability_id.clone(),
                lease_id: existing.lease_id,
                interface: req.interface,
                attrs: req.attrs,
                transport: req.transport,
            };
            let event_entry = entry.clone();
            let ghost before = self.index.entries();
            let _ = self.index.update(entry);
            proof {
                lemma_put_same(before, entry, event_entry);
            }
            Ok(Registered {
                capability_id: req.capability_id,
                lease,
                event: RegistryChangedEvent { event_type: MODIFIED, entry: event_entry },
            })
        } else {
            let resource_id = concat("registry:", new_capability_id.as_str());
            let lease = self.lease_manager.grant_at(resource_id.as_str(), req.ttl_seconds, new_lease_id, now);
            let entry = RegistryEntry {
                capability_id: new_capability_id.clone(),
                lease_id: lease.lease_id.clone(),
                interface: req.interface,
                attrs: req.attrs,
                transport: req.transport,
            };
            let event_entry = entry.clone();
            let ghost before = self.index.entries();
            self.index.register(entry);
            proof {
                lemma_put_same(before, entry, event_entry);
            }
            Ok(Registered {
                capability_id: new_capability_id,
                lease,
                event: RegistryChangedEvent { event_type: REGISTERED, entry: event_entry },
            })
        }
    }

    /// Register, or re-register, a capability now, with fresh ids for a new
    /// registration.
    pub fn register(&mut self, req: RegisterRequest) -> (r: Result<Registered, RegistryError>)
        ensures
            final(self).leases().config() == old(self).leases().config(),
            final(self).leases().pending_reclaims() == old(self).leases().pending_reclaims(),
            req.capability_id@.len() > 0 && find_capability(old(self).entries(), req.capability_id@) is None ==> {
                &&& r matches Err(RegistryError::CapabilityNotFound(id)) && id == req.capability_id
                &&& final(self).entries() == old(self).entries()
                &&& final(self).leases() == old(self).leases()
            },
            req.capability_id@.len() == 0 ==> (r matches Ok(reg) && {
                &&& reg.event.event_type == REGISTERED
                &&& reg.lease.resource_id@ == "registry:"@ + reg.capability_id@
                &&& reg.lease.ttl_seconds == old(self).leases().granted_ttl(req.ttl_seconds)
                &&& reg.lease.expires_at == crate::lease::expiry(reg.lease.granted_at, reg.lease.ttl_seconds)
                &&& reg.event.entry.capability_id == reg.capability_id
                &&& reg.event.entry.lease_id == reg.lease.lease_id
                &&& reg.event.entry.interface == req.interface
                &&& reg.event.entry.attrs@ == req.attrs@
                &&& same_transport(reg.event.entry.transport, req.transport)
                &&& final(self).leases().leases() == old(self).leases().leases().insert(reg.lease.lease_id@, reg.lease)
                &&& same_entries(final(self).entries(), put_entry(old(self).entries(), reg.event.entry))
            }),
            req.capability_id@.len() > 0 && find_capability(old(self).entries(), req.capability_id@) is Some
                ==> exists|now: i64| #[trigger] re_registered(*old(self), *final(self), req, now, r),
    {
        let capability_id = new_id();
        let lease_id = new_id();
        let now = now_millis();
        self.register_at(req, capability_id, lease_id, now)
    }

    /// Replace attributes of a registered capability: the keys of
    /// `remove_attrs` are removed first, then `add_attrs` are added, so an
    /// add overrides a remove of the same key.
    pub fn modify_attrs(
        &mut self,
        capability_id: &str,
        remove_attrs: &Vec<String>,
        add_attrs: &StrMap<String>,
    ) -> (r: Result<RegistryChangedEvent, RegistryError>)
        ensures
            final(self).leases() == old(self).leases(),
            find_capability(old(self).entries(), capability_id@) is None ==> {
                &&& r matches Err(RegistryError::CapabilityNotFound(id)) && id@ == capability_id@
                &&& final(self).entries() == old(self).entries()
            },
            find_capability(old(self).entries(), capability_id@) is Some ==> {
                let existing = old(self).entries()[find_capability(old(self).entries(), capability_id@)->0];
                (r matches Ok(ev) && {
                    &&& ev.event_type == MODIFIED
                    &&& ev.entry.capability_id == existing.capability_id
                    &&& ev.entry.lease_id == existing.lease_id
                    &&& ev.entry.interface == existing.interface
                    &&& same_transport(ev.entry.transport, existing.transport)
                    &&& ev.entry.attrs@ == modified_attrs(existing.attrs@, remove_attrs@, add_attrs@)
                    &&& same_entries(final(self).entries(), put_entry(old(self).entries(), ev.entry))
                })
            },
    {
        let existing = match self.index.get(capability_id) {
            Some(e) => e,
            None => {
                return Err(RegistryError::CapabilityNotFound(capability_id.to_owned()));
            },
        };
        let ghost base = existing.attrs@;
        let mut attrs = existing.attrs.clone();
        let mut i: usize = 0;
        while i < remove_attrs.len()
            invariant
                i <= remove_attrs@.len(),
                forall|k: Seq<char>| #[trigger] attrs@.contains_key(k) <==> base.contains_key(k) && !(exists|j: int|
                    0 <= j < i && (#[trigger] remove_attrs@[j])@ == k),
                forall|k: Seq<char>| #[trigger] attrs@.contains_key(k) ==> attrs@[k] == base[k],
            decreases remove_attrs@.len() - i,
        {
            let ghost prev = attrs@;
            let _ = attrs.remove(remove_attrs[i].as_str());
            proof {
                assert forall|k: Seq<char>| #[trigger] attrs@.contains_key(k) <==> base.contains_key(k) && !(exists|j: int|
                    0 <= j < i + 1 && (#[trigger] remove_attrs@[j])@ == k) by {
                    if base.contains_key(k) && !(exists|j: int| 0 <= j < i + 1 && (#[trigger] remove_attrs@[j])@ == k) {
                        assert(!(exists|j: int| 0 <= j < i && (#[trigger] remove_attrs@[j])@ == k));
                        assert(prev.contains_key(k));
                    }
                    if attrs@.contains_key(k) {
                        assert(prev.contains_key(k));
                        if exists|j: int| 0 <= j < i + 1 && (#[trigger] remove_attrs@[j])@ == k {
                            let j = choose|j: int| 0 <= j < i + 1 && (#[trigger] remove_attrs@[j])@ == k;
                            assert(j != i);
                        }
                    }
                }
            }
            i = i + 1;
        }
        let ghost removed = attrs@;
        let n = add_attrs.len();
        let mut j: usize = 0;
        while j < n
            invariant
                n == add_attrs.size(),
                j <= n,
                forall|k: Seq<char>| #[trigger] add_attrs@.contains_key(k) ==> exists|x: int|
                    0 <= x < add_attrs.size() && #[trigger] add_attrs.key_at(x) == k,
                forall|x: int| 0 <= x < add_attrs.size() ==> #[trigger] add_attrs@.contains_key(add_attrs.key_at(x)),
                forall|k: Seq<char>| #[trigger] attrs@.contains_key(k) <==> removed.contains_key(k) || exists|x: int|
                    0 <= x < j && #[trigger] add_attrs.key_at(x) == k,
                forall|k: Seq<char>| #[trigger] attrs@.contains_key(k) ==> attrs@[k] == if exists|x: int|
                    0 <= x < j && #[trigger] add_attrs.key_at(x) == k {
                    add_attrs@[k]
                } else {
                    removed[k]
                },
            decreases n - j,
        {
            let (key, value) = add_attrs.entry(j);
            let ghost prev = attrs@;
            attrs.insert(key.clone(), value.clone());
            proof {
                assert forall|k: Seq<char>| #[trigger] attrs@.contains_key(k) <==> removed.contains_key(k) || exists|x: int|
                    0 <= x < j + 1 && #[trigger] add_attrs.key_at(x) == k by {
                    if exists|x: int| 0 <= x < j + 1 && #[trigger] add_attrs.key_at(x) == k {
                        let x = choose|x: int| 0 <= x < j + 1 && #[trigger] add_attrs.key_at(x) == k;
                        if x < j {
                            assert(prev.contains_key(k));
                        }
                    }
                    if attrs@.contains_key(k) && k != key@ {
                        assert(prev.contains_key(k));
                    }
                }
                assert forall|k: Seq<char>| #[trigger] attrs@.contains_key(k) implies attrs@[k] == if exists|x: int|
                    0 <= x < j + 1 && #[trigger] add_attrs.key_at(x) == k {
                    add_attrs@[k]
                } else {
                    removed[k]
                } by {
                    if k != key@ {
                        assert(prev.contains_key(k));
                        if exists|x: int| 0 <= x < j + 1 && #[trigger] add_attrs.key_at(x) == k {
                            let x = choose|x: int| 0 <= x < j + 1 && #[trigger] add_attrs.key_at(x) == k;
                            assert(x != j);
                        }
                    } else {
                        assert(add_attrs.key_at(j as int) == k);
                    }
                }
            }
            j = j + 1;
        }
        proof {
            assert(attrs@ =~= modified_attrs(base, remove_attrs@, add_attrs@)) by {
                assert forall|k: Seq<char>| #[trigger] add_attrs@.contains_key(k) implies exists|x: int|
                    0 <= x < n && #[trigger] add_attrs.key_at(x) == k by {
                }
            }
        }
        let entry = RegistryEntry {
            capability_id: existing.capability_id,
            lease_id: existing.lease_id,
            interface: existing.interface,
            attrs,
            transport: existing.transport,
        };
        let event_entry = entry.clone();
        let ghost before = self.index.entries();
        let _ = self.index.update(entry);
        proof {
            lemma_put_same(before, entry, event_entry);
        }
        Ok(RegistryChangedEvent { event_type: MODIFIED, entry: event_entry })
    }

    /// The first capability satisfying `template`.
    pub fn lookup(&self, template: &StrMap<String>) -> (r: Result<RegistryEntry, RegistryError>)
        ensures
            match first_match(self.entries(), template@) {
                Some(i) => r matches Ok(e) && same_entry(e, self.entries()[i]),
                None => r matches Err(RegistryError::NoMatch),
            },
    {
        match self.index.lookup(template) {
            Some(e) => Ok(e),
            None => Err(RegistryError::NoMatch),
        }
    }

    /// Every capability satisfying `template`, in registration order.
    pub fn lookup_all(&self, template: &StrMap<String>) -> (r: Vec<RegistryEntry>)
        ensures
            same_entries(r@, self.entries().filter(|e: RegistryEntry| template_matches(template@, searchable(e)))),
    {
        self.index.lookup_all(template)
    }

    /// Whether a watcher with `template` is told of `event`.
    pub fn watch_accepts(template: &StrMap<String>, event: &RegistryChangedEvent) -> (yes: bool)
        ensures
            yes == template_matches(template@, searchable(event.entry)),
    {
        let attrs = searchable_attrs(&event.entry);
        matches_template(template, &attrs)
    }

    /// Cascade of a reclaimed lease: the first entry holding it is removed
    /// and reported as expired.
    pub fn on_lease_reclaimed(&mut self, lease_id: &str) -> (r: Option<RegistryChangedEvent>)
        ensures
            final(self).leases() == old(self).leases(),
            reclaim_effect(old(self).entries(), final(self).entries(), lease_id@, r),
    {
        match self.index.unregister_by_lease(lease_id) {
            Some(entry) => Some(RegistryChangedEvent { event_type: EXPIRED, entry }),
            None => None,
        }
    }
}

/// A template value accepts itself, unless it is a `starts_with:` pattern
/// (whose prefix need not start the pattern itself).
proof fn lemma_value_accepts_itself(v: Seq<char>)
    requires
        !is_prefix_of("starts_with:"@, v),
    ensures
        raw_accepts(v, v),
{
    if !is_wildcard(v) && is_prefix_of("contains:"@, v) {
        let n = "contains:"@.len() as int;
        let p = v.subrange(n, v.len() as int);
        assert(v.subrange(n, n + p.len()) =~= p);
        assert(occurs_in(p, v));
    }
}

/// Storing an entry leaves at most one entry per capability id, and the
/// entry is then found under its id.
pub proof fn law_stored_entry_is_found(s: Seq<RegistryEntry>, e: RegistryEntry)
    requires
        distinct_capabilities(s),
    ensures
        distinct_capabilities(put_entry(s, e)),
        find_capability(put_entry(s, e), e.capability_id@) matches Some(i) && put_entry(s, e)[i] == e,
{
    let t = put_entry(s, e);
    if exists|i: int| 0 <= i < s.len() && (#[trigger] s[i]).capability_id@ == e.capability_id@ {
        let j = choose|i: int| 0 <= i < s.len() && (#[trigger] s[i]).capability_id@ == e.capability_id@;
        assert(t[j] == e);
    } else {
        assert(t[s.len() as int] == e);
    }
    let k = choose|i: int| 0 <= i < t.len() && (#[trigger] t[i]).capability_id@ == e.capability_id@;
    assert(t[k] == e);
}

/// A registered capability is found by a lookup on its own interface
/// (for an interface not itself written as a `starts_with:` pattern).
pub proof fn law_registered_is_found_by_interface(s: Seq<RegistryEntry>, e: RegistryEntry, after: Seq<RegistryEntry>)
    requires
        same_entries(after, put_entry(s, e)),
        !is_prefix_of("starts_with:"@, e.interface@),
    ensures
        first_match(after, Map::<Seq<char>, String>::empty().insert("interface"@, e.interface)) is Some,
{
    let t = put_entry(s, e);
    let template = Map::<Seq<char>, String>::empty().insert("interface"@, e.interface);
    let i = if exists|i: int| 0 <= i < s.len() && (#[trigger] s[i]).capability_id@ == e.capability_id@ {
        choose|i: int| 0 <= i < s.len() && (#[trigger] s[i]).capability_id@ == e.capability_id@
    } else {
        s.len() as int
    };
    assert(t[i] == e);
    assert(same_entry(after[i], t[i]));
    lemma_value_accepts_itself(e.interface@);
    assert(searchable(after[i]).contains_key("interface"@));
    assert(searchable(after[i])["interface"@] == e.interface);
    assert(template_matches(template, searchable(after[i])));
}

/// When the lease of a registered capability is reclaimed, no entry keeps
/// that lease, provided no two entries shared it.
pub proof fn law_reclaimed_entry_is_gone(
    before: Seq<RegistryEntry>,
    after: Seq<RegistryEntry>,
    lease_id: Seq<char>,
    r: Option<RegistryChangedEvent>,
)
    requires
        reclaim_effect(before, after, lease_id, r),
        forall|i: int, j: int|
            0 <= i < before.len() && 0 <= j < before.len() && i != j && before[i].lease_id@ == lease_id
                ==> before[j].lease_id@ != lease_id,
    ensures
        forall|k: int| 0 <= k < after.len() ==> (#[trigger] after[k]).lease_id@ != lease_id,
        r is Some == exists|i: int| 0 <= i < before.len() && (#[trigger] before[i]).lease_id@ == lease_id,
{
    if r is Some {
        let i = choose|i: int| {
            &&& 0 <= i < before.len()
            &&& r->0.entry == #[trigger] before[i]
            &&& r->0.entry.lease_id@ == lease_id
            &&& forall|j: int| 0 <= j < i ==> (#[trigger] before[j]).lease_id@ != lease_id
            &&& after == before.remove(i)
        };
        assert forall|k: int| 0 <= k < after.len() implies (#[trigger] after[k]).lease_id@ != lease_id by {
            if k < i {
                assert(after[k] == before[k]);
            } else {
                assert(after[k] == before[k + 1]);
            }
        }
    }
}

/// The entry at `i` satisfies the template and no earlier one does.
pub open spec fn first_matching_at(s: Seq<RegistryEntry>, template: Map<Seq<char>, String>, i: int) -> bool {
    &&& 0 <= i < s.len()
    &&& template_matches(template, searchable(s[i]))
    &&& forall|j: int| 0 <= j < i ==> !template_matches(template, searchable(#[trigger] s[j]))
}

proof fn lemma_first_match_at(s: Seq<RegistryEntry>, template: Map<Seq<char>, String>, i: int)
    requires
        first_matching_at(s, template, i),
    ensures
        first_match(s, template) == Some(i),
{
    let c = choose|c: int|
        0 <= c < s.len() && template_matches(template, searchable(#[trigger] s[c])) && forall|j: int|
            0 <= j < c ==> !template_matches(template, searchable(#[trigger] s[j]));
    if c < i {
        assert(!template_matches(template, searchable(s[c])));
    } else if c > i {
        assert(!template_matches(template, searchable(s[i])));
    }
}

proof fn lemma_first_matching_exists(s: Seq<RegistryEntry>, template: Map<Seq<char>, String>, k: int)
    requires
        0 <= k < s.len(),
        template_matches(template, searchable(s[k])),
    ensures
        exists|i: int| 0 <= i <= k && #[trigger] first_matching_at(s, template, i),
    decreases k,
{
    if exists|j: int| 0 <= j < k && template_matches(template, searchable(#[trigger] s[j])) {
        let j = choose|j: int| 0 <= j < k && template_matches(template, searchable(#[trigger] s[j]));
        lemma_first_matching_exists(s, template, j);
    } else {
        assert(first_matching_at(s, template, k));
    }
}

proof fn lemma_filter_starts_at_first(s: Seq<RegistryEntry>, template: Map<Seq<char>, String>)
    ensures
        (forall|j: int| 0 <= j < s.len() ==> !template_matches(template, searchable(#[trigger] s[j]))) ==> s.filter(
            |e: RegistryEntry| template_matches(template, searchable(e)),
        ).len() == 0,
        forall|i: int| #[trigger] first_matching_at(s, template, i) ==> {
            let f = s.filter(|e: RegistryEntry| template_matches(template, searchable(e)));
            f.len() > 0 && f[0] == s[i]
        },
    decreases s.len(),
{
    let pred = |e: RegistryEntry| template_matches(template, searchable(e));
    reveal(Seq::filter);
    if s.len() > 0 {
        let p = s.drop_last();
        lemma_filter_starts_at_first(p, template);
        assert(s =~= p.push(s.last()));
        crate::strmap::lemma_filter_push(p, pred, s.last());
        if forall|j: int| 0 <= j < s.len() ==> !template_matches(template, searchable(#[trigger] s[j])) {
            assert forall|j: int| 0 <= j < p.len() implies !template_matches(template, searchable(#[trigger] p[j])) by {
                assert(p[j] == s[j]);
            }
            assert(!pred(s[s.len() - 1]));
        }
        assert forall|i: int| #[trigger] first_matching_at(s, template, i) implies {
            let f = s.filter(pred);
            f.len() > 0 && f[0] == s[i]
        } by {
            if i < s.len() - 1 {
                assert forall|j: int| 0 <= j < i implies !template_matches(template, searchable(#[trigger] p[j])) by {
                    assert(p[j] == s[j]);
                }
                assert(p[i] == s[i]);
                assert(first_matching_at(p, template, i));
            } else {
                assert forall|j: int| 0 <= j < p.len() implies !template_matches(template, searchable(#[trigger] p[j])) by {
                    assert(p[j] == s[j]);
                }
                assert(pred(s.last()));
            }
        }
    }
}

/// A lookup answers the first entry a lookup of all answers, and nothing
/// exactly when that answers no entry.
pub proof fn law_lookup_is_first_of_lookup_all(s: Seq<RegistryEntry>, template: Map<Seq<char>, String>)
    ensures
        first_match(s, template) is None <==> s.filter(|e: RegistryEntry| template_matches(template, searchable(e))).len()
            == 0,
        first_match(s, template) matches Some(i) ==> s.filter(
            |e: RegistryEntry| template_matches(template, searchable(e)),
        )[0] == s[i],
{
    lemma_filter_starts_at_first(s, template);
    if exists|k: int| 0 <= k < s.len() && template_matches(template, searchable(#[trigger] s[k])) {
        let k = choose|k: int| 0 <= k < s.len() && template_matches(template, searchable(#[trigger] s[k]));
        lemma_first_matching_exists(s, template, k);
        let i = choose|i: int| 0 <= i <= k && #[trigger] first_matching_at(s, template, i);
        lemma_first_match_at(s, template, i);
    }
}


/// Modifying attributes removes, then adds, and touches nothing else: an
/// added key takes its added value; a removed key that is not re-added is
/// gone; every other existing attribute keeps its old value; and no key
/// appears that was neither there nor added.
pub proof fn law_modify_attrs_keeps_the_rest(
    attrs: Map<Seq<char>, String>,
    remove: Seq<String>,
    add: Map<Seq<char>, String>,
    k: Seq<char>,
)
    ensures
        add.contains_key(k) ==> modified_attrs(attrs, remove, add).contains_key(k) && modified_attrs(
            attrs,
            remove,
            add,
        )[k] == add[k],
        !add.contains_key(k) && remove.map_values(|r: String| r@).contains(k) ==> !modified_attrs(
            attrs,
            remove,
            add,
        ).contains_key(k),
        !add.contains_key(k) && !remove.map_values(|r: String| r@).contains(k) && attrs.contains_key(k)
            ==> modified_attrs(attrs, remove, add).contains_key(k) && modified_attrs(attrs, remove, add)[k]
            == attrs[k],
        !add.contains_key(k) && !attrs.contains_key(k) ==> !modified_attrs(attrs, remove, add).contains_key(k),
{
    let views = remove.map_values(|r: String| r@);
    if views.contains(k) {
        let i = choose|i: int| 0 <= i < views.len() && views[i] == k;
        assert(remove[i]@ == k);
    }
    if exists|i: int| 0 <= i < remove.len() && (#[trigger] remove[i])@ == k {
        let i = choose|i: int| 0 <= i < remove.len() && (#[trigger] remove[i])@ == k;
        assert(views[i] == k);
    }
}

} // verus!
