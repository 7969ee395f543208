//! The Space: a reactive tuple store. Tuples are written (`out`), read
//! without removal, and taken atomically, all by template; every tuple is
//! leased. Operations under a transaction are isolated: writes stay
//! invisible to others until commit, and takes are restored on abort.
use vstd::prelude::*;

use crate::env::{concat, new_id, now_millis};
use crate::error::Error;
use crate::lease::{LeaseManager, LeaseReclaimed, LeaseRecord};
use crate::matcher::{matches_template, template_matches};
use crate::strmap::{first_index, lemma_first_index, lemma_first_index_none, lemma_first_index_some, StrMap};
use crate::text::{is_prefix_of, starts_with, str_eq};

verus! {

/// What a tuple is, as text and numbers.
pub struct TupleView {
    pub tuple_id: Seq<char>,
    pub attrs: Map<Seq<char>, String>,
    pub payload: Seq<u8>,
    pub lease_id: Seq<char>,
    pub written_by: Seq<char>,
    pub written_at: i64,
    pub input_tuple_id: Option<Seq<char>>,
}

/// A tuple stored in the Space.
#[derive(Debug)]
pub struct TupleRecord {
    pub tuple_id: String,
    pub attrs: StrMap<String>,
    pub payload: Vec<u8>,
    pub lease_id: String,
    pub written_by: String,
    pub written_at: i64,
    pub input_tuple_id: Option<String>,
}

/// The text of an optional string.
pub open spec fn opt_text(s: Option<String>) -> Option<Seq<char>> {
    match s {
        Some(x) => Some(x@),
        None => None,
    }
}

impl View for TupleRecord {
    type V = TupleView;

    open spec fn view(&self) -> TupleView {
        TupleView {
            tuple_id: self.tuple_id@,
            attrs: self.attrs@,
            payload: self.payload@,
            lease_id: self.lease_id@,
            written_by: self.written_by@,
            written_at: self.written_at,
            input_tuple_id: opt_text(self.input_tuple_id),
        }
    }
}

fn clone_opt_string(s: &Option<String>) -> (r: Option<String>)
    ensures
        r == *s,
{
    match s {
        Some(x) => Some(x.clone()),
        None => None,
    }
}

fn clone_bytes(b: &Vec<u8>) -> (r: Vec<u8>)
    ensures
        r@ == b@,
{
    let mut out: Vec<u8> = Vec::new();
    let mut i: usize = 0;
    while i < b.len()
        invariant
            i <= b@.len(),
            out@ == b@.take(i as int),
        decreases b@.len() - i,
    {
        out.push(b[i]);
        proof {
            assert(out@ =~= b@.take(i + 1));
        }
        i = i + 1;
    }
    proof {
        assert(b@.take(b@.len() as int) =~= b@);
    }
    out
}

impl Clone for TupleRecord {
    fn clone(&self) -> (r: Self)
        ensures
            r@ == self@,
    {
        TupleRecord {
            tuple_id: self.tuple_id.clone(),
            attrs: self.attrs.clone(),
            payload: clone_bytes(&self.payload),
            lease_id: self.lease_id.clone(),
            written_by: self.written_by.clone(),
            written_at: self.written_at,
            input_tuple_id: clone_opt_string(&self.input_tuple_id),
        }
    }
}

/// Which change a watch reports.
#[derive(Debug, Clone, Copy, PartialEq, Eq, Structural)]
pub enum SpaceEventKind {
    Appearance,
    Expiration,
}

/// A leased watch subscription on the Space.
#[derive(Debug)]
pub struct SpaceWatchRecord {
    pub watch_id: String,
    pub template: StrMap<String>,
    pub on: SpaceEventKind,
    pub lease_id: String,
    pub handback: Vec<u8>,
}

/// What a watch is, as text.
pub struct WatchView {
    pub watch_id: Seq<char>,
    pub template: Map<Seq<char>, String>,
    pub on: SpaceEventKind,
    pub lease_id: Seq<char>,
    pub handback: Seq<u8>,
}

impl View for SpaceWatchRecord {
    type V = WatchView;

    open spec fn view(&self) -> WatchView {
        WatchView {
            watch_id: self.watch_id@,
            template: self.template@,
            on: self.on,
            lease_id: self.lease_id@,
            handback: self.handback@,
        }
    }
}

impl Clone for SpaceWatchRecord {
    fn clone(&self) -> (r: Self)
        ensures
            r@ == self@,
    {
        SpaceWatchRecord {
            watch_id: self.watch_id.clone(),
            template: self.template.clone(),
            on: self.on,
            lease_id: self.lease_id.clone(),
            handback: clone_bytes(&self.handback),
        }
    }
}

/// A tuple written or taken under a transaction.
pub struct TxnTuple {
    pub txn_id: String,
    pub tuple: TupleRecord,
}

impl View for TxnTuple {
    type V = (Seq<char>, TupleView);

    open spec fn view(&self) -> (Seq<char>, TupleView) {
        (self.txn_id@, self.tuple@)
    }
}

/// The tuple's attributes satisfy the template.
pub open spec fn tuple_matches(template: Map<Seq<char>, String>, t: TupleView) -> bool {
    template_matches(template, t.attrs)
}

/// The pending entry belongs to transaction `txn` and satisfies the
/// template.
pub open spec fn pending_matches(template: Map<Seq<char>, String>, txn: Seq<char>, e: (Seq<char>, TupleView)) -> bool {
    e.0 == txn && tuple_matches(template, e.1)
}

/// The views of a vector of records.
pub open spec fn tuple_views(v: Seq<TupleRecord>) -> Seq<TupleView> {
    v.map_values(|t: TupleRecord| t@)
}

/// The views of a vector of transactional entries.
pub open spec fn txn_views(v: Seq<TxnTuple>) -> Seq<(Seq<char>, TupleView)> {
    v.map_values(|t: TxnTuple| t@)
}

/// The tuple a read finds: under a transaction, its own uncommitted
/// writes are searched first, then the visible store; otherwise only the
/// visible store. The first match in each wins.
pub open spec fn read_result(
    committed: Seq<TupleView>,
    pending: Seq<(Seq<char>, TupleView)>,
    template: Map<Seq<char>, String>,
    txn: Option<Seq<char>>,
) -> Option<TupleView> {
    let in_committed = match first_index(committed, |t: TupleView| tuple_matches(template, t)) {
        Some(i) => Some(committed[i]),
        None => None,
    };
    match txn {
        Some(t) => match first_index(pending, |e: (Seq<char>, TupleView)| pending_matches(template, t, e)) {
            Some(i) => Some(pending[i].1),
            None => in_committed,
        },
        None => in_committed,
    }
}

/// The tuples of transaction `t` in `s`, in order.
pub open spec fn of_txn(s: Seq<(Seq<char>, TupleView)>, t: Seq<char>) -> Seq<TupleView>
    decreases s.len(),
{
    if s.len() == 0 {
        Seq::empty()
    } else if s.last().0 == t {
        of_txn(s.drop_last(), t).push(s.last().1)
    } else {
        of_txn(s.drop_last(), t)
    }
}

/// The entries of `s` not belonging to transaction `t`, in order.
pub open spec fn without_txn(s: Seq<(Seq<char>, TupleView)>, t: Seq<char>) -> Seq<(Seq<char>, TupleView)>
    decreases s.len(),
{
    if s.len() == 0 {
        Seq::empty()
    } else if s.last().0 == t {
        without_txn(s.drop_last(), t)
    } else {
        without_txn(s.drop_last(), t).push(s.last())
    }
}

/// The tuples of `s` satisfying the template, in order.
pub open spec fn matching(s: Seq<TupleView>, template: Map<Seq<char>, String>) -> Seq<TupleView>
    decreases s.len(),
{
    if s.len() == 0 {
        Seq::empty()
    } else if tuple_matches(template, s.last()) {
        matching(s.drop_last(), template).push(s.last())
    } else {
        matching(s.drop_last(), template)
    }
}

/// Some entry of `s` belongs to transaction `t`.
pub open spec fn touches(s: Seq<(Seq<char>, TupleView)>, t: Seq<char>) -> bool {
    exists|i: int| 0 <= i < s.len() && (#[trigger] s[i]).0 == t
}

/// One operation under transaction `t`, as the Space records it: a write
/// buffers a tuple for `t`; a take drops one of `t`'s own buffered writes,
/// or moves a visible tuple to the tuples `t` holds; a take that finds
/// nothing changes nothing.
#[verifier::opaque]
pub open spec fn txn_step(before: SpaceManager, after: SpaceManager, t: Seq<char>) -> bool {
    ||| {
        &&& after.committed() == before.committed()
        &&& after.held() == before.held()
        &&& exists|v: TupleView| after.pending() == #[trigger] before.pending().push((t, v))
    }
    ||| {
        &&& after.committed() == before.committed()
        &&& after.held() == before.held()
        &&& exists|i: int|
            0 <= i < before.pending().len() && before.pending()[i].0 == t && after.pending()
                == #[trigger] before.pending().remove(i)
    }
    ||| {
        &&& after.pending() == before.pending()
        &&& exists|i: int|
            0 <= i < before.committed().len() && after.committed() == #[trigger] before.committed().remove(i)
                && after.held() == before.held().push((t, before.committed()[i]))
    }
    ||| {
        &&& after.committed() == before.committed()
        &&& after.pending() == before.pending()
        &&& after.held() == before.held()
    }
}

proof fn lemma_step_buffer(before: SpaceManager, after: SpaceManager, t: Seq<char>, v: TupleView)
    requires
        after.committed() == before.committed(),
        after.held() == before.held(),
        after.pending() == before.pending().push((t, v)),
    ensures
        txn_step(before, after, t),
{
    reveal(txn_step);
}

proof fn lemma_step_drop_own(before: SpaceManager, after: SpaceManager, t: Seq<char>, i: int)
    requires
        0 <= i < before.pending().len(),
        before.pending()[i].0 == t,
        after.committed() == before.committed(),
        after.held() == before.held(),
        after.pending() == before.pending().remove(i),
    ensures
        txn_step(before, after, t),
{
    reveal(txn_step);
}

proof fn lemma_step_hold(before: SpaceManager, after: SpaceManager, t: Seq<char>, i: int)
    requires
        0 <= i < before.committed().len(),
        after.pending() == before.pending(),
        after.committed() == before.committed().remove(i),
        after.held() == before.held().push((t, before.committed()[i])),
    ensures
        txn_step(before, after, t),
{
    reveal(txn_step);
}

proof fn lemma_step_none(before: SpaceManager, after: SpaceManager, t: Seq<char>)
    requires
        after.committed() == before.committed(),
        after.pending() == before.pending(),
        after.held() == before.held(),
    ensures
        txn_step(before, after, t),
{
    reveal(txn_step);
}

/// What aborting transaction `t` does to the tuples: the visible tuples it
/// took are appended to the visible store, in order, and nothing of `t`
/// stays buffered or held.
pub open spec fn aborted(before: SpaceManager, after: SpaceManager, t: Seq<char>) -> bool {
    &&& after.committed() == before.committed() + of_txn(before.held(), t)
    &&& after.pending() == without_txn(before.pending(), t)
    &&& after.held() == without_txn(before.held(), t)
}

/// Split the entries of `v` into those not of transaction `t` and the
/// tuples of `t`.
fn split_txn(v: &Vec<TxnTuple>, t: &str) -> (r: (Vec<TxnTuple>, Vec<TupleRecord>))
    ensures
        txn_views(r.0@) == without_txn(txn_views(v@), t@),
        tuple_views(r.1@) == of_txn(txn_views(v@), t@),
{
    let mut kept: Vec<TxnTuple> = Vec::new();
    let mut taken: Vec<TupleRecord> = Vec::new();
    let mut i: usize = 0;
    while i < v.len()
        invariant
            i <= v@.len(),
            txn_views(kept@) == without_txn(txn_views(v@.take(i as int)), t@),
            tuple_views(taken@) == of_txn(txn_views(v@.take(i as int)), t@),
        decreases v@.len() - i,
    {
        let ghost prefix = txn_views(v@.take(i as int));
        proof {
            assert(txn_views(v@.take(i + 1)) =~= prefix.push(v@[i as int]@));
            assert(txn_views(v@.take(i + 1)).drop_last() =~= prefix);
        }
        let e = &v[i];
        if str_eq(e.txn_id.as_str(), t) {
            let ghost before = taken@;
            taken.push(e.tuple.clone());
            proof {
                assert(tuple_views(taken@) =~= tuple_views(before).push(v@[i as int]@.1));
            }
        } else {
            let ghost before = kept@;
            kept.push(TxnTuple { txn_id: e.txn_id.clone(), tuple: e.tuple.clone() });
            proof {
                assert(txn_views(kept@) =~= txn_views(before).push(v@[i as int]@));
            }
        }
        i = i + 1;
    }
    proof {
        assert(v@.take(v@.len() as int) =~= v@);
    }
    (kept, taken)
}

/// Whether some entry of `v` belongs to transaction `t`.
fn has_entry_of(v: &Vec<TxnTuple>, t: &str) -> (found: bool)
    ensures
        found == touches(txn_views(v@), t@),
{
    let mut i: usize = 0;
    while i < v.len()
        invariant
            i <= v@.len(),
            forall|j: int| 0 <= j < i ==> (#[trigger] v@[j]).txn_id@ != t@,
        decreases v@.len() - i,
    {
        if str_eq(v[i].txn_id.as_str(), t) {
            proof {
                assert(txn_views(v@)[i as int].0 == t@);
            }
            return true;
        }
        i = i + 1;
    }
    proof {
        assert forall|j: int| 0 <= j < txn_views(v@).len() implies (#[trigger] txn_views(v@)[j]).0 != t@ by {
            assert(txn_views(v@)[j] == v@[j]@);
        }
    }
    false
}

/// What the cascade of a reclaimed lease removed from the Space.
#[derive(Debug)]
pub enum SpaceReclaim {
    /// A tuple lease: the tuple it held, if still visible.
    Tuple(Option<TupleRecord>),
    /// A watch lease: the watch it held, if still there.
    Watch(Option<SpaceWatchRecord>),
    /// A lease of no Space resource.
    Ignored,
}

/// What a blocked read or take hears while it waits for a match.
#[derive(Debug)]
pub enum WaitSignal {
    /// A tuple became visible.
    Appeared(TupleRecord),
    /// Announcements were missed.
    Lagged,
    /// No more announcements will come.
    Closed,
}

/// What a blocked read or take does next.
#[derive(Debug)]
pub enum WaitStep {
    /// Answer with this tuple.
    Deliver(TupleRecord),
    /// Query the Space again.
    Retry,
    /// Keep waiting.
    Listen,
    /// Stop waiting, with no tuple.
    GiveUp,
}

/// A blocked read: an announced tuple that matches is the answer; other
/// tuples and missed announcements keep it waiting; a closed stream ends it.
pub fn read_wait_step(template: &StrMap<String>, signal: WaitSignal) -> (step: WaitStep)
    ensures
        signal matches WaitSignal::Appeared(t) ==> if tuple_matches(template@, t@) {
            step == WaitStep::Deliver(t)
        } else {
            step == WaitStep::Listen
        },
        signal is Lagged ==> step is Listen,
        signal is Closed ==> step is GiveUp,
{
    match signal {
        WaitSignal::Appeared(t) => {
            if SpaceManager::watch_accepts(template, &t) {
                WaitStep::Deliver(t)
            } else {
                WaitStep::Listen
            }
        },
        WaitSignal::Lagged => WaitStep::Listen,
        WaitSignal::Closed => WaitStep::GiveUp,
    }
}

/// A blocked take: a matching announcement is only a hint, since another
/// taker may claim the tuple first, so it and a missed announcement both
/// query the Space again; other tuples keep it waiting; a closed stream
/// ends it.
pub fn take_wait_step(template: &StrMap<String>, signal: &WaitSignal) -> (step: WaitStep)
    ensures
        *signal matches WaitSignal::Appeared(t) ==> if tuple_matches(template@, t@) {
            step is Retry
        } else {
            step is Listen
        },
        *signal is Lagged ==> step is Retry,
        *signal is Closed ==> step is GiveUp,
{
    match signal {
        WaitSignal::Appeared(t) => {
            if SpaceManager::watch_accepts(template, t) {
                WaitStep::Retry
            } else {
                WaitStep::Listen
            }
        },
        WaitSignal::Lagged => WaitStep::Retry,
        WaitSignal::Closed => WaitStep::GiveUp,
    }
}

/// The provenance link a write request carries: an empty input tuple id
/// means none.
pub fn input_tuple_of(raw: String) -> (input: Option<String>)
    ensures
        raw@.len() == 0 ==> input is None,
        raw@.len() > 0 ==> input == Some(raw),
{
    if raw.as_str().is_empty() {
        None
    } else {
        Some(raw)
    }
}

/// The Space service state: visible tuples, transactional buffers,
/// watches, and the leases on all of them.
pub struct SpaceManager {
    committed: Vec<TupleRecord>,
    pending: Vec<TxnTuple>,
    held: Vec<TxnTuple>,
    watches: Vec<SpaceWatchRecord>,
    lease_manager: LeaseManager,
}

impl SpaceManager {
    /// The visible tuples, oldest first.
    pub closed spec fn committed(&self) -> Seq<TupleView> {
        tuple_views(self.committed@)
    }

    /// Tuples written under a transaction and not yet committed, with the
    /// transaction's id.
    pub closed spec fn pending(&self) -> Seq<(Seq<char>, TupleView)> {
        txn_views(self.pending@)
    }

    /// Visible tuples taken under a transaction, held for restore on abort.
    pub closed spec fn held(&self) -> Seq<(Seq<char>, TupleView)> {
        txn_views(self.held@)
    }

    /// The watch subscriptions.
    pub closed spec fn watches(&self) -> Seq<WatchView> {
        self.watches@.map_values(|w: SpaceWatchRecord| w@)
    }

    /// The lease manager granting tuple and watch leases.
    pub closed spec fn leases(&self) -> LeaseManager {
        self.lease_manager
    }

    /// An empty Space.
    pub fn new(lease_manager: LeaseManager) -> (m: Self)
        ensures
            m.committed() == Seq::<TupleView>::empty(),
            m.pending() == Seq::<(Seq<char>, TupleView)>::empty(),
            m.held() == Seq::<(Seq<char>, TupleView)>::empty(),
            m.watches() == Seq::<WatchView>::empty(),
            m.leases() == lease_manager,
    {
        let m = SpaceManager {
            committed: Vec::new(),
            pending: Vec::new(),
            held: Vec::new(),
            watches: Vec::new(),
            lease_manager,
        };
        proof {
            assert(m.committed() =~= Seq::<TupleView>::empty());
            assert(m.pending() =~= Seq::<(Seq<char>, TupleView)>::empty());
            assert(m.held() =~= Seq::<(Seq<char>, TupleView)>::empty());
            assert(m.watches() =~= Seq::<WatchView>::empty());
        }
        m
    }

    /// The lease manager, for lease renewal, cancellation and reaping.
    pub fn lease_manager(&mut self) -> (m: &mut LeaseManager)
        ensures
            *m == old(self).leases(),
            final(self).leases() == *final(m),
            final(self).committed() == old(self).committed(),
            final(self).pending() == old(self).pending(),
            final(self).held() == old(self).held(),
            final(self).watches() == old(self).watches(),
    {
        &mut self.lease_manager
    }

    /// Write a tuple at instant `now`, under id `tuple_id` and a lease
    /// `lease_id` on resource `space:<tuple id>`. Under a transaction the
    /// tuple goes to that transaction's uncommitted buffer; otherwise it is
    /// visible at once.
    pub fn write_at(
        &mut self,
        attrs: StrMap<String>,
        payload: Vec<u8>,
        ttl_secs: u64,
        written_by: String,
        input_tuple_id: Option<String>,
        txn_id: Option<String>,
        tuple_id: String,
        lease_id: String,
        now: i64,
    ) -> (r: (TupleRecord, LeaseRecord))
        ensures
            r.0@ == (TupleView {
                tuple_id: tuple_id@,
                attrs: attrs@,
                payload: payload@,
                lease_id: lease_id@,
                written_by: written_by@,
                written_at: now,
                input_tuple_id: opt_text(input_tuple_id),
            }),
            r.1.lease_id == lease_id,
            r.1.resource_id@ == "space:"@ + tuple_id@,
            r.1.granted_at == now,
            r.1.ttl_seconds == old(self).leases().granted_ttl(ttl_secs),
            r.1.expires_at == crate::lease::expiry(now, r.1.ttl_seconds),
            final(self).leases().leases() == old(self).leases().leases().insert(lease_id@, r.1),
            final(self).leases().config() == old(self).leases().config(),
            final(self).leases().pending_reclaims() == old(self).leases().pending_reclaims(),
            final(self).held() == old(self).held(),
            final(self).watches() == old(self).watches(),
            txn_id matches Some(t) ==> {
                &&& final(self).pending() == old(self).pending().push((t@, r.0@))
                &&& final(self).committed() == old(self).committed()
            },
            txn_id matches Some(t) ==> txn_step(*old(self), *final(self), t@),
            txn_id is None ==> {
                &&& final(self).committed() == old(self).committed().push(r.0@)
                &&& final(self).pending() == old(self).pending()
            },
    {
        let resource_id = concat("space:", tuple_id.as_str());
        let lease = self.lease_manager.grant_at(resource_id.as_str(), ttl_secs, lease_id, now);
        let record = TupleRecord {
            tuple_id,
            attrs,
            payload,
            lease_id: lease.lease_id.clone(),
            written_by,
            written_at: now,
            input_tuple_id,
        };
        let out = record.clone();
        match txn_id {
            Some(t) => {
                let ghost tv = t@;
                self.pending.push(TxnTuple { txn_id: t, tuple: record });
                proof {
                    assert(self.pending() =~= old(self).pending().push((tv, out@)));
                    lemma_step_buffer(*old(self), *self, tv, out@);
                }
            },
            None => {
                self.committed.push(record);
                proof {
                    assert(self.committed() =~= old(self).committed().push(out@));
                }
            },
        }
        (out, lease)
    }

    /// Write a tuple now, under fresh ids.
    pub fn write(
        &mut self,
        attrs: StrMap<String>,
        payload: Vec<u8>,
        ttl_secs: u64,
        written_by: String,
        input_tuple_id: Option<String>,
        txn_id: Option<String>,
    ) -> (r: (TupleRecord, LeaseRecord))
        ensures
            r.0@.attrs == attrs@,
            r.0@.payload == payload@,
            r.0@.written_by == written_by@,
            r.0@.input_tuple_id == opt_text(input_tuple_id),
            r.0@.lease_id == r.1.lease_id@,
            r.1.resource_id@ == "space:"@ + r.0@.tuple_id,
            r.1.ttl_seconds == old(self).leases().granted_ttl(ttl_secs),
            final(self).leases().leases() == old(self).leases().leases().insert(r.1.lease_id@, r.1),
            final(self).held() == old(self).held(),
            final(self).watches() == old(self).watches(),
            txn_id matches Some(t) ==> {
                &&& final(self).pending() == old(self).pending().push((t@, r.0@))
                &&& final(self).committed() == old(self).committed()
            },
            txn_id matches Some(t) ==> txn_step(*old(self), *final(self), t@),
            txn_id is None ==> {
                &&& final(self).committed() == old(self).committed().push(r.0@)
                &&& final(self).pending() == old(self).pending()
            },
    {
        let tuple_id = new_id();
        let lease_id = new_id();
        let now = now_millis();
        self.write_at(attrs, payload, ttl_secs, written_by, input_tuple_id, txn_id, tuple_id, lease_id, now)
    }

    /// Position of the first visible tuple satisfying `template`.
    fn find_committed(&self, template: &StrMap<String>) -> (pos: Option<usize>)
        ensures
            pos matches Some(i) ==> i < self.committed@.len() && self.committed()[i as int] == self.committed@[i as int]@
                && first_index(self.committed(), |t: TupleView| tuple_matches(template@, t)) == Some(i as int),
            pos is None ==> first_index(self.committed(), |t: TupleView| tuple_matches(template@, t)) is None,
            self.committed().len() == self.committed@.len(),
    {
        let ghost p = |t: TupleView| tuple_matches(template@, t);
        let mut i: usize = 0;
        while i < self.committed.len()
            invariant
                i <= self.committed@.len(),
                self.committed().len() == self.committed@.len(),
                forall|j: int| 0 <= j < i ==> !p(#[trigger] self.committed()[j]),
                p == (|t: TupleView| tuple_matches(template@, t)),
            decreases self.committed@.len() - i,
        {
            if matches_template(template, &self.committed[i].attrs) {
                proof {
                    assert(self.committed()[i as int] == self.committed@[i as int]@);
                    lemma_first_index(self.committed(), p, i as int);
                }
                return Some(i);
            }
            proof {
                assert(self.committed()[i as int] == self.committed@[i as int]@);
            }
            i = i + 1;
        }
        proof {
            lemma_first_index_none(self.committed(), p);
        }
        None
    }

    /// Position of the first uncommitted write of `txn_id` satisfying
    /// `template`.
    fn find_pending(&self, template: &StrMap<String>, txn_id: &str) -> (pos: Option<usize>)
        ensures
            pos matches Some(i) ==> i < self.pending@.len() && self.pending()[i as int] == self.pending@[i as int]@
                && first_index(
                self.pending(),
                |e: (Seq<char>, TupleView)| pending_matches(template@, txn_id@, e),
            ) == Some(i as int),
            pos is None ==> first_index(
                self.pending(),
                |e: (Seq<char>, TupleView)| pending_matches(template@, txn_id@, e),
            ) is None,
            self.pending().len() == self.pending@.len(),
    {
        let ghost p = |e: (Seq<char>, TupleView)| pending_matches(template@, txn_id@, e);
        let mut i: usize = 0;
        while i < self.pending.len()
            invariant
                i <= self.pending@.len(),
                self.pending().len() == self.pending@.len(),
                forall|j: int| 0 <= j < i ==> !p(#[trigger] self.pending()[j]),
                p == (|e: (Seq<char>, TupleView)| pending_matches(template@, txn_id@, e)),
            decreases self.pending@.len() - i,
        {
            proof {
                assert(self.pending()[i as int] == self.pending@[i as int]@);
            }
            if str_eq(self.pending[i].txn_id.as_str(), txn_id) && matches_template(template, &self.pending[i].tuple.attrs) {
                proof {
                    lemma_first_index(self.pending(), p, i as int);
                }
                return Some(i);
            }
            i = i + 1;
        }
        proof {
            lemma_first_index_none(self.pending(), p);
        }
        None
    }

    /// Non-destructive read by template (readIfExists). Under a
    /// transaction, its own uncommitted writes are searched first.
    pub fn read(&self, template: &StrMap<String>, txn_id: Option<&str>) -> (r: Option<TupleRecord>)
        ensures
            match read_result(self.committed(), self.pending(), template@, match txn_id { Some(t) => Some(t@), None => None }) {
                Some(v) => r matches Some(t) && t@ == v,
                None => r is None,
            },
    {
        if let Some(t) = txn_id {
            if let Some(i) = self.find_pending(template, t) {
                return Some(self.pending[i].tuple.clone());
            }
        }
        match self.find_committed(template) {
            Some(i) => Some(self.committed[i].clone()),
            None => None,
        }
    }

    /// Remove the visible tuple at position `i`.
    fn remove_committed(&mut self, i: usize) -> (t: TupleRecord)
        requires
            i < old(self).committed@.len(),
        ensures
            t@ == old(self).committed()[i as int],
            final(self).committed() == old(self).committed().remove(i as int),
            final(self).pending() == old(self).pending(),
            final(self).held() == old(self).held(),
            final(self).watches() == old(self).watches(),
            final(self).leases() == old(self).leases(),
    {
        let t = self.committed.remove(i);
        proof {
            assert(self.committed() =~= old(self).committed().remove(i as int));
        }
        t
    }

    /// Atomic claim and removal by template (takeIfExists). Under a
    /// transaction, its own uncommitted writes are taken first (and simply
    /// dropped from its buffer); a visible tuple taken under a transaction
    /// is held for restore on abort, and its lease is left alone until the
    /// transaction ends. A visible tuple taken outside any transaction has
    /// its lease cancelled at once.
    pub fn take(&mut self, template: &StrMap<String>, txn_id: Option<&str>) -> (r: Option<TupleRecord>)
        ensures
            final(self).watches() == old(self).watches(),
            txn_id matches Some(t) ==> (first_index(
                old(self).pending(),
                |e: (Seq<char>, TupleView)| pending_matches(template@, t@, e),
            ) is Some ==> {
                let i = first_index(old(self).pending(), |e: (Seq<char>, TupleView)| pending_matches(template@, t@, e))->0;
                &&& r matches Some(x) && x@ == old(self).pending()[i].1
                &&& final(self).pending() == old(self).pending().remove(i)
                &&& final(self).committed() == old(self).committed()
                &&& final(self).held() == old(self).held()
                &&& final(self).leases() == old(self).leases()
            }),
            txn_id matches Some(t) ==> (first_index(
                old(self).pending(),
                |e: (Seq<char>, TupleView)| pending_matches(template@, t@, e),
            ) is None && first_index(old(self).committed(), |v: TupleView| tuple_matches(template@, v)) is Some ==> {
                let i = first_index(old(self).committed(), |v: TupleView| tuple_matches(template@, v))->0;
                &&& r matches Some(x) && x@ == old(self).committed()[i]
                &&& final(self).committed() == old(self).committed().remove(i)
                &&& final(self).held() == old(self).held().push((t@, old(self).committed()[i]))
                &&& final(self).pending() == old(self).pending()
                &&& final(self).leases() == old(self).leases()
            }),
            txn_id is None && first_index(old(self).committed(), |v: TupleView| tuple_matches(template@, v)) is Some ==> {
                let i = first_index(old(self).committed(), |v: TupleView| tuple_matches(template@, v))->0;
                &&& r matches Some(x) && x@ == old(self).committed()[i]
                &&& final(self).committed() == old(self).committed().remove(i)
                &&& final(self).held() == old(self).held()
                &&& final(self).pending() == old(self).pending()
                &&& crate::lease::cancellation(old(self).leases(), final(self).leases(), old(self).committed()[i].lease_id)
            },
            read_result(old(self).committed(), old(self).pending(), template@, match txn_id { Some(t) => Some(t@), None => None }) is None ==> {
                &&& r is None
                &&& final(self).committed() == old(self).committed()
                &&& final(self).pending() == old(self).pending()
                &&& final(self).held() == old(self).held()
                &&& final(self).leases() == old(self).leases()
            },
            txn_id matches Some(t) ==> txn_step(*old(self), *final(self), t@),
    {
        if let Some(t) = txn_id {
            if let Some(i) = self.find_pending(template, t) {
                let e = self.pending.remove(i);
                proof {
                    assert(self.pending() =~= old(self).pending().remove(i as int));
                    let ghost s = old(self).pending();
                    let ghost p = |e: (Seq<char>, TupleView)| pending_matches(template@, t@, e);
                    assert(p(s[i as int])) by {
                        assert(exists|k: int| 0 <= k < s.len() && p(#[trigger] s[k]));
                        let k = choose|k: int| 0 <= k < s.len() && p(#[trigger] s[k]);
                        lemma_first_index_some(s, p, k);
                    }
                    lemma_step_drop_own(*old(self), *self, t@, i as int);
                }
                return Some(e.tuple);
            }
            match self.find_committed(template) {
                Some(i) => {
                    let tuple = self.remove_committed(i);
                    let out = tuple.clone();
                    let ghost before = self.held();
                    self.held.push(TxnTuple { txn_id: t.to_owned(), tuple });
                    proof {
                        assert(self.held() =~= before.push((t@, out@)));
                        lemma_step_hold(*old(self), *self, t@, i as int);
                    }
                    return Some(out);
                },
                None => {
                    proof {
                        lemma_step_none(*old(self), *self, t@);
                    }
                    return None;
                },
            }
        }
        match self.find_committed(template) {
            Some(i) => {
                let tuple = self.remove_committed(i);
                let _ = self.lease_manager.cancel(tuple.lease_id.as_str());
                Some(tuple)
            },
            None => None,
        }
    }

    /// Bulk read: every tuple satisfying the template, without removing
    /// any. Under a transaction, its own uncommitted writes come first.
    pub fn contents(&self, template: &StrMap<String>, txn_id: Option<&str>) -> (r: Vec<TupleRecord>)
        ensures
            tuple_views(r@) == match txn_id {
                Some(t) => matching(of_txn(self.pending(), t@), template@) + matching(self.committed(), template@),
                None => matching(self.committed(), template@),
            },
    {
        let mut out: Vec<TupleRecord> = Vec::new();
        if let Some(t) = txn_id {
            let mut i: usize = 0;
            while i < self.pending.len()
                invariant
                    i <= self.pending@.len(),
                    tuple_views(out@) == matching(of_txn(self.pending().take(i as int), t@), template@),
                decreases self.pending@.len() - i,
            {
                let ghost prefix = self.pending().take(i as int);
                let ghost before = out@;
                proof {
                    assert(self.pending().take(i + 1) =~= prefix.push(self.pending@[i as int]@));
                    assert(self.pending().take(i + 1).drop_last() =~= prefix);
                }
                if str_eq(self.pending[i].txn_id.as_str(), t) {
                    proof {
                        assert(of_txn(self.pending().take(i + 1), t@).drop_last() =~= of_txn(prefix, t@));
                    }
                    if matches_template(template, &self.pending[i].tuple.attrs) {
                        out.push(self.pending[i].tuple.clone());
                        proof {
                            assert(tuple_views(out@) =~= tuple_views(before).push(self.pending@[i as int].tuple@));
                        }
                    }
                }
                i = i + 1;
            }
            proof {
                assert(self.pending().take(self.pending@.len() as int) =~= self.pending());
            }
        }
        let ghost base = out@;
        let mut j: usize = 0;
        while j < self.committed.len()
            invariant
                j <= self.committed@.len(),
                tuple_views(out@) == tuple_views(base) + matching(self.committed().take(j as int), template@),
            decreases self.committed@.len() - j,
        {
            let ghost prefix = self.committed().take(j as int);
            let ghost before = out@;
            proof {
                assert(self.committed().take(j + 1) =~= prefix.push(self.committed@[j as int]@));
                assert(self.committed().take(j + 1).drop_last() =~= prefix);
            }
            if matches_template(template, &self.committed[j].attrs) {
                out.push(self.committed[j].clone());
                proof {
                    assert(tuple_views(out@) =~= tuple_views(before).push(self.committed@[j as int]@));
                }
            }
            proof {
                assert(tuple_views(out@) =~= tuple_views(base) + matching(self.committed().take(j + 1), template@));
            }
            j = j + 1;
        }
        proof {
            assert(self.committed().take(self.committed@.len() as int) =~= self.committed());
            assert(tuple_views(base) =~= match txn_id {
                Some(t) => matching(of_txn(self.pending(), t@), template@),
                None => Seq::<TupleView>::empty(),
            });
        }
        out
    }

    /// Commit a transaction's Space operations: its uncommitted writes are
    /// flushed to the visible store, in order, and returned (for waking
    /// waiters); its takes stay removed.
    pub fn commit_space_txn(&mut self, txn_id: &str) -> (flushed: Vec<TupleRecord>)
        ensures
            tuple_views(flushed@) == of_txn(old(self).pending(), txn_id@),
            final(self).committed() == old(self).committed() + of_txn(old(self).pending(), txn_id@),
            final(self).pending() == without_txn(old(self).pending(), txn_id@),
            final(self).held() == without_txn(old(self).held(), txn_id@),
            final(self).watches() == old(self).watches(),
            final(self).leases() == old(self).leases(),
    {
        let (kept, flushed) = split_txn(&self.pending, txn_id);
        let (kept_held, _finalized) = split_txn(&self.held, txn_id);
        let mut i: usize = 0;
        let ghost base = self.committed();
        while i < flushed.len()
            invariant
                i <= flushed@.len(),
                self.committed() == base + tuple_views(flushed@).take(i as int),
                self.pending@ == old(self).pending@,
                self.held@ == old(self).held@,
                self.watches@ == old(self).watches@,
                self.lease_manager == old(self).lease_manager,
            decreases flushed@.len() - i,
        {
            let ghost before = self.committed();
            self.committed.push(flushed[i].clone());
            proof {
                assert(self.committed() =~= before.push(flushed@[i as int]@));
                assert(tuple_views(flushed@).take(i + 1) =~= tuple_views(flushed@).take(i as int).push(flushed@[i as int]@));
            }
            i = i + 1;
        }
        proof {
            assert(tuple_views(flushed@).take(flushed@.len() as int) =~= tuple_views(flushed@));
        }
        self.pending = kept;
        self.held = kept_held;
        flushed
    }

    /// Abort a transaction's Space operations: its uncommitted writes are
    /// discarded and their leases cancelled; the visible tuples it took are
    /// restored to the visible store, in order, and returned so that they
    /// can be announced to waiting readers.
    pub fn abort_space_txn(&mut self, txn_id: &str) -> (restored: Vec<TupleRecord>)
        ensures
            tuple_views(restored@) == of_txn(old(self).held(), txn_id@),
            aborted(*old(self), *final(self), txn_id@),
            final(self).watches() == old(self).watches(),
            final(self).leases().config() == old(self).leases().config(),
            (final(self).leases().leases(), final(self).leases().pending_reclaims()) == crate::lease::cancel_all(
                old(self).leases().leases(),
                old(self).leases().pending_reclaims(),
                of_txn(old(self).pending(), txn_id@).map_values(|v: TupleView| v.lease_id),
            ),
    {
        let (kept, discarded) = split_txn(&self.pending, txn_id);
        let (kept_held, restored) = split_txn(&self.held, txn_id);
        let mut ids: Vec<String> = Vec::new();
        let mut k: usize = 0;
        while k < discarded.len()
            invariant
                k <= discarded@.len(),
                self.committed@ == old(self).committed@,
                self.pending@ == old(self).pending@,
                self.held@ == old(self).held@,
                self.watches@ == old(self).watches@,
                self.lease_manager == old(self).lease_manager,
                ids@.map_values(|s: String| s@) == tuple_views(discarded@).take(k as int).map_values(|v: TupleView| v.lease_id),
            decreases discarded@.len() - k,
        {
            let ghost before = ids@;
            ids.push(discarded[k].lease_id.clone());
            proof {
                assert(ids@.map_values(|s: String| s@) =~= before.map_values(|s: String| s@).push(discarded@[k as int].lease_id@));
                assert(tuple_views(discarded@).take(k + 1).map_values(|v: TupleView| v.lease_id) =~= tuple_views(discarded@).take(k as int).map_values(|v: TupleView| v.lease_id).push(discarded@[k as int]@.lease_id));
            }
            k = k + 1;
        }
        proof {
            assert(tuple_views(discarded@).take(discarded@.len() as int) =~= tuple_views(discarded@));
        }
        self.lease_manager.cancel_each(&ids);
        let mut i: usize = 0;
        let ghost base = self.committed();
        let ghost lm = self.lease_manager;
        while i < restored.len()
            invariant
                i <= restored@.len(),
                self.committed() == base + tuple_views(restored@).take(i as int),
                self.pending@ == old(self).pending@,
                self.held@ == old(self).held@,
                self.watches@ == old(self).watches@,
                self.lease_manager == lm,
            decreases restored@.len() - i,
        {
            let ghost before = self.committed();
            self.committed.push(restored[i].clone());
            proof {
                assert(self.committed() =~= before.push(restored@[i as int]@));
                assert(tuple_views(restored@).take(i + 1) =~= tuple_views(restored@).take(i as int).push(restored@[i as int]@));
            }
            i = i + 1;
        }
        proof {
            assert(tuple_views(restored@).take(restored@.len() as int) =~= tuple_views(restored@));
        }
        self.pending = kept;
        self.held = kept_held;
        restored
    }

    /// Whether the Space holds uncommitted state for the transaction.
    pub fn has_txn(&self, txn_id: &str) -> (r: bool)
        ensures
            r == (touches(self.pending(), txn_id@) || touches(self.held(), txn_id@)),
    {
        has_entry_of(&self.pending, txn_id) || has_entry_of(&self.held, txn_id)
    }

    /// The participant's vote on Prepare: PREPARED when the Space holds
    /// uncommitted state for the transaction, NOTCHANGED otherwise.
    pub fn prepare(&self, txn_id: &str) -> (vote: crate::txn::PrepareVote)
        ensures
            vote == if touches(self.pending(), txn_id@) || touches(self.held(), txn_id@) {
                crate::txn::PrepareVote::Prepared
            } else {
                crate::txn::PrepareVote::NotChanged
            },
    {
        if self.has_txn(txn_id) {
            crate::txn::PrepareVote::Prepared
        } else {
            crate::txn::PrepareVote::NotChanged
        }
    }

    /// The single-participant optimization: with uncommitted state, commit
    /// it at once and vote PREPARED; otherwise vote NOTCHANGED.
    pub fn prepare_and_commit(&mut self, txn_id: &str) -> (r: (crate::txn::PrepareVote, Vec<TupleRecord>))
        ensures
            final(self).watches() == old(self).watches(),
            final(self).leases() == old(self).leases(),
            touches(old(self).pending(), txn_id@) || touches(old(self).held(), txn_id@) ==> {
                &&& r.0 == crate::txn::PrepareVote::Prepared
                &&& tuple_views(r.1@) == of_txn(old(self).pending(), txn_id@)
                &&& final(self).committed() == old(self).committed() + of_txn(old(self).pending(), txn_id@)
                &&& final(self).pending() == without_txn(old(self).pending(), txn_id@)
                &&& final(self).held() == without_txn(old(self).held(), txn_id@)
            },
            !(touches(old(self).pending(), txn_id@) || touches(old(self).held(), txn_id@)) ==> {
                &&& r.0 == crate::txn::PrepareVote::NotChanged
                &&& r.1@.len() == 0
                &&& final(self).committed() == old(self).committed()
                &&& final(self).pending() == old(self).pending()
                &&& final(self).held() == old(self).held()
            },
    {
        if self.has_txn(txn_id) {
            let flushed = self.commit_space_txn(txn_id);
            (crate::txn::PrepareVote::Prepared, flushed)
        } else {
            (crate::txn::PrepareVote::NotChanged, Vec::new())
        }
    }

    /// Position of the first visible tuple satisfying `p` on its text.
    fn find_committed_by(&self, lease_id: Option<&str>, tuple_id: Option<&str>) -> (pos: Option<usize>)
        requires
            lease_id is Some != tuple_id is Some,
        ensures
            lease_id matches Some(l) ==> match pos {
                Some(i) => i < self.committed@.len() && self.committed()[i as int] == self.committed@[i as int]@
                    && first_index(self.committed(), |v: TupleView| v.lease_id == l@) == Some(i as int),
                None => first_index(self.committed(), |v: TupleView| v.lease_id == l@) is None,
            },
            tuple_id matches Some(t) ==> match pos {
                Some(i) => i < self.committed@.len() && self.committed()[i as int] == self.committed@[i as int]@
                    && first_index(self.committed(), |v: TupleView| v.tuple_id == t@) == Some(i as int),
                None => first_index(self.committed(), |v: TupleView| v.tuple_id == t@) is None,
            },
    {
        let ghost p = match lease_id {
            Some(l) => |v: TupleView| v.lease_id == l@,
            None => |v: TupleView| v.tuple_id == tuple_id->0@,
        };
        let mut i: usize = 0;
        while i < self.committed.len()
            invariant
                i <= self.committed@.len(),
                lease_id is Some != tuple_id is Some,
                forall|j: int| 0 <= j < i ==> !p(#[trigger] self.committed()[j]),
                p == match lease_id {
                    Some(l) => |v: TupleView| v.lease_id == l@,
                    None => |v: TupleView| v.tuple_id == tuple_id->0@,
                },
            decreases self.committed@.len() - i,
        {
            proof {
                assert(self.committed()[i as int] == self.committed@[i as int]@);
            }
            let hit = match lease_id {
                Some(l) => str_eq(self.committed[i].lease_id.as_str(), l),
                None => match tuple_id {
                    Some(t) => str_eq(self.committed[i].tuple_id.as_str(), t),
                    None => false,
                },
            };
            if hit {
                proof {
                    lemma_first_index(self.committed(), p, i as int);
                }
                return Some(i);
            }
            i = i + 1;
        }
        proof {
            lemma_first_index_none(self.committed(), p);
        }
        None
    }

    /// Create a watch at instant `now` under id `watch_id`, leased under
    /// `lease_id` on resource `space-watch:<watch id>`. Returns the watch id
    /// and the lease id.
    pub fn notify_at(
        &mut self,
        template: StrMap<String>,
        on: SpaceEventKind,
        ttl_secs: u64,
        handback: Vec<u8>,
        watch_id: String,
        lease_id: String,
        now: i64,
    ) -> (r: (String, String))
        ensures
            r.0 == watch_id,
            r.1 == lease_id,
            final(self).watches() == old(self).watches().push(WatchView {
                watch_id: watch_id@,
                template: template@,
                on,
                lease_id: lease_id@,
                handback: handback@,
            }),
            exists|lease: LeaseRecord| {
                &&& #[trigger] lease.lease_id == lease_id
                &&& lease.resource_id@ == "space-watch:"@ + watch_id@
                &&& lease.granted_at == now
                &&& lease.ttl_seconds == old(self).leases().granted_ttl(ttl_secs)
                &&& lease.expires_at == crate::lease::expiry(now, lease.ttl_seconds)
                &&& final(self).leases().leases() == old(self).leases().leases().insert(lease_id@, lease)
            },
            final(self).leases().config() == old(self).leases().config(),
            final(self).leases().pending_reclaims() == old(self).leases().pending_reclaims(),
            final(self).committed() == old(self).committed(),
            final(self).pending() == old(self).pending(),
            final(self).held() == old(self).held(),
    {
        let resource_id = concat("space-watch:", watch_id.as_str());
        let lease = self.lease_manager.grant_at(resource_id.as_str(), ttl_secs, lease_id, now);
        let record = SpaceWatchRecord {
            watch_id: watch_id.clone(),
            template,
            on,
            lease_id: lease.lease_id.clone(),
            handback,
        };
        let ghost before = self.watches();
        let ghost rv = record@;
        self.watches.push(record);
        proof {
            assert(self.watches() =~= before.push(rv));
        }
        (watch_id, lease.lease_id)
    }

    /// Create a watch now, under fresh ids.
    pub fn notify(
        &mut self,
        template: StrMap<String>,
        on: SpaceEventKind,
        ttl_secs: u64,
        handback: Vec<u8>,
    ) -> (r: (String, String))
        ensures
            final(self).watches() == old(self).watches().push(WatchView {
                watch_id: r.0@,
                template: template@,
                on,
                lease_id: r.1@,
                handback: handback@,
            }),
            final(self).committed() == old(self).committed(),
            final(self).pending() == old(self).pending(),
            final(self).held() == old(self).held(),
    {
        let watch_id = new_id();
        let lease_id = new_id();
        let now = now_millis();
        self.notify_at(template, on, ttl_secs, handback, watch_id, lease_id, now)
    }

    /// Whether a watch with `template` reports `tuple`.
    pub fn watch_accepts(template: &StrMap<String>, tuple: &TupleRecord) -> (yes: bool)
        ensures
            yes == tuple_matches(template@, tuple@),
    {
        matches_template(template, &tuple.attrs)
    }

    /// Cascade of an expired tuple lease: the first visible tuple holding it
    /// is removed and returned (for the expiry watchers).
    pub fn on_tuple_expired(&mut self, lease_id: &str) -> (r: Option<TupleRecord>)
        ensures
            final(self).pending() == old(self).pending(),
            final(self).held() == old(self).held(),
            final(self).watches() == old(self).watches(),
            final(self).leases() == old(self).leases(),
            match first_index(old(self).committed(), |v: TupleView| v.lease_id == lease_id@) {
                Some(i) => r matches Some(t) && t@ == old(self).committed()[i] && final(self).committed()
                    == old(self).committed().remove(i),
                None => r is None && final(self).committed() == old(self).committed(),
            },
    {
        match self.find_committed_by(Some(lease_id), None) {
            Some(i) => Some(self.remove_committed(i)),
            None => None,
        }
    }

    /// Cascade of an expired watch lease: the first watch holding it is
    /// removed and returned.
    pub fn on_watch_expired(&mut self, lease_id: &str) -> (r: Option<SpaceWatchRecord>)
        ensures
            final(self).committed() == old(self).committed(),
            final(self).pending() == old(self).pending(),
            final(self).held() == old(self).held(),
            final(self).leases() == old(self).leases(),
            match first_index(old(self).watches(), |w: WatchView| w.lease_id == lease_id@) {
                Some(i) => r matches Some(w) && w@ == old(self).watches()[i] && final(self).watches()
                    == old(self).watches().remove(i),
                None => r is None && final(self).watches() == old(self).watches(),
            },
    {
        let ghost p = |w: WatchView| w.lease_id == lease_id@;
        let mut i: usize = 0;
        while i < self.watches.len()
            invariant
                i <= self.watches@.len(),
                forall|j: int| 0 <= j < i ==> !p(#[trigger] self.watches()[j]),
                p == (|w: WatchView| w.lease_id == lease_id@),
                self.committed@ == old(self).committed@,
                self.pending@ == old(self).pending@,
                self.held@ == old(self).held@,
                self.watches@ == old(self).watches@,
                self.lease_manager == old(self).lease_manager,
            decreases self.watches@.len() - i,
        {
            proof {
                assert(self.watches()[i as int] == self.watches@[i as int]@);
            }
            if str_eq(self.watches[i].lease_id.as_str(), lease_id) {
                proof {
                    lemma_first_index(self.watches(), p, i as int);
                }
                let w = self.watches.remove(i);
                proof {
                    assert(self.watches() =~= old(self).watches().remove(i as int));
                }
                return Some(w);
            }
            i = i + 1;
        }
        proof {
            lemma_first_index_none(self.watches(), p);
        }
        None
    }

    /// The cascade of a reclaimed lease of this Space: a `space:` lease
    /// takes its tuple with it, a `space-watch:` lease its watch; any
    /// other lease changes nothing.
    pub fn on_lease_reclaimed(&mut self, reclaimed: &LeaseReclaimed) -> (r: SpaceReclaim)
        ensures
            final(self).pending() == old(self).pending(),
            final(self).held() == old(self).held(),
            final(self).leases() == old(self).leases(),
            ({
                let rid = reclaimed.record.resource_id@;
                let lid = reclaimed.record.lease_id@;
                if is_prefix_of("space:"@, rid) {
                    &&& r is Tuple
                    &&& final(self).watches() == old(self).watches()
                    &&& match first_index(old(self).committed(), |v: TupleView| v.lease_id == lid) {
                        Some(i) => r->Tuple_0 matches Some(t) && t@ == old(self).committed()[i]
                            && final(self).committed() == old(self).committed().remove(i),
                        None => r->Tuple_0 is None && final(self).committed() == old(self).committed(),
                    }
                } else if is_prefix_of("space-watch:"@, rid) {
                    &&& r is Watch
                    &&& final(self).committed() == old(self).committed()
                    &&& match first_index(old(self).watches(), |w: WatchView| w.lease_id == lid) {
                        Some(i) => r->Watch_0 matches Some(w) && w@ == old(self).watches()[i]
                            && final(self).watches() == old(self).watches().remove(i),
                        None => r->Watch_0 is None && final(self).watches() == old(self).watches(),
                    }
                } else {
                    &&& r is Ignored
                    &&& final(self).committed() == old(self).committed()
                    &&& final(self).watches() == old(self).watches()
                }
            }),
    {
        let rid = reclaimed.record.resource_id.as_str();
        let lid = reclaimed.record.lease_id.as_str();
        if starts_with(rid, "space:") {
            SpaceReclaim::Tuple(self.on_tuple_expired(lid))
        } else if starts_with(rid, "space-watch:") {
            SpaceReclaim::Watch(self.on_watch_expired(lid))
        } else {
            SpaceReclaim::Ignored
        }
    }

    /// Cancel a tuple — remove it from the Space and cancel its lease.
    pub fn cancel(&mut self, tuple_id: &str) -> (r: Result<(), Error>)
        ensures
            final(self).pending() == old(self).pending(),
            final(self).held() == old(self).held(),
            final(self).watches() == old(self).watches(),
            match first_index(old(self).committed(), |v: TupleView| v.tuple_id == tuple_id@) {
                Some(i) => {
                    let t = old(self).committed()[i];
                    &&& final(self).committed() == old(self).committed().remove(i)
                    &&& crate::lease::cancellation(old(self).leases(), final(self).leases(), t.lease_id)
                    &&& (r is Ok <==> old(self).leases().leases().contains_key(t.lease_id))
                    &&& r matches Err(e) ==> e matches Error::LeaseNotFound(id) && id@ == t.lease_id
                },
                None => {
                    &&& r matches Err(Error::TupleNotFound(id)) && id@ == tuple_id@
                    &&& final(self).committed() == old(self).committed()
                    &&& final(self).leases() == old(self).leases()
                },
            },
    {
        match self.find_committed_by(None, Some(tuple_id)) {
            Some(i) => {
                let t = self.remove_committed(i);
                self.lease_manager.cancel(t.lease_id.as_str())
            },
            None => Err(Error::TupleNotFound(tuple_id.to_owned())),
        }
    }

    /// Renew a tuple's lease at instant `now`.
    pub fn renew_at(&mut self, tuple_id: &str, ttl_secs: u64, now: i64) -> (r: Result<LeaseRecord, Error>)
        ensures
            final(self).committed() == old(self).committed(),
            final(self).pending() == old(self).pending(),
            final(self).held() == old(self).held(),
            final(self).watches() == old(self).watches(),
            final(self).leases().config() == old(self).leases().config(),
            final(self).leases().pending_reclaims() == old(self).leases().pending_reclaims(),
            match first_index(old(self).committed(), |v: TupleView| v.tuple_id == tuple_id@) {
                Some(i) => crate::lease::renewal(
                    old(self).leases().leases(),
                    final(self).leases().leases(),
                    old(self).committed()[i].lease_id,
                    old(self).leases().granted_ttl(ttl_secs),
                    now,
                    r,
                ),
                None => {
                    &&& r matches Err(Error::TupleNotFound(id)) && id@ == tuple_id@
                    &&& final(self).leases() == old(self).leases()
                },
            },
    {
        match self.find_committed_by(None, Some(tuple_id)) {
            Some(i) => {
                let lease_id = self.committed[i].lease_id.clone();
                self.lease_manager.renew_at(lease_id.as_str(), ttl_secs, now)
            },
            None => Err(Error::TupleNotFound(tuple_id.to_owned())),
        }
    }

    /// Renew a tuple's lease now, by the wall clock.
    pub fn renew(&mut self, tuple_id: &str, ttl_secs: u64) -> (r: Result<LeaseRecord, Error>)
        ensures
            final(self).committed() == old(self).committed(),
            final(self).pending() == old(self).pending(),
            final(self).held() == old(self).held(),
            final(self).watches() == old(self).watches(),
            first_index(old(self).committed(), |v: TupleView| v.tuple_id == tuple_id@) is None ==> {
                &&& r matches Err(Error::TupleNotFound(id)) && id@ == tuple_id@
                &&& final(self).leases() == old(self).leases()
            },
            first_index(old(self).committed(), |v: TupleView| v.tuple_id == tuple_id@) matches Some(i) ==> exists|now: i64|
                #[trigger] crate::lease::renewal(
                    old(self).leases().leases(),
                    final(self).leases().leases(),
                    old(self).committed()[i].lease_id,
                    old(self).leases().granted_ttl(ttl_secs),
                    now,
                    r,
                ),
    {
        let now = now_millis();
        self.renew_at(tuple_id, ttl_secs, now)
    }
}

/// The tuples of transaction `t` in `s` after appending an entry of `t`
/// end with that entry's tuple.
proof fn lemma_of_txn_push(s: Seq<(Seq<char>, TupleView)>, t: Seq<char>, v: TupleView)
    ensures
        of_txn(s.push((t, v)), t) == of_txn(s, t).push(v),
{
    assert(s.push((t, v)).drop_last() =~= s);
}

/// No entry of `without_txn(s, t)` belongs to `t`, and every other entry
/// of `s` stays.
proof fn lemma_without_txn(s: Seq<(Seq<char>, TupleView)>, t: Seq<char>)
    ensures
        !touches(without_txn(s, t), t),
        forall|i: int| 0 <= i < s.len() && s[i].0 != t ==> without_txn(s, t).contains(#[trigger] s[i]),
    decreases s.len(),
{
    if s.len() > 0 {
        let p = s.drop_last();
        lemma_without_txn(p, t);
        assert forall|i: int| 0 <= i < s.len() && s[i].0 != t implies without_txn(s, t).contains(#[trigger] s[i]) by {
            if i < s.len() - 1 {
                assert(p[i] == s[i]);
                let j = choose|j: int| 0 <= j < without_txn(p, t).len() && without_txn(p, t)[j] == p[i];
                if s.last().0 != t {
                    assert(without_txn(s, t)[j] == s[i]);
                }
            } else {
                assert(without_txn(s, t).last() == s[i]);
            }
        }
        if s.last().0 != t {
            assert forall|i: int| 0 <= i < without_txn(s, t).len() implies (#[trigger] without_txn(s, t)[i]).0 != t by {
                if i < without_txn(p, t).len() {
                    assert(without_txn(s, t)[i] == without_txn(p, t)[i]);
                }
            }
        }
    }
}

/// Without a transaction, a read never sees uncommitted writes: what it
/// finds depends on the visible tuples alone.
pub proof fn law_uncommitted_writes_are_invisible(
    committed: Seq<TupleView>,
    pending_a: Seq<(Seq<char>, TupleView)>,
    pending_b: Seq<(Seq<char>, TupleView)>,
    template: Map<Seq<char>, String>,
)
    ensures
        read_result(committed, pending_a, template, None) == read_result(committed, pending_b, template, None),
{
}

/// Within its transaction, a write is seen by a read of a matching
/// template: the read answers from the transaction's own writes.
pub proof fn law_own_writes_are_visible(
    committed: Seq<TupleView>,
    pending: Seq<(Seq<char>, TupleView)>,
    template: Map<Seq<char>, String>,
    txn: Seq<char>,
    v: TupleView,
)
    requires
        tuple_matches(template, v),
    ensures
        read_result(committed, pending.push((txn, v)), template, Some(txn)) matches Some(found) && exists|i: int|
            0 <= i < pending.push((txn, v)).len() && #[trigger] pending.push((txn, v))[i] == (txn, found),
{
    let s = pending.push((txn, v));
    let p = |e: (Seq<char>, TupleView)| pending_matches(template, txn, e);
    assert(p(s[pending.len() as int]));
    lemma_first_index_some(s, p, pending.len() as int);
    let i = first_index(s, p)->0;
    assert(s[i].0 == txn);
}

/// A tuple taken under a transaction that then aborts is visible again.
pub proof fn law_abort_restores_taken_tuple(
    committed: Seq<TupleView>,
    held: Seq<(Seq<char>, TupleView)>,
    i: int,
    txn: Seq<char>,
)
    requires
        0 <= i < committed.len(),
    ensures
        (committed.remove(i) + of_txn(held.push((txn, committed[i])), txn)).contains(committed[i]),
{
    lemma_of_txn_push(held, txn, committed[i]);
    let c = committed.remove(i) + of_txn(held.push((txn, committed[i])), txn);
    assert(c[c.len() - 1] == committed[i]);
}

/// Dropping an entry of transaction `t` leaves the other transactions'
/// entries as they were.
proof fn lemma_without_txn_remove_own(s: Seq<(Seq<char>, TupleView)>, t: Seq<char>, i: int)
    requires
        0 <= i < s.len(),
        s[i].0 == t,
    ensures
        without_txn(s.remove(i), t) == without_txn(s, t),
    decreases s.len(),
{
    if i == s.len() - 1 {
        assert(s.remove(i) =~= s.drop_last());
    } else {
        let r = s.remove(i);
        assert(r.drop_last() =~= s.drop_last().remove(i));
        assert(r.last() == s.last());
        lemma_without_txn_remove_own(s.drop_last(), t, i);
    }
}

/// A new entry of transaction `t` leaves the other transactions' entries
/// as they were.
proof fn lemma_without_txn_push_own(s: Seq<(Seq<char>, TupleView)>, t: Seq<char>, v: TupleView)
    ensures
        without_txn(s.push((t, v)), t) == without_txn(s, t),
{
    assert(s.push((t, v)).drop_last() =~= s);
}

/// With nothing of transaction `t` in `s`, leaving out `t` leaves `s`.
proof fn lemma_without_absent_txn(s: Seq<(Seq<char>, TupleView)>, t: Seq<char>)
    requires
        of_txn(s, t).len() == 0,
    ensures
        without_txn(s, t) == s,
    decreases s.len(),
{
    if s.len() > 0 {
        assert(s.last().0 != t);
        lemma_without_absent_txn(s.drop_last(), t);
        assert(s.drop_last().push(s.last()) =~= s);
    }
}

/// Moving a visible tuple to the end of the held ones keeps the tuples.
proof fn lemma_hold_keeps_tuples(c: Seq<TupleView>, h: Seq<TupleView>, i: int)
    requires
        0 <= i < c.len(),
    ensures
        (c.remove(i) + h.push(c[i])).to_multiset() == (c + h).to_multiset(),
{
    broadcast use vstd::seq_lib::group_to_multiset_ensures, vstd::seq_lib::lemma_multiset_commutative;

    assert((c.remove(i) + h.push(c[i])).to_multiset() =~= c.remove(i).to_multiset().add(h.push(c[i]).to_multiset()));
    assert((c + h).to_multiset() =~= c.to_multiset().add(h.to_multiset()));
}

/// Across a run of operations under transaction `t` that started with
/// nothing of `t` buffered or held, the visible tuples together with those
/// `t` holds stay the starting visible tuples, and the other transactions'
/// entries stay as they were.
proof fn lemma_txn_run(run: Seq<SpaceManager>, t: Seq<char>, n: int)
    requires
        1 <= n <= run.len(),
        of_txn(run[0].held(), t).len() == 0,
        forall|k: int| 0 <= k < run.len() - 1 ==> txn_step(#[trigger] run[k], run[k + 1], t),
    ensures
        (run[n - 1].committed() + of_txn(run[n - 1].held(), t)).to_multiset() == run[0].committed().to_multiset(),
        without_txn(run[n - 1].pending(), t) == without_txn(run[0].pending(), t),
        without_txn(run[n - 1].held(), t) == without_txn(run[0].held(), t),
    decreases n,
{
    if n == 1 {
        assert(run[0].committed() + of_txn(run[0].held(), t) =~= run[0].committed());
    } else {
        lemma_txn_run(run, t, n - 1);
        let a = run[n - 2];
        let b = run[n - 1];
        assert(txn_step(run[n - 2], run[n - 2 + 1], t));
        assert(n - 2 + 1 == n - 1);
        reveal(txn_step);
        if b.committed() == a.committed() && b.held() == a.held() && exists|v: TupleView|
            b.pending() == #[trigger] a.pending().push((t, v)) {
            let v = choose|v: TupleView| b.pending() == #[trigger] a.pending().push((t, v));
            lemma_without_txn_push_own(a.pending(), t, v);
        } else if b.committed() == a.committed() && b.held() == a.held() && exists|i: int|
            0 <= i < a.pending().len() && a.pending()[i].0 == t && b.pending() == #[trigger] a.pending().remove(i) {
            let i = choose|i: int|
                0 <= i < a.pending().len() && a.pending()[i].0 == t && b.pending() == #[trigger] a.pending().remove(i);
            lemma_without_txn_remove_own(a.pending(), t, i);
        } else if b.pending() == a.pending() && exists|i: int|
            0 <= i < a.committed().len() && b.committed() == #[trigger] a.committed().remove(i) && b.held()
                == a.held().push((t, a.committed()[i])) {
            let i = choose|i: int|
                0 <= i < a.committed().len() && b.committed() == #[trigger] a.committed().remove(i) && b.held()
                    == a.held().push((t, a.committed()[i]));
            lemma_of_txn_push(a.held(), t, a.committed()[i]);
            lemma_without_txn_push_own(a.held(), t, a.committed()[i]);
            lemma_hold_keeps_tuples(a.committed(), of_txn(a.held(), t), i);
        }
    }
}

/// Aborting a transaction restores the visible tuples. Start from a state
/// in which transaction `t` has nothing buffered or held, run any sequence
/// of writes and takes under `t` (each state of `run` is what one such
/// operation made of the one before), then abort `t`: the visible store
/// holds exactly the tuples it held at the start (those `t` took come back
/// at its end), and every other transaction's buffered and held tuples are
/// as they were.
pub proof fn law_abort_restores_visible_tuples(run: Seq<SpaceManager>, end: SpaceManager, t: Seq<char>)
    requires
        run.len() > 0,
        of_txn(run[0].pending(), t).len() == 0,
        of_txn(run[0].held(), t).len() == 0,
        forall|k: int| 0 <= k < run.len() - 1 ==> txn_step(#[trigger] run[k], run[k + 1], t),
        aborted(run.last(), end, t),
    ensures
        end.committed().to_multiset() == run[0].committed().to_multiset(),
        end.pending() == run[0].pending(),
        end.held() == run[0].held(),
{
    lemma_txn_run(run, t, run.len() as int);
    lemma_without_absent_txn(run[0].pending(), t);
    lemma_without_absent_txn(run[0].held(), t);
}

/// A tuple written under a transaction that then commits is visible.
pub proof fn law_commit_publishes_writes(
    committed: Seq<TupleView>,
    pending: Seq<(Seq<char>, TupleView)>,
    txn: Seq<char>,
    v: TupleView,
)
    ensures
        (committed + of_txn(pending.push((txn, v)), txn)).contains(v),
{
    lemma_of_txn_push(pending, txn, v);
    let c = committed + of_txn(pending.push((txn, v)), txn);
    assert(c[c.len() - 1] == v);
}

/// Ending a transaction, by commit or abort, leaves nothing of it
/// buffered and every other transaction's entries in place.
pub proof fn law_finished_txn_leaves_no_trace(s: Seq<(Seq<char>, TupleView)>, txn: Seq<char>)
    ensures
        !touches(without_txn(s, txn), txn),
        forall|i: int| 0 <= i < s.len() && s[i].0 != txn ==> without_txn(s, txn).contains(#[trigger] s[i]),
{
    lemma_without_txn(s, txn);
}

/// A tuple written where nothing else matches a template is the one a
/// take of that template finds.
pub proof fn law_written_tuple_is_found(committed: Seq<TupleView>, template: Map<Seq<char>, String>, v: TupleView)
    requires
        forall|i: int| 0 <= i < committed.len() ==> !tuple_matches(template, #[trigger] committed[i]),
        tuple_matches(template, v),
    ensures
        first_index(committed.push(v), |t: TupleView| tuple_matches(template, t)) == Some(committed.len() as int),
{
    let s = committed.push(v);
    let p = |t: TupleView| tuple_matches(template, t);
    assert forall|j: int| 0 <= j < committed.len() implies !p(#[trigger] s[j]) by {
        assert(s[j] == committed[j]);
    }
    lemma_first_index(s, p, committed.len() as int);
}

} // verus!
