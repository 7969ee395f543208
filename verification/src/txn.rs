//! The TransactionMgr: a two-phase-commit coordinator. Participants enlist
//! by endpoint; commit runs prepare on all of them and commits only if every
//! one voted PREPARED (or NOTCHANGED); a single veto aborts everyone.
//!
//! The calls to participants are made by the caller: the manager decides
//! which calls to make and what the outcome of their votes is.
use vstd::prelude::*;

use crate::env::{concat, new_id, now_millis};
use crate::error::Error;
use crate::lease::{LeaseManager, LeaseReclaimed, LeaseRecord};
use crate::strmap::StrMap;
use crate::text::{is_prefix_of, strip_prefix};

verus! {

#[derive(Debug, Clone, Copy, PartialEq, Eq, Structural)]
pub enum TransactionState {
    Active,
    Voting,
    Prepared,
    Committed,
    Aborted,
}

#[derive(Debug, Clone, Copy, PartialEq, Eq, Structural)]
pub enum PrepareVote {
    Prepared,
    NotChanged,
    Aborted,
}

/// A participant registered via Enlist — holds the endpoint the TxnMgr
/// calls back during 2PC.
#[derive(Debug)]
pub struct ParticipantRecord {
    /// host:port of the participant's ParticipantService
    pub endpoint: String,
    /// monotonic counter; prevents stale rejoin
    pub crash_count: u64,
}

impl Clone for ParticipantRecord {
    fn clone(&self) -> (r: Self)
        ensures
            r == *self,
    {
        ParticipantRecord { endpoint: self.endpoint.clone(), crash_count: self.crash_count }
    }
}

/// One active or terminal transaction.
#[derive(Debug)]
pub struct TransactionRecord {
    pub txn_id: String,
    pub lease_id: String,
    pub state: TransactionState,
    pub participants: Vec<ParticipantRecord>,
    pub begun_at: i64,
}

/// The state is final: committed or aborted.
pub open spec fn is_terminal(s: TransactionState) -> bool {
    s == TransactionState::Committed || s == TransactionState::Aborted
}

/// The vote a wire value denotes: 0 is PREPARED, 1 NOTCHANGED, anything
/// else ABORTED.
pub open spec fn vote_of(v: i32) -> PrepareVote {
    if v == 0 {
        PrepareVote::Prepared
    } else if v == 1 {
        PrepareVote::NotChanged
    } else {
        PrepareVote::Aborted
    }
}

/// Convert proto PrepareVote i32 to core enum.
/// Fail safe: only explicitly recognized values map to a committable vote.
/// Unknown values (garbled wire data, newer proto enum variants) map to
/// Aborted — never default toward commit.
pub fn vote_from_i32(v: i32) -> (vote: PrepareVote)
    ensures
        vote == vote_of(v),
{
    match v {
        0 => PrepareVote::Prepared,
        1 => PrepareVote::NotChanged,
        _ => PrepareVote::Aborted,
    }
}

/// The transaction a lease is held for: the id after `txn:` in its
/// resource id, or none for a resource of another kind.
pub fn txn_of_lease(resource_id: &str) -> (txn_id: Option<String>)
    ensures
        txn_id is Some == is_prefix_of("txn:"@, resource_id@),
        txn_id matches Some(id) ==> id@ == resource_id@.subrange("txn:"@.len() as int, resource_id@.len() as int),
{
    match strip_prefix(resource_id, "txn:") {
        Some(rest) => Some(rest.to_owned()),
        None => None,
    }
}

/// The address a participant endpoint (`host:port`) is dialled at.
pub fn participant_uri(endpoint: &str) -> (uri: String)
    ensures
        uri@ == "http://"@ + endpoint@,
{
    concat("http://", endpoint)
}

/// The wire number of a vote, as a participant answers Prepare.
pub fn vote_to_i32(vote: PrepareVote) -> (v: i32)
    ensures
        vote_of(v) == vote,
        v == match vote {
            PrepareVote::Prepared => 0i32,
            PrepareVote::NotChanged => 1i32,
            PrepareVote::Aborted => 2i32,
        },
{
    match vote {
        PrepareVote::Prepared => 0,
        PrepareVote::NotChanged => 1,
        PrepareVote::Aborted => 2,
    }
}

/// The wire number of a transaction state.
pub fn state_to_proto(s: &TransactionState) -> (n: i32)
    ensures
        n == match *s {
            TransactionState::Active => 0i32,
            TransactionState::Voting => 1i32,
            TransactionState::Prepared => 2i32,
            TransactionState::Committed => 3i32,
            TransactionState::Aborted => 4i32,
        },
{
    match s {
        TransactionState::Active => 0,
        TransactionState::Voting => 1,
        TransactionState::Prepared => 2,
        TransactionState::Committed => 3,
        TransactionState::Aborted => 4,
    }
}

/// What a commit asks of the caller next.
#[derive(Debug)]
pub enum CommitStep {
    /// Nothing: the transaction is committed.
    Done,
    /// Send PrepareAndCommit to the only participant, then report its vote
    /// to [`TxnManager::commit_single`].
    PrepareAndCommit(String),
    /// Send Prepare to every participant, then report the votes to
    /// [`TxnManager::commit_votes`].
    Prepare(Vec<String>),
}

/// How the prepare phase came out.
#[derive(Debug)]
pub enum CommitDecision {
    /// Every vote was PREPARED or NOTCHANGED: send Commit to these
    /// endpoints (the PREPARED voters), then call
    /// [`TxnManager::commit_finish`].
    Commit(Vec<String>),
    /// Some participant voted ABORTED or could not be reached: the
    /// transaction is aborted; send Abort to these endpoints (every
    /// participant).
    Abort(Vec<String>),
}

/// `eps` lists the endpoints of the participants `ps`, in order.
pub open spec fn lists_endpoints(eps: Seq<String>, ps: Seq<ParticipantRecord>) -> bool {
    eps.len() == ps.len() && forall|j: int| 0 <= j < ps.len() ==> (#[trigger] eps[j])@ == ps[j].endpoint@
}

/// A vote that lets the transaction commit.
pub open spec fn committable(v: Option<PrepareVote>) -> bool {
    v == Some(PrepareVote::Prepared) || v == Some(PrepareVote::NotChanged)
}

/// The endpoints that voted PREPARED, in order.
pub open spec fn prepared_voters(results: Seq<(String, Option<PrepareVote>)>) -> Seq<String>
    decreases results.len(),
{
    if results.len() == 0 {
        Seq::empty()
    } else {
        let rest = prepared_voters(results.drop_last());
        if results.last().1 == Some(PrepareVote::Prepared) {
            rest.push(results.last().0)
        } else {
            rest
        }
    }
}

/// Some vote keeps the transaction from committing: ABORTED, or no vote
/// at all because the participant could not be reached.
pub open spec fn vetoed(results: Seq<(String, Option<PrepareVote>)>) -> bool {
    exists|i: int| 0 <= i < results.len() && !committable(#[trigger] results[i].1)
}

/// `after` is `before` with the transaction `id` moved to `state`, every
/// other field and every other transaction unchanged.
pub open spec fn moved_to(
    before: Map<Seq<char>, TransactionRecord>,
    after: Map<Seq<char>, TransactionRecord>,
    id: Seq<char>,
    state: TransactionState,
) -> bool {
    &&& before.contains_key(id)
    &&& after.dom() == before.dom()
    &&& forall|k: Seq<char>| #[trigger] after.contains_key(k) && k != id ==> after[k] == before[k]
    &&& after[id].state == state
    &&& after[id].txn_id == before[id].txn_id
    &&& after[id].lease_id == before[id].lease_id
    &&& after[id].participants@ == before[id].participants@
    &&& after[id].begun_at == before[id].begun_at
}

/// What aborting transaction `id` on request does: an unknown
/// transaction is refused, a committed one cannot be aborted, aborting an
/// aborted one again changes nothing, and a live one is aborted, its lease
/// cancelled, and all its participants are to be told.
pub open spec fn abort_outcome(before: TxnManager, after: TxnManager, txn: Seq<char>, r: Result<Vec<String>, Error>) -> bool {
    &&& !before.txns().contains_key(txn) ==> {
        &&& r matches Err(Error::TransactionNotFound(id)) && id@ == txn
        &&& after.txns() == before.txns()
        &&& after.leases() == before.leases()
    }
    &&& before.txns().contains_key(txn) && before.txns()[txn].state == TransactionState::Committed ==> {
        &&& r matches Err(Error::TransactionTerminal(id)) && id@ == txn
        &&& after.txns() == before.txns()
        &&& after.leases() == before.leases()
    }
    &&& before.txns().contains_key(txn) && before.txns()[txn].state == TransactionState::Aborted ==> {
        &&& r matches Ok(eps) && eps@ == Seq::<String>::empty()
        &&& after.txns() == before.txns()
        &&& after.leases() == before.leases()
    }
    &&& before.txns().contains_key(txn) && !is_terminal(before.txns()[txn].state) ==> {
        &&& r matches Ok(eps) && lists_endpoints(eps@, before.txns()[txn].participants@)
        &&& moved_to(before.txns(), after.txns(), txn, TransactionState::Aborted)
        &&& crate::lease::cancellation(before.leases(), after.leases(), before.txns()[txn].lease_id@)
    }
}

/// What starting to commit transaction `id` does: an unknown transaction
/// is refused, committing a committed one again changes nothing, an aborted
/// one cannot be committed, one without participants commits at once, and
/// otherwise the transaction moves to voting and its participants are to
/// be asked to prepare.
pub open spec fn commit_start_outcome(before: TxnManager, after: TxnManager, txn: Seq<char>, r: Result<CommitStep, Error>) -> bool {
    &&& !before.txns().contains_key(txn) ==> {
        &&& r matches Err(Error::TransactionNotFound(id)) && id@ == txn
        &&& after.txns() == before.txns()
        &&& after.leases() == before.leases()
    }
    &&& before.txns().contains_key(txn) ==> {
        let t = before.txns()[txn];
        if t.state == TransactionState::Committed {
            &&& r matches Ok(CommitStep::Done)
            &&& after.txns() == before.txns()
            &&& after.leases() == before.leases()
        } else if t.state == TransactionState::Aborted {
            &&& r matches Err(Error::TransactionAborted(id)) && id@ == txn
            &&& after.txns() == before.txns()
            &&& after.leases() == before.leases()
        } else if t.participants@.len() == 0 {
            &&& r matches Ok(CommitStep::Done)
            &&& moved_to(before.txns(), after.txns(), txn, TransactionState::Committed)
            &&& crate::lease::cancellation(before.leases(), after.leases(), t.lease_id@)
        } else if t.participants@.len() == 1 {
            &&& r matches Ok(CommitStep::PrepareAndCommit(ep)) && ep@ == t.participants@[0].endpoint@
            &&& moved_to(before.txns(), after.txns(), txn, TransactionState::Voting)
            &&& after.leases() == before.leases()
        } else {
            &&& r matches Ok(CommitStep::Prepare(eps)) && lists_endpoints(eps@, t.participants@)
            &&& moved_to(before.txns(), after.txns(), txn, TransactionState::Voting)
            &&& after.leases() == before.leases()
        }
    }
}

/// Coordinates transactions: their records and the leases bounding them.
pub struct TxnManager {
    txns: StrMap<TransactionRecord>,
    lease_manager: LeaseManager,
}

impl TxnManager {
    /// The transactions, by id.
    pub closed spec fn txns(&self) -> Map<Seq<char>, TransactionRecord> {
        self.txns@
    }

    /// The lease manager granting transaction leases.
    pub closed spec fn leases(&self) -> LeaseManager {
        self.lease_manager
    }

    /// A coordinator with no transactions.
    pub fn new(lease_manager: LeaseManager) -> (m: Self)
        ensures
            m.txns() == Map::<Seq<char>, TransactionRecord>::empty(),
            m.leases() == lease_manager,
    {
        TxnManager { txns: StrMap::new(), lease_manager }
    }

    /// The lease manager, for lease renewal, cancellation and reaping.
    pub fn lease_manager(&mut self) -> (m: &mut LeaseManager)
        ensures
            *m == old(self).leases(),
            final(self).leases() == *final(m),
            final(self).txns() == old(self).txns(),
    {
        &mut self.lease_manager
    }

    /// Store `rec` under `txn_id`.
    fn store(&mut self, txn_id: &str, rec: TransactionRecord)
        ensures
            final(self).txns() == old(self).txns().insert(txn_id@, rec),
            final(self).leases() == old(self).leases(),
    {
        self.txns.insert(txn_id.to_owned(), rec);
    }

    /// Take the record of `txn_id` out, if there is one.
    fn take(&mut self, txn_id: &str) -> (rec: Option<TransactionRecord>)
        ensures
            rec is Some == old(self).txns().contains_key(txn_id@),
            rec matches Some(r) ==> r == old(self).txns()[txn_id@],
            final(self).txns() == old(self).txns().remove(txn_id@),
            final(self).leases() == old(self).leases(),
    {
        self.txns.remove(txn_id)
    }

    /// Set the state of the transaction held in `rec`, store it back under
    /// `txn_id`, and list its participants' endpoints.
    fn put_state(&mut self, txn_id: &str, rec: TransactionRecord, state: TransactionState) -> (eps: Vec<String>)
        ensures
            final(self).txns() == old(self).txns().insert(
                txn_id@,
                TransactionRecord { state, ..rec },
            ),
            final(self).leases() == old(self).leases(),
            lists_endpoints(eps@, rec.participants@),
    {
        let mut eps: Vec<String> = Vec::new();
        let mut i: usize = 0;
        while i < rec.participants.len()
            invariant
                i <= rec.participants@.len(),
                eps@.len() == i,
                forall|j: int| 0 <= j < i ==> (#[trigger] eps@[j])@ == rec.participants@[j].endpoint@,
            decreases rec.participants@.len() - i,
        {
            eps.push(rec.participants[i].endpoint.clone());
            i = i + 1;
        }
        let updated = TransactionRecord { state, ..rec };
        self.store(txn_id, updated);
        eps
    }

    /// Begin a transaction with id `txn_id` at instant `now`, leased under
    /// `lease_id` on resource `txn:<txn id>`.
    pub fn begin_at(&mut self, ttl_secs: u64, txn_id: String, lease_id: String, now: i64) -> (r: (
        String,
        LeaseRecord,
    ))
        ensures
            r.0 == txn_id,
            r.1.lease_id == lease_id,
            r.1.resource_id@ == "txn:"@ + txn_id@,
            r.1.granted_at == now,
            r.1.ttl_seconds == old(self).leases().granted_ttl(ttl_secs),
            r.1.expires_at == crate::lease::expiry(now, r.1.ttl_seconds),
            final(self).leases().leases() == old(self).leases().leases().insert(lease_id@, r.1),
            final(self).leases().config() == old(self).leases().config(),
            final(self).leases().pending_reclaims() == old(self).leases().pending_reclaims(),
            final(self).txns().dom() == old(self).txns().dom().insert(txn_id@),
            forall|k: Seq<char>| #[trigger] final(self).txns().contains_key(k) && k != txn_id@ ==> final(self).txns()[k] == old(self).txns()[k],
            final(self).txns()[txn_id@].txn_id == txn_id,
            final(self).txns()[txn_id@].lease_id == lease_id,
            final(self).txns()[txn_id@].state == TransactionState::Active,
            final(self).txns()[txn_id@].participants@ == Seq::<ParticipantRecord>::empty(),
            final(self).txns()[txn_id@].begun_at == now,
    {
        let resource_id = concat("txn:", txn_id.as_str());
        let lease = self.lease_manager.grant_at(resource_id.as_str(), ttl_secs, lease_id, now);
        let record = TransactionRecord {
            txn_id: txn_id.clone(),
            lease_id: lease.lease_id.clone(),
            state: TransactionState::Active,
            participants: Vec::new(),
            begun_at: now,
        };
        self.store(txn_id.as_str(), record);
        proof {
            assert(self.txns().dom() =~= old(self).txns().dom().insert(txn_id@));
        }
        (txn_id, lease)
    }

    /// Begin a transaction now, under fresh ids.
    pub fn begin(&mut self, ttl_secs: u64) -> (r: (String, LeaseRecord))
        ensures
            r.1.resource_id@ == "txn:"@ + r.0@,
            r.1.ttl_seconds == old(self).leases().granted_ttl(ttl_secs),
            final(self).leases().leases() == old(self).leases().leases().insert(r.1.lease_id@, r.1),
            final(self).txns().dom() == old(self).txns().dom().insert(r.0@),
            forall|k: Seq<char>| #[trigger] final(self).txns().contains_key(k) && k != r.0@ ==> final(self).txns()[k] == old(self).txns()[k],
            final(self).txns()[r.0@].lease_id == r.1.lease_id,
            final(self).txns()[r.0@].state == TransactionState::Active,
            final(self).txns()[r.0@].participants@ == Seq::<ParticipantRecord>::empty(),
    {
        let txn_id = new_id();
        let lease_id = new_id();
        let now = now_millis();
        self.begin_at(ttl_secs, txn_id, lease_id, now)
    }

    /// Take the record of `txn_id` out and put it back unchanged.
    proof fn lemma_restore(before: Map<Seq<char>, TransactionRecord>, id: Seq<char>)
        requires
            before.contains_key(id),
        ensures
            before.remove(id).insert(id, before[id]) == before,
    {
        assert(before.remove(id).insert(id, before[id]) =~= before);
    }

    /// Enlist a participant at `endpoint` in the active transaction `txn_id`.
    pub fn enlist(&mut self, txn_id: &str, endpoint: String, crash_count: u64) -> (r: Result<(), Error>)
        ensures
            final(self).leases() == old(self).leases(),
            !old(self).txns().contains_key(txn_id@) ==> {
                &&& r matches Err(Error::TransactionNotFound(id)) && id@ == txn_id@
                &&& final(self).txns() == old(self).txns()
            },
            old(self).txns().contains_key(txn_id@) && old(self).txns()[txn_id@].state != TransactionState::Active ==> {
                &&& r matches Err(Error::TransactionTerminal(id)) && id@ == txn_id@
                &&& final(self).txns() == old(self).txns()
            },
            old(self).txns().contains_key(txn_id@) && old(self).txns()[txn_id@].state == TransactionState::Active ==> {
                let before = old(self).txns()[txn_id@];
                &&& r is Ok
                &&& final(self).txns().dom() == old(self).txns().dom()
                &&& forall|k: Seq<char>| #[trigger] final(self).txns().contains_key(k) && k != txn_id@
                    ==> final(self).txns()[k] == old(self).txns()[k]
                &&& final(self).txns()[txn_id@].state == before.state
                &&& final(self).txns()[txn_id@].txn_id == before.txn_id
                &&& final(self).txns()[txn_id@].lease_id == before.lease_id
                &&& final(self).txns()[txn_id@].begun_at == before.begun_at
                &&& final(self).txns()[txn_id@].participants@ == before.participants@.push(
                    ParticipantRecord { endpoint, crash_count },
                )
            },
    {
        let ghost before = self.txns@;
        let mut rec = match self.take(txn_id) {
            Some(rec) => rec,
            None => {
                return Err(Error::TransactionNotFound(txn_id.to_owned()));
            },
        };
        if rec.state != TransactionState::Active {
            self.store(txn_id, rec);
            proof {
                Self::lemma_restore(before, txn_id@);
            }
            return Err(Error::TransactionTerminal(txn_id.to_owned()));
        }
        rec.participants.push(ParticipantRecord { endpoint, crash_count });
        self.store(txn_id, rec);
        proof {
            assert(self.txns@.dom() =~= before.dom());
        }
        Ok(())
    }

    /// The state of transaction `txn_id`.
    pub fn get_state(&self, txn_id: &str) -> (r: Result<TransactionState, Error>)
        ensures
            !self.txns().contains_key(txn_id@) ==> (r matches Err(Error::TransactionNotFound(id)) && id@ == txn_id@),
            self.txns().contains_key(txn_id@) ==> r == Ok::<TransactionState, Error>(self.txns()[txn_id@].state),
    {
        match self.txns.get(txn_id) {
            Some(rec) => Ok(rec.state),
            None => Err(Error::TransactionNotFound(txn_id.to_owned())),
        }
    }

    /// Abort a transaction due to lease expiry. Does not cancel the lease
    /// (it's already expired). Returns the participants to send Abort to:
    /// none when the transaction is unknown or already final.
    pub fn abort_expired(&mut self, txn_id: &str) -> (eps: Vec<String>)
        ensures
            final(self).leases() == old(self).leases(),
            !old(self).txns().contains_key(txn_id@) || is_terminal(old(self).txns()[txn_id@].state) ==> {
                &&& eps@ == Seq::<String>::empty()
                &&& final(self).txns() == old(self).txns()
            },
            old(self).txns().contains_key(txn_id@) && !is_terminal(old(self).txns()[txn_id@].state) ==> {
                &&& moved_to(old(self).txns(), final(self).txns(), txn_id@, TransactionState::Aborted)
                &&& lists_endpoints(eps@, old(self).txns()[txn_id@].participants@)
            },
    {
        let ghost before = self.txns@;
        let rec = match self.take(txn_id) {
            Some(rec) => rec,
            None => {
                return Vec::new();
            },
        };
        if rec.state == TransactionState::Committed || rec.state == TransactionState::Aborted {
            self.store(txn_id, rec);
            proof {
                Self::lemma_restore(before, txn_id@);
            }
            return Vec::new();
        }
        let eps = self.put_state(txn_id, rec, TransactionState::Aborted);
        proof {
            assert(self.txns@.dom() =~= before.dom());
        }
        eps
    }

    /// The cascade of a reclaimed lease of this manager: a `txn:<id>`
    /// lease aborts transaction `<id>` as [`TxnManager::abort_expired`]
    /// does, returning the participants to send Abort to; any other lease
    /// changes nothing.
    pub fn on_lease_reclaimed(&mut self, reclaimed: &LeaseReclaimed) -> (eps: Vec<String>)
        ensures
            final(self).leases() == old(self).leases(),
            ({
                let rid = reclaimed.record.resource_id@;
                if is_prefix_of("txn:"@, rid) {
                    let id = rid.subrange("txn:"@.len() as int, rid.len() as int);
                    &&& !old(self).txns().contains_key(id) || is_terminal(old(self).txns()[id].state) ==> {
                        &&& eps@ == Seq::<String>::empty()
                        &&& final(self).txns() == old(self).txns()
                    }
                    &&& old(self).txns().contains_key(id) && !is_terminal(old(self).txns()[id].state) ==> {
                        &&& moved_to(old(self).txns(), final(self).txns(), id, TransactionState::Aborted)
                        &&& lists_endpoints(eps@, old(self).txns()[id].participants@)
                    }
                } else {
                    &&& eps@ == Seq::<String>::empty()
                    &&& final(self).txns() == old(self).txns()
                }
            }),
    {
        match txn_of_lease(reclaimed.record.resource_id.as_str()) {
            Some(txn_id) => self.abort_expired(txn_id.as_str()),
            None => Vec::new(),
        }
    }

    /// Abort transaction `txn_id` on request. Aborting twice is harmless; a
    /// committed transaction cannot be aborted. Returns the participants to
    /// send Abort to.
    pub fn abort(&mut self, txn_id: &str) -> (r: Result<Vec<String>, Error>)
        ensures
            abort_outcome(*old(self), *final(self), txn_id@, r),
    {
        let ghost before = self.txns@;
        let rec = match self.take(txn_id) {
            Some(rec) => rec,
            None => {
                proof {
                    assert(self.txns() =~= old(self).txns());
                }
                return Err(Error::TransactionNotFound(txn_id.to_owned()));
            },
        };
        if rec.state == TransactionState::Committed || rec.state == TransactionState::Aborted {
            let committed = rec.state == TransactionState::Committed;
            self.store(txn_id, rec);
            proof {
                Self::lemma_restore(before, txn_id@);
            }
            if committed {
                return Err(Error::TransactionTerminal(txn_id.to_owned()));
            }
            return Ok(Vec::new());
        }
        let lease_id = rec.lease_id.clone();
        let eps = self.put_state(txn_id, rec, TransactionState::Aborted);
        let _ = self.lease_manager.cancel(lease_id.as_str());
        proof {
            assert(self.txns@.dom() =~= before.dom());
        }
        Ok(eps)
    }

    /// Start committing transaction `txn_id`: decide what to ask of the
    /// participants. Committing twice is harmless; an aborted transaction
    /// cannot be committed. With no participants the transaction commits at
    /// once; otherwise it moves to voting.
    pub fn commit_begin(&mut self, txn_id: &str) -> (r: Result<CommitStep, Error>)
        ensures
            commit_start_outcome(*old(self), *final(self), txn_id@, r),
    {
        let ghost before = self.txns@;
        let rec = match self.take(txn_id) {
            Some(rec) => rec,
            None => {
                proof {
                    assert(self.txns() =~= old(self).txns());
                }
                return Err(Error::TransactionNotFound(txn_id.to_owned()));
            },
        };
        if rec.state == TransactionState::Committed || rec.state == TransactionState::Aborted {
            let committed = rec.state == TransactionState::Committed;
            self.store(txn_id, rec);
            proof {
                Self::lemma_restore(before, txn_id@);
            }
            if committed {
                return Ok(CommitStep::Done);
            }
            return Err(Error::TransactionAborted(txn_id.to_owned()));
        }
        let n = rec.participants.len();
        if n == 0 {
            let lease_id = rec.lease_id.clone();
            let _ = self.put_state(txn_id, rec, TransactionState::Committed);
            let _ = self.lease_manager.cancel(lease_id.as_str());
            proof {
                assert(self.txns@.dom() =~= before.dom());
            }
            return Ok(CommitStep::Done);
        }
        let eps = self.put_state(txn_id, rec, TransactionState::Voting);
        proof {
            assert(self.txns@.dom() =~= before.dom());
        }
        if n == 1 {
            let mut eps = eps;
            let ep = eps.remove(0);
            Ok(CommitStep::PrepareAndCommit(ep))
        } else {
            Ok(CommitStep::Prepare(eps))
        }
    }

    /// Record the single participant's PrepareAndCommit vote (`None` when
    /// the call failed): PREPARED or NOTCHANGED commits, anything else
    /// aborts. Either way the transaction's lease is cancelled.
    pub fn commit_single(&mut self, txn_id: &str, vote: Option<PrepareVote>) -> (r: Result<(), Error>)
        ensures
            !old(self).txns().contains_key(txn_id@) ==> {
                &&& r matches Err(Error::TransactionNotFound(id)) && id@ == txn_id@
                &&& final(self).txns() == old(self).txns()
                &&& final(self).leases() == old(self).leases()
            },
            old(self).txns().contains_key(txn_id@) ==> {
                &&& crate::lease::cancellation(old(self).leases(), final(self).leases(), old(self).txns()[txn_id@].lease_id@)
                &&& if committable(vote) {
                    &&& r is Ok
                    &&& moved_to(old(self).txns(), final(self).txns(), txn_id@, TransactionState::Committed)
                } else {
                    &&& r matches Err(Error::TransactionAborted(id)) && id@ == txn_id@
                    &&& moved_to(old(self).txns(), final(self).txns(), txn_id@, TransactionState::Aborted)
                }
            },
    {
        let ghost before = self.txns@;
        let rec = match self.take(txn_id) {
            Some(rec) => rec,
            None => {
                return Err(Error::TransactionNotFound(txn_id.to_owned()));
            },
        };
        let lease_id = rec.lease_id.clone();
        let ok = match vote {
            Some(PrepareVote::Prepared) | Some(PrepareVote::NotChanged) => true,
            _ => false,
        };
        let state = if ok { TransactionState::Committed } else { TransactionState::Aborted };
        let _ = self.put_state(txn_id, rec, state);
        let _ = self.lease_manager.cancel(lease_id.as_str());
        proof {
            assert(self.txns@.dom() =~= before.dom());
        }
        if ok {
            Ok(())
        } else {
            Err(Error::TransactionAborted(txn_id.to_owned()))
        }
    }

    /// Record the prepare votes (`None` for a participant that could not be
    /// reached). A single veto aborts the transaction: its lease is
    /// cancelled and every participant is to be sent Abort. Otherwise the
    /// transaction is prepared and only the PREPARED voters are to be sent
    /// Commit; NOTCHANGED voters are skipped.
    pub fn commit_votes(&mut self, txn_id: &str, results: &Vec<(String, Option<PrepareVote>)>) -> (r: Result<
        CommitDecision,
        Error,
    >)
        ensures
            !old(self).txns().contains_key(txn_id@) ==> {
                &&& r matches Err(Error::TransactionNotFound(id)) && id@ == txn_id@
                &&& final(self).txns() == old(self).txns()
                &&& final(self).leases() == old(self).leases()
            },
            old(self).txns().contains_key(txn_id@) && vetoed(results@) ==> {
                &&& r matches Ok(CommitDecision::Abort(eps)) && lists_endpoints(eps@, old(self).txns()[txn_id@].participants@)
                &&& moved_to(old(self).txns(), final(self).txns(), txn_id@, TransactionState::Aborted)
                &&& crate::lease::cancellation(old(self).leases(), final(self).leases(), old(self).txns()[txn_id@].lease_id@)
            },
            old(self).txns().contains_key(txn_id@) && !vetoed(results@) ==> {
                &&& r matches Ok(CommitDecision::Commit(eps)) && eps@ == prepared_voters(results@)
                &&& moved_to(old(self).txns(), final(self).txns(), txn_id@, TransactionState::Prepared)
                &&& final(self).leases() == old(self).leases()
            },
    {
        let ghost before = self.txns@;
        let rec = match self.take(txn_id) {
            Some(rec) => rec,
            None => {
                return Err(Error::TransactionNotFound(txn_id.to_owned()));
            },
        };
        let mut prepared: Vec<String> = Vec::new();
        let mut i: usize = 0;
        while i < results.len()
            invariant
                i <= results@.len(),
                prepared@ == prepared_voters(results@.take(i as int)),
                forall|j: int| 0 <= j < i ==> committable(#[trigger] results@[j].1),
                before == old(self).txns(),
                before.contains_key(txn_id@),
                self.txns() == before.remove(txn_id@),
                rec == before[txn_id@],
                self.leases() == old(self).leases(),
            decreases results@.len() - i,
        {
            let ok = match results[i].1 {
                Some(PrepareVote::Prepared) | Some(PrepareVote::NotChanged) => true,
                _ => false,
            };
            if !ok {
                let lease_id = rec.lease_id.clone();
                let eps = self.put_state(txn_id, rec, TransactionState::Aborted);
                let _ = self.lease_manager.cancel(lease_id.as_str());
                proof {
                    assert(self.txns@.dom() =~= before.dom());
                    assert(!committable(results@[i as int].1));
                    assert(vetoed(results@));
                }
                return Ok(CommitDecision::Abort(eps));
            }
            proof {
                assert(results@.take(i + 1).drop_last() =~= results@.take(i as int));
            }
            if results[i].1 == Some(PrepareVote::Prepared) {
                prepared.push(results[i].0.clone());
            }
            i = i + 1;
        }
        proof {
            assert(results@.take(results@.len() as int) =~= results@);
            assert(!vetoed(results@));
        }
        let _ = self.put_state(txn_id, rec, TransactionState::Prepared);
        proof {
            assert(self.txns@.dom() =~= before.dom());
        }
        Ok(CommitDecision::Commit(prepared))
    }

    /// Finish a commit after the commit phase: the transaction is committed
    /// and its lease cancelled. Commit-phase failures do not undo this —
    /// once past prepare, the transaction is committed.
    pub fn commit_finish(&mut self, txn_id: &str) -> (r: Result<(), Error>)
        ensures
            !old(self).txns().contains_key(txn_id@) ==> {
                &&& r matches Err(Error::TransactionNotFound(id)) && id@ == txn_id@
                &&& final(self).txns() == old(self).txns()
                &&& final(self).leases() == old(self).leases()
            },
            old(self).txns().contains_key(txn_id@) ==> {
                &&& r is Ok
                &&& moved_to(old(self).txns(), final(self).txns(), txn_id@, TransactionState::Committed)
                &&& crate::lease::cancellation(old(self).leases(), final(self).leases(), old(self).txns()[txn_id@].lease_id@)
            },
    {
        let ghost before = self.txns@;
        let rec = match self.take(txn_id) {
            Some(rec) => rec,
            None => {
                return Err(Error::TransactionNotFound(txn_id.to_owned()));
            },
        };
        let lease_id = rec.lease_id.clone();
        let _ = self.put_state(txn_id, rec, TransactionState::Committed);
        let _ = self.lease_manager.cancel(lease_id.as_str());
        proof {
            assert(self.txns@.dom() =~= before.dom());
        }
        Ok(())
    }
}

/// A wire vote lets a transaction commit only when it is one of the two
/// recognized committable values; garbled or unknown values never do.
pub proof fn law_unknown_votes_never_commit(v: i32)
    ensures
        committable(Some(vote_of(v))) <==> (v == 0 || v == 1),
{
}

/// A participant that could not be reached vetoes the commit, and so does
/// one voting ABORTED.
pub proof fn law_missing_or_aborted_vote_vetoes(results: Seq<(String, Option<PrepareVote>)>, i: int)
    requires
        0 <= i < results.len(),
        results[i].1 is None || results[i].1 == Some(PrepareVote::Aborted),
    ensures
        vetoed(results),
{
    assert(!committable(results[i].1));
}

/// `endpoint` voted PREPARED in `results`.
pub open spec fn voted_prepared(results: Seq<(String, Option<PrepareVote>)>, endpoint: String) -> bool {
    exists|i: int| 0 <= i < results.len() && results[i].1 == Some(PrepareVote::Prepared) && #[trigger] results[i].0 == endpoint
}

/// Only PREPARED voters are sent Commit: NOTCHANGED voters are skipped,
/// and every endpoint told to commit voted PREPARED.
pub proof fn law_only_prepared_voters_commit(results: Seq<(String, Option<PrepareVote>)>)
    ensures
        prepared_voters(results).len() <= results.len(),
        forall|k: int| 0 <= k < prepared_voters(results).len() ==> voted_prepared(results, #[trigger] prepared_voters(results)[k]),
    decreases results.len(),
{
    if results.len() > 0 {
        let rest = results.drop_last();
        law_only_prepared_voters_commit(rest);
        assert forall|k: int| 0 <= k < prepared_voters(results).len() implies voted_prepared(results, #[trigger] prepared_voters(results)[k]) by {
            if k < prepared_voters(rest).len() {
                assert(prepared_voters(results)[k] == prepared_voters(rest)[k]);
                assert(voted_prepared(rest, prepared_voters(rest)[k]));
                let i = choose|i: int|
                    0 <= i < rest.len() && rest[i].1 == Some(PrepareVote::Prepared) && #[trigger] rest[i].0 == prepared_voters(rest)[k];
                assert(results[i] == rest[i]);
            } else {
                assert(results[results.len() - 1] == results.last());
            }
        }
    }
}

/// Committed and aborted are final: aborting a committed transaction is
/// refused and starting to commit an aborted one is refused, while
/// repeating the step that ended it is harmless; neither changes anything.
pub proof fn law_final_states_are_absorbing(
    before: TxnManager,
    txn: Seq<char>,
    after_abort: TxnManager,
    abort_result: Result<Vec<String>, Error>,
    after_commit: TxnManager,
    commit_result: Result<CommitStep, Error>,
)
    requires
        before.txns().contains_key(txn),
        is_terminal(before.txns()[txn].state),
        abort_outcome(before, after_abort, txn, abort_result),
        commit_start_outcome(before, after_commit, txn, commit_result),
    ensures
        after_abort.txns() == before.txns(),
        after_commit.txns() == before.txns(),
        after_abort.leases() == before.leases(),
        after_commit.leases() == before.leases(),
        before.txns()[txn].state == TransactionState::Committed ==> abort_result is Err && commit_result matches Ok(
            CommitStep::Done,
        ),
        before.txns()[txn].state == TransactionState::Aborted ==> commit_result is Err && (abort_result matches Ok(
            eps) && eps@.len() == 0),
{
}


/// Whether a vote is PREPARED.
pub open spec fn is_prepared_vote(r: (String, Option<PrepareVote>)) -> bool {
    r.1 == Some(PrepareVote::Prepared)
}

/// Every participant that voted PREPARED is told to commit, and only
/// those: the commit list names each PREPARED voter, each name in it is
/// one that voted PREPARED, and it has one entry per PREPARED vote.
pub proof fn law_every_prepared_voter_commits(results: Seq<(String, Option<PrepareVote>)>)
    ensures
        forall|i: int|
            0 <= i < results.len() && is_prepared_vote(results[i]) ==> prepared_voters(results).contains(
                #[trigger] results[i].0,
            ),
        forall|j: int|
            0 <= j < prepared_voters(results).len() ==> exists|i: int|
                0 <= i < results.len() && is_prepared_vote(results[i]) && results[i].0 == #[trigger] prepared_voters(
                    results,
                )[j],
        prepared_voters(results).len() == results.filter(|r: (String, Option<PrepareVote>)| is_prepared_vote(r)).len(),
    decreases results.len(),
{
    let pred = |r: (String, Option<PrepareVote>)| is_prepared_vote(r);
    if results.len() > 0 {
        let rest = results.drop_last();
        let x = results.last();
        law_every_prepared_voter_commits(rest);
        assert(rest.push(x) =~= results);
        crate::strmap::lemma_filter_push(rest, pred, x);
        let pv = prepared_voters(results);
        let pr = prepared_voters(rest);
        assert forall|i: int| 0 <= i < results.len() && is_prepared_vote(results[i]) implies pv.contains(
            #[trigger] results[i].0,
        ) by {
            if i < results.len() - 1 {
                assert(rest[i] == results[i]);
                assert(pr.contains(rest[i].0));
                let k = choose|k: int| 0 <= k < pr.len() && pr[k] == rest[i].0;
                assert(pv[k] == pr[k]);
            } else {
                assert(pv[pv.len() - 1] == x.0);
            }
        }
        assert forall|j: int| 0 <= j < pv.len() implies exists|i: int|
            0 <= i < results.len() && is_prepared_vote(results[i]) && results[i].0 == #[trigger] pv[j] by {
            if j < pr.len() {
                assert(pv[j] == pr[j]);
                let i = choose|i: int| 0 <= i < rest.len() && is_prepared_vote(rest[i]) && rest[i].0 == #[trigger] pr[j];
                assert(results[i] == rest[i]);
            } else {
                assert(results[results.len() - 1] == x);
            }
        }
    } else {
        assert(results.filter(pred) =~= Seq::<(String, Option<PrepareVote>)>::empty());
    }
}

} // verus!
