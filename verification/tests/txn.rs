use coordin8::error::Error;
use coordin8::lease::{LeaseConfig, LeaseManager, LeaseReclaimed, ReclaimReason};
use coordin8::txn::{state_to_proto, vote_from_i32, CommitDecision, CommitStep, PrepareVote, TransactionState, TxnManager};
use coordin8::txn::{participant_uri, txn_of_lease, vote_to_i32};

fn manager() -> TxnManager {
    TxnManager::new(LeaseManager::new(LeaseConfig::default()))
}

fn begin(m: &mut TxnManager, id: &str) -> String {
    let (txn_id, lease) = m.begin_at(60, id.to_string(), format!("lease-{id}"), 0);
    assert_eq!(lease.resource_id, format!("txn:{id}"));
    txn_id
}

#[test]
fn zero_participants_trivial_commit() {
    let mut m = manager();
    let t = begin(&mut m, "T");
    assert!(matches!(m.commit_begin(&t), Ok(CommitStep::Done)));
    assert_eq!(m.get_state(&t).unwrap(), TransactionState::Committed);
    assert!(m.lease_manager().get("lease-T").is_none());
}

#[test]
fn single_participant_commit() {
    let mut m = manager();
    let t = begin(&mut m, "T");
    m.enlist(&t, "store-A".to_string(), 0).unwrap();
    match m.commit_begin(&t).unwrap() {
        CommitStep::PrepareAndCommit(ep) => assert_eq!(ep, "store-A"),
        other => panic!("expected PrepareAndCommit, got {other:?}"),
    }
    assert_eq!(m.get_state(&t).unwrap(), TransactionState::Voting);
    assert!(m.commit_single(&t, Some(PrepareVote::Prepared)).is_ok());
    assert_eq!(m.get_state(&t).unwrap(), TransactionState::Committed);
}

#[test]
fn single_participant_failure_aborts() {
    let mut m = manager();
    let t = begin(&mut m, "T");
    m.enlist(&t, "store-A".to_string(), 0).unwrap();
    m.commit_begin(&t).unwrap();
    assert!(matches!(m.commit_single(&t, None), Err(Error::TransactionAborted(_))));
    assert_eq!(m.get_state(&t).unwrap(), TransactionState::Aborted);
}

#[test]
fn multi_participant_all_prepared_commits() {
    let mut m = manager();
    let t = begin(&mut m, "T");
    m.enlist(&t, "store-A".to_string(), 0).unwrap();
    m.enlist(&t, "store-B".to_string(), 0).unwrap();
    match m.commit_begin(&t).unwrap() {
        CommitStep::Prepare(eps) => assert_eq!(eps, vec!["store-A".to_string(), "store-B".to_string()]),
        other => panic!("expected Prepare, got {other:?}"),
    }
    let votes = vec![("store-A".to_string(), Some(PrepareVote::Prepared)), ("store-B".to_string(), Some(PrepareVote::Prepared))];
    match m.commit_votes(&t, &votes).unwrap() {
        CommitDecision::Commit(eps) => assert_eq!(eps.len(), 2),
        other => panic!("expected Commit, got {other:?}"),
    }
    assert_eq!(m.get_state(&t).unwrap(), TransactionState::Prepared);
    m.commit_finish(&t).unwrap();
    assert_eq!(m.get_state(&t).unwrap(), TransactionState::Committed);
}

#[test]
fn participant_vetoes_aborts_everyone() {
    let mut m = manager();
    let t = begin(&mut m, "T");
    m.enlist(&t, "store-A".to_string(), 0).unwrap();
    m.enlist(&t, "store-B".to_string(), 0).unwrap();
    m.commit_begin(&t).unwrap();
    let votes = vec![("store-A".to_string(), Some(PrepareVote::Prepared)), ("store-B".to_string(), Some(PrepareVote::Aborted))];
    match m.commit_votes(&t, &votes).unwrap() {
        CommitDecision::Abort(eps) => assert_eq!(eps, vec!["store-A".to_string(), "store-B".to_string()]),
        other => panic!("expected Abort, got {other:?}"),
    }
    assert_eq!(m.get_state(&t).unwrap(), TransactionState::Aborted);
    assert!(m.lease_manager().get("lease-T").is_none());
}

#[test]
fn unreachable_participant_vetoes() {
    let mut m = manager();
    let t = begin(&mut m, "T");
    m.enlist(&t, "a".to_string(), 0).unwrap();
    m.enlist(&t, "b".to_string(), 0).unwrap();
    m.commit_begin(&t).unwrap();
    let votes = vec![("a".to_string(), Some(PrepareVote::Prepared)), ("b".to_string(), None)];
    assert!(matches!(m.commit_votes(&t, &votes).unwrap(), CommitDecision::Abort(_)));
}

#[test]
fn notchanged_voter_skipped_at_commit() {
    let mut m = manager();
    let t = begin(&mut m, "T");
    m.enlist(&t, "writer".to_string(), 0).unwrap();
    m.enlist(&t, "readonly".to_string(), 0).unwrap();
    m.commit_begin(&t).unwrap();
    let votes = vec![("writer".to_string(), Some(PrepareVote::Prepared)), ("readonly".to_string(), Some(PrepareVote::NotChanged))];
    match m.commit_votes(&t, &votes).unwrap() {
        CommitDecision::Commit(eps) => assert_eq!(eps, vec!["writer".to_string()]),
        other => panic!("expected Commit, got {other:?}"),
    }
    m.commit_finish(&t).unwrap();
    assert_eq!(m.get_state(&t).unwrap(), TransactionState::Committed);
}

#[test]
fn explicit_abort_no_state_change() {
    let mut m = manager();
    let t = begin(&mut m, "T");
    m.enlist(&t, "store-A".to_string(), 0).unwrap();
    m.enlist(&t, "store-B".to_string(), 0).unwrap();
    let eps = m.abort(&t).unwrap();
    assert_eq!(eps, vec!["store-A".to_string(), "store-B".to_string()]);
    assert_eq!(m.get_state(&t).unwrap(), TransactionState::Aborted);
    assert!(m.abort(&t).unwrap().is_empty());
    assert!(matches!(m.commit_begin(&t), Err(Error::TransactionAborted(_))));
    assert!(matches!(m.enlist(&t, "late".to_string(), 0), Err(Error::TransactionTerminal(_))));
}

#[test]
fn committed_transaction_cannot_be_aborted() {
    let mut m = manager();
    let t = begin(&mut m, "T");
    m.commit_begin(&t).unwrap();
    assert!(matches!(m.abort(&t), Err(Error::TransactionTerminal(_))));
    assert!(matches!(m.commit_begin(&t), Ok(CommitStep::Done)));
    assert_eq!(m.get_state(&t).unwrap(), TransactionState::Committed);
}

#[test]
fn lease_expiry_auto_aborts() {
    let mut m = manager();
    let (t, _) = m.begin_at(1, "T".to_string(), "L".to_string(), 0);
    m.enlist(&t, "store-A".to_string(), 0).unwrap();
    let expired = m.lease_manager().drain_expired_at(1_000);
    assert_eq!(expired.len(), 1);
    let reclaimed = LeaseReclaimed { record: expired[0].clone(), reason: ReclaimReason::Expired };
    let eps = m.on_lease_reclaimed(&reclaimed);
    assert_eq!(eps, vec!["store-A".to_string()]);
    assert_eq!(m.get_state(&t).unwrap(), TransactionState::Aborted);
    assert!(m.on_lease_reclaimed(&reclaimed).is_empty());
}

#[test]
fn unknown_transactions_are_refused() {
    let mut m = manager();
    assert!(matches!(m.get_state("nope"), Err(Error::TransactionNotFound(_))));
    assert!(matches!(m.abort("nope"), Err(Error::TransactionNotFound(_))));
    assert!(matches!(m.commit_begin("nope"), Err(Error::TransactionNotFound(_))));
    assert!(matches!(m.enlist("nope", "x".to_string(), 0), Err(Error::TransactionNotFound(_))));
    assert!(m.abort_expired("nope").is_empty());
}

#[test]
fn wire_votes_and_states() {
    assert_eq!(vote_from_i32(0), PrepareVote::Prepared);
    assert_eq!(vote_from_i32(1), PrepareVote::NotChanged);
    assert_eq!(vote_from_i32(2), PrepareVote::Aborted);
    assert_eq!(vote_from_i32(-1), PrepareVote::Aborted);
    assert_eq!(vote_from_i32(99), PrepareVote::Aborted);
    assert_eq!(state_to_proto(&TransactionState::Active), 0);
    assert_eq!(state_to_proto(&TransactionState::Voting), 1);
    assert_eq!(state_to_proto(&TransactionState::Prepared), 2);
    assert_eq!(state_to_proto(&TransactionState::Committed), 3);
    assert_eq!(state_to_proto(&TransactionState::Aborted), 4);
}

#[test]
fn begin_under_fresh_ids() {
    let mut m = manager();
    let (a, la) = m.begin(30);
    let (b, _) = m.begin(30);
    assert_ne!(a, b);
    assert_eq!(la.resource_id, format!("txn:{a}"));
    assert_eq!(m.get_state(&a).unwrap(), TransactionState::Active);
}

#[test]
fn votes_round_trip_over_the_wire() {
    for v in [PrepareVote::Prepared, PrepareVote::NotChanged, PrepareVote::Aborted] {
        assert_eq!(vote_from_i32(vote_to_i32(v)), v);
    }
    assert_eq!(vote_to_i32(PrepareVote::Prepared), 0);
    assert_eq!(vote_to_i32(PrepareVote::NotChanged), 1);
    assert_eq!(participant_uri("127.0.0.1:9006"), "http://127.0.0.1:9006");
}

#[test]
fn transaction_lease_resource_names_its_transaction() {
    assert_eq!(txn_of_lease("txn:T"), Some("T".to_string()));
    assert_eq!(txn_of_lease("txn:"), Some(String::new()));
    assert_eq!(txn_of_lease("space:x"), None);
    assert_eq!(txn_of_lease("tx:T"), None);
}
