use coordin8::error::Error;
use coordin8::lease::{LeaseConfig, LeaseManager, LeaseReclaimed, ReclaimReason};
use coordin8::space::{read_wait_step, take_wait_step, SpaceEventKind, SpaceManager, SpaceReclaim, WaitSignal, WaitStep};
use coordin8::strmap::StrMap;
use coordin8::txn::PrepareVote;
use coordin8::space::input_tuple_of;

fn map(pairs: &[(&str, &str)]) -> StrMap<String> {
    let mut m = StrMap::new();
    for (k, v) in pairs {
        m.insert(k.to_string(), v.to_string());
    }
    m
}

fn space() -> SpaceManager {
    SpaceManager::new(LeaseManager::new(LeaseConfig::default()))
}

fn out(s: &mut SpaceManager, attrs: &[(&str, &str)], id: &str, txn: Option<&str>, now: i64) -> String {
    let (t, lease) = s.write_at(
        map(attrs),
        b"payload".to_vec(),
        60,
        "test".to_string(),
        None,
        txn.map(|t| t.to_string()),
        id.to_string(),
        format!("lease-{id}"),
        now,
    );
    assert_eq!(lease.resource_id, format!("space:{id}"));
    t.tuple_id
}

#[test]
fn out_and_read() {
    let mut s = space();
    let id = out(&mut s, &[("kind", "price"), ("ticker", "AAPL")], "t1", None, 0);
    let found = s.read(&map(&[("kind", "price")]), None).unwrap();
    assert_eq!(found.tuple_id, id);
    assert_eq!(found.payload, b"payload".to_vec());
    assert!(s.read(&map(&[("kind", "price")]), None).is_some());
}

#[test]
fn out_and_take() {
    let mut s = space();
    out(&mut s, &[("kind", "task"), ("name", "build")], "t1", None, 0);
    let taken = s.take(&map(&[("kind", "task")]), None).unwrap();
    assert_eq!(taken.tuple_id, "t1");
    assert!(s.take(&map(&[("kind", "task")]), None).is_none());
    assert!(s.lease_manager().get("lease-t1").is_none());
}

#[test]
fn read_and_take_on_empty_space_find_nothing() {
    let mut s = space();
    assert!(s.read(&map(&[("kind", "nope")]), None).is_none());
    assert!(s.take(&map(&[("kind", "nope")]), None).is_none());
}

#[test]
fn template_matching() {
    let mut s = space();
    out(&mut s, &[("kind", "sensor"), ("location", "tampa-east-7"), ("metrics", "wind,humidity,temp")], "t1", None, 0);
    assert!(s.read(&map(&[("kind", "sensor")]), None).is_some());
    assert!(s.read(&map(&[("metrics", "contains:humidity")]), None).is_some());
    assert!(s.read(&map(&[("location", "starts_with:tampa")]), None).is_some());
    assert!(s.read(&map(&[("kind", "*")]), None).is_some());
    assert!(s.read(&map(&[("kind", "camera")]), None).is_none());
}

#[test]
fn oldest_match_is_found_first() {
    let mut s = space();
    out(&mut s, &[("kind", "job")], "first", None, 0);
    out(&mut s, &[("kind", "job")], "second", None, 1);
    assert_eq!(s.take(&map(&[("kind", "job")]), None).unwrap().tuple_id, "first");
    assert_eq!(s.take(&map(&[("kind", "job")]), None).unwrap().tuple_id, "second");
}

#[test]
fn uncommitted_writes_are_invisible_until_commit() {
    let mut s = space();
    out(&mut s, &[("ticker", "NVDA")], "t1", Some("X"), 0);
    assert!(s.read(&map(&[("ticker", "NVDA")]), None).is_none());
    assert!(s.read(&map(&[("ticker", "NVDA")]), Some("Y")).is_none());
    assert!(s.read(&map(&[("ticker", "NVDA")]), Some("X")).is_some());
    assert!(s.has_txn("X"));
    assert_eq!(s.prepare("X"), PrepareVote::Prepared);
    assert_eq!(s.prepare("Y"), PrepareVote::NotChanged);
    let flushed = s.commit_space_txn("X");
    assert_eq!(flushed.len(), 1);
    assert!(!s.has_txn("X"));
    assert!(s.read(&map(&[("ticker", "NVDA")]), None).is_some());
}

#[test]
fn abort_discards_writes_and_restores_takes() {
    let mut s = space();
    out(&mut s, &[("ticker", "AAPL")], "visible", None, 0);
    out(&mut s, &[("ticker", "TSLA")], "doomed", Some("X"), 0);
    let taken = s.take(&map(&[("ticker", "AAPL")]), Some("X")).unwrap();
    assert_eq!(taken.tuple_id, "visible");
    assert!(s.read(&map(&[("ticker", "AAPL")]), None).is_none());
    let restored = s.abort_space_txn("X");
    assert_eq!(restored.len(), 1);
    assert_eq!(restored[0].tuple_id, "visible");
    assert!(s.read(&map(&[("ticker", "AAPL")]), None).is_some());
    assert!(s.read(&map(&[("ticker", "TSLA")]), None).is_none());
    assert!(s.read(&map(&[("ticker", "TSLA")]), Some("X")).is_none());
    assert!(s.lease_manager().get("lease-doomed").is_none());
    assert!(!s.has_txn("X"));
}

#[test]
fn transactional_take_prefers_own_writes() {
    let mut s = space();
    out(&mut s, &[("k", "v")], "committed", None, 0);
    out(&mut s, &[("k", "v")], "mine", Some("X"), 0);
    assert_eq!(s.take(&map(&[("k", "v")]), Some("X")).unwrap().tuple_id, "mine");
    assert_eq!(s.contents(&map(&[("k", "v")]), None).len(), 1);
}

#[test]
fn contents_lists_own_writes_then_visible() {
    let mut s = space();
    out(&mut s, &[("k", "v")], "a", None, 0);
    out(&mut s, &[("k", "v")], "b", Some("X"), 0);
    out(&mut s, &[("k", "w")], "c", Some("X"), 0);
    let seen = s.contents(&map(&[("k", "v")]), Some("X"));
    assert_eq!(seen.len(), 2);
    assert_eq!(seen[0].tuple_id, "b");
    assert_eq!(seen[1].tuple_id, "a");
}

#[test]
fn prepare_and_commit_single_participant() {
    let mut s = space();
    out(&mut s, &[("k", "v")], "a", Some("X"), 0);
    let (vote, flushed) = s.prepare_and_commit("X");
    assert_eq!(vote, PrepareVote::Prepared);
    assert_eq!(flushed.len(), 1);
    assert!(s.read(&map(&[("k", "v")]), None).is_some());
    let (vote, flushed) = s.prepare_and_commit("Y");
    assert_eq!(vote, PrepareVote::NotChanged);
    assert!(flushed.is_empty());
}

#[test]
fn tuple_lease_expiry_cascade() {
    let mut s = space();
    out(&mut s, &[("kind", "ephemeral")], "t1", None, 0);
    let expired = s.lease_manager().drain_expired_at(61_000);
    assert_eq!(expired.len(), 1);
    let reclaimed = LeaseReclaimed { record: expired[0].clone(), reason: ReclaimReason::Expired };
    match s.on_lease_reclaimed(&reclaimed) {
        SpaceReclaim::Tuple(Some(t)) => assert_eq!(t.tuple_id, "t1"),
        other => panic!("unexpected cascade result: {other:?}"),
    }
    assert!(s.read(&map(&[("kind", "ephemeral")]), None).is_none());
}

#[test]
fn watch_lease_expiry_cascade() {
    let mut s = space();
    let (watch_id, lease_id) =
        s.notify_at(map(&[("level", "critical")]), SpaceEventKind::Appearance, 5, vec![], "w1".to_string(), "wl".to_string(), 0);
    assert_eq!(watch_id, "w1");
    let expired = s.lease_manager().drain_expired_at(5_000);
    assert_eq!(expired.len(), 1);
    assert_eq!(expired[0].lease_id, lease_id);
    assert_eq!(expired[0].resource_id, "space-watch:w1");
    let reclaimed = LeaseReclaimed { record: expired[0].clone(), reason: ReclaimReason::Expired };
    assert!(matches!(s.on_lease_reclaimed(&reclaimed), SpaceReclaim::Watch(Some(w)) if w.watch_id == "w1"));
    assert!(matches!(s.on_lease_reclaimed(&reclaimed), SpaceReclaim::Watch(None)));
}

#[test]
fn foreign_leases_are_ignored() {
    let mut s = space();
    out(&mut s, &[("k", "v")], "t1", None, 0);
    let mut other = LeaseManager::new(LeaseConfig::default());
    let record = other.grant_at("registry:c", 10, "lease-t1".to_string(), 0);
    let reclaimed = LeaseReclaimed { record, reason: ReclaimReason::Cancelled };
    assert!(matches!(s.on_lease_reclaimed(&reclaimed), SpaceReclaim::Ignored));
    assert!(s.read(&map(&[("k", "v")]), None).is_some());
}

#[test]
fn watch_templates_match_tuples() {
    let mut s = space();
    let (t, _) = s.write_at(map(&[("level", "critical")]), vec![], 60, "m".to_string(), None, None, "t".to_string(), "l".to_string(), 0);
    assert!(SpaceManager::watch_accepts(&map(&[("level", "critical")]), &t));
    assert!(!SpaceManager::watch_accepts(&map(&[("level", "info")]), &t));
}

#[test]
fn cancel_tuple_removes() {
    let mut s = space();
    out(&mut s, &[("kind", "temp")], "t1", None, 0);
    assert!(s.cancel("t1").is_ok());
    assert!(s.read(&map(&[("kind", "temp")]), None).is_none());
    assert!(matches!(s.cancel("t1"), Err(Error::TupleNotFound(id)) if id == "t1"));
}

#[test]
fn renew_tuple_lease() {
    let mut s = space();
    out(&mut s, &[("kind", "temp")], "t1", None, 0);
    let lease = s.renew_at("t1", 120, 1_000).unwrap();
    assert_eq!(lease.expires_at, 121_000);
    assert!(matches!(s.renew_at("t9", 120, 1_000), Err(Error::TupleNotFound(_))));
}

#[test]
fn provenance_tracking() {
    let mut s = space();
    let raw = out(&mut s, &[("kind", "raw")], "raw-1", None, 0);
    let (processed, _) = s.write_at(
        map(&[("kind", "processed")]),
        b"processed data".to_vec(),
        60,
        "pipeline".to_string(),
        Some(raw.clone()),
        None,
        "p-1".to_string(),
        "lp".to_string(),
        0,
    );
    assert_eq!(processed.input_tuple_id, Some(raw));
    assert_eq!(processed.written_by, "pipeline");
}

#[test]
fn fresh_ids_on_write() {
    let mut s = space();
    let (a, _) = s.write(map(&[("k", "v")]), vec![], 60, "w".to_string(), None, None);
    let (b, _) = s.write(map(&[("k", "v")]), vec![], 60, "w".to_string(), None, None);
    assert_ne!(a.tuple_id, b.tuple_id);
    assert_eq!(s.contents(&map(&[("k", "v")]), None).len(), 2);
}

#[test]
fn empty_input_tuple_id_means_none() {
    assert_eq!(input_tuple_of(String::new()), None);
    assert_eq!(input_tuple_of("raw-1".to_string()), Some("raw-1".to_string()));
}

#[test]
fn watch_under_fresh_ids() {
    let mut s = space();
    let (w1, l1) = s.notify(map(&[("k", "v")]), SpaceEventKind::Expiration, 30, vec![]);
    let (w2, _) = s.notify(map(&[("k", "v")]), SpaceEventKind::Appearance, 30, vec![]);
    assert_ne!(w1, w2);
    assert_eq!(s.lease_manager().get(&l1).unwrap().resource_id, format!("space-watch:{w1}"));
}

#[test]
fn blocked_read_takes_the_announced_match() {
    let mut s = space();
    out(&mut s, &[("ticker", "AAPL")], "a", None, 0);
    let t = s.read(&map(&[("ticker", "AAPL")]), None).unwrap();
    let wanted = map(&[("ticker", "AAPL")]);
    let other = map(&[("ticker", "MSFT")]);
    assert!(matches!(read_wait_step(&wanted, WaitSignal::Appeared(t.clone())), WaitStep::Deliver(d) if d.tuple_id == "a"));
    assert!(matches!(read_wait_step(&other, WaitSignal::Appeared(t)), WaitStep::Listen));
    assert!(matches!(read_wait_step(&wanted, WaitSignal::Lagged), WaitStep::Listen));
    assert!(matches!(read_wait_step(&wanted, WaitSignal::Closed), WaitStep::GiveUp));
}

#[test]
fn blocked_take_requeries_on_a_hint() {
    let mut s = space();
    out(&mut s, &[("ticker", "AAPL")], "a", None, 0);
    let t = s.read(&map(&[("ticker", "AAPL")]), None).unwrap();
    let wanted = map(&[("ticker", "AAPL")]);
    let other = map(&[("ticker", "MSFT")]);
    assert!(matches!(take_wait_step(&wanted, &WaitSignal::Appeared(t.clone())), WaitStep::Retry));
    assert!(matches!(take_wait_step(&other, &WaitSignal::Appeared(t)), WaitStep::Listen));
    assert!(matches!(take_wait_step(&wanted, &WaitSignal::Lagged), WaitStep::Retry));
    assert!(matches!(take_wait_step(&wanted, &WaitSignal::Closed), WaitStep::GiveUp));
}

#[test]
fn abort_after_many_operations_restores_the_visible_tuples() {
    let mut s = space();
    out(&mut s, &[("k", "a")], "first", None, 0);
    out(&mut s, &[("k", "b")], "second", None, 0);
    out(&mut s, &[("k", "w")], "mine", Some("X"), 0);
    assert_eq!(s.take(&map(&[("k", "w")]), Some("X")).unwrap().tuple_id, "mine");
    out(&mut s, &[("k", "v")], "later", Some("X"), 0);
    assert_eq!(s.take(&map(&[("k", "a")]), Some("X")).unwrap().tuple_id, "first");
    assert_eq!(s.take(&map(&[("k", "b")]), Some("X")).unwrap().tuple_id, "second");
    assert!(s.take(&map(&[("k", "none")]), Some("X")).is_none());
    assert!(s.contents(&StrMap::new(), None).is_empty());
    let restored = s.abort_space_txn("X");
    assert_eq!(restored.len(), 2);
    let mut ids: Vec<String> = s.contents(&StrMap::new(), None).into_iter().map(|t| t.tuple_id).collect();
    ids.sort();
    assert_eq!(ids, vec!["first".to_string(), "second".to_string()]);
    assert!(s.read(&map(&[("k", "v")]), Some("X")).is_none());
    assert!(!s.has_txn("X"));
}
