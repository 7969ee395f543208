use coordin8::error::Error;
use coordin8::lease::{
    expiry_instant, LeaseConfig, LeaseManager, ReclaimReason, DEFAULT_MAX_TTL, DEFAULT_PREFERRED_TTL, LEASE_ANY,
    LEASE_FOREVER,
};
use coordin8::error::{renew_status, txn_status, StatusKind};
use coordin8::lease::timestamp_parts;
use coordin8::lease::watch_expiry_accepts;

fn capped(max: u64, preferred: u64) -> LeaseConfig {
    LeaseConfig { max_ttl: Some(max), preferred_ttl: preferred }
}

#[test]
fn negotiate_follows_the_policy() {
    let c = capped(3600, 300);
    assert_eq!(c.negotiate(LEASE_ANY), 300);
    assert_eq!(c.negotiate(LEASE_FOREVER), 3600);
    assert_eq!(c.negotiate(60), 60);
    assert_eq!(c.negotiate(7200), 3600);
    let open = LeaseConfig { max_ttl: None, preferred_ttl: 300 };
    assert_eq!(open.negotiate(LEASE_FOREVER), LEASE_FOREVER);
    assert_eq!(open.negotiate(7200), 7200);
    assert_eq!(open.negotiate(LEASE_ANY), 300);
}

#[test]
fn any_request_gets_preferred_even_above_the_cap() {
    assert_eq!(capped(10, 300).negotiate(LEASE_ANY), 300);
}

#[test]
fn default_policy() {
    let c = LeaseConfig::default();
    assert_eq!(c.max_ttl, Some(DEFAULT_MAX_TTL));
    assert_eq!(c.preferred_ttl, DEFAULT_PREFERRED_TTL);
    assert_eq!(DEFAULT_MAX_TTL, 3600);
    assert_eq!(DEFAULT_PREFERRED_TTL, 300);
}

#[test]
fn settings_build_the_policy() {
    let c = LeaseConfig::from_env(Some("FoReVeR".to_string()), Some("42".to_string()));
    assert_eq!(c.max_ttl, None);
    assert_eq!(c.preferred_ttl, 42);
    let c = LeaseConfig::from_env(Some("junk".to_string()), Some("junk".to_string()));
    assert_eq!(c.max_ttl, Some(3600));
    assert_eq!(c.preferred_ttl, 300);
    let c = LeaseConfig::from_env(None, None);
    assert_eq!(c.max_ttl, Some(3600));
    assert_eq!(c.preferred_ttl, 300);
    let c = LeaseConfig::from_env_for(Some("60".to_string()), Some("forever".to_string()), None, Some("7".to_string()));
    assert_eq!(c.max_ttl, Some(60));
    assert_eq!(c.preferred_ttl, 7);
}

#[test]
fn expiry_saturates() {
    assert_eq!(expiry_instant(1_000, 2), 3_000);
    assert_eq!(expiry_instant(i64::MAX - 10, 1), i64::MAX);
    assert_eq!(expiry_instant(0, LEASE_FOREVER), i64::MAX);
}

#[test]
fn grant_renew_and_expire() {
    let mut m = LeaseManager::new(capped(3600, 300));
    let lease = m.grant_at("space:t1", 10, "L1".to_string(), 1_000);
    assert_eq!(lease.lease_id, "L1");
    assert_eq!(lease.resource_id, "space:t1");
    assert_eq!(lease.ttl_seconds, 10);
    assert_eq!(lease.expires_at, 11_000);
    assert!(!lease.is_expired_at(10_999));
    assert!(lease.is_expired_at(11_000));
    let renewed = m.renew_at("L1", 20, 5_000).unwrap();
    assert_eq!(renewed.expires_at, 25_000);
    assert_eq!(renewed.granted_at, 1_000);
    assert!(matches!(m.renew_at("L1", 20, 30_000), Err(Error::LeaseExpired(id)) if id == "L1"));
    assert!(matches!(m.renew_at("nope", 20, 0), Err(Error::LeaseNotFound(id)) if id == "nope"));
}

#[test]
fn forever_leases_never_expire() {
    let mut m = LeaseManager::new(LeaseConfig { max_ttl: None, preferred_ttl: 300 });
    let lease = m.grant_at("pin", LEASE_FOREVER, "F".to_string(), 0);
    assert_eq!(lease.ttl_seconds, LEASE_FOREVER);
    assert!(!lease.is_expired_at(i64::MAX));
    assert!(m.drain_expired_at(i64::MAX).is_empty());
}

#[test]
fn drain_removes_exactly_the_expired() {
    let mut m = LeaseManager::new(capped(3600, 300));
    m.grant_at("a", 1, "A".to_string(), 0);
    m.grant_at("b", 100, "B".to_string(), 0);
    let expired = m.drain_expired_at(1_000);
    assert_eq!(expired.len(), 1);
    assert_eq!(expired[0].lease_id, "A");
    assert!(m.get("A").is_none());
    assert!(m.get("B").is_some());
    assert!(m.drain_expired_at(1_000).is_empty());
}

#[test]
fn cancel_reclaims_and_queues() {
    let mut m = LeaseManager::new(capped(3600, 300));
    m.grant_at("registry:c1", 30, "L".to_string(), 0);
    assert!(m.cancel("L").is_ok());
    assert!(m.get("L").is_none());
    assert!(matches!(m.cancel("L"), Err(Error::LeaseNotFound(id)) if id == "L"));
    let events = m.take_reclaimed();
    assert_eq!(events.len(), 1);
    assert_eq!(events[0].record.resource_id, "registry:c1");
    assert_eq!(events[0].reason, ReclaimReason::Cancelled);
    assert!(m.take_reclaimed().is_empty());
}

#[test]
fn lookup_by_resource() {
    let mut m = LeaseManager::new(capped(3600, 300));
    m.grant_at("x", 30, "L1".to_string(), 0);
    m.grant_at("y", 30, "L2".to_string(), 0);
    assert_eq!(m.get_by_resource("y").unwrap().lease_id, "L2");
    assert!(m.get_by_resource("z").is_none());
}

#[test]
fn fresh_ids_and_wall_clock() {
    let mut m = LeaseManager::new(capped(3600, 300));
    let a = m.grant("r", 60);
    let b = m.grant("r", 60);
    assert_ne!(a.lease_id, b.lease_id);
    assert_eq!(a.expires_at, expiry_instant(a.granted_at, 60));
    assert!(!a.is_expired());
    assert!(m.renew(&a.lease_id, 120).is_ok());
    m.cancel_each(&vec![a.lease_id.clone(), "missing".to_string(), b.lease_id.clone()]);
    assert!(m.get(&a.lease_id).is_none());
    assert!(m.get(&b.lease_id).is_none());
    assert_eq!(m.take_reclaimed().len(), 2);
}

#[test]
fn renew_all_reports_each_lease_in_turn() {
    let mut m = LeaseManager::new(capped(3600, 300));
    m.grant_at("a", 10, "A".to_string(), 0);
    m.grant_at("b", 1, "B".to_string(), 0);
    let items = vec![("A".to_string(), 60u64), ("B".to_string(), 60u64), ("C".to_string(), 60u64)];
    let results = m.renew_all_at(&items, 2_000);
    assert_eq!(results.len(), 3);
    assert_eq!(results[0].0, "A");
    assert_eq!(results[0].1.as_ref().unwrap().expires_at, 62_000);
    assert!(matches!(&results[1].1, Err(Error::LeaseExpired(id)) if id == "B"));
    assert!(matches!(&results[2].1, Err(Error::LeaseNotFound(id)) if id == "C"));
    assert_eq!(m.get("A").unwrap().expires_at, 62_000);
}

#[test]
fn wire_timestamps_round_down() {
    assert_eq!(timestamp_parts(1_500), (1, 500_000_000));
    assert_eq!(timestamp_parts(0), (0, 0));
    assert_eq!(timestamp_parts(-1), (-1, 999_000_000));
    assert_eq!(timestamp_parts(-1_000), (-1, 0));
    assert_eq!(timestamp_parts(-1_001), (-2, 999_000_000));
    assert_eq!(timestamp_parts(i64::MIN), (-9_223_372_036_854_776, 192_000_000));
}

#[test]
fn expiry_watch_filter() {
    let mut m = LeaseManager::new(capped(3600, 300));
    let lease = m.grant_at("bootstrap-watch:alpha", 10, "A".to_string(), 0);
    assert!(watch_expiry_accepts("", &lease));
    assert!(watch_expiry_accepts("bootstrap-watch:alpha", &lease));
    assert!(!watch_expiry_accepts("bootstrap-watch:", &lease));
}

#[test]
fn error_texts_and_status_classes() {
    assert_eq!(Error::LeaseNotFound("x".to_string()).message(), "lease not found: x");
    assert_eq!(Error::LeaseExpired("x".to_string()).message(), "lease expired: x");
    assert_eq!(Error::NoMatch.message(), "no match found for template");
    assert_eq!(Error::Internal("boom".to_string()).message(), "internal error: boom");
    assert_eq!(renew_status(&Error::LeaseNotFound(String::new())), StatusKind::NotFound);
    assert_eq!(renew_status(&Error::LeaseExpired(String::new())), StatusKind::FailedPrecondition);
    assert_eq!(renew_status(&Error::NoMatch), StatusKind::Internal);
    assert_eq!(txn_status(&Error::Unavailable(String::new())), StatusKind::Unavailable);
    assert_eq!(txn_status(&Error::TransactionNotFound(String::new())), StatusKind::Internal);
}

#[test]
fn sweep_reports_expiries_then_cancellations() {
    let mut m = LeaseManager::new(capped(3600, 300));
    m.grant_at("a", 1, "A".to_string(), 0);
    m.grant_at("b", 100, "B".to_string(), 0);
    m.grant_at("c", 100, "C".to_string(), 0);
    m.cancel("C").unwrap();
    let events = m.sweep_at(1_000);
    assert_eq!(events.len(), 2);
    assert_eq!(events[0].record.lease_id, "A");
    assert_eq!(events[0].reason, ReclaimReason::Expired);
    assert_eq!(events[1].record.lease_id, "C");
    assert_eq!(events[1].reason, ReclaimReason::Cancelled);
    assert!(m.get("B").is_some());
    assert!(m.sweep_at(1_000).is_empty());
}

#[test]
fn wall_clock_variants() {
    let mut m = LeaseManager::new(capped(3600, 300));
    let lease = m.grant("r", 3600);
    assert!(m.drain_expired().is_empty());
    let results = m.renew_all(&vec![(lease.lease_id.clone(), 60u64)]);
    assert_eq!(results.len(), 1);
    assert!(results[0].1.is_ok());
}
