use coordin8::error::Error;
use coordin8::event::{delivers, delivery_from_i32, DeliveryMode, EventManager};
use coordin8::lease::{LeaseConfig, LeaseManager};
use coordin8::strmap::StrMap;

fn map(pairs: &[(&str, &str)]) -> StrMap<String> {
    let mut m = StrMap::new();
    for (k, v) in pairs {
        m.insert(k.to_string(), v.to_string());
    }
    m
}

fn manager() -> EventManager {
    EventManager::new(LeaseManager::new(LeaseConfig::default()))
}

#[test]
fn durable_mailbox_drains_backlog() {
    let mut mgr = manager();
    let (reg_id, lease, seq_at_sub) =
        mgr.subscribe("market.signals".to_string(), StrMap::new(), DeliveryMode::Durable, 60, b"my-handback".to_vec());
    assert_eq!(seq_at_sub, 0);
    assert_eq!(lease.resource_id, format!("event:{reg_id}"));
    for i in 1..=3u64 {
        let event = mgr.emit(
            "market.signals".to_string(),
            "price.update".to_string(),
            map(&[("ticker", "AAPL")]),
            format!("{{\"price\": {}}}", 150 + i).into_bytes(),
        );
        assert_eq!(event.seq_num, i);
    }
    let backlog = mgr.drain_mailbox(&reg_id).unwrap();
    assert_eq!(backlog.len(), 3);
    assert_eq!(backlog[0].seq_num, 1);
    assert_eq!(backlog[2].seq_num, 3);
    assert_eq!(backlog[0].source, "market.signals");
    let empty = mgr.drain_mailbox(&reg_id).unwrap();
    assert!(empty.is_empty());
}

#[test]
fn best_effort_live_only() {
    let mut mgr = manager();
    let (reg_id, _, _) = mgr.subscribe("sensors".to_string(), StrMap::new(), DeliveryMode::BestEffort, 60, vec![]);
    mgr.emit("sensors".to_string(), "temp".to_string(), map(&[("unit", "C")]), b"22.4".to_vec());
    let queue = mgr.drain_mailbox(&reg_id).unwrap();
    assert!(queue.is_empty());
}

#[test]
fn template_filtering_enqueues_only_matches() {
    let mut mgr = manager();
    let (reg_id, _, _) =
        mgr.subscribe("market.signals".to_string(), map(&[("ticker", "TSLA")]), DeliveryMode::Durable, 60, vec![]);
    mgr.emit("market.signals".to_string(), "price.update".to_string(), map(&[("ticker", "AAPL")]), b"150".to_vec());
    mgr.emit("market.signals".to_string(), "price.update".to_string(), map(&[("ticker", "TSLA")]), b"242".to_vec());
    let backlog = mgr.drain_mailbox(&reg_id).unwrap();
    assert_eq!(backlog.len(), 1);
    assert_eq!(backlog[0].attrs.get("ticker").unwrap(), "TSLA");
}

#[test]
fn event_type_is_matched_as_an_attribute() {
    let mut mgr = manager();
    let (reg_id, _, _) =
        mgr.subscribe("feed".to_string(), map(&[("event_type", "tick")]), DeliveryMode::Durable, 60, vec![]);
    mgr.emit("feed".to_string(), "tick".to_string(), StrMap::new(), vec![]);
    mgr.emit("feed".to_string(), "heartbeat".to_string(), StrMap::new(), vec![]);
    mgr.emit("other".to_string(), "tick".to_string(), StrMap::new(), vec![]);
    let backlog = mgr.drain_mailbox(&reg_id).unwrap();
    assert_eq!(backlog.len(), 1);
    assert_eq!(backlog[0].event_type, "tick");
}

#[test]
fn sequence_numbers_are_monotonic_per_source_type() {
    let mut mgr = manager();
    let mut seqs = vec![];
    for _ in 0..5 {
        let e = mgr.emit("feed".to_string(), "tick".to_string(), StrMap::new(), vec![]);
        seqs.push(e.seq_num);
    }
    let other = mgr.emit("feed".to_string(), "heartbeat".to_string(), StrMap::new(), vec![]);
    assert_eq!(seqs, vec![1, 2, 3, 4, 5]);
    assert_eq!(other.seq_num, 1);
}

#[test]
fn subscribe_snapshots_the_source_high_water_mark() {
    let mut mgr = manager();
    for _ in 0..4 {
        mgr.emit("feed".to_string(), "tick".to_string(), StrMap::new(), vec![]);
    }
    mgr.emit("feed".to_string(), "heartbeat".to_string(), StrMap::new(), vec![]);
    mgr.emit("feedx".to_string(), "tick".to_string(), StrMap::new(), vec![]);
    let (_, _, seq) = mgr.subscribe("feed".to_string(), StrMap::new(), DeliveryMode::Durable, 60, vec![]);
    assert_eq!(seq, 4);
    let (_, _, seq) = mgr.subscribe("quiet".to_string(), StrMap::new(), DeliveryMode::Durable, 60, vec![]);
    assert_eq!(seq, 0);
}

#[test]
fn cancel_removes_subscription() {
    let mut mgr = manager();
    let (reg_id, lease, _) = mgr.subscribe("events".to_string(), StrMap::new(), DeliveryMode::Durable, 60, vec![]);
    mgr.cancel_subscription(&reg_id).unwrap();
    assert!(mgr.get_subscription(&reg_id).is_none());
    assert!(mgr.lease_manager().get(&lease.lease_id).is_none());
    assert!(matches!(mgr.cancel_subscription(&reg_id), Err(Error::SubscriptionNotFound(id)) if id == reg_id));
}

#[test]
fn subscription_lease_expiry_cascade() {
    let mut mgr = manager();
    let (reg_id, lease, _) =
        mgr.subscribe_at("test.source".to_string(), StrMap::new(), DeliveryMode::Durable, 1, vec![], "R".to_string(), "L".to_string(), 0);
    assert_eq!(reg_id, "R");
    assert!(mgr.get_subscription(&reg_id).is_some());
    let expired = mgr.lease_manager().drain_expired_at(1_000);
    assert_eq!(expired.len(), 1);
    let removed = mgr.unsubscribe_by_lease(&lease.lease_id);
    assert_eq!(removed, Some(reg_id.clone()));
    assert!(mgr.get_subscription(&reg_id).is_none());
    let drain_result = mgr.drain_mailbox(&reg_id);
    assert!(drain_result.is_err());
    assert_eq!(mgr.unsubscribe_by_lease(&lease.lease_id), None);
}

#[test]
fn renew_subscription_extends_its_lease() {
    let mut mgr = manager();
    mgr.subscribe_at("s".to_string(), StrMap::new(), DeliveryMode::Durable, 10, vec![], "R".to_string(), "L".to_string(), 0);
    let lease = mgr.renew_subscription_at("R", 20, 5_000).unwrap();
    assert_eq!(lease.lease_id, "L");
    assert_eq!(lease.expires_at, 25_000);
    assert!(matches!(mgr.renew_subscription_at("nope", 20, 0), Err(Error::SubscriptionNotFound(_))));
    assert!(matches!(mgr.renew_subscription_at("R", 20, 99_000), Err(Error::LeaseExpired(_))));
}

#[test]
fn subscription_record_keeps_what_was_asked() {
    let mut mgr = manager();
    mgr.subscribe_at("s".to_string(), map(&[("a", "b")]), DeliveryMode::BestEffort, 10, b"hb".to_vec(), "R".to_string(), "L".to_string(), 0);
    let sub = mgr.get_subscription("R").unwrap();
    assert_eq!(sub.source, "s");
    assert_eq!(sub.delivery, DeliveryMode::BestEffort);
    assert_eq!(sub.lease_id, "L");
    assert_eq!(sub.handback, b"hb".to_vec());
    assert_eq!(sub.template.get("a").unwrap(), "b");
}

#[test]
fn live_filter_checks_source_and_template() {
    let mut mgr = manager();
    mgr.subscribe_at("s".to_string(), map(&[("k", "v")]), DeliveryMode::BestEffort, 10, vec![], "R".to_string(), "L".to_string(), 0);
    let sub = mgr.get_subscription("R").unwrap();
    let hit = mgr.emit_at("s".to_string(), "t".to_string(), map(&[("k", "v")]), vec![], "E1".to_string(), 7);
    assert_eq!(hit.event_id, "E1");
    assert_eq!(hit.emitted_at, 7);
    let miss = mgr.emit_at("s".to_string(), "t".to_string(), map(&[("k", "w")]), vec![], "E2".to_string(), 8);
    let elsewhere = mgr.emit_at("x".to_string(), "t".to_string(), map(&[("k", "v")]), vec![], "E3".to_string(), 9);
    assert!(delivers(&sub, &hit));
    assert!(!delivers(&sub, &miss));
    assert!(!delivers(&sub, &elsewhere));
}

#[test]
fn wire_delivery_modes() {
    assert_eq!(delivery_from_i32(0), DeliveryMode::Durable);
    assert_eq!(delivery_from_i32(1), DeliveryMode::BestEffort);
    assert_eq!(delivery_from_i32(7), DeliveryMode::Durable);
}

#[test]
fn receive_hands_out_the_durable_backlog_first() {
    let mut mgr = manager();
    mgr.subscribe_at("s".to_string(), StrMap::new(), DeliveryMode::Durable, 60, vec![], "D".to_string(), "L1".to_string(), 0);
    mgr.subscribe_at("s".to_string(), StrMap::new(), DeliveryMode::BestEffort, 60, vec![], "B".to_string(), "L2".to_string(), 0);
    mgr.emit("s".to_string(), "t".to_string(), StrMap::new(), vec![]);
    let (sub, backlog) = mgr.receive_backlog("D").unwrap();
    assert_eq!(sub.registration_id, "D");
    assert_eq!(backlog.len(), 1);
    assert!(mgr.drain_mailbox("D").unwrap().is_empty());
    let (_, backlog) = mgr.receive_backlog("B").unwrap();
    assert!(backlog.is_empty());
    assert!(matches!(mgr.receive_backlog("X"), Err(Error::SubscriptionNotFound(id)) if id == "X"));
}

#[test]
fn renew_subscription_by_wall_clock() {
    let mut mgr = manager();
    let (reg_id, _, _) = mgr.subscribe("s".to_string(), StrMap::new(), DeliveryMode::Durable, 60, vec![]);
    assert!(mgr.renew_subscription(&reg_id, 120).is_ok());
    assert!(matches!(mgr.renew_subscription("nope", 120), Err(Error::SubscriptionNotFound(_))));
}
