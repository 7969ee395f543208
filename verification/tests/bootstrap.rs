use coordin8::bootstrap::{
    capability_to_registry_entry, enlist_failure, is_transport_failure, lookup_outcome, next_backoff,
    registration_request, renewal_interval_secs, service_address, Backoff, BootstrapError, Capability, RpcStatus,
    CODE_CANCELLED, CODE_DEADLINE_EXCEEDED, CODE_NOT_FOUND, CODE_UNAVAILABLE, CODE_UNKNOWN,
};
use coordin8::error::Error;
use coordin8::registry::TransportConfig;
use coordin8::strmap::StrMap;
use coordin8::bootstrap::PendingCapabilityResolver;
use coordin8::bootstrap::SelfRegistration;
use coordin8::bootstrap::capability_of;
use coordin8::registry::RegistryEntry;

fn map(pairs: &[(&str, &str)]) -> StrMap<String> {
    let mut m = StrMap::new();
    for (k, v) in pairs {
        m.insert(k.to_string(), v.to_string());
    }
    m
}

#[test]
fn backoff_doubles_up_to_five_seconds() {
    let mut b = Backoff::new();
    let waits: Vec<u64> = (0..9).map(|_| b.on_failure()).collect();
    assert_eq!(waits, vec![100, 200, 400, 800, 1600, 3200, 5000, 5000, 5000]);
    assert_eq!(next_backoff(2499), 4998);
    assert_eq!(next_backoff(2500), 5000);
    assert_eq!(next_backoff(u64::MAX), 5000);
}

#[test]
fn renewal_runs_three_times_per_ttl() {
    assert_eq!(renewal_interval_secs(30), 10);
    assert_eq!(renewal_interval_secs(3), 1);
    assert_eq!(renewal_interval_secs(1), 1);
    assert_eq!(renewal_interval_secs(0), 1);
    assert_eq!(renewal_interval_secs(10), 3);
}

#[test]
fn transport_failures_call_for_reconnecting() {
    for code in [CODE_UNAVAILABLE, CODE_CANCELLED, CODE_UNKNOWN, CODE_DEADLINE_EXCEEDED] {
        assert!(is_transport_failure(code));
    }
    assert!(!is_transport_failure(CODE_NOT_FOUND));
    assert!(!is_transport_failure(0));
    assert!(!is_transport_failure(7));
}

#[test]
fn discovered_service_address() {
    let t = Some(TransportConfig { transport_type: "grpc".to_string(), config: map(&[("host", "h"), ("port", "1")]) });
    assert_eq!(service_address(&t).unwrap(), "http://h:1");
    assert!(matches!(service_address(&None), Err(BootstrapError::MissingTransport(f)) if f == "transport"));
    let no_host = Some(TransportConfig { transport_type: "grpc".to_string(), config: map(&[("port", "1")]) });
    assert!(matches!(service_address(&no_host), Err(BootstrapError::MissingTransport(f)) if f == "host"));
    let no_port = Some(TransportConfig { transport_type: "grpc".to_string(), config: map(&[("host", "h")]) });
    assert!(matches!(service_address(&no_port), Err(BootstrapError::MissingTransport(f)) if f == "port"));
}

#[test]
fn self_registration_request() {
    let req = registration_request("EventMgr", &map(&[("zone", "a")]), "127.0.0.1", 9005, 30, "");
    assert_eq!(req.interface, "EventMgr");
    assert_eq!(req.ttl_seconds, 30);
    assert_eq!(req.capability_id, "");
    let t = req.transport.unwrap();
    assert_eq!(t.transport_type, "grpc");
    assert_eq!(t.config.get("host").unwrap(), "127.0.0.1");
    assert_eq!(t.config.get("port").unwrap(), "9005");
    assert_eq!(t.config.len(), 2);
    let renewal = registration_request("EventMgr", &StrMap::new(), "h", 0, 30, "C1");
    assert_eq!(renewal.capability_id, "C1");
    assert_eq!(renewal.transport.unwrap().config.get("port").unwrap(), "0");
}

#[test]
fn remote_lookup_outcomes() {
    let cap = Capability {
        capability_id: "C1".to_string(),
        interface: "Echo".to_string(),
        attrs: map(&[("a", "b")]),
        transport: None,
    };
    let entry = lookup_outcome(Ok(cap)).unwrap().unwrap();
    assert_eq!(entry.capability_id, "C1");
    assert_eq!(entry.lease_id, "");
    assert!(lookup_outcome(Err(RpcStatus { code: CODE_NOT_FOUND, text: "nothing".to_string() })).unwrap().is_none());
    match lookup_outcome(Err(RpcStatus { code: 13, text: "boom".to_string() })) {
        Err(Error::Internal(m)) => assert_eq!(m, "registry lookup failed: boom"),
        other => panic!("unexpected: {other:?}"),
    }
    assert!(matches!(enlist_failure(&RpcStatus { code: 9, text: "no".to_string() }), Error::Internal(m) if m == "enlist failed: no"));
    let e = capability_to_registry_entry(Capability {
        capability_id: "X".to_string(),
        interface: "I".to_string(),
        attrs: StrMap::new(),
        transport: None,
    });
    assert_eq!(e.interface, "I");
}

#[test]
fn self_registration_carries_its_capability_forward() {
    let mut reg = SelfRegistration::new("Space", StrMap::new(), "127.0.0.1", 9006, 30);
    assert_eq!(reg.capability_id(), "");
    assert_eq!(reg.lease_id(), "");
    let first = reg.initial_request();
    assert_eq!(first.capability_id, "");
    assert_eq!(first.interface, "Space");
    reg.on_registered("C1".to_string(), Some("L1".to_string()));
    assert_eq!(reg.capability_id(), "C1");
    assert_eq!(reg.lease_id(), "L1");
    let renewal = reg.renewal_request();
    assert_eq!(renewal.capability_id, "C1");
    assert_eq!(renewal.transport.unwrap().config.get("port").unwrap(), "9006");
    assert_eq!(reg.renewal_interval(), 10);
    reg.on_registered("C2".to_string(), None);
    assert_eq!(reg.lease_id(), "");
}

#[test]
fn pending_resolver_fails_fast_until_installed() {
    let mut p: PendingCapabilityResolver<u8> = PendingCapabilityResolver::new();
    match p.resolver() {
        Err(Error::Unavailable(m)) => assert_eq!(m, "waiting on dependency: Registry"),
        other => panic!("unexpected: {other:?}"),
    }
    p.install(7);
    assert_eq!(*p.resolver().unwrap(), 7);
}

#[test]
fn entries_are_reported_without_their_lease() {
    let e = RegistryEntry {
        capability_id: "C".to_string(),
        lease_id: "L".to_string(),
        interface: "I".to_string(),
        attrs: map(&[("a", "b")]),
        transport: Some(TransportConfig { transport_type: "grpc".to_string(), config: map(&[("host", "h")]) }),
    };
    let cap = capability_of(&e);
    assert_eq!(cap.capability_id, "C");
    assert_eq!(cap.transport.as_ref().unwrap().transport_type, "grpc");
    let back = capability_to_registry_entry(cap);
    assert_eq!(back.lease_id, "");
    assert_eq!(back.attrs.get("a").unwrap(), "b");
}
