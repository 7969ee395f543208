use coordin8::lease::{LeaseConfig, LeaseManager};
use coordin8::proxy::{resolve, upstream_address, ProxyError, ProxyManager};
use coordin8::registry::{
    searchable_attrs, RegisterRequest, RegistryEntry, RegistryError, RegistryIndex, RegistryServiceImpl,
    TransportConfig, EXPIRED, MODIFIED, REGISTERED,
};
use coordin8::strmap::StrMap;

fn map(pairs: &[(&str, &str)]) -> StrMap<String> {
    let mut m = StrMap::new();
    for (k, v) in pairs {
        m.insert(k.to_string(), v.to_string());
    }
    m
}

fn grpc(host: &str, port: &str) -> Option<TransportConfig> {
    Some(TransportConfig { transport_type: "grpc".to_string(), config: map(&[("host", host), ("port", port)]) })
}

fn request(interface: &str, attrs: &[(&str, &str)], ttl: u64) -> RegisterRequest {
    RegisterRequest {
        capability_id: String::new(),
        interface: interface.to_string(),
        attrs: map(attrs),
        ttl_seconds: ttl,
        transport: grpc("10.0.0.1", "50051"),
    }
}

fn service() -> RegistryServiceImpl {
    RegistryServiceImpl::new(RegistryIndex::new(), LeaseManager::new(LeaseConfig::default()))
}

#[test]
fn register_then_lookup_by_interface() {
    let mut svc = service();
    let reg = svc.register_at(request("Greeter", &[("language", "english")], 30), "C1".to_string(), "L1".to_string(), 0).unwrap();
    assert_eq!(reg.capability_id, "C1");
    assert_eq!(reg.lease.lease_id, "L1");
    assert_eq!(reg.lease.resource_id, "registry:C1");
    assert_eq!(reg.lease.ttl_seconds, 30);
    assert_eq!(reg.event.event_type, REGISTERED);
    let found = svc.lookup(&map(&[("interface", "Greeter")])).unwrap();
    assert_eq!(found.capability_id, "C1");
    assert_eq!(found.lease_id, "L1");
    assert!(svc.lookup(&map(&[("language", "english")])).is_ok());
    assert!(matches!(svc.lookup(&map(&[("interface", "Other")])), Err(RegistryError::NoMatch)));
}

#[test]
fn lookup_all_returns_every_match_in_order() {
    let mut svc = service();
    svc.register_at(request("Greeter", &[("language", "english")], 30), "C1".to_string(), "L1".to_string(), 0).unwrap();
    svc.register_at(request("Greeter", &[("language", "spanish")], 30), "C2".to_string(), "L2".to_string(), 0).unwrap();
    svc.register_at(request("Clock", &[], 30), "C3".to_string(), "L3".to_string(), 0).unwrap();
    let all = svc.lookup_all(&map(&[("interface", "Greeter")]));
    assert_eq!(all.len(), 2);
    assert_eq!(all[0].capability_id, "C1");
    assert_eq!(all[1].capability_id, "C2");
    assert_eq!(svc.lookup_all(&StrMap::new()).len(), 3);
}

#[test]
fn re_registration_renews_and_replaces() {
    let mut svc = service();
    svc.register_at(request("Greeter", &[("v", "1")], 30), "C1".to_string(), "L1".to_string(), 0).unwrap();
    let mut again = request("Greeter", &[("v", "2")], 60);
    again.capability_id = "C1".to_string();
    let reg = svc.register_at(again, "unused".to_string(), "unused".to_string(), 1_000).unwrap();
    assert_eq!(reg.event.event_type, MODIFIED);
    assert_eq!(reg.lease.lease_id, "L1");
    assert_eq!(reg.lease.expires_at, 61_000);
    assert_eq!(svc.lookup_all(&StrMap::new()).len(), 1);
    assert!(svc.lookup(&map(&[("v", "2")])).is_ok());
    let mut unknown = request("Greeter", &[], 60);
    unknown.capability_id = "C9".to_string();
    assert!(matches!(svc.register_at(unknown, String::new(), String::new(), 0), Err(RegistryError::CapabilityNotFound(id)) if id == "C9"));
}

#[test]
fn re_registration_after_expiry_is_refused() {
    let mut svc = service();
    svc.register_at(request("Greeter", &[], 1), "C1".to_string(), "L1".to_string(), 0).unwrap();
    let mut again = request("Greeter", &[], 60);
    again.capability_id = "C1".to_string();
    assert!(matches!(svc.register_at(again, String::new(), String::new(), 5_000), Err(RegistryError::LeaseRejected(_))));
}

#[test]
fn modify_attrs_removes_then_adds() {
    let mut svc = service();
    svc.register_at(request("Greeter", &[("a", "1"), ("b", "2")], 30), "C1".to_string(), "L1".to_string(), 0).unwrap();
    let ev = svc.modify_attrs("C1", &vec!["a".to_string(), "b".to_string()], &map(&[("b", "3"), ("c", "4")])).unwrap();
    assert_eq!(ev.event_type, MODIFIED);
    assert!(ev.entry.attrs.get("a").is_none());
    assert_eq!(ev.entry.attrs.get("b").unwrap(), "3");
    assert_eq!(ev.entry.attrs.get("c").unwrap(), "4");
    assert!(matches!(svc.modify_attrs("C9", &vec![], &StrMap::new()), Err(RegistryError::CapabilityNotFound(_))));
}

#[test]
fn reclaimed_lease_takes_the_entry_with_it() {
    let mut svc = service();
    svc.register_at(request("Greeter", &[], 1), "C1".to_string(), "L1".to_string(), 0).unwrap();
    svc.register_at(request("Clock", &[], 100), "C2".to_string(), "L2".to_string(), 0).unwrap();
    let expired = svc.lease_manager().drain_expired_at(2_000);
    assert_eq!(expired.len(), 1);
    let ev = svc.on_lease_reclaimed(&expired[0].lease_id).unwrap();
    assert_eq!(ev.event_type, EXPIRED);
    assert_eq!(ev.entry.capability_id, "C1");
    assert!(svc.lookup(&map(&[("interface", "Greeter")])).is_err());
    assert!(svc.lookup(&map(&[("interface", "Clock")])).is_ok());
    assert!(svc.on_lease_reclaimed("L1").is_none());
}

#[test]
fn watch_sees_interface_as_an_attribute() {
    let entry = RegistryEntry {
        capability_id: "C".to_string(),
        lease_id: "L".to_string(),
        interface: "WeatherStation".to_string(),
        attrs: map(&[("region", "tampa")]),
        transport: None,
    };
    let attrs = searchable_attrs(&entry);
    assert_eq!(attrs.get("interface").unwrap(), "WeatherStation");
    let ev = coordin8::registry::RegistryChangedEvent { event_type: REGISTERED, entry };
    assert!(RegistryServiceImpl::watch_accepts(&map(&[("interface", "WeatherStation")]), &ev));
    assert!(!RegistryServiceImpl::watch_accepts(&map(&[("region", "miami")]), &ev));
}

#[test]
fn proxy_resolves_first_match_to_host_and_port() {
    let mut index = RegistryIndex::new();
    index.register(RegistryEntry {
        capability_id: "C1".to_string(),
        lease_id: "L1".to_string(),
        interface: "Echo".to_string(),
        attrs: StrMap::new(),
        transport: grpc("127.0.0.1", "7000"),
    });
    index.register(RegistryEntry {
        capability_id: "C2".to_string(),
        lease_id: "L2".to_string(),
        interface: "Bare".to_string(),
        attrs: StrMap::new(),
        transport: None,
    });
    assert_eq!(resolve(&index, &map(&[("interface", "Echo")])).unwrap(), "127.0.0.1:7000");
    assert!(matches!(resolve(&index, &map(&[("interface", "Bare")])), Err(ProxyError::NotFound(_))));
    assert!(matches!(resolve(&index, &map(&[("interface", "None")])), Err(ProxyError::NotFound(t)) if t.get("interface").unwrap() == "None"));
    let partial = TransportConfig { transport_type: "tcp".to_string(), config: map(&[("port", "9")]) };
    assert_eq!(upstream_address(&partial), ":9");
}

#[test]
fn proxy_table_opens_and_closes() {
    let mut proxies: ProxyManager<u32> = ProxyManager::new();
    assert_eq!(proxies.register("P1".to_string(), 9100, 7), ("P1".to_string(), 9100));
    assert_eq!(proxies.local_port("P1"), Some(9100));
    assert_eq!(proxies.close("P1").unwrap(), 7);
    assert!(matches!(proxies.close("P1"), Err(ProxyError::ProxyNotFound(id)) if id == "P1"));
    assert_eq!(proxies.local_port("P1"), None);
}

#[test]
fn index_finds_entries_by_lease() {
    let mut index = RegistryIndex::new();
    index.register(RegistryEntry {
        capability_id: "C1".to_string(),
        lease_id: "L1".to_string(),
        interface: "Echo".to_string(),
        attrs: StrMap::new(),
        transport: None,
    });
    assert_eq!(index.get_by_lease("L1").unwrap().capability_id, "C1");
    assert!(index.get_by_lease("L2").is_none());
    assert_eq!(index.unregister_by_lease("L1").unwrap().capability_id, "C1");
    assert!(index.get("C1").is_none());
}

#[test]
fn lookup_is_the_first_of_lookup_all() {
    let mut svc = service();
    svc.register_at(request("Clock", &[], 30), "C0".to_string(), "L0".to_string(), 0).unwrap();
    svc.register_at(request("Greeter", &[("language", "english")], 30), "C1".to_string(), "L1".to_string(), 0).unwrap();
    svc.register_at(request("Greeter", &[("language", "spanish")], 30), "C2".to_string(), "L2".to_string(), 0).unwrap();
    let template = map(&[("interface", "Greeter")]);
    let all = svc.lookup_all(&template);
    let first = svc.lookup(&template).unwrap();
    assert_eq!(first.capability_id, all[0].capability_id);
    assert_eq!(first.capability_id, "C1");
    assert!(svc.lookup_all(&map(&[("interface", "Other")])).is_empty());
}

#[test]
fn heartbeat_re_registration_keeps_id_and_lease() {
    let mut svc = service();
    let first = svc.register(request("Greeter", &[("v", "1")], 30)).unwrap();
    assert_eq!(first.event.event_type, REGISTERED);
    assert_eq!(first.lease.resource_id, format!("registry:{}", first.capability_id));
    let mut again = request("Greeter", &[("v", "2")], 30);
    again.capability_id = first.capability_id.clone();
    again.transport = grpc("10.0.0.2", "50052");
    let second = svc.register(again).unwrap();
    assert_eq!(second.event.event_type, MODIFIED);
    assert_eq!(second.capability_id, first.capability_id);
    assert_eq!(second.lease.lease_id, first.lease.lease_id);
    assert_eq!(second.event.entry.lease_id, first.lease.lease_id);
    assert_eq!(second.event.entry.attrs.get("v"), Some(&"2".to_string()));
    assert_eq!(second.event.entry.transport.as_ref().unwrap().config.get("host"), Some(&"10.0.0.2".to_string()));
    assert_eq!(svc.lookup_all(&StrMap::new()).len(), 1);
    let mut unknown = request("Greeter", &[], 30);
    unknown.capability_id = "missing".to_string();
    assert!(matches!(svc.register(unknown), Err(RegistryError::CapabilityNotFound(id)) if id == "missing"));
}

#[test]
fn closing_a_proxy_hands_back_its_own_handle() {
    let mut proxies: ProxyManager<u32> = ProxyManager::new();
    proxies.register("P1".to_string(), 9100, 1);
    proxies.register("P2".to_string(), 9100, 2);
    assert_eq!(proxies.close("P2").unwrap(), 2);
    assert_eq!(proxies.local_port("P1"), Some(9100));
    assert_eq!(proxies.close("P1").unwrap(), 1);
    assert!(proxies.close("P2").is_err());
}
