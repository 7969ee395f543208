//! What split-mode services decide when they find and register with each
//! other: the retry backoff, the renewal period of a self-registration,
//! which RPC failures call for reconnecting, and how discovered
//! capabilities become addresses and registry entries.
use vstd::prelude::*;

use crate::env::{concat, int_text};
use crate::error::Error;
use crate::observability::decimal;
use crate::registry::{same_transport, RegisterRequest, RegistryEntry, TransportConfig};
use crate::strmap::StrMap;

verus! {

/// The first retry delay, in milliseconds.
pub const INITIAL_BACKOFF_MS: u64 = 100;

/// The longest retry delay, in milliseconds.
pub const MAX_BACKOFF_MS: u64 = 5000;

/// The delay after `ms`: doubled, capped at [`MAX_BACKOFF_MS`].
pub open spec fn backoff_after(ms: u64) -> u64 {
    if 2 * ms < MAX_BACKOFF_MS {
        (2 * ms) as u64
    } else {
        MAX_BACKOFF_MS
    }
}

/// Compute [`backoff_after`].
pub fn next_backoff(ms: u64) -> (next: u64)
    ensures
        next == backoff_after(ms),
{
    if ms < MAX_BACKOFF_MS / 2 {
        ms * 2
    } else {
        MAX_BACKOFF_MS
    }
}

/// The delays of a retry-forever loop: each failure waits the current
/// delay, then the next one doubles, up to a cap.
pub struct Backoff {
    ms: u64,
}

impl Backoff {
    /// The delay the next failure waits, in milliseconds.
    pub closed spec fn current(&self) -> u64 {
        self.ms
    }

    /// A fresh schedule, starting at [`INITIAL_BACKOFF_MS`].
    pub fn new() -> (b: Self)
        ensures
            b.current() == INITIAL_BACKOFF_MS,
    {
        Backoff { ms: INITIAL_BACKOFF_MS }
    }

    /// A failure happened: the delay to wait before retrying, after which
    /// the schedule moves on.
    pub fn on_failure(&mut self) -> (wait_ms: u64)
        ensures
            wait_ms == old(self).current(),
            final(self).current() == backoff_after(old(self).current()),
    {
        let wait_ms = self.ms;
        self.ms = next_backoff(self.ms);
        wait_ms
    }
}

/// The period, in seconds, at which a self-registration with a TTL of
/// `ttl_seconds` is renewed: a third of the TTL, and never under one
/// second.
pub fn renewal_interval_secs(ttl_seconds: u64) -> (secs: u64)
    ensures
        secs == (if ttl_seconds < 3 { 3 } else { ttl_seconds }) / 3,
{
    let ttl = if ttl_seconds < 3 {
        3
    } else {
        ttl_seconds
    };
    ttl / 3
}

/// gRPC status code `CANCELLED`.
pub const CODE_CANCELLED: i32 = 1;

/// gRPC status code `UNKNOWN`.
pub const CODE_UNKNOWN: i32 = 2;

/// gRPC status code `DEADLINE_EXCEEDED`.
pub const CODE_DEADLINE_EXCEEDED: i32 = 4;

/// gRPC status code `NOT_FOUND`.
pub const CODE_NOT_FOUND: i32 = 5;

/// gRPC status code `UNAVAILABLE`.
pub const CODE_UNAVAILABLE: i32 = 14;

/// The RPC did not reach a live server: the peer is to be rediscovered
/// and the call retried. Any other code is the server's own answer.
pub open spec fn transport_failure(code: i32) -> bool {
    code == CODE_UNAVAILABLE || code == CODE_CANCELLED || code == CODE_UNKNOWN || code == CODE_DEADLINE_EXCEEDED
}

/// Whether a failed RPC's status code is a transport failure.
pub fn is_transport_failure(code: i32) -> (yes: bool)
    ensures
        yes == transport_failure(code),
{
    code == CODE_UNAVAILABLE || code == CODE_CANCELLED || code == CODE_UNKNOWN || code == CODE_DEADLINE_EXCEEDED
}

/// A failed RPC: its status code and its rendering.
#[derive(Debug)]
pub struct RpcStatus {
    pub code: i32,
    pub text: String,
}

/// Why a bootstrap step failed.
#[derive(Debug)]
pub enum BootstrapError {
    /// The connection could not be made.
    Transport(String),
    /// The RPC failed.
    Rpc(RpcStatus),
    /// A discovered capability lacks a transport field.
    MissingTransport(String),
}

/// A capability as Registry reports it.
pub struct Capability {
    pub capability_id: String,
    pub interface: String,
    pub attrs: StrMap<String>,
    pub transport: Option<TransportConfig>,
}

/// The registry entry of a reported capability. The report carries no
/// lease id, so the entry's is empty.
pub fn capability_to_registry_entry(cap: Capability) -> (e: RegistryEntry)
    ensures
        e.capability_id == cap.capability_id,
        e.lease_id@ == Seq::<char>::empty(),
        e.interface == cap.interface,
        e.attrs@ == cap.attrs@,
        e.transport == cap.transport,
{
    RegistryEntry {
        capability_id: cap.capability_id,
        lease_id: String::new(),
        interface: cap.interface,
        attrs: cap.attrs,
        transport: cap.transport,
    }
}

/// How Registry reports an entry: everything but its lease id.
pub fn capability_of(e: &RegistryEntry) -> (cap: Capability)
    ensures
        cap.capability_id == e.capability_id,
        cap.interface == e.interface,
        cap.attrs@ == e.attrs@,
        same_transport(cap.transport, e.transport),
{
    let transport = match &e.transport {
        Some(t) => Some(t.clone()),
        None => None,
    };
    Capability {
        capability_id: e.capability_id.clone(),
        interface: e.interface.clone(),
        attrs: e.attrs.clone(),
        transport,
    }
}

/// The address a discovered service is dialled at: `http://host:port`
/// from its transport, which must carry both.
pub fn service_address(transport: &Option<TransportConfig>) -> (r: Result<String, BootstrapError>)
    ensures
        match transport {
            None => r matches Err(BootstrapError::MissingTransport(f)) && f@ == "transport"@,
            Some(t) => if !t.config@.contains_key("host"@) {
                r matches Err(BootstrapError::MissingTransport(f)) && f@ == "host"@
            } else if !t.config@.contains_key("port"@) {
                r matches Err(BootstrapError::MissingTransport(f)) && f@ == "port"@
            } else {
                r matches Ok(a) && a@ == "http://"@ + t.config@["host"@]@ + ":"@ + t.config@["port"@]@
            },
        },
{
    let t = match transport {
        Some(t) => t,
        None => {
            return Err(BootstrapError::MissingTransport("transport".to_owned()));
        },
    };
    let host = match t.config.get("host") {
        Some(h) => h,
        None => {
            return Err(BootstrapError::MissingTransport("host".to_owned()));
        },
    };
    let port = match t.config.get("port") {
        Some(p) => p,
        None => {
            return Err(BootstrapError::MissingTransport("port".to_owned()));
        },
    };
    let a = concat("http://", host.as_str());
    let b = concat(a.as_str(), ":");
    Ok(concat(b.as_str(), port.as_str()))
}

/// The registration a service sends for itself: `interface` and `attrs`,
/// a `grpc` transport at `host` and `port`, its TTL, and the capability id
/// it already holds (empty on the first registration).
pub fn registration_request(
    interface: &str,
    attrs: &StrMap<String>,
    host: &str,
    port: u16,
    ttl_seconds: u64,
    capability_id: &str,
) -> (req: RegisterRequest)
    ensures
        req.interface@ == interface@,
        req.attrs@ == attrs@,
        req.ttl_seconds == ttl_seconds,
        req.capability_id@ == capability_id@,
        req.transport matches Some(t) && t.transport_type@ == "grpc"@ && t.config@.dom() == set!["host"@, "port"@]
            && t.config@["host"@]@ == host@ && t.config@["port"@]@ == decimal(port as int),
{
    let mut config: StrMap<String> = StrMap::new();
    proof {
        reveal_strlit("host");
        reveal_strlit("port");
        assert("host"@[0] != "port"@[0]);
    }
    config.insert("host".to_owned(), host.to_owned());
    config.insert("port".to_owned(), int_text(port as i32));
    proof {
        assert(config@.dom() =~= set!["host"@, "port"@]);
    }
    RegisterRequest {
        capability_id: capability_id.to_owned(),
        interface: interface.to_owned(),
        attrs: attrs.clone(),
        ttl_seconds,
        transport: Some(TransportConfig { transport_type: "grpc".to_owned(), config }),
    }
}

/// A service's registration of itself: what it registers, and the
/// capability and lease Registry answered with.
pub struct SelfRegistration {
    interface: String,
    attrs: StrMap<String>,
    host: String,
    port: u16,
    ttl_seconds: u64,
    capability_id: String,
    lease_id: String,
}

impl SelfRegistration {
    /// The interface registered.
    pub closed spec fn spec_interface(&self) -> Seq<char> {
        self.interface@
    }

    /// The attributes registered.
    pub closed spec fn spec_attrs(&self) -> Map<Seq<char>, String> {
        self.attrs@
    }

    /// The advertised host.
    pub closed spec fn spec_host(&self) -> Seq<char> {
        self.host@
    }

    /// The advertised port.
    pub closed spec fn spec_port(&self) -> u16 {
        self.port
    }

    /// The TTL asked for.
    pub closed spec fn spec_ttl(&self) -> u64 {
        self.ttl_seconds
    }

    /// The capability id Registry gave, empty before the first answer.
    pub closed spec fn spec_capability_id(&self) -> Seq<char> {
        self.capability_id@
    }

    /// The lease id Registry gave, empty before the first answer or when
    /// the answer carried no lease.
    pub closed spec fn spec_lease_id(&self) -> Seq<char> {
        self.lease_id@
    }

    /// A registration not yet answered.
    pub fn new(interface: &str, attrs: StrMap<String>, host: &str, port: u16, ttl_seconds: u64) -> (r: Self)
        ensures
            r.spec_interface() == interface@,
            r.spec_attrs() == attrs@,
            r.spec_host() == host@,
            r.spec_port() == port,
            r.spec_ttl() == ttl_seconds,
            r.spec_capability_id().len() == 0,
            r.spec_lease_id().len() == 0,
    {
        SelfRegistration {
            interface: interface.to_owned(),
            attrs,
            host: host.to_owned(),
            port,
            ttl_seconds,
            capability_id: String::new(),
            lease_id: String::new(),
        }
    }

    /// The first registration: no capability id yet.
    pub fn initial_request(&self) -> (req: RegisterRequest)
        ensures
            req.capability_id@.len() == 0,
            req.interface@ == self.spec_interface(),
            req.attrs@ == self.spec_attrs(),
            req.ttl_seconds == self.spec_ttl(),
            req.transport matches Some(t) && t.transport_type@ == "grpc"@ && t.config@.dom() == set!["host"@, "port"@]
                && t.config@["host"@]@ == self.spec_host() && t.config@["port"@]@ == decimal(self.spec_port() as int),
    {
        proof {
            reveal_strlit("");
        }
        registration_request(self.interface.as_str(), &self.attrs, self.host.as_str(), self.port, self.ttl_seconds, "")
    }

    /// Record Registry's answer to the first registration.
    pub fn on_registered(&mut self, capability_id: String, lease_id: Option<String>)
        ensures
            final(self).spec_capability_id() == capability_id@,
            final(self).spec_lease_id() == match lease_id {
                Some(l) => l@,
                None => Seq::<char>::empty(),
            },
            final(self).spec_interface() == old(self).spec_interface(),
            final(self).spec_attrs() == old(self).spec_attrs(),
            final(self).spec_host() == old(self).spec_host(),
            final(self).spec_port() == old(self).spec_port(),
            final(self).spec_ttl() == old(self).spec_ttl(),
    {
        self.capability_id = capability_id;
        self.lease_id = match lease_id {
            Some(l) => l,
            None => String::new(),
        };
    }

    /// The periodic re-registration: the same request under the
    /// capability id Registry gave.
    pub fn renewal_request(&self) -> (req: RegisterRequest)
        ensures
            req.capability_id@ == self.spec_capability_id(),
            req.interface@ == self.spec_interface(),
            req.attrs@ == self.spec_attrs(),
            req.ttl_seconds == self.spec_ttl(),
            req.transport matches Some(t) && t.transport_type@ == "grpc"@ && t.config@.dom() == set!["host"@, "port"@]
                && t.config@["host"@]@ == self.spec_host() && t.config@["port"@]@ == decimal(self.spec_port() as int),
    {
        registration_request(
            self.interface.as_str(),
            &self.attrs,
            self.host.as_str(),
            self.port,
            self.ttl_seconds,
            self.capability_id.as_str(),
        )
    }

    /// The renewal period, in seconds.
    pub fn renewal_interval(&self) -> (secs: u64)
        ensures
            secs == (if self.spec_ttl() < 3 { 3 } else { self.spec_ttl() }) / 3,
    {
        renewal_interval_secs(self.ttl_seconds)
    }

    /// The lease id granted by Registry for this registration.
    pub fn lease_id(&self) -> (id: &str)
        ensures
            id@ == self.spec_lease_id(),
    {
        self.lease_id.as_str()
    }

    /// The capability id assigned by Registry.
    pub fn capability_id(&self) -> (id: &str)
        ensures
            id@ == self.spec_capability_id(),
    {
        self.capability_id.as_str()
    }
}

/// A resolver that starts without its dependency and serves once one is
/// installed; until then every request fails fast as unavailable.
pub struct PendingCapabilityResolver<R> {
    inner: Option<R>,
}

impl<R> PendingCapabilityResolver<R> {
    /// The installed resolver, if any.
    pub closed spec fn installed(&self) -> Option<R> {
        self.inner
    }

    /// Nothing installed yet.
    pub fn new() -> (p: Self)
        ensures
            p.installed() is None,
    {
        PendingCapabilityResolver { inner: None }
    }

    /// Install the resolved dependency; every later request goes to it.
    pub fn install(&mut self, resolved: R)
        ensures
            final(self).installed() == Some(resolved),
    {
        self.inner = Some(resolved);
    }

    /// The resolver to ask, or the answer while there is none.
    pub fn resolver(&self) -> (r: Result<&R, Error>)
        ensures
            match self.installed() {
                Some(x) => r matches Ok(y) && *y == x,
                None => r matches Err(Error::Unavailable(m)) && m@ == "waiting on dependency: Registry"@,
            },
    {
        match &self.inner {
            Some(x) => Ok(x),
            None => Err(Error::Unavailable("waiting on dependency: Registry".to_owned())),
        }
    }
}

/// What a template lookup against a remote Registry gives: the entry of
/// the reported capability; nothing when Registry answers `NOT_FOUND`;
/// otherwise an internal error carrying the status.
pub fn lookup_outcome(reply: Result<Capability, RpcStatus>) -> (r: Result<Option<RegistryEntry>, Error>)
    ensures
        match reply {
            Ok(cap) => r matches Ok(Some(e)) && e.capability_id == cap.capability_id && e.interface == cap.interface
                && e.attrs@ == cap.attrs@ && e.transport == cap.transport && e.lease_id@.len() == 0,
            Err(s) => if s.code == CODE_NOT_FOUND {
                r matches Ok(None)
            } else {
                r matches Err(Error::Internal(m)) && m@ == "registry lookup failed: "@ + s.text@
            },
        },
{
    match reply {
        Ok(cap) => Ok(Some(capability_to_registry_entry(cap))),
        Err(s) => if s.code == CODE_NOT_FOUND {
            Ok(None)
        } else {
            Err(Error::Internal(concat("registry lookup failed: ", s.text.as_str())))
        },
    }
}

/// The error a refused enlistment is reported as.
pub fn enlist_failure(status: &RpcStatus) -> (e: Error)
    ensures
        e matches Error::Internal(m) && m@ == "enlist failed: "@ + status.text@,
{
    Error::Internal(concat("enlist failed: ", status.text.as_str()))
}

/// Retry delays never exceed the cap and never shrink: from any delay
/// within the cap the next is at least as long and still within it.
pub proof fn law_backoff_grows_within_cap(ms: u64)
    requires
        ms <= MAX_BACKOFF_MS,
    ensures
        ms <= backoff_after(ms) <= MAX_BACKOFF_MS,
        ms > 0 && 2 * ms <= MAX_BACKOFF_MS ==> backoff_after(ms) == 2 * ms,
{
}

/// A self-registration is renewed at least three times per TTL for any
/// TTL of three seconds or more, and never more often than once a second.
pub proof fn law_renewal_well_before_expiry(ttl_seconds: u64)
    ensures
        (if ttl_seconds < 3 { 3 } else { ttl_seconds }) / 3 >= 1,
        ttl_seconds >= 3 ==> 3 * ((ttl_seconds / 3) as int) <= ttl_seconds,
{
}

/// Only transport-level failures lead to rediscovery: `NOT_FOUND` is an
/// answer, not a failure of the connection.
pub proof fn law_not_found_is_an_answer()
    ensures
        !transport_failure(CODE_NOT_FOUND),
        transport_failure(CODE_UNAVAILABLE),
{
}

} // verus!
