//! The Proxy: local ports that forward to whatever capability matches a
//! template. The address a template resolves to, and the table of open
//! proxies, are kept here; listening and copying bytes are the caller's.
use vstd::prelude::*;

use crate::env::concat;
use crate::registry::{first_match, RegistryEntry, RegistryIndex, TransportConfig};
use crate::strmap::StrMap;

verus! {

/// Why a proxy request failed.
#[derive(Debug)]
pub enum ProxyError {
    /// No capability matches the template, or the match has no transport.
    NotFound(StrMap<String>),
    /// No open proxy has this id.
    ProxyNotFound(String),
    /// Listening failed.
    Io(String),
}

/// A setting of a transport, or empty text when it is not set.
pub open spec fn setting_or_empty(config: Map<Seq<char>, String>, key: Seq<char>) -> Seq<char> {
    if config.contains_key(key) {
        config[key]@
    } else {
        Seq::empty()
    }
}

/// The `host:port` of a transport; a missing part is empty.
pub open spec fn address_of(t: TransportConfig) -> Seq<char> {
    setting_or_empty(t.config@, "host"@) + ":"@ + setting_or_empty(t.config@, "port"@)
}

/// The address a template resolves to among `entries`: that of the
/// first matching entry, when it has a transport.
pub open spec fn resolved(entries: Seq<RegistryEntry>, template: Map<Seq<char>, String>) -> Option<Seq<char>> {
    match first_match(entries, template) {
        Some(i) => match entries[i].transport {
            Some(t) => Some(address_of(t)),
            None => None,
        },
        None => None,
    }
}

fn setting(config: &StrMap<String>, key: &str) -> (v: String)
    ensures
        v@ == setting_or_empty(config@, key@),
{
    match config.get(key) {
        Some(v) => v.clone(),
        None => String::new(),
    }
}

/// The `host:port` a transport is reached at.
pub fn upstream_address(t: &TransportConfig) -> (addr: String)
    ensures
        addr@ == address_of(*t),
{
    let host = setting(&t.config, "host");
    let port = setting(&t.config, "port");
    let head = concat(host.as_str(), ":");
    concat(head.as_str(), port.as_str())
}

/// The address `template` resolves to in `registry`; fails with
/// [`ProxyError::NotFound`] when nothing matches or the match has no
/// transport.
pub fn resolve(registry: &RegistryIndex, template: &StrMap<String>) -> (r: Result<String, ProxyError>)
    ensures
        match resolved(registry.entries(), template@) {
            Some(a) => r matches Ok(addr) && addr@ == a,
            None => r matches Err(ProxyError::NotFound(t)) && t@ == template@,
        },
{
    match registry.lookup(template) {
        Some(entry) => match &entry.transport {
            Some(t) => Ok(upstream_address(t)),
            None => Err(ProxyError::NotFound(template.clone())),
        },
        None => Err(ProxyError::NotFound(template.clone())),
    }
}

/// An open proxy: its local port, and what stops it.
pub struct ProxyEntry<H> {
    pub local_port: u16,
    pub shutdown: H,
}

/// The open proxies, by proxy id.
pub struct ProxyManager<H> {
    proxies: StrMap<ProxyEntry<H>>,
}

impl<H> ProxyManager<H> {
    /// The local port of every open proxy, by proxy id.
    pub closed spec fn ports(&self) -> Map<Seq<char>, u16> {
        Map::new(|k: Seq<char>| self.proxies@.contains_key(k), |k: Seq<char>| self.proxies@[k].local_port)
    }

    /// What stops each open proxy, by proxy id.
    pub closed spec fn handles(&self) -> Map<Seq<char>, H> {
        Map::new(|k: Seq<char>| self.proxies@.contains_key(k), |k: Seq<char>| self.proxies@[k].shutdown)
    }

    /// No proxy open.
    pub fn new() -> (m: Self)
        ensures
            m.ports() == Map::<Seq<char>, u16>::empty(),
            m.handles() == Map::<Seq<char>, H>::empty(),
    {
        let m = ProxyManager { proxies: StrMap::new() };
        proof {
            assert(m.ports() =~= Map::<Seq<char>, u16>::empty());
            assert(m.handles() =~= Map::<Seq<char>, H>::empty());
        }
        m
    }

    /// Record the proxy `proxy_id` listening on `local_port`, stopped by
    /// `shutdown`. Returns its id and port.
    pub fn register(&mut self, proxy_id: String, local_port: u16, shutdown: H) -> (r: (String, u16))
        ensures
            r.0 == proxy_id,
            r.1 == local_port,
            final(self).ports() == old(self).ports().insert(proxy_id@, local_port),
            final(self).handles() == old(self).handles().insert(proxy_id@, shutdown),
    {
        let ghost handle = shutdown;
        self.proxies.insert(proxy_id.clone(), ProxyEntry { local_port, shutdown });
        proof {
            assert(self.ports() =~= old(self).ports().insert(proxy_id@, local_port));
            assert(self.handles() =~= old(self).handles().insert(proxy_id@, handle));
        }
        (proxy_id, local_port)
    }

    /// Close proxy `proxy_id`: forget it and hand back what stops that
    /// proxy. Fails with [`ProxyError::ProxyNotFound`] when no such proxy is
    /// open.
    pub fn close(&mut self, proxy_id: &str) -> (r: Result<H, ProxyError>)
        ensures
            r is Ok == old(self).ports().contains_key(proxy_id@),
            r matches Ok(h) ==> h == old(self).handles()[proxy_id@],
            r matches Err(e) ==> e matches ProxyError::ProxyNotFound(id) && id@ == proxy_id@,
            final(self).ports() == old(self).ports().remove(proxy_id@),
            final(self).handles() == old(self).handles().remove(proxy_id@),
    {
        let removed = self.proxies.remove(proxy_id);
        proof {
            assert(self.ports() =~= old(self).ports().remove(proxy_id@));
            assert(self.handles() =~= old(self).handles().remove(proxy_id@));
        }
        match removed {
            Some(entry) => Ok(entry.shutdown),
            None => Err(ProxyError::ProxyNotFound(proxy_id.to_owned())),
        }
    }

    /// The local port of proxy `proxy_id`, if open.
    pub fn local_port(&self, proxy_id: &str) -> (p: Option<u16>)
        ensures
            p is Some == self.ports().contains_key(proxy_id@),
            p matches Some(port) ==> port == self.ports()[proxy_id@],
    {
        match self.proxies.get(proxy_id) {
            Some(e) => Some(e.local_port),
            None => None,
        }
    }
}

} // verus!
