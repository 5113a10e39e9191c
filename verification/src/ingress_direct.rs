//! Second HTTP listener for traffic that does not come through the tunnel.
//! It is bound only when a port is configured; every request that arrives
//! on it is tagged with its ingress path (public peer or LAN).

use vstd::prelude::*;

use crate::metrics_catalog::{classify_peer, IngressPath};
use crate::text::{dec, dec_chars, extend_chars, extend_str, parse_u16, parse_u16_spec, str_chars, string_from};

verus! {

/// Direct-ingress settings; `port == 0` means "do not bind".
#[derive(Debug)]
pub struct DirectIngressConfig {
    pub bind: String,
    pub port: u16,
}

impl Clone for DirectIngressConfig {
    fn clone(&self) -> (r: DirectIngressConfig)
        ensures
            r.bind@ == self.bind@,
            r.port == self.port,
    {
        DirectIngressConfig { bind: self.bind.clone(), port: self.port }
    }
}

impl DirectIngressConfig {
    /// Settings from the `INGRESS_DIRECT_BIND` and `INGRESS_DIRECT_PORT`
    /// values (`None` when unset): bind defaults to `0.0.0.0`, and a port
    /// that is missing or not a `u16` means disabled.
    pub fn from_values(bind: Option<String>, port: Option<String>) -> (r: DirectIngressConfig)
        ensures
            r.bind@ == (match bind {
                Some(b) => b@,
                None => "0.0.0.0"@,
            }),
            r.port == (match port {
                Some(p) => match parse_u16_spec(p@) {
                    Some(n) => n,
                    None => 0,
                },
                None => 0,
            }),
    {
        let b = match bind {
            Some(b) => b,
            None => "0.0.0.0".to_string(),
        };
        let p = match port {
            Some(p) => match parse_u16(&str_chars(p.as_str())) {
                Some(n) => n,
                None => 0,
            },
            None => 0,
        };
        DirectIngressConfig { bind: b, port: p }
    }

    pub fn enabled(&self) -> (r: bool)
        ensures
            r == (self.port > 0),
    {
        self.port > 0
    }

    /// `bind:port`, the address the listener binds.
    pub fn listen_addr(&self) -> (r: String)
        ensures
            r@ == self.bind@ + ":"@ + dec(self.port as nat),
    {
        let mut out: Vec<char> = Vec::new();
        extend_str(&mut out, self.bind.as_str());
        extend_str(&mut out, ":");
        extend_chars(&mut out, &dec_chars(self.port as u64));
        string_from(&out)
    }
}

/// Ingress tag of a request on the direct listener: by its peer address,
/// `Direct` when the peer is unknown.
pub fn ingress_tag(peer_ip: &str) -> (r: IngressPath)
    ensures
        r == (if peer_ip@.len() == 0 {
            IngressPath::Direct
        } else {
            classify_peer(peer_ip@)
        }),
{
    if str_chars(peer_ip).len() == 0 {
        IngressPath::Direct
    } else {
        IngressPath::classify_direct_peer(peer_ip)
    }
}

} // verus!
