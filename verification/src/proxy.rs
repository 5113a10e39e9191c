//! Request routing decisions of the reverse proxy: which backend serves a
//! request (registry first, then the legacy fixed routes), the upstream URL,
//! which requests are refused outright, which headers are not forwarded, and
//! the metrics event that describes a proxied request.

use vstd::prelude::*;

use crate::metrics_catalog::{
    error_type_of, truncate_ip, truncate_ip_spec, ua_class_of, ErrorType, IngressPath,
    RequestEvent, UaClass,
};
use crate::registry::{host_key, route_of, strs, t32};
use crate::text::{
    before, before_char, ends_with, ends_with_seq, eq_ignore_ascii_case, eq_ignore_case,
    extend_chars, extend_str, slice_chars, starts_with, starts_with_seq, str_chars, string_from,
    to_string, trim, trim_chars, trim_end_char, trim_leading, trim_start_char, trim_trailing,
};

verus! {

/// Legacy fixed routes: default backend, path-prefix / hostname routes for
/// the bundled products.
#[allow(non_camel_case_types)]
#[derive(Debug)]
pub struct t29 {
    /// Default backend.
    pub s35: String,
    /// Second product backend.
    pub s36: String,
    /// Hostnames of the second product.
    pub s37: Vec<String>,
    /// Path prefix served by the second product.
    pub s38: Option<String>,
    /// Third product backend.
    pub s42: String,
    /// Hostnames of the third product.
    pub s43: Vec<String>,
    /// Fourth product backend.
    pub s49: String,
    /// Hostnames of the fourth product.
    pub s50: Vec<String>,
    /// Host suffix served by the fourth product.
    pub s51: Option<String>,
}

pub open spec fn opt_view(o: Option<String>) -> Option<Seq<char>> {
    match o {
        Some(s) => Some(s@),
        None => None,
    }
}

pub open spec fn opt_str(o: Option<&str>) -> Option<Seq<char>> {
    match o {
        Some(s) => Some(s@),
        None => None,
    }
}

/// `h` equals one of the listed hostnames (ASCII case-insensitive).
pub open spec fn listed(list: Seq<Seq<char>>, h: Seq<char>) -> bool {
    exists|i: int| 0 <= i < list.len() && eq_ignore_case(h, #[trigger] list[i])
}

/// The host-suffix route: the trimmed suffix is non-empty and the host
/// equals it without its leading dots, or ends with it.
pub open spec fn suffix_hit(suffix: Option<Seq<char>>, h: Seq<char>) -> bool {
    match suffix {
        Some(x) => {
            let s = trim(x);
            s.len() > 0 && (eq_ignore_case(h, trim_leading(s, '.')) || ends_with_seq(h, s))
        },
        None => false,
    }
}

/// The configured path prefix without its surrounding slashes, so that
/// `/app`, `app/` and `/app/` all name the route root `/app`.
pub open spec fn prefix_name(x: Seq<char>) -> Seq<char> {
    trim_leading(trim_trailing(x, '/'), '/')
}

/// The path-prefix route: `/prefix`, `/prefix/` or anything under `/prefix/`.
pub open spec fn prefix_hit(prefix: Option<Seq<char>>, path: Seq<char>) -> bool {
    match prefix {
        Some(x) => {
            let p = prefix_name(x);
            let root = seq!['/'] + p;
            p.len() > 0 && (path == root || path == root.push('/') || starts_with_seq(path, root.push('/')))
        },
        None => false,
    }
}

/// Backend chosen by host for the legacy routes, if any.
pub open spec fn host_origin(c: t29, h: Seq<char>) -> Option<Seq<char>> {
    if suffix_hit(opt_view(c.s51), h) || listed(strs(c.s50@), h) {
        Some(c.s49@)
    } else if listed(strs(c.s43@), h) {
        Some(c.s42@)
    } else if listed(strs(c.s37@), h) {
        Some(c.s36@)
    } else {
        None
    }
}

/// The legacy backend for a request: host routes first, then the path
/// prefix, then the default backend.
pub open spec fn origin_of(c: t29, host: Option<Seq<char>>, path: Seq<char>) -> Seq<char> {
    let by_host = match host {
        Some(raw) => host_origin(c, trim(before_char(raw, ':'))),
        None => None,
    };
    match by_host {
        Some(b) => b,
        None => if prefix_hit(opt_view(c.s38), path) {
            c.s36@
        } else {
            c.s35@
        },
    }
}

/// Upstream URL: base, then the path (`/` when empty), then `?query`.
pub open spec fn proxy_url(base: Seq<char>, path: Seq<char>, query: Option<Seq<char>>) -> Seq<char> {
    base + (if path.len() == 0 {
        seq!['/']
    } else {
        path
    }) + match query {
        Some(q) => seq!['?'] + q,
        None => Seq::empty(),
    }
}

fn listed_exec(list: &Vec<String>, h: &Vec<char>) -> (r: bool)
    ensures
        r == listed(strs(list@), h@),
{
    let ghost l = strs(list@);
    let mut i: usize = 0;
    while i < list.len()
        invariant
            i <= list.len(),
            l == strs(list@),
            forall|k: int| 0 <= k < i ==> !eq_ignore_case(h@, #[trigger] l[k]),
        decreases list.len() - i,
    {
        let x = str_chars(list[i].as_str());
        assert(l[i as int] == x@);
        if eq_ignore_ascii_case(h, &x) {
            return true;
        }
        i = i + 1;
    }
    false
}

fn suffix_hit_exec(suffix: &Option<String>, h: &Vec<char>) -> (r: bool)
    ensures
        r == suffix_hit(opt_view(*suffix), h@),
{
    match suffix {
        Some(x) => {
            let raw = str_chars(x.as_str());
            let s = trim_chars(&raw);
            if s.len() == 0 {
                return false;
            }
            let bare = trim_start_char(&s, '.');
            eq_ignore_ascii_case(h, &bare) || ends_with(h, &s)
        },
        None => false,
    }
}

/// `/` followed by the characters of `p`.
fn rooted(p: &Vec<char>) -> (r: Vec<char>)
    ensures
        r@ == seq!['/'] + p@,
{
    let mut out: Vec<char> = Vec::new();
    out.push('/');
    extend_chars(&mut out, p);
    out
}

fn prefix_hit_exec(prefix: &Option<String>, path: &Vec<char>) -> (r: bool)
    ensures
        r == prefix_hit(opt_view(*prefix), path@),
{
    match prefix {
        Some(x) => {
            let raw = str_chars(x.as_str());
            let p = trim_start_char(&trim_end_char(&raw, '/'), '/');
            if p.len() == 0 {
                return false;
            }
            let root = rooted(&p);
            let mut root_slash = rooted(&p);
            root_slash.push('/');
            let eq_root = path.len() == root.len() && starts_with(path, &root);
            let eq_root_slash = path.len() == root_slash.len() && starts_with(path, &root_slash);
            proof {
                if path@.len() == root@.len() && starts_with_seq(path@, root@) {
                    assert(path@ =~= root@);
                }
                if path@.len() == root_slash@.len() && starts_with_seq(path@, root_slash@) {
                    assert(path@ =~= root_slash@);
                }
                if path@ == root@ {
                    assert(path@.subrange(0, root@.len() as int) =~= path@);
                }
                if path@ == root_slash@ {
                    assert(path@.subrange(0, root_slash@.len() as int) =~= path@);
                }
            }
            eq_root || eq_root_slash || starts_with(path, &root_slash)
        },
        None => false,
    }
}

/// Legacy backend for a request (`f56`: resolve origin).
pub fn f56<'a>(p0: &'a t29, p1: Option<&str>, p2: &str) -> (r: &'a str)
    ensures
        r@ == origin_of(*p0, opt_str(p1), p2@),
{
    if let Some(raw) = p1 {
        let chars = str_chars(raw);
        let first = before(&chars, ':');
        let h = trim_chars(&first);
        if suffix_hit_exec(&p0.s51, &h) || listed_exec(&p0.s50, &h) {
            return p0.s49.as_str();
        }
        if listed_exec(&p0.s43, &h) {
            return p0.s42.as_str();
        }
        if listed_exec(&p0.s37, &h) {
            return p0.s36.as_str();
        }
    }
    let path = str_chars(p2);
    if prefix_hit_exec(&p0.s38, &path) {
        p0.s36.as_str()
    } else {
        p0.s35.as_str()
    }
}

/// Upstream URL for a backend base, request path and query (`f57`).
pub fn f57(p0: &str, p1: &str, p2: Option<&str>) -> (r: String)
    ensures
        r@ == proxy_url(p0@, p1@, opt_str(p2)),
{
    let mut out = str_chars(p0);
    let path = str_chars(p1);
    if path.len() == 0 {
        out.push('/');
    } else {
        extend_chars(&mut out, &path);
    }
    if let Some(q) = p2 {
        out.push('?');
        extend_str(&mut out, q);
    }
    let r = string_from(&out);
    assert(r@ =~= proxy_url(p0@, p1@, opt_str(p2)));
    r
}

/// Upstream URL on the legacy routes: a request under the path prefix is
/// forwarded with the prefix stripped.
pub open spec fn legacy_url(c: t29, base: Seq<char>, path: Seq<char>, query: Option<Seq<char>>) -> Seq<char> {
    match opt_view(c.s38) {
        Some(x) => {
            let strip = prefix_name(x);
            let root = seq!['/'] + strip;
            if strip.len() > 0 && (path == root || path == root.push('/')) {
                proxy_url(base, seq!['/'], query)
            } else if starts_with_seq(path, root.push('/')) {
                proxy_url(base, path.subrange(root.len() as int, path.len() as int), query)
            } else {
                proxy_url(base, path, query)
            }
        },
        None => proxy_url(base, path, query),
    }
}

/// The registry's answer for a request host, if a registry is in use.
pub open spec fn registry_route(registry: Option<&t32>, host: Option<&str>) -> Option<(Seq<char>, Seq<char>)> {
    match (registry, host) {
        (Some(reg), Some(h)) => route_of(reg.apps(), host_key(h@)),
        _ => None,
    }
}

fn legacy_url_exec(p0: &t29, base: &str, path: &str, query: Option<&str>) -> (r: String)
    ensures
        r@ == legacy_url(*p0, base@, path@, opt_str(query)),
{
    match &p0.s38 {
        Some(x) => {
            let raw = str_chars(x.as_str());
            let strip = trim_start_char(&trim_end_char(&raw, '/'), '/');
            let root = rooted(&strip);
            let mut root_slash = rooted(&strip);
            root_slash.push('/');
            let p = str_chars(path);
            let eq_root = p.len() == root.len() && starts_with(&p, &root);
            let eq_root_slash = p.len() == root_slash.len() && starts_with(&p, &root_slash);
            proof {
                if p@.len() == root@.len() && starts_with_seq(p@, root@) {
                    assert(p@ =~= root@);
                }
                if p@.len() == root_slash@.len() && starts_with_seq(p@, root_slash@) {
                    assert(p@ =~= root_slash@);
                }
                if p@ == root@ {
                    assert(p@.subrange(0, root@.len() as int) =~= p@);
                }
                if p@ == root_slash@ {
                    assert(p@.subrange(0, root_slash@.len() as int) =~= p@);
                }
            }
            proof {
                reveal_strlit("/");
                assert("/"@ =~= seq!['/']);
            }
            if strip.len() > 0 && (eq_root || eq_root_slash) {
                f57(base, "/", query)
            } else if starts_with(&p, &root_slash) {
                let rest = string_from(&slice_chars(&p, root.len(), p.len()));
                f57(base, rest.as_str(), query)
            } else {
                f57(base, path, query)
            }
        },
        None => f57(base, path, query),
    }
}

/// (app id, backend base URL, upstream URL) for a request. The registry wins;
/// otherwise the legacy routes serve it and the app id is empty.
pub fn resolve_backend(
    p0: &t29,
    registry: Option<&t32>,
    host: Option<&str>,
    path: &str,
    query: Option<&str>,
) -> (r: (String, String, String))
    ensures
        match registry_route(registry, host) {
            Some(found) => r.0@ == found.0 && r.1@ == found.1 && r.2@ == proxy_url(
                found.1,
                path@,
                opt_str(query),
            ),
            None => r.0@ == Seq::<char>::empty() && r.1@ == origin_of(*p0, opt_str(host), path@)
                && r.2@ == legacy_url(*p0, r.1@, path@, opt_str(query)),
        },
{
    if let Some(reg) = registry {
        if let Some((app_id, base)) = reg.resolve_app(host) {
            let url = f57(base.as_str(), path, query);
            return (app_id, base, url);
        }
    }
    let base = to_string(f56(p0, host, path));
    let url = legacy_url_exec(p0, base.as_str(), path, query);
    (String::new(), base, url)
}

/// Requests from Tor exit nodes (`cf-ipcountry: T1`) are refused with 403.
pub fn blocks_request(cf_ipcountry: Option<&str>) -> (r: bool)
    ensures
        r == (opt_str(cf_ipcountry) == Some("T1"@)),
{
    match cf_ipcountry {
        Some(c) => {
            let v = str_chars(c);
            let t1 = str_chars("T1");
            proof {
                reveal_strlit("T1");
            }
            v.len() == 2 && v[0] == 'T' && v[1] == '1' && {
                assert(v@ =~= t1@);
                true
            }
        },
        None => false,
    }
}

/// Hop-by-hop headers that are not copied between client and upstream.
pub fn is_hop_header(name: &str) -> (r: bool)
    ensures
        r == (eq_ignore_case(name@, "transfer-encoding"@) || eq_ignore_case(name@, "connection"@)),
{
    let n = str_chars(name);
    eq_ignore_ascii_case(&n, &str_chars("transfer-encoding")) || eq_ignore_ascii_case(
        &n,
        &str_chars("connection"),
    )
}

// ---------------------------------------------------------------------------
// TLS label from the `cf-visitor` header
// ---------------------------------------------------------------------------

/// The string member `key` of the JSON object text `raw`, as parsed by
/// `serde_json`; `None` when `raw` is not JSON, not an object, or the member
/// is missing or not a string.
pub uninterp spec fn json_str_member(raw: Seq<char>, key: Seq<char>) -> Option<Seq<char>>;

/// Parses `raw` with `serde_json::from_str::<serde_json::Value>` and reads the
/// string member `key` (`Value::get`, then `Value::as_str`). Claimed: the
/// result is `json_str_member(raw, key)`, a function of the two texts alone.
#[verifier::external_body]
fn json_string_member(raw: &str, key: &str) -> (r: Option<String>)
    ensures
        r matches Some(s) ==> json_str_member(raw@, key@) == Some(s@),
        r is None ==> json_str_member(raw@, key@) is None,
{
    let v: serde_json::Value = serde_json::from_str(raw).ok()?;
    v.get(key).and_then(|s| s.as_str()).map(|s| s.to_string())
}

pub open spec fn tls_label_spec(scheme: Seq<char>) -> Seq<char> {
    if eq_ignore_case(scheme, "https"@) {
        "TLS (CF-edge)"@
    } else {
        "none"@
    }
}

/// The TLS label recorded for the `scheme` member of `cf-visitor`.
pub fn tls_label(scheme: Option<&str>) -> (r: Option<String>)
    ensures
        match scheme {
            Some(s) => r matches Some(l) && l@ == tls_label_spec(s@),
            None => r is None,
        },
{
    match scheme {
        Some(s) => {
            if eq_ignore_ascii_case(&str_chars(s), &str_chars("https")) {
                Some("TLS (CF-edge)".to_string())
            } else {
                Some("none".to_string())
            }
        },
        None => None,
    }
}

/// TLS label from a raw `cf-visitor` header value; `None` off the Cloudflare
/// path or when the header carries no string `scheme`.
pub fn tls_from_cf_visitor(raw: Option<&str>) -> (r: Option<String>)
    ensures
        match raw {
            Some(text) => match json_str_member(text@, "scheme"@) {
                Some(s) => r matches Some(l) && l@ == tls_label_spec(s),
                None => r is None,
            },
            None => r is None,
        },
{
    match raw {
        Some(text) => {
            let scheme = json_string_member(text, "scheme");
            match scheme {
                Some(s) => tls_label(Some(s.as_str())),
                None => None,
            }
        },
        None => None,
    }
}

// ---------------------------------------------------------------------------
// Metrics event for one proxied request
// ---------------------------------------------------------------------------

/// Header values of a proxied request that the metrics event reads.
pub struct RequestHeaders {
    /// `cf-ipcountry` (empty when absent).
    pub country: String,
    /// `cf-connecting-ip` (empty when absent).
    pub connecting_ip: String,
    /// `user-agent` (empty when absent).
    pub user_agent: String,
    /// `cf-visitor`, when present and readable.
    pub cf_visitor: Option<String>,
}

/// Outcome of a proxied request as the proxy measured it.
pub struct ProxyOutcome {
    pub status: u16,
    pub response_bytes: u64,
    pub duration_ms: u64,
    pub backend_ms: u64,
}

/// The metrics event for a proxied request.
pub fn build_catalog_event(
    now: u64,
    headers: &RequestHeaders,
    method: &str,
    path: &str,
    host: &str,
    backend_app: &str,
    backend_url: &str,
    http_version: &str,
    ingress_path: IngressPath,
    outcome: &ProxyOutcome,
) -> (e: RequestEvent)
    ensures
        e.ts == now,
        e.method@ == method@,
        e.path@ == path@,
        e.host@ == host@,
        e.status_code == outcome.status,
        e.response_bytes == outcome.response_bytes,
        e.response_time_ms == outcome.duration_ms,
        e.client_ip_trunc@ == truncate_ip_spec(headers.connecting_ip@),
        e.country@ == headers.country@,
        e.ua_class == ua_class_of(headers.user_agent@),
        e.ingress_path == ingress_path,
        match headers.cf_visitor {
            Some(text) => match json_str_member(text@, "scheme"@) {
                Some(s) => e.tls_version matches Some(l) && l@ == tls_label_spec(s),
                None => e.tls_version is None,
            },
            None => e.tls_version is None,
        },
        e.http_version@ == http_version@,
        !e.cache_hit,
        e.backend_app@ == backend_app@,
        e.backend_url@ == backend_url@,
        e.backend_latency_ms == outcome.backend_ms,
        e.error_type == error_type_of(outcome.status),
{
    let tls = match &headers.cf_visitor {
        Some(t) => tls_from_cf_visitor(Some(t.as_str())),
        None => None,
    };
    RequestEvent {
        ts: now,
        method: to_string(method),
        path: to_string(path),
        host: to_string(host),
        status_code: outcome.status,
        response_bytes: outcome.response_bytes,
        response_time_ms: outcome.duration_ms,
        client_ip_trunc: truncate_ip(headers.connecting_ip.as_str()),
        country: headers.country.clone(),
        ua_class: UaClass::from_ua(headers.user_agent.as_str()),
        ingress_path,
        tls_version: tls,
        http_version: to_string(http_version),
        cache_hit: false,
        backend_app: to_string(backend_app),
        backend_url: to_string(backend_url),
        backend_latency_ms: outcome.backend_ms,
        error_type: ErrorType::from_status(outcome.status),
    }
}

} // verus!
