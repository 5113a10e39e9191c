//! Per-request metrics catalog: the proxy's own record of what arrives at the
//! front door. Typed classifications (`IngressPath`, `UaClass`, `ErrorType`),
//! bounded storage (event ring, hourly buckets, probe hits) and the read-side
//! snapshots built from it.

use vstd::prelude::*;

use crate::text::{
    chars_eq, contains, contains_char, contains_seq, extend_chars, extend_str, join_seq, lower,
    parse_u8, parse_u8_spec, split_chars, split_seq, starts_with, starts_with_seq, str_chars,
    string_from, to_lower, trim, trim_chars, views,
};

verus! {

// ---------------------------------------------------------------------------
// Pattern lists
// ---------------------------------------------------------------------------

/// The character contents of a list of string slices.
pub open spec fn str_views(v: Seq<&str>) -> Seq<Seq<char>> {
    v.map_values(|x: &str| x@)
}

/// Some pattern of `pats` occurs in `h`.
pub open spec fn contains_any(h: Seq<char>, pats: Seq<Seq<char>>) -> bool {
    exists|i: int| 0 <= i < pats.len() && #[trigger] contains_seq(h, pats[i])
}

/// Does any of the patterns occur in `h`?
pub fn contains_any_exec(h: &Vec<char>, pats: &Vec<&str>) -> (r: bool)
    ensures
        r == contains_any(h@, str_views(pats@)),
{
    let mut i: usize = 0;
    while i < pats.len()
        invariant
            i <= pats.len(),
            forall|k: int| 0 <= k < i ==> !contains_seq(h@, #[trigger] str_views(pats@)[k]),
        decreases pats.len() - i,
    {
        let p = str_chars(pats[i]);
        if contains(h, &p) {
            assert(contains_seq(h@, str_views(pats@)[i as int]));
            return true;
        }
        i = i + 1;
    }
    false
}

// ---------------------------------------------------------------------------
// Ingress path
// ---------------------------------------------------------------------------

/// Where the request physically arrived at the proxy.
#[derive(Clone, Copy, Debug, PartialEq, Eq, Structural, Hash)]
pub enum IngressPath {
    /// Received via the Cloudflare tunnel outbound connection (default).
    CfTunnel,
    /// Received on the direct public listener.
    Direct,
    /// Received from a LAN/private source: RFC1918 or loopback.
    Lan,
}

pub open spec fn ingress_name(p: IngressPath) -> Seq<char> {
    match p {
        IngressPath::CfTunnel => "cf-tunnel"@,
        IngressPath::Direct => "direct"@,
        IngressPath::Lan => "lan"@,
    }
}

/// The second dot-separated label of `ip` is a number in 16..=31 and the
/// first is `172` (the private 172.16.0.0/12 block).
pub open spec fn is_rfc1918_172_spec(ip: Seq<char>) -> bool {
    let parts = split_seq(ip, '.');
    &&& parts.len() >= 2
    &&& parts[0] == "172"@
    &&& parse_u8_spec(parts[1]) matches Some(n) && 16 <= n && n <= 31
}

/// Private / loopback prefixes that mark a peer as LAN.
pub open spec fn lan_prefixes() -> Seq<Seq<char>> {
    seq!["127."@, "10."@, "192.168."@, "fc"@, "fd"@]
}

pub open spec fn classify_peer(ip: Seq<char>) -> IngressPath {
    if ip.len() == 0 {
        IngressPath::Direct
    } else if (exists|i: int| 0 <= i < lan_prefixes().len() && #[trigger] starts_with_seq(ip, lan_prefixes()[i]))
        || ip == "::1"@ || is_rfc1918_172_spec(ip) {
        IngressPath::Lan
    } else {
        IngressPath::Direct
    }
}

impl IngressPath {
    pub fn as_str(self) -> (r: &'static str)
        ensures
            r@ == ingress_name(self),
    {
        match self {
            IngressPath::CfTunnel => "cf-tunnel",
            IngressPath::Direct => "direct",
            IngressPath::Lan => "lan",
        }
    }

    /// Classify a connecting IP as LAN or public. The caller says which
    /// listener the request arrived on; this covers the case where public
    /// and private traffic share one listener.
    pub fn classify_direct_peer(peer_ip: &str) -> (r: IngressPath)
        ensures
            r == classify_peer(peer_ip@),
    {
        let ip = str_chars(peer_ip);
        if ip.len() == 0 {
            return IngressPath::Direct;
        }
        let prefixes = vec!["127.", "10.", "192.168.", "fc", "fd"];
        assert(str_views(prefixes@) =~= lan_prefixes());
        let mut lan = false;
        let mut i: usize = 0;
        while i < prefixes.len()
            invariant
                i <= prefixes.len(),
                str_views(prefixes@) == lan_prefixes(),
                lan == (exists|k: int| 0 <= k < i && #[trigger] starts_with_seq(ip@, lan_prefixes()[k])),
            decreases prefixes.len() - i,
        {
            let p = str_chars(prefixes[i]);
            if starts_with(&ip, &p) {
                assert(starts_with_seq(ip@, lan_prefixes()[i as int]));
                lan = true;
            }
            i = i + 1;
        }
        let loopback6 = str_chars("::1");
        if lan || chars_eq(&ip, &loopback6) || is_rfc1918_172(peer_ip) {
            IngressPath::Lan
        } else {
            IngressPath::Direct
        }
    }
}

/// Is `ip` in the 172.16.0.0/12 private block?
pub fn is_rfc1918_172(ip: &str) -> (r: bool)
    ensures
        r == is_rfc1918_172_spec(ip@),
{
    let chars = str_chars(ip);
    let parts = split_chars(&chars, '.');
    if parts.len() < 2 {
        return false;
    }
    let first = &parts[0];
    let want = str_chars("172");
    assert(parts@[0]@ == views(parts@)[0]);
    if !chars_eq(first, &want) {
        return false;
    }
    assert(parts@[1]@ == views(parts@)[1]);
    match parse_u8(&parts[1]) {
        Some(n) => 16 <= n && n <= 31,
        None => false,
    }
}

// ---------------------------------------------------------------------------
// User-agent class
// ---------------------------------------------------------------------------

/// Coarse user-agent classification.
#[derive(Clone, Copy, Debug, PartialEq, Eq, Structural, Hash)]
pub enum UaClass {
    Browser,
    Bot,
    Api,
    Unknown,
}

pub open spec fn bot_markers() -> Seq<Seq<char>> {
    seq![
        "bot"@,
        "spider"@,
        "crawl"@,
        "scanner"@,
        "semrush"@,
        "ahrefs"@,
        "yandex"@,
        "headlesschrome"@,
        "phantomjs"@,
    ]
}

pub open spec fn api_markers() -> Seq<Seq<char>> {
    seq!["curl/"@, "wget"@, "python"@, "go-http"@, "postman"@, "httpie"@, "insomnia"@]
}

pub open spec fn browser_markers() -> Seq<Seq<char>> {
    seq!["mozilla/"@, "chrome/"@, "safari/"@, "firefox/"@, "edg/"@, "opr/"@]
}

/// Bot markers win over API markers, which win over browser markers; all are
/// matched as substrings of the ASCII-lower-cased user agent.
pub open spec fn ua_class_of(ua: Seq<char>) -> UaClass {
    let l = lower(ua);
    if ua.len() == 0 {
        UaClass::Unknown
    } else if contains_any(l, bot_markers()) {
        UaClass::Bot
    } else if contains_any(l, api_markers()) {
        UaClass::Api
    } else if contains_any(l, browser_markers()) {
        UaClass::Browser
    } else {
        UaClass::Unknown
    }
}

pub open spec fn ua_name(c: UaClass) -> Seq<char> {
    match c {
        UaClass::Browser => "browser"@,
        UaClass::Bot => "bot"@,
        UaClass::Api => "api"@,
        UaClass::Unknown => "unknown"@,
    }
}

impl UaClass {
    pub fn from_ua(ua: &str) -> (r: UaClass)
        ensures
            r == ua_class_of(ua@),
    {
        let chars = str_chars(ua);
        if chars.len() == 0 {
            return UaClass::Unknown;
        }
        let lowered = to_lower(&chars);
        let bots = vec![
            "bot",
            "spider",
            "crawl",
            "scanner",
            "semrush",
            "ahrefs",
            "yandex",
            "headlesschrome",
            "phantomjs",
        ];
        assert(str_views(bots@) =~= bot_markers());
        if contains_any_exec(&lowered, &bots) {
            return UaClass::Bot;
        }
        let apis = vec!["curl/", "wget", "python", "go-http", "postman", "httpie", "insomnia"];
        assert(str_views(apis@) =~= api_markers());
        if contains_any_exec(&lowered, &apis) {
            return UaClass::Api;
        }
        let browsers = vec!["mozilla/", "chrome/", "safari/", "firefox/", "edg/", "opr/"];
        assert(str_views(browsers@) =~= browser_markers());
        if contains_any_exec(&lowered, &browsers) {
            return UaClass::Browser;
        }
        UaClass::Unknown
    }

    pub fn as_str(self) -> (r: &'static str)
        ensures
            r@ == ua_name(self),
    {
        match self {
            UaClass::Browser => "browser",
            UaClass::Bot => "bot",
            UaClass::Api => "api",
            UaClass::Unknown => "unknown",
        }
    }
}

// ---------------------------------------------------------------------------
// Error classification
// ---------------------------------------------------------------------------

/// Typed error classification. `None` means a successful request.
#[derive(Clone, Copy, Debug, PartialEq, Eq, Structural, Hash)]
pub enum ErrorType {
    BadGateway,
    Timeout,
    BadRequest,
    UpstreamError,
    Forbidden,
    NotFound,
    Other,
}

pub open spec fn error_type_of(status: u16) -> Option<ErrorType> {
    if status <= 399 {
        None
    } else if status == 400 || status == 411 || status == 413 || status == 414 || status == 415
        || status == 431 {
        Some(ErrorType::BadRequest)
    } else if status == 403 {
        Some(ErrorType::Forbidden)
    } else if status == 404 || status == 410 {
        Some(ErrorType::NotFound)
    } else if status == 408 || status == 504 {
        Some(ErrorType::Timeout)
    } else if status == 502 {
        Some(ErrorType::BadGateway)
    } else if 500 <= status <= 599 {
        Some(ErrorType::UpstreamError)
    } else {
        Some(ErrorType::Other)
    }
}

pub open spec fn error_name(e: ErrorType) -> Seq<char> {
    match e {
        ErrorType::BadGateway => "bad_gateway"@,
        ErrorType::Timeout => "timeout"@,
        ErrorType::BadRequest => "bad_request"@,
        ErrorType::UpstreamError => "upstream_error"@,
        ErrorType::Forbidden => "forbidden"@,
        ErrorType::NotFound => "not_found"@,
        ErrorType::Other => "other"@,
    }
}

impl ErrorType {
    pub fn from_status(status: u16) -> (r: Option<ErrorType>)
        ensures
            r == error_type_of(status),
    {
        match status {
            0..=399 => None,
            400 | 411 | 413 | 414 | 415 | 431 => Some(ErrorType::BadRequest),
            403 => Some(ErrorType::Forbidden),
            404 | 410 => Some(ErrorType::NotFound),
            408 | 504 => Some(ErrorType::Timeout),
            502 => Some(ErrorType::BadGateway),
            500..=599 => Some(ErrorType::UpstreamError),
            _ => Some(ErrorType::Other),
        }
    }

    pub fn as_str(self) -> (r: &'static str)
        ensures
            r@ == error_name(self),
    {
        match self {
            ErrorType::BadGateway => "bad_gateway",
            ErrorType::Timeout => "timeout",
            ErrorType::BadRequest => "bad_request",
            ErrorType::UpstreamError => "upstream_error",
            ErrorType::Forbidden => "forbidden",
            ErrorType::NotFound => "not_found",
            ErrorType::Other => "other",
        }
    }
}

// ---------------------------------------------------------------------------
// Probe paths and IP truncation
// ---------------------------------------------------------------------------

/// Probe-path patterns, matched as substrings of the lower-cased path, so
/// `/foo/wp-admin/bar` still hits.
pub open spec fn probe_patterns() -> Seq<Seq<char>> {
    seq![
        ".env"@,
        "wp-admin"@,
        "wp-login"@,
        "wp-config"@,
        "/.git"@,
        "phpmyadmin"@,
        "xmlrpc"@,
        "shell.php"@,
        "eval-stdin"@,
        "/administrator"@,
        ".aws/credentials"@,
        ".ssh/id_rsa"@,
        "/phpinfo"@,
        "/config.json"@,
        "/debug/pprof"@,
    ]
}

pub open spec fn is_probe_path(path: Seq<char>) -> bool {
    contains_any(lower(path), probe_patterns())
}

pub fn looks_like_probe(path: &str) -> (r: bool)
    ensures
        r == is_probe_path(path@),
{
    let lowered = to_lower(&str_chars(path));
    let pats = vec![
        ".env",
        "wp-admin",
        "wp-login",
        "wp-config",
        "/.git",
        "phpmyadmin",
        "xmlrpc",
        "shell.php",
        "eval-stdin",
        "/administrator",
        ".aws/credentials",
        ".ssh/id_rsa",
        "/phpinfo",
        "/config.json",
        "/debug/pprof",
    ];
    assert(str_views(pats@) =~= probe_patterns());
    contains_any_exec(&lowered, &pats)
}

/// `/24` truncation of an IPv4 address, `/48` of an IPv6 one; anything that
/// is neither is returned trimmed but otherwise unchanged.
pub open spec fn truncate_ip_spec(raw: Seq<char>) -> Seq<char> {
    let r = trim(raw);
    if r.len() == 0 {
        Seq::empty()
    } else if r.contains(':') {
        let parts = split_seq(r, ':');
        let head = if parts.len() >= 3 { parts.take(3) } else { parts };
        join_seq(head, ":"@) + "::/48"@
    } else {
        let parts = split_seq(r, '.');
        if parts.len() == 4 {
            parts[0] + "."@ + parts[1] + "."@ + parts[2] + ".0/24"@
        } else {
            r
        }
    }
}

/// Truncate an IP to /24 (IPv4) or /48 (IPv6), keeping network-level
/// information while dropping the individual host.
pub fn truncate_ip(raw: &str) -> (r: String)
    ensures
        r@ == truncate_ip_spec(raw@),
{
    let r = trim_chars(&str_chars(raw));
    if r.len() == 0 {
        return String::new();
    }
    if contains_char(&r, ':') {
        let parts = split_chars(&r, ':');
        let mut out: Vec<char> = Vec::new();
        extend_chars(&mut out, &parts[0]);
        if parts.len() >= 2 {
            out.push(':');
            extend_chars(&mut out, &parts[1]);
        }
        if parts.len() >= 3 {
            out.push(':');
            extend_chars(&mut out, &parts[2]);
        }
        let ghost before_tail = out@;
        extend_str(&mut out, "::/48");
        proof {
            let ps = split_seq(r@, ':');
            let head = if ps.len() >= 3 { ps.take(3) } else { ps };
            assert(ps == views(parts@));
            reveal_strlit(":");
            let sep = ":"@;
            assert(sep =~= seq![':']);
            assert(ps.len() >= 1);
            assert(ps[0] == parts@[0]@);
            let j1 = join_seq(ps.take(1), sep);
            assert(j1 == ps[0]);
            if ps.len() >= 2 {
                assert(ps[1] == parts@[1]@);
                assert(ps.take(2).drop_last() =~= ps.take(1));
                let j2 = join_seq(ps.take(2), sep);
                assert(j2 == j1 + sep + ps[1]);
                if ps.len() >= 3 {
                    assert(ps[2] == parts@[2]@);
                    assert(ps.take(3).drop_last() =~= ps.take(2));
                    assert(join_seq(ps.take(3), sep) == j2 + sep + ps[2]);
                    assert(before_tail =~= join_seq(head, sep));
                } else {
                    assert(head =~= ps.take(2));
                    assert(before_tail =~= join_seq(head, sep));
                }
            } else {
                assert(head =~= ps.take(1));
                assert(before_tail =~= join_seq(head, sep));
            }
        }
        string_from(&out)
    } else {
        let parts = split_chars(&r, '.');
        if parts.len() == 4 {
            let mut out: Vec<char> = Vec::new();
            extend_chars(&mut out, &parts[0]);
            out.push('.');
            extend_chars(&mut out, &parts[1]);
            out.push('.');
            extend_chars(&mut out, &parts[2]);
            let ghost before_tail = out@;
            extend_str(&mut out, ".0/24");
            proof {
                let ps = split_seq(r@, '.');
                assert(ps == views(parts@));
                assert(ps[0] == parts@[0]@);
                assert(ps[1] == parts@[1]@);
                assert(ps[2] == parts@[2]@);
                assert(before_tail =~= ps[0] + "."@ + ps[1] + "."@ + ps[2]) by {
                    reveal_strlit(".");
                }
            }
            string_from(&out)
        } else {
            string_from(&r)
        }
    }
}

} // verus!

verus! {

impl Default for IngressPath {
    fn default() -> (r: IngressPath)
        ensures
            r == IngressPath::CfTunnel,
    {
        IngressPath::CfTunnel
    }
}

impl Default for UaClass {
    fn default() -> (r: UaClass)
        ensures
            r == UaClass::Unknown,
    {
        UaClass::Unknown
    }
}

// ---------------------------------------------------------------------------
// Stored records
// ---------------------------------------------------------------------------

/// One captured request event. All fields are fixed-shape.
#[derive(Debug)]
pub struct RequestEvent {
    pub ts: u64,
    pub method: String,
    pub path: String,
    pub host: String,
    pub status_code: u16,
    pub response_bytes: u64,
    pub response_time_ms: u64,
    /// Truncated to /24 (IPv4) or /48 (IPv6).
    pub client_ip_trunc: String,
    pub country: String,
    pub ua_class: UaClass,
    pub ingress_path: IngressPath,
    pub tls_version: Option<String>,
    pub http_version: String,
    pub cache_hit: bool,
    pub backend_app: String,
    pub backend_url: String,
    pub backend_latency_ms: u64,
    pub error_type: Option<ErrorType>,
}

/// Per-route running counters; latencies are kept in a bounded window.
#[derive(Debug)]
pub struct RouteCounters {
    pub request_count: u64,
    pub error_count: u64,
    pub bytes_out: u64,
    pub latencies_ms: std::collections::VecDeque<u64>,
}

/// One hour of aggregate traffic. 168 buckets make one rolling week.
#[derive(Clone, Copy, Debug, PartialEq, Eq, Structural)]
pub struct HourlyBucket {
    pub hour_start_ts: u64,
    pub requests: u64,
    pub errors: u64,
    pub bytes_out: u64,
}

/// A hit against a known probe path.
#[derive(Debug)]
pub struct ProbeHit {
    pub ts: u64,
    pub path: String,
    pub host: String,
    pub client_ip_trunc: String,
    pub country: String,
    pub ua_class: UaClass,
}

impl Clone for ProbeHit {
    fn clone(&self) -> (r: ProbeHit)
        ensures
            r == *self,
    {
        ProbeHit {
            ts: self.ts,
            path: self.path.clone(),
            host: self.host.clone(),
            client_ip_trunc: self.client_ip_trunc.clone(),
            country: self.country.clone(),
            ua_class: self.ua_class,
        }
    }
}

/// Per-ingress aggregate counters.
#[derive(Clone, Copy, Debug, PartialEq, Eq, Structural)]
pub struct IngressCounters {
    pub request_count: u64,
    pub bytes_out: u64,
}

pub const ROUTE_LATENCY_WINDOW: usize = 2048;
pub const MAX_EVENTS: usize = 10000;
pub const MAX_HOURLY: usize = 168;
pub const MAX_PROBE_HITS: usize = 1024;
pub const TOP_N_COUNTRIES: usize = 10;
pub const TOP_N_PATHS: usize = 25;
pub const TOP_N_USER_AGENTS: usize = 16;
pub const RECENT_PROBES_SHOWN: usize = 100;

// ---------------------------------------------------------------------------
// Spec helpers
// ---------------------------------------------------------------------------

/// Addition modulo 2^64 (what `u64::wrapping_add` computes).
pub open spec fn wadd(x: u64, y: u64) -> u64 {
    if x + y > u64::MAX {
        (x + y - 0x1_0000_0000_0000_0000) as u64
    } else {
        (x + y) as u64
    }
}

/// The last `cap` elements of `s` (all of `s` if it is no longer).
pub open spec fn bounded<T>(s: Seq<T>, cap: nat) -> Seq<T> {
    if s.len() > cap {
        s.subrange(s.len() - cap, s.len() as int)
    } else {
        s
    }
}

pub open spec fn err_inc(e: RequestEvent) -> u64 {
    if e.error_type is Some {
        1
    } else {
        0
    }
}

/// The route a request is booked under: its registry app, or its host when
/// the legacy routing path served it.
pub open spec fn route_key(e: RequestEvent) -> Seq<char> {
    if e.backend_app@.len() == 0 {
        e.host@
    } else {
        e.backend_app@
    }
}

pub open spec fn probe_hit_of(e: RequestEvent) -> ProbeHit {
    ProbeHit {
        ts: e.ts,
        path: e.path,
        host: e.host,
        client_ip_trunc: e.client_ip_trunc,
        country: e.country,
        ua_class: e.ua_class,
    }
}

/// (request_count, error_count, bytes_out, latency window)
pub open spec fn route_view(rc: RouteCounters) -> (u64, u64, u64, Seq<u64>) {
    (rc.request_count, rc.error_count, rc.bytes_out, rc.latencies_ms@)
}

pub open spec fn bump_route(rv: (u64, u64, u64, Seq<u64>), e: RequestEvent) -> (
    u64,
    u64,
    u64,
    Seq<u64>,
) {
    (
        wadd(rv.0, 1),
        wadd(rv.1, err_inc(e)),
        wadd(rv.2, e.response_bytes),
        bounded(rv.3.push(e.response_time_ms), ROUTE_LATENCY_WINDOW as nat),
    )
}

pub open spec fn has_key<V>(m: Seq<(Seq<char>, V)>, k: Seq<char>) -> bool {
    exists|i: int| 0 <= i < m.len() && #[trigger] m[i].0 == k
}

pub open spec fn key_index<V>(m: Seq<(Seq<char>, V)>, k: Seq<char>) -> int {
    choose|i: int| 0 <= i < m.len() && #[trigger] m[i].0 == k
}

pub open spec fn distinct_keys<V>(m: Seq<(Seq<char>, V)>) -> bool {
    forall|i: int, j: int| 0 <= i < j < m.len() ==> #[trigger] m[i].0 != #[trigger] m[j].0
}

/// Route table after booking one event: the route's counters are bumped in
/// place, or a new route is appended with fresh counters.
pub open spec fn route_update(
    m: Seq<(Seq<char>, (u64, u64, u64, Seq<u64>))>,
    e: RequestEvent,
) -> Seq<(Seq<char>, (u64, u64, u64, Seq<u64>))> {
    let k = route_key(e);
    if has_key(m, k) {
        let i = key_index(m, k);
        m.update(i, (k, bump_route(m[i].1, e)))
    } else {
        m.push((k, bump_route((0, 0, 0, Seq::empty()), e)))
    }
}

pub open spec fn bump_ingress(c: Option<IngressCounters>, e: RequestEvent) -> IngressCounters {
    let base = match c {
        Some(x) => x,
        None => IngressCounters { request_count: 0, bytes_out: 0 },
    };
    IngressCounters {
        request_count: wadd(base.request_count, 1),
        bytes_out: wadd(base.bytes_out, e.response_bytes),
    }
}

pub open spec fn hour_start(ts: u64) -> u64 {
    ((ts / 3600) * 3600) as u64
}

/// Hourly buckets after one event: the newest bucket grows when the event
/// falls in its hour, otherwise a new bucket is appended (oldest dropped).
pub open spec fn hourly_update(h: Seq<HourlyBucket>, e: RequestEvent) -> Seq<HourlyBucket> {
    let hs = hour_start(e.ts);
    if h.len() > 0 && h.last().hour_start_ts == hs {
        let b = h.last();
        h.update(
            h.len() - 1,
            HourlyBucket {
                hour_start_ts: hs,
                requests: wadd(b.requests, 1),
                errors: wadd(b.errors, err_inc(e)),
                bytes_out: wadd(b.bytes_out, e.response_bytes),
            },
        )
    } else {
        bounded(
            h.push(
                HourlyBucket {
                    hour_start_ts: hs,
                    requests: 1,
                    errors: err_inc(e),
                    bytes_out: e.response_bytes,
                },
            ),
            MAX_HOURLY as nat,
        )
    }
}

/// Appends `x` and drops elements from the front until at most `cap` remain.
pub fn push_bounded<T>(q: &mut std::collections::VecDeque<T>, x: T, cap: usize)
    ensures
        final(q)@ == bounded(old(q)@.push(x), cap as nat),
{
    let ghost full = old(q)@.push(x);
    q.push_back(x);
    while q.len() > cap
        invariant
            full.len() >= q@.len(),
            q@ == full.subrange(full.len() - q@.len(), full.len() as int),
            q@.len() >= cap || q@.len() == full.len(),
        decreases q@.len(),
    {
        let ghost before = q@;
        let _ = q.pop_front();
        assert(q@ =~= full.subrange(full.len() - q@.len(), full.len() as int));
    }
    assert(full.subrange(0, full.len() as int) =~= full);
}

} // verus!

verus! {

/// The per-request store. All writes go through `record`; reads build
/// snapshots shaped for each consumer.
pub struct MetricsCatalog {
    events: std::collections::VecDeque<RequestEvent>,
    route_names: Vec<String>,
    route_counters: Vec<RouteCounters>,
    hourly: std::collections::VecDeque<HourlyBucket>,
    probe_hits: std::collections::VecDeque<ProbeHit>,
    ingress_cf: Option<IngressCounters>,
    ingress_direct: Option<IngressCounters>,
    ingress_lan: Option<IngressCounters>,
    total_requests: u64,
    total_bytes_out: u64,
    total_errors: u64,
    started_at: u64,
}

impl MetricsCatalog {
    /// Events currently in the ring, oldest first.
    pub closed spec fn events(&self) -> Seq<RequestEvent> {
        self.events@
    }

    /// Route table: route name with (requests, errors, bytes, latency window).
    pub closed spec fn routes(&self) -> Seq<(Seq<char>, (u64, u64, u64, Seq<u64>))> {
        Seq::new(
            self.route_names@.len(),
            |i: int| (self.route_names@[i]@, route_view(self.route_counters@[i])),
        )
    }

    pub closed spec fn hourly_buckets(&self) -> Seq<HourlyBucket> {
        self.hourly@
    }

    pub closed spec fn probe_log(&self) -> Seq<ProbeHit> {
        self.probe_hits@
    }

    pub closed spec fn ingress_of(&self, p: IngressPath) -> Option<IngressCounters> {
        match p {
            IngressPath::CfTunnel => self.ingress_cf,
            IngressPath::Direct => self.ingress_direct,
            IngressPath::Lan => self.ingress_lan,
        }
    }

    pub closed spec fn requests_total(&self) -> u64 {
        self.total_requests
    }

    pub closed spec fn bytes_out_total(&self) -> u64 {
        self.total_bytes_out
    }

    pub closed spec fn errors_total(&self) -> u64 {
        self.total_errors
    }

    pub closed spec fn start_ts(&self) -> u64 {
        self.started_at
    }

    /// Internal consistency of the store.
    pub closed spec fn wf(&self) -> bool {
        &&& self.events@.len() <= MAX_EVENTS
        &&& self.hourly@.len() <= MAX_HOURLY
        &&& self.probe_hits@.len() <= MAX_PROBE_HITS
        &&& self.route_names@.len() == self.route_counters@.len()
        &&& distinct_keys(self.routes())
        &&& forall|i: int|
            0 <= i < self.route_counters@.len() ==> (#[trigger] self.route_counters@[i]).latencies_ms@.len()
                <= ROUTE_LATENCY_WINDOW
        &&& forall|i: int| 0 <= i < self.events@.len() ==> has_key(self.routes(), #[trigger] route_key(self.events@[i]))
    }

    /// An empty catalog whose start time is `started_at`.
    pub fn new_at(started_at: u64) -> (r: MetricsCatalog)
        ensures
            r.wf(),
            r.events() == Seq::<RequestEvent>::empty(),
            r.routes() == Seq::<(Seq<char>, (u64, u64, u64, Seq<u64>))>::empty(),
            r.hourly_buckets() == Seq::<HourlyBucket>::empty(),
            r.probe_log() == Seq::<ProbeHit>::empty(),
            forall|p: IngressPath| r.ingress_of(p) is None,
            r.requests_total() == 0,
            r.bytes_out_total() == 0,
            r.errors_total() == 0,
            r.start_ts() == started_at,
            state_of(r) == fresh_state(started_at),
    {
        let r = MetricsCatalog {
            events: std::collections::VecDeque::new(),
            route_names: Vec::new(),
            route_counters: Vec::new(),
            hourly: std::collections::VecDeque::new(),
            probe_hits: std::collections::VecDeque::new(),
            ingress_cf: None,
            ingress_direct: None,
            ingress_lan: None,
            total_requests: 0,
            total_bytes_out: 0,
            total_errors: 0,
            started_at,
        };
        assert(r.routes() =~= Seq::<(Seq<char>, (u64, u64, u64, Seq<u64>))>::empty());
        r
    }

    /// An empty catalog started now.
    pub fn new() -> (r: MetricsCatalog)
        ensures
            r.wf(),
            r.events() == Seq::<RequestEvent>::empty(),
            r.routes() == Seq::<(Seq<char>, (u64, u64, u64, Seq<u64>))>::empty(),
            r.hourly_buckets() == Seq::<HourlyBucket>::empty(),
            r.probe_log() == Seq::<ProbeHit>::empty(),
            forall|p: IngressPath| r.ingress_of(p) is None,
            r.requests_total() == 0,
            r.bytes_out_total() == 0,
            r.errors_total() == 0,
            state_of(r) == fresh_state(r.start_ts()),
    {
        MetricsCatalog::new_at(crate::clock::now_secs())
    }

    pub fn total_requests(&self) -> (r: u64)
        ensures
            r == self.requests_total(),
    {
        self.total_requests
    }

    pub fn total_bytes_out(&self) -> (r: u64)
        ensures
            r == self.bytes_out_total(),
    {
        self.total_bytes_out
    }

    pub fn total_errors(&self) -> (r: u64)
        ensures
            r == self.errors_total(),
    {
        self.total_errors
    }

    pub fn started_at(&self) -> (r: u64)
        ensures
            r == self.start_ts(),
    {
        self.started_at
    }

    /// Seconds since start, measured against `now` (0 if `now` is earlier).
    pub fn uptime_secs_at(&self, now: u64) -> (r: u64)
        ensures
            r == (if now >= self.start_ts() { now - self.start_ts() } else { 0 }),
    {
        now.saturating_sub(self.started_at)
    }

    /// Seconds since start, measured against the current clock.
    pub fn uptime_secs(&self) -> (r: u64)
        ensures
            exists|now: u64| r == #[trigger] cutoff(now, self.start_ts()),
    {
        let now = crate::clock::now_secs();
        let r = self.uptime_secs_at(now);
        assert(r == cutoff(now, self.start_ts()));
        r
    }

    /// Record one request. All writes are local to the store; nothing is
    /// persisted.
    pub fn record(&mut self, event: RequestEvent)
        requires
            old(self).wf(),
        ensures
            final(self).wf(),
            final(self).requests_total() == wadd(old(self).requests_total(), 1),
            final(self).bytes_out_total() == wadd(old(self).bytes_out_total(), event.response_bytes),
            final(self).errors_total() == wadd(old(self).errors_total(), err_inc(event)),
            final(self).start_ts() == old(self).start_ts(),
            final(self).events() == bounded(old(self).events().push(event), MAX_EVENTS as nat),
            final(self).probe_log() == (if is_probe_path(event.path@) {
                bounded(old(self).probe_log().push(probe_hit_of(event)), MAX_PROBE_HITS as nat)
            } else {
                old(self).probe_log()
            }),
            final(self).routes() == route_update(old(self).routes(), event),
            forall|p: IngressPath|
                #[trigger] final(self).ingress_of(p) == (if p == event.ingress_path {
                    Some(bump_ingress(old(self).ingress_of(p), event))
                } else {
                    old(self).ingress_of(p)
                }),
            final(self).hourly_buckets() == hourly_update(old(self).hourly_buckets(), event),
            state_of(*final(self)) == record_step(state_of(*old(self)), event),
    {
        let ghost old_routes = self.routes();
        let ghost old_events = self.events@;
        self.total_requests = self.total_requests.wrapping_add(1);
        self.total_bytes_out = self.total_bytes_out.wrapping_add(event.response_bytes);
        let is_err = event.error_type.is_some();
        if is_err {
            self.total_errors = self.total_errors.wrapping_add(1);
        }

        if looks_like_probe(event.path.as_str()) {
            let hit = ProbeHit {
                ts: event.ts,
                path: event.path.clone(),
                host: event.host.clone(),
                client_ip_trunc: event.client_ip_trunc.clone(),
                country: event.country.clone(),
                ua_class: event.ua_class,
            };
            assert(hit == probe_hit_of(event));
            push_bounded(&mut self.probe_hits, hit, MAX_PROBE_HITS);
        }

        // Route counters.
        let key = if event.backend_app.as_str().is_empty() {
            event.host.clone()
        } else {
            event.backend_app.clone()
        };
        assert(key@ == route_key(event));
        let err_add: u64 = if is_err { 1 } else { 0 };
        match self.find_route(&key) {
            Some(i) => {
                let mut rc = self.route_counters.remove(i);
                rc.request_count = rc.request_count.wrapping_add(1);
                rc.bytes_out = rc.bytes_out.wrapping_add(event.response_bytes);
                rc.error_count = rc.error_count.wrapping_add(err_add);
                push_bounded(&mut rc.latencies_ms, event.response_time_ms, ROUTE_LATENCY_WINDOW);
                self.route_counters.insert(i, rc);
                proof {
                    let nr = self.routes();
                    let expect = old_routes.update(i as int, (key@, bump_route(old_routes[i as int].1, event)));
                    assert(nr =~= expect);
                }
            },
            None => {
                let mut lat: std::collections::VecDeque<u64> = std::collections::VecDeque::new();
                push_bounded(&mut lat, event.response_time_ms, ROUTE_LATENCY_WINDOW);
                let rc = RouteCounters {
                    request_count: 1,
                    error_count: err_add,
                    bytes_out: event.response_bytes,
                    latencies_ms: lat,
                };
                self.route_names.push(key);
                self.route_counters.push(rc);
                proof {
                    let nr = self.routes();
                    let expect = old_routes.push((route_key(event), bump_route((0, 0, 0, Seq::empty()), event)));
                    assert(Seq::<u64>::empty().push(event.response_time_ms) =~= seq![event.response_time_ms]);
                    assert(nr =~= expect);
                }
            },
        }

        // Ingress counters.
        match event.ingress_path {
            IngressPath::CfTunnel => {
                self.ingress_cf = Some(Self::bumped(self.ingress_cf, &event));
            },
            IngressPath::Direct => {
                self.ingress_direct = Some(Self::bumped(self.ingress_direct, &event));
            },
            IngressPath::Lan => {
                self.ingress_lan = Some(Self::bumped(self.ingress_lan, &event));
            },
        }

        // Hourly buckets.
        let hs = (event.ts / 3600) * 3600;
        let n = self.hourly.len();
        let same_hour = n > 0 && self.hourly[n - 1].hour_start_ts == hs;
        if same_hour {
            let ghost h0 = self.hourly@;
            let b = self.hourly.pop_back().unwrap();
            let nb = HourlyBucket {
                hour_start_ts: hs,
                requests: b.requests.wrapping_add(1),
                errors: b.errors.wrapping_add(err_add),
                bytes_out: b.bytes_out.wrapping_add(event.response_bytes),
            };
            self.hourly.push_back(nb);
            assert(self.hourly@ =~= h0.update(h0.len() - 1, nb));
        } else {
            let nb = HourlyBucket {
                hour_start_ts: hs,
                requests: 1,
                errors: err_add,
                bytes_out: event.response_bytes,
            };
            push_bounded(&mut self.hourly, nb, MAX_HOURLY);
        }

        // Event ring.
        push_bounded(&mut self.events, event, MAX_EVENTS);
        proof {
            let nr = self.routes();
            assert(has_key(nr, route_key(event))) by {
                if has_key(old_routes, route_key(event)) {
                    let i = key_index(old_routes, route_key(event));
                    assert(nr[i].0 == route_key(event));
                } else {
                    assert(nr[old_routes.len() as int].0 == route_key(event));
                }
            }
            assert forall|k: int| 0 <= k < old_routes.len() implies #[trigger] nr[k].0 == old_routes[k].0 by {}
            assert forall|i: int| 0 <= i < self.events@.len() implies has_key(nr, #[trigger] route_key(self.events@[i])) by {
                let full = old_events.push(event);
                let off = full.len() - self.events@.len();
                assert(self.events@[i] == full[i + off]);
                if i + off < old_events.len() {
                    let ev = old_events[i + off];
                    assert(has_key(old_routes, route_key(ev)));
                    let j = key_index(old_routes, route_key(ev));
                    assert(nr[j].0 == route_key(ev));
                }
            }
        }
    }

    fn bumped(c: Option<IngressCounters>, event: &RequestEvent) -> (r: IngressCounters)
        ensures
            r == bump_ingress(c, *event),
    {
        let base = match c {
            Some(x) => x,
            None => IngressCounters { request_count: 0, bytes_out: 0 },
        };
        IngressCounters {
            request_count: base.request_count.wrapping_add(1),
            bytes_out: base.bytes_out.wrapping_add(event.response_bytes),
        }
    }

    /// Position of `key` in the route table, if present.
    fn find_route(&self, key: &String) -> (r: Option<usize>)
        requires
            self.route_names@.len() == self.route_counters@.len(),
            distinct_keys(self.routes()),
        ensures
            r is None ==> !has_key(self.routes(), key@),
            r matches Some(i) ==> i < self.route_names@.len() && self.routes()[i as int].0 == key@
                && key_index(self.routes(), key@) == i,
    {
        let mut i: usize = 0;
        while i < self.route_names.len()
            invariant
                i <= self.route_names@.len(),
                self.route_names@.len() == self.route_counters@.len(),
                distinct_keys(self.routes()),
                forall|k: int| 0 <= k < i ==> self.routes()[k].0 != key@,
            decreases self.route_names.len() - i,
        {
            if self.route_names[i] == *key {
                assert(self.routes()[i as int].0 == key@);
                assert(has_key(self.routes(), key@));
                proof {
                    let j = key_index(self.routes(), key@);
                    assert(self.routes()[j].0 == key@);
                    if j < i as int {
                        assert(self.routes()[j].0 != self.routes()[i as int].0);
                    } else if j > i as int {
                        assert(self.routes()[i as int].0 != self.routes()[j].0);
                    }
                    assert(j == i as int);
                }
                return Some(i);
            }
            i = i + 1;
        }
        None
    }
}

} // verus!

verus! {

// ---------------------------------------------------------------------------
// Snapshot shapes
// ---------------------------------------------------------------------------

/// Public-facing snapshot: aggregate counts only. No IPs, paths or user agents.
#[derive(Debug)]
pub struct PublicMetricsSnapshot {
    pub uptime_s: u64,
    pub total_requests: u64,
    pub total_errors: u64,
    pub total_bytes_out: u64,
    pub ingress: Vec<(String, u64)>,
    pub per_country: Vec<(String, u64)>,
    pub hourly: Vec<HourlyBucket>,
    pub probe_paths_detected_count: usize,
}

/// Authenticated snapshot: full detail.
#[derive(Debug)]
pub struct MetricsSnapshot {
    pub uptime_s: u64,
    pub started_at: u64,
    pub total_requests: u64,
    pub total_bytes_out: u64,
    pub total_errors: u64,
    pub ingress: Vec<(String, IngressCounters)>,
    pub per_route: Vec<RouteSnapshot>,
    pub top_countries_24h: Vec<(String, u64)>,
    pub top_paths_24h: Vec<(String, u64)>,
    pub top_user_agents_24h: Vec<(String, u64)>,
    pub probe_paths_detected: Vec<ProbeHit>,
    pub hourly: Vec<HourlyBucket>,
    pub event_ring_len: usize,
    pub event_ring_capacity: usize,
}

/// Per-route snapshot with 1h/24h counts and latency percentiles.
#[derive(Debug)]
pub struct RouteSnapshot {
    pub route: String,
    pub request_count_1h: u64,
    pub request_count_24h: u64,
    pub error_count_1h: u64,
    pub bytes_out_1h: u64,
    pub bytes_out_24h: u64,
    pub p50_latency_ms: u64,
    pub p95_latency_ms: u64,
    pub p99_latency_ms: u64,
}

impl Clone for RouteSnapshot {
    fn clone(&self) -> (r: RouteSnapshot)
        ensures
            r == *self,
    {
        RouteSnapshot {
            route: self.route.clone(),
            request_count_1h: self.request_count_1h,
            request_count_24h: self.request_count_24h,
            error_count_1h: self.error_count_1h,
            bytes_out_1h: self.bytes_out_1h,
            bytes_out_24h: self.bytes_out_24h,
            p50_latency_ms: self.p50_latency_ms,
            p95_latency_ms: self.p95_latency_ms,
            p99_latency_ms: self.p99_latency_ms,
        }
    }
}

// ---------------------------------------------------------------------------
// Snapshot specs
// ---------------------------------------------------------------------------

/// `now - secs`, or 0 when that would be negative.
pub open spec fn cutoff(now: u64, secs: u64) -> u64 {
    if now >= secs {
        (now - secs) as u64
    } else {
        0
    }
}

/// Countries (non-empty) of the events at or after `cut`, oldest first.
pub open spec fn country_keys(evs: Seq<RequestEvent>, cut: u64) -> Seq<Seq<char>>
    decreases evs.len(),
{
    if evs.len() == 0 {
        Seq::empty()
    } else {
        let p = country_keys(evs.drop_last(), cut);
        let e = evs.last();
        if e.ts >= cut && e.country@.len() > 0 {
            p.push(e.country@)
        } else {
            p
        }
    }
}

/// Paths of the events at or after `cut`, oldest first.
pub open spec fn path_keys(evs: Seq<RequestEvent>, cut: u64) -> Seq<Seq<char>>
    decreases evs.len(),
{
    if evs.len() == 0 {
        Seq::empty()
    } else {
        let p = path_keys(evs.drop_last(), cut);
        let e = evs.last();
        if e.ts >= cut {
            p.push(e.path@)
        } else {
            p
        }
    }
}

/// User-agent class names of the events at or after `cut`, oldest first.
pub open spec fn ua_keys(evs: Seq<RequestEvent>, cut: u64) -> Seq<Seq<char>>
    decreases evs.len(),
{
    if evs.len() == 0 {
        Seq::empty()
    } else {
        let p = ua_keys(evs.drop_last(), cut);
        let e = evs.last();
        if e.ts >= cut {
            p.push(ua_name(e.ua_class))
        } else {
            p
        }
    }
}

/// Windowed counters of route `r` over `evs`:
/// (requests 1h, requests 24h, errors 1h, bytes 1h, bytes 24h).
pub open spec fn window_counts(evs: Seq<RequestEvent>, r: Seq<char>, c1: u64, c24: u64) -> (
    u64,
    u64,
    u64,
    u64,
    u64,
)
    decreases evs.len(),
{
    if evs.len() == 0 {
        (0, 0, 0, 0, 0)
    } else {
        let p = window_counts(evs.drop_last(), r, c1, c24);
        let e = evs.last();
        if route_key(e) != r {
            p
        } else {
            let in1 = e.ts >= c1;
            let in24 = e.ts >= c24;
            (
                if in1 { wadd(p.0, 1) } else { p.0 },
                if in24 { wadd(p.1, 1) } else { p.1 },
                if in1 { wadd(p.2, err_inc(e)) } else { p.2 },
                if in1 { wadd(p.3, e.response_bytes) } else { p.3 },
                if in24 { wadd(p.4, e.response_bytes) } else { p.4 },
            )
        }
    }
}

/// `row` is the snapshot of route `name` with latency window `lat`.
pub open spec fn row_matches(
    row: RouteSnapshot,
    name: Seq<char>,
    lat: Seq<u64>,
    evs: Seq<RequestEvent>,
    c1: u64,
    c24: u64,
) -> bool {
    let w = window_counts(evs, name, c1, c24);
    &&& row.route@ == name
    &&& row.request_count_1h == w.0
    &&& row.request_count_24h == w.1
    &&& row.error_count_1h == w.2
    &&& row.bytes_out_1h == w.3
    &&& row.bytes_out_24h == w.4
    &&& row.p50_latency_ms == crate::ranking::percentile(lat, 50)
    &&& row.p95_latency_ms == crate::ranking::percentile(lat, 95)
    &&& row.p99_latency_ms == crate::ranking::percentile(lat, 99)
}

/// `perm` lists each index below `n` exactly once.
pub open spec fn is_perm(perm: Seq<int>, n: nat) -> bool {
    &&& perm.len() == n
    &&& forall|i: int| 0 <= i < perm.len() ==> 0 <= #[trigger] perm[i] < n
    &&& forall|i: int, j: int| 0 <= i < j < perm.len() ==> #[trigger] perm[i] != #[trigger] perm[j]
}

/// One row per known route, busiest (24h requests) first.
pub open spec fn per_route_ok(
    rows: Seq<RouteSnapshot>,
    routes: Seq<(Seq<char>, (u64, u64, u64, Seq<u64>))>,
    evs: Seq<RequestEvent>,
    c1: u64,
    c24: u64,
) -> bool {
    &&& rows.len() == routes.len()
    &&& exists|perm: Seq<int>|
        #![trigger is_perm(perm, routes.len())]
        is_perm(perm, routes.len()) && forall|i: int|
            0 <= i < rows.len() ==> row_matches(
                #[trigger] rows[i],
                routes[perm[i]].0,
                routes[perm[i]].1.3,
                evs,
                c1,
                c24,
            )
    &&& forall|i: int, j: int|
        0 <= i < j < rows.len() ==> #[trigger] rows[i].request_count_24h
            >= #[trigger] rows[j].request_count_24h
}

/// The newest `n` entries of `s`, newest first.
pub open spec fn latest_first<T>(s: Seq<T>, n: nat) -> Seq<T> {
    let k = if n < s.len() { n } else { s.len() };
    Seq::new(k, |i: int| s[s.len() - 1 - i])
}

/// Ingress counters by name, in the fixed order cf-tunnel, direct, lan,
/// listing only paths that have seen traffic.
pub open spec fn ingress_list(
    cf: Option<IngressCounters>,
    direct: Option<IngressCounters>,
    lan: Option<IngressCounters>,
) -> Seq<(Seq<char>, IngressCounters)> {
    let a = match cf {
        Some(c) => seq![("cf-tunnel"@, c)],
        None => Seq::empty(),
    };
    let b = match direct {
        Some(c) => seq![("direct"@, c)],
        None => Seq::empty(),
    };
    let l = match lan {
        Some(c) => seq![("lan"@, c)],
        None => Seq::empty(),
    };
    a + b + l
}

pub open spec fn ingress_view(v: Seq<(String, IngressCounters)>) -> Seq<(Seq<char>, IngressCounters)> {
    v.map_values(|e: (String, IngressCounters)| (e.0@, e.1))
}

pub open spec fn ingress_count_view(v: Seq<(String, u64)>) -> Seq<(Seq<char>, u64)> {
    v.map_values(|e: (String, u64)| (e.0@, e.1))
}

/// Request counts only, per ingress name.
pub open spec fn request_counts(v: Seq<(Seq<char>, IngressCounters)>) -> Seq<(Seq<char>, u64)> {
    v.map_values(|e: (Seq<char>, IngressCounters)| (e.0, e.1.request_count))
}

impl MetricsCatalog {
    pub closed spec fn ingress_entries(&self) -> Seq<(Seq<char>, IngressCounters)> {
        ingress_list(self.ingress_cf, self.ingress_direct, self.ingress_lan)
    }

    fn ingress_vec(&self) -> (r: Vec<(String, IngressCounters)>)
        ensures
            ingress_view(r@) == self.ingress_entries(),
    {
        let mut r: Vec<(String, IngressCounters)> = Vec::new();
        if let Some(c) = self.ingress_cf {
            r.push((crate::text::to_string("cf-tunnel"), c));
        }
        if let Some(c) = self.ingress_direct {
            r.push((crate::text::to_string("direct"), c));
        }
        if let Some(c) = self.ingress_lan {
            r.push((crate::text::to_string("lan"), c));
        }
        assert(ingress_view(r@) =~= self.ingress_entries());
        r
    }

    /// Countries, paths or user-agent classes of the events at or after `cut`.
    fn window_keys(&self, cut: u64, which: u8) -> (r: Vec<String>)
        ensures
            which == 0 ==> crate::ranking::key_views(r@) == country_keys(self.events(), cut),
            which == 1 ==> crate::ranking::key_views(r@) == path_keys(self.events(), cut),
            which >= 2 ==> crate::ranking::key_views(r@) == ua_keys(self.events(), cut),
    {
        let mut keys: Vec<String> = Vec::new();
        let mut i: usize = 0;
        while i < self.events.len()
            invariant
                i <= self.events@.len(),
                which == 0 ==> crate::ranking::key_views(keys@) == country_keys(self.events@.take(i as int), cut),
                which == 1 ==> crate::ranking::key_views(keys@) == path_keys(self.events@.take(i as int), cut),
                which >= 2 ==> crate::ranking::key_views(keys@) == ua_keys(self.events@.take(i as int), cut),
            decreases self.events@.len() - i,
        {
            let e = &self.events[i];
            let ghost pre = self.events@.take(i as int);
            assert(self.events@.take(i + 1).drop_last() =~= pre);
            let ghost kv0 = crate::ranking::key_views(keys@);
            if e.ts >= cut {
                if which == 0 {
                    if !e.country.as_str().is_empty() {
                        keys.push(e.country.clone());
                    }
                } else if which == 1 {
                    keys.push(e.path.clone());
                } else {
                    keys.push(crate::text::to_string(e.ua_class.as_str()));
                }
            }
            assert(crate::ranking::key_views(keys@) =~= (if e.ts >= cut && (which != 0
                || e.country@.len() > 0) {
                kv0.push(
                    if which == 0 {
                        e.country@
                    } else if which == 1 {
                        e.path@
                    } else {
                        ua_name(e.ua_class)
                    },
                )
            } else {
                kv0
            }));
            i = i + 1;
        }
        assert(self.events@.take(self.events@.len() as int) =~= self.events@);
        keys
    }

    /// Windowed counters of route `key` over the event ring.
    fn window_for(&self, key: &String, c1: u64, c24: u64) -> (r: (u64, u64, u64, u64, u64))
        ensures
            r == window_counts(self.events(), key@, c1, c24),
    {
        let mut acc: (u64, u64, u64, u64, u64) = (0, 0, 0, 0, 0);
        let mut i: usize = 0;
        while i < self.events.len()
            invariant
                i <= self.events@.len(),
                acc == window_counts(self.events@.take(i as int), key@, c1, c24),
            decreases self.events@.len() - i,
        {
            let e = &self.events[i];
            assert(self.events@.take(i + 1).drop_last() =~= self.events@.take(i as int));
            let k = if e.backend_app.as_str().is_empty() {
                &e.host
            } else {
                &e.backend_app
            };
            if *k == *key {
                let in1 = e.ts >= c1;
                let in24 = e.ts >= c24;
                let err: u64 = if e.error_type.is_some() { 1 } else { 0 };
                acc = (
                    if in1 { acc.0.wrapping_add(1) } else { acc.0 },
                    if in24 { acc.1.wrapping_add(1) } else { acc.1 },
                    if in1 { acc.2.wrapping_add(err) } else { acc.2 },
                    if in1 { acc.3.wrapping_add(e.response_bytes) } else { acc.3 },
                    if in24 { acc.4.wrapping_add(e.response_bytes) } else { acc.4 },
                );
            }
            i = i + 1;
        }
        assert(self.events@.take(self.events@.len() as int) =~= self.events@);
        acc
    }

    /// One row per route, busiest first.
    pub fn per_route_snapshot(&self, cutoff_1h: u64, cutoff_24h: u64) -> (r: Vec<RouteSnapshot>)
        requires
            self.wf(),
        ensures
            per_route_ok(r@, self.routes(), self.events(), cutoff_1h, cutoff_24h),
    {
        let mut rows: Vec<RouteSnapshot> = Vec::new();
        let mut ranks: Vec<u64> = Vec::new();
        let mut i: usize = 0;
        while i < self.route_names.len()
            invariant
                self.wf(),
                i <= self.route_names@.len(),
                rows.len() == i,
                ranks.len() == i,
                forall|j: int| 0 <= j < i ==> row_matches(#[trigger] rows@[j], self.routes()[j].0, self.routes()[j].1.3, self.events(), cutoff_1h, cutoff_24h),
                forall|j: int| 0 <= j < i ==> #[trigger] ranks@[j] == rows@[j].request_count_24h,
            decreases self.route_names@.len() - i,
        {
            let name = &self.route_names[i];
            let w = self.window_for(name, cutoff_1h, cutoff_24h);
            let (p50, p95, p99) = crate::ranking::percentiles(&self.route_counters[i].latencies_ms);
            let row = RouteSnapshot {
                route: name.clone(),
                request_count_1h: w.0,
                request_count_24h: w.1,
                error_count_1h: w.2,
                bytes_out_1h: w.3,
                bytes_out_24h: w.4,
                p50_latency_ms: p50,
                p95_latency_ms: p95,
                p99_latency_ms: p99,
            };
            ranks.push(w.1);
            rows.push(row);
            i = i + 1;
        }
        let n = rows.len();
        let sel = crate::ranking::select_top(&ranks, n);
        let mut out: Vec<RouteSnapshot> = Vec::new();
        let mut t: usize = 0;
        while t < sel.len()
            invariant
                t <= sel.len(),
                rows.len() == n,
                ranks.len() == n,
                crate::ranking::is_top_selection(sel@, ranks@, n as nat),
                out.len() == t,
                forall|m: int| 0 <= m < t ==> #[trigger] out@[m] == rows@[sel@[m] as int],
            decreases sel.len() - t,
        {
            out.push(rows[sel[t]].clone());
            t = t + 1;
        }
        proof {
            let perm = Seq::new(sel@.len(), |m: int| sel@[m] as int);
            assert(is_perm(perm, self.routes().len()));
            assert forall|m: int| 0 <= m < out@.len() implies row_matches(
                #[trigger] out@[m],
                self.routes()[perm[m]].0,
                self.routes()[perm[m]].1.3,
                self.events(),
                cutoff_1h,
                cutoff_24h,
            ) by {}
            assert forall|a: int, b: int| 0 <= a < b < out@.len() implies #[trigger] out@[a].request_count_24h
                >= #[trigger] out@[b].request_count_24h by {
                assert(ranks@[sel@[a] as int] >= ranks@[sel@[b] as int]);
            }
        }
        out
    }
}

} // verus!

verus! {

/// `s` is the authenticated snapshot of `m`, with time windows measured
/// back from `now`.
pub open spec fn snapshot_ok(m: MetricsCatalog, now: u64, s: MetricsSnapshot) -> bool {
    &&& s.uptime_s == cutoff(now, m.start_ts())
    &&& s.started_at == m.start_ts()
    &&& s.total_requests == m.requests_total()
    &&& s.total_bytes_out == m.bytes_out_total()
    &&& s.total_errors == m.errors_total()
    &&& ingress_view(s.ingress@) == m.ingress_entries()
    &&& per_route_ok(s.per_route@, m.routes(), m.events(), cutoff(now, 3600), cutoff(now, 86400))
    &&& crate::ranking::is_top_tally(
        crate::ranking::tally_view(s.top_countries_24h@),
        country_keys(m.events(), cutoff(now, 86400)),
        TOP_N_COUNTRIES as nat,
    )
    &&& crate::ranking::is_top_tally(
        crate::ranking::tally_view(s.top_paths_24h@),
        path_keys(m.events(), cutoff(now, 86400)),
        TOP_N_PATHS as nat,
    )
    &&& crate::ranking::is_top_tally(
        crate::ranking::tally_view(s.top_user_agents_24h@),
        ua_keys(m.events(), cutoff(now, 86400)),
        TOP_N_USER_AGENTS as nat,
    )
    &&& s.probe_paths_detected@ == latest_first(m.probe_log(), RECENT_PROBES_SHOWN as nat)
    &&& s.hourly@ == m.hourly_buckets()
    &&& s.event_ring_len == m.events().len()
    &&& s.event_ring_capacity == MAX_EVENTS
}

impl MetricsCatalog {
    /// Top countries, paths and user-agent classes among the events at or
    /// after `cutoff_24h`, plus the ring length.
    pub fn top_from_ring(&self, cutoff_24h: u64) -> (r: (
        Vec<(String, u64)>,
        Vec<(String, u64)>,
        Vec<(String, u64)>,
        usize,
    ))
        ensures
            crate::ranking::is_top_tally(
                crate::ranking::tally_view(r.0@),
                country_keys(self.events(), cutoff_24h),
                TOP_N_COUNTRIES as nat,
            ),
            crate::ranking::is_top_tally(
                crate::ranking::tally_view(r.1@),
                path_keys(self.events(), cutoff_24h),
                TOP_N_PATHS as nat,
            ),
            crate::ranking::is_top_tally(
                crate::ranking::tally_view(r.2@),
                ua_keys(self.events(), cutoff_24h),
                TOP_N_USER_AGENTS as nat,
            ),
            r.3 == self.events().len(),
    {
        let countries = self.window_keys(cutoff_24h, 0);
        let paths = self.window_keys(cutoff_24h, 1);
        let uas = self.window_keys(cutoff_24h, 2);
        (
            crate::ranking::tally_top(&countries, TOP_N_COUNTRIES),
            crate::ranking::tally_top(&paths, TOP_N_PATHS),
            crate::ranking::tally_top(&uas, TOP_N_USER_AGENTS),
            self.events.len(),
        )
    }

    /// Up to `n` most recent probe hits, newest first.
    fn recent_probe_hits(&self, n: usize) -> (r: Vec<ProbeHit>)
        ensures
            r@ == latest_first(self.probe_log(), n as nat),
    {
        let len = self.probe_hits.len();
        let k = if n < len { n } else { len };
        let mut out: Vec<ProbeHit> = Vec::new();
        let mut i: usize = 0;
        while i < k
            invariant
                len == self.probe_hits@.len(),
                k <= len,
                k == (if n < len { n } else { len }),
                i <= k,
                out@ == Seq::new(i as nat, |m: int| self.probe_hits@[len - 1 - m]),
            decreases k - i,
        {
            out.push(self.probe_hits[len - 1 - i].clone());
            i = i + 1;
            assert(out@ =~= Seq::new(i as nat, |m: int| self.probe_hits@[len - 1 - m]));
        }
        out
    }

    fn hourly_vec(&self) -> (r: Vec<HourlyBucket>)
        ensures
            r@ == self.hourly_buckets(),
    {
        let mut out: Vec<HourlyBucket> = Vec::new();
        let mut i: usize = 0;
        while i < self.hourly.len()
            invariant
                i <= self.hourly@.len(),
                out@ == self.hourly@.take(i as int),
            decreases self.hourly@.len() - i,
        {
            out.push(self.hourly[i]);
            i = i + 1;
            assert(out@ =~= self.hourly@.take(i as int));
        }
        assert(self.hourly@.take(self.hourly@.len() as int) =~= self.hourly@);
        out
    }

    /// Authenticated snapshot, with time windows measured back from `now`.
    pub fn snapshot_at(&self, now: u64) -> (s: MetricsSnapshot)
        requires
            self.wf(),
        ensures
            snapshot_ok(*self, now, s),
    {
        let cutoff_1h = now.saturating_sub(3600);
        let cutoff_24h = now.saturating_sub(86_400);
        let ingress = self.ingress_vec();
        let (top_countries, top_paths, top_ua, event_len) = self.top_from_ring(cutoff_24h);
        let per_route = self.per_route_snapshot(cutoff_1h, cutoff_24h);
        MetricsSnapshot {
            uptime_s: self.uptime_secs_at(now),
            started_at: self.started_at,
            total_requests: self.total_requests,
            total_bytes_out: self.total_bytes_out,
            total_errors: self.total_errors,
            ingress,
            per_route,
            top_countries_24h: top_countries,
            top_paths_24h: top_paths,
            top_user_agents_24h: top_ua,
            probe_paths_detected: self.recent_probe_hits(RECENT_PROBES_SHOWN),
            hourly: self.hourly_vec(),
            event_ring_len: event_len,
            event_ring_capacity: MAX_EVENTS,
        }
    }

    /// Authenticated snapshot as of the current clock.
    pub fn snapshot(&self) -> (s: MetricsSnapshot)
        requires
            self.wf(),
        ensures
            exists|now: u64| #[trigger] snapshot_ok(*self, now, s),
    {
        let now = crate::clock::now_secs();
        let s = self.snapshot_at(now);
        assert(snapshot_ok(*self, now, s));
        s
    }

    /// Public snapshot, with the country window measured back from `now`.
    pub fn snapshot_public_at(&self, now: u64) -> (s: PublicMetricsSnapshot)
        requires
            self.wf(),
        ensures
            s.uptime_s == cutoff(now, self.start_ts()),
            s.total_requests == self.requests_total(),
            s.total_errors == self.errors_total(),
            s.total_bytes_out == self.bytes_out_total(),
            ingress_count_view(s.ingress@) == request_counts(self.ingress_entries()),
            crate::ranking::is_top_tally(
                crate::ranking::tally_view(s.per_country@),
                country_keys(self.events(), cutoff(now, 86400)),
                self.events().len(),
            ),
            s.hourly@ == self.hourly_buckets(),
            s.probe_paths_detected_count == self.probe_log().len(),
    {
        let cutoff_24h = now.saturating_sub(86_400);
        let full = self.ingress_vec();
        let mut ingress: Vec<(String, u64)> = Vec::new();
        let mut i: usize = 0;
        while i < full.len()
            invariant
                i <= full.len(),
                ingress.len() == i,
                ingress_count_view(ingress@) == request_counts(ingress_view(full@).take(i as int)),
            decreases full.len() - i,
        {
            let ghost prev = ingress@;
            let name = full[i].0.clone();
            ingress.push((name, full[i].1.request_count));
            proof {
                let a = ingress_count_view(ingress@);
                let b = request_counts(ingress_view(full@).take(i + 1));
                assert(a.len() == b.len());
                assert forall|m: int| 0 <= m < a.len() implies a[m] == b[m] by {
                    if m < i {
                        assert(ingress@[m] == prev[m]);
                        assert(ingress_count_view(prev)[m] == request_counts(ingress_view(full@).take(i as int))[m]);
                    } else {
                        assert(ingress_view(full@)[m] == (full@[m].0@, full@[m].1));
                    }
                }
            }
            i = i + 1;
            assert(ingress_count_view(ingress@) =~= request_counts(ingress_view(full@).take(i as int)));
        }
        assert(ingress_view(full@).take(full.len() as int) =~= ingress_view(full@));
        let countries = self.window_keys(cutoff_24h, 0);
        proof {
            let kv = crate::ranking::key_views(countries@);
            assert(kv.len() == countries@.len());
            lemma_country_keys_len(self.events@, cutoff_24h);
        }
        let per_country = crate::ranking::tally_top(&countries, self.events.len());
        PublicMetricsSnapshot {
            uptime_s: self.uptime_secs_at(now),
            total_requests: self.total_requests,
            total_errors: self.total_errors,
            total_bytes_out: self.total_bytes_out,
            ingress,
            per_country,
            hourly: self.hourly_vec(),
            probe_paths_detected_count: self.probe_hits.len(),
        }
    }

    /// Public snapshot as of the current clock.
    pub fn snapshot_public(&self) -> (s: PublicMetricsSnapshot)
        requires
            self.wf(),
        ensures
            s.total_requests == self.requests_total(),
            s.total_errors == self.errors_total(),
            s.total_bytes_out == self.bytes_out_total(),
            ingress_count_view(s.ingress@) == request_counts(self.ingress_entries()),
            s.hourly@ == self.hourly_buckets(),
            s.probe_paths_detected_count == self.probe_log().len(),
            exists|now: u64|
                #![trigger cutoff(now, 86400)]
                crate::ranking::is_top_tally(
                    crate::ranking::tally_view(s.per_country@),
                    country_keys(self.events(), cutoff(now, 86400)),
                    self.events().len(),
                ) && s.uptime_s == cutoff(now, self.start_ts()),
    {
        let now = crate::clock::now_secs();
        let s = self.snapshot_public_at(now);
        assert(crate::ranking::is_top_tally(
            crate::ranking::tally_view(s.per_country@),
            country_keys(self.events(), cutoff(now, 86400)),
            self.events().len(),
        ));
        s
    }
}

pub proof fn lemma_country_keys_len(evs: Seq<RequestEvent>, cut: u64)
    ensures
        country_keys(evs, cut).len() <= evs.len(),
    decreases evs.len(),
{
    if evs.len() > 0 {
        lemma_country_keys_len(evs.drop_last(), cut);
    }
}

} // verus!

verus! {

// ---------------------------------------------------------------------------
// Prometheus exposition
// ---------------------------------------------------------------------------

pub open spec fn esc_char(c: char) -> Seq<char> {
    if c == '\\' {
        seq!['\\', '\\']
    } else if c == '"' {
        seq!['\\', '"']
    } else if c == '\n' {
        seq![' ']
    } else {
        seq![c]
    }
}

/// Label-value escaping: backslash and double quote are escaped with a
/// backslash, newlines become spaces.
pub open spec fn prom_escape(s: Seq<char>) -> Seq<char>
    decreases s.len(),
{
    if s.len() == 0 {
        Seq::empty()
    } else {
        prom_escape(s.drop_last()) + esc_char(s.last())
    }
}

pub open spec fn ingress_lines(v: Seq<(Seq<char>, IngressCounters)>) -> Seq<char>
    decreases v.len(),
{
    if v.len() == 0 {
        Seq::empty()
    } else {
        ingress_lines(v.drop_last()) + "approuter_requests_by_ingress{path=\""@ + v.last().0 + "\"} "@
            + crate::text::dec(v.last().1.request_count as nat) + "\n"@
    }
}

pub open spec fn route_p95_lines(rows: Seq<RouteSnapshot>) -> Seq<char>
    decreases rows.len(),
{
    if rows.len() == 0 {
        Seq::empty()
    } else {
        route_p95_lines(rows.drop_last()) + "approuter_route_p95_latency_ms{route=\""@ + prom_escape(
            rows.last().route@,
        ) + "\"} "@ + crate::text::dec(rows.last().p95_latency_ms as nat) + "\n"@
    }
}

pub open spec fn route_1h_lines(rows: Seq<RouteSnapshot>) -> Seq<char>
    decreases rows.len(),
{
    if rows.len() == 0 {
        Seq::empty()
    } else {
        route_1h_lines(rows.drop_last()) + "approuter_route_requests_1h{route=\""@ + prom_escape(
            rows.last().route@,
        ) + "\"} "@ + crate::text::dec(rows.last().request_count_1h as nat) + "\n"@
    }
}

/// The Prometheus text rendering of a snapshot: one metric family per concern.
pub open spec fn prom_render(s: MetricsSnapshot) -> Seq<char> {
    "# HELP approuter_uptime_seconds Proxy uptime.\n"@ + "# TYPE approuter_uptime_seconds gauge\n"@
        + "approuter_uptime_seconds "@ + crate::text::dec(s.uptime_s as nat) + "\n"@
        + "# HELP approuter_requests_total Total requests served since start.\n"@
        + "# TYPE approuter_requests_total counter\n"@ + "approuter_requests_total "@
        + crate::text::dec(s.total_requests as nat) + "\n"@
        + "# HELP approuter_bytes_out_total Total response bytes since start.\n"@
        + "# TYPE approuter_bytes_out_total counter\n"@ + "approuter_bytes_out_total "@
        + crate::text::dec(s.total_bytes_out as nat) + "\n"@
        + "# HELP approuter_errors_total Total error responses since start.\n"@
        + "# TYPE approuter_errors_total counter\n"@ + "approuter_errors_total "@
        + crate::text::dec(s.total_errors as nat) + "\n"@
        + "# HELP approuter_requests_by_ingress Total requests by ingress path.\n"@
        + "# TYPE approuter_requests_by_ingress counter\n"@ + ingress_lines(ingress_view(s.ingress@))
        + "# HELP approuter_route_p95_latency_ms Per-route p95 latency over recent window.\n"@
        + "# TYPE approuter_route_p95_latency_ms gauge\n"@ + route_p95_lines(s.per_route@)
        + "# HELP approuter_route_requests_1h Requests per route last hour.\n"@
        + "# TYPE approuter_route_requests_1h gauge\n"@ + route_1h_lines(s.per_route@)
        + "# HELP approuter_probe_hits_total Probe-path hits observed.\n"@
        + "# TYPE approuter_probe_hits_total counter\n"@ + "approuter_probe_hits_total "@
        + crate::text::dec(s.probe_paths_detected@.len()) + "\n"@
}

fn escape_into(out: &mut Vec<char>, raw: &Vec<char>)
    ensures
        final(out)@ == old(out)@ + prom_escape(raw@),
{
    let ghost start = out@;
    let mut i: usize = 0;
    while i < raw.len()
        invariant
            i <= raw.len(),
            out@ == start + prom_escape(raw@.take(i as int)),
        decreases raw.len() - i,
    {
        let c = raw[i];
        let ghost before = out@;
        if c == '\\' {
            out.push('\\');
            out.push('\\');
        } else if c == '"' {
            out.push('\\');
            out.push('"');
        } else if c == '\n' {
            out.push(' ');
        } else {
            out.push(c);
        }
        assert(raw@.take(i + 1).drop_last() =~= raw@.take(i as int));
        assert(out@ =~= before + esc_char(c));
        i = i + 1;
    }
    assert(raw@.take(raw.len() as int) =~= raw@);
}

/// Escapes a Prometheus label value.
pub fn prom_label_escape(raw: &str) -> (r: String)
    ensures
        r@ == prom_escape(raw@),
{
    let mut out: Vec<char> = Vec::new();
    escape_into(&mut out, &crate::text::str_chars(raw));
    assert(out@ =~= prom_escape(raw@));
    crate::text::string_from(&out)
}

fn push_dec_line(out: &mut Vec<char>, n: u64)
    ensures
        final(out)@ == old(out)@ + crate::text::dec(n as nat) + "\n"@,
{
    let d = crate::text::dec_chars(n);
    crate::text::extend_chars(out, &d);
    crate::text::extend_str(out, "\n");
}

/// Renders a snapshot in the Prometheus text format.
pub fn prometheus_text_of(s: &MetricsSnapshot) -> (r: String)
    ensures
        r@ == prom_render(*s),
{
    let mut out: Vec<char> = Vec::new();
    extend_str(&mut out, "# HELP approuter_uptime_seconds Proxy uptime.\n");
    extend_str(&mut out, "# TYPE approuter_uptime_seconds gauge\n");
    extend_str(&mut out, "approuter_uptime_seconds ");
    push_dec_line(&mut out, s.uptime_s);
    extend_str(&mut out, "# HELP approuter_requests_total Total requests served since start.\n");
    extend_str(&mut out, "# TYPE approuter_requests_total counter\n");
    extend_str(&mut out, "approuter_requests_total ");
    push_dec_line(&mut out, s.total_requests);
    extend_str(&mut out, "# HELP approuter_bytes_out_total Total response bytes since start.\n");
    extend_str(&mut out, "# TYPE approuter_bytes_out_total counter\n");
    extend_str(&mut out, "approuter_bytes_out_total ");
    push_dec_line(&mut out, s.total_bytes_out);
    extend_str(&mut out, "# HELP approuter_errors_total Total error responses since start.\n");
    extend_str(&mut out, "# TYPE approuter_errors_total counter\n");
    extend_str(&mut out, "approuter_errors_total ");
    push_dec_line(&mut out, s.total_errors);
    extend_str(&mut out, "# HELP approuter_requests_by_ingress Total requests by ingress path.\n");
    extend_str(&mut out, "# TYPE approuter_requests_by_ingress counter\n");
    let ghost p1 = out@;
    let mut i: usize = 0;
    while i < s.ingress.len()
        invariant
            i <= s.ingress@.len(),
            out@ == p1 + ingress_lines(ingress_view(s.ingress@).take(i as int)),
        decreases s.ingress@.len() - i,
    {
        let ghost before = out@;
        extend_str(&mut out, "approuter_requests_by_ingress{path=\"");
        let name = crate::text::str_chars(s.ingress[i].0.as_str());
        crate::text::extend_chars(&mut out, &name);
        extend_str(&mut out, "\"} ");
        push_dec_line(&mut out, s.ingress[i].1.request_count);
        proof {
            let v = ingress_view(s.ingress@);
            assert(v.take(i + 1).drop_last() =~= v.take(i as int));
            assert(v.take(i + 1).last() == v[i as int]);
            assert(out@ =~= p1 + ingress_lines(v.take(i + 1)));
        }
        i = i + 1;
    }
    assert(ingress_view(s.ingress@).take(s.ingress@.len() as int) =~= ingress_view(s.ingress@));
    extend_str(&mut out, "# HELP approuter_route_p95_latency_ms Per-route p95 latency over recent window.\n");
    extend_str(&mut out, "# TYPE approuter_route_p95_latency_ms gauge\n");
    let ghost p2 = out@;
    let mut i: usize = 0;
    while i < s.per_route.len()
        invariant
            i <= s.per_route@.len(),
            out@ == p2 + route_p95_lines(s.per_route@.take(i as int)),
        decreases s.per_route@.len() - i,
    {
        extend_str(&mut out, "approuter_route_p95_latency_ms{route=\"");
        let name = crate::text::str_chars(s.per_route[i].route.as_str());
        escape_into(&mut out, &name);
        extend_str(&mut out, "\"} ");
        push_dec_line(&mut out, s.per_route[i].p95_latency_ms);
        proof {
            let v = s.per_route@;
            assert(v.take(i + 1).drop_last() =~= v.take(i as int));
            assert(v.take(i + 1).last() == v[i as int]);
            assert(out@ =~= p2 + route_p95_lines(v.take(i + 1)));
        }
        i = i + 1;
    }
    assert(s.per_route@.take(s.per_route@.len() as int) =~= s.per_route@);
    extend_str(&mut out, "# HELP approuter_route_requests_1h Requests per route last hour.\n");
    extend_str(&mut out, "# TYPE approuter_route_requests_1h gauge\n");
    let ghost p3 = out@;
    let mut i: usize = 0;
    while i < s.per_route.len()
        invariant
            i <= s.per_route@.len(),
            out@ == p3 + route_1h_lines(s.per_route@.take(i as int)),
        decreases s.per_route@.len() - i,
    {
        extend_str(&mut out, "approuter_route_requests_1h{route=\"");
        let name = crate::text::str_chars(s.per_route[i].route.as_str());
        escape_into(&mut out, &name);
        extend_str(&mut out, "\"} ");
        push_dec_line(&mut out, s.per_route[i].request_count_1h);
        proof {
            let v = s.per_route@;
            assert(v.take(i + 1).drop_last() =~= v.take(i as int));
            assert(v.take(i + 1).last() == v[i as int]);
            assert(out@ =~= p3 + route_1h_lines(v.take(i + 1)));
        }
        i = i + 1;
    }
    extend_str(&mut out, "# HELP approuter_probe_hits_total Probe-path hits observed.\n");
    extend_str(&mut out, "# TYPE approuter_probe_hits_total counter\n");
    extend_str(&mut out, "approuter_probe_hits_total ");
    push_dec_line(&mut out, s.probe_paths_detected.len() as u64);
    assert(out@ =~= prom_render(*s));
    crate::text::string_from(&out)
}

impl MetricsCatalog {
    /// Prometheus text for the snapshot as of `now`.
    pub fn prometheus_text_at(&self, now: u64) -> (r: String)
        requires
            self.wf(),
        ensures
            exists|s: MetricsSnapshot| #[trigger] snapshot_ok(*self, now, s) && r@ == prom_render(s),
    {
        let s = self.snapshot_at(now);
        let r = prometheus_text_of(&s);
        assert(snapshot_ok(*self, now, s) && r@ == prom_render(s));
        r
    }

    /// Prometheus text for the snapshot as of the current clock.
    pub fn prometheus_text(&self) -> (r: String)
        requires
            self.wf(),
        ensures
            exists|now: u64, s: MetricsSnapshot|
                #[trigger] snapshot_ok(*self, now, s) && r@ == prom_render(s),
    {
        let now = crate::clock::now_secs();
        let r = self.prometheus_text_at(now);
        r
    }
}

// ---------------------------------------------------------------------------
// Laws
// ---------------------------------------------------------------------------

/// A bounded log never holds more than its cap, always keeps the entry just
/// added as its newest, and drops only the oldest entries.
pub proof fn law_bounded_log_keeps_newest<T>(s: Seq<T>, x: T, cap: nat)
    requires
        cap > 0,
    ensures
        bounded(s.push(x), cap).len() == (if s.len() + 1 > cap { cap } else { s.len() + 1 }),
        bounded(s.push(x), cap).last() == x,
        bounded(s.push(x), cap) == s.push(x).subrange(
            s.len() + 1 - bounded(s.push(x), cap).len(),
            s.len() + 1 as int,
        ),
{
    let f = s.push(x);
    if f.len() <= cap {
        assert(f.subrange(0, f.len() as int) =~= f);
    }
}

impl MetricsCatalog {
    /// Storage stays bounded: at most `MAX_EVENTS` events, `MAX_HOURLY`
    /// hourly buckets, `MAX_PROBE_HITS` probe hits, and
    /// `ROUTE_LATENCY_WINDOW` latencies per route; route names are distinct
    /// and every event in the ring belongs to a known route.
    pub proof fn law_storage_is_bounded(&self)
        requires
            self.wf(),
        ensures
            self.events().len() <= MAX_EVENTS,
            self.hourly_buckets().len() <= MAX_HOURLY,
            self.probe_log().len() <= MAX_PROBE_HITS,
            distinct_keys(self.routes()),
            forall|i: int| 0 <= i < self.routes().len() ==> (#[trigger] self.routes()[i]).1.3.len() <= ROUTE_LATENCY_WINDOW,
            forall|i: int| 0 <= i < self.events().len() ==> has_key(self.routes(), #[trigger] route_key(self.events()[i])),
    {
        assert forall|i: int| 0 <= i < self.routes().len() implies (#[trigger] self.routes()[i]).1.3.len() <= ROUTE_LATENCY_WINDOW by {
            assert(self.route_counters@[i].latencies_ms@.len() <= ROUTE_LATENCY_WINDOW);
        }
    }
}

/// Every index below `n` occurs in a permutation of `0..n`.
proof fn lemma_perm_onto(perm: Seq<int>, n: nat, k: int)
    requires
        is_perm(perm, n),
        0 <= k < n,
    ensures
        exists|i: int| 0 <= i < perm.len() && perm[i] == k,
{
    assert(perm.no_duplicates()) by {
        assert forall|i: int, j: int| 0 <= i < perm.len() && 0 <= j < perm.len() && i != j implies perm[i]
            != perm[j] by {
            if i < j {
                assert(perm[i] != perm[j]);
            } else {
                assert(perm[j] != perm[i]);
            }
        }
    }
    perm.unique_seq_to_set();
    vstd::set_lib::lemma_int_range(0, n as int);
    let range = vstd::set_lib::set_int_range(0, n as int);
    assert(perm.to_set().subset_of(range)) by {
        assert forall|x: int| perm.to_set().contains(x) implies range.contains(x) by {
            let i = choose|i: int| 0 <= i < perm.len() && perm[i] == x;
            assert(0 <= perm[i] < n);
        }
    }
    vstd::set_lib::lemma_len_subset(perm.to_set(), range);
    vstd::set_lib::lemma_subset_equality(perm.to_set(), range);
    assert(range.contains(k));
    assert(perm.to_set().contains(k));
}

/// A route snapshot has a row for every known route.
pub proof fn law_every_route_has_a_row(
    rows: Seq<RouteSnapshot>,
    routes: Seq<(Seq<char>, (u64, u64, u64, Seq<u64>))>,
    evs: Seq<RequestEvent>,
    c1: u64,
    c24: u64,
    k: int,
)
    requires
        per_route_ok(rows, routes, evs, c1, c24),
        0 <= k < routes.len(),
    ensures
        exists|i: int| 0 <= i < rows.len() && (#[trigger] rows[i]).route@ == routes[k].0,
{
    let perm = choose|perm: Seq<int>|
        #![trigger is_perm(perm, routes.len())]
        is_perm(perm, routes.len()) && forall|i: int|
            0 <= i < rows.len() ==> row_matches(
                #[trigger] rows[i],
                routes[perm[i]].0,
                routes[perm[i]].1.3,
                evs,
                c1,
                c24,
            );
    lemma_perm_onto(perm, routes.len(), k);
    let i = choose|i: int| 0 <= i < perm.len() && perm[i] == k;
    assert(row_matches(rows[i], routes[perm[i]].0, routes[perm[i]].1.3, evs, c1, c24));
}

/// Booking an event makes its route a known route.
pub proof fn law_recorded_route_is_known(routes: Seq<(Seq<char>, (u64, u64, u64, Seq<u64>))>, e: RequestEvent)
    ensures
        has_key(route_update(routes, e), route_key(e)),
{
    let k = route_key(e);
    if has_key(routes, k) {
        let i = key_index(routes, k);
        assert(route_update(routes, e)[i].0 == k);
    } else {
        assert(route_update(routes, e)[routes.len() as int].0 == k);
    }
}

/// The bookkeeping of a catalog that a sequence of `record` calls drives:
/// (event ring, probe hits, requests, bytes out, errors, start time).
pub type CatalogState = (Seq<RequestEvent>, Seq<ProbeHit>, u64, u64, u64, u64);

pub open spec fn state_of(m: MetricsCatalog) -> CatalogState {
    (m.events(), m.probe_log(), m.requests_total(), m.bytes_out_total(), m.errors_total(), m.start_ts())
}

/// One `record` call on that bookkeeping.
pub open spec fn record_step(c: CatalogState, e: RequestEvent) -> CatalogState {
    (
        bounded(c.0.push(e), MAX_EVENTS as nat),
        if is_probe_path(e.path@) {
            bounded(c.1.push(probe_hit_of(e)), MAX_PROBE_HITS as nat)
        } else {
            c.1
        },
        wadd(c.2, 1),
        wadd(c.3, e.response_bytes),
        wadd(c.4, err_inc(e)),
        c.5,
    )
}

/// `record` called on each of `es` in turn.
pub open spec fn replay(c: CatalogState, es: Seq<RequestEvent>) -> CatalogState
    decreases es.len(),
{
    if es.len() == 0 {
        c
    } else {
        record_step(replay(c, es.drop_last()), es.last())
    }
}

/// A new catalog started at `start`.
pub open spec fn fresh_state(start: u64) -> CatalogState {
    (Seq::empty(), Seq::empty(), 0, 0, 0, start)
}

/// Number of events that carry an error class.
pub open spec fn error_events(es: Seq<RequestEvent>) -> nat
    decreases es.len(),
{
    if es.len() == 0 {
        0
    } else {
        error_events(es.drop_last()) + err_inc(es.last()) as nat
    }
}

/// Sum of the response sizes.
pub open spec fn bytes_sum(es: Seq<RequestEvent>) -> nat
    decreases es.len(),
{
    if es.len() == 0 {
        0
    } else {
        bytes_sum(es.drop_last()) + es.last().response_bytes as nat
    }
}

/// Probe hits of the events whose path looks like a probe, in order.
pub open spec fn probe_hits_of(es: Seq<RequestEvent>) -> Seq<ProbeHit>
    decreases es.len(),
{
    if es.len() == 0 {
        Seq::empty()
    } else if is_probe_path(es.last().path@) {
        probe_hits_of(es.drop_last()).push(probe_hit_of(es.last()))
    } else {
        probe_hits_of(es.drop_last())
    }
}

proof fn lemma_bounded_push<T>(s: Seq<T>, x: T, cap: nat)
    requires
        cap > 0,
    ensures
        bounded(bounded(s, cap).push(x), cap) == bounded(s.push(x), cap),
{
    let b = bounded(s, cap);
    if s.len() > cap {
        assert(bounded(b.push(x), cap) =~= bounded(s.push(x), cap));
    } else {
        assert(b == s);
    }
}

proof fn lemma_error_events_le(es: Seq<RequestEvent>)
    ensures
        error_events(es) <= es.len(),
    decreases es.len(),
{
    if es.len() > 0 {
        lemma_error_events_le(es.drop_last());
    }
}

/// After `record` has been called on each of `es`, starting from a new
/// catalog: the start time is unchanged, the request count is the number of
/// calls, the error count is the number of error events, the byte count is
/// the sum of the response sizes modulo 2^64, the ring holds the last
/// `MAX_EVENTS` events and the probe log the last `MAX_PROBE_HITS` probe hits.
pub proof fn law_record_replay(start: u64, es: Seq<RequestEvent>)
    requires
        es.len() <= u64::MAX,
    ensures
        replay(fresh_state(start), es).5 == start,
        replay(fresh_state(start), es).2 == es.len(),
        replay(fresh_state(start), es).4 == error_events(es),
        replay(fresh_state(start), es).3 == bytes_sum(es) % 0x1_0000_0000_0000_0000,
        replay(fresh_state(start), es).0 == bounded(es, MAX_EVENTS as nat),
        replay(fresh_state(start), es).1 == bounded(probe_hits_of(es), MAX_PROBE_HITS as nat),
    decreases es.len(),
{
    if es.len() == 0 {
        assert(bounded(es, MAX_EVENTS as nat) =~= Seq::<RequestEvent>::empty());
    } else {
        let pre = es.drop_last();
        let e = es.last();
        law_record_replay(start, pre);
        lemma_error_events_le(es);
        lemma_bounded_push(pre, e, MAX_EVENTS as nat);
        assert(pre.push(e) =~= es);
        if is_probe_path(e.path@) {
            lemma_bounded_push(probe_hits_of(pre), probe_hit_of(e), MAX_PROBE_HITS as nat);
        }
        let b0 = bytes_sum(pre) % 0x1_0000_0000_0000_0000;
        assert((b0 + e.response_bytes) % 0x1_0000_0000_0000_0000 == (bytes_sum(pre) + e.response_bytes)
            % 0x1_0000_0000_0000_0000) by (nonlinear_arith)
            requires
                b0 == bytes_sum(pre) % 0x1_0000_0000_0000_0000,
        ;
        assert(wadd(b0 as u64, e.response_bytes) == (b0 + e.response_bytes) % 0x1_0000_0000_0000_0000) by (nonlinear_arith)
            requires
                0 <= b0 < 0x1_0000_0000_0000_0000,
                e.response_bytes < 0x1_0000_0000_0000_0000,
        ;
    }
}

/// Peers are LAN exactly when the address is loopback (`127.`, `::1`), in
/// a private IPv4 block (`10.`, `192.168.`, 172.16/12) or a unique-local
/// IPv6 block (`fc`, `fd`); an empty peer counts as direct.
pub proof fn law_lan_peers(ip: Seq<char>)
    ensures
        ip.len() == 0 ==> classify_peer(ip) == IngressPath::Direct,
        ip.len() > 0 ==> (classify_peer(ip) == IngressPath::Lan <==> (starts_with_seq(ip, "127."@) || starts_with_seq(ip, "10."@) || starts_with_seq(ip, "192.168."@) || starts_with_seq(ip, "fc"@) || starts_with_seq(ip, "fd"@) || ip == "::1"@
            || is_rfc1918_172_spec(ip))),
{
    assert(lan_prefixes()[0] == "127."@);
    assert(lan_prefixes()[1] == "10."@);
    assert(lan_prefixes()[2] == "192.168."@);
    assert(lan_prefixes()[3] == "fc"@);
    assert(lan_prefixes()[4] == "fd"@);
    if exists|i: int| 0 <= i < lan_prefixes().len() && #[trigger] starts_with_seq(ip, lan_prefixes()[i]) {
        let k = choose|i: int| 0 <= i < lan_prefixes().len() && #[trigger] starts_with_seq(ip, lan_prefixes()[i]);
        if k == 0 { assert(starts_with_seq(ip, "127."@)); }
        if k == 1 { assert(starts_with_seq(ip, "10."@)); }
        if k == 2 { assert(starts_with_seq(ip, "192.168."@)); }
        if k == 3 { assert(starts_with_seq(ip, "fc"@)); }
        if k == 4 { assert(starts_with_seq(ip, "fd"@)); }
    }
    if starts_with_seq(ip, "127."@) { assert(starts_with_seq(ip, lan_prefixes()[0])); }
    if starts_with_seq(ip, "10."@) { assert(starts_with_seq(ip, lan_prefixes()[1])); }
    if starts_with_seq(ip, "192.168."@) { assert(starts_with_seq(ip, lan_prefixes()[2])); }
    if starts_with_seq(ip, "fc"@) { assert(starts_with_seq(ip, lan_prefixes()[3])); }
    if starts_with_seq(ip, "fd"@) { assert(starts_with_seq(ip, lan_prefixes()[4])); }
}

/// Error classes by status: nothing below 400; 404 and 410 are not found,
/// 403 forbidden, 408 and 504 timeouts, 502 a bad gateway, 400 a bad
/// request; other 5xx are upstream errors; no 4xx is ever an upstream error
/// or bad gateway, and no 5xx a client-side class.
pub proof fn law_error_classes(status: u16)
    ensures
        status < 400 ==> error_type_of(status) is None,
        status == 404 || status == 410 ==> error_type_of(status) == Some(ErrorType::NotFound),
        status == 403 ==> error_type_of(status) == Some(ErrorType::Forbidden),
        status == 408 || status == 504 ==> error_type_of(status) == Some(ErrorType::Timeout),
        status == 502 ==> error_type_of(status) == Some(ErrorType::BadGateway),
        status == 400 ==> error_type_of(status) == Some(ErrorType::BadRequest),
        500 <= status <= 599 && status != 502 && status != 504 ==> error_type_of(status) == Some(ErrorType::UpstreamError),
        400 <= status <= 499 ==> error_type_of(status) != Some(ErrorType::UpstreamError)
            && error_type_of(status) != Some(ErrorType::BadGateway),
        500 <= status <= 599 ==> error_type_of(status) != Some(ErrorType::NotFound) && error_type_of(status)
            != Some(ErrorType::Forbidden) && error_type_of(status) != Some(ErrorType::BadRequest),
        status >= 600 ==> error_type_of(status) == Some(ErrorType::Other),
{
}

/// Truncation of a dotted IPv4 address `a.b.c.d` keeps the first three
/// octets and replaces the host octet: `a.b.c.0/24`.
pub proof fn law_ipv4_truncates_to_24(a: Seq<char>, b: Seq<char>, c: Seq<char>, d: Seq<char>)
    requires
        !a.contains('.') && !b.contains('.') && !c.contains('.') && !d.contains('.'),
        !a.contains(':') && !b.contains(':') && !c.contains(':') && !d.contains(':'),
        a.len() > 0 && d.len() > 0,
        !crate::text::is_ws(a[0]) && !crate::text::is_ws(d.last()),
    ensures
        truncate_ip_spec(a + "."@ + b + "."@ + c + "."@ + d) == a + "."@ + b + "."@ + c + ".0/24"@,
{
    reveal_strlit(".");
    let dot = seq!['.'];
    assert("."@ =~= dot);
    let ip = a + dot + b + dot + c + dot + d;
    let tail2 = c + dot + d;
    let tail1 = b + dot + tail2;
    assert(ip =~= a + dot + tail1);
    assert(tail1 =~= b + dot + tail2);
    crate::text::lemma_split_at_first(a, '.', tail1);
    crate::text::lemma_split_at_first(b, '.', tail2);
    crate::text::lemma_split_at_first(c, '.', d);
    crate::text::lemma_split_without_sep(d, '.');
    assert(ip[0] == a[0]);
    assert(ip.last() == d.last());
    crate::text::lemma_trim_noop(ip);
    assert(!ip.contains(':')) by {
        if ip.contains(':') {
            let i = choose|i: int| 0 <= i < ip.len() && ip[i] == ':';
            if i < a.len() {
                assert(a[i] == ':');
            } else if i == a.len() {
            } else if i < a.len() + 1 + b.len() {
                assert(b[i - a.len() - 1] == ':');
            } else if i == a.len() + 1 + b.len() {
            } else if i < a.len() + 2 + b.len() + c.len() {
                assert(c[i - a.len() - 2 - b.len()] == ':');
            } else if i == a.len() + 2 + b.len() + c.len() {
            } else {
                assert(d[i - a.len() - 3 - b.len() - c.len()] == ':');
            }
        }
    }
    let parts = split_seq(ip, '.');
    assert(parts =~= seq![a, b, c, d]);
}

/// Truncation of an IPv6 address `a:b:c:rest` keeps the first three groups
/// and drops the rest: `a:b:c::/48`.
pub proof fn law_ipv6_truncates_to_48(a: Seq<char>, b: Seq<char>, c: Seq<char>, rest: Seq<char>)
    requires
        !a.contains(':') && !b.contains(':') && !c.contains(':'),
        a.len() > 0 && rest.len() > 0,
        !crate::text::is_ws(a[0]) && !crate::text::is_ws(rest.last()),
    ensures
        truncate_ip_spec(a + ":"@ + b + ":"@ + c + ":"@ + rest) == a + ":"@ + b + ":"@ + c + "::/48"@,
{
    reveal_strlit(":");
    let col = seq![':'];
    assert(":"@ =~= col);
    let ip = a + col + b + col + c + col + rest;
    let tail2 = c + col + rest;
    let tail1 = b + col + tail2;
    assert(ip =~= a + col + tail1);
    crate::text::lemma_split_at_first(a, ':', tail1);
    crate::text::lemma_split_at_first(b, ':', tail2);
    crate::text::lemma_split_at_first(c, ':', rest);
    assert(ip[0] == a[0]);
    assert(ip.last() == rest.last());
    crate::text::lemma_trim_noop(ip);
    assert(ip[a.len() as int] == ':');
    let parts = split_seq(ip, ':');
    assert(parts =~= seq![a, b, c] + split_seq(rest, ':'));
    assert(parts.take(3) =~= seq![a, b, c]);
    assert(seq![a, b, c].drop_last() =~= seq![a, b]);
    assert(seq![a, b].drop_last() =~= seq![a]);
    assert(seq![a][0] == a);
    assert(join_seq(seq![a], ":"@) == a);
    assert(seq![a, b].last() == b);
    assert(join_seq(seq![a, b], ":"@) == a + ":"@ + b);
    assert(seq![a, b, c].last() == c);
    assert(join_seq(seq![a, b, c], ":"@) == a + ":"@ + b + ":"@ + c);
}

/// A dotted address `172.<p>.<rest>` is in the 172.16.0.0/12 private block
/// exactly when its second label is a number from 16 to 31.
pub proof fn law_private_172_block(p: Seq<char>, rest: Seq<char>)
    requires
        !p.contains('.'),
    ensures
        is_rfc1918_172_spec("172."@ + p + "."@ + rest) <==> (parse_u8_spec(p) matches Some(n) && 16 <= n
            && n <= 31),
{
    reveal_strlit("172.");
    reveal_strlit("172");
    reveal_strlit(".");
    let dot = seq!['.'];
    let head = "172"@;
    assert("172."@ =~= head + dot);
    assert(!head.contains('.'));
    let ip = "172."@ + p + "."@ + rest;
    assert(ip =~= head + dot + (p + dot + rest));
    crate::text::lemma_split_at_first(head, '.', p + dot + rest);
    crate::text::lemma_split_at_first(p, '.', rest);
    let parts = split_seq(ip, '.');
    assert(parts =~= seq![head, p] + split_seq(rest, '.'));
}

/// A path is a probe path exactly when its ASCII-lower-cased form contains
/// one of the scanner markers (`.env`, `wp-admin`, `/.git`, ...).
pub proof fn law_probe_markers(path: Seq<char>)
    ensures
        is_probe_path(path) <==> (contains_seq(lower(path), ".env"@) || contains_seq(lower(path), "wp-admin"@) || contains_seq(lower(path), "wp-login"@) || contains_seq(lower(path), "wp-config"@) || contains_seq(lower(path), "/.git"@) || contains_seq(lower(path), "phpmyadmin"@) || contains_seq(lower(path), "xmlrpc"@) || contains_seq(lower(path), "shell.php"@) || contains_seq(lower(path), "eval-stdin"@) || contains_seq(lower(path), "/administrator"@) || contains_seq(lower(path), ".aws/credentials"@) || contains_seq(lower(path), ".ssh/id_rsa"@) || contains_seq(lower(path), "/phpinfo"@) || contains_seq(lower(path), "/config.json"@) || contains_seq(lower(path), "/debug/pprof"@)),
{
    let l = lower(path);
    assert(probe_patterns()[0] == ".env"@);
    assert(probe_patterns()[1] == "wp-admin"@);
    assert(probe_patterns()[2] == "wp-login"@);
    assert(probe_patterns()[3] == "wp-config"@);
    assert(probe_patterns()[4] == "/.git"@);
    assert(probe_patterns()[5] == "phpmyadmin"@);
    assert(probe_patterns()[6] == "xmlrpc"@);
    assert(probe_patterns()[7] == "shell.php"@);
    assert(probe_patterns()[8] == "eval-stdin"@);
    assert(probe_patterns()[9] == "/administrator"@);
    assert(probe_patterns()[10] == ".aws/credentials"@);
    assert(probe_patterns()[11] == ".ssh/id_rsa"@);
    assert(probe_patterns()[12] == "/phpinfo"@);
    assert(probe_patterns()[13] == "/config.json"@);
    assert(probe_patterns()[14] == "/debug/pprof"@);
    if contains_any(l, probe_patterns()) {
        let k = choose|k: int| 0 <= k < probe_patterns().len() && #[trigger] contains_seq(l, probe_patterns()[k]);
        if k == 0 { assert(contains_seq(l, ".env"@)); }
        if k == 1 { assert(contains_seq(l, "wp-admin"@)); }
        if k == 2 { assert(contains_seq(l, "wp-login"@)); }
        if k == 3 { assert(contains_seq(l, "wp-config"@)); }
        if k == 4 { assert(contains_seq(l, "/.git"@)); }
        if k == 5 { assert(contains_seq(l, "phpmyadmin"@)); }
        if k == 6 { assert(contains_seq(l, "xmlrpc"@)); }
        if k == 7 { assert(contains_seq(l, "shell.php"@)); }
        if k == 8 { assert(contains_seq(l, "eval-stdin"@)); }
        if k == 9 { assert(contains_seq(l, "/administrator"@)); }
        if k == 10 { assert(contains_seq(l, ".aws/credentials"@)); }
        if k == 11 { assert(contains_seq(l, ".ssh/id_rsa"@)); }
        if k == 12 { assert(contains_seq(l, "/phpinfo"@)); }
        if k == 13 { assert(contains_seq(l, "/config.json"@)); }
        if k == 14 { assert(contains_seq(l, "/debug/pprof"@)); }
    }
    if contains_seq(l, ".env"@) { assert(contains_seq(l, probe_patterns()[0])); }
    if contains_seq(l, "wp-admin"@) { assert(contains_seq(l, probe_patterns()[1])); }
    if contains_seq(l, "wp-login"@) { assert(contains_seq(l, probe_patterns()[2])); }
    if contains_seq(l, "wp-config"@) { assert(contains_seq(l, probe_patterns()[3])); }
    if contains_seq(l, "/.git"@) { assert(contains_seq(l, probe_patterns()[4])); }
    if contains_seq(l, "phpmyadmin"@) { assert(contains_seq(l, probe_patterns()[5])); }
    if contains_seq(l, "xmlrpc"@) { assert(contains_seq(l, probe_patterns()[6])); }
    if contains_seq(l, "shell.php"@) { assert(contains_seq(l, probe_patterns()[7])); }
    if contains_seq(l, "eval-stdin"@) { assert(contains_seq(l, probe_patterns()[8])); }
    if contains_seq(l, "/administrator"@) { assert(contains_seq(l, probe_patterns()[9])); }
    if contains_seq(l, ".aws/credentials"@) { assert(contains_seq(l, probe_patterns()[10])); }
    if contains_seq(l, ".ssh/id_rsa"@) { assert(contains_seq(l, probe_patterns()[11])); }
    if contains_seq(l, "/phpinfo"@) { assert(contains_seq(l, probe_patterns()[12])); }
    if contains_seq(l, "/config.json"@) { assert(contains_seq(l, probe_patterns()[13])); }
    if contains_seq(l, "/debug/pprof"@) { assert(contains_seq(l, probe_patterns()[14])); }
}

/// A bot marker in the ASCII-lower-cased user agent.
pub open spec fn has_bot_marker(l: Seq<char>) -> bool {
    contains_seq(l, "bot"@) || contains_seq(l, "spider"@) || contains_seq(l, "crawl"@) || contains_seq(l, "scanner"@) || contains_seq(l, "semrush"@) || contains_seq(l, "ahrefs"@) || contains_seq(l, "yandex"@) || contains_seq(l, "headlesschrome"@) || contains_seq(l, "phantomjs"@)
}

/// A command-line client marker in the ASCII-lower-cased user agent.
pub open spec fn has_api_marker(l: Seq<char>) -> bool {
    contains_seq(l, "curl/"@) || contains_seq(l, "wget"@) || contains_seq(l, "python"@) || contains_seq(l, "go-http"@) || contains_seq(l, "postman"@) || contains_seq(l, "httpie"@) || contains_seq(l, "insomnia"@)
}

/// A browser engine marker in the ASCII-lower-cased user agent.
pub open spec fn has_browser_marker(l: Seq<char>) -> bool {
    contains_seq(l, "mozilla/"@) || contains_seq(l, "chrome/"@) || contains_seq(l, "safari/"@) || contains_seq(l, "firefox/"@) || contains_seq(l, "edg/"@) || contains_seq(l, "opr/"@)
}

proof fn lemma_ua_markers(l: Seq<char>)
    ensures
        contains_any(l, bot_markers()) == has_bot_marker(l),
        contains_any(l, api_markers()) == has_api_marker(l),
        contains_any(l, browser_markers()) == has_browser_marker(l),
{
    assert(bot_markers()[0] == "bot"@);
    assert(bot_markers()[1] == "spider"@);
    assert(bot_markers()[2] == "crawl"@);
    assert(bot_markers()[3] == "scanner"@);
    assert(bot_markers()[4] == "semrush"@);
    assert(bot_markers()[5] == "ahrefs"@);
    assert(bot_markers()[6] == "yandex"@);
    assert(bot_markers()[7] == "headlesschrome"@);
    assert(bot_markers()[8] == "phantomjs"@);
    if contains_any(l, bot_markers()) {
        let k = choose|k: int| 0 <= k < bot_markers().len() && #[trigger] contains_seq(l, bot_markers()[k]);
        if k == 0 { assert(contains_seq(l, "bot"@)); }
        if k == 1 { assert(contains_seq(l, "spider"@)); }
        if k == 2 { assert(contains_seq(l, "crawl"@)); }
        if k == 3 { assert(contains_seq(l, "scanner"@)); }
        if k == 4 { assert(contains_seq(l, "semrush"@)); }
        if k == 5 { assert(contains_seq(l, "ahrefs"@)); }
        if k == 6 { assert(contains_seq(l, "yandex"@)); }
        if k == 7 { assert(contains_seq(l, "headlesschrome"@)); }
        if k == 8 { assert(contains_seq(l, "phantomjs"@)); }
    }
    if contains_seq(l, "bot"@) { assert(contains_seq(l, bot_markers()[0])); }
    if contains_seq(l, "spider"@) { assert(contains_seq(l, bot_markers()[1])); }
    if contains_seq(l, "crawl"@) { assert(contains_seq(l, bot_markers()[2])); }
    if contains_seq(l, "scanner"@) { assert(contains_seq(l, bot_markers()[3])); }
    if contains_seq(l, "semrush"@) { assert(contains_seq(l, bot_markers()[4])); }
    if contains_seq(l, "ahrefs"@) { assert(contains_seq(l, bot_markers()[5])); }
    if contains_seq(l, "yandex"@) { assert(contains_seq(l, bot_markers()[6])); }
    if contains_seq(l, "headlesschrome"@) { assert(contains_seq(l, bot_markers()[7])); }
    if contains_seq(l, "phantomjs"@) { assert(contains_seq(l, bot_markers()[8])); }
    assert(api_markers()[0] == "curl/"@);
    assert(api_markers()[1] == "wget"@);
    assert(api_markers()[2] == "python"@);
    assert(api_markers()[3] == "go-http"@);
    assert(api_markers()[4] == "postman"@);
    assert(api_markers()[5] == "httpie"@);
    assert(api_markers()[6] == "insomnia"@);
    if contains_any(l, api_markers()) {
        let k = choose|k: int| 0 <= k < api_markers().len() && #[trigger] contains_seq(l, api_markers()[k]);
        if k == 0 { assert(contains_seq(l, "curl/"@)); }
        if k == 1 { assert(contains_seq(l, "wget"@)); }
        if k == 2 { assert(contains_seq(l, "python"@)); }
        if k == 3 { assert(contains_seq(l, "go-http"@)); }
        if k == 4 { assert(contains_seq(l, "postman"@)); }
        if k == 5 { assert(contains_seq(l, "httpie"@)); }
        if k == 6 { assert(contains_seq(l, "insomnia"@)); }
    }
    if contains_seq(l, "curl/"@) { assert(contains_seq(l, api_markers()[0])); }
    if contains_seq(l, "wget"@) { assert(contains_seq(l, api_markers()[1])); }
    if contains_seq(l, "python"@) { assert(contains_seq(l, api_markers()[2])); }
    if contains_seq(l, "go-http"@) { assert(contains_seq(l, api_markers()[3])); }
    if contains_seq(l, "postman"@) { assert(contains_seq(l, api_markers()[4])); }
    if contains_seq(l, "httpie"@) { assert(contains_seq(l, api_markers()[5])); }
    if contains_seq(l, "insomnia"@) { assert(contains_seq(l, api_markers()[6])); }
    assert(browser_markers()[0] == "mozilla/"@);
    assert(browser_markers()[1] == "chrome/"@);
    assert(browser_markers()[2] == "safari/"@);
    assert(browser_markers()[3] == "firefox/"@);
    assert(browser_markers()[4] == "edg/"@);
    assert(browser_markers()[5] == "opr/"@);
    if contains_any(l, browser_markers()) {
        let k = choose|k: int| 0 <= k < browser_markers().len() && #[trigger] contains_seq(l, browser_markers()[k]);
        if k == 0 { assert(contains_seq(l, "mozilla/"@)); }
        if k == 1 { assert(contains_seq(l, "chrome/"@)); }
        if k == 2 { assert(contains_seq(l, "safari/"@)); }
        if k == 3 { assert(contains_seq(l, "firefox/"@)); }
        if k == 4 { assert(contains_seq(l, "edg/"@)); }
        if k == 5 { assert(contains_seq(l, "opr/"@)); }
    }
    if contains_seq(l, "mozilla/"@) { assert(contains_seq(l, browser_markers()[0])); }
    if contains_seq(l, "chrome/"@) { assert(contains_seq(l, browser_markers()[1])); }
    if contains_seq(l, "safari/"@) { assert(contains_seq(l, browser_markers()[2])); }
    if contains_seq(l, "firefox/"@) { assert(contains_seq(l, browser_markers()[3])); }
    if contains_seq(l, "edg/"@) { assert(contains_seq(l, browser_markers()[4])); }
    if contains_seq(l, "opr/"@) { assert(contains_seq(l, browser_markers()[5])); }
}

/// User-agent classes: an empty user agent is unknown; otherwise a bot
/// marker wins whatever else the user agent says (a crawler announcing
/// `Mozilla/5.0` is still a bot), then a command-line client marker, then a
/// browser marker; a user agent with none of them is unknown.
pub proof fn law_ua_class_markers(ua: Seq<char>)
    ensures
        ua.len() == 0 ==> ua_class_of(ua) == UaClass::Unknown,
        ua.len() > 0 && has_bot_marker(lower(ua)) ==> ua_class_of(ua) == UaClass::Bot,
        ua.len() > 0 && !has_bot_marker(lower(ua)) && has_api_marker(lower(ua)) ==> ua_class_of(ua) == UaClass::Api,
        ua.len() > 0 && !has_bot_marker(lower(ua)) && !has_api_marker(lower(ua)) && has_browser_marker(lower(ua))
            ==> ua_class_of(ua) == UaClass::Browser,
        ua.len() > 0 && !has_bot_marker(lower(ua)) && !has_api_marker(lower(ua)) && !has_browser_marker(lower(ua))
            ==> ua_class_of(ua) == UaClass::Unknown,
        ua_class_of(ua) == UaClass::Bot ==> has_bot_marker(lower(ua)),
        ua_class_of(ua) == UaClass::Browser ==> has_browser_marker(lower(ua)),
{
    lemma_ua_markers(lower(ua));
}

/// The probe test ignores ASCII case.
pub proof fn law_probe_test_ignores_case(a: Seq<char>, b: Seq<char>)
    requires
        lower(a) == lower(b),
    ensures
        is_probe_path(a) == is_probe_path(b),
{
}

/// A path that contains a probe path is a probe path too.
pub proof fn law_probe_test_on_longer_paths(x: Seq<char>, p: Seq<char>, y: Seq<char>)
    requires
        is_probe_path(p),
    ensures
        is_probe_path(x + p + y),
{
    let big = x + p + y;
    assert(lower(big) =~= lower(x) + lower(p) + lower(y));
    let k = choose|k: int| 0 <= k < probe_patterns().len() && #[trigger] contains_seq(lower(p), probe_patterns()[k]);
    let pat = probe_patterns()[k];
    let i = choose|i: int| #[trigger] crate::text::occurs_at(lower(p), pat, i);
    let j = x.len() + i;
    assert(lower(big).subrange(j, j + pat.len()) =~= lower(p).subrange(i, i + pat.len()));
    assert(crate::text::occurs_at(lower(big), pat, j));
    assert(contains_seq(lower(big), pat));
}

/// A response is classified as an error exactly when its status is 400 or
/// above.
pub proof fn law_error_iff_status_from_400(status: u16)
    ensures
        error_type_of(status) is Some <==> status >= 400,
{
}

} // verus!
