//! Response shapes of the metrics endpoints: the authenticated full view
//! assembled from the metrics catalog, the self-check store and the
//! registry, and the self-check lines appended to the Prometheus text.

use vstd::prelude::*;

use crate::metrics_catalog::{HourlyBucket, IngressCounters, MetricsSnapshot, ProbeHit, RouteSnapshot};
use crate::registry::{app_views, strs, t30, AppView};
use crate::selfcheck::SelfCheckSnapshot;
use crate::text::{dec, dec_chars, extend_chars, extend_str, string_from};

verus! {

/// Process-level figures of the full metrics view.
#[derive(Debug)]
pub struct ProcessInfo {
    pub uptime_s: u64,
    pub started_at: u64,
    pub version: String,
    pub binary_sha: String,
    pub memory_rss_bytes: u64,
    pub total_requests: u64,
    pub total_bytes_out: u64,
    pub total_errors: u64,
    pub event_ring_len: usize,
    pub event_ring_capacity: usize,
}

/// A registered backend as listed in the full metrics view.
#[derive(Debug)]
pub struct BackendEntry {
    pub app_id: String,
    pub hostnames: Vec<String>,
    pub backend_url: String,
}

#[derive(Debug)]
pub struct DnsSnapshot {
    pub last_known_external_ip: Option<String>,
}

/// The authenticated metrics response.
#[derive(Debug)]
pub struct FullMetricsResponse {
    pub process: ProcessInfo,
    /// Request count per ingress path.
    pub ingress: Vec<(String, u64)>,
    pub per_route: Vec<RouteSnapshot>,
    pub top_countries_24h: Vec<(String, u64)>,
    pub top_paths_24h: Vec<(String, u64)>,
    pub top_user_agents_24h: Vec<(String, u64)>,
    pub probe_paths_detected: Vec<ProbeHit>,
    pub selfcheck: SelfCheckSnapshot,
    pub backends: Vec<BackendEntry>,
    pub dns: DnsSnapshot,
    pub hourly: Vec<HourlyBucket>,
}

pub open spec fn backend_views(v: Seq<BackendEntry>) -> Seq<AppView> {
    v.map_values(|b: BackendEntry| (b.app_id@, strs(b.hostnames@), b.backend_url@))
}

pub open spec fn request_counts(v: Seq<(String, IngressCounters)>) -> Seq<(Seq<char>, u64)> {
    v.map_values(|p: (String, IngressCounters)| (p.0@, p.1.request_count))
}

pub open spec fn count_views(v: Seq<(String, u64)>) -> Seq<(Seq<char>, u64)> {
    v.map_values(|p: (String, u64)| (p.0@, p.1))
}

/// Assembles the full metrics response.
pub fn full_metrics(
    snap: MetricsSnapshot,
    selfcheck: SelfCheckSnapshot,
    apps: Vec<t30>,
    version: String,
    binary_sha: String,
    memory_rss_bytes: u64,
    external_ip: Option<String>,
) -> (r: FullMetricsResponse)
    ensures
        r.process.uptime_s == snap.uptime_s,
        r.process.started_at == snap.started_at,
        r.process.version == version,
        r.process.binary_sha == binary_sha,
        r.process.memory_rss_bytes == memory_rss_bytes,
        r.process.total_requests == snap.total_requests,
        r.process.total_bytes_out == snap.total_bytes_out,
        r.process.total_errors == snap.total_errors,
        r.process.event_ring_len == snap.event_ring_len,
        r.process.event_ring_capacity == snap.event_ring_capacity,
        count_views(r.ingress@) == request_counts(snap.ingress@),
        r.per_route == snap.per_route,
        r.top_countries_24h == snap.top_countries_24h,
        r.top_paths_24h == snap.top_paths_24h,
        r.top_user_agents_24h == snap.top_user_agents_24h,
        r.probe_paths_detected == snap.probe_paths_detected,
        r.selfcheck == selfcheck,
        backend_views(r.backends@) == app_views(apps@),
        r.dns.last_known_external_ip == external_ip,
        r.hourly == snap.hourly,
{
    let mut ingress: Vec<(String, u64)> = Vec::new();
    let mut i: usize = 0;
    while i < snap.ingress.len()
        invariant
            i <= snap.ingress@.len(),
            count_views(ingress@) == request_counts(snap.ingress@.take(i as int)),
        decreases snap.ingress@.len() - i,
    {
        let ghost before = ingress@;
        let name = snap.ingress[i].0.clone();
        let n = snap.ingress[i].1.request_count;
        ingress.push((name, n));
        assert(count_views(ingress@) =~= count_views(before).push((snap.ingress@[i as int].0@, n)));
        assert(snap.ingress@.take(i + 1) =~= snap.ingress@.take(i as int).push(snap.ingress@[i as int]));
        i = i + 1;
        assert(count_views(ingress@) =~= request_counts(snap.ingress@.take(i as int)));
    }
    assert(snap.ingress@.take(snap.ingress@.len() as int) =~= snap.ingress@);
    let ghost av = app_views(apps@);
    let mut backends: Vec<BackendEntry> = Vec::new();
    let mut apps = apps;
    let mut j: usize = 0;
    while j < apps.len()
        invariant
            j <= apps@.len(),
            av == app_views(apps@),
            backend_views(backends@) == av.take(j as int),
        decreases apps@.len() - j,
    {
        let a = apps[j].clone();
        let ghost before = backends@;
        let b = BackendEntry { app_id: a.s46, hostnames: a.s47, backend_url: a.s48 };
        let ghost bv = (b.app_id@, strs(b.hostnames@), b.backend_url@);
        backends.push(b);
        assert(backend_views(backends@) =~= backend_views(before).push(bv));
        assert(av.take(j + 1) =~= av.take(j as int).push(av[j as int]));
        j = j + 1;
    }
    assert(av.take(av.len() as int) =~= av);
    FullMetricsResponse {
        process: ProcessInfo {
            uptime_s: snap.uptime_s,
            started_at: snap.started_at,
            version,
            binary_sha,
            memory_rss_bytes,
            total_requests: snap.total_requests,
            total_bytes_out: snap.total_bytes_out,
            total_errors: snap.total_errors,
            event_ring_len: snap.event_ring_len,
            event_ring_capacity: snap.event_ring_capacity,
        },
        ingress,
        per_route: snap.per_route,
        top_countries_24h: snap.top_countries_24h,
        top_paths_24h: snap.top_paths_24h,
        top_user_agents_24h: snap.top_user_agents_24h,
        probe_paths_detected: snap.probe_paths_detected,
        selfcheck,
        backends,
        dns: DnsSnapshot { last_known_external_ip: external_ip },
        hourly: snap.hourly,
    }
}

/// Resident set size in bytes from `getrusage`'s `ru_maxrss`, which macOS
/// reports in bytes and Linux in kilobytes (saturating).
pub fn rss_bytes(max_rss: u64, macos: bool) -> (r: u64)
    ensures
        r == (if macos {
            max_rss as int
        } else if max_rss * 1024 <= u64::MAX {
            max_rss * 1024
        } else {
            u64::MAX as int
        }),
{
    if macos {
        max_rss
    } else {
        match max_rss.checked_mul(1024) {
            Some(v) => v,
            None => u64::MAX,
        }
    }
}

/// Self-check and memory gauges appended to the Prometheus text.
pub open spec fn selfcheck_lines(cf_fail: u64, direct_fail: u64, cf_p95: u64, direct_p95: u64, rss: u64) -> Seq<char> {
    "# HELP approuter_selfcheck_consecutive_failures Consecutive self-check failures per path.\n"@
        + "# TYPE approuter_selfcheck_consecutive_failures gauge\n"@
        + "approuter_selfcheck_consecutive_failures{path=\"cf\"} "@ + dec(cf_fail as nat) + "\n"@
        + "approuter_selfcheck_consecutive_failures{path=\"direct\"} "@ + dec(direct_fail as nat) + "\n"@
        + "# HELP approuter_selfcheck_p95_latency_ms Self-check p95 latency per path.\n"@
        + "# TYPE approuter_selfcheck_p95_latency_ms gauge\n"@
        + "approuter_selfcheck_p95_latency_ms{path=\"cf\"} "@ + dec(cf_p95 as nat) + "\n"@
        + "approuter_selfcheck_p95_latency_ms{path=\"direct\"} "@ + dec(direct_p95 as nat) + "\n"@
        + "# HELP approuter_process_memory_rss_bytes Resident set size of the proxy.\n"@
        + "# TYPE approuter_process_memory_rss_bytes gauge\n"@
        + "approuter_process_memory_rss_bytes "@ + dec(rss as nat) + "\n"@
}

/// The self-check and memory gauges for a self-check snapshot.
pub fn selfcheck_prometheus(snap: &SelfCheckSnapshot, rss: u64) -> (r: String)
    ensures
        r@ == selfcheck_lines(
            snap.cf.consecutive_failures,
            snap.direct.consecutive_failures,
            snap.cf.p95_latency_ms,
            snap.direct.p95_latency_ms,
            rss,
        ),
{
    let mut out: Vec<char> = Vec::new();
    extend_str(&mut out, "# HELP approuter_selfcheck_consecutive_failures Consecutive self-check failures per path.\n");
    extend_str(&mut out, "# TYPE approuter_selfcheck_consecutive_failures gauge\n");
    extend_str(&mut out, "approuter_selfcheck_consecutive_failures{path=\"cf\"} ");
    extend_chars(&mut out, &dec_chars(snap.cf.consecutive_failures));
    extend_str(&mut out, "\n");
    extend_str(&mut out, "approuter_selfcheck_consecutive_failures{path=\"direct\"} ");
    extend_chars(&mut out, &dec_chars(snap.direct.consecutive_failures));
    extend_str(&mut out, "\n");
    extend_str(&mut out, "# HELP approuter_selfcheck_p95_latency_ms Self-check p95 latency per path.\n");
    extend_str(&mut out, "# TYPE approuter_selfcheck_p95_latency_ms gauge\n");
    extend_str(&mut out, "approuter_selfcheck_p95_latency_ms{path=\"cf\"} ");
    extend_chars(&mut out, &dec_chars(snap.cf.p95_latency_ms));
    extend_str(&mut out, "\n");
    extend_str(&mut out, "approuter_selfcheck_p95_latency_ms{path=\"direct\"} ");
    extend_chars(&mut out, &dec_chars(snap.direct.p95_latency_ms));
    extend_str(&mut out, "\n");
    extend_str(&mut out, "# HELP approuter_process_memory_rss_bytes Resident set size of the proxy.\n");
    extend_str(&mut out, "# TYPE approuter_process_memory_rss_bytes gauge\n");
    extend_str(&mut out, "approuter_process_memory_rss_bytes ");
    extend_chars(&mut out, &dec_chars(rss));
    extend_str(&mut out, "\n");
    let r = string_from(&out);
    assert(r@ =~= selfcheck_lines(
        snap.cf.consecutive_failures,
        snap.direct.consecutive_failures,
        snap.cf.p95_latency_ms,
        snap.direct.p95_latency_ms,
        rss,
    ));
    r
}

/// Query of the tunnel metrics endpoints: time window and provider.
#[derive(Debug)]
pub struct MetricsQuery {
    pub hours: Option<u64>,
    pub provider: Option<String>,
}

} // verus!
