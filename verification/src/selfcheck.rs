//! Dual-path liveness probe bookkeeping. A probe loop (outside the library)
//! checks the Cloudflare path and the direct path periodically and hands each
//! result to `SelfCheckStore::record`; the store keeps per-path counters,
//! failure streaks and a bounded history for snapshots.

use vstd::prelude::*;

use crate::metrics_catalog::{bounded, latest_first, wadd};
use crate::ranking::percentile;
use crate::text::{dec, dec_chars, extend_chars, extend_str, parse_u64, parse_u64_spec, str_chars, string_from, trim, trim_chars};

verus! {

pub const MAX_PROBES_PER_PATH: usize = 2048;
pub const WARN_AFTER_N_FAILS: u64 = 3;
pub const RECENT_PROBES: usize = 50;

/// Which probe path a record came from.
#[derive(Clone, Copy, Debug, PartialEq, Eq, Structural, Hash)]
pub enum ProbePath {
    Cf,
    Direct,
}

pub open spec fn probe_path_name(p: ProbePath) -> Seq<char> {
    match p {
        ProbePath::Cf => "cf"@,
        ProbePath::Direct => "direct"@,
    }
}

impl ProbePath {
    pub fn as_str(self) -> (r: &'static str)
        ensures
            r@ == probe_path_name(self),
    {
        match self {
            ProbePath::Cf => "cf",
            ProbePath::Direct => "direct",
        }
    }
}

/// One probe result.
#[derive(Debug)]
pub struct SelfCheckProbe {
    pub ts: u64,
    pub path: ProbePath,
    pub ok: bool,
    pub status: u16,
    pub latency_ms: u64,
    pub error: Option<String>,
}

impl Clone for SelfCheckProbe {
    fn clone(&self) -> (r: SelfCheckProbe)
        ensures
            r == *self,
    {
        SelfCheckProbe {
            ts: self.ts,
            path: self.path,
            ok: self.ok,
            status: self.status,
            latency_ms: self.latency_ms,
            error: match &self.error {
                Some(e) => Some(e.clone()),
                None => None,
            },
        }
    }
}

/// Per-path aggregate snapshot.
#[derive(Debug)]
pub struct PathSnapshot {
    pub total_probes: u64,
    pub successful_probes: u64,
    pub failed_probes: u64,
    pub consecutive_failures: u64,
    pub last_ok_ts: Option<u64>,
    pub last_fail_ts: Option<u64>,
    pub p50_latency_ms: u64,
    pub p95_latency_ms: u64,
    pub recent: Vec<SelfCheckProbe>,
}

/// Overall snapshot surfaced to the metrics endpoint.
#[derive(Debug)]
pub struct SelfCheckSnapshot {
    pub last_check_ts: Option<u64>,
    pub external_ip: Option<String>,
    pub cf: PathSnapshot,
    pub direct: PathSnapshot,
}

/// Running state of one probe path.
pub struct PathState {
    probes: Vec<SelfCheckProbe>,
    total: u64,
    ok: u64,
    fail: u64,
    consecutive_failures: u64,
    last_ok_ts: Option<u64>,
    last_fail_ts: Option<u64>,
}

/// Latencies of the successful probes, oldest first.
pub open spec fn ok_latencies(ps: Seq<SelfCheckProbe>) -> Seq<u64>
    decreases ps.len(),
{
    if ps.len() == 0 {
        Seq::empty()
    } else {
        let p = ok_latencies(ps.drop_last());
        if ps.last().ok {
            p.push(ps.last().latency_ms)
        } else {
            p
        }
    }
}

impl PathState {
    pub closed spec fn history(&self) -> Seq<SelfCheckProbe> {
        self.probes@
    }

    /// (total, successful, failed, consecutive failures, last ok ts, last failure ts)
    pub closed spec fn counters(&self) -> (u64, u64, u64, u64, Option<u64>, Option<u64>) {
        (self.total, self.ok, self.fail, self.consecutive_failures, self.last_ok_ts, self.last_fail_ts)
    }

    pub fn new() -> (r: PathState)
        ensures
            r.history() == Seq::<SelfCheckProbe>::empty(),
            r.counters() == (0u64, 0u64, 0u64, 0u64, None::<u64>, None::<u64>),
    {
        PathState {
            probes: Vec::new(),
            total: 0,
            ok: 0,
            fail: 0,
            consecutive_failures: 0,
            last_ok_ts: None,
            last_fail_ts: None,
        }
    }
}

/// Counters after one probe: a success resets the failure streak, a failure
/// extends it.
pub open spec fn counters_after(
    c: (u64, u64, u64, u64, Option<u64>, Option<u64>),
    p: SelfCheckProbe,
) -> (u64, u64, u64, u64, Option<u64>, Option<u64>) {
    if p.ok {
        (wadd(c.0, 1), wadd(c.1, 1), c.2, 0, Some(p.ts), c.5)
    } else {
        (wadd(c.0, 1), c.1, wadd(c.2, 1), wadd(c.3, 1), c.4, Some(p.ts))
    }
}

/// `s` is the snapshot of a path with counters `c` and history `h`.
pub open spec fn path_snapshot_ok(
    s: PathSnapshot,
    c: (u64, u64, u64, u64, Option<u64>, Option<u64>),
    h: Seq<SelfCheckProbe>,
) -> bool {
    &&& s.total_probes == c.0
    &&& s.successful_probes == c.1
    &&& s.failed_probes == c.2
    &&& s.consecutive_failures == c.3
    &&& s.last_ok_ts == c.4
    &&& s.last_fail_ts == c.5
    &&& s.p50_latency_ms == percentile(ok_latencies(h), 50)
    &&& s.p95_latency_ms == percentile(ok_latencies(h), 95)
    &&& s.recent@ == latest_first(h, RECENT_PROBES as nat)
}

impl PathState {
    /// Books one probe; returns whether the failure streak has just reached
    /// the warning threshold.
    fn record(&mut self, probe: SelfCheckProbe) -> (warn: bool)
        requires
            old(self).history().len() <= MAX_PROBES_PER_PATH,
        ensures
            final(self).history() == bounded(old(self).history().push(probe), MAX_PROBES_PER_PATH as nat),
            final(self).history().len() <= MAX_PROBES_PER_PATH,
            final(self).counters() == counters_after(old(self).counters(), probe),
            warn == (!probe.ok && final(self).counters().3 == WARN_AFTER_N_FAILS),
    {
        let ghost c0 = self.counters();
        self.total = self.total.wrapping_add(1);
        let mut warn = false;
        if probe.ok {
            self.ok = self.ok.wrapping_add(1);
            self.consecutive_failures = 0;
            self.last_ok_ts = Some(probe.ts);
        } else {
            self.fail = self.fail.wrapping_add(1);
            self.consecutive_failures = self.consecutive_failures.wrapping_add(1);
            self.last_fail_ts = Some(probe.ts);
            warn = self.consecutive_failures == WARN_AFTER_N_FAILS;
        }
        let ghost full = self.probes@.push(probe);
        let ghost c1 = self.counters();
        assert(c1 == counters_after(c0, probe));
        self.probes.push(probe);
        while self.probes.len() > MAX_PROBES_PER_PATH
            invariant
                full.len() >= self.probes@.len(),
                self.probes@ == full.subrange(full.len() - self.probes@.len(), full.len() as int),
                self.probes@.len() >= MAX_PROBES_PER_PATH || self.probes@.len() == full.len(),
                self.counters() == c1,
            decreases self.probes@.len(),
        {
            self.probes.remove(0);
            assert(self.probes@ =~= full.subrange(full.len() - self.probes@.len(), full.len() as int));
        }
        assert(full.subrange(0, full.len() as int) =~= full);
        warn
    }

    /// Aggregate view of this path.
    pub fn snapshot(&self) -> (s: PathSnapshot)
        ensures
            path_snapshot_ok(s, self.counters(), self.history()),
    {
        let mut lat: std::collections::VecDeque<u64> = std::collections::VecDeque::new();
        let mut i: usize = 0;
        while i < self.probes.len()
            invariant
                i <= self.probes@.len(),
                lat@ == ok_latencies(self.probes@.take(i as int)),
            decreases self.probes@.len() - i,
        {
            assert(self.probes@.take(i + 1).drop_last() =~= self.probes@.take(i as int));
            if self.probes[i].ok {
                lat.push_back(self.probes[i].latency_ms);
            }
            i = i + 1;
        }
        assert(self.probes@.take(self.probes@.len() as int) =~= self.probes@);
        let (p50, p95, _p99) = crate::ranking::percentiles(&lat);
        let len = self.probes.len();
        let k = if RECENT_PROBES < len { RECENT_PROBES } else { len };
        let mut recent: Vec<SelfCheckProbe> = Vec::new();
        let mut j: usize = 0;
        while j < k
            invariant
                len == self.probes@.len(),
                k == (if RECENT_PROBES < len { RECENT_PROBES } else { len }),
                j <= k,
                recent@ == Seq::new(j as nat, |m: int| self.probes@[len - 1 - m]),
            decreases k - j,
        {
            recent.push(self.probes[len - 1 - j].clone());
            j = j + 1;
            assert(recent@ =~= Seq::new(j as nat, |m: int| self.probes@[len - 1 - m]));
        }
        PathSnapshot {
            total_probes: self.total,
            successful_probes: self.ok,
            failed_probes: self.fail,
            consecutive_failures: self.consecutive_failures,
            last_ok_ts: self.last_ok_ts,
            last_fail_ts: self.last_fail_ts,
            p50_latency_ms: p50,
            p95_latency_ms: p95,
            recent,
        }
    }
}

/// Probe results for both paths plus the last known external IP.
pub struct SelfCheckStore {
    cf: PathState,
    direct: PathState,
    external_ip: Option<String>,
    last_check_ts: u64,
}

impl SelfCheckStore {
    pub closed spec fn path_state(&self, p: ProbePath) -> PathState {
        match p {
            ProbePath::Cf => self.cf,
            ProbePath::Direct => self.direct,
        }
    }

    pub closed spec fn ext_ip(&self) -> Option<Seq<char>> {
        match self.external_ip {
            Some(s) => Some(s@),
            None => None,
        }
    }

    pub closed spec fn last_ts(&self) -> u64 {
        self.last_check_ts
    }

    pub closed spec fn wf(&self) -> bool {
        &&& self.cf.history().len() <= MAX_PROBES_PER_PATH
        &&& self.direct.history().len() <= MAX_PROBES_PER_PATH
    }

    pub fn new() -> (r: SelfCheckStore)
        ensures
            r.wf(),
            r.ext_ip() is None,
            r.last_ts() == 0,
            forall|p: ProbePath|
                (#[trigger] r.path_state(p)).history() == Seq::<SelfCheckProbe>::empty()
                    && r.path_state(p).counters() == (0u64, 0u64, 0u64, 0u64, None::<u64>, None::<u64>),
    {
        SelfCheckStore {
            cf: PathState::new(),
            direct: PathState::new(),
            external_ip: None,
            last_check_ts: 0,
        }
    }

    pub fn external_ip(&self) -> (r: Option<String>)
        ensures
            match r {
                Some(s) => self.ext_ip() == Some(s@),
                None => self.ext_ip() is None,
            },
    {
        match &self.external_ip {
            Some(s) => Some(s.clone()),
            None => None,
        }
    }

    pub fn set_external_ip(&mut self, ip: Option<String>)
        ensures
            final(self).ext_ip() == (match ip {
                Some(s) => Some(s@),
                None => None,
            }),
            final(self).last_ts() == old(self).last_ts(),
            final(self).wf() == old(self).wf(),
            forall|p: ProbePath| #[trigger] final(self).path_state(p) == old(self).path_state(p),
    {
        self.external_ip = ip;
    }

    /// Books one probe result on its path. Returns `true` exactly when this
    /// probe makes the path's failure streak reach the warning threshold, so
    /// the caller can log it once.
    pub fn record(&mut self, probe: SelfCheckProbe) -> (warn: bool)
        requires
            old(self).wf(),
        ensures
            final(self).wf(),
            final(self).last_ts() == probe.ts,
            final(self).ext_ip() == old(self).ext_ip(),
            final(self).path_state(probe.path).history() == bounded(
                old(self).path_state(probe.path).history().push(probe),
                MAX_PROBES_PER_PATH as nat,
            ),
            final(self).path_state(probe.path).counters() == counters_after(
                old(self).path_state(probe.path).counters(),
                probe,
            ),
            forall|p: ProbePath| p != probe.path ==> #[trigger] final(self).path_state(p) == old(self).path_state(p),
            warn == (!probe.ok && final(self).path_state(probe.path).counters().3 == WARN_AFTER_N_FAILS),
    {
        self.last_check_ts = probe.ts;
        match probe.path {
            ProbePath::Cf => self.cf.record(probe),
            ProbePath::Direct => self.direct.record(probe),
        }
    }

    pub fn snapshot(&self) -> (s: SelfCheckSnapshot)
        ensures
            s.last_check_ts == (if self.last_ts() == 0 { None } else { Some(self.last_ts()) }),
            match s.external_ip {
                Some(ip) => self.ext_ip() == Some(ip@),
                None => self.ext_ip() is None,
            },
            path_snapshot_ok(s.cf, self.path_state(ProbePath::Cf).counters(), self.path_state(ProbePath::Cf).history()),
            path_snapshot_ok(
                s.direct,
                self.path_state(ProbePath::Direct).counters(),
                self.path_state(ProbePath::Direct).history(),
            ),
    {
        let last = self.last_check_ts;
        SelfCheckSnapshot {
            last_check_ts: if last == 0 { None } else { Some(last) },
            external_ip: self.external_ip(),
            cf: snapshot_path(&self.cf),
            direct: snapshot_path(&self.direct),
        }
    }
}

/// Aggregate view of one path's state.
pub fn snapshot_path(state: &PathState) -> (s: PathSnapshot)
    ensures
        path_snapshot_ok(s, state.counters(), state.history()),
{
    state.snapshot()
}

// ---------------------------------------------------------------------------
// Probe loop settings and probe results
// ---------------------------------------------------------------------------

/// Settings of the self-check loop, read once when it starts.
#[derive(Debug)]
pub struct SelfCheckConfig {
    pub interval_secs: u64,
    pub cf_url: String,
    pub ext_ip_lookup_url: String,
    pub direct_port: u16,
    pub timeout_secs: u64,
}

pub open spec fn u64_or(v: Option<String>, default: u64) -> u64 {
    match v {
        Some(s) => match parse_u64_spec(s@) {
            Some(n) => n,
            None => default,
        },
        None => default,
    }
}

pub open spec fn str_or(v: Option<String>, default: Seq<char>) -> Seq<char> {
    match v {
        Some(s) => s@,
        None => default,
    }
}

fn parse_or(v: &Option<String>, default: u64) -> (r: u64)
    ensures
        r == u64_or(*v, default),
{
    match v {
        Some(s) => match parse_u64(&str_chars(s.as_str())) {
            Some(n) => n,
            None => default,
        },
        None => default,
    }
}

impl SelfCheckConfig {
    /// Settings from `SELFCHECK_INTERVAL_SECS`, `SELFCHECK_CF_URL`,
    /// `SELFCHECK_EXT_IP_URL` and `SELFCHECK_TIMEOUT_SECS` (`None` when
    /// unset), with their defaults: 60 s, the public health URL, ipify, 5 s.
    pub fn from_values(
        interval: Option<String>,
        cf_url: Option<String>,
        ext_ip_url: Option<String>,
        timeout: Option<String>,
        direct_port: u16,
    ) -> (r: SelfCheckConfig)
        ensures
            r.interval_secs == u64_or(interval, 60),
            r.cf_url@ == str_or(cf_url, "https://cochranblock.org/health"@),
            r.ext_ip_lookup_url@ == str_or(ext_ip_url, "https://api.ipify.org"@),
            r.direct_port == direct_port,
            r.timeout_secs == u64_or(timeout, 5),
    {
        let interval_secs = parse_or(&interval, 60);
        let timeout_secs = parse_or(&timeout, 5);
        let cf = match cf_url {
            Some(u) => u,
            None => "https://cochranblock.org/health".to_string(),
        };
        let ext = match ext_ip_url {
            Some(u) => u,
            None => "https://api.ipify.org".to_string(),
        };
        SelfCheckConfig { interval_secs, cf_url: cf, ext_ip_lookup_url: ext, direct_port, timeout_secs }
    }
}

/// What to do about the direct path on a tick: nothing when no port is
/// configured (`None`), record an "external IP unknown" failure when the IP
/// is not known (`Some(None)`), otherwise probe this URL.
pub fn direct_probe_plan(direct_port: u16, external_ip: &Option<String>) -> (r: Option<Option<String>>)
    ensures
        direct_port == 0 ==> r is None,
        direct_port > 0 ==> match external_ip {
            Some(ip) => r matches Some(Some(u)) && u@ == "http://"@ + ip@ + ":"@ + dec(direct_port as nat) + "/health"@,
            None => r matches Some(None),
        },
{
    if direct_port == 0 {
        return None;
    }
    match external_ip {
        Some(ip) => {
            let mut out: Vec<char> = Vec::new();
            extend_str(&mut out, "http://");
            extend_str(&mut out, ip.as_str());
            extend_str(&mut out, ":");
            extend_chars(&mut out, &dec_chars(direct_port as u64));
            extend_str(&mut out, "/health");
            Some(Some(string_from(&out)))
        },
        None => Some(None),
    }
}

/// The external IP from the lookup service's answer: the body, trimmed.
pub fn external_ip_from_body(body: &str) -> (r: String)
    ensures
        r@ == trim(body@),
{
    string_from(&trim_chars(&str_chars(body)))
}

/// A probe that got an HTTP answer: successful exactly on a 2xx status,
/// otherwise carrying `status <code>` as its error.
pub fn probe_answered(ts: u64, path: ProbePath, status: u16, latency_ms: u64) -> (p: SelfCheckProbe)
    ensures
        p.ts == ts,
        p.path == path,
        p.ok == (200 <= status < 300),
        p.status == status,
        p.latency_ms == latency_ms,
        p.ok ==> p.error is None,
        !p.ok ==> (p.error matches Some(e) && e@ == "status "@ + dec(status as nat)),
{
    let ok = 200 <= status && status < 300;
    let error = if ok {
        None
    } else {
        let mut out: Vec<char> = Vec::new();
        extend_str(&mut out, "status ");
        extend_chars(&mut out, &dec_chars(status as u64));
        Some(string_from(&out))
    };
    SelfCheckProbe { ts, path, ok, status, latency_ms, error }
}

/// A probe whose request failed before any answer.
pub fn probe_failed(ts: u64, path: ProbePath, error: String, latency_ms: u64) -> (p: SelfCheckProbe)
    ensures
        p.ts == ts,
        p.path == path,
        !p.ok,
        p.status == 0,
        p.latency_ms == latency_ms,
        p.error == Some(error),
{
    SelfCheckProbe { ts, path, ok: false, status: 0, latency_ms, error: Some(error) }
}

/// The direct-path failure recorded when the external IP is unknown.
pub fn unknown_ip_probe(ts: u64) -> (p: SelfCheckProbe)
    ensures
        p.ts == ts,
        p.path == ProbePath::Direct,
        !p.ok,
        p.status == 0,
        p.latency_ms == 0,
        p.error matches Some(e) && e@ == "external IP unknown"@,
{
    SelfCheckProbe {
        ts,
        path: ProbePath::Direct,
        ok: false,
        status: 0,
        latency_ms: 0,
        error: Some("external IP unknown".to_string()),
    }
}

// ---------------------------------------------------------------------------
// Laws
// ---------------------------------------------------------------------------

/// Counters after a series of probes, oldest first.
pub open spec fn counters_after_all(
    c: (u64, u64, u64, u64, Option<u64>, Option<u64>),
    ps: Seq<SelfCheckProbe>,
) -> (u64, u64, u64, u64, Option<u64>, Option<u64>)
    decreases ps.len(),
{
    if ps.len() == 0 {
        c
    } else {
        counters_after(counters_after_all(c, ps.drop_last()), ps.last())
    }
}

/// A run of failed probes extends the failure streak and the failure count
/// by its length and leaves the success count alone.
pub proof fn law_failures_extend_streak(c: (u64, u64, u64, u64, Option<u64>, Option<u64>), ps: Seq<SelfCheckProbe>)
    requires
        forall|i: int| 0 <= i < ps.len() ==> !(#[trigger] ps[i]).ok,
        c.0 + ps.len() <= u64::MAX,
        c.2 + ps.len() <= u64::MAX,
        c.3 + ps.len() <= u64::MAX,
    ensures
        counters_after_all(c, ps).0 == c.0 + ps.len(),
        counters_after_all(c, ps).1 == c.1,
        counters_after_all(c, ps).2 == c.2 + ps.len(),
        counters_after_all(c, ps).3 == c.3 + ps.len(),
    decreases ps.len(),
{
    if ps.len() > 0 {
        assert forall|i: int| 0 <= i < ps.drop_last().len() implies !(#[trigger] ps.drop_last()[i]).ok by {
            assert(ps.drop_last()[i] == ps[i]);
        }
        law_failures_extend_streak(c, ps.drop_last());
        assert(!ps[ps.len() - 1].ok);
    }
}

/// One successful probe ends the failure streak and records its time as the
/// last success.
pub proof fn law_success_resets_streak(c: (u64, u64, u64, u64, Option<u64>, Option<u64>), p: SelfCheckProbe)
    requires
        p.ok,
    ensures
        counters_after(c, p).3 == 0,
        counters_after(c, p).4 == Some(p.ts),
        counters_after(c, p).2 == c.2,
{
}

/// The warning fires on the probe that makes the streak reach the
/// threshold, not on the ones after it.
pub proof fn law_warning_fires_once_per_streak(c: (u64, u64, u64, u64, Option<u64>, Option<u64>), p: SelfCheckProbe)
    requires
        !p.ok,
        c.3 >= WARN_AFTER_N_FAILS,
        c.3 < u64::MAX,
    ensures
        counters_after(c, p).3 != WARN_AFTER_N_FAILS,
{
}

/// Starting from zero counters, after any probes (fewer than 2^64) the total
/// is the number of probes and equals successes plus failures.
pub proof fn law_total_is_ok_plus_fail(ps: Seq<SelfCheckProbe>)
    requires
        ps.len() <= u64::MAX,
    ensures
        counters_after_all((0, 0, 0, 0, None, None), ps).0 == ps.len(),
        counters_after_all((0, 0, 0, 0, None, None), ps).0 == counters_after_all((0, 0, 0, 0, None, None), ps).1
            + counters_after_all((0, 0, 0, 0, None, None), ps).2,
    decreases ps.len(),
{
    if ps.len() > 0 {
        law_total_is_ok_plus_fail(ps.drop_last());
    }
}

} // verus!
