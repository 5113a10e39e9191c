//! Per-provider tunnel metrics: a bounded log of health probes and a
//! start/stop lifecycle per provider, with integer aggregates for the
//! comparison view (averages and percentages are derived from them by the
//! caller).

use vstd::prelude::*;

use crate::clock::now_secs;
use crate::metrics_catalog::{bounded, latest_first, push_bounded, wadd};
use crate::ranking::{count_true, leq_u64, percentile, percentiles, sorted_values};
use crate::tunnel_provider::{all_kinds, kind_index, kind_name, t44};

verus! {

pub const MAX_TUNNEL_PROBES: usize = 50_000;

/// One health probe of a provider.
#[allow(non_camel_case_types)]
#[derive(Debug)]
pub struct t48 {
    pub ts: u64,
    pub provider: String,
    pub ok: bool,
    pub latency_ms: u64,
}

impl Clone for t48 {
    fn clone(&self) -> (r: t48)
        ensures
            r == *self,
    {
        t48 { ts: self.ts, provider: self.provider.clone(), ok: self.ok, latency_ms: self.latency_ms }
    }
}

/// Start/stop bookkeeping of one provider.
#[derive(Clone, Copy, Debug)]
pub struct Lifecycle {
    pub start_count: u64,
    pub last_start: Option<u64>,
    pub total_uptime_secs: u64,
    pub total_downtime_secs: u64,
    pub last_stop: Option<u64>,
    pub running: bool,
}

pub open spec fn fresh_lifecycle() -> Lifecycle {
    Lifecycle {
        start_count: 0,
        last_start: None,
        total_uptime_secs: 0,
        total_downtime_secs: 0,
        last_stop: None,
        running: false,
    }
}

pub open spec fn sat_sub(a: u64, b: u64) -> u64 {
    if a >= b {
        (a - b) as u64
    } else {
        0
    }
}

/// A start at `now`: a running provider books the time since its last
/// start as uptime, a stopped one the time since its last stop as downtime.
pub open spec fn started(l: Lifecycle, now: u64) -> Lifecycle {
    let up = if l.running {
        match l.last_start {
            Some(s) => wadd(l.total_uptime_secs, sat_sub(now, s)),
            None => l.total_uptime_secs,
        }
    } else {
        l.total_uptime_secs
    };
    let down = if !l.running {
        match l.last_stop {
            Some(s) => wadd(l.total_downtime_secs, sat_sub(now, s)),
            None => l.total_downtime_secs,
        }
    } else {
        l.total_downtime_secs
    };
    Lifecycle {
        start_count: wadd(l.start_count, 1),
        last_start: Some(now),
        total_uptime_secs: up,
        total_downtime_secs: down,
        last_stop: l.last_stop,
        running: true,
    }
}

/// A stop at `now`: a running provider books the time since its last start
/// as uptime.
pub open spec fn stopped(l: Lifecycle, now: u64) -> Lifecycle {
    let up = if l.running {
        match l.last_start {
            Some(s) => wadd(l.total_uptime_secs, sat_sub(now, s)),
            None => l.total_uptime_secs,
        }
    } else {
        l.total_uptime_secs
    };
    Lifecycle { total_uptime_secs: up, last_stop: Some(now), running: false, ..l }
}

/// (uptime, downtime) as of `now`, counting the current run or pause.
pub open spec fn times_at(l: Lifecycle, now: u64) -> (u64, u64) {
    if l.running {
        match l.last_start {
            Some(s) => (wadd(l.total_uptime_secs, sat_sub(now, s)), l.total_downtime_secs),
            None => (l.total_uptime_secs, l.total_downtime_secs),
        }
    } else {
        match l.last_stop {
            Some(s) => (l.total_uptime_secs, wadd(l.total_downtime_secs, sat_sub(now, s))),
            None => (l.total_uptime_secs, l.total_downtime_secs),
        }
    }
}

/// Integer aggregates of one provider's probes and lifecycle.
#[derive(Debug)]
pub struct ProviderCounts {
    pub provider: String,
    pub total_probes: u64,
    pub successful_probes: u64,
    pub failed_probes: u64,
    /// Sum of the successful probes' latencies (for the average).
    pub latency_sum_ms: u128,
    pub p50_latency_ms: u64,
    pub p95_latency_ms: u64,
    pub p99_latency_ms: u64,
    pub min_latency_ms: u64,
    pub max_latency_ms: u64,
    pub total_uptime_secs: u64,
    pub total_downtime_secs: u64,
    pub start_count: u64,
    pub current_streak_ok: u64,
    pub longest_streak_ok: u64,
}

/// Probes of provider `name` taken at or after `cutoff`, oldest first.
pub open spec fn relevant(s: Seq<t48>, name: Seq<char>, cutoff: u64) -> Seq<t48>
    decreases s.len(),
{
    if s.len() == 0 {
        Seq::empty()
    } else {
        let r = relevant(s.drop_last(), name, cutoff);
        if s.last().provider@ == name && s.last().ts >= cutoff {
            r.push(s.last())
        } else {
            r
        }
    }
}

/// Latencies of the successful probes, oldest first.
pub open spec fn ok_lat(s: Seq<t48>) -> Seq<u64>
    decreases s.len(),
{
    if s.len() == 0 {
        Seq::empty()
    } else if s.last().ok {
        ok_lat(s.drop_last()).push(s.last().latency_ms)
    } else {
        ok_lat(s.drop_last())
    }
}

pub open spec fn oks(s: Seq<t48>) -> Seq<bool> {
    s.map_values(|p: t48| p.ok)
}

pub open spec fn sum_of(s: Seq<u64>) -> int
    decreases s.len(),
{
    if s.len() == 0 {
        0
    } else {
        sum_of(s.drop_last()) + s.last()
    }
}

/// Length of the newest run of successes (0 when the newest probe failed).
pub open spec fn trailing_ok(s: Seq<bool>) -> nat
    decreases s.len(),
{
    if s.len() > 0 && s.last() {
        1 + trailing_ok(s.drop_last())
    } else {
        0
    }
}

/// Length of the longest run of consecutive successes.
pub open spec fn longest_ok(s: Seq<bool>) -> nat
    decreases s.len(),
{
    if s.len() == 0 {
        0
    } else {
        let before = longest_ok(s.drop_last());
        let here = trailing_ok(s);
        if here > before {
            here
        } else {
            before
        }
    }
}

/// Probes from `now - hours` on (all probes when no window is given).
pub open spec fn cutoff_of(hours: Option<u64>, now: u64) -> u64 {
    match hours {
        Some(h) => sat_sub(now, (h * 3600) as u64),
        None => 0,
    }
}

pub open spec fn window_ok(hours: Option<u64>) -> bool {
    hours matches Some(h) ==> h * 3600 <= u64::MAX
}

/// The aggregates reported for provider `k` over `probes` and lifecycle `l`.
pub open spec fn counts_ok(
    c: ProviderCounts,
    k: t44,
    probes: Seq<t48>,
    l: Lifecycle,
    hours: Option<u64>,
    now: u64,
) -> bool {
    let rel = relevant(probes, kind_name(k), cutoff_of(hours, now));
    let lat = ok_lat(rel);
    let sorted = lat.sort_by(leq_u64());
    let ok_count = count_true(oks(rel));
    &&& c.provider@ == kind_name(k)
    &&& c.total_probes == rel.len()
    &&& c.successful_probes == ok_count
    &&& c.failed_probes == rel.len() - ok_count
    &&& c.latency_sum_ms == sum_of(lat)
    &&& c.p50_latency_ms == percentile(lat, 50)
    &&& c.p95_latency_ms == percentile(lat, 95)
    &&& c.p99_latency_ms == percentile(lat, 99)
    &&& c.min_latency_ms == (if lat.len() == 0 { 0 } else { sorted[0] })
    &&& c.max_latency_ms == (if lat.len() == 0 { 0 } else { sorted[lat.len() - 1] })
    &&& (c.total_uptime_secs, c.total_downtime_secs) == times_at(l, now)
    &&& c.start_count == l.start_count
    &&& c.current_streak_ok == trailing_ok(oks(rel))
    &&& c.longest_streak_ok == longest_ok(oks(rel))
}

proof fn lemma_ok_lat_len(s: Seq<t48>)
    ensures
        ok_lat(s).len() <= s.len(),
        ok_lat(s).len() == count_true(oks(s)),
    decreases s.len(),
{
    if s.len() > 0 {
        lemma_ok_lat_len(s.drop_last());
        assert(oks(s).drop_last() =~= oks(s.drop_last()));
    }
}

proof fn lemma_sum_bound(s: Seq<u64>)
    ensures
        0 <= sum_of(s) <= s.len() * 0xffff_ffff_ffff_ffff,
    decreases s.len(),
{
    if s.len() > 0 {
        lemma_sum_bound(s.drop_last());
    }
}

/// Probe log and lifecycles of all providers.
#[allow(non_camel_case_types)]
pub struct t50 {
    probes: std::collections::VecDeque<t48>,
    lifecycle: Vec<Lifecycle>,
    max_probes: usize,
}

impl t50 {
    /// Probes, oldest first.
    pub closed spec fn probe_log(&self) -> Seq<t48> {
        self.probes@
    }

    pub closed spec fn lifecycle_of(&self, k: t44) -> Lifecycle {
        self.lifecycle@[kind_index(k)]
    }

    pub closed spec fn wf(&self) -> bool {
        &&& self.lifecycle@.len() == 5
        &&& self.max_probes == MAX_TUNNEL_PROBES
        &&& self.probes@.len() <= MAX_TUNNEL_PROBES
    }

    pub fn new() -> (r: t50)
        ensures
            r.wf(),
            r.probe_log() == Seq::<t48>::empty(),
            forall|k: t44| #[trigger] r.lifecycle_of(k) == fresh_lifecycle(),
    {
        let l = Lifecycle {
            start_count: 0,
            last_start: None,
            total_uptime_secs: 0,
            total_downtime_secs: 0,
            last_stop: None,
            running: false,
        };
        let lifecycle = vec![l, l, l, l, l];
        t50 { probes: std::collections::VecDeque::new(), lifecycle, max_probes: MAX_TUNNEL_PROBES }
    }

    /// Books a probe of `kind` taken at `now`; the oldest probes beyond the
    /// cap are dropped.
    pub fn record_probe_at(&mut self, kind: &t44, ok: bool, latency_ms: u64, now: u64)
        requires
            old(self).wf(),
        ensures
            final(self).wf(),
            final(self).probe_log() == bounded(
                old(self).probe_log().push(t48 { ts: now, provider: final(self).probe_log().last().provider, ok, latency_ms }),
                MAX_TUNNEL_PROBES as nat,
            ),
            final(self).probe_log().last().provider@ == kind_name(*kind),
            forall|k: t44| #[trigger] final(self).lifecycle_of(k) == old(self).lifecycle_of(k),
    {
        let probe = t48 { ts: now, provider: kind.name().to_string(), ok, latency_ms };
        let ghost p = probe;
        push_bounded(&mut self.probes, probe, self.max_probes);
        assert(self.probes@.last() == p);
    }

    /// Books a probe taken now.
    pub fn record_probe(&mut self, kind: &t44, ok: bool, latency_ms: u64)
        requires
            old(self).wf(),
        ensures
            final(self).wf(),
            exists|ts: u64|
                final(self).probe_log() == bounded(
                    old(self).probe_log().push(
                        t48 { ts, provider: final(self).probe_log().last().provider, ok, latency_ms },
                    ),
                    MAX_TUNNEL_PROBES as nat,
                ),
            final(self).probe_log().last().provider@ == kind_name(*kind),
            forall|k: t44| #[trigger] final(self).lifecycle_of(k) == old(self).lifecycle_of(k),
    {
        let now = now_secs();
        self.record_probe_at(kind, ok, latency_ms, now);
    }

    /// Books a start of `kind` at `now`.
    pub fn record_start_at(&mut self, kind: &t44, now: u64)
        requires
            old(self).wf(),
        ensures
            final(self).wf(),
            final(self).probe_log() == old(self).probe_log(),
            final(self).lifecycle_of(*kind) == started(old(self).lifecycle_of(*kind), now),
            forall|k: t44| k != *kind ==> #[trigger] final(self).lifecycle_of(k) == old(self).lifecycle_of(k),
    {
        let i: usize = match kind {
            t44::Cloudflare => 0,
            t44::Ngrok => 1,
            t44::Tailscale => 2,
            t44::Bore => 3,
            t44::Localtunnel => 4,
        };
        let mut e = self.lifecycle[i];
        if e.running {
            if let Some(start) = e.last_start {
                e.total_uptime_secs = e.total_uptime_secs.wrapping_add(now.saturating_sub(start));
            }
        } else if let Some(stop) = e.last_stop {
            e.total_downtime_secs = e.total_downtime_secs.wrapping_add(now.saturating_sub(stop));
        }
        e.start_count = e.start_count.wrapping_add(1);
        e.last_start = Some(now);
        e.running = true;
        self.lifecycle.set(i, e);
    }

    /// Books a start of `kind` now.
    pub fn record_start(&mut self, kind: &t44)
        requires
            old(self).wf(),
        ensures
            final(self).wf(),
            final(self).probe_log() == old(self).probe_log(),
            exists|now: u64| final(self).lifecycle_of(*kind) == started(old(self).lifecycle_of(*kind), now),
            forall|k: t44| k != *kind ==> #[trigger] final(self).lifecycle_of(k) == old(self).lifecycle_of(k),
    {
        let now = now_secs();
        self.record_start_at(kind, now);
    }

    /// Books a stop of `kind` at `now`.
    pub fn record_stop_at(&mut self, kind: &t44, now: u64)
        requires
            old(self).wf(),
        ensures
            final(self).wf(),
            final(self).probe_log() == old(self).probe_log(),
            final(self).lifecycle_of(*kind) == stopped(old(self).lifecycle_of(*kind), now),
            forall|k: t44| k != *kind ==> #[trigger] final(self).lifecycle_of(k) == old(self).lifecycle_of(k),
    {
        let i: usize = match kind {
            t44::Cloudflare => 0,
            t44::Ngrok => 1,
            t44::Tailscale => 2,
            t44::Bore => 3,
            t44::Localtunnel => 4,
        };
        let mut e = self.lifecycle[i];
        if e.running {
            if let Some(start) = e.last_start {
                e.total_uptime_secs = e.total_uptime_secs.wrapping_add(now.saturating_sub(start));
            }
        }
        e.last_stop = Some(now);
        e.running = false;
        self.lifecycle.set(i, e);
    }

    /// Books a stop of `kind` now.
    pub fn record_stop(&mut self, kind: &t44)
        requires
            old(self).wf(),
        ensures
            final(self).wf(),
            final(self).probe_log() == old(self).probe_log(),
            exists|now: u64| final(self).lifecycle_of(*kind) == stopped(old(self).lifecycle_of(*kind), now),
            forall|k: t44| k != *kind ==> #[trigger] final(self).lifecycle_of(k) == old(self).lifecycle_of(k),
    {
        let now = now_secs();
        self.record_stop_at(kind, now);
    }

    /// The newest `limit` probes, newest first.
    pub fn recent_probes(&self, limit: usize) -> (r: Vec<t48>)
        ensures
            r@ == latest_first(self.probe_log(), limit as nat),
    {
        let len = self.probes.len();
        let k = if limit < len { limit } else { len };
        let mut out: Vec<t48> = Vec::new();
        let mut j: usize = 0;
        while j < k
            invariant
                len == self.probes@.len(),
                k <= len,
                k == (if (limit as nat) < len { limit as nat } else { len as nat }),
                j <= k,
                out@ == Seq::new(j as nat, |m: int| self.probes@[len - 1 - m]),
            decreases k - j,
        {
            out.push(self.probes[len - 1 - j].clone());
            j = j + 1;
            assert(out@ =~= Seq::new(j as nat, |m: int| self.probes@[len - 1 - m]));
        }
        assert(out@ =~= latest_first(self.probe_log(), limit as nat));
        out
    }

    /// The newest `limit` probes of one provider, newest first.
    pub fn probe_history(&self, kind: &t44, limit: usize) -> (r: Vec<t48>)
        ensures
            r@ == latest_first(relevant(self.probe_log(), kind_name(*kind), 0), limit as nat),
    {
        let name = kind.name().to_string();
        let ghost rel = relevant(self.probe_log(), kind_name(*kind), 0);
        let mut mine: Vec<t48> = Vec::new();
        let mut i: usize = 0;
        while i < self.probes.len()
            invariant
                i <= self.probes@.len(),
                name@ == kind_name(*kind),
                mine@ == relevant(self.probes@.take(i as int), name@, 0),
            decreases self.probes@.len() - i,
        {
            assert(self.probes@.take(i + 1).drop_last() =~= self.probes@.take(i as int));
            if self.probes[i].provider == name {
                mine.push(self.probes[i].clone());
            }
            i = i + 1;
        }
        assert(self.probes@.take(self.probes@.len() as int) =~= self.probes@);
        let len = mine.len();
        let k = if limit < len { limit } else { len };
        let mut out: Vec<t48> = Vec::new();
        let mut j: usize = 0;
        while j < k
            invariant
                len == mine@.len(),
                k <= len,
                k == (if (limit as nat) < len { limit as nat } else { len as nat }),
                j <= k,
                out@ == Seq::new(j as nat, |m: int| mine@[len - 1 - m]),
            decreases k - j,
        {
            out.push(mine[len - 1 - j].clone());
            j = j + 1;
            assert(out@ =~= Seq::new(j as nat, |m: int| mine@[len - 1 - m]));
        }
        assert(out@ =~= latest_first(rel, limit as nat));
        out
    }

    /// Aggregates for one provider over the probes of the last `hours`
    /// hours (all probes when `None`), as of `now`.
    pub fn provider_counts_at(&self, kind: &t44, hours: Option<u64>, now: u64) -> (c: ProviderCounts)
        requires
            self.wf(),
            window_ok(hours),
        ensures
            counts_ok(c, *kind, self.probe_log(), self.lifecycle_of(*kind), hours, now),
    {
        let cutoff: u64 = match hours {
            Some(h) => now.saturating_sub(h * 3600),
            None => 0,
        };
        let name = kind.name().to_string();
        let ghost rel = relevant(self.probes@, name@, cutoff);
        let mut flags: Vec<bool> = Vec::new();
        let mut lat: std::collections::VecDeque<u64> = std::collections::VecDeque::new();
        let mut lat_vec: Vec<u64> = Vec::new();
        let mut ok_count: u64 = 0;
        let mut sum: u128 = 0;
        let mut i: usize = 0;
        while i < self.probes.len()
            invariant
                i <= self.probes@.len(),
                self.probes@.len() <= MAX_TUNNEL_PROBES,
                name@ == kind_name(*kind),
                ({
                    let r = relevant(self.probes@.take(i as int), name@, cutoff);
                    &&& flags@ == oks(r)
                    &&& lat@ == ok_lat(r)
                    &&& lat_vec@ == ok_lat(r)
                    &&& ok_count == count_true(oks(r))
                    &&& sum == sum_of(ok_lat(r))
                    &&& r.len() <= i
                }),
            decreases self.probes@.len() - i,
        {
            let ghost r0 = relevant(self.probes@.take(i as int), name@, cutoff);
            assert(self.probes@.take(i + 1).drop_last() =~= self.probes@.take(i as int));
            assert(self.probes@.take(i + 1).last() == self.probes@[i as int]);
            let p = &self.probes[i];
            if p.provider == name && p.ts >= cutoff {
                let ghost r1 = r0.push(*p);
                assert(r1.drop_last() =~= r0);
                assert(oks(r1) =~= oks(r0).push(p.ok));
                assert(oks(r1).drop_last() =~= oks(r0));
                flags.push(p.ok);
                proof {
                    crate::ranking::lemma_count_true_le(oks(r0));
                    assert(oks(r0).len() == r0.len());
                    lemma_sum_bound(ok_lat(r0));
                    lemma_ok_lat_len(r0);
                    assert(ok_lat(r0).len() <= i);
                    assert(sum_of(ok_lat(r0)) <= i * 0xffff_ffff_ffff_ffff) by (nonlinear_arith)
                        requires
                            sum_of(ok_lat(r0)) <= ok_lat(r0).len() * 0xffff_ffff_ffff_ffff,
                            ok_lat(r0).len() <= i,
                    ;
                    assert(i * 0xffff_ffff_ffff_ffff <= 50_000 * 0xffff_ffff_ffff_ffff) by (nonlinear_arith)
                        requires
                            i < 50_000,
                    ;
                }
                if p.ok {
                    ok_count = ok_count + 1;
                    lat.push_back(p.latency_ms);
                    lat_vec.push(p.latency_ms);
                    sum = sum + p.latency_ms as u128;
                    assert(ok_lat(r1).drop_last() =~= ok_lat(r0));
                }
            }
            i = i + 1;
        }
        assert(self.probes@.take(self.probes@.len() as int) =~= self.probes@);
        proof {
            lemma_ok_lat_len(rel);
            crate::ranking::lemma_count_true_le(oks(rel));
            assert(oks(rel).len() == rel.len());
        }
        let total = flags.len() as u64;
        let (p50, p95, p99) = percentiles(&lat);
        let sorted = sorted_values(&lat_vec);
        let (min, max) = if sorted.len() == 0 {
            (0u64, 0u64)
        } else {
            (sorted[0], sorted[sorted.len() - 1])
        };
        // success streaks, oldest probe first
        let mut cur: u64 = 0;
        let mut best: u64 = 0;
        let mut j: usize = 0;
        while j < flags.len()
            invariant
                j <= flags@.len(),
                flags@.len() <= MAX_TUNNEL_PROBES,
                cur == trailing_ok(flags@.take(j as int)),
                best == longest_ok(flags@.take(j as int)),
                cur <= best <= j,
            decreases flags@.len() - j,
        {
            assert(flags@.take(j + 1).drop_last() =~= flags@.take(j as int));
            assert(flags@.take(j + 1).last() == flags@[j as int]);
            if flags[j] {
                cur = cur + 1;
                if cur > best {
                    best = cur;
                }
            } else {
                cur = 0;
            }
            j = j + 1;
        }
        assert(flags@.take(flags@.len() as int) =~= flags@);
        let l = self.lifecycle[match kind {
            t44::Cloudflare => 0,
            t44::Ngrok => 1,
            t44::Tailscale => 2,
            t44::Bore => 3,
            t44::Localtunnel => 4,
        }];
        let mut up = l.total_uptime_secs;
        let mut down = l.total_downtime_secs;
        if l.running {
            if let Some(start) = l.last_start {
                up = up.wrapping_add(now.saturating_sub(start));
            }
        } else if let Some(stop) = l.last_stop {
            down = down.wrapping_add(now.saturating_sub(stop));
        }
        ProviderCounts {
            provider: name,
            total_probes: total,
            successful_probes: ok_count,
            failed_probes: total - ok_count,
            latency_sum_ms: sum,
            p50_latency_ms: p50,
            p95_latency_ms: p95,
            p99_latency_ms: p99,
            min_latency_ms: min,
            max_latency_ms: max,
            total_uptime_secs: up,
            total_downtime_secs: down,
            start_count: l.start_count,
            current_streak_ok: cur,
            longest_streak_ok: best,
        }
    }

    /// Aggregates for every provider that has probes in the window or has
    /// been started, in `t44::all()` order.
    pub fn comparison_at(&self, hours: Option<u64>, now: u64) -> (r: Vec<ProviderCounts>)
        requires
            self.wf(),
            window_ok(hours),
        ensures
            r@.len() == with_data(all_kinds(), *self, hours, now).len(),
            forall|i: int|
                0 <= i < r@.len() ==> counts_ok(
                    #[trigger] r@[i],
                    with_data(all_kinds(), *self, hours, now)[i],
                    self.probe_log(),
                    self.lifecycle_of(with_data(all_kinds(), *self, hours, now)[i]),
                    hours,
                    now,
                ),
    {
        let kinds = t44::all();
        let mut out: Vec<ProviderCounts> = Vec::new();
        let mut i: usize = 0;
        while i < kinds.len()
            invariant
                self.wf(),
                window_ok(hours),
                kinds@ == all_kinds(),
                i <= kinds.len(),
                out@.len() == with_data(kinds@.take(i as int), *self, hours, now).len(),
                forall|j: int|
                    0 <= j < out@.len() ==> counts_ok(
                        #[trigger] out@[j],
                        with_data(kinds@.take(i as int), *self, hours, now)[j],
                        self.probe_log(),
                        self.lifecycle_of(with_data(kinds@.take(i as int), *self, hours, now)[j]),
                        hours,
                        now,
                    ),
            decreases kinds.len() - i,
        {
            let ghost before = with_data(kinds@.take(i as int), *self, hours, now);
            assert(kinds@.take(i + 1).drop_last() =~= kinds@.take(i as int));
            let c = self.provider_counts_at(&kinds[i], hours, now);
            proof {
                lemma_ok_lat_len(relevant(self.probe_log(), kind_name(kinds@[i as int]), cutoff_of(hours, now)));
            }
            if c.total_probes > 0 || c.start_count > 0 {
                out.push(c);
            }
            i = i + 1;
        }
        assert(kinds@.take(kinds@.len() as int) =~= kinds@);
        out
    }
}

/// The providers of `ks` that have probes in the window or have been started.
pub open spec fn with_data(ks: Seq<t44>, s: t50, hours: Option<u64>, now: u64) -> Seq<t44>
    decreases ks.len(),
{
    if ks.len() == 0 {
        Seq::empty()
    } else {
        let rest = with_data(ks.drop_last(), s, hours, now);
        let k = ks.last();
        if relevant(s.probe_log(), kind_name(k), cutoff_of(hours, now)).len() > 0 || s.lifecycle_of(k).start_count > 0 {
            rest.push(k)
        } else {
            rest
        }
    }
}

// ---------------------------------------------------------------------------
// Laws
// ---------------------------------------------------------------------------

/// Streaks of a probe series (oldest first): a failure ends the current
/// streak, a success extends it by one; the longest streak never drops, is
/// at least the current one, and grows only when the current one outgrows
/// it; neither exceeds the number of probes.
pub proof fn law_streaks(s: Seq<bool>)
    ensures
        trailing_ok(s.push(false)) == 0,
        trailing_ok(s.push(true)) == trailing_ok(s) + 1,
        longest_ok(s.push(false)) == longest_ok(s),
        longest_ok(s.push(true)) == (if trailing_ok(s) + 1 > longest_ok(s) {
            trailing_ok(s) + 1
        } else {
            longest_ok(s)
        }),
        trailing_ok(s) <= longest_ok(s),
        longest_ok(s) <= s.len(),
    decreases s.len(),
{
    assert(s.push(false).drop_last() =~= s);
    assert(s.push(true).drop_last() =~= s);
    if s.len() > 0 {
        law_streaks(s.drop_last());
    }
}

/// Reported provider aggregates: probes split into successes and failures;
/// the current streak is zero when the newest probe in the window failed and
/// otherwise one more than the streak before it; the current streak never
/// exceeds the longest, nor the longest the number of probes.
pub proof fn law_reported_streaks(c: ProviderCounts, k: t44, probes: Seq<t48>, l: Lifecycle, hours: Option<u64>, now: u64)
    requires
        counts_ok(c, k, probes, l, hours, now),
    ensures
        c.successful_probes + c.failed_probes == c.total_probes,
        c.current_streak_ok <= c.longest_streak_ok <= c.total_probes,
        ({
            let rel = relevant(probes, kind_name(k), cutoff_of(hours, now));
            rel.len() > 0 && !rel.last().ok ==> c.current_streak_ok == 0
        }),
        ({
            let rel = relevant(probes, kind_name(k), cutoff_of(hours, now));
            rel.len() > 0 && rel.last().ok ==> c.current_streak_ok == trailing_ok(oks(rel.drop_last())) + 1
        }),
{
    let rel = relevant(probes, kind_name(k), cutoff_of(hours, now));
    crate::ranking::lemma_count_true_le(oks(rel));
    law_streaks(oks(rel));
    if rel.len() > 0 {
        assert(oks(rel) =~= oks(rel.drop_last()).push(rel.last().ok));
        law_streaks(oks(rel.drop_last()));
    }
}

/// Restarting a stopped provider books the pause since its last stop as
/// downtime and leaves its uptime alone.
pub proof fn law_restart_books_pause(l: Lifecycle, s: u64, t: u64)
    requires
        !l.running,
        l.last_stop == Some(s),
        s <= t,
        l.total_downtime_secs + (t - s) <= u64::MAX,
        l.start_count < u64::MAX,
    ensures
        started(l, t).total_downtime_secs == l.total_downtime_secs + (t - s),
        started(l, t).total_uptime_secs == l.total_uptime_secs,
        started(l, t).start_count == l.start_count + 1,
        started(l, t).running,
        started(l, t).last_start == Some(t),
{
}

/// Starting or stopping a running provider at `t` does not change the uptime
/// and downtime reported at `t`: nothing booked before is lost, whatever the
/// lifecycle.
pub proof fn law_start_keeps_reported_times(l: Lifecycle, t: u64)
    ensures
        times_at(started(l, t), t) == times_at(l, t),
{
}

/// Stopping a running provider at `t` keeps the times reported at `t`.
pub proof fn law_stop_keeps_reported_times(l: Lifecycle, t: u64)
    requires
        l.running,
    ensures
        times_at(stopped(l, t), t) == times_at(l, t),
{
}

/// A start at `t1` followed by a stop at `t2` of a stopped provider books
/// exactly the run time `t2 - t1` as uptime and counts one more start.
pub proof fn law_run_is_booked_as_uptime(l: Lifecycle, t1: u64, t2: u64)
    requires
        !l.running,
        t1 <= t2,
        l.total_uptime_secs + (t2 - t1) <= u64::MAX,
        l.start_count < u64::MAX,
    ensures
        stopped(started(l, t1), t2).total_uptime_secs == l.total_uptime_secs + (t2 - t1),
        stopped(started(l, t1), t2).start_count == l.start_count + 1,
        !stopped(started(l, t1), t2).running,
        stopped(started(l, t1), t2).last_stop == Some(t2),
{
}

/// While a provider is stopped, the time since its last stop counts as
/// downtime in the reported figures.
pub proof fn law_pause_counts_as_downtime(l: Lifecycle, stop: u64, now: u64)
    requires
        !l.running,
        l.last_stop == Some(stop),
        stop <= now,
        l.total_downtime_secs + (now - stop) <= u64::MAX,
    ensures
        times_at(l, now) == (l.total_uptime_secs, (l.total_downtime_secs + (now - stop)) as u64),
{
}

} // verus!
