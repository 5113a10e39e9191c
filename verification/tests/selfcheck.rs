use approuter::selfcheck::{
    direct_probe_plan, external_ip_from_body, probe_answered, probe_failed, unknown_ip_probe,
    ProbePath, SelfCheckConfig, SelfCheckProbe, SelfCheckStore, MAX_PROBES_PER_PATH,
};

#[test]
fn record_tracks_consecutive_failures() {
    let mut s = SelfCheckStore::new();
    for i in 0..4 {
        s.record(SelfCheckProbe {
            ts: 100 + i,
            path: ProbePath::Cf,
            ok: false,
            status: 502,
            latency_ms: 50,
            error: Some("boom".into()),
        });
    }
    let snap = s.snapshot();
    assert_eq!(snap.cf.consecutive_failures, 4);
    assert_eq!(snap.cf.failed_probes, 4);
}

#[test]
fn one_success_resets_streak() {
    let mut s = SelfCheckStore::new();
    for _ in 0..5 {
        s.record(SelfCheckProbe {
            ts: 1, path: ProbePath::Direct, ok: false, status: 0, latency_ms: 5, error: None,
        });
    }
    s.record(SelfCheckProbe {
        ts: 2, path: ProbePath::Direct, ok: true, status: 200, latency_ms: 3, error: None,
    });
    let snap = s.snapshot();
    assert_eq!(snap.direct.consecutive_failures, 0);
    assert_eq!(snap.direct.successful_probes, 1);
}

#[test]
fn selfcheck_ring_is_bounded() {
    let mut s = SelfCheckStore::new();
    for i in 0..(MAX_PROBES_PER_PATH + 100) {
        s.record(SelfCheckProbe {
            ts: i as u64,
            path: ProbePath::Cf,
            ok: true,
            status: 200,
            latency_ms: 1,
            error: None,
        });
    }
    let snap = s.snapshot();
    assert_eq!(snap.cf.total_probes, (MAX_PROBES_PER_PATH + 100) as u64);
    // `recent` is capped at 50
    assert_eq!(snap.cf.recent.len(), 50);
}

fn probe(ts: u64, path: ProbePath, ok: bool, latency_ms: u64) -> SelfCheckProbe {
    SelfCheckProbe { ts, path, ok, status: if ok { 200 } else { 500 }, latency_ms, error: None }
}

#[test]
fn warning_fires_on_third_failure_only() {
    let mut s = SelfCheckStore::new();
    let w1 = s.record(probe(1, ProbePath::Cf, false, 1));
    let w2 = s.record(probe(2, ProbePath::Cf, false, 1));
    let w3 = s.record(probe(3, ProbePath::Cf, false, 1));
    let w4 = s.record(probe(4, ProbePath::Cf, false, 1));
    assert_eq!((w1, w2, w3, w4), (false, false, true, false));
}

#[test]
fn paths_are_independent() {
    let mut s = SelfCheckStore::new();
    s.record(probe(10, ProbePath::Cf, false, 1));
    s.record(probe(11, ProbePath::Direct, true, 7));
    let snap = s.snapshot();
    assert_eq!(snap.cf.consecutive_failures, 1);
    assert_eq!(snap.cf.last_fail_ts, Some(10));
    assert_eq!(snap.cf.last_ok_ts, None);
    assert_eq!(snap.direct.consecutive_failures, 0);
    assert_eq!(snap.direct.last_ok_ts, Some(11));
    assert_eq!(snap.last_check_ts, Some(11));
}

#[test]
fn latency_percentiles_of_successes() {
    let mut s = SelfCheckStore::new();
    for (i, l) in [40u64, 10, 30, 20].iter().enumerate() {
        s.record(probe(i as u64 + 1, ProbePath::Cf, true, *l));
    }
    s.record(probe(9, ProbePath::Cf, false, 1000));
    let snap = s.snapshot();
    // sorted successes: 10 20 30 40; p50 index 2, p95 index 3
    assert_eq!(snap.cf.p50_latency_ms, 30);
    assert_eq!(snap.cf.p95_latency_ms, 40);
    assert_eq!(snap.cf.recent.len(), 5);
    assert_eq!(snap.cf.recent[0].ts, 9);
}

#[test]
fn external_ip_round_trip() {
    let mut s = SelfCheckStore::new();
    assert_eq!(s.external_ip(), None);
    s.set_external_ip(Some("203.0.113.7".into()));
    assert_eq!(s.external_ip(), Some("203.0.113.7".to_string()));
    assert_eq!(s.snapshot().external_ip, Some("203.0.113.7".to_string()));
    assert_eq!(s.snapshot().last_check_ts, None);
}

#[test]
fn probe_path_names() {
    assert_eq!(ProbePath::Cf.as_str(), "cf");
    assert_eq!(ProbePath::Direct.as_str(), "direct");
}

#[test]
fn selfcheck_config_defaults_and_overrides() {
    let c = SelfCheckConfig::from_values(None, None, None, None, 0);
    assert_eq!(c.interval_secs, 60);
    assert_eq!(c.cf_url, "https://cochranblock.org/health");
    assert_eq!(c.ext_ip_lookup_url, "https://api.ipify.org");
    assert_eq!(c.timeout_secs, 5);
    let c = SelfCheckConfig::from_values(Some("15".into()), Some("http://x/h".into()), None, Some("bad".into()), 8443);
    assert_eq!(c.interval_secs, 15);
    assert_eq!(c.cf_url, "http://x/h");
    assert_eq!(c.timeout_secs, 5);
    assert_eq!(c.direct_port, 8443);
}

#[test]
fn probe_results_and_plans() {
    let p = probe_answered(5, ProbePath::Cf, 503, 12);
    assert!(!p.ok);
    assert_eq!(p.error.as_deref(), Some("status 503"));
    let p = probe_answered(5, ProbePath::Cf, 204, 12);
    assert!(p.ok);
    assert_eq!(p.error, None);
    let p = probe_failed(6, ProbePath::Direct, "timed out".into(), 5000);
    assert_eq!((p.ok, p.status), (false, 0));
    let p = unknown_ip_probe(7);
    assert_eq!(p.error.as_deref(), Some("external IP unknown"));
    assert_eq!(p.path, ProbePath::Direct);
    assert_eq!(direct_probe_plan(0, &Some("1.2.3.4".into())), None);
    assert_eq!(direct_probe_plan(8080, &None), Some(None));
    assert_eq!(
        direct_probe_plan(8080, &Some("1.2.3.4".into())),
        Some(Some("http://1.2.3.4:8080/health".to_string()))
    );
    assert_eq!(external_ip_from_body(" 198.51.100.2\n"), "198.51.100.2");
}
