use approuter::tunnel_metrics::{t48, t50};
use approuter::tunnel_provider::{
    enabled_not_running, initial_public_url, ngrok_authtoken_args, probe_ok, provider_command,
    provider_configs, t44, t45, ProviderEnv,
};

fn env() -> ProviderEnv {
    ProviderEnv {
        cf_token: None,
        cloudflare_api_token: Some("tok".into()),
        cf_tunnel_id: None,
        tunnel_cloudflare: None,
        ngrok_authtoken: None,
        tunnel_ngrok: Some("1".into()),
        ngrok_domain: Some("x.ngrok.app".into()),
        tunnel_tailscale: Some("true".into()),
        tunnel_bore: Some("1".into()),
        bore_secret: Some("s3".into()),
        bore_server: None,
        tunnel_localtunnel: None,
        lt_host: None,
        lt_subdomain: Some("me".into()),
    }
}

#[test]
fn provider_names_and_aliases() {
    assert_eq!(t44::from_str("CF"), Some(t44::Cloudflare));
    assert_eq!(t44::from_str("Tailscale"), Some(t44::Tailscale));
    assert_eq!(t44::from_str("lt"), Some(t44::Localtunnel));
    assert_eq!(t44::from_str("frp"), None);
    for k in t44::all() {
        assert_eq!(t44::from_str(k.name()), Some(k));
    }
    assert_eq!(t44::all().len(), 5);
    assert_eq!(t44::from_lowercase_name("BORE"), None);
}

#[test]
fn configs_from_environment() {
    let c = provider_configs(&env());
    assert_eq!(c.len(), 5);
    assert!(c[0].enabled);
    assert_eq!(c[0].token.as_deref(), Some("tok"));
    assert!(c[1].enabled);
    assert_eq!(c[1].domain.as_deref(), Some("x.ngrok.app"));
    assert!(!c[2].enabled, "only exactly 1 switches a provider on");
    assert!(c[3].enabled);
    assert!(!c[4].enabled);
    assert_eq!(c[4].subdomain.as_deref(), Some("me"));
}

#[test]
fn command_lines() {
    let c = provider_configs(&env());
    assert_eq!(provider_command(&c[0], 8080), None);
    let (bin, args) = provider_command(&c[1], 8080).unwrap();
    assert_eq!(bin, "ngrok");
    assert_eq!(args, ["http", "8080", "--log", "stdout", "--log-format", "json", "--domain", "x.ngrok.app"]);
    let (bin, args) = provider_command(&c[3], 80).unwrap();
    assert_eq!(bin, "bore");
    assert_eq!(args, ["local", "80", "--to", "bore.pub", "--secret", "s3"]);
    let (bin, args) = provider_command(&c[4], 3000).unwrap();
    assert_eq!(bin, "lt");
    assert_eq!(args, ["--port", "3000", "--subdomain", "me"]);
    assert_eq!(initial_public_url(&c[3], "tid"), Some("http://bore.pub:<pending>".to_string()));
    assert_eq!(initial_public_url(&c[0], "tid"), Some("https://tid.cfargotunnel.com".to_string()));
    assert_eq!(initial_public_url(&c[1], "tid"), None);
    let ngrok = t45 { kind: t44::Ngrok, enabled: true, token: Some("abc".into()), domain: None, server: None, subdomain: None };
    assert_eq!(ngrok_authtoken_args(&ngrok), Some(vec!["config".to_string(), "add-authtoken".into(), "abc".into()]));
    assert_eq!(enabled_not_running(&c, &vec![t44::Ngrok]), vec![t44::Cloudflare, t44::Bore]);
    assert!(probe_ok(Some(404)));
    assert!(!probe_ok(Some(502)));
    assert!(!probe_ok(None));
}

#[test]
fn probe_log_and_history() {
    let mut m = t50::new();
    m.record_probe_at(&t44::Ngrok, true, 30, 100);
    m.record_probe_at(&t44::Bore, false, 0, 101);
    m.record_probe_at(&t44::Ngrok, true, 10, 102);
    let recent = m.recent_probes(2);
    assert_eq!(recent.iter().map(|p| p.ts).collect::<Vec<_>>(), vec![102, 101]);
    let hist: Vec<t48> = m.probe_history(&t44::Ngrok, 10);
    assert_eq!(hist.len(), 2);
    assert_eq!(hist[0].provider, "ngrok");
    assert_eq!(hist[0].ts, 102);
}

#[test]
fn provider_counts_and_streaks() {
    let mut m = t50::new();
    for (i, (ok, l)) in [(true, 50u64), (false, 0), (true, 10), (true, 30), (false, 0)].iter().enumerate() {
        m.record_probe_at(&t44::Ngrok, *ok, *l, 1_000 + i as u64);
    }
    m.record_start_at(&t44::Ngrok, 900);
    m.record_stop_at(&t44::Ngrok, 960);
    let c = m.provider_counts_at(&t44::Ngrok, None, 1_000);
    assert_eq!(c.provider, "ngrok");
    assert_eq!((c.total_probes, c.successful_probes, c.failed_probes), (5, 3, 2));
    assert_eq!(c.latency_sum_ms, 90);
    assert_eq!((c.min_latency_ms, c.max_latency_ms), (10, 50));
    assert_eq!(c.p50_latency_ms, 30);
    // the newest probe failed; the longest run has two successes
    assert_eq!(c.current_streak_ok, 0);
    assert_eq!(c.longest_streak_ok, 2);
    assert_eq!(c.start_count, 1);
    assert_eq!(c.total_uptime_secs, 60);
    assert_eq!(c.total_downtime_secs, 40);
    let recent_only = m.provider_counts_at(&t44::Ngrok, Some(0), 1_003);
    assert_eq!(recent_only.total_probes, 2);
    let cmp = m.comparison_at(None, 1_000);
    assert_eq!(cmp.len(), 1);
    assert_eq!(cmp[0].provider, "ngrok");
}

#[test]
fn streaks_count_current_and_longest_runs() {
    let mut m = t50::new();
    for (i, ok) in [true, true, true, false, true, false].iter().enumerate() {
        m.record_probe_at(&t44::Ngrok, *ok, 10, 2_000 + i as u64);
    }
    let c = m.provider_counts_at(&t44::Ngrok, None, 2_010);
    assert_eq!((c.total_probes, c.successful_probes, c.failed_probes), (6, 4, 2));
    assert_eq!(c.current_streak_ok, 0);
    assert_eq!(c.longest_streak_ok, 3);
    assert_eq!((c.p50_latency_ms, c.min_latency_ms, c.max_latency_ms), (10, 10, 10));
    m.record_probe_at(&t44::Ngrok, true, 10, 2_006);
    m.record_probe_at(&t44::Ngrok, true, 10, 2_007);
    let c = m.provider_counts_at(&t44::Ngrok, None, 2_010);
    assert_eq!(c.current_streak_ok, 2);
    assert_eq!(c.longest_streak_ok, 3);
}
