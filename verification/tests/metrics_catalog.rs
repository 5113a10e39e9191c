use approuter::metrics_catalog::{
    looks_like_probe, truncate_ip, ErrorType, IngressPath, MetricsCatalog, RequestEvent, UaClass,
    MAX_EVENTS,
};
use std::time::{SystemTime, UNIX_EPOCH};

fn ev(ts: u64, path: &str, status: u16, ingress: IngressPath, app: &str) -> RequestEvent {
    RequestEvent {
        ts,
        method: "GET".into(),
        path: path.into(),
        host: "cochranblock.org".into(),
        status_code: status,
        response_bytes: 1024,
        response_time_ms: 42,
        client_ip_trunc: "1.2.3.0/24".into(),
        country: "US".into(),
        ua_class: UaClass::Browser,
        ingress_path: ingress,
        tls_version: Some("TLS1.3".into()),
        http_version: "HTTP/2.0".into(),
        cache_hit: false,
        backend_app: app.into(),
        backend_url: "http://127.0.0.1:8081".into(),
        backend_latency_ms: 30,
        error_type: ErrorType::from_status(status),
    }
}

fn now() -> u64 {
    SystemTime::now().duration_since(UNIX_EPOCH).unwrap().as_secs()
}

#[test]
fn records_and_tops_out() {
    let mut m = MetricsCatalog::new();
    let now = now();
    for i in 0..5 {
        m.record(ev(now - i * 10, "/", 200, IngressPath::CfTunnel, "cochranblock"));
    }
    m.record(ev(now, "/wp-admin/setup.php", 404, IngressPath::CfTunnel, ""));
    assert_eq!(m.total_requests(), 6);
    assert_eq!(m.total_errors(), 1);
    let s = m.snapshot();
    assert!(s.per_route.iter().any(|r| r.route == "cochranblock"));
    assert_eq!(s.probe_paths_detected.len(), 1);
}

#[test]
fn metrics_catalog_ring_is_bounded() {
    let mut m = MetricsCatalog::new();
    let now = 1_700_000_000;
    for _ in 0..(MAX_EVENTS + 500) {
        m.record(ev(now, "/", 200, IngressPath::CfTunnel, "x"));
    }
    let s = m.snapshot();
    assert_eq!(s.event_ring_len, MAX_EVENTS);
}

#[test]
fn ua_class_routing() {
    assert_eq!(UaClass::from_ua(""), UaClass::Unknown);
    assert_eq!(UaClass::from_ua("curl/8.0"), UaClass::Api);
    assert_eq!(UaClass::from_ua("Googlebot/2.1"), UaClass::Bot);
    assert!(matches!(
        UaClass::from_ua("Mozilla/5.0 (Macintosh; Intel Mac OS X) Chrome/120"),
        UaClass::Browser
    ));
}

#[test]
fn error_type_from_status() {
    assert_eq!(ErrorType::from_status(200), None);
    assert_eq!(ErrorType::from_status(502), Some(ErrorType::BadGateway));
    assert_eq!(ErrorType::from_status(403), Some(ErrorType::Forbidden));
    assert_eq!(ErrorType::from_status(504), Some(ErrorType::Timeout));
}

#[test]
fn truncate_ip_shapes() {
    assert_eq!(truncate_ip("192.168.1.55"), "192.168.1.0/24");
    assert_eq!(truncate_ip("2001:db8::1"), "2001:db8:::/48");
    assert_eq!(truncate_ip(""), "");
}

#[test]
fn rfc1918_detection() {
    assert_eq!(IngressPath::classify_direct_peer("10.0.0.1"), IngressPath::Lan);
    assert_eq!(IngressPath::classify_direct_peer("172.17.1.5"), IngressPath::Lan);
    assert_eq!(IngressPath::classify_direct_peer("172.32.0.1"), IngressPath::Direct);
    assert_eq!(IngressPath::classify_direct_peer("8.8.8.8"), IngressPath::Direct);
}

#[test]
fn probe_detector_hits() {
    assert!(looks_like_probe("/.env"));
    assert!(looks_like_probe("/wp-admin/setup.php"));
    assert!(looks_like_probe("/phpmyadmin/"));
    assert!(!looks_like_probe("/"));
    assert!(!looks_like_probe("/api/v1/users"));
}

#[test]
fn hourly_bucketing() {
    let mut m = MetricsCatalog::new();
    let t0 = 1_700_000_000;
    // two events in same hour, one in the next
    m.record(ev(t0, "/", 200, IngressPath::CfTunnel, "x"));
    m.record(ev(t0 + 30, "/", 200, IngressPath::CfTunnel, "x"));
    m.record(ev(t0 + 3600, "/", 500, IngressPath::CfTunnel, "x"));
    let h = m.snapshot().hourly;
    assert_eq!(h.len(), 2);
    assert_eq!(h[0].requests, 2);
    assert_eq!(h[1].requests, 1);
    assert_eq!(h[1].errors, 1);
}

#[test]
fn public_snapshot_redacts() {
    let mut m = MetricsCatalog::new();
    let now = now();
    m.record(ev(now, "/secret/path", 200, IngressPath::Direct, "app-a"));
    let p = m.snapshot_public();
    assert_eq!(p.total_requests, 1);
    // public snapshot has no per-route or per-path detail
    let country = p.per_country.iter().find(|(k, _)| k == "US").map(|(_, v)| *v);
    assert_eq!(country, Some(1));
    let direct = p.ingress.iter().find(|(k, _)| k == "direct").map(|(_, v)| *v);
    assert_eq!(direct, Some(1));
}

#[test]
fn prometheus_format_is_parseable() {
    let mut m = MetricsCatalog::new();
    let now = now();
    m.record(ev(now, "/", 200, IngressPath::CfTunnel, "cochranblock"));
    let text = m.prometheus_text();
    assert!(text.contains("approuter_requests_total 1"));
    assert!(text.contains("approuter_requests_by_ingress{path=\"cf-tunnel\"} 1"));
}

#[test]
fn bytes_and_errors_are_totalled() {
    let mut m = MetricsCatalog::new_at(1_000);
    m.record(ev(1_000, "/", 200, IngressPath::CfTunnel, "a"));
    m.record(ev(1_001, "/x", 502, IngressPath::Lan, "a"));
    assert_eq!(m.total_requests(), 2);
    assert_eq!(m.total_bytes_out(), 2048);
    assert_eq!(m.total_errors(), 1);
    assert_eq!(m.started_at(), 1_000);
    assert_eq!(m.uptime_secs_at(1_500), 500);
}

#[test]
fn error_types_have_names() {
    assert_eq!(ErrorType::from_status(404).map(|e| e.as_str()), Some("not_found"));
    assert_eq!(ErrorType::from_status(418).map(|e| e.as_str()), Some("other"));
    assert_eq!(ErrorType::from_status(503).map(|e| e.as_str()), Some("upstream_error"));
    assert_eq!(ErrorType::from_status(399), None);
    assert_eq!(IngressPath::Lan.as_str(), "lan");
    assert_eq!(UaClass::Bot.as_str(), "bot");
}

#[test]
fn snapshot_has_one_row_per_route() {
    let m = MetricsCatalog::new_at(1_000);
    assert!(m.snapshot_at(1_000).per_route.is_empty());
    let mut m = MetricsCatalog::new_at(1_000);
    m.record(ev(1_000, "/", 200, IngressPath::CfTunnel, "a"));
    m.record(ev(1_001, "/", 200, IngressPath::CfTunnel, "b"));
    m.record(ev(1_002, "/", 500, IngressPath::CfTunnel, "b"));
    m.record(ev(1_003, "/", 200, IngressPath::Direct, ""));
    let rows = m.snapshot_at(1_010).per_route;
    assert_eq!(rows.len(), 3);
    assert_eq!(rows[0].route, "b");
    assert_eq!(rows[0].request_count_24h, 2);
    assert_eq!(rows[0].error_count_1h, 1);
    assert!(rows.iter().any(|r| r.route == "a"));
    assert!(rows.iter().any(|r| r.route == "cochranblock.org"));
}

#[test]
fn replayed_records_keep_start_and_counts() {
    let mut m = MetricsCatalog::new_at(7);
    for i in 0..20u64 {
        let status = if i % 4 == 0 { 500 } else { 200 };
        let path = if i % 5 == 0 { "/.env" } else { "/" };
        m.record(ev(10 + i, path, status, IngressPath::CfTunnel, "a"));
    }
    assert_eq!(m.started_at(), 7);
    assert_eq!(m.total_requests(), 20);
    assert_eq!(m.total_errors(), 5);
    assert_eq!(m.total_bytes_out(), 20 * 1024);
    let s = m.snapshot_at(40);
    assert_eq!(s.started_at, 7);
    assert_eq!(s.event_ring_len, 20);
    assert_eq!(s.probe_paths_detected.len(), 4);
}

#[test]
fn probe_test_ignores_case_and_context() {
    assert!(looks_like_probe("/WP-Admin/"));
    assert!(looks_like_probe("/foo/wp-admin/bar"));
    assert_eq!(looks_like_probe("/Normal/Page"), looks_like_probe("/normal/page"));
}
