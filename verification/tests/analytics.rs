use approuter::analytics::{
    analytics_dir, classify_ua, detect_bot, detect_bot_lower, extract_event, ip_hash, today_file,
    AnalyticsHeaders, t40, t42, FLUSH_EVERY, MAX_EVENTS_IN_MEMORY,
};

fn ev(ts: u64, host: &str, path: &str, status: u16, ip: &str, bot: bool) -> t40 {
    t40 {
        ts,
        host: host.into(),
        path: path.into(),
        method: "GET".into(),
        status,
        duration_ms: 5,
        country: "US".into(),
        region: "Virginia".into(),
        region_code: "VA".into(),
        city: "Ashburn".into(),
        timezone: "America/New_York".into(),
        ip_hash: ip.into(),
        ua_family: if bot { "curl".into() } else { "Chrome".into() },
        is_bot: bot,
    }
}

fn count<K: PartialEq + Clone>(v: &[(K, u64)], k: K) -> Option<u64> {
    v.iter().find(|(x, _)| *x == k).map(|(_, c)| *c)
}

#[test]
fn ua_families() {
    assert_eq!(classify_ua("Mozilla/5.0 Chrome/120 Safari/537 Edg/120"), "Edge");
    assert_eq!(classify_ua("Mozilla/5.0 (iPhone) CriOS/120 Safari/604"), "Chrome iOS");
    assert_eq!(classify_ua("Mozilla/5.0 (Linux; Android) Chrome/120 Mobile Safari/537"), "Chrome Mobile");
    assert_eq!(classify_ua("Mozilla/5.0 (iPhone) Version/17 Mobile Safari/604"), "Safari iPhone");
    assert_eq!(classify_ua("Mozilla/5.0 (Macintosh) Version/17 Safari/605"), "Safari Mac");
    assert_eq!(classify_ua("Mozilla/5.0 Firefox/121"), "Firefox");
    assert_eq!(classify_ua("curl/8.4"), "curl");
    assert_eq!(classify_ua(""), "unknown");
    assert_eq!(classify_ua("Lynx/2.8"), "other");
}

#[test]
fn bot_detection() {
    assert!(detect_bot("Googlebot/2.1"));
    assert!(detect_bot("Mozilla/5.0 HeadlessChrome/120"));
    assert!(detect_bot("Python-urllib/3.11"));
    assert!(detect_bot(""));
    assert!(!detect_bot("Mozilla/5.0 (Macintosh) Safari/605"));
    assert!(detect_bot_lower("semrushbot"));
    assert!(!detect_bot_lower("mozilla"));
}

#[test]
fn ip_hash_is_sha256_prefix() {
    assert_eq!(ip_hash("203.0.113.9"), "d861b7e91033");
    assert_eq!(ip_hash("1.2.3.4"), "6694f83c9f47");
    assert_eq!(ip_hash(""), "");
}

#[test]
fn event_from_headers() {
    let h = AnalyticsHeaders {
        host: "cochranblock.org:443".into(),
        cf_ipcountry: "US".into(),
        cf_ipcity: "Ashburn".into(),
        cf_region: "Virginia".into(),
        cf_region_code: "VA".into(),
        cf_timezone: "America/New_York".into(),
        cf_connecting_ip: "1.2.3.4".into(),
        user_agent: "curl/8.4".into(),
    };
    let e = extract_event(&h, "POST", "/api", 201, 9, 1_700_000_000);
    assert_eq!(e.host, "cochranblock.org");
    assert_eq!(e.ip_hash, "6694f83c9f47");
    assert_eq!(e.ua_family, "curl");
    assert!(e.is_bot);
    assert_eq!(e.method, "POST");
    assert_eq!(e.status, 201);
    assert_eq!(e.ts, 1_700_000_000);
}

#[test]
fn stats_aggregate_by_site_and_window() {
    let mut s = t42::new(Vec::new());
    s.record(ev(1_000, "a.com", "/", 200, "h1", false));
    s.record(ev(1_000, "a.com", "/style.css", 200, "h1", false));
    s.record(ev(4_600, "www.a.com", "/page.html", 404, "h2", false));
    s.record(ev(4_600, "b.com", "/", 200, "h3", true));
    let all = s.stats_at(None, None, 5_000);
    assert_eq!(all.total_requests, 4);
    assert_eq!(all.human_requests, 3);
    assert_eq!(all.bot_requests, 1);
    // "/" counts; ".css" does not; the 404 does not
    assert_eq!(all.total_page_views, 1);
    assert_eq!(all.unique_ips, 3);
    assert_eq!(count(&all.countries, "US".to_string()), Some(4));
    assert_eq!(count(&all.regions, "Virginia, US".to_string()), Some(4));
    assert_eq!(count(&all.cities, "Ashburn, VA US".to_string()), Some(4));
    assert_eq!(count(&all.status_codes, 404u16), Some(1));
    assert_eq!(count(&all.requests_by_hour, 0u8), Some(2));
    assert_eq!(count(&all.requests_by_hour, 1u8), Some(2));
    assert_eq!(count(&all.paths, "/".to_string()), Some(2));
    // host filter matches substrings
    let a = s.stats_at(Some("a.com"), None, 5_000);
    assert_eq!(a.total_requests, 3);
    // last hour only
    let recent = s.stats_at(None, Some(1), 5_000);
    assert_eq!(recent.total_requests, 2);
    let sites = s.stats_all_sites_at(None, 5_000);
    let names: Vec<&str> = sites.iter().map(|(h, _)| h.as_str()).collect();
    assert_eq!(names, vec!["a.com", "www.a.com", "b.com"]);
    assert_eq!(sites[0].1.total_requests, 3);
    assert_eq!(sites[2].1.total_requests, 1);
}

#[test]
fn recent_events_newest_first() {
    let mut s = t42::new(vec![ev(1, "a.com", "/1", 200, "x", false)]);
    s.record(ev(2, "b.com", "/2", 200, "x", false));
    s.record(ev(3, "a.com", "/3", 200, "x", false));
    let r = s.recent(10, None);
    assert_eq!(r.iter().map(|e| e.ts).collect::<Vec<_>>(), vec![3, 2, 1]);
    let r = s.recent(1, Some("a.com"));
    assert_eq!(r.len(), 1);
    assert_eq!(r[0].ts, 3);
    assert_eq!(s.flush().len(), 3);
}

#[test]
fn flush_every_hundred_events_and_memory_cap() {
    let mut s = t42::new(Vec::new());
    let mut flushes = 0;
    for i in 0..250u64 {
        if s.record(ev(i, "a.com", "/", 200, "x", false)) {
            flushes += 1;
        }
    }
    assert_eq!(flushes, 250 / FLUSH_EVERY);
    assert_eq!(s.flush().len(), 250);
    assert!(MAX_EVENTS_IN_MEMORY >= 250);
}

#[test]
fn event_file_names() {
    assert_eq!(today_file("/data/analytics", 86_400 * 3 + 5), "/data/analytics/events_3.jsonl");
    assert_eq!(analytics_dir("/base"), "/base/analytics");
}
