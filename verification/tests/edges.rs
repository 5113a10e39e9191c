use approuter::acme::{default_zone_for, CertBundle};
use approuter::api::{
    discovery_url, f139, health_url, is_free_google_api, status_products, status_summary, t33, t36,
};
use approuter::cloudflare::{
    c91, cname_record_name, default_tunnel_id, dns_record_type, f94, failure_detail,
    ingress_rules, tunnel_service, tunnel_token_access, verify_result,
};
use approuter::config::{legacy_routes, listen_addr, split_hosts, t28};
use approuter::ingress_direct::{ingress_tag, DirectIngressConfig};
use approuter::kova::KovaWebApp;
use approuter::metrics_api::{rss_bytes, selfcheck_prometheus};
use approuter::metrics_catalog::IngressPath;
use approuter::proxy::t29;
use approuter::registry::t30;
use approuter::selfcheck::SelfCheckStore;
use approuter::setup::{f114, f122, f137};

#[test]
fn config_defaults_disabled() {
    let cfg = DirectIngressConfig {
        bind: "0.0.0.0".into(),
        port: 0,
    };
    assert!(!cfg.enabled());
}

#[test]
fn config_enabled_when_port_set() {
    let cfg = DirectIngressConfig {
        bind: "0.0.0.0".into(),
        port: 443,
    };
    assert!(cfg.enabled());
}

#[test]
fn direct_ingress_from_values() {
    let c = DirectIngressConfig::from_values(None, Some("8443".into()));
    assert_eq!(c.bind, "0.0.0.0");
    assert_eq!(c.port, 8443);
    assert_eq!(c.listen_addr(), "0.0.0.0:8443");
    let c = DirectIngressConfig::from_values(Some("127.0.0.1".into()), Some("70000".into()));
    assert_eq!(c.port, 0);
    assert!(!c.enabled());
    assert_eq!(ingress_tag(""), IngressPath::Direct);
    assert_eq!(ingress_tag("192.168.1.9"), IngressPath::Lan);
    assert_eq!(ingress_tag("8.8.4.4"), IngressPath::Direct);
}

#[test]
fn zones_and_records() {
    assert_eq!(c91(), "b12525df-6971-4c47-9a0d-61ee57a5cbd5.cfargotunnel.com");
    assert_eq!(default_tunnel_id(), "b12525df-6971-4c47-9a0d-61ee57a5cbd5");
    assert_eq!(f94("www.example.com"), "example.com");
    assert_eq!(f94("a.b.example.com"), "example.com");
    assert_eq!(f94("example.com"), "example.com");
    assert_eq!(f94("localhost"), "localhost");
    assert_eq!(default_zone_for("a.b.cochranblock.org"), "cochranblock.org");
    assert_eq!(default_zone_for("localhost"), "localhost");
    assert_eq!(cname_record_name("example.com", "example.com"), "@");
    assert_eq!(cname_record_name("example.com.", "example.com"), "@");
    assert_eq!(cname_record_name("www.example.com", "example.com"), "www");
    assert_eq!(cname_record_name("a.b.example.com", "example.com"), "a.b");
    assert_eq!(cname_record_name("other.org", "example.com"), "@");
    assert_eq!(dns_record_type("1.2.3.4"), "A");
    assert_eq!(dns_record_type("2001:db8::1"), "AAAA");
    assert_eq!(tunnel_service(8080), "http://127.0.0.1:8080");
}

#[test]
fn tunnel_ingress_and_api_answers() {
    let rules = ingress_rules(&vec!["a.test".to_string(), "b.test".to_string()], 9000);
    assert_eq!(rules.len(), 3);
    assert_eq!(rules[0], (Some("a.test".to_string()), "http://127.0.0.1:9000".to_string()));
    assert_eq!(rules[2], (None, "http_status:404".to_string()));
    assert_eq!(failure_detail(Some(vec!["a".into(), "b".into()]), "raw"), "a; b");
    assert_eq!(failure_detail(Some(vec![]), "raw"), "");
    assert_eq!(failure_detail(None, "raw"), "raw");
    let v = verify_result(true, Some(true), None, Some("42".into()), None);
    assert!(v.ok);
    assert_eq!(v.status, "active");
    assert_eq!(v.id, "42");
    assert_eq!(v.expires, "");
    let v = verify_result(false, Some(true), None, None, Some("2030".into()));
    assert!(!v.ok);
    assert_eq!(v.status, "error");
    assert_eq!(tunnel_token_access(200, Some(true)), Some(true));
    assert_eq!(tunnel_token_access(204, None), Some(false));
    assert_eq!(tunnel_token_access(403, Some(true)), Some(false));
    assert_eq!(tunnel_token_access(500, Some(true)), None);
}

#[test]
fn api_key_gate() {
    assert!(f139(None, None));
    assert!(f139(Some(""), None));
    assert!(f139(Some("k3y"), Some("Bearer k3y")));
    assert!(!f139(Some("k3y"), None));
    assert!(!f139(Some("k3y"), Some("Bearer wrong")));
    assert!(!f139(Some("k3y"), Some("k3y")));
    assert!(!f139(Some("k3y"), Some("bearer k3y")));
}

fn legacy() -> t29 {
    t29 {
        s35: "https://127.0.0.1:443".into(),
        s36: "http://127.0.0.1:3000".into(),
        s37: vec![],
        s38: None,
        s42: "http://127.0.0.1:3001".into(),
        s43: vec!["roguerepo.io".into(), "www.roguerepo.io".into()],
        s49: "http://127.0.0.1:8000".into(),
        s50: vec![],
        s51: None,
    }
}

#[test]
fn status_page_products() {
    let apps = vec![
        t30 { s46: "oakilydokily".into(), s47: vec!["x".into()], s48: "http://dup".into() },
        t30 { s46: "extra".into(), s47: vec!["extra.test".into()], s48: "http://127.0.0.1:5".into() },
    ];
    let p = status_products(&legacy(), &apps);
    let names: Vec<&str> = p.iter().map(|x| x.0.as_str()).collect();
    assert_eq!(names, vec!["cochranblock", "oakilydokily", "rogue-repo", "ronin-sites", "extra"]);
    assert_eq!(p[0].2, ["cochranblock.org", "www.cochranblock.org"]);
    assert_eq!(p[1].2, ["oakilydokily.com"]);
    assert_eq!(p[2].2, ["roguerepo.io", "www.roguerepo.io"]);
    assert_eq!(p[4].1, "http://127.0.0.1:5");
    assert_eq!(status_summary(&vec![true, false, false]), (3, 1, 2));
    assert_eq!(health_url("http://b"), "http://b/health");
    assert!(is_free_google_api("gmail"));
    assert!(!is_free_google_api("youtube"));
    assert!(discovery_url(true).ends_with("?preferred=true"));
    let q = t36 { free_only: true, preferred: false };
    assert!(q.free_only && !q.preferred);
    let a = t33 { s46: "id".into(), s47: vec!["h".into()], s48: "http://x".into() }.into_app();
    assert_eq!(a.s46, "id");
}

#[test]
fn router_settings_to_routes() {
    let cfg = t28 {
        s16: 8080,
        s17: "127.0.0.1".into(),
        s35: "https://127.0.0.1:443/".into(),
        s36: "http://127.0.0.1:3000".into(),
        s37: Some(" oakilydokily.com , ,www.oakilydokily.com".into()),
        s38: Some("oak".into()),
        s42: "http://127.0.0.1:3001//".into(),
        s43: None,
        s49: "http://127.0.0.1:8000".into(),
        s50: Some("".into()),
        s51: None,
        s39: false,
        s40: false,
        s41: false,
        s52: false,
        s44: true,
        s45: None,
    };
    let r = legacy_routes(&cfg);
    assert_eq!(r.s35, "https://127.0.0.1:443");
    assert_eq!(r.s37, ["oakilydokily.com", "www.oakilydokily.com"]);
    assert_eq!(r.s42, "http://127.0.0.1:3001");
    assert!(r.s43.is_empty());
    assert!(r.s50.is_empty());
    assert_eq!(r.s38.as_deref(), Some("oak"));
    assert_eq!(listen_addr(&cfg), "127.0.0.1:8080");
    assert_eq!(split_hosts(&Some("a,b".into())), ["a", "b"]);
}

#[test]
fn setup_commands_report_not_implemented() {
    assert_eq!(f114("/tmp").unwrap_err(), "setup::f114 not implemented");
    assert_eq!(f122("/tmp", "example.com").unwrap_err(), "setup::f122 not implemented");
    assert_eq!(f137("site", "map").unwrap_err(), "setup::f137 not implemented");
}

#[test]
fn metrics_endpoint_helpers() {
    assert_eq!(rss_bytes(2048, true), 2048);
    assert_eq!(rss_bytes(2048, false), 2048 * 1024);
    assert_eq!(rss_bytes(u64::MAX, false), u64::MAX);
    let s = SelfCheckStore::new().snapshot();
    let text = selfcheck_prometheus(&s, 77);
    assert!(text.contains("approuter_selfcheck_consecutive_failures{path=\"cf\"} 0\n"));
    assert!(text.ends_with("approuter_process_memory_rss_bytes 77\n"));
}

#[test]
fn small_types() {
    let k = KovaWebApp::new();
    assert_eq!(k.messages, ["Kova thin client."]);
    assert!(k.input.is_empty() && !k.show_backlog);
    let c = CertBundle { cert_pem: "c".into(), key_pem: "k".into() };
    assert_eq!(c.cert_pem.len() + c.key_pem.len(), 2);
}
