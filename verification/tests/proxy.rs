use approuter::metrics_catalog::{ErrorType, IngressPath, UaClass};
use approuter::proxy::{
    blocks_request, build_catalog_event, f56, f57, is_hop_header, resolve_backend,
    tls_from_cf_visitor, tls_label, ProxyOutcome, RequestHeaders, t29,
};
use approuter::registry::{t30, t32};

fn legacy() -> t29 {
    t29 {
        s35: "https://127.0.0.1:443".into(),
        s36: "http://127.0.0.1:3000".into(),
        s37: vec!["oakilydokily.com".into()],
        s38: Some("oak/".into()),
        s42: "http://127.0.0.1:3001".into(),
        s43: vec!["roguerepo.io".into()],
        s49: "http://127.0.0.1:8000".into(),
        s50: vec![],
        s51: Some(".ronin-sites.pro".into()),
    }
}

#[test]
fn legacy_host_routes() {
    let c = legacy();
    assert_eq!(f56(&c, Some("OakilyDokily.com:443"), "/"), "http://127.0.0.1:3000");
    assert_eq!(f56(&c, Some("roguerepo.io"), "/x"), "http://127.0.0.1:3001");
    assert_eq!(f56(&c, Some("shop.ronin-sites.pro"), "/"), "http://127.0.0.1:8000");
    assert_eq!(f56(&c, Some("ronin-sites.pro"), "/"), "http://127.0.0.1:8000");
    assert_eq!(f56(&c, Some("other.example"), "/x"), "https://127.0.0.1:443");
    assert_eq!(f56(&c, None, "/oak"), "http://127.0.0.1:3000");
    assert_eq!(f56(&c, None, "/oak/page"), "http://127.0.0.1:3000");
    assert_eq!(f56(&c, None, "/oakland"), "https://127.0.0.1:443");
}

#[test]
fn proxy_url_shapes() {
    assert_eq!(f57("http://b", "", None), "http://b/");
    assert_eq!(f57("http://b", "/p", Some("a=1")), "http://b/p?a=1");
}

#[test]
fn path_prefix_is_stripped() {
    let c = legacy();
    let (app, base, url) = resolve_backend(&c, None, None, "/oak/page", Some("q=1"));
    assert_eq!(app, "");
    assert_eq!(base, "http://127.0.0.1:3000");
    assert_eq!(url, "http://127.0.0.1:3000/page?q=1");
    let (_, _, url) = resolve_backend(&c, None, None, "/oak/", None);
    assert_eq!(url, "http://127.0.0.1:3000/");
    let (_, _, url) = resolve_backend(&c, None, Some("x.test"), "/other", None);
    assert_eq!(url, "https://127.0.0.1:443/other");
}

#[test]
fn registry_wins_over_legacy_routes() {
    let c = legacy();
    let mut reg = t32::new();
    reg.register(t30 {
        s46: "mock-app".into(),
        s47: vec!["roguerepo.io".into()],
        s48: "http://127.0.0.1:9000".into(),
    })
    .unwrap();
    let (app, base, url) = resolve_backend(&c, Some(&reg), Some("roguerepo.io"), "/a", None);
    assert_eq!(app, "mock-app");
    assert_eq!(base, "http://127.0.0.1:9000");
    assert_eq!(url, "http://127.0.0.1:9000/a");
}

#[test]
fn tor_exit_nodes_are_blocked() {
    assert!(blocks_request(Some("T1")));
    assert!(!blocks_request(Some("US")));
    assert!(!blocks_request(Some("t1")));
    assert!(!blocks_request(None));
}

#[test]
fn hop_headers_are_not_forwarded() {
    assert!(is_hop_header("Transfer-Encoding"));
    assert!(is_hop_header("connection"));
    assert!(!is_hop_header("x-custom"));
}

#[test]
fn tls_label_from_cf_visitor() {
    assert_eq!(tls_from_cf_visitor(Some(r#"{"scheme":"https"}"#)), Some("TLS (CF-edge)".to_string()));
    assert_eq!(tls_from_cf_visitor(Some(r#"{"scheme":"http"}"#)), Some("none".to_string()));
    assert_eq!(tls_from_cf_visitor(Some("not json")), None);
    assert_eq!(tls_from_cf_visitor(Some(r#"{"other":1}"#)), None);
    assert_eq!(tls_from_cf_visitor(None), None);
    assert_eq!(tls_label(Some("HTTPS")), Some("TLS (CF-edge)".to_string()));
}

#[test]
fn catalog_event_from_request() {
    let headers = RequestHeaders {
        country: "DE".into(),
        connecting_ip: "198.51.100.77".into(),
        user_agent: "curl/8.4".into(),
        cf_visitor: Some(r#"{"scheme":"https"}"#.into()),
    };
    let outcome = ProxyOutcome { status: 502, response_bytes: 0, duration_ms: 12, backend_ms: 10 };
    let e = build_catalog_event(
        77, &headers, "GET", "/x", "a.test", "app", "http://b", "HTTP/1.1",
        IngressPath::Direct, &outcome,
    );
    assert_eq!(e.ts, 77);
    assert_eq!(e.client_ip_trunc, "198.51.100.0/24");
    assert_eq!(e.ua_class, UaClass::Api);
    assert_eq!(e.tls_version.as_deref(), Some("TLS (CF-edge)"));
    assert_eq!(e.error_type, Some(ErrorType::BadGateway));
    assert_eq!(e.ingress_path, IngressPath::Direct);
    assert!(!e.cache_hit);
}

#[test]
fn documented_path_prefix_with_leading_slash() {
    let mut c = legacy();
    c.s38 = Some("/oakilydokily".into());
    c.s37 = vec![];
    c.s35 = "http://127.0.0.1:8081".into();
    let (app, base, url) = resolve_backend(&c, None, Some("example.com"), "/oakilydokily/page", None);
    assert_eq!(app, "");
    assert_eq!(base, "http://127.0.0.1:3000");
    assert_eq!(url, "http://127.0.0.1:3000/page");
    let (_, _, url) = resolve_backend(&c, None, Some("example.com"), "/oakilydokily", None);
    assert_eq!(url, "http://127.0.0.1:3000/");
    let (_, base, url) = resolve_backend(&c, None, Some("example.com"), "/oakilydokilyx", None);
    assert_eq!(base, "http://127.0.0.1:8081");
    assert_eq!(url, "http://127.0.0.1:8081/oakilydokilyx");
}
