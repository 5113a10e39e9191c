use approuter::registry::{data_dir, t30, t31, t32};

fn app(id: &str, hosts: &[&str], backend: &str) -> t30 {
    t30 {
        s46: id.into(),
        s47: hosts.iter().map(|h| h.to_string()).collect(),
        s48: backend.into(),
    }
}

#[test]
fn register_and_list() {
    let mut reg = t32::new();
    reg.register(app("test-website", &["test.example.com"], "http://127.0.0.1:9999"))
        .unwrap();
    let apps = reg.list_apps();
    assert_eq!(apps.len(), 1);
    assert_eq!(apps[0].s46, "test-website");
    assert_eq!(apps[0].s47, ["test.example.com"]);
}

#[test]
fn register_rejects_empty_backend() {
    let mut reg = t32::new();
    let err = reg.register(app("x", &[], "")).unwrap_err();
    assert!(err.contains("empty"));
}

#[test]
fn hostname_map_and_get_backend() {
    let mut reg = t32::new();
    reg.register(app("app1", &["foo.com", "www.foo.com"], "http://localhost:8000"))
        .unwrap();
    let map = reg.hostname_map();
    let foo = map.iter().find(|(h, _)| h == "foo.com").map(|(_, b)| b.clone());
    assert_eq!(foo, Some("http://localhost:8000".to_string()));
    assert_eq!(reg.get_backend(Some("foo.com"), "/"), Some("http://localhost:8000".into()));
    assert_eq!(reg.get_backend(Some("www.foo.com:443"), "/"), Some("http://localhost:8000".into()));
}

#[test]
fn hostname_collision_is_a_conflict() {
    let mut reg = t32::new();
    reg.register(app("app-a", &["shared.example.com"], "http://127.0.0.1:3000")).unwrap();
    let err = reg
        .register(app("app-b", &["Shared.Example.com"], "http://127.0.0.1:4000"))
        .unwrap_err();
    assert!(err.starts_with("conflict:"));
    assert_eq!(reg.list_apps().len(), 1);
    // self-update with the same hostname is allowed
    reg.register(app("app-a", &["shared.example.com", "new.example.com"], "http://127.0.0.1:3000/"))
        .unwrap();
    let apps = reg.list_apps();
    assert_eq!(apps.len(), 1);
    assert_eq!(apps[0].s47.len(), 2);
    assert_eq!(apps[0].s48, "http://127.0.0.1:3000");
}

#[test]
fn trailing_slashes_are_dropped_and_slash_only_is_empty() {
    let mut reg = t32::new();
    reg.register(app("a", &["a.test"], "http://127.0.0.1:1///")).unwrap();
    assert_eq!(reg.list_apps()[0].s48, "http://127.0.0.1:1");
    let err = reg.register(app("b", &["b.test"], "///")).unwrap_err();
    assert_eq!(err, "backend_url cannot be empty");
}

#[test]
fn wildcard_and_exact_routing() {
    let mut reg = t32::new();
    reg.register(app("wild", &["*.wildcard.test"], "http://127.0.0.1:7000")).unwrap();
    reg.register(app("exact", &["api.wildcard.test"], "http://127.0.0.1:7001")).unwrap();
    assert_eq!(
        reg.resolve_app(Some("sub.wildcard.test")),
        Some(("wild".to_string(), "http://127.0.0.1:7000".to_string()))
    );
    // exact match wins over the wildcard even though the wildcard came first
    assert_eq!(
        reg.resolve_app(Some("API.wildcard.test:8443")),
        Some(("exact".to_string(), "http://127.0.0.1:7001".to_string()))
    );
    assert_eq!(reg.resolve_app(Some("wildcard.test")), None);
    assert_eq!(reg.resolve_app(None), None);
    assert_eq!(reg.get_backend(Some("  "), "/"), None);
}

#[test]
fn unregister_removes_the_app() {
    let mut reg = t32::new();
    reg.register(app("one", &["one.test"], "http://127.0.0.1:1")).unwrap();
    reg.register(app("two", &["two.test"], "http://127.0.0.1:2")).unwrap();
    assert!(reg.unregister("one"));
    assert!(!reg.unregister("one"));
    assert_eq!(reg.get_backend(Some("one.test"), "/"), None);
    assert_eq!(reg.list_apps().len(), 1);
    assert_eq!(reg.list_apps()[0].s46, "two");
}

#[test]
fn later_registration_wins_in_hostname_map() {
    let data = t31 {
        apps: vec![
            app("a", &["dup.test", "a.test"], "http://a"),
            app("b", &["dup.test"], "http://b"),
        ],
    };
    let reg = t32::from_data(data);
    let map = reg.hostname_map();
    assert_eq!(map.len(), 2);
    let dup = map.iter().find(|(h, _)| h == "dup.test").map(|(_, b)| b.clone());
    assert_eq!(dup, Some("http://b".to_string()));
    // routing takes the first app in order
    assert_eq!(reg.get_backend(Some("dup.test"), "/"), Some("http://a".to_string()));
}

#[test]
fn data_dir_joins() {
    assert_eq!(data_dir("/srv/approuter"), "/srv/approuter/data");
    assert_eq!(data_dir("/srv/approuter/"), "/srv/approuter/data");
    assert_eq!(data_dir(""), "data");
}

#[test]
fn every_mapped_hostname_routes_to_its_backend() {
    let mut reg = t32::new();
    reg.register(app("a", &["a.io", "www.a.io", "*.apps.io"], "http://127.0.0.1:1")).unwrap();
    reg.register(app("b", &["b.io"], "http://127.0.0.1:2/")).unwrap();
    for (h, backend) in reg.hostname_map() {
        assert_eq!(reg.get_backend(Some(&h), "/"), Some(backend));
    }
}
