use approuter::cf_answer::{
    account_id_from_answer, answer_detail, free_api_items, ngrok_url_from_answer, purge_outcome,
    tailscale_url_from_status, zones_from_answer, answer_errors, answer_succeeded, api_outcome, cname_outcome,
    existing_record_from_answer, redirect_rules_from_answer, token_access_from_answer, tunnel_config_outcome,
    tunnel_token_from_answer, verify_from_answer, zone_id_from_answer, CnameWording,
};
use approuter::cf_body::{address_body, cname_body, ingress_body, purge_body, setting_body};

#[test]
fn zone_answers() {
    let ok = r#"{"success":true,"result":[{"id":"z1","account":{"id":"acc9"}}]}"#;
    assert_eq!(zone_id_from_answer("example.com", false, ok), Ok("z1".to_string()));
    assert_eq!(account_id_from_answer(ok), Ok("acc9".to_string()));
    let empty = r#"{"success":true,"result":[]}"#;
    assert_eq!(
        zone_id_from_answer("example.com", false, empty),
        Err("Zone example.com not found in Cloudflare".to_string())
    );
    assert_eq!(
        zone_id_from_answer("roguerepo.io", true, empty),
        Err("Zone roguerepo.io not found in Cloudflare account".to_string())
    );
    assert_eq!(account_id_from_answer(empty), Err("Could not get account_id from zone".to_string()));
    let failed = r#"{"success":false,"result":[]}"#;
    assert_eq!(zone_id_from_answer("x.io", false, failed), Err(format!("Zones API failed: {}", failed)));
    assert!(zone_id_from_answer("x.io", false, "not json").is_err());
    // a `result` object with a key "0" is not an array
    let object = r#"{"success":true,"result":{"0":{"id":"z1"}}}"#;
    assert!(zone_id_from_answer("x.io", false, object).is_err());
}

#[test]
fn record_lookup_answers() {
    assert_eq!(existing_record_from_answer(r#"{"result":[{"id":"r7"}]}"#), Ok(Some("r7".to_string())));
    assert_eq!(existing_record_from_answer(r#"{"result":[]}"#), Ok(None));
    assert_eq!(existing_record_from_answer(r#"{"result":[{"name":"x"}]}"#), Err("No record id".to_string()));
    assert!(existing_record_from_answer("<html>").is_err());
}

#[test]
fn cname_write_outcomes() {
    let ok = r#"{"success":true}"#;
    let bad = r#"{"success":false,"errors":[{"message":"a"},{"code":1},{"message":"b"}]}"#;
    assert_eq!(cname_outcome(CnameWording::PerAction, "a.io", true, ok), Ok(()));
    assert_eq!(
        cname_outcome(CnameWording::PerAction, "a.io", true, bad),
        Err(format!("DNS update a.io failed: {}", bad))
    );
    assert_eq!(
        cname_outcome(CnameWording::PerAction, "a.io", false, bad),
        Err(format!("DNS create a.io failed: {}", bad))
    );
    assert_eq!(cname_outcome(CnameWording::Plain, "a.io", true, bad), Err(format!("DNS a.io failed: {}", bad)));
    assert_eq!(cname_outcome(CnameWording::Detailed, "a.io", false, bad), Err("DNS create failed: a; b".to_string()));
}

#[test]
fn answer_fields() {
    assert!(answer_succeeded(r#"{"success":true}"#));
    assert!(!answer_succeeded(r#"{"success":"true"}"#));
    assert!(!answer_succeeded("garbage"));
    assert_eq!(
        answer_errors(r#"{"errors":[{"message":"x"},{"message":"y"}]}"#),
        Some(vec!["x".to_string(), "y".to_string()])
    );
    assert_eq!(answer_errors(r#"{"errors":"none"}"#), None);
    assert_eq!(answer_detail(r#"{"success":false}"#), r#"{"success":false}"#);
}

#[test]
fn api_call_outcomes() {
    assert_eq!(api_outcome(true, "200 OK", r#"{"success":true}"#, false), Ok(()));
    assert_eq!(
        api_outcome(false, "500 Internal Server Error", "oops", false),
        Err("Cloudflare API error 500 Internal Server Error: oops".to_string())
    );
    assert_eq!(
        api_outcome(false, "404 Not Found", "x", true),
        Err("Cloudflare DNS update failed 404 Not Found: x".to_string())
    );
    assert_eq!(
        api_outcome(true, "200 OK", r#"{"success":false,"errors":[{"message":"denied"}]}"#, false),
        Err("Cloudflare API failed: denied".to_string())
    );
    assert_eq!(
        tunnel_config_outcome(r#"{"success":false,"errors":[{"message":"bad"}]}"#),
        Err("Tunnel config update failed: bad".to_string())
    );
    assert_eq!(tunnel_config_outcome(r#"{"success":true}"#), Ok(()));
}

#[test]
fn tunnel_token_answers() {
    assert_eq!(tunnel_token_from_answer(true, "200 OK", r#"{"success":true,"result":"tok"}"#), Ok("tok".to_string()));
    assert_eq!(
        tunnel_token_from_answer(true, "200 OK", r#"{"success":true,"result":{"token":"t2"}}"#),
        Ok("t2".to_string())
    );
    assert_eq!(
        tunnel_token_from_answer(true, "200 OK", r#"{"success":true,"result":{}}"#),
        Err("Cloudflare token response missing result or result.token".to_string())
    );
    assert_eq!(token_access_from_answer(200, "200 OK", r#"{"success":true}"#), Ok(true));
    assert_eq!(token_access_from_answer(200, "200 OK", r#"{"success":false}"#), Ok(false));
    assert_eq!(token_access_from_answer(403, "403 Forbidden", "no"), Ok(false));
    assert_eq!(token_access_from_answer(500, "500 Internal Server Error", "x"), Err("500 Internal Server Error: x".to_string()));
}

#[test]
fn verify_answers() {
    let v = verify_from_answer(
        true,
        r#"{"success":true,"result":{"id":"abc","status":"active","expires_on":"2030-01-01"}}"#,
    );
    assert!(v.ok);
    assert_eq!((v.status.as_str(), v.id.as_str(), v.expires.as_str()), ("active", "abc", "2030-01-01"));
    let v = verify_from_answer(true, r#"{"success":true,"result":{"id":42}}"#);
    assert_eq!(v.id, "42");
    let v = verify_from_answer(false, "not json");
    assert!(!v.ok);
    assert_eq!(v.status, "error");
    assert_eq!(v.id, "");
}

#[test]
fn redirect_rule_answers() {
    let raw = r#"{"result":{"id":"rs1","rules":[{"expression":"http.host eq \"oakilydokily.com\""},{"expression":"other"},{}]}}"#;
    assert_eq!(redirect_rules_from_answer(raw), Ok(Some(("rs1".to_string(), vec![1, 2]))));
    assert_eq!(redirect_rules_from_answer(r#"{"result":null}"#), Ok(None));
    assert!(redirect_rules_from_answer("{").is_err());
}

#[test]
fn request_bodies_are_json() {
    let b = cname_body("www", "t.cfargotunnel.com");
    assert_eq!(b, r#"{"type":"CNAME","name":"www","content":"t.cfargotunnel.com","ttl":1,"proxied":true}"#);
    let v: serde_json::Value = serde_json::from_str(&cname_body("a\"b\\c\n", "x")).unwrap();
    assert_eq!(v["name"], "a\"b\\c\n");
    assert_eq!(address_body("1.2.3.4"), r#"{"type":"A","content":"1.2.3.4","ttl":300}"#);
    assert_eq!(address_body("::1"), r#"{"type":"AAAA","content":"::1","ttl":300}"#);
    let rules = vec![(Some("a.io".to_string()), "http://127.0.0.1:1".to_string()), (None, "http_status:404".to_string())];
    assert_eq!(
        ingress_body(&rules),
        r#"{"config":{"ingress":[{"hostname":"a.io","service":"http://127.0.0.1:1"},{"service":"http_status:404"}]}}"#
    );
    assert_eq!(ingress_body(&vec![]), r#"{"config":{"ingress":[]}}"#);
    assert_eq!(setting_body("on"), r#"{"value":"on"}"#);
    assert_eq!(purge_body(), r#"{"purge_everything":true}"#);
}

#[test]
fn zone_lists_and_purges() {
    let raw = r#"{"result":[{"id":"z1","name":"a.io"},{"id":"z2"},{"id":"z3","name":"c.io"}]}"#;
    assert_eq!(
        zones_from_answer(raw),
        Ok(vec![("z1".to_string(), "a.io".to_string()), ("z3".to_string(), "c.io".to_string())])
    );
    assert_eq!(zones_from_answer(r#"{"result":null}"#), Ok(vec![]));
    let e = zones_from_answer("nope").unwrap_err();
    assert_eq!(e, serde_json::from_str::<serde_json::Value>("nope").unwrap_err().to_string());
    assert_eq!(purge_outcome(r#"{"success":true}"#), Ok(true));
    assert_eq!(purge_outcome(r#"{"success":false}"#), Ok(false));
    assert!(purge_outcome("").is_err());
}

#[test]
fn not_json_answers_carry_the_parser_error() {
    let e = serde_json::from_str::<serde_json::Value>("<html>").unwrap_err().to_string();
    assert_eq!(zone_id_from_answer("x.io", false, "<html>"), Err(e.clone()));
    assert_eq!(api_outcome(true, "200 OK", "<html>", false), Err(e.clone()));
    assert_eq!(cname_outcome(CnameWording::Plain, "x.io", true, "<html>"), Err(e));
}

#[test]
fn provider_urls_from_answers() {
    assert_eq!(
        ngrok_url_from_answer(r#"{"tunnels":[{"public_url":"https://x.ngrok.app"},{"public_url":"y"}]}"#),
        Some("https://x.ngrok.app".to_string())
    );
    assert_eq!(ngrok_url_from_answer(r#"{"tunnels":[]}"#), None);
    assert_eq!(ngrok_url_from_answer(r#"{"tunnels":{"0":{"public_url":"z"}}}"#), None);
    assert_eq!(ngrok_url_from_answer("down"), None);
    assert_eq!(
        tailscale_url_from_status(r#"{"Self":{"DNSName":"box.tail1234.ts.net."}}"#),
        Some("https://box.tail1234.ts.net".to_string())
    );
    assert_eq!(tailscale_url_from_status(r#"{"Self":{}}"#), None);
}

#[test]
fn free_google_api_items() {
    let raw = r#"{"items":[{"name":"gmail"},{"name":"maps"},{"id":"x"},{"name":"drive"}]}"#;
    assert_eq!(free_api_items(raw), Ok(Some(vec![0, 3])));
    assert_eq!(free_api_items(r#"{"kind":"list"}"#), Ok(None));
    assert!(free_api_items("{").is_err());
}
