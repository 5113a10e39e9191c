//! Cloudflare-side decisions of the router: the tunnel target, the zone a
//! hostname belongs to, DNS record names and types, and the tunnel ingress
//! rule list. Answers are read in `cf_answer` and request bodies written in
//! `cf_body`; the HTTP calls themselves are made outside the library.

use vstd::prelude::*;

use crate::registry::strs;
use crate::text::{
    chars_eq, contains_char, dec, dec_chars, ends_with, ends_with_seq, extend_chars, extend_str,
    join_seq, slice_chars, split_chars, split_seq, str_chars, string_from, views,
};

verus! {

/// The default Cloudflare tunnel id.
pub fn default_tunnel_id() -> (r: &'static str)
    ensures
        r@ == "b12525df-6971-4c47-9a0d-61ee57a5cbd5"@,
{
    "b12525df-6971-4c47-9a0d-61ee57a5cbd5"
}

/// Tunnel target (`<tunnel id>.cfargotunnel.com`) that hostnames CNAME to.
pub fn c91() -> (r: &'static str)
    ensures
        r@ == "b12525df-6971-4c47-9a0d-61ee57a5cbd5.cfargotunnel.com"@,
{
    "b12525df-6971-4c47-9a0d-61ee57a5cbd5.cfargotunnel.com"
}

/// The last two dot-separated labels, joined with a dot.
pub open spec fn last_two_labels(parts: Seq<Seq<char>>) -> Seq<char> {
    parts[parts.len() - 2] + "."@ + parts[parts.len() - 1]
}

/// Zone of a hostname: `www.example.com` → `example.com`; a name with at
/// most two labels is its own zone.
pub open spec fn zone_of(host: Seq<char>) -> Seq<char> {
    let parts = split_seq(host, '.');
    if parts.len() <= 2 {
        host
    } else {
        last_two_labels(parts)
    }
}

pub(crate) fn join_last_two(parts: &Vec<Vec<char>>) -> (r: String)
    requires
        parts.len() >= 2,
    ensures
        r@ == last_two_labels(views(parts@)),
{
    let n = parts.len();
    let mut out: Vec<char> = Vec::new();
    extend_chars(&mut out, &parts[n - 2]);
    extend_str(&mut out, ".");
    extend_chars(&mut out, &parts[n - 1]);
    string_from(&out)
}

/// Zone of a hostname (`f94`).
pub fn f94(p0: &str) -> (r: String)
    ensures
        r@ == zone_of(p0@),
{
    let v = str_chars(p0);
    let parts = split_chars(&v, '.');
    if parts.len() <= 2 {
        string_from(&v)
    } else {
        join_last_two(&parts)
    }
}

/// Name of the CNAME record for `host` inside `zone`: `@` for the apex,
/// otherwise the labels before `.zone`.
pub open spec fn record_name_of(host: Seq<char>, zone: Seq<char>) -> Seq<char> {
    let dotted = seq!['.'] + zone;
    if host == zone || host == zone.push('.') {
        "@"@
    } else if ends_with_seq(host, dotted) {
        host.subrange(0, host.len() - dotted.len())
    } else {
        "@"@
    }
}

pub fn cname_record_name(host: &str, zone: &str) -> (r: String)
    ensures
        r@ == record_name_of(host@, zone@),
{
    let h = str_chars(host);
    let z = str_chars(zone);
    let mut zdot = z.clone();
    zdot.push('.');
    let mut dotted: Vec<char> = Vec::new();
    dotted.push('.');
    extend_chars(&mut dotted, &z);
    if chars_eq(&h, &z) || chars_eq(&h, &zdot) {
        return "@".to_string();
    }
    if ends_with(&h, &dotted) {
        string_from(&slice_chars(&h, 0, h.len() - dotted.len()))
    } else {
        "@".to_string()
    }
}

/// DNS record type for an address: `AAAA` for IPv6 (it has a `:`), else `A`.
pub fn dns_record_type(content: &str) -> (r: &'static str)
    ensures
        r@ == (if content@.contains(':') {
            "AAAA"@
        } else {
            "A"@
        }),
{
    if contains_char(&str_chars(content), ':') {
        "AAAA"
    } else {
        "A"
    }
}

/// The local service the tunnel forwards to.
pub fn tunnel_service(port: u16) -> (r: String)
    ensures
        r@ == "http://127.0.0.1:"@ + dec(port as nat),
{
    let mut out: Vec<char> = Vec::new();
    extend_str(&mut out, "http://127.0.0.1:");
    extend_chars(&mut out, &dec_chars(port as u64));
    string_from(&out)
}

/// Tunnel ingress rules: every hostname to the local service, then a
/// catch-all answering 404.
pub open spec fn ingress_of(hosts: Seq<Seq<char>>, service: Seq<char>) -> Seq<(Option<Seq<char>>, Seq<char>)> {
    hosts.map_values(|h: Seq<char>| (Some(h), service)) + seq![(None::<Seq<char>>, "http_status:404"@)]
}

pub open spec fn rule_views(v: Seq<(Option<String>, String)>) -> Seq<(Option<Seq<char>>, Seq<char>)> {
    v.map_values(
        |r: (Option<String>, String)|
            (
                match r.0 {
                    Some(h) => Some(h@),
                    None => None,
                },
                r.1@,
            ),
    )
}

/// (hostname, service) ingress rules for the tunnel configuration.
pub fn ingress_rules(hostnames: &Vec<String>, port: u16) -> (r: Vec<(Option<String>, String)>)
    ensures
        rule_views(r@) == ingress_of(strs(hostnames@), "http://127.0.0.1:"@ + dec(port as nat)),
{
    let service = tunnel_service(port);
    let ghost hs = strs(hostnames@);
    let mut out: Vec<(Option<String>, String)> = Vec::new();
    let mut i: usize = 0;
    while i < hostnames.len()
        invariant
            i <= hostnames.len(),
            hs == strs(hostnames@),
            rule_views(out@) == hs.take(i as int).map_values(|h: Seq<char>| (Some(h), service@)),
        decreases hostnames.len() - i,
    {
        let ghost before = out@;
        let h = hostnames[i].clone();
        let sv = service.clone();
        let ghost hv = h@;
        out.push((Some(h), sv));
        assert(rule_views(out@) =~= rule_views(before).push((Some(hv), service@)));
        assert(hs.take(i + 1) =~= hs.take(i as int).push(hv));
        i = i + 1;
        assert(rule_views(out@) =~= hs.take(i as int).map_values(|h: Seq<char>| (Some(h), service@)));
    }
    let ghost before = out@;
    out.push((None, "http_status:404".to_string()));
    assert(hs.take(hs.len() as int) =~= hs);
    assert(rule_views(out@) =~= ingress_of(hs, service@));
    out
}

/// Detail text of a failed API call: the error messages joined with `; `,
/// or the raw response body when the answer carries no error list.
pub fn failure_detail(messages: Option<Vec<String>>, text: &str) -> (r: String)
    ensures
        r@ == (match messages {
            Some(m) => join_seq(strs(m@), "; "@),
            None => text@,
        }),
{
    match messages {
        Some(m) => {
            let ghost ms = strs(m@);
            let mut out: Vec<char> = Vec::new();
            let mut i: usize = 0;
            while i < m.len()
                invariant
                    i <= m.len(),
                    ms == strs(m@),
                    out@ == join_seq(ms.take(i as int), "; "@),
                decreases m.len() - i,
            {
                let ghost prev = ms.take(i as int);
                assert(ms.take(i + 1).drop_last() =~= prev);
                assert(ms.take(i + 1).last() == m@[i as int]@);
                if i > 0 {
                    extend_str(&mut out, "; ");
                }
                extend_str(&mut out, m[i].as_str());
                i = i + 1;
                assert(out@ =~= join_seq(ms.take(i as int), "; "@));
            }
            assert(ms.take(ms.len() as int) =~= ms);
            string_from(&out)
        },
        None => text.to_string(),
    }
}

/// Outcome of a token verification.
#[derive(Debug)]
pub struct VerifyResult {
    pub ok: bool,
    pub status: String,
    pub id: String,
    pub expires: String,
}

/// The verification outcome from the HTTP status class and the answer's
/// `success`, `result.status`, `result.id` and `result.expires_on` fields
/// (`None` when absent): valid only when both the call and the answer say
/// so; the status defaults to `active` or `error` by the HTTP status.
pub fn verify_result(
    http_ok: bool,
    success: Option<bool>,
    status: Option<String>,
    id: Option<String>,
    expires: Option<String>,
) -> (r: VerifyResult)
    ensures
        r.ok == (http_ok && success == Some(true)),
        r.status@ == (match status {
            Some(s) => s@,
            None => if http_ok {
                "active"@
            } else {
                "error"@
            },
        }),
        r.id@ == (match id {
            Some(s) => s@,
            None => Seq::<char>::empty(),
        }),
        r.expires@ == (match expires {
            Some(s) => s@,
            None => Seq::<char>::empty(),
        }),
{
    let ok = http_ok && match success {
        Some(b) => b,
        None => false,
    };
    let status = match status {
        Some(s) => s,
        None => if http_ok {
            "active".to_string()
        } else {
            "error".to_string()
        },
    };
    let id = match id {
        Some(s) => s,
        None => String::new(),
    };
    let expires = match expires {
        Some(s) => s,
        None => String::new(),
    };
    VerifyResult { ok, status, id, expires }
}

/// Whether a token may fetch the tunnel token, from the HTTP status of the
/// token request and the `success` field of a 2xx answer: a 2xx answer
/// decides by `success`, 401/403 mean no, anything else is an error (`None`).
pub fn tunnel_token_access(http_status: u16, success: Option<bool>) -> (r: Option<bool>)
    ensures
        200 <= http_status < 300 ==> r == Some(success == Some(true)),
        (http_status == 401 || http_status == 403) ==> r == Some(false),
        !(200 <= http_status < 300) && http_status != 401 && http_status != 403 ==> r is None,
{
    if 200 <= http_status && http_status < 300 {
        Some(
            match success {
                Some(b) => b,
                None => false,
            },
        )
    } else if http_status == 403 || http_status == 401 {
        Some(false)
    } else {
        None
    }
}

// ---------------------------------------------------------------------------
// Laws
// ---------------------------------------------------------------------------

/// A record name other than the apex, followed by `.zone`, gives back the
/// hostname.
pub proof fn law_record_name_rebuilds_host(host: Seq<char>, zone: Seq<char>)
    requires
        record_name_of(host, zone) != "@"@,
    ensures
        record_name_of(host, zone) + seq!['.'] + zone == host,
{
    let dotted = seq!['.'] + zone;
    let r = host.subrange(0, host.len() - dotted.len());
    assert(r + dotted =~= host);
    assert(r + seq!['.'] + zone =~= r + dotted);
}

/// Hostnames of the bundled products that the tunnel serves.
pub open spec fn bundled_hostnames() -> Seq<Seq<char>> {
    seq![
        "cochranblock.org"@, "www.cochranblock.org"@, "roguerepo.io"@, "www.roguerepo.io"@,
        "oakilydokily.com"@, "www.oakilydokily.com"@, "ronin-sites.pro"@, "www.ronin-sites.pro"@,
        "*.ronin-sites.pro"@,
    ]
}

/// Tunnel ingress for the bundled products: each of their hostnames to the
/// local service, then the 404 catch-all.
pub fn bundled_ingress(port: u16) -> (r: Vec<(Option<String>, String)>)
    ensures
        rule_views(r@) == ingress_of(bundled_hostnames(), "http://127.0.0.1:"@ + dec(port as nat)),
{
    let hosts: Vec<String> = vec![
        "cochranblock.org".to_string(), "www.cochranblock.org".to_string(), "roguerepo.io".to_string(),
        "www.roguerepo.io".to_string(), "oakilydokily.com".to_string(), "www.oakilydokily.com".to_string(),
        "ronin-sites.pro".to_string(), "www.ronin-sites.pro".to_string(), "*.ronin-sites.pro".to_string(),
    ];
    assert(strs(hosts@) =~= bundled_hostnames());
    ingress_rules(&hosts, port)
}

/// Redirect rules kept when cleaning up the product's redirect loop: those
/// whose expression does not mention it.
pub fn keeps_redirect_rule(expression: &str) -> (r: bool)
    ensures
        r == !crate::text::contains_seq(expression@, "oakilydokily"@),
{
    !crate::text::contains(&str_chars(expression), &str_chars("oakilydokily"))
}

/// Zone settings applied by the product setup: flexible SSL, always HTTPS.
pub fn product_zone_settings() -> (r: Vec<(&'static str, &'static str)>)
    ensures
        r@.len() == 2,
        r@[0].0@ == "ssl"@ && r@[0].1@ == "flexible"@,
        r@[1].0@ == "always_use_https"@ && r@[1].1@ == "on"@,
{
    vec![("ssl", "flexible"), ("always_use_https", "on")]
}

/// Record name used for a product hostname: `@` for the apex, `www` else.
pub fn apex_or_www(name: &str, apex: &str) -> (r: &'static str)
    ensures
        r@ == (if name@ == apex@ {
            "@"@
        } else {
            "www"@
        }),
{
    if chars_eq(&str_chars(name), &str_chars(apex)) {
        "@"
    } else {
        "www"
    }
}

/// How a CNAME is written: update the existing record, or create one.
pub fn cname_write(base: &str, zone_id: &str, existing_id: Option<&str>) -> (r: (&'static str, String))
    ensures
        match existing_id {
            Some(id) => r.0@ == "PUT"@ && r.1@ == base@ + "/client/v4/zones/"@ + zone_id@ + "/dns_records/"@ + id@,
            None => r.0@ == "POST"@ && r.1@ == base@ + "/client/v4/zones/"@ + zone_id@ + "/dns_records"@,
        },
{
    let mut out: Vec<char> = Vec::new();
    extend_str(&mut out, base);
    extend_str(&mut out, "/client/v4/zones/");
    extend_str(&mut out, zone_id);
    extend_str(&mut out, "/dns_records");
    match existing_id {
        Some(id) => {
            extend_str(&mut out, "/");
            extend_str(&mut out, id);
            let r = string_from(&out);
            proof {
                reveal_strlit("/dns_records/");
                reveal_strlit("/dns_records");
                reveal_strlit("/");
            }
            assert(r@ =~= base@ + "/client/v4/zones/"@ + zone_id@ + "/dns_records/"@ + id@);
            ("PUT", r)
        },
        None => ("POST", string_from(&out)),
    }
}

} // verus!
