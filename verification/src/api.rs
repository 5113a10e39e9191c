//! Decisions of the router's HTTP API: who may call the mutating
//! endpoints, what a registration request registers, which products the
//! status page checks and how it sums them up, and which Google APIs count
//! as free. Handlers and I/O live outside the library.

use vstd::prelude::*;

use crate::proxy::{opt_str, t29};
use crate::registry::{app_views, clone_strings, strs, t30, AppView};
use crate::ranking::count_true;
use crate::text::{chars_eq, extend_str, slice_chars, starts_with, starts_with_seq, str_chars, string_from};

verus! {

/// DNS update request: zone id, record id, new content.
#[allow(non_camel_case_types)]
#[derive(Debug)]
pub struct t34 {
    pub s6: String,
    pub s7: String,
    pub s8: String,
}

/// Registration request: app id, hostnames, backend URL.
#[allow(non_camel_case_types)]
#[derive(Debug)]
pub struct t33 {
    pub s46: String,
    pub s47: Vec<String>,
    pub s48: String,
}

impl t33 {
    /// The app a registration request describes.
    pub fn into_app(self) -> (r: t30)
        ensures
            r@ == (self.s46@, strs(self.s47@), self.s48@),
    {
        t30 { s46: self.s46, s47: self.s47, s48: self.s48 }
    }
}

/// Query of the Google API listing: only free APIs, only preferred versions.
#[allow(non_camel_case_types)]
#[derive(Debug, Clone, Copy, PartialEq, Eq, Structural)]
pub struct t36 {
    pub free_only: bool,
    pub preferred: bool,
}

/// The token of an `Authorization: Bearer <token>` header (empty when the
/// header is missing or has another scheme).
pub open spec fn bearer_token(auth: Option<Seq<char>>) -> Seq<char> {
    match auth {
        Some(a) => if starts_with_seq(a, "Bearer "@) {
            a.subrange(7, a.len() as int)
        } else {
            Seq::empty()
        },
        None => Seq::empty(),
    }
}

/// Whether a request with `Authorization` header `auth` passes the key check
/// for the configured key `expected`.
pub open spec fn key_accepted(expected: Option<Seq<char>>, auth: Option<Seq<char>>) -> bool {
    match expected {
        None => true,
        Some(k) => k.len() == 0 || bearer_token(auth) == k,
    }
}

/// API key check for the mutating endpoints (`f139`). With no configured
/// key (unset or empty) every request passes; otherwise the request must
/// present exactly that key as a bearer token.
pub fn f139(expected_key: Option<&str>, authorization: Option<&str>) -> (authorized: bool)
    ensures
        authorized == key_accepted(opt_str(expected_key), opt_str(authorization)),
{
    let k = match expected_key {
        None => return true,
        Some(k) => str_chars(k),
    };
    if k.len() == 0 {
        return true;
    }
    let provided: Vec<char> = match authorization {
        Some(a) => {
            let av = str_chars(a);
            let prefix = str_chars("Bearer ");
            proof {
                reveal_strlit("Bearer ");
            }
            if starts_with(&av, &prefix) {
                slice_chars(&av, 7, av.len())
            } else {
                Vec::new()
            }
        },
        None => Vec::new(),
    };
    chars_eq(&provided, &k)
}

/// (product, backend URL, hostnames) of one product on the status page.
pub type ProductView = (Seq<char>, Seq<char>, Seq<Seq<char>>);

pub open spec fn or_default(hosts: Seq<Seq<char>>, fallback: Seq<char>) -> Seq<Seq<char>> {
    if hosts.len() == 0 {
        seq![fallback]
    } else {
        hosts
    }
}

pub open spec fn legacy_ids() -> Seq<Seq<char>> {
    seq!["cochranblock"@, "oakilydokily"@, "rogue-repo"@, "ronin-sites"@]
}

/// The bundled products, always listed, with their default hostnames when
/// none are configured.
pub open spec fn legacy_products(c: t29) -> Seq<ProductView> {
    seq![
        ("cochranblock"@, c.s35@, seq!["cochranblock.org"@, "www.cochranblock.org"@]),
        ("oakilydokily"@, c.s36@, or_default(strs(c.s37@), "oakilydokily.com"@)),
        ("rogue-repo"@, c.s42@, or_default(strs(c.s43@), "roguerepo.io"@)),
        ("ronin-sites"@, c.s49@, or_default(strs(c.s50@), "ronin-sites.pro"@)),
    ]
}

/// Registered apps that are not one of the bundled products.
pub open spec fn extra_products(apps: Seq<AppView>) -> Seq<ProductView>
    decreases apps.len(),
{
    if apps.len() == 0 {
        Seq::empty()
    } else {
        let rest = extra_products(apps.drop_last());
        let a = apps.last();
        if legacy_ids().contains(a.0) {
            rest
        } else {
            rest.push((a.0, a.2, a.1))
        }
    }
}

pub open spec fn product_views(v: Seq<(String, String, Vec<String>)>) -> Seq<ProductView> {
    v.map_values(|p: (String, String, Vec<String>)| (p.0@, p.1@, strs(p.2@)))
}

fn hosts_or_default(hosts: &Vec<String>, fallback: &str) -> (r: Vec<String>)
    ensures
        strs(r@) == or_default(strs(hosts@), fallback@),
{
    if hosts.len() == 0 {
        let mut v: Vec<String> = Vec::new();
        v.push(fallback.to_string());
        assert(strs(v@) =~= seq![fallback@]);
        v
    } else {
        clone_strings(hosts)
    }
}

fn is_legacy_id(id: &String) -> (r: bool)
    ensures
        r == legacy_ids().contains(id@),
{
    let v = str_chars(id.as_str());
    let r = chars_eq(&v, &str_chars("cochranblock")) || chars_eq(&v, &str_chars("oakilydokily"))
        || chars_eq(&v, &str_chars("rogue-repo")) || chars_eq(&v, &str_chars("ronin-sites"));
    proof {
        let l = legacy_ids();
        if l.contains(id@) {
            let i = choose|i: int| 0 <= i < l.len() && l[i] == id@;
            assert(i == 0 || i == 1 || i == 2 || i == 3);
        }
        if r {
            if v@ == "cochranblock"@ {
                assert(l[0] == id@);
            } else if v@ == "oakilydokily"@ {
                assert(l[1] == id@);
            } else if v@ == "rogue-repo"@ {
                assert(l[2] == id@);
            } else {
                assert(l[3] == id@);
            }
        }
    }
    r
}

/// Products the status page checks: the bundled ones, then registered apps
/// that are not bundled products, in registration order.
pub fn status_products(legacy: &t29, apps: &Vec<t30>) -> (r: Vec<(String, String, Vec<String>)>)
    ensures
        product_views(r@) == legacy_products(*legacy) + extra_products(app_views(apps@)),
{
    let mut out: Vec<(String, String, Vec<String>)> = Vec::new();
    let mut cb: Vec<String> = Vec::new();
    cb.push("cochranblock.org".to_string());
    cb.push("www.cochranblock.org".to_string());
    out.push(("cochranblock".to_string(), legacy.s35.clone(), cb));
    out.push(("oakilydokily".to_string(), legacy.s36.clone(), hosts_or_default(&legacy.s37, "oakilydokily.com")));
    out.push(("rogue-repo".to_string(), legacy.s42.clone(), hosts_or_default(&legacy.s43, "roguerepo.io")));
    out.push(("ronin-sites".to_string(), legacy.s49.clone(), hosts_or_default(&legacy.s50, "ronin-sites.pro")));
    assert(strs(out@[0].2@) =~= seq!["cochranblock.org"@, "www.cochranblock.org"@]);
    assert(product_views(out@) =~= legacy_products(*legacy));
    let ghost v = app_views(apps@);
    let ghost base = legacy_products(*legacy);
    let mut i: usize = 0;
    while i < apps.len()
        invariant
            i <= apps.len(),
            v == app_views(apps@),
            base == legacy_products(*legacy),
            product_views(out@) == base + extra_products(v.take(i as int)),
        decreases apps.len() - i,
    {
        let a = &apps[i];
        assert(v[i as int] == a@);
        assert(v.take(i + 1).drop_last() =~= v.take(i as int));
        assert(v.take(i + 1).last() == a@);
        if !is_legacy_id(&a.s46) {
            let ghost before = out@;
            let entry = (a.s46.clone(), a.s48.clone(), clone_strings(&a.s47));
            let ghost ev = (entry.0@, entry.1@, strs(entry.2@));
            out.push(entry);
            assert(product_views(out@) =~= product_views(before).push(ev));
        }
        i = i + 1;
    }
    assert(v.take(v.len() as int) =~= v);
    out
}

/// (total, healthy, unhealthy) over the products' health results.
pub fn status_summary(healthy: &Vec<bool>) -> (r: (usize, usize, usize))
    ensures
        r.0 == healthy@.len(),
        r.1 == count_true(healthy@),
        r.2 == healthy@.len() - count_true(healthy@),
{
    let mut n: usize = 0;
    let mut i: usize = 0;
    while i < healthy.len()
        invariant
            i <= healthy.len(),
            n == count_true(healthy@.take(i as int)),
            n <= i,
        decreases healthy.len() - i,
    {
        assert(healthy@.take(i + 1).drop_last() =~= healthy@.take(i as int));
        if healthy[i] {
            n = n + 1;
        }
        i = i + 1;
    }
    assert(healthy@.take(healthy@.len() as int) =~= healthy@);
    (healthy.len(), n, healthy.len() - n)
}

/// `<backend>/health`, the URL the status page probes.
pub fn health_url(backend: &str) -> (r: String)
    ensures
        r@ == backend@ + "/health"@,
{
    let mut out: Vec<char> = Vec::new();
    extend_str(&mut out, backend);
    extend_str(&mut out, "/health");
    string_from(&out)
}

/// Google APIs listed when only free ones are asked for.
pub open spec fn free_google_api(n: Seq<char>) -> bool {
    ||| n == "discovery"@
    ||| n == "admin"@
    ||| n == "gmail"@
    ||| n == "calendar"@
    ||| n == "drive"@
    ||| n == "vision"@
    ||| n == "language"@
    ||| n == "speech"@
    ||| n == "videointelligence"@
    ||| n == "storage"@
    ||| n == "searchconsole"@
    ||| n == "firestore"@
    ||| n == "pubsub"@
    ||| n == "secretmanager"@
    ||| n == "cloudbuild"@
    ||| n == "bigquery"@
    ||| n == "appengine"@
    ||| n == "run"@
    ||| n == "functions"@
    ||| n == "recaptchaenterprise"@
    ||| n == "workflows"@
    ||| n == "webrisk"@
    ||| n == "logging"@
    ||| n == "monitoring"@
}

pub fn is_free_google_api(name: &str) -> (r: bool)
    ensures
        r == free_google_api(name@),
{
    let v = str_chars(name);
    chars_eq(&v, &str_chars("discovery"))
        || chars_eq(&v, &str_chars("admin"))
        || chars_eq(&v, &str_chars("gmail"))
        || chars_eq(&v, &str_chars("calendar"))
        || chars_eq(&v, &str_chars("drive"))
        || chars_eq(&v, &str_chars("vision"))
        || chars_eq(&v, &str_chars("language"))
        || chars_eq(&v, &str_chars("speech"))
        || chars_eq(&v, &str_chars("videointelligence"))
        || chars_eq(&v, &str_chars("storage"))
        || chars_eq(&v, &str_chars("searchconsole"))
        || chars_eq(&v, &str_chars("firestore"))
        || chars_eq(&v, &str_chars("pubsub"))
        || chars_eq(&v, &str_chars("secretmanager"))
        || chars_eq(&v, &str_chars("cloudbuild"))
        || chars_eq(&v, &str_chars("bigquery"))
        || chars_eq(&v, &str_chars("appengine"))
        || chars_eq(&v, &str_chars("run"))
        || chars_eq(&v, &str_chars("functions"))
        || chars_eq(&v, &str_chars("recaptchaenterprise"))
        || chars_eq(&v, &str_chars("workflows"))
        || chars_eq(&v, &str_chars("webrisk"))
        || chars_eq(&v, &str_chars("logging"))
        || chars_eq(&v, &str_chars("monitoring"))
}

/// The Google Discovery listing URL.
pub fn discovery_url(preferred: bool) -> (r: &'static str)
    ensures
        r@ == (if preferred {
            "https://discovery.googleapis.com/discovery/v1/apis?preferred=true"@
        } else {
            "https://discovery.googleapis.com/discovery/v1/apis"@
        }),
{
    if preferred {
        "https://discovery.googleapis.com/discovery/v1/apis?preferred=true"
    } else {
        "https://discovery.googleapis.com/discovery/v1/apis"
    }
}

// ---------------------------------------------------------------------------
// Laws
// ---------------------------------------------------------------------------

/// A request presenting the configured key as a bearer token is let
/// through.
pub proof fn law_configured_key_is_accepted(k: Seq<char>)
    ensures
        bearer_token(Some("Bearer "@ + k)) == k,
{
    reveal_strlit("Bearer ");
    let a = "Bearer "@ + k;
    assert(a.subrange(0, 7) =~= "Bearer "@);
    assert(a.subrange(7, a.len() as int) =~= k);
}

/// The key check: with no key configured (or an empty one) every request
/// passes; otherwise a request passes exactly when it presents
/// `Bearer <key>` with that key, and a request without the header, or with
/// another scheme, is refused.
pub proof fn law_key_check(k: Seq<char>, x: Seq<char>, a: Seq<char>)
    ensures
        key_accepted(None, Some(a)),
        key_accepted(None, None),
        key_accepted(Some(k), Some("Bearer "@ + x)) <==> (k.len() == 0 || x == k),
        k.len() > 0 ==> !key_accepted(Some(k), None),
        k.len() > 0 && !starts_with_seq(a, "Bearer "@) ==> !key_accepted(Some(k), Some(a)),
{
    law_configured_key_is_accepted(x);
}

} // verus!
