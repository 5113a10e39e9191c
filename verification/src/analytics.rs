//! Server-side visitor analytics from Cloudflare geo headers: one event per
//! proxied request, kept in a bounded in-memory log, aggregated per site on
//! demand. Writing and reading the daily `events_<day>.jsonl` file is done
//! by the caller.

use vstd::prelude::*;

use sha2::Digest;

use crate::clock::now_secs;
use crate::metrics_catalog::{bounded, latest_first, push_bounded};
use crate::registry::{first_where, join_path, lemma_first_where, lemma_first_where_unique};
use crate::text::{
    before, before_char, contains, contains_char, contains_seq, dec, dec_chars, ends_with,
    ends_with_seq, extend_chars, extend_str, str_chars, string_from, to_lowercase, to_string,
    unicode_lowercase,
};

verus! {

pub const MAX_EVENTS_IN_MEMORY: usize = 100_000;

/// Every this many recorded events the log is written to disk.
pub const FLUSH_EVERY: usize = 100;

/// One request event captured from Cloudflare headers.
#[allow(non_camel_case_types)]
#[derive(Debug)]
pub struct t40 {
    pub ts: u64,
    pub host: String,
    pub path: String,
    pub method: String,
    pub status: u16,
    pub duration_ms: u64,
    pub country: String,
    pub region: String,
    pub region_code: String,
    pub city: String,
    pub timezone: String,
    pub ip_hash: String,
    pub ua_family: String,
    pub is_bot: bool,
}

impl Clone for t40 {
    fn clone(&self) -> (r: t40)
        ensures
            r == *self,
    {
        t40 {
            ts: self.ts,
            host: self.host.clone(),
            path: self.path.clone(),
            method: self.method.clone(),
            status: self.status,
            duration_ms: self.duration_ms,
            country: self.country.clone(),
            region: self.region.clone(),
            region_code: self.region_code.clone(),
            city: self.city.clone(),
            timezone: self.timezone.clone(),
            ip_hash: self.ip_hash.clone(),
            ua_family: self.ua_family.clone(),
            is_bot: self.is_bot,
        }
    }
}

// ---------------------------------------------------------------------------
// User-agent classification
// ---------------------------------------------------------------------------

pub open spec fn has(ua: Seq<char>, n: Seq<char>) -> bool {
    contains_seq(ua, n)
}

/// Browser family of a user agent.
pub open spec fn ua_family_of(ua: Seq<char>) -> Seq<char> {
    if has(ua, "Edg/"@) {
        "Edge"@
    } else if has(ua, "CriOS"@) {
        "Chrome iOS"@
    } else if has(ua, "Chrome/"@) && has(ua, "Mobile"@) {
        "Chrome Mobile"@
    } else if has(ua, "Chrome/"@) {
        "Chrome"@
    } else if has(ua, "Safari/"@) && has(ua, "iPhone"@) {
        "Safari iPhone"@
    } else if has(ua, "Safari/"@) && has(ua, "iPad"@) {
        "Safari iPad"@
    } else if has(ua, "Safari/"@) && has(ua, "Macintosh"@) {
        "Safari Mac"@
    } else if has(ua, "Firefox/"@) {
        "Firefox"@
    } else if has(ua, "curl/"@) {
        "curl"@
    } else if ua.len() == 0 {
        "unknown"@
    } else {
        "other"@
    }
}

fn has_exec(ua: &Vec<char>, n: &str) -> (r: bool)
    ensures
        r == has(ua@, n@),
{
    contains(ua, &str_chars(n))
}

/// Browser family of a user agent.
pub fn classify_ua(ua: &str) -> (r: String)
    ensures
        r@ == ua_family_of(ua@),
{
    let u = str_chars(ua);
    let s = if has_exec(&u, "Edg/") {
        "Edge"
    } else if has_exec(&u, "CriOS") {
        "Chrome iOS"
    } else if has_exec(&u, "Chrome/") && has_exec(&u, "Mobile") {
        "Chrome Mobile"
    } else if has_exec(&u, "Chrome/") {
        "Chrome"
    } else if has_exec(&u, "Safari/") && has_exec(&u, "iPhone") {
        "Safari iPhone"
    } else if has_exec(&u, "Safari/") && has_exec(&u, "iPad") {
        "Safari iPad"
    } else if has_exec(&u, "Safari/") && has_exec(&u, "Macintosh") {
        "Safari Mac"
    } else if has_exec(&u, "Firefox/") {
        "Firefox"
    } else if has_exec(&u, "curl/") {
        "curl"
    } else if u.len() == 0 {
        "unknown"
    } else {
        "other"
    };
    to_string(s)
}

/// Bot markers, looked for in the lower-cased user agent.
pub open spec fn bot_like(l: Seq<char>) -> bool {
    ||| has(l, "bot"@)
    ||| has(l, "spider"@)
    ||| has(l, "crawl"@)
    ||| has(l, "curl/"@)
    ||| has(l, "python"@)
    ||| has(l, "go-http"@)
    ||| has(l, "wget"@)
    ||| has(l, "scanner"@)
    ||| has(l, "semrush"@)
    ||| has(l, "ahrefs"@)
    ||| has(l, "yandex"@)
    ||| has(l, "headlesschrome"@)
    ||| has(l, "phantomjs"@)
    ||| l.len() == 0
}

/// Whether an already lower-cased user agent looks like a bot.
pub fn detect_bot_lower(l: &str) -> (r: bool)
    ensures
        r == bot_like(l@),
{
    let v = str_chars(l);
    has_exec(&v, "bot") || has_exec(&v, "spider") || has_exec(&v, "crawl") || has_exec(&v, "curl/")
        || has_exec(&v, "python") || has_exec(&v, "go-http") || has_exec(&v, "wget") || has_exec(
        &v,
        "scanner",
    ) || has_exec(&v, "semrush") || has_exec(&v, "ahrefs") || has_exec(&v, "yandex") || has_exec(
        &v,
        "headlesschrome",
    ) || has_exec(&v, "phantomjs") || v.len() == 0
}

/// Whether a user agent looks like a bot (matched case-insensitively).
pub fn detect_bot(ua: &str) -> (r: bool)
    ensures
        r == bot_like(unicode_lowercase(ua@)),
{
    let l = to_lowercase(ua);
    detect_bot_lower(l.as_str())
}

// ---------------------------------------------------------------------------
// IP hashing
// ---------------------------------------------------------------------------

/// SHA-256 digest of the UTF-8 bytes of `s`.
pub uninterp spec fn sha256_of(s: Seq<char>) -> Seq<u8>;

/// `sha2::Sha256::digest` over the UTF-8 bytes of `s`. Claimed: the result
/// is `sha256_of(s)`, a function of `s` alone, and is 32 bytes long.
#[verifier::external_body]
fn sha256_digest(s: &str) -> (r: Vec<u8>)
    ensures
        r@ == sha256_of(s@),
        r@.len() == 32,
{
    sha2::Sha256::digest(s.as_bytes()).as_slice().to_vec()
}

pub open spec fn hex_digit(n: u8) -> char {
    if n < 10 {
        ((n + 48) as u32) as char
    } else {
        ((n + 87) as u32) as char
    }
}

/// Lower-case hex rendering, two digits per byte.
pub open spec fn hex_of(b: Seq<u8>) -> Seq<char>
    decreases b.len(),
{
    if b.len() == 0 {
        Seq::empty()
    } else {
        hex_of(b.drop_last()) + seq![hex_digit(b.last() / 16), hex_digit(b.last() % 16)]
    }
}

proof fn lemma_hex_len(b: Seq<u8>)
    ensures
        hex_of(b).len() == 2 * b.len(),
    decreases b.len(),
{
    if b.len() > 0 {
        lemma_hex_len(b.drop_last());
    }
}

fn hex_digit_exec(n: u8) -> (r: char)
    requires
        n < 16,
    ensures
        r == hex_digit(n),
{
    if n < 10 {
        let c = (n + 48) as char;
        assert(c == ((n + 48) as u32) as char);
        c
    } else {
        let c = (n + 87) as char;
        assert(c == ((n + 87) as u32) as char);
        c
    }
}

fn hex_lower(b: &Vec<u8>) -> (r: Vec<char>)
    ensures
        r@ == hex_of(b@),
{
    let mut out: Vec<char> = Vec::new();
    let mut i: usize = 0;
    while i < b.len()
        invariant
            i <= b.len(),
            out@ == hex_of(b@.take(i as int)),
        decreases b.len() - i,
    {
        let x = b[i];
        assert(b@.take(i + 1).drop_last() =~= b@.take(i as int));
        out.push(hex_digit_exec(x / 16));
        out.push(hex_digit_exec(x % 16));
        i = i + 1;
        assert(out@ =~= hex_of(b@.take(i as int)));
    }
    assert(b@.take(b.len() as int) =~= b@);
    out
}

/// Privacy-preserving client id: the first 12 hex digits of the SHA-256 of
/// the connecting IP; empty when the IP is unknown.
pub open spec fn ip_hash_of(ip: Seq<char>) -> Seq<char> {
    if ip.len() == 0 {
        Seq::empty()
    } else {
        hex_of(sha256_of(ip)).take(12)
    }
}

pub fn ip_hash(ip: &str) -> (r: String)
    ensures
        r@ == ip_hash_of(ip@),
{
    let v = str_chars(ip);
    if v.len() == 0 {
        return String::new();
    }
    let d = sha256_digest(ip);
    let h = hex_lower(&d);
    proof {
        lemma_hex_len(d@);
    }
    let mut out: Vec<char> = Vec::new();
    let mut i: usize = 0;
    while i < 12
        invariant
            i <= 12,
            h@.len() == 64,
            out@ == h@.take(i as int),
        decreases 12 - i,
    {
        out.push(h[i]);
        i = i + 1;
        assert(out@ =~= h@.take(i as int));
    }
    string_from(&out)
}

// ---------------------------------------------------------------------------
// Event extraction
// ---------------------------------------------------------------------------

/// The request header values an analytics event is built from (empty when
/// a header is absent).
pub struct AnalyticsHeaders {
    pub host: String,
    pub cf_ipcountry: String,
    pub cf_ipcity: String,
    pub cf_region: String,
    pub cf_region_code: String,
    pub cf_timezone: String,
    pub cf_connecting_ip: String,
    pub user_agent: String,
}

/// The analytics event for a request.
pub fn extract_event(
    headers: &AnalyticsHeaders,
    method: &str,
    path: &str,
    status: u16,
    duration_ms: u64,
    now: u64,
) -> (e: t40)
    ensures
        e.ts == now,
        e.host@ == before_char(headers.host@, ':'),
        e.path@ == path@,
        e.method@ == method@,
        e.status == status,
        e.duration_ms == duration_ms,
        e.country@ == headers.cf_ipcountry@,
        e.region@ == headers.cf_region@,
        e.region_code@ == headers.cf_region_code@,
        e.city@ == headers.cf_ipcity@,
        e.timezone@ == headers.cf_timezone@,
        e.ip_hash@ == ip_hash_of(headers.cf_connecting_ip@),
        e.ua_family@ == ua_family_of(headers.user_agent@),
        e.is_bot == bot_like(unicode_lowercase(headers.user_agent@)),
{
    let host_chars = str_chars(headers.host.as_str());
    let host = string_from(&before(&host_chars, ':'));
    t40 {
        ts: now,
        host,
        path: to_string(path),
        method: to_string(method),
        status,
        duration_ms,
        country: headers.cf_ipcountry.clone(),
        region: headers.cf_region.clone(),
        region_code: headers.cf_region_code.clone(),
        city: headers.cf_ipcity.clone(),
        timezone: headers.cf_timezone.clone(),
        ip_hash: ip_hash(headers.cf_connecting_ip.as_str()),
        ua_family: classify_ua(headers.user_agent.as_str()),
        is_bot: detect_bot(headers.user_agent.as_str()),
    }
}

/// `<dir>/events_<day>.jsonl` for the UTC day of `now`.
pub open spec fn day_file(dir: Seq<char>, now: u64) -> Seq<char> {
    join_path(dir, "events_"@ + dec((now / 86400) as nat) + ".jsonl"@)
}

/// Today's event file under `dir`.
pub fn today_file(dir: &str, now: u64) -> (r: String)
    ensures
        r@ == day_file(dir@, now),
{
    let mut name: Vec<char> = Vec::new();
    extend_str(&mut name, "events_");
    extend_chars(&mut name, &dec_chars(now / 86400));
    extend_str(&mut name, ".jsonl");
    let file = string_from(&name);
    let d = str_chars(dir);
    let mut out: Vec<char> = Vec::new();
    extend_chars(&mut out, &d);
    if d.len() > 0 && d[d.len() - 1] != '/' {
        out.push('/');
    }
    extend_chars(&mut out, &name);
    let r = string_from(&out);
    assert(r@ =~= day_file(dir@, now));
    r
}

/// The analytics directory under the router's base directory.
pub fn analytics_dir(base: &str) -> (r: String)
    ensures
        r@ == join_path(base@, "analytics"@),
{
    let b = str_chars(base);
    let mut out: Vec<char> = Vec::new();
    extend_chars(&mut out, &b);
    if b.len() > 0 && b[b.len() - 1] != '/' {
        out.push('/');
    }
    extend_str(&mut out, "analytics");
    string_from(&out)
}

// ---------------------------------------------------------------------------
// Tallies
// ---------------------------------------------------------------------------

pub open spec fn key_is<K>(k: K) -> spec_fn((K, u64)) -> bool {
    |p: (K, u64)| p.0 == k
}

/// One more occurrence of `k`: its count goes up by one, or it is appended
/// with count 1.
pub open spec fn bump<K>(t: Seq<(K, u64)>, k: K) -> Seq<(K, u64)> {
    match first_where(t, key_is(k)) {
        Some(i) => t.update(i, (k, (t[i].1 + 1) as u64)),
        None => t.push((k, 1u64)),
    }
}

/// Occurrence counts of the keys, in order of first occurrence.
pub open spec fn tally<K>(keys: Seq<K>) -> Seq<(K, u64)>
    decreases keys.len(),
{
    if keys.len() == 0 {
        Seq::empty()
    } else {
        bump(tally(keys.drop_last()), keys.last())
    }
}

pub open spec fn counts_le<K>(t: Seq<(K, u64)>, b: int) -> bool {
    forall|j: int| 0 <= j < t.len() ==> (#[trigger] t[j]).1 <= b
}

proof fn lemma_bump_le<K>(t: Seq<(K, u64)>, k: K, b: int)
    requires
        counts_le(t, b),
        0 <= b,
    ensures
        counts_le(bump(t, k), b + 1),
{
    lemma_first_where(t, key_is(k));
    let n = bump(t, k);
    assert forall|j: int| 0 <= j < n.len() implies (#[trigger] n[j]).1 <= b + 1 by {
        if j < t.len() {
            assert(t[j].1 <= b);
        }
    }
}

pub open spec fn str_tally(v: Seq<(String, u64)>) -> Seq<(Seq<char>, u64)> {
    v.map_values(|p: (String, u64)| (p.0@, p.1))
}

fn bump_str(t: &mut Vec<(String, u64)>, k: String, Ghost(b): Ghost<int>)
    requires
        counts_le(str_tally(old(t)@), b),
        0 <= b < u64::MAX,
    ensures
        str_tally(final(t)@) == bump(str_tally(old(t)@), k@),
{
    let ghost v = str_tally(t@);
    let ghost p = key_is(k@);
    let mut j: usize = 0;
    while j < t.len()
        invariant
            j <= t.len(),
            v == str_tally(t@),
            t@ == old(t)@,
            p == key_is(k@),
            counts_le(v, b),
            b < u64::MAX,
            forall|x: int| 0 <= x < j ==> !p(#[trigger] v[x]),
        decreases t.len() - j,
    {
        assert(v[j as int] == (t@[j as int].0@, t@[j as int].1));
        if t[j].0 == k {
            proof {
                lemma_first_where_unique(v, p, j as int);
            }
            let c = t[j].1;
            assert(c <= b);
            t.set(j, (k, c + 1));
            assert(bump(v, k@) == v.update(j as int, (k@, (v[j as int].1 + 1) as u64)));
            assert(str_tally(t@) =~= v.update(j as int, (k@, (v[j as int].1 + 1) as u64)));
            return;
        }
        j = j + 1;
    }
    proof {
        lemma_first_where(v, p);
        if first_where(v, p) is Some {
            let x = first_where(v, p)->0;
            assert(!p(v[x]));
        }
    }
    let ghost kv = k@;
    t.push((k, 1));
    assert(str_tally(t@) =~= v.push((kv, 1u64)));
}

fn bump_u16(t: &mut Vec<(u16, u64)>, k: u16, Ghost(b): Ghost<int>)
    requires
        counts_le(old(t)@, b),
        0 <= b < u64::MAX,
    ensures
        final(t)@ == bump(old(t)@, k),
{
    let ghost v = t@;
    let ghost p = key_is(k);
    let mut j: usize = 0;
    while j < t.len()
        invariant
            j <= t.len(),
            v == t@,
            t@ == old(t)@,
            p == key_is(k),
            counts_le(v, b),
            b < u64::MAX,
            forall|x: int| 0 <= x < j ==> !p(#[trigger] v[x]),
        decreases t.len() - j,
    {
        if t[j].0 == k {
            proof {
                lemma_first_where_unique(v, p, j as int);
            }
            let c = t[j].1;
            assert(c <= b);
            t.set(j, (k, c + 1));
            assert(bump(v, k) == v.update(j as int, (k, (v[j as int].1 + 1) as u64)));
            assert(t@ =~= v.update(j as int, (k, (v[j as int].1 + 1) as u64)));
            return;
        }
        j = j + 1;
    }
    proof {
        lemma_first_where(v, p);
        if first_where(v, p) is Some {
            let x = first_where(v, p)->0;
            assert(!p(v[x]));
        }
    }
    t.push((k, 1));
}

fn bump_u8(t: &mut Vec<(u8, u64)>, k: u8, Ghost(b): Ghost<int>)
    requires
        counts_le(old(t)@, b),
        0 <= b < u64::MAX,
    ensures
        final(t)@ == bump(old(t)@, k),
{
    let ghost v = t@;
    let ghost p = key_is(k);
    let mut j: usize = 0;
    while j < t.len()
        invariant
            j <= t.len(),
            v == t@,
            t@ == old(t)@,
            p == key_is(k),
            counts_le(v, b),
            b < u64::MAX,
            forall|x: int| 0 <= x < j ==> !p(#[trigger] v[x]),
        decreases t.len() - j,
    {
        if t[j].0 == k {
            proof {
                lemma_first_where_unique(v, p, j as int);
            }
            let c = t[j].1;
            assert(c <= b);
            t.set(j, (k, c + 1));
            assert(bump(v, k) == v.update(j as int, (k, (v[j as int].1 + 1) as u64)));
            assert(t@ =~= v.update(j as int, (k, (v[j as int].1 + 1) as u64)));
            return;
        }
        j = j + 1;
    }
    proof {
        lemma_first_where(v, p);
        if first_where(v, p) is Some {
            let x = first_where(v, p)->0;
            assert(!p(v[x]));
        }
    }
    t.push((k, 1));
}

// ---------------------------------------------------------------------------
// Aggregated stats
// ---------------------------------------------------------------------------

/// Aggregated stats of one site (or of all sites).
#[allow(non_camel_case_types)]
#[derive(Debug)]
pub struct t41 {
    pub total_requests: u64,
    pub total_page_views: u64,
    pub unique_ips: u64,
    pub countries: Vec<(String, u64)>,
    pub regions: Vec<(String, u64)>,
    pub cities: Vec<(String, u64)>,
    pub paths: Vec<(String, u64)>,
    pub status_codes: Vec<(u16, u64)>,
    pub ua_families: Vec<(String, u64)>,
    pub requests_by_hour: Vec<(u8, u64)>,
    pub bot_requests: u64,
    pub human_requests: u64,
}

/// The mathematical content of an aggregation in progress: counters and
/// tallies (client ids are tallied to count the distinct ones).
pub struct StatsView {
    pub total_requests: u64,
    pub total_page_views: u64,
    pub bot_requests: u64,
    pub human_requests: u64,
    pub ips: Seq<(Seq<char>, u64)>,
    pub countries: Seq<(Seq<char>, u64)>,
    pub regions: Seq<(Seq<char>, u64)>,
    pub cities: Seq<(Seq<char>, u64)>,
    pub paths: Seq<(Seq<char>, u64)>,
    pub status_codes: Seq<(u16, u64)>,
    pub ua_families: Seq<(Seq<char>, u64)>,
    pub requests_by_hour: Seq<(u8, u64)>,
}

pub open spec fn empty_stats() -> StatsView {
    StatsView {
        total_requests: 0,
        total_page_views: 0,
        bot_requests: 0,
        human_requests: 0,
        ips: Seq::empty(),
        countries: Seq::empty(),
        regions: Seq::empty(),
        cities: Seq::empty(),
        paths: Seq::empty(),
        status_codes: Seq::empty(),
        ua_families: Seq::empty(),
        requests_by_hour: Seq::empty(),
    }
}

/// A human request that likely fetched a page: below 400, and the path is
/// `/`, has no `.`, or ends in `.html`.
pub open spec fn is_page_view(e: t40) -> bool {
    !e.is_bot && e.status < 400 && (e.path@ == "/"@ || !e.path@.contains('.') || ends_with_seq(
        e.path@,
        ".html"@,
    ))
}

/// Region label: `region, country`.
pub open spec fn region_key(e: t40) -> Seq<char> {
    e.region@ + ", "@ + e.country@
}

/// City label: `city, country`, or `city, region_code country`.
pub open spec fn city_key(e: t40) -> Seq<char> {
    if e.region_code@.len() == 0 {
        e.city@ + ", "@ + e.country@
    } else {
        e.city@ + ", "@ + e.region_code@ + " "@ + e.country@
    }
}

/// UTC hour of day of a timestamp.
pub open spec fn hour_of(ts: u64) -> u8 {
    ((ts % 86400) / 3600) as u8
}

pub open spec fn bump_if(t: Seq<(Seq<char>, u64)>, cond: bool, k: Seq<char>) -> Seq<(Seq<char>, u64)> {
    if cond {
        bump(t, k)
    } else {
        t
    }
}

pub open spec fn inc(x: u64, cond: bool) -> u64 {
    if cond {
        (x + 1) as u64
    } else {
        x
    }
}

/// The aggregation after one more event.
pub open spec fn step(v: StatsView, e: t40) -> StatsView {
    StatsView {
        total_requests: inc(v.total_requests, true),
        total_page_views: inc(v.total_page_views, is_page_view(e)),
        bot_requests: inc(v.bot_requests, e.is_bot),
        human_requests: inc(v.human_requests, !e.is_bot),
        ips: bump(v.ips, e.ip_hash@),
        countries: bump_if(v.countries, e.country@.len() > 0, e.country@),
        regions: bump_if(v.regions, e.region@.len() > 0, region_key(e)),
        cities: bump_if(v.cities, e.city@.len() > 0, city_key(e)),
        paths: bump(v.paths, e.path@),
        status_codes: bump(v.status_codes, e.status),
        ua_families: bump_if(v.ua_families, e.ua_family@.len() > 0, e.ua_family@),
        requests_by_hour: bump(v.requests_by_hour, hour_of(e.ts)),
    }
}

/// The aggregation of a sequence of events.
pub open spec fn stats_of(s: Seq<t40>) -> StatsView
    decreases s.len(),
{
    if s.len() == 0 {
        empty_stats()
    } else {
        step(stats_of(s.drop_last()), s.last())
    }
}

pub open spec fn stats_bounded(v: StatsView, n: int) -> bool {
    &&& v.total_requests <= n
    &&& v.total_page_views <= n
    &&& v.bot_requests <= n
    &&& v.human_requests <= n
    &&& counts_le(v.ips, n)
    &&& counts_le(v.countries, n)
    &&& counts_le(v.regions, n)
    &&& counts_le(v.cities, n)
    &&& counts_le(v.paths, n)
    &&& counts_le(v.status_codes, n)
    &&& counts_le(v.ua_families, n)
    &&& counts_le(v.requests_by_hour, n)
    &&& v.ips.len() <= n
}

proof fn lemma_bump_len<K>(t: Seq<(K, u64)>, k: K)
    ensures
        bump(t, k).len() <= t.len() + 1,
{
    lemma_first_where(t, key_is(k));
}

proof fn lemma_stats_bounded(s: Seq<t40>)
    ensures
        stats_bounded(stats_of(s), s.len() as int),
    decreases s.len(),
{
    if s.len() > 0 {
        let n = s.len() - 1;
        lemma_stats_bounded(s.drop_last());
        let v = stats_of(s.drop_last());
        let e = s.last();
        lemma_bump_le(v.ips, e.ip_hash@, n);
        lemma_bump_len(v.ips, e.ip_hash@);
        lemma_bump_le(v.countries, e.country@, n);
        lemma_bump_le(v.regions, region_key(e), n);
        lemma_bump_le(v.cities, city_key(e), n);
        lemma_bump_le(v.paths, e.path@, n);
        lemma_bump_le(v.status_codes, e.status, n);
        lemma_bump_le(v.ua_families, e.ua_family@, n);
        lemma_bump_le(v.requests_by_hour, hour_of(e.ts), n);
        assert(counts_le(v.countries, n + 1));
        assert(counts_le(v.regions, n + 1));
        assert(counts_le(v.cities, n + 1));
        assert(counts_le(v.ua_families, n + 1));
    }
}

/// Events that count for a host filter (substring of the event host) and
/// a time cutoff.
pub open spec fn in_scope(e: t40, host: Option<Seq<char>>, cutoff: u64) -> bool {
    e.ts >= cutoff && (host matches Some(h) ==> contains_seq(e.host@, h))
}

pub open spec fn scoped(s: Seq<t40>, host: Option<Seq<char>>, cutoff: u64) -> Seq<t40>
    decreases s.len(),
{
    if s.len() == 0 {
        Seq::empty()
    } else {
        let r = scoped(s.drop_last(), host, cutoff);
        if in_scope(s.last(), host, cutoff) {
            r.push(s.last())
        } else {
            r
        }
    }
}

proof fn lemma_scoped_len(s: Seq<t40>, host: Option<Seq<char>>, cutoff: u64)
    ensures
        scoped(s, host, cutoff).len() <= s.len(),
    decreases s.len(),
{
    if s.len() > 0 {
        lemma_scoped_len(s.drop_last(), host, cutoff);
    }
}

/// `st` reports the aggregation `v`.
pub open spec fn reports(st: t41, v: StatsView) -> bool {
    &&& st.total_requests == v.total_requests
    &&& st.total_page_views == v.total_page_views
    &&& st.unique_ips == v.ips.len()
    &&& str_tally(st.countries@) == v.countries
    &&& str_tally(st.regions@) == v.regions
    &&& str_tally(st.cities@) == v.cities
    &&& str_tally(st.paths@) == v.paths
    &&& st.status_codes@ == v.status_codes
    &&& str_tally(st.ua_families@) == v.ua_families
    &&& st.requests_by_hour@ == v.requests_by_hour
    &&& st.bot_requests == v.bot_requests
    &&& st.human_requests == v.human_requests
}

pub open spec fn acc_view(st: t41, ips: Seq<(String, u64)>) -> StatsView {
    StatsView {
        total_requests: st.total_requests,
        total_page_views: st.total_page_views,
        bot_requests: st.bot_requests,
        human_requests: st.human_requests,
        ips: str_tally(ips),
        countries: str_tally(st.countries@),
        regions: str_tally(st.regions@),
        cities: str_tally(st.cities@),
        paths: str_tally(st.paths@),
        status_codes: st.status_codes@,
        ua_families: str_tally(st.ua_families@),
        requests_by_hour: st.requests_by_hour@,
    }
}

fn empty_t41() -> (r: t41)
    ensures
        acc_view(r, Seq::empty()) == empty_stats(),
{
    let r = t41 {
        total_requests: 0,
        total_page_views: 0,
        unique_ips: 0,
        countries: Vec::new(),
        regions: Vec::new(),
        cities: Vec::new(),
        paths: Vec::new(),
        status_codes: Vec::new(),
        ua_families: Vec::new(),
        requests_by_hour: Vec::new(),
        bot_requests: 0,
        human_requests: 0,
    };
    assert(str_tally(Seq::<(String, u64)>::empty()) =~= Seq::<(Seq<char>, u64)>::empty());
    assert(str_tally(r.countries@) =~= Seq::<(Seq<char>, u64)>::empty());
    assert(str_tally(r.regions@) =~= Seq::<(Seq<char>, u64)>::empty());
    assert(str_tally(r.cities@) =~= Seq::<(Seq<char>, u64)>::empty());
    assert(str_tally(r.paths@) =~= Seq::<(Seq<char>, u64)>::empty());
    assert(str_tally(r.ua_families@) =~= Seq::<(Seq<char>, u64)>::empty());
    assert(r.status_codes@ =~= Seq::<(u16, u64)>::empty());
    assert(r.requests_by_hour@ =~= Seq::<(u8, u64)>::empty());
    r
}

fn concat3(a: &str, b: &str, c: &str) -> (r: String)
    ensures
        r@ == a@ + b@ + c@,
{
    let mut out: Vec<char> = Vec::new();
    extend_str(&mut out, a);
    extend_str(&mut out, b);
    extend_str(&mut out, c);
    string_from(&out)
}

fn is_page_view_exec(e: &t40) -> (r: bool)
    ensures
        r == is_page_view(*e),
{
    if e.is_bot || e.status >= 400 {
        return false;
    }
    let p = str_chars(e.path.as_str());
    let slash = str_chars("/");
    let root = p.len() == 1 && p[0] == '/';
    proof {
        reveal_strlit("/");
        if e.path@ == "/"@ {
            assert(p@.len() == 1 && p@[0] == '/');
        }
        if root {
            assert(p@ =~= "/"@);
        }
    }
    root || !contains_char(&p, '.') || ends_with(&p, &str_chars(".html"))
}

fn add_event(st: &mut t41, ips: &mut Vec<(String, u64)>, e: &t40, Ghost(n): Ghost<int>)
    requires
        stats_bounded(acc_view(*old(st), old(ips)@), n),
        0 <= n < u64::MAX,
    ensures
        acc_view(*final(st), final(ips)@) == step(acc_view(*old(st), old(ips)@), *e),
        final(st).unique_ips == old(st).unique_ips,
{
    let ghost v = acc_view(*st, ips@);
    st.total_requests = st.total_requests + 1;
    if !e.is_bot {
        st.human_requests = st.human_requests + 1;
        if is_page_view_exec(e) {
            st.total_page_views = st.total_page_views + 1;
        }
    } else {
        st.bot_requests = st.bot_requests + 1;
        assert(!is_page_view(*e));
    }
    bump_str(ips, e.ip_hash.clone(), Ghost(n));
    if str_chars(e.country.as_str()).len() > 0 {
        bump_str(&mut st.countries, e.country.clone(), Ghost(n));
    }
    if str_chars(e.region.as_str()).len() > 0 {
        let k = concat3(e.region.as_str(), ", ", e.country.as_str());
        bump_str(&mut st.regions, k, Ghost(n));
    }
    if str_chars(e.city.as_str()).len() > 0 {
        let k = if str_chars(e.region_code.as_str()).len() == 0 {
            concat3(e.city.as_str(), ", ", e.country.as_str())
        } else {
            let rc = concat3(e.region_code.as_str(), " ", e.country.as_str());
            let k2 = concat3(e.city.as_str(), ", ", rc.as_str());
            assert(k2@ =~= city_key(*e));
            k2
        };
        bump_str(&mut st.cities, k, Ghost(n));
    }
    bump_str(&mut st.paths, e.path.clone(), Ghost(n));
    bump_u16(&mut st.status_codes, e.status, Ghost(n));
    if str_chars(e.ua_family.as_str()).len() > 0 {
        bump_str(&mut st.ua_families, e.ua_family.clone(), Ghost(n));
    }
    let hour = ((e.ts % 86400) / 3600) as u8;
    bump_u8(&mut st.requests_by_hour, hour, Ghost(n));
    assert(acc_view(*st, ips@) =~~= step(v, *e));
}

/// Aggregation of the events that pass a host filter and a cutoff.
fn aggregate(events: &std::collections::VecDeque<t40>, host: Option<&str>, cutoff: u64) -> (r: t41)
    ensures
        reports(r, stats_of(scoped(events@, opt_str(host), cutoff))),
{
    let ghost hv = opt_str(host);
    let hchars: Vec<char> = match host {
        Some(h) => str_chars(h),
        None => Vec::new(),
    };
    let mut st = empty_t41();
    let mut ips: Vec<(String, u64)> = Vec::new();
    let mut i: usize = 0;
    while i < events.len()
        invariant
            i <= events@.len(),
            hv == opt_str(host),
            host matches Some(h) ==> hchars@ == h@,
            acc_view(st, ips@) == stats_of(scoped(events@.take(i as int), hv, cutoff)),
        decreases events@.len() - i,
    {
        let ghost sc = scoped(events@.take(i as int), hv, cutoff);
        assert(events@.take(i + 1).drop_last() =~= events@.take(i as int));
        assert(events@.take(i + 1).last() == events@[i as int]);
        let e = &events[i];
        let keep = e.ts >= cutoff && match host {
            Some(_) => contains(&str_chars(e.host.as_str()), &hchars),
            None => true,
        };
        if keep {
            proof {
                lemma_stats_bounded(sc);
                lemma_scoped_len(events@.take(i as int), hv, cutoff);
                assert(sc.push(*e).drop_last() =~= sc);
            }
            add_event(&mut st, &mut ips, e, Ghost(sc.len() as int));
        }
        i = i + 1;
    }
    assert(events@.take(events@.len() as int) =~= events@);
    proof {
        lemma_stats_bounded(scoped(events@, hv, cutoff));
    }
    st.unique_ips = ips.len() as u64;
    st
}

pub open spec fn opt_str(o: Option<&str>) -> Option<Seq<char>> {
    match o {
        Some(s) => Some(s@),
        None => None,
    }
}

/// Events from `now - hours` on (all when `None`).
pub open spec fn cutoff_of(hours: Option<u64>, now: u64) -> u64 {
    match hours {
        Some(h) => if now >= h * 3600 {
            (now - h * 3600) as u64
        } else {
            0
        },
        None => 0,
    }
}

pub open spec fn window_ok(hours: Option<u64>) -> bool {
    hours matches Some(h) ==> h * 3600 <= u64::MAX
}

/// Site name of an event: its host before any `:`.
pub open spec fn site_of(e: t40) -> Seq<char> {
    before_char(e.host@, ':')
}

/// Site names of the events at or after the cutoff.
pub open spec fn site_keys(s: Seq<t40>, cutoff: u64) -> Seq<Seq<char>>
    decreases s.len(),
{
    if s.len() == 0 {
        Seq::empty()
    } else {
        let r = site_keys(s.drop_last(), cutoff);
        if s.last().ts >= cutoff {
            r.push(site_of(s.last()))
        } else {
            r
        }
    }
}

// ---------------------------------------------------------------------------
// The store
// ---------------------------------------------------------------------------

/// In-memory analytics log; the newest events are kept.
#[allow(non_camel_case_types)]
pub struct t42 {
    events: std::collections::VecDeque<t40>,
    max_memory: usize,
}

impl t42 {
    pub closed spec fn log(&self) -> Seq<t40> {
        self.events@
    }

    pub closed spec fn cap(&self) -> usize {
        self.max_memory
    }

    /// A store holding the events already on disk for today.
    pub fn new(loaded: Vec<t40>) -> (r: t42)
        ensures
            r.log() == loaded@,
            r.cap() == MAX_EVENTS_IN_MEMORY,
    {
        let mut events: std::collections::VecDeque<t40> = std::collections::VecDeque::new();
        let mut i: usize = 0;
        let mut loaded = loaded;
        let ghost all = loaded@;
        while i < loaded.len()
            invariant
                i <= loaded@.len(),
                loaded@ == all,
                events@ == all.take(i as int),
            decreases loaded@.len() - i,
        {
            events.push_back(loaded[i].clone());
            i = i + 1;
            assert(events@ =~= all.take(i as int));
        }
        assert(all.take(all.len() as int) =~= all);
        t42 { events, max_memory: MAX_EVENTS_IN_MEMORY }
    }

    /// Books an event; the oldest events beyond the cap are dropped. Returns
    /// whether the log should now be written to disk (every `FLUSH_EVERY`
    /// events).
    pub fn record(&mut self, event: t40) -> (flush: bool)
        ensures
            final(self).log() == bounded(old(self).log().push(event), old(self).cap() as nat),
            final(self).cap() == old(self).cap(),
            flush == ((old(self).log().len() + 1) % (FLUSH_EVERY as nat) == 0),
    {
        let n = self.events.len();
        let flush = n % FLUSH_EVERY == FLUSH_EVERY - 1;
        push_bounded(&mut self.events, event, self.max_memory);
        flush
    }
    /// The events to write to today's file.
    pub fn flush(&self) -> (r: Vec<t40>)
        ensures
            r@ == self.log(),
    {
        let mut out: Vec<t40> = Vec::new();
        let mut i: usize = 0;
        while i < self.events.len()
            invariant
                i <= self.events@.len(),
                out@ == self.events@.take(i as int),
            decreases self.events@.len() - i,
        {
            out.push(self.events[i].clone());
            i = i + 1;
            assert(out@ =~= self.events@.take(i as int));
        }
        assert(self.events@.take(self.events@.len() as int) =~= self.events@);
        out
    }

    /// Aggregate stats as of `now`, optionally for hosts containing
    /// `host_filter` and for the last `hours` hours.
    pub fn stats_at(&self, host_filter: Option<&str>, hours: Option<u64>, now: u64) -> (r: t41)
        requires
            window_ok(hours),
        ensures
            reports(r, stats_of(scoped(self.log(), opt_str(host_filter), cutoff_of(hours, now)))),
    {
        let cutoff = match hours {
            Some(h) => now.saturating_sub(h * 3600),
            None => 0,
        };
        aggregate(&self.events, host_filter, cutoff)
    }

    /// Aggregate stats as of the current time.
    pub fn stats(&self, host_filter: Option<&str>, hours: Option<u64>) -> (r: t41)
        requires
            window_ok(hours),
        ensures
            exists|now: u64|
                reports(r, stats_of(scoped(self.log(), opt_str(host_filter), #[trigger] cutoff_of(hours, now)))),
    {
        let now = now_secs();
        self.stats_at(host_filter, hours, now)
    }

    /// Stats per site (host before any `:`), sites in order of first
    /// appearance within the window, as of `now`.
    pub fn stats_all_sites_at(&self, hours: Option<u64>, now: u64) -> (r: Vec<(String, t41)>)
        requires
            window_ok(hours),
        ensures
            r@.len() == tally(site_keys(self.log(), cutoff_of(hours, now))).len(),
            forall|i: int|
                0 <= i < r@.len() ==> (#[trigger] r@[i]).0@ == tally(site_keys(self.log(), cutoff_of(hours, now)))[i].0
                    && reports(
                    r@[i].1,
                    stats_of(scoped(self.log(), Some(r@[i].0@), cutoff_of(hours, now))),
                ),
    {
        let cutoff = match hours {
            Some(h) => now.saturating_sub(h * 3600),
            None => 0,
        };
        let mut sites: Vec<(String, u64)> = Vec::new();
        let mut i: usize = 0;
        while i < self.events.len()
            invariant
                i <= self.events@.len(),
                cutoff == cutoff_of(hours, now),
                str_tally(sites@) == tally(site_keys(self.events@.take(i as int), cutoff)),
                counts_le(str_tally(sites@), i as int),
            decreases self.events@.len() - i,
        {
            assert(self.events@.take(i + 1).drop_last() =~= self.events@.take(i as int));
            assert(self.events@.take(i + 1).last() == self.events@[i as int]);
            let e = &self.events[i];
            proof {
                lemma_bump_le(str_tally(sites@), site_of(*e), i as int);
            }
            if e.ts >= cutoff {
                let host = string_from(&before(&str_chars(e.host.as_str()), ':'));
                let ghost ks = site_keys(self.events@.take(i as int), cutoff);
                assert(site_keys(self.events@.take(i + 1), cutoff) == ks.push(site_of(*e)));
                assert(ks.push(site_of(*e)).drop_last() =~= ks);
                assert(host@ == site_of(*e));
                bump_str(&mut sites, host, Ghost(i as int));
            }
            i = i + 1;
        }
        assert(self.events@.take(self.events@.len() as int) =~= self.events@);
        let ghost keys = str_tally(sites@);
        let mut out: Vec<(String, t41)> = Vec::new();
        let mut j: usize = 0;
        while j < sites.len()
            invariant
                j <= sites@.len(),
                keys == str_tally(sites@),
                keys == tally(site_keys(self.log(), cutoff_of(hours, now))),
                cutoff == cutoff_of(hours, now),
                out@.len() == j,
                forall|x: int|
                    0 <= x < j ==> (#[trigger] out@[x]).0@ == keys[x].0 && reports(
                        out@[x].1,
                        stats_of(scoped(self.log(), Some(out@[x].0@), cutoff)),
                    ),
            decreases sites@.len() - j,
        {
            let name = sites[j].0.clone();
            assert(keys[j as int].0 == name@);
            let st = aggregate(&self.events, Some(name.as_str()), cutoff);
            out.push((name, st));
            j = j + 1;
        }
        out
    }

    /// Stats per site as of the current time.
    pub fn stats_all_sites(&self, hours: Option<u64>) -> (r: Vec<(String, t41)>)
        requires
            window_ok(hours),
        ensures
            exists|now: u64|
                r@.len() == tally(site_keys(self.log(), #[trigger] cutoff_of(hours, now))).len() && forall|i: int|
                    0 <= i < r@.len() ==> (#[trigger] r@[i]).0@ == tally(site_keys(self.log(), cutoff_of(hours, now)))[i].0
                        && reports(
                        r@[i].1,
                        stats_of(scoped(self.log(), Some(r@[i].0@), cutoff_of(hours, now))),
                    ),
    {
        let now = now_secs();
        self.stats_all_sites_at(hours, now)
    }

    /// The newest `limit` events, newest first, optionally for hosts
    /// containing `host_filter`.
    pub fn recent(&self, limit: usize, host_filter: Option<&str>) -> (r: Vec<t40>)
        ensures
            r@ == latest_first(scoped(self.log(), opt_str(host_filter), 0), limit as nat),
    {
        let ghost hv = opt_str(host_filter);
        let hchars: Vec<char> = match host_filter {
            Some(h) => str_chars(h),
            None => Vec::new(),
        };
        let mut mine: Vec<t40> = Vec::new();
        let mut i: usize = 0;
        while i < self.events.len()
            invariant
                i <= self.events@.len(),
                hv == opt_str(host_filter),
                host_filter matches Some(h) ==> hchars@ == h@,
                mine@ == scoped(self.events@.take(i as int), hv, 0),
            decreases self.events@.len() - i,
        {
            assert(self.events@.take(i + 1).drop_last() =~= self.events@.take(i as int));
            assert(self.events@.take(i + 1).last() == self.events@[i as int]);
            let e = &self.events[i];
            let keep = match host_filter {
                Some(_) => contains(&str_chars(e.host.as_str()), &hchars),
                None => true,
            };
            if keep {
                mine.push(e.clone());
            }
            i = i + 1;
        }
        assert(self.events@.take(self.events@.len() as int) =~= self.events@);
        let len = mine.len();
        let k = if limit < len { limit } else { len };
        let mut out: Vec<t40> = Vec::new();
        let mut j: usize = 0;
        while j < k
            invariant
                len == mine@.len(),
                k <= len,
                k == (if (limit as nat) < len { limit as nat } else { len as nat }),
                j <= k,
                out@ == Seq::new(j as nat, |m: int| mine@[len - 1 - m]),
            decreases k - j,
        {
            out.push(mine[len - 1 - j].clone());
            j = j + 1;
            assert(out@ =~= Seq::new(j as nat, |m: int| mine@[len - 1 - m]));
        }
        assert(out@ =~= latest_first(scoped(self.log(), hv, 0), limit as nat));
        out
    }
}

// ---------------------------------------------------------------------------
// Laws
// ---------------------------------------------------------------------------

/// Page views: bot requests and failed requests (status 400 or above) are
/// never page views; a successful human request for `/`, for a path without
/// a dot, or for an `.html` file is one, and one for another file (such as
/// `/app.js`) is not.
pub proof fn law_page_views(e: t40)
    ensures
        e.is_bot ==> !is_page_view(e),
        e.status >= 400 ==> !is_page_view(e),
        !e.is_bot && e.status < 400 && (e.path@ == "/"@ || !e.path@.contains('.')) ==> is_page_view(e),
        !e.is_bot && e.status < 400 && ends_with_seq(e.path@, ".html"@) ==> is_page_view(e),
        e.path@.contains('.') && e.path@ != "/"@ && !ends_with_seq(e.path@, ".html"@) ==> !is_page_view(e),
{
}

/// The hour bucket of a timestamp is its UTC hour of day: below 24, the
/// same a day later, and one more an hour later within the day.
pub proof fn law_hour_buckets(ts: u64)
    ensures
        hour_of(ts) < 24,
        ts <= u64::MAX - 86400 ==> hour_of((ts + 86400) as u64) == hour_of(ts),
        ts % 86400 < 82800 && ts <= u64::MAX - 3600 ==> hour_of((ts + 3600) as u64) == hour_of(ts) + 1,
{
    if ts <= u64::MAX - 86400 {
        assert(((ts + 86400) as u64) % 86400 == ts % 86400) by (nonlinear_arith)
            requires ts <= u64::MAX - 86400;
    }
    if ts % 86400 < 82800 && ts <= u64::MAX - 3600 {
        assert(((ts + 3600) as u64) % 86400 == ts % 86400 + 3600) by (nonlinear_arith)
            requires ts % 86400 < 82800, ts <= u64::MAX - 3600;
        assert((ts % 86400 + 3600) / 3600 == (ts % 86400) / 3600 + 1) by (nonlinear_arith);
    }
}

/// A lower-cased user agent looks like a bot exactly when it is empty or
/// contains a crawler or tool marker (`bot`, `spider`, `crawl`, `curl/`,
/// `python`, ...).
pub proof fn law_bot_markers(l: Seq<char>)
    ensures
        bot_like(l) <==> (l.len() == 0 || contains_seq(l, "bot"@) || contains_seq(l, "spider"@) || contains_seq(l, "crawl"@) || contains_seq(l, "curl/"@) || contains_seq(l, "python"@) || contains_seq(l, "go-http"@) || contains_seq(l, "wget"@) || contains_seq(l, "scanner"@) || contains_seq(l, "semrush"@) || contains_seq(l, "ahrefs"@) || contains_seq(l, "yandex"@) || contains_seq(l, "headlesschrome"@) || contains_seq(l, "phantomjs"@)),
{
}

/// Browser families by marker, over every user agent: `Edg/` means Edge;
/// otherwise `CriOS` means Chrome on iOS; otherwise `Chrome/` means Chrome,
/// on mobile exactly when `Mobile` is present too; otherwise `Safari/` with
/// `iPhone`, `iPad` or `Macintosh` names the Safari variant; then
/// `Firefox/`, then `curl/`; the empty user agent is unknown and anything
/// else other.
pub proof fn law_ua_family_markers(ua: Seq<char>)
    ensures
        contains_seq(ua, "Edg/"@) ==> ua_family_of(ua) == "Edge"@,
        !contains_seq(ua, "Edg/"@) && contains_seq(ua, "CriOS"@) ==> ua_family_of(ua) == "Chrome iOS"@,
        !contains_seq(ua, "Edg/"@) && !contains_seq(ua, "CriOS"@) && contains_seq(ua, "Chrome/"@) && contains_seq(ua, "Mobile"@)
            ==> ua_family_of(ua) == "Chrome Mobile"@,
        !contains_seq(ua, "Edg/"@) && !contains_seq(ua, "CriOS"@) && contains_seq(ua, "Chrome/"@) && !contains_seq(ua, "Mobile"@)
            ==> ua_family_of(ua) == "Chrome"@,
        !contains_seq(ua, "Edg/"@) && !contains_seq(ua, "CriOS"@) && !contains_seq(ua, "Chrome/"@) && contains_seq(ua, "Safari/"@) && contains_seq(ua, "iPhone"@)
            ==> ua_family_of(ua) == "Safari iPhone"@,
        !contains_seq(ua, "Edg/"@) && !contains_seq(ua, "CriOS"@) && !contains_seq(ua, "Chrome/"@) && contains_seq(ua, "Safari/"@) && !contains_seq(ua, "iPhone"@) && contains_seq(ua, "iPad"@)
            ==> ua_family_of(ua) == "Safari iPad"@,
        !contains_seq(ua, "Edg/"@) && !contains_seq(ua, "CriOS"@) && !contains_seq(ua, "Chrome/"@) && contains_seq(ua, "Safari/"@) && !contains_seq(ua, "iPhone"@) && !contains_seq(ua, "iPad"@)
            && contains_seq(ua, "Macintosh"@) ==> ua_family_of(ua) == "Safari Mac"@,
        ua.len() == 0 ==> ua_family_of(ua) == "unknown"@,
        ua_family_of(ua) == "Chrome Mobile"@ ==> contains_seq(ua, "Mobile"@) && contains_seq(ua, "Chrome/"@),
        ua_family_of(ua) == "Chrome"@ ==> contains_seq(ua, "Chrome/"@) && !contains_seq(ua, "Mobile"@),
        ua_family_of(ua) == "Edge"@ ==> contains_seq(ua, "Edg/"@),
        ua_family_of(ua) == "Firefox"@ ==> contains_seq(ua, "Firefox/"@) && !contains_seq(ua, "Chrome/"@),
{
    reveal_strlit("Edge");
    reveal_strlit("Chrome iOS");
    reveal_strlit("Chrome Mobile");
    reveal_strlit("Chrome");
    reveal_strlit("Safari iPhone");
    reveal_strlit("Safari iPad");
    reveal_strlit("Safari Mac");
    reveal_strlit("Firefox");
    reveal_strlit("curl");
    reveal_strlit("unknown");
    reveal_strlit("other");
    assert("Chrome Mobile"@.len() != "Edge"@.len());
    assert("Chrome Mobile"@.len() != "Chrome iOS"@.len());
    assert("Chrome Mobile"@.len() != "Chrome"@.len());
    assert("Chrome Mobile"@[0] != "Safari iPhone"@[0]);
    assert("Chrome Mobile"@.len() != "Safari iPad"@.len());
    assert("Chrome Mobile"@.len() != "Safari Mac"@.len());
    assert("Chrome Mobile"@.len() != "Firefox"@.len());
    assert("Chrome Mobile"@.len() != "curl"@.len());
    assert("Chrome Mobile"@.len() != "unknown"@.len());
    assert("Chrome Mobile"@.len() != "other"@.len());
    assert("Chrome"@.len() != "Edge"@.len());
    assert("Chrome"@.len() != "Chrome iOS"@.len());
    assert("Chrome"@.len() != "Chrome Mobile"@.len());
    assert("Chrome"@.len() != "Safari iPhone"@.len());
    assert("Chrome"@.len() != "Safari iPad"@.len());
    assert("Chrome"@.len() != "Safari Mac"@.len());
    assert("Chrome"@.len() != "Firefox"@.len());
    assert("Chrome"@.len() != "curl"@.len());
    assert("Chrome"@.len() != "unknown"@.len());
    assert("Chrome"@.len() != "other"@.len());
    assert("Edge"@.len() != "Chrome iOS"@.len());
    assert("Edge"@.len() != "Chrome Mobile"@.len());
    assert("Edge"@.len() != "Chrome"@.len());
    assert("Edge"@.len() != "Safari iPhone"@.len());
    assert("Edge"@.len() != "Safari iPad"@.len());
    assert("Edge"@.len() != "Safari Mac"@.len());
    assert("Edge"@.len() != "Firefox"@.len());
    assert("Edge"@[0] != "curl"@[0]);
    assert("Edge"@.len() != "unknown"@.len());
    assert("Edge"@.len() != "other"@.len());
    assert("Firefox"@.len() != "Edge"@.len());
    assert("Firefox"@.len() != "Chrome iOS"@.len());
    assert("Firefox"@.len() != "Chrome Mobile"@.len());
    assert("Firefox"@.len() != "Chrome"@.len());
    assert("Firefox"@.len() != "Safari iPhone"@.len());
    assert("Firefox"@.len() != "Safari iPad"@.len());
    assert("Firefox"@.len() != "Safari Mac"@.len());
    assert("Firefox"@.len() != "curl"@.len());
    assert("Firefox"@[0] != "unknown"@[0]);
    assert("Firefox"@.len() != "other"@.len());
    if ua.len() == 0 {
        assert(!contains_seq(ua, "Edg/"@)) by { reveal_strlit("Edg/"); }
        assert(!contains_seq(ua, "CriOS"@)) by { reveal_strlit("CriOS"); }
        assert(!contains_seq(ua, "Chrome/"@)) by { reveal_strlit("Chrome/"); }
        assert(!contains_seq(ua, "Safari/"@)) by { reveal_strlit("Safari/"); }
        assert(!contains_seq(ua, "Firefox/"@)) by { reveal_strlit("Firefox/"); }
        assert(!contains_seq(ua, "curl/"@)) by { reveal_strlit("curl/"); }
    }
}

/// Every aggregated request is either a bot or a human request; page views
/// are human requests; distinct clients never outnumber requests.
pub proof fn law_stats_partition(s: Seq<t40>)
    requires
        s.len() <= u64::MAX,
    ensures
        stats_of(s).total_requests == s.len(),
        stats_of(s).human_requests + stats_of(s).bot_requests == stats_of(s).total_requests,
        stats_of(s).total_page_views <= stats_of(s).human_requests,
        stats_of(s).ips.len() <= stats_of(s).total_requests,
    decreases s.len(),
{
    lemma_stats_bounded(s);
    if s.len() > 0 {
        law_stats_partition(s.drop_last());
        lemma_stats_bounded(s.drop_last());
        lemma_bump_len(stats_of(s.drop_last()).ips, s.last().ip_hash@);
        assert(stats_of(s) == step(stats_of(s.drop_last()), s.last()));
    }
}

/// Recording keeps the newest event and never lets the log exceed its cap.
pub proof fn law_log_keeps_newest(s: Seq<t40>, e: t40)
    ensures
        bounded(s.push(e), MAX_EVENTS_IN_MEMORY as nat).last() == e,
        bounded(s.push(e), MAX_EVENTS_IN_MEMORY as nat).len() <= MAX_EVENTS_IN_MEMORY || bounded(
            s.push(e),
            MAX_EVENTS_IN_MEMORY as nat,
        ).len() == s.len() + 1,
{
    crate::metrics_catalog::law_bounded_log_keeps_newest(s, e, MAX_EVENTS_IN_MEMORY as nat);
}

} // verus!
