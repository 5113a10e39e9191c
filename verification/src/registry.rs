//! App registry: which app answers for which hostname, and where its backend
//! lives. The registry is an ordered list of apps; lookups prefer an exact
//! (ASCII case-insensitive) hostname match over a `*.suffix` wildcard, and
//! the first app in list order wins. Persistence to `data/registry.json` is
//! done by the caller from `list_apps`.

use vstd::prelude::*;

use crate::text::{
    before, before_char, eq_ignore_ascii_case, eq_ignore_case, extend_chars, extend_str,
    slice_chars, str_chars, string_from, trim, trim_chars, trim_end_char, trim_trailing,
};

verus! {

/// `base.join(name)` for a relative one-segment `name`.
pub open spec fn join_path(base: Seq<char>, name: Seq<char>) -> Seq<char> {
    if base.len() == 0 {
        name
    } else if base.last() == '/' {
        base + name
    } else {
        base + seq!['/'] + name
    }
}

/// The approuter-owned data directory under `base`: `base/data`.
pub fn data_dir(base: &str) -> (r: String)
    ensures
        r@ == join_path(base@, "data"@),
{
    let b = str_chars(base);
    let mut out: Vec<char> = Vec::new();
    extend_chars(&mut out, &b);
    if b.len() > 0 && b[b.len() - 1] != '/' {
        out.push('/');
    }
    extend_str(&mut out, "data");
    string_from(&out)
}

/// The character contents of a list of strings.
pub open spec fn strs(v: Seq<String>) -> Seq<Seq<char>> {
    v.map_values(|s: String| s@)
}

/// A copy of a list of strings.
pub fn clone_strings(v: &Vec<String>) -> (r: Vec<String>)
    ensures
        strs(r@) == strs(v@),
{
    let mut out: Vec<String> = Vec::new();
    let mut i: usize = 0;
    while i < v.len()
        invariant
            i <= v.len(),
            strs(out@) == strs(v@.take(i as int)),
        decreases v.len() - i,
    {
        let c = v[i].clone();
        let ghost before = out@;
        out.push(c);
        assert(out@ == before.push(c));
        assert(v@.take(i + 1) == v@.take(i as int).push(v@[i as int]));
        assert(strs(out@) =~= strs(before).push(c@));
        assert(strs(v@.take(i + 1)) =~= strs(v@.take(i as int)).push(v@[i as int]@));
        i = i + 1;
    }
    assert(v@.take(v.len() as int) =~= v@);
    out
}

/// One registered app (app id, hostnames, backend URL).
#[allow(non_camel_case_types)]
#[derive(Debug)]
pub struct t30 {
    pub s46: String,
    pub s47: Vec<String>,
    pub s48: String,
}

/// (app id, hostnames, backend URL) as character sequences.
pub type AppView = (Seq<char>, Seq<Seq<char>>, Seq<char>);

impl View for t30 {
    type V = AppView;

    open spec fn view(&self) -> AppView {
        (self.s46@, strs(self.s47@), self.s48@)
    }
}

impl Clone for t30 {
    fn clone(&self) -> (r: t30)
        ensures
            r@ == self@,
    {
        t30 { s46: self.s46.clone(), s47: clone_strings(&self.s47), s48: self.s48.clone() }
    }
}

/// The registry file contents: the apps in registration order.
#[allow(non_camel_case_types)]
#[derive(Debug)]
pub struct t31 {
    pub apps: Vec<t30>,
}

pub open spec fn app_views(v: Seq<t30>) -> Seq<AppView> {
    v.map_values(|a: t30| a@)
}

impl View for t31 {
    type V = Seq<AppView>;

    open spec fn view(&self) -> Seq<AppView> {
        app_views(self.apps@)
    }
}

impl Default for t31 {
    fn default() -> (r: t31)
        ensures
            r@ == Seq::<AppView>::empty(),
    {
        t31 { apps: Vec::new() }
    }
}

// ---------------------------------------------------------------------------
// Lookup specification
// ---------------------------------------------------------------------------

/// Index of the first element satisfying `p`.
pub open spec fn first_where<A>(s: Seq<A>, p: spec_fn(A) -> bool) -> Option<int>
    decreases s.len(),
{
    if s.len() == 0 {
        None
    } else {
        match first_where(s.drop_last(), p) {
            Some(i) => Some(i),
            None => if p(s.last()) {
                Some(s.len() - 1)
            } else {
                None
            },
        }
    }
}

/// `first_where` finds the least index whose element satisfies `p`.
pub proof fn lemma_first_where<A>(s: Seq<A>, p: spec_fn(A) -> bool)
    ensures
        match first_where(s, p) {
            Some(i) => 0 <= i < s.len() && p(s[i]) && forall|k: int| 0 <= k < i ==> !p(#[trigger] s[k]),
            None => forall|k: int| 0 <= k < s.len() ==> !p(#[trigger] s[k]),
        },
    decreases s.len(),
{
    if s.len() > 0 {
        lemma_first_where(s.drop_last(), p);
        assert forall|k: int| 0 <= k < s.len() - 1 implies s.drop_last()[k] == s[k] by {}
    }
}

/// Any index that is the least one satisfying `p` is what `first_where` finds.
pub proof fn lemma_first_where_unique<A>(s: Seq<A>, p: spec_fn(A) -> bool, i: int)
    requires
        0 <= i < s.len(),
        p(s[i]),
        forall|k: int| 0 <= k < i ==> !p(#[trigger] s[k]),
    ensures
        first_where(s, p) == Some(i),
{
    lemma_first_where(s, p);
    match first_where(s, p) {
        Some(j) => {
            if j < i {
                assert(!p(s[j]));
            } else if j > i {
                assert(!p(s[i]));
            }
        },
        None => {
            assert(!p(s[i]));
        },
    }
}

/// The host part of a `Host` header: before the first `:`, trimmed.
pub open spec fn host_key(h: Seq<char>) -> Seq<char> {
    trim(before_char(h, ':'))
}

/// `*.suffix` matches any host that ends in `.suffix` after at least one
/// more character (ASCII case-insensitive).
pub open spec fn wildcard_matches(pattern: Seq<char>, host: Seq<char>) -> bool {
    &&& pattern.len() >= 2
    &&& pattern[0] == '*'
    &&& pattern[1] == '.'
    &&& host.len() > pattern.len() - 1
    &&& eq_ignore_case(
        host.subrange(host.len() - (pattern.len() - 1), host.len() as int),
        pattern.drop_first(),
    )
}

/// A registered hostname answers for `host`: exactly, or as a wildcard.
pub open spec fn host_matches(pattern: Seq<char>, host: Seq<char>, wild: bool) -> bool {
    if wild {
        wildcard_matches(pattern, host)
    } else {
        eq_ignore_case(pattern, host)
    }
}

pub open spec fn app_matches(a: AppView, host: Seq<char>, wild: bool) -> bool {
    exists|j: int| 0 <= j < a.1.len() && host_matches(#[trigger] a.1[j], host, wild)
}

pub open spec fn matcher(host: Seq<char>, wild: bool) -> spec_fn(AppView) -> bool {
    |a: AppView| app_matches(a, host, wild)
}

/// Which app answers for `host`: the first with an exact match, else the
/// first with a wildcard match; an empty host matches nothing.
pub open spec fn route_index(apps: Seq<AppView>, host: Seq<char>) -> Option<int> {
    if host.len() == 0 {
        None
    } else {
        match first_where(apps, matcher(host, false)) {
            Some(i) => Some(i),
            None => first_where(apps, matcher(host, true)),
        }
    }
}

/// (app id, backend URL) of the app answering for `host`.
pub open spec fn route_of(apps: Seq<AppView>, host: Seq<char>) -> Option<(Seq<char>, Seq<char>)> {
    match route_index(apps, host) {
        Some(i) => Some((apps[i].0, apps[i].2)),
        None => None,
    }
}

// ---------------------------------------------------------------------------
// Executable lookup
// ---------------------------------------------------------------------------

fn wildcard_matches_exec(pattern: &Vec<char>, host: &Vec<char>) -> (r: bool)
    ensures
        r == wildcard_matches(pattern@, host@),
{
    if pattern.len() < 2 || pattern[0] != '*' || pattern[1] != '.' {
        return false;
    }
    let n = pattern.len() - 1;
    if host.len() <= n {
        return false;
    }
    let tail = slice_chars(host, host.len() - n, host.len());
    let suffix = slice_chars(pattern, 1, pattern.len());
    assert(suffix@ =~= pattern@.drop_first());
    eq_ignore_ascii_case(&tail, &suffix)
}

fn host_matches_exec(pattern: &Vec<char>, host: &Vec<char>, wild: bool) -> (r: bool)
    ensures
        r == host_matches(pattern@, host@, wild),
{
    if wild {
        wildcard_matches_exec(pattern, host)
    } else {
        eq_ignore_ascii_case(pattern, host)
    }
}

fn app_matches_exec(a: &t30, host: &Vec<char>, wild: bool) -> (r: bool)
    ensures
        r == app_matches(a@, host@, wild),
{
    let mut j: usize = 0;
    while j < a.s47.len()
        invariant
            j <= a.s47.len(),
            forall|k: int| 0 <= k < j ==> !host_matches(#[trigger] a@.1[k], host@, wild),
        decreases a.s47.len() - j,
    {
        let p = str_chars(a.s47[j].as_str());
        if host_matches_exec(&p, host, wild) {
            assert(a@.1[j as int] == p@);
            return true;
        }
        j = j + 1;
    }
    false
}

fn find_app(apps: &Vec<t30>, host: &Vec<char>, wild: bool) -> (r: Option<usize>)
    ensures
        match r {
            Some(i) => first_where(app_views(apps@), matcher(host@, wild)) == Some(i as int),
            None => first_where(app_views(apps@), matcher(host@, wild)) is None,
        },
{
    let ghost v = app_views(apps@);
    let ghost p = matcher(host@, wild);
    let mut i: usize = 0;
    while i < apps.len()
        invariant
            i <= apps.len(),
            v == app_views(apps@),
            p == matcher(host@, wild),
            forall|k: int| 0 <= k < i ==> !p(#[trigger] v[k]),
        decreases apps.len() - i,
    {
        if app_matches_exec(&apps[i], host, wild) {
            proof {
                lemma_first_where_unique(v, p, i as int);
            }
            return Some(i);
        }
        i = i + 1;
    }
    proof {
        lemma_first_where(v, p);
        if first_where(v, p) is Some {
            let j = first_where(v, p)->0;
            assert(!p(v[j]));
        }
    }
    None
}

/// The app registry. Lookups and updates work on the in-memory list; the
/// caller persists `list_apps` after a successful change.
#[allow(non_camel_case_types)]
pub struct t32 {
    data: t31,
}

impl t32 {
    pub closed spec fn apps(&self) -> Seq<AppView> {
        self.data@
    }

    /// An empty registry.
    pub fn new() -> (r: t32)
        ensures
            r.apps() == Seq::<AppView>::empty(),
    {
        t32 { data: t31::default() }
    }

    /// A registry holding the apps of a loaded registry file.
    pub fn from_data(data: t31) -> (r: t32)
        ensures
            r.apps() == data@,
    {
        t32 { data }
    }

    /// The app answering for a `Host` header value: (app id, backend URL).
    pub fn resolve_app(&self, host: Option<&str>) -> (r: Option<(String, String)>)
        ensures
            match host {
                None => r is None,
                Some(h) => match route_of(self.apps(), host_key(h@)) {
                    Some(found) => r is Some && (r->0).0@ == found.0 && (r->0).1@ == found.1,
                    None => r is None,
                },
            },
    {
        let h = match host {
            Some(h) => h,
            None => return None,
        };
        let raw = str_chars(h);
        let first = before(&raw, ':');
        let key = trim_chars(&first);
        if key.len() == 0 {
            return None;
        }
        let ghost v = self.apps();
        let idx = match find_app(&self.data.apps, &key, false) {
            Some(i) => Some(i),
            None => find_app(&self.data.apps, &key, true),
        };
        match idx {
            Some(i) => {
                proof {
                    lemma_first_where(v, matcher(key@, false));
                    lemma_first_where(v, matcher(key@, true));
                }
                let app = &self.data.apps[i];
                assert(v[i as int] == app@);
                Some((app.s46.clone(), app.s48.clone()))
            },
            None => None,
        }
    }

    /// Backend URL for a `Host` header value (the request path does not
    /// take part in registry routing).
    pub fn get_backend(&self, p0: Option<&str>, _p1: &str) -> (r: Option<String>)
        ensures
            match p0 {
                None => r is None,
                Some(h) => match route_of(self.apps(), host_key(h@)) {
                    Some(found) => r is Some && r->0@ == found.1,
                    None => r is None,
                },
            },
    {
        match self.resolve_app(p0) {
            Some((_, backend)) => Some(backend),
            None => None,
        }
    }
}

// ---------------------------------------------------------------------------
// Registration
// ---------------------------------------------------------------------------

/// Two hostname lists share a hostname (ASCII case-insensitive).
pub open spec fn shares_hostname(a: Seq<Seq<char>>, b: Seq<Seq<char>>) -> bool {
    exists|j: int, k: int|
        0 <= j < a.len() && 0 <= k < b.len() && eq_ignore_case(#[trigger] a[j], #[trigger] b[k])
}

/// Another app (a different app id) already owns one of `e`'s hostnames.
pub open spec fn has_conflict(apps: Seq<AppView>, e: AppView) -> bool {
    exists|i: int| 0 <= i < apps.len() && (#[trigger] apps[i]).0 != e.0 && shares_hostname(apps[i].1, e.1)
}

pub open spec fn same_id(id: Seq<char>) -> spec_fn(AppView) -> bool {
    |a: AppView| a.0 == id
}

/// Registration of `e`: the first app with the same id is replaced,
/// otherwise `e` is appended.
pub open spec fn upsert(apps: Seq<AppView>, e: AppView) -> Seq<AppView> {
    match first_where(apps, same_id(e.0)) {
        Some(i) => apps.update(i, e),
        None => apps.push(e),
    }
}

/// The entry that registering `e` stores: its backend URL without trailing `/`.
pub open spec fn normalized(e: AppView) -> AppView {
    (e.0, e.1, trim_trailing(e.2, '/'))
}

pub open spec fn not_id(id: Seq<char>) -> spec_fn(AppView) -> bool {
    |a: AppView| a.0 != id
}

fn shares_hostname_exec(a: &Vec<String>, b: &Vec<String>) -> (r: bool)
    ensures
        r == shares_hostname(strs(a@), strs(b@)),
{
    let ghost sa = strs(a@);
    let ghost sb = strs(b@);
    let mut j: usize = 0;
    while j < a.len()
        invariant
            j <= a.len(),
            sa == strs(a@),
            sb == strs(b@),
            forall|x: int, y: int|
                0 <= x < j && 0 <= y < sb.len() ==> !eq_ignore_case(#[trigger] sa[x], #[trigger] sb[y]),
        decreases a.len() - j,
    {
        let ha = str_chars(a[j].as_str());
        let mut k: usize = 0;
        while k < b.len()
            invariant
                j < a.len(),
                k <= b.len(),
                sa == strs(a@),
                sb == strs(b@),
                ha@ == sa[j as int],
                forall|y: int| 0 <= y < k ==> !eq_ignore_case(sa[j as int], #[trigger] sb[y]),
            decreases b.len() - k,
        {
            let hb = str_chars(b[k].as_str());
            if eq_ignore_ascii_case(&ha, &hb) {
                assert(eq_ignore_case(sa[j as int], sb[k as int]));
                return true;
            }
            k = k + 1;
        }
        j = j + 1;
    }
    false
}

fn has_conflict_exec(apps: &Vec<t30>, e: &t30) -> (r: bool)
    ensures
        r == has_conflict(app_views(apps@), e@),
{
    let ghost v = app_views(apps@);
    let mut i: usize = 0;
    while i < apps.len()
        invariant
            i <= apps.len(),
            v == app_views(apps@),
            forall|x: int| 0 <= x < i ==> !((#[trigger] v[x]).0 != e@.0 && shares_hostname(v[x].1, e@.1)),
        decreases apps.len() - i,
    {
        let a = &apps[i];
        assert(v[i as int] == a@);
        if !(a.s46 == e.s46) && shares_hostname_exec(&a.s47, &e.s47) {
            return true;
        }
        i = i + 1;
    }
    false
}

fn find_id(apps: &Vec<t30>, id: &String) -> (r: Option<usize>)
    ensures
        match r {
            Some(i) => first_where(app_views(apps@), same_id(id@)) == Some(i as int),
            None => first_where(app_views(apps@), same_id(id@)) is None,
        },
{
    let ghost v = app_views(apps@);
    let ghost p = same_id(id@);
    let mut i: usize = 0;
    while i < apps.len()
        invariant
            i <= apps.len(),
            v == app_views(apps@),
            p == same_id(id@),
            forall|k: int| 0 <= k < i ==> !p(#[trigger] v[k]),
        decreases apps.len() - i,
    {
        if apps[i].s46 == *id {
            proof {
                lemma_first_where_unique(v, p, i as int);
            }
            return Some(i);
        }
        i = i + 1;
    }
    proof {
        lemma_first_where(v, p);
        if first_where(v, p) is Some {
            let j = first_where(v, p)->0;
            assert(!p(v[j]));
        }
    }
    None
}

/// (hostname, backend URL) for every hostname of every app, in order.
pub open spec fn host_pairs(apps: Seq<AppView>) -> Seq<(Seq<char>, Seq<char>)>
    decreases apps.len(),
{
    if apps.len() == 0 {
        Seq::empty()
    } else {
        host_pairs(apps.drop_last()) + apps.last().1.map_values(|h: Seq<char>| (h, apps.last().2))
    }
}

/// The map that inserting the pairs in order builds (later pairs win).
pub open spec fn pairs_map(s: Seq<(Seq<char>, Seq<char>)>) -> Map<Seq<char>, Seq<char>>
    decreases s.len(),
{
    if s.len() == 0 {
        Map::empty()
    } else {
        pairs_map(s.drop_last()).insert(s.last().0, s.last().1)
    }
}

pub open spec fn keys_distinct(s: Seq<(Seq<char>, Seq<char>)>) -> bool {
    forall|a: int, b: int| 0 <= a < b < s.len() ==> (#[trigger] s[a]).0 != (#[trigger] s[b]).0
}

pub open spec fn pair_views(v: Seq<(String, String)>) -> Seq<(Seq<char>, Seq<char>)> {
    v.map_values(|p: (String, String)| (p.0@, p.1@))
}

/// Replacing the value of a present key in a key-distinct list is an
/// insert into its map.
proof fn lemma_pairs_map_update(s: Seq<(Seq<char>, Seq<char>)>, k: int, v: Seq<char>)
    requires
        keys_distinct(s),
        0 <= k < s.len(),
    ensures
        pairs_map(s.update(k, (s[k].0, v))) == pairs_map(s).insert(s[k].0, v),
        keys_distinct(s.update(k, (s[k].0, v))),
    decreases s.len(),
{
    let t = s.update(k, (s[k].0, v));
    if k == s.len() - 1 {
        assert(t.drop_last() =~= s.drop_last());
        assert(pairs_map(t) =~= pairs_map(s).insert(s[k].0, v));
    } else {
        assert(t.drop_last() =~= s.drop_last().update(k, (s[k].0, v)));
        lemma_pairs_map_update(s.drop_last(), k, v);
        assert(s.last().0 != s[k].0);
        assert(pairs_map(t) =~= pairs_map(s).insert(s[k].0, v));
    }
}

fn find_key(out: &Vec<(String, String)>, h: &String) -> (r: Option<usize>)
    ensures
        match r {
            Some(k) => k < out.len() && pair_views(out@)[k as int].0 == h@,
            None => forall|x: int| 0 <= x < out.len() ==> (#[trigger] pair_views(out@)[x]).0 != h@,
        },
{
    let mut k: usize = 0;
    while k < out.len()
        invariant
            k <= out.len(),
            forall|x: int| 0 <= x < k ==> (#[trigger] pair_views(out@)[x]).0 != h@,
        decreases out.len() - k,
    {
        assert(pair_views(out@)[k as int] == (out@[k as int].0@, out@[k as int].1@));
        if out[k].0 == *h {
            return Some(k);
        }
        k = k + 1;
    }
    None
}

impl t32 {
    /// Registers or updates an app. The backend URL is stored without
    /// trailing `/`; an empty one is refused, and so is a hostname that a
    /// different app already owns (the error then starts with `conflict:`).
    pub fn register(&mut self, p0: t30) -> (r: Result<(), String>)
        ensures
            trim_trailing(p0@.2, '/').len() == 0 ==> (r matches Err(e) && e@
                == "backend_url cannot be empty"@ && final(self).apps() == old(self).apps()),
            trim_trailing(p0@.2, '/').len() > 0 && has_conflict(old(self).apps(), p0@) ==> (r matches Err(
                e,
            ) && e@ == "conflict: hostname already registered by another app"@ && final(self).apps()
                == old(self).apps()),
            trim_trailing(p0@.2, '/').len() > 0 && !has_conflict(old(self).apps(), p0@) ==> (r is Ok
                && final(self).apps() == upsert(old(self).apps(), normalized(p0@))),
    {
        let raw = str_chars(p0.s48.as_str());
        let backend = trim_end_char(&raw, '/');
        if backend.len() == 0 {
            return Err("backend_url cannot be empty".to_string());
        }
        if has_conflict_exec(&self.data.apps, &p0) {
            return Err("conflict: hostname already registered by another app".to_string());
        }
        let ghost v = self.apps();
        let entry = t30 { s46: p0.s46, s47: p0.s47, s48: string_from(&backend) };
        assert(entry@ == normalized(p0@));
        match find_id(&self.data.apps, &entry.s46) {
            Some(i) => {
                let ghost e = entry@;
                proof {
                    lemma_first_where(v, same_id(e.0));
                }
                self.data.apps.set(i, entry);
                assert(self.apps() =~= v.update(i as int, e));
            },
            None => {
                let ghost e = entry@;
                self.data.apps.push(entry);
                assert(self.apps() =~= v.push(e));
            },
        }
        Ok(())
    }

    /// Removes every app with this id; `true` when one was there.
    pub fn unregister(&mut self, p0: &str) -> (r: bool)
        ensures
            final(self).apps() == old(self).apps().filter(not_id(p0@)),
            r == (exists|i: int| 0 <= i < old(self).apps().len() && (#[trigger] old(self).apps()[i]).0 == p0@),
    {
        let ghost v = self.apps();
        let ghost p = not_id(p0@);
        let id = p0.to_string();
        let mut kept: Vec<t30> = Vec::new();
        let mut removed = false;
        let mut i: usize = 0;
        while i < self.data.apps.len()
            invariant
                i <= self.data.apps.len(),
                v == self.apps(),
                v == app_views(self.data.apps@),
                p == not_id(p0@),
                id@ == p0@,
                app_views(kept@) == v.take(i as int).filter(p),
                removed == (exists|k: int| 0 <= k < i && (#[trigger] v[k]).0 == p0@),
            decreases self.data.apps.len() - i,
        {
            let a = &self.data.apps[i];
            assert(v[i as int] == a@);
            proof {
                reveal(Seq::filter);
                assert(v.take(i + 1).drop_last() =~= v.take(i as int));
            }
            if a.s46 == id {
                removed = true;
                assert(v.take(i + 1).filter(p) == v.take(i as int).filter(p));
            } else {
                let c = a.clone();
                let ghost before = kept@;
                kept.push(c);
                assert(app_views(kept@) =~= app_views(before).push(c@));
                assert(v.take(i + 1).filter(p) == v.take(i as int).filter(p).push(v[i as int]));
            }
            i = i + 1;
        }
        assert(v.take(v.len() as int) =~= v);
        self.data.apps = kept;
        removed
    }

    /// hostname → backend URL for every registered hostname; when a
    /// hostname appears more than once the later registration wins.
    pub fn hostname_map(&self) -> (r: Vec<(String, String)>)
        ensures
            keys_distinct(pair_views(r@)),
            pairs_map(pair_views(r@)) == pairs_map(host_pairs(self.apps())),
    {
        let ghost v = self.apps();
        let mut out: Vec<(String, String)> = Vec::new();
        let mut i: usize = 0;
        while i < self.data.apps.len()
            invariant
                i <= self.data.apps.len(),
                v == self.apps(),
                v == app_views(self.data.apps@),
                keys_distinct(pair_views(out@)),
                pairs_map(pair_views(out@)) == pairs_map(host_pairs(v.take(i as int))),
            decreases self.data.apps.len() - i,
        {
            let a = &self.data.apps[i];
            assert(v[i as int] == a@);
            let ghost done = host_pairs(v.take(i as int));
            let ghost mine = a@.1.map_values(|h: Seq<char>| (h, a@.2));
            assert(v.take(i + 1).drop_last() =~= v.take(i as int));
            assert(host_pairs(v.take(i + 1)) == done + mine);
            let mut j: usize = 0;
            while j < a.s47.len()
                invariant
                    i < self.data.apps.len(),
                    a == &self.data.apps[i as int],
                    j <= a.s47.len(),
                    mine == a@.1.map_values(|h: Seq<char>| (h, a@.2)),
                    keys_distinct(pair_views(out@)),
                    pairs_map(pair_views(out@)) == pairs_map(done + mine.take(j as int)),
                decreases a.s47.len() - j,
            {
                let h = &a.s47[j];
                let ghost hv = h@;
                assert(mine[j as int] == (hv, a@.2));
                assert((done + mine.take(j + 1)).drop_last() =~= done + mine.take(j as int));
                assert((done + mine.take(j + 1)).last() == (hv, a@.2));
                assert(pairs_map(done + mine.take(j + 1)) == pairs_map(done + mine.take(j as int)).insert(
                    hv,
                    a@.2,
                ));
                let ghost pv = pair_views(out@);
                let found = find_key(&out, h);
                if let Some(k) = found {
                    proof {
                        lemma_pairs_map_update(pv, k as int, a@.2);
                    }
                    let ghost before = out@;
                    out.set(k, (h.clone(), a.s48.clone()));
                    assert(pair_views(out@) =~= pv.update(k as int, (pv[k as int].0, a@.2)));
                    assert(pv[k as int].0 == hv);
                } else {
                    let ghost before = out@;
                    out.push((h.clone(), a.s48.clone()));
                    assert(pair_views(out@) =~= pv.push((hv, a@.2)));
                    assert(pv.push((hv, a@.2)).drop_last() =~= pv);
                    assert(pairs_map(pv.push((hv, a@.2))) == pairs_map(pv).insert(hv, a@.2));
                }
                j = j + 1;
            }
            assert(mine.take(mine.len() as int) =~= mine);
            i = i + 1;
        }
        assert(v.take(v.len() as int) =~= v);
        out
    }

    /// The registered apps, in registration order.
    pub fn list_apps(&self) -> (r: Vec<t30>)
        ensures
            app_views(r@) == self.apps(),
    {
        let ghost v = self.apps();
        let mut out: Vec<t30> = Vec::new();
        let mut i: usize = 0;
        while i < self.data.apps.len()
            invariant
                i <= self.data.apps.len(),
                v == app_views(self.data.apps@),
                app_views(out@) == v.take(i as int),
            decreases self.data.apps.len() - i,
        {
            let c = self.data.apps[i].clone();
            let ghost before = out@;
            out.push(c);
            assert(app_views(out@) =~= app_views(before).push(c@));
            assert(v.take(i + 1) =~= v.take(i as int).push(v[i as int]));
            i = i + 1;
        }
        assert(v.take(v.len() as int) =~= v);
        out
    }
}

// ---------------------------------------------------------------------------
// Laws
// ---------------------------------------------------------------------------

/// After a successful registration, a request for any of the app's
/// hostnames (in any ASCII case) is routed to that app and its backend.
pub proof fn law_registered_hostname_routes_to_app(apps: Seq<AppView>, e: AppView, k: int, host: Seq<char>)
    requires
        trim_trailing(e.2, '/').len() > 0,
        !has_conflict(apps, e),
        0 <= k < e.1.len(),
        eq_ignore_case(host, e.1[k]),
        host.len() > 0,
    ensures
        route_of(upsert(apps, normalized(e)), host) == Some((e.0, trim_trailing(e.2, '/'))),
{
    let ne = normalized(e);
    let n = upsert(apps, ne);
    let m = matcher(host, false);
    lemma_first_where(apps, same_id(e.0));
    let idx: int = match first_where(apps, same_id(e.0)) {
        Some(i) => i,
        None => apps.len() as int,
    };
    assert(n[idx] == ne);
    assert(host_matches(n[idx].1[k], host, false));
    assert(m(n[idx]));
    assert forall|x: int| 0 <= x < idx implies !m(#[trigger] n[x]) by {
        assert(n[x] == apps[x]);
        assert(apps[x].0 != e.0);
        if m(n[x]) {
            let j = choose|j: int| 0 <= j < apps[x].1.len() && host_matches(#[trigger] apps[x].1[j], host, false);
            assert(eq_ignore_case(apps[x].1[j], e.1[k]));
            assert(shares_hostname(apps[x].1, e.1));
            assert(has_conflict(apps, e));
        }
    }
    lemma_first_where_unique(n, m, idx);
}

/// After unregistering an app id, no request is routed to that app id.
pub proof fn law_unregistered_app_is_never_routed(apps: Seq<AppView>, id: Seq<char>, host: Seq<char>)
    ensures
        route_of(apps.filter(not_id(id)), host) matches Some(found) ==> found.0 != id,
{
    let f = apps.filter(not_id(id));
    lemma_first_where(f, matcher(host, false));
    lemma_first_where(f, matcher(host, true));
    if let Some(i) = route_index(f, host) {
        apps.lemma_filter_pred(not_id(id), i);
    }
}

proof fn lemma_host_matches_case(p: Seq<char>, h1: Seq<char>, h2: Seq<char>, wild: bool)
    requires
        crate::text::lower(h1) == crate::text::lower(h2),
    ensures
        host_matches(p, h1, wild) == host_matches(p, h2, wild),
{
    assert(h1.len() == crate::text::lower(h1).len());
    assert(h2.len() == crate::text::lower(h2).len());
    if p.len() >= 2 && h1.len() > p.len() - 1 {
        let a = h1.len() - (p.len() - 1);
        let b = h1.len() as int;
        assert(crate::text::lower(h1.subrange(a, b)) =~= crate::text::lower(h1).subrange(a, b));
        assert(crate::text::lower(h2.subrange(a, b)) =~= crate::text::lower(h2).subrange(a, b));
    }
}

/// Routing does not depend on the ASCII case of the requested host.
pub proof fn law_routing_ignores_ascii_case(apps: Seq<AppView>, h1: Seq<char>, h2: Seq<char>)
    requires
        crate::text::lower(h1) == crate::text::lower(h2),
    ensures
        route_of(apps, h1) == route_of(apps, h2),
{
    assert(h1.len() == crate::text::lower(h1).len());
    assert(h2.len() == crate::text::lower(h2).len());
    assert forall|w: bool| #[trigger] matcher(h1, w) == matcher(h2, w) by {
        assert forall|a: AppView| #[trigger] app_matches(a, h1, w) == app_matches(a, h2, w) by {
            assert forall|j: int| 0 <= j < a.1.len() implies host_matches(#[trigger] a.1[j], h1, w) == host_matches(a.1[j], h2, w) by {
                lemma_host_matches_case(a.1[j], h1, h2, w);
            }
            if app_matches(a, h1, w) {
                let j = choose|j: int| 0 <= j < a.1.len() && host_matches(#[trigger] a.1[j], h1, w);
                assert(host_matches(a.1[j], h2, w));
            }
            if app_matches(a, h2, w) {
                let j = choose|j: int| 0 <= j < a.1.len() && host_matches(#[trigger] a.1[j], h2, w);
                assert(host_matches(a.1[j], h1, w));
            }
        }
        assert(matcher(h1, w) =~= matcher(h2, w));
    }
}

/// Pairs of one app: each of its hostnames with its backend.
pub open spec fn app_pairs(hosts: Seq<Seq<char>>, b: Seq<char>) -> Seq<(Seq<char>, Seq<char>)> {
    hosts.map_values(|h: Seq<char>| (h, b))
}

proof fn lemma_pairs_map_append(s: Seq<(Seq<char>, Seq<char>)>, hosts: Seq<Seq<char>>, b: Seq<char>, h: Seq<char>)
    ensures
        pairs_map(s + app_pairs(hosts, b)).dom().contains(h) == (pairs_map(s).dom().contains(h) || hosts.contains(h)),
        hosts.contains(h) ==> pairs_map(s + app_pairs(hosts, b))[h] == b,
        !hosts.contains(h) ==> pairs_map(s + app_pairs(hosts, b))[h] == pairs_map(s)[h],
    decreases hosts.len(),
{
    if hosts.len() == 0 {
        assert(s + app_pairs(hosts, b) =~= s);
    } else {
        let pre = hosts.drop_last();
        lemma_pairs_map_append(s, pre, b, h);
        let t = s + app_pairs(hosts, b);
        assert(t.drop_last() =~= s + app_pairs(pre, b));
        assert(t.last() == (hosts.last(), b));
        if hosts.contains(h) && !pre.contains(h) {
            assert(hosts.last() == h) by {
                let j = choose|j: int| 0 <= j < hosts.len() && hosts[j] == h;
                if j < hosts.len() - 1 {
                    assert(pre[j] == h);
                }
            }
        }
        if pre.contains(h) {
            let j = choose|j: int| 0 <= j < pre.len() && pre[j] == h;
            assert(hosts[j] == h);
        }
        if hosts.last() == h {
            assert(hosts[hosts.len() - 1] == h);
        }
    }
}

/// With no hostname shared by two apps, the backend the hostname map gives
/// for a hostname is the backend of the one app that lists it.
proof fn lemma_pairs_map_of_unique(apps: Seq<AppView>, h: Seq<char>, i: int)
    requires
        0 <= i < apps.len(),
        apps[i].1.contains(h),
        forall|k: int| 0 <= k < apps.len() && k != i ==> !(#[trigger] apps[k]).1.contains(h),
    ensures
        pairs_map(host_pairs(apps)).dom().contains(h),
        pairs_map(host_pairs(apps))[h] == apps[i].2,
    decreases apps.len(),
{
    let last = apps.len() - 1;
    let pre = apps.drop_last();
    assert(host_pairs(apps) == host_pairs(pre) + app_pairs(apps.last().1, apps.last().2));
    lemma_pairs_map_append(host_pairs(pre), apps.last().1, apps.last().2, h);
    if i < last {
        assert forall|k: int| 0 <= k < pre.len() && k != i implies !(#[trigger] pre[k]).1.contains(h) by {
            assert(pre[k] == apps[k]);
        }
        assert(pre[i] == apps[i]);
        lemma_pairs_map_of_unique(pre, h, i);
        assert(!apps[last].1.contains(h));
    }
}

/// Every key of the hostname map is listed by some app.
proof fn lemma_pairs_map_key_listed(apps: Seq<AppView>, h: Seq<char>)
    requires
        pairs_map(host_pairs(apps)).dom().contains(h),
    ensures
        exists|i: int| 0 <= i < apps.len() && (#[trigger] apps[i]).1.contains(h),
    decreases apps.len(),
{
    if apps.len() == 0 {
        assert(host_pairs(apps) =~= Seq::<(Seq<char>, Seq<char>)>::empty());
    } else {
        let pre = apps.drop_last();
        assert(host_pairs(apps) == host_pairs(pre) + app_pairs(apps.last().1, apps.last().2));
        lemma_pairs_map_append(host_pairs(pre), apps.last().1, apps.last().2, h);
        if apps.last().1.contains(h) {
            assert(apps[apps.len() - 1].1.contains(h));
        } else {
            lemma_pairs_map_key_listed(pre, h);
            let i = choose|i: int| 0 <= i < pre.len() && (#[trigger] pre[i]).1.contains(h);
            assert(apps[i] == pre[i]);
        }
    }
}

/// When no two apps share a hostname (ASCII case ignored), every non-empty
/// hostname of the hostname map routes to an app whose backend is the one the
/// map gives for it.
pub proof fn law_hostname_map_agrees_with_routing(apps: Seq<AppView>, h: Seq<char>)
    requires
        forall|a: int, b: int| 0 <= a < b < apps.len() ==> !shares_hostname(#[trigger] apps[a].1, #[trigger] apps[b].1),
        pairs_map(host_pairs(apps)).dom().contains(h),
        h.len() > 0,
    ensures
        match route_of(apps, h) {
            Some(r) => r.1 == pairs_map(host_pairs(apps))[h],
            None => false,
        },
{
    lemma_pairs_map_key_listed(apps, h);
    let i = choose|i: int| 0 <= i < apps.len() && (#[trigger] apps[i]).1.contains(h);
    let j = choose|j: int| 0 <= j < apps[i].1.len() && apps[i].1[j] == h;
    assert forall|k: int| 0 <= k < apps.len() && k != i implies !(#[trigger] apps[k]).1.contains(h) by {
        if apps[k].1.contains(h) {
            let jk = choose|jk: int| 0 <= jk < apps[k].1.len() && apps[k].1[jk] == h;
            if k < i {
                assert(eq_ignore_case(apps[k].1[jk], apps[i].1[j]));
                assert(shares_hostname(apps[k].1, apps[i].1));
            } else {
                assert(eq_ignore_case(apps[i].1[j], apps[k].1[jk]));
                assert(shares_hostname(apps[i].1, apps[k].1));
            }
        }
    }
    lemma_pairs_map_of_unique(apps, h, i);
    assert(host_matches(apps[i].1[j], h, false));
    assert(matcher(h, false)(apps[i]));
    assert forall|k: int| 0 <= k < i implies !(#[trigger] matcher(h, false)(apps[k])) by {
        if matcher(h, false)(apps[k]) {
            let jk = choose|jk: int| 0 <= jk < apps[k].1.len() && host_matches(#[trigger] apps[k].1[jk], h, false);
            assert(eq_ignore_case(apps[k].1[jk], apps[i].1[j]));
            assert(shares_hostname(apps[k].1, apps[i].1));
        }
    }
    lemma_first_where_unique(apps, matcher(h, false), i);
}

} // verus!
