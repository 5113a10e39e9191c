//! `.env` files: `KEY=VALUE` lines as the router's start-up commands read
//! them, and the Cloudflare keys that only the router's own file may set.

use vstd::prelude::*;

use crate::text::{
    before, before_char, chars_eq, contains_char, slice_chars, split_chars, split_seq, str_chars,
    string_from, trim, trim_chars, trim_end_char, trim_leading, trim_start_char, trim_trailing,
    views,
};

verus! {

/// A value without surrounding double quotes (`trim_matches('"')`).
pub open spec fn unquote(v: Seq<char>) -> Seq<char> {
    trim_trailing(trim_leading(v, '"'), '"')
}

/// The assignment a line holds: `KEY=VALUE` with the key and the value
/// trimmed and the value unquoted; blank lines, `#` comments, lines without
/// `=` and assignments with an empty key or value hold none.
pub open spec fn line_assignment(line: Seq<char>) -> Option<(Seq<char>, Seq<char>)> {
    let l = trim(line);
    if l.len() == 0 || l[0] == '#' || !l.contains('=') {
        None
    } else {
        let k = trim(before_char(l, '='));
        let v = unquote(trim(l.subrange(before_char(l, '=').len() + 1 as int, l.len() as int)));
        if k.len() > 0 && v.len() > 0 {
            Some((k, v))
        } else {
            None
        }
    }
}

/// The assignments of a file's lines, in order.
pub open spec fn assignments(lines: Seq<Seq<char>>) -> Seq<(Seq<char>, Seq<char>)>
    decreases lines.len(),
{
    if lines.len() == 0 {
        Seq::empty()
    } else {
        let rest = assignments(lines.drop_last());
        match line_assignment(lines.last()) {
            Some(a) => rest.push(a),
            None => rest,
        }
    }
}

pub open spec fn pair_views(v: Seq<(String, String)>) -> Seq<(Seq<char>, Seq<char>)> {
    v.map_values(|p: (String, String)| (p.0@, p.1@))
}

/// The assignment a line holds, if any.
pub fn parse_line(line: &Vec<char>) -> (r: Option<(String, String)>)
    ensures
        match line_assignment(line@) {
            Some(a) => r matches Some(p) && p.0@ == a.0 && p.1@ == a.1,
            None => r is None,
        },
{
    let l = trim_chars(line);
    if l.len() == 0 || l[0] == '#' || !contains_char(&l, '=') {
        return None;
    }
    let key_part = before(&l, '=');
    proof {
        crate::text::lemma_before_char_is_prefix(l@, '=');
        if key_part@.len() == l@.len() {
            assert(key_part@ =~= l@);
            assert(!l@.contains('='));
        }
    }
    let k = trim_chars(&key_part);
    let rest = slice_chars(&l, key_part.len() + 1, l.len());
    let v = trim_end_char(&trim_start_char(&trim_chars(&rest), '"'), '"');
    if k.len() > 0 && v.len() > 0 {
        Some((string_from(&k), string_from(&v)))
    } else {
        None
    }
}

/// The assignments of a `.env` file's text, in order (later ones win when
/// applied).
pub fn env_assignments(content: &str) -> (r: Vec<(String, String)>)
    ensures
        pair_views(r@) == assignments(split_seq(content@, '\n')),
{
    let lines = split_chars(&str_chars(content), '\n');
    let ghost lv = views(lines@);
    let mut out: Vec<(String, String)> = Vec::new();
    let mut i: usize = 0;
    while i < lines.len()
        invariant
            i <= lines.len(),
            lv == views(lines@),
            lv == split_seq(content@, '\n'),
            pair_views(out@) == assignments(lv.take(i as int)),
        decreases lines.len() - i,
    {
        assert(lv.take(i + 1).drop_last() =~= lv.take(i as int));
        assert(lv.take(i + 1).last() == lines@[i as int]@);
        match parse_line(&lines[i]) {
            Some(p) => {
                let ghost before = out@;
                let ghost pv = (p.0@, p.1@);
                out.push(p);
                assert(pair_views(out@) =~= pair_views(before).push(pv));
            },
            None => {},
        }
        i = i + 1;
    }
    assert(lv.take(lv.len() as int) =~= lv);
    out
}

/// Cloudflare settings that only the router's own `.env` may set.
pub open spec fn is_cf_key(k: Seq<char>) -> bool {
    ||| k == "CF_TOKEN"@
    ||| k == "CLOUDFLARE_API_TOKEN"@
    ||| k == "CF_ACCOUNT_ID"@
    ||| k == "CLOUDFLARE_ACCOUNT_ID"@
    ||| k == "CF_TUNNEL_ID"@
    ||| k == "TUNNEL_TOKEN"@
}

pub fn cf_key(k: &str) -> (r: bool)
    ensures
        r == is_cf_key(k@),
{
    let v = str_chars(k);
    chars_eq(&v, &str_chars("CF_TOKEN")) || chars_eq(&v, &str_chars("CLOUDFLARE_API_TOKEN"))
        || chars_eq(&v, &str_chars("CF_ACCOUNT_ID")) || chars_eq(&v, &str_chars("CLOUDFLARE_ACCOUNT_ID"))
        || chars_eq(&v, &str_chars("CF_TUNNEL_ID")) || chars_eq(&v, &str_chars("TUNNEL_TOKEN"))
}

pub open spec fn is_api_token_key(k: Seq<char>) -> bool {
    k == "CF_TOKEN"@ || k == "CLOUDFLARE_API_TOKEN"@
}

/// The first Cloudflare API token a `.env` file assigns.
pub open spec fn first_api_token(a: Seq<(Seq<char>, Seq<char>)>) -> Option<Seq<char>>
    decreases a.len(),
{
    if a.len() == 0 {
        None
    } else {
        match first_api_token(a.drop_last()) {
            Some(t) => Some(t),
            None => if is_api_token_key(a.last().0) {
                Some(a.last().1)
            } else {
                None
            },
        }
    }
}

pub fn api_token_in(content: &str) -> (r: Option<String>)
    ensures
        match first_api_token(assignments(split_seq(content@, '\n'))) {
            Some(t) => r matches Some(s) && s@ == t,
            None => r is None,
        },
{
    let a = env_assignments(content);
    let ghost av = pair_views(a@);
    let mut i: usize = 0;
    while i < a.len()
        invariant
            i <= a.len(),
            av == pair_views(a@),
            av == assignments(split_seq(content@, '\n')),
            first_api_token(av.take(i as int)) is None,
        decreases a.len() - i,
    {
        assert(av.take(i + 1).drop_last() =~= av.take(i as int));
        assert(av.take(i + 1).last() == (a@[i as int].0@, a@[i as int].1@));
        let k = str_chars(a[i].0.as_str());
        if chars_eq(&k, &str_chars("CF_TOKEN")) || chars_eq(&k, &str_chars("CLOUDFLARE_API_TOKEN")) {
            assert(is_api_token_key(av[i as int].0));
            assert(first_api_token(av.take(i + 1)) == Some(av[i as int].1));
            proof {
                lemma_first_token_prefix(av, i as int + 1);
            }
            return Some(a[i].1.clone());
        }
        i = i + 1;
    }
    assert(av.take(av.len() as int) =~= av);
    None
}

proof fn lemma_first_token_prefix(a: Seq<(Seq<char>, Seq<char>)>, k: int)
    requires
        0 <= k <= a.len(),
        first_api_token(a.take(k)) is Some,
    ensures
        first_api_token(a) == first_api_token(a.take(k)),
    decreases a.len(),
{
    if a.len() > k {
        assert(a.drop_last().take(k) =~= a.take(k));
        lemma_first_token_prefix(a.drop_last(), k);
    } else {
        assert(a.take(k) =~= a);
    }
}

/// A token id as shown by the token check: ids longer than 12 characters
/// are cut to their first 8 and `...`.
pub open spec fn masked_id(id: Seq<char>) -> Seq<char> {
    if id.len() > 12 {
        id.take(8) + "..."@
    } else {
        id
    }
}

pub fn mask_token_id(id: &str) -> (r: String)
    ensures
        r@ == masked_id(id@),
{
    let v = str_chars(id);
    if v.len() > 12 {
        let mut out = slice_chars(&v, 0, 8);
        crate::text::extend_str(&mut out, "...");
        string_from(&out)
    } else {
        string_from(&v)
    }
}

pub open spec fn warn_if(cond: bool, msg: Seq<char>) -> Seq<Seq<char>> {
    if cond {
        seq![msg]
    } else {
        Seq::empty()
    }
}

/// Warnings printed before starting everything, for settings that would
/// make a step silently skip.
pub open spec fn warnings_of(has_api_token: bool, has_account_id: bool, has_rogue_repo: bool, has_ronin: bool) -> Seq<Seq<char>> {
    warn_if(!has_api_token, "CF_TOKEN not set — tunnel will not start"@)
        + warn_if(!has_account_id, "CF_ACCOUNT_ID not set — tunnel ingress sync disabled"@)
        + warn_if(!has_rogue_repo, "ROGUE_REPO_ROOT not set and rogue-repo not found — will be skipped"@)
        + warn_if(!has_ronin, "RONIN_ROOT not set and ronin-sites not found — will be skipped"@)
}

pub fn start_warnings(has_api_token: bool, has_account_id: bool, has_rogue_repo: bool, has_ronin: bool) -> (r: Vec<&'static str>)
    ensures
        r@.map_values(|s: &str| s@) == warnings_of(has_api_token, has_account_id, has_rogue_repo, has_ronin),
{
    let mut w: Vec<&'static str> = Vec::new();
    if !has_api_token {
        w.push("CF_TOKEN not set — tunnel will not start");
    }
    if !has_account_id {
        w.push("CF_ACCOUNT_ID not set — tunnel ingress sync disabled");
    }
    if !has_rogue_repo {
        w.push("ROGUE_REPO_ROOT not set and rogue-repo not found — will be skipped");
    }
    if !has_ronin {
        w.push("RONIN_ROOT not set and ronin-sites not found — will be skipped");
    }
    assert(w@.map_values(|s: &str| s@) =~= warnings_of(has_api_token, has_account_id, has_rogue_repo, has_ronin));
    w
}

} // verus!
