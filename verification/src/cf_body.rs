//! JSON request bodies of the Cloudflare API calls, written as text.

use vstd::prelude::*;

use crate::cloudflare::rule_views;
use crate::text::{extend_chars, extend_str, str_chars, string_from};

verus! {

/// Hexadecimal digit `d` (below 16), lower case.
pub open spec fn hex_digit(d: nat) -> char {
    if d < 10 {
        (48 + d) as char
    } else {
        (87 + d) as char
    }
}

/// `c` inside a JSON string: quote and backslash escaped, control
/// characters as `\u00XX`, everything else as itself.
pub open spec fn json_char(c: char) -> Seq<char> {
    if c == '"' {
        seq!['\\', '"']
    } else if c == '\\' {
        seq!['\\', '\\']
    } else if (c as u32) < 32 {
        seq!['\\', 'u', '0', '0', hex_digit(((c as u32) / 16) as nat), hex_digit(((c as u32) % 16) as nat)]
    } else {
        seq![c]
    }
}

pub open spec fn json_chars(s: Seq<char>) -> Seq<char>
    decreases s.len(),
{
    if s.len() == 0 {
        Seq::empty()
    } else {
        json_chars(s.drop_last()) + json_char(s.last())
    }
}

/// `s` as a JSON string literal.
pub open spec fn json_quote(s: Seq<char>) -> Seq<char> {
    seq!['"'] + json_chars(s) + seq!['"']
}

fn hex_digit_exec(d: u32) -> (r: char)
    requires
        d < 16,
    ensures
        r == hex_digit(d as nat),
{
    if d < 10 {
        ((d as u8) + 48) as char
    } else {
        ((d as u8) + 87) as char
    }
}

/// Appends `s` as a JSON string literal.
fn push_quoted(out: &mut Vec<char>, s: &str)
    ensures
        final(out)@ == old(out)@ + json_quote(s@),
{
    let v = str_chars(s);
    let ghost start = out@;
    out.push('"');
    let mut i: usize = 0;
    while i < v.len()
        invariant
            i <= v.len(),
            v@ == s@,
            out@ == start + seq!['"'] + json_chars(v@.take(i as int)),
        decreases v.len() - i,
    {
        let c = v[i];
        assert(v@.take(i + 1).drop_last() =~= v@.take(i as int));
        assert(v@.take(i + 1).last() == c);
        let ghost before = out@;
        if c == '"' {
            out.push('\\');
            out.push('"');
        } else if c == '\\' {
            out.push('\\');
            out.push('\\');
        } else if (c as u32) < 32 {
            let n = c as u32;
            out.push('\\');
            out.push('u');
            out.push('0');
            out.push('0');
            out.push(hex_digit_exec(n / 16));
            out.push(hex_digit_exec(n % 16));
        } else {
            out.push(c);
        }
        assert(out@ =~= before + json_char(c));
        i = i + 1;
        assert(out@ =~= start + seq!['"'] + json_chars(v@.take(i as int)));
    }
    assert(v@.take(v@.len() as int) =~= v@);
    out.push('"');
    assert(out@ =~= start + json_quote(s@));
}

/// Body of a proxied CNAME record `name` pointing at `content`.
pub open spec fn cname_body_spec(name: Seq<char>, content: Seq<char>) -> Seq<char> {
    "{\"type\":\"CNAME\",\"name\":"@ + json_quote(name) + ",\"content\":"@ + json_quote(content)
        + ",\"ttl\":1,\"proxied\":true}"@
}

pub fn cname_body(name: &str, content: &str) -> (r: String)
    ensures
        r@ == cname_body_spec(name@, content@),
{
    let mut v = str_chars("{\"type\":\"CNAME\",\"name\":");
    push_quoted(&mut v, name);
    extend_str(&mut v, ",\"content\":");
    push_quoted(&mut v, content);
    extend_str(&mut v, ",\"ttl\":1,\"proxied\":true}");
    string_from(&v)
}

/// Body of an address record update to `content`, of the type the address
/// calls for, with a five-minute TTL.
pub open spec fn address_body_spec(content: Seq<char>) -> Seq<char> {
    let t = if content.contains(':') {
        "AAAA"@
    } else {
        "A"@
    };
    "{\"type\":"@ + json_quote(t) + ",\"content\":"@ + json_quote(content) + ",\"ttl\":300}"@
}

pub fn address_body(content: &str) -> (r: String)
    ensures
        r@ == address_body_spec(content@),
{
    let t = crate::cloudflare::dns_record_type(content);
    let mut v = str_chars("{\"type\":");
    push_quoted(&mut v, t);
    extend_str(&mut v, ",\"content\":");
    push_quoted(&mut v, content);
    extend_str(&mut v, ",\"ttl\":300}");
    string_from(&v)
}

/// One ingress rule: `{"hostname":..,"service":..}`, or only the service
/// for the catch-all.
pub open spec fn rule_json(r: (Option<Seq<char>>, Seq<char>)) -> Seq<char> {
    match r.0 {
        Some(h) => "{\"hostname\":"@ + json_quote(h) + ",\"service\":"@ + json_quote(r.1) + "}"@,
        None => "{\"service\":"@ + json_quote(r.1) + "}"@,
    }
}

/// The rules, comma-separated.
pub open spec fn rules_json(rs: Seq<(Option<Seq<char>>, Seq<char>)>) -> Seq<char>
    decreases rs.len(),
{
    if rs.len() == 0 {
        Seq::empty()
    } else if rs.len() == 1 {
        rule_json(rs[0])
    } else {
        rules_json(rs.drop_last()) + ","@ + rule_json(rs.last())
    }
}

/// Body of a tunnel configuration with the given ingress rules.
pub open spec fn ingress_body_spec(rs: Seq<(Option<Seq<char>>, Seq<char>)>) -> Seq<char> {
    "{\"config\":{\"ingress\":["@ + rules_json(rs) + "]}}"@
}

pub fn ingress_body(rules: &Vec<(Option<String>, String)>) -> (r: String)
    ensures
        r@ == ingress_body_spec(rule_views(rules@)),
{
    let ghost rs = rule_views(rules@);
    let mut v = str_chars("{\"config\":{\"ingress\":[");
    let ghost head = v@;
    let mut i: usize = 0;
    while i < rules.len()
        invariant
            i <= rules.len(),
            rs == rule_views(rules@),
            v@ == head + rules_json(rs.take(i as int)),
        decreases rules.len() - i,
    {
        let ghost before = v@;
        assert(rs.take(i + 1).drop_last() =~= rs.take(i as int));
        assert(rs.take(i + 1).last() == rs[i as int]);
        if i > 0 {
            extend_str(&mut v, ",");
        }
        match &rules[i].0 {
            Some(h) => {
                extend_str(&mut v, "{\"hostname\":");
                push_quoted(&mut v, h.as_str());
                extend_str(&mut v, ",\"service\":");
                push_quoted(&mut v, rules[i].1.as_str());
                extend_str(&mut v, "}");
            },
            None => {
                extend_str(&mut v, "{\"service\":");
                push_quoted(&mut v, rules[i].1.as_str());
                extend_str(&mut v, "}");
            },
        }
        i = i + 1;
        if i == 1 {
            assert(rs.take(1)[0] == rs[0]);
        }
        assert(v@ =~= head + rules_json(rs.take(i as int)));
    }
    assert(rs.take(rs.len() as int) =~= rs);
    extend_str(&mut v, "]}}");
    string_from(&v)
}

/// Body of a zone setting change to `value`.
pub open spec fn setting_body_spec(value: Seq<char>) -> Seq<char> {
    "{\"value\":"@ + json_quote(value) + "}"@
}

pub fn setting_body(value: &str) -> (r: String)
    ensures
        r@ == setting_body_spec(value@),
{
    let mut v = str_chars("{\"value\":");
    push_quoted(&mut v, value);
    extend_str(&mut v, "}");
    string_from(&v)
}

/// Body of a full cache purge.
pub fn purge_body() -> (r: &'static str)
    ensures
        r@ == "{\"purge_everything\":true}"@,
{
    "{\"purge_everything\":true}"
}

} // verus!
