//! Reading the JSON answers of outside services: Cloudflare's API, ngrok's
//! local API, `tailscale status --json` and Google's API discovery. Each
//! answer arrives as JSON text; the fields the router looks at are read
//! through `serde_json` (the trusted items below), and every decision taken
//! on them (which id to use, whether the call failed, the error text, which
//! entries to keep) is made here, over those fields.

use vstd::prelude::*;

use crate::cloudflare::{failure_detail, verify_result, VerifyResult, keeps_redirect_rule};
use crate::registry::strs;
use crate::text::{dec, dec_chars, extend_chars, extend_str, join_seq, str_chars, string_from};

verus! {

// ---------------------------------------------------------------------------
// Fields of an answer, as `serde_json` reads them
// ---------------------------------------------------------------------------

/// The error text (`Display`) of `serde_json::from_str::<Value>(raw)` when
/// `raw` is not JSON text; `None` when it is.
pub uninterp spec fn json_error_of(raw: Seq<char>) -> Option<Seq<char>>;

/// `raw` is JSON text.
pub open spec fn json_parses(raw: Seq<char>) -> bool {
    json_error_of(raw) is None
}

/// The error text for text that is not JSON (empty for JSON text).
pub open spec fn json_error_text(raw: Seq<char>) -> Seq<char> {
    match json_error_of(raw) {
        Some(e) => e,
        None => Seq::empty(),
    }
}

/// The string at JSON pointer `ptr` of the JSON text `raw`
/// (`Value::pointer`, then `Value::as_str`).
pub uninterp spec fn json_str_at(raw: Seq<char>, ptr: Seq<char>) -> Option<Seq<char>>;

/// The boolean at JSON pointer `ptr` (`Value::pointer`, then `Value::as_bool`).
pub uninterp spec fn json_bool_at(raw: Seq<char>, ptr: Seq<char>) -> Option<bool>;

/// The unsigned integer at JSON pointer `ptr` (`Value::pointer`, then
/// `Value::as_u64`).
pub uninterp spec fn json_u64_at(raw: Seq<char>, ptr: Seq<char>) -> Option<u64>;

/// The length of the array at JSON pointer `ptr` (`Value::pointer`, then
/// `Value::as_array`).
pub uninterp spec fn json_len_at(raw: Seq<char>, ptr: Seq<char>) -> Option<usize>;

/// `serde_json::from_str::<serde_json::Value>(raw)`, keeping only its error
/// as text. Claimed: the result is `json_error_of(raw)`, a function of the
/// text alone.
#[verifier::external_body]
fn parse_error(raw: &str) -> (r: Option<String>)
    ensures
        match r {
            Some(e) => json_error_of(raw@) == Some(e@),
            None => json_error_of(raw@) is None,
        },
{
    serde_json::from_str::<serde_json::Value>(raw).err().map(|e| e.to_string())
}

/// Parses `raw` with `serde_json::from_str` and reads the string at JSON
/// pointer `ptr`. Claimed: the result is `json_str_at(raw, ptr)`, and it is
/// `None` when `raw` is not JSON.
#[verifier::external_body]
fn str_at(raw: &str, ptr: &str) -> (r: Option<String>)
    ensures
        r matches Some(s) ==> json_str_at(raw@, ptr@) == Some(s@),
        r is None ==> json_str_at(raw@, ptr@) is None,
        !json_parses(raw@) ==> r is None,
{
    let v: serde_json::Value = serde_json::from_str(raw).ok()?;
    v.pointer(ptr).and_then(|x| x.as_str()).map(|s| s.to_string())
}

/// Parses `raw` with `serde_json::from_str` and reads the boolean at JSON
/// pointer `ptr`. Claimed: the result is `json_bool_at(raw, ptr)`, and it is
/// `None` when `raw` is not JSON.
#[verifier::external_body]
fn bool_at(raw: &str, ptr: &str) -> (r: Option<bool>)
    ensures
        r == json_bool_at(raw@, ptr@),
        !json_parses(raw@) ==> r is None,
{
    let v: serde_json::Value = serde_json::from_str(raw).ok()?;
    v.pointer(ptr).and_then(|x| x.as_bool())
}

/// Parses `raw` with `serde_json::from_str` and reads the unsigned integer
/// at JSON pointer `ptr`. Claimed: the result is `json_u64_at(raw, ptr)`,
/// and it is `None` when `raw` is not JSON.
#[verifier::external_body]
fn u64_at(raw: &str, ptr: &str) -> (r: Option<u64>)
    ensures
        r == json_u64_at(raw@, ptr@),
        !json_parses(raw@) ==> r is None,
{
    let v: serde_json::Value = serde_json::from_str(raw).ok()?;
    v.pointer(ptr).and_then(|x| x.as_u64())
}

/// Parses `raw` with `serde_json::from_str` and reads the length of the
/// array at JSON pointer `ptr`. Claimed: the result is
/// `json_len_at(raw, ptr)`, and it is `None` when `raw` is not JSON.
#[verifier::external_body]
fn len_at(raw: &str, ptr: &str) -> (r: Option<usize>)
    ensures
        r == json_len_at(raw@, ptr@),
        !json_parses(raw@) ==> r is None,
{
    let v: serde_json::Value = serde_json::from_str(raw).ok()?;
    v.pointer(ptr).and_then(|x| x.as_array()).map(|a| a.len())
}

// ---------------------------------------------------------------------------
// Common answer fields
// ---------------------------------------------------------------------------

/// The answer says `"success": true`.
pub open spec fn succeeded(raw: Seq<char>) -> bool {
    json_bool_at(raw, "/success"@) == Some(true)
}

/// `result` is a non-empty array.
pub open spec fn first_result_has(raw: Seq<char>) -> bool {
    match json_len_at(raw, "/result"@) {
        Some(n) => n > 0,
        None => false,
    }
}

/// JSON pointer of the `message` of error `i`.
pub open spec fn error_ptr(i: nat) -> Seq<char> {
    "/errors/"@ + dec(i) + "/message"@
}

/// The string messages among the first `n` entries of `errors`, in order.
pub open spec fn error_messages_upto(raw: Seq<char>, n: nat) -> Seq<Seq<char>>
    decreases n,
{
    if n == 0 {
        Seq::empty()
    } else {
        let prev = error_messages_upto(raw, (n - 1) as nat);
        match json_str_at(raw, error_ptr((n - 1) as nat)) {
            Some(m) => prev.push(m),
            None => prev,
        }
    }
}

/// The messages of the `errors` array (`None` when there is no such array).
pub open spec fn error_messages(raw: Seq<char>) -> Option<Seq<Seq<char>>> {
    match json_len_at(raw, "/errors"@) {
        Some(n) => Some(error_messages_upto(raw, n as nat)),
        None => None,
    }
}

/// The failure text of an answer: its error messages joined with `; `, or
/// the raw text when it has no error list.
pub open spec fn detail_of(raw: Seq<char>) -> Seq<char> {
    match error_messages(raw) {
        Some(m) => join_seq(m, "; "@),
        None => raw,
    }
}

/// Whether the answer says `"success": true` (false for text that is not
/// JSON).
pub fn answer_succeeded(raw: &str) -> (r: bool)
    ensures
        r == succeeded(raw@),
{
    match bool_at(raw, "/success") {
        Some(b) => b,
        None => false,
    }
}

fn error_pointer(i: usize) -> (r: String)
    ensures
        r@ == error_ptr(i as nat),
{
    let mut v: Vec<char> = Vec::new();
    extend_str(&mut v, "/errors/");
    extend_chars(&mut v, &dec_chars(i as u64));
    extend_str(&mut v, "/message");
    string_from(&v)
}

/// The messages of the answer's `errors` array.
pub fn answer_errors(raw: &str) -> (r: Option<Vec<String>>)
    ensures
        match r {
            Some(v) => error_messages(raw@) == Some(strs(v@)),
            None => error_messages(raw@) is None,
        },
{
    match len_at(raw, "/errors") {
        Some(n) => {
            let mut out: Vec<String> = Vec::new();
            let mut i: usize = 0;
            while i < n
                invariant
                    i <= n,
                    strs(out@) == error_messages_upto(raw@, i as nat),
                decreases n - i,
            {
                let p = error_pointer(i);
                let ghost prev = strs(out@);
                match str_at(raw, p.as_str()) {
                    Some(m) => {
                        let ghost mv = m@;
                        out.push(m);
                        assert(strs(out@) =~= prev.push(mv));
                    },
                    None => {},
                }
                i = i + 1;
            }
            Some(out)
        },
        None => None,
    }
}

/// The failure text of an answer.
pub fn answer_detail(raw: &str) -> (r: String)
    ensures
        r@ == detail_of(raw@),
{
    failure_detail(answer_errors(raw), raw)
}

// ---------------------------------------------------------------------------
// Decisions on answers
// ---------------------------------------------------------------------------

fn cat2(a: &str, b: &str) -> (r: String)
    ensures
        r@ == a@ + b@,
{
    let mut v = str_chars(a);
    extend_str(&mut v, b);
    string_from(&v)
}

fn cat3(a: &str, b: &str, c: &str) -> (r: String)
    ensures
        r@ == a@ + b@ + c@,
{
    let mut v = str_chars(a);
    extend_str(&mut v, b);
    extend_str(&mut v, c);
    string_from(&v)
}

fn cat4(a: &str, b: &str, c: &str, d: &str) -> (r: String)
    ensures
        r@ == a@ + b@ + c@ + d@,
{
    let mut v = str_chars(a);
    extend_str(&mut v, b);
    extend_str(&mut v, c);
    extend_str(&mut v, d);
    string_from(&v)
}

/// The view of a `Result` of strings.
pub open spec fn res_view(r: Result<String, String>) -> Result<Seq<char>, Seq<char>> {
    match r {
        Ok(s) => Ok(s@),
        Err(e) => Err(e@),
    }
}

/// The string at `ptr` when `result` is a non-empty array, else `None`.
pub open spec fn first_result_str(raw: Seq<char>, ptr: Seq<char>) -> Option<Seq<char>> {
    if first_result_has(raw) {
        json_str_at(raw, ptr)
    } else {
        None
    }
}

fn has_first_result(raw: &str) -> (r: bool)
    ensures
        r == first_result_has(raw@),
{
    match len_at(raw, "/result") {
        Some(n) => n > 0,
        None => false,
    }
}

/// The zone id from a zone lookup answer for `zone`: the answer must be JSON
/// that says `success`, and the zone is the first of `result`. The missing-zone
/// text says "account" for the product zones.
pub open spec fn zone_id_answer(zone: Seq<char>, in_account: bool, raw: Seq<char>) -> Result<Seq<char>, Seq<char>> {
    if !json_parses(raw) {
        Err(json_error_text(raw))
    } else if !succeeded(raw) {
        Err("Zones API failed: "@ + raw)
    } else {
        match first_result_str(raw, "/result/0/id"@) {
            Some(id) => Ok(id),
            None => Err(
                "Zone "@ + zone + (if in_account {
                    " not found in Cloudflare account"@
                } else {
                    " not found in Cloudflare"@
                }),
            ),
        }
    }
}

pub fn zone_id_from_answer(zone: &str, in_account: bool, raw: &str) -> (r: Result<String, String>)
    ensures
        res_view(r) == zone_id_answer(zone@, in_account, raw@),
{
    if let Some(e) = parse_error(raw) {
        return Err(e);
    }
    if !answer_succeeded(raw) {
        return Err(cat2("Zones API failed: ", raw));
    }
    let id = if has_first_result(raw) {
        str_at(raw, "/result/0/id")
    } else {
        None
    };
    match id {
        Some(id) => Ok(id),
        None => {
            let tail = if in_account {
                " not found in Cloudflare account"
            } else {
                " not found in Cloudflare"
            };
            Err(cat3("Zone ", zone, tail))
        },
    }
}

/// The account id of the first zone of a zone lookup answer.
pub open spec fn account_id_answer(raw: Seq<char>) -> Result<Seq<char>, Seq<char>> {
    match first_result_str(raw, "/result/0/account/id"@) {
        Some(a) => Ok(a),
        None => Err("Could not get account_id from zone"@),
    }
}

pub fn account_id_from_answer(raw: &str) -> (r: Result<String, String>)
    ensures
        res_view(r) == account_id_answer(raw@),
{
    let a = if has_first_result(raw) {
        str_at(raw, "/result/0/account/id")
    } else {
        None
    };
    match a {
        Some(a) => Ok(a),
        None => Err("Could not get account_id from zone".to_string()),
    }
}

/// The id of the DNS record a record lookup found: `None` when `result` is
/// not a non-empty array; an error when the answer is not JSON or the first
/// record has no id.
pub open spec fn existing_record_answer(raw: Seq<char>) -> Result<Option<Seq<char>>, Seq<char>> {
    if !json_parses(raw) {
        Err(json_error_text(raw))
    } else if first_result_has(raw) {
        match json_str_at(raw, "/result/0/id"@) {
            Some(id) => Ok(Some(id)),
            None => Err("No record id"@),
        }
    } else {
        Ok(None)
    }
}

pub fn existing_record_from_answer(raw: &str) -> (r: Result<Option<String>, String>)
    ensures
        match r {
            Ok(Some(s)) => existing_record_answer(raw@) == Ok::<Option<Seq<char>>, Seq<char>>(Some(s@)),
            Ok(None) => existing_record_answer(raw@) == Ok::<Option<Seq<char>>, Seq<char>>(None),
            Err(e) => existing_record_answer(raw@) == Err::<Option<Seq<char>>, Seq<char>>(e@),
        },
{
    if let Some(e) = parse_error(raw) {
        return Err(e);
    }
    if has_first_result(raw) {
        match str_at(raw, "/result/0/id") {
            Some(id) => Ok(Some(id)),
            None => Err("No record id".to_string()),
        }
    } else {
        Ok(None)
    }
}

/// How a failed CNAME write is reported.
#[derive(Clone, Copy, PartialEq, Eq, Structural, Debug)]
pub enum CnameWording {
    /// `DNS update <host> failed: <answer>` or `DNS create <host> failed: <answer>`.
    PerAction,
    /// `DNS <host> failed: <answer>`.
    Plain,
    /// `DNS update failed: <detail>` or `DNS create failed: <detail>`.
    Detailed,
}

/// The outcome of a CNAME create (`existing == false`) or update for `host`.
pub open spec fn cname_answer(w: CnameWording, host: Seq<char>, existing: bool, raw: Seq<char>) -> Result<(), Seq<char>> {
    let action = if existing { "update"@ } else { "create"@ };
    if json_parses(raw) && succeeded(raw) {
        Ok(())
    } else if !json_parses(raw) {
        Err(json_error_text(raw))
    } else {
        Err(
            match w {
                CnameWording::PerAction => "DNS "@ + action + " "@ + host + " failed: "@ + raw,
                CnameWording::Plain => "DNS "@ + host + " failed: "@ + raw,
                CnameWording::Detailed => "DNS "@ + action + " failed: "@ + detail_of(raw),
            },
        )
    }
}

pub fn cname_outcome(w: CnameWording, host: &str, existing: bool, raw: &str) -> (r: Result<(), String>)
    ensures
        match r {
            Ok(()) => cname_answer(w, host@, existing, raw@) == Ok::<(), Seq<char>>(()),
            Err(e) => cname_answer(w, host@, existing, raw@) == Err::<(), Seq<char>>(e@),
        },
{
    let perr = parse_error(raw);
    if perr.is_none() && answer_succeeded(raw) {
        return Ok(());
    }
    if let Some(e) = perr {
        return Err(e);
    }
    let action = if existing { "update" } else { "create" };
    match w {
        CnameWording::PerAction => {
            let mut v = str_chars("DNS ");
            extend_str(&mut v, action);
            extend_str(&mut v, " ");
            extend_str(&mut v, host);
            extend_str(&mut v, " failed: ");
            extend_str(&mut v, raw);
            Err(string_from(&v))
        },
        CnameWording::Plain => Err(cat4("DNS ", host, " failed: ", raw)),
        CnameWording::Detailed => {
            let d = answer_detail(raw);
            Err(cat4("DNS ", action, " failed: ", d.as_str()))
        },
    }
}

/// The outcome of an account or zone API call (tunnel configuration, DNS
/// record update): the HTTP status must be a success, the answer JSON, and
/// its `success` true. `dns` selects the wording of a failed HTTP status.
pub open spec fn api_answer(http_ok: bool, status: Seq<char>, raw: Seq<char>, dns: bool) -> Result<(), Seq<char>> {
    if !http_ok {
        Err(
            (if dns {
                "Cloudflare DNS update failed "@
            } else {
                "Cloudflare API error "@
            }) + status + ": "@ + raw,
        )
    } else if !json_parses(raw) {
        Err(json_error_text(raw))
    } else if !succeeded(raw) {
        Err("Cloudflare API failed: "@ + detail_of(raw))
    } else {
        Ok(())
    }
}

pub fn api_outcome(http_ok: bool, status: &str, raw: &str, dns: bool) -> (r: Result<(), String>)
    ensures
        match r {
            Ok(()) => api_answer(http_ok, status@, raw@, dns) == Ok::<(), Seq<char>>(()),
            Err(e) => api_answer(http_ok, status@, raw@, dns) == Err::<(), Seq<char>>(e@),
        },
{
    if !http_ok {
        let head = if dns {
            "Cloudflare DNS update failed "
        } else {
            "Cloudflare API error "
        };
        return Err(cat4(head, status, ": ", raw));
    }
    if let Some(e) = parse_error(raw) {
        return Err(e);
    }
    if !answer_succeeded(raw) {
        let d = answer_detail(raw);
        return Err(cat2("Cloudflare API failed: ", d.as_str()));
    }
    Ok(())
}

/// The outcome of the bundled-products tunnel configuration update: the
/// answer must be JSON that says `success`.
pub open spec fn tunnel_config_answer(raw: Seq<char>) -> Result<(), Seq<char>> {
    if !json_parses(raw) {
        Err(json_error_text(raw))
    } else if !succeeded(raw) {
        Err("Tunnel config update failed: "@ + detail_of(raw))
    } else {
        Ok(())
    }
}

pub fn tunnel_config_outcome(raw: &str) -> (r: Result<(), String>)
    ensures
        match r {
            Ok(()) => tunnel_config_answer(raw@) == Ok::<(), Seq<char>>(()),
            Err(e) => tunnel_config_answer(raw@) == Err::<(), Seq<char>>(e@),
        },
{
    if let Some(e) = parse_error(raw) {
        return Err(e);
    }
    if !answer_succeeded(raw) {
        let d = answer_detail(raw);
        return Err(cat2("Tunnel config update failed: ", d.as_str()));
    }
    Ok(())
}

/// The tunnel token from a token answer: `result` as a string, else
/// `result.token`.
pub open spec fn tunnel_token_answer(http_ok: bool, status: Seq<char>, raw: Seq<char>) -> Result<Seq<char>, Seq<char>> {
    if !http_ok {
        Err("Cloudflare API error "@ + status + ": "@ + raw)
    } else if !json_parses(raw) {
        Err(json_error_text(raw))
    } else if !succeeded(raw) {
        Err("Cloudflare API failed: "@ + detail_of(raw))
    } else {
        match json_str_at(raw, "/result"@) {
            Some(t) => Ok(t),
            None => match json_str_at(raw, "/result/token"@) {
                Some(t) => Ok(t),
                None => Err("Cloudflare token response missing result or result.token"@),
            },
        }
    }
}

pub fn tunnel_token_from_answer(http_ok: bool, status: &str, raw: &str) -> (r: Result<String, String>)
    ensures
        res_view(r) == tunnel_token_answer(http_ok, status@, raw@),
{
    match api_outcome(http_ok, status, raw, false) {
        Err(e) => Err(e),
        Ok(()) => match str_at(raw, "/result") {
            Some(t) => Ok(t),
            None => match str_at(raw, "/result/token") {
                Some(t) => Ok(t),
                None => Err("Cloudflare token response missing result or result.token".to_string()),
            },
        },
    }
}

/// The token id of a verification answer: `result.id` as a string, or as a
/// number written in decimal.
pub open spec fn verify_id(raw: Seq<char>) -> Option<Seq<char>> {
    match json_str_at(raw, "/result/id"@) {
        Some(s) => Some(s),
        None => match json_u64_at(raw, "/result/id"@) {
            Some(n) => Some(dec(n as nat)),
            None => None,
        },
    }
}

/// The token verification outcome from the HTTP status class and the
/// answer (an answer that is not JSON has no fields).
pub fn verify_from_answer(http_ok: bool, raw: &str) -> (r: VerifyResult)
    ensures
        r.ok == (http_ok && json_bool_at(raw@, "/success"@) == Some(true)),
        r.status@ == (match json_str_at(raw@, "/result/status"@) {
            Some(s) => s,
            None => if http_ok {
                "active"@
            } else {
                "error"@
            },
        }),
        r.id@ == (match verify_id(raw@) {
            Some(s) => s,
            None => Seq::<char>::empty(),
        }),
        r.expires@ == (match json_str_at(raw@, "/result/expires_on"@) {
            Some(s) => s,
            None => Seq::<char>::empty(),
        }),
{
    let id = match str_at(raw, "/result/id") {
        Some(s) => Some(s),
        None => match u64_at(raw, "/result/id") {
            Some(n) => Some(string_from(&dec_chars(n))),
            None => None,
        },
    };
    verify_result(
        http_ok,
        bool_at(raw, "/success"),
        str_at(raw, "/result/status"),
        id,
        str_at(raw, "/result/expires_on"),
    )
}

/// Whether a token may fetch the tunnel token, from the HTTP status code
/// (`status` is its text) and the answer: a 2xx answer must be JSON and
/// decides by `success`; 401 and 403 mean no; anything else is an error.
pub open spec fn token_access_answer(code: u16, status: Seq<char>, raw: Seq<char>) -> Result<bool, Seq<char>> {
    if 200 <= code < 300 {
        if !json_parses(raw) {
            Err(json_error_text(raw))
        } else {
            Ok(json_bool_at(raw, "/success"@) == Some(true))
        }
    } else if code == 401 || code == 403 {
        Ok(false)
    } else {
        Err(status + ": "@ + raw)
    }
}

pub fn token_access_from_answer(code: u16, status: &str, raw: &str) -> (r: Result<bool, String>)
    ensures
        match r {
            Ok(b) => token_access_answer(code, status@, raw@) == Ok::<bool, Seq<char>>(b),
            Err(e) => token_access_answer(code, status@, raw@) == Err::<bool, Seq<char>>(e@),
        },
{
    let success = if 200 <= code && code < 300 {
        if let Some(e) = parse_error(raw) {
            return Err(e);
        }
        bool_at(raw, "/success")
    } else {
        None
    };
    match crate::cloudflare::tunnel_token_access(code, success) {
        Some(b) => Ok(b),
        None => Err(cat3(status, ": ", raw)),
    }
}

/// JSON pointer of the `expression` of redirect rule `i`.
pub open spec fn rule_expr_ptr(i: nat) -> Seq<char> {
    "/result/rules/"@ + dec(i) + "/expression"@
}

/// Whether redirect rule `i` stays (its expression, empty when missing,
/// does not mention the product).
pub open spec fn rule_kept(raw: Seq<char>, i: nat) -> bool {
    let e = match json_str_at(raw, rule_expr_ptr(i)) {
        Some(e) => e,
        None => Seq::empty(),
    };
    !crate::text::contains_seq(e, "oakilydokily"@)
}

/// The indices below `n` of the rules that stay, in order.
pub open spec fn kept_rules_upto(raw: Seq<char>, n: nat) -> Seq<usize>
    decreases n,
{
    if n == 0 {
        Seq::empty()
    } else {
        let prev = kept_rules_upto(raw, (n - 1) as nat);
        if rule_kept(raw, (n - 1) as nat) {
            prev.push((n - 1) as usize)
        } else {
            prev
        }
    }
}

/// The redirect ruleset answer: its id and the indices of the rules that
/// stay (`None` when there is no ruleset id).
pub open spec fn redirect_rules_answer(raw: Seq<char>) -> Result<Option<(Seq<char>, Seq<usize>)>, Seq<char>> {
    if !json_parses(raw) {
        Err(json_error_text(raw))
    } else {
        match json_str_at(raw, "/result/id"@) {
            Some(id) => Ok(
                Some(
                    (
                        id,
                        kept_rules_upto(
                            raw,
                            match json_len_at(raw, "/result/rules"@) {
                                Some(n) => n as nat,
                                None => 0,
                            },
                        ),
                    ),
                ),
            ),
            None => Ok(None),
        }
    }
}

fn rule_pointer(i: usize) -> (r: String)
    ensures
        r@ == rule_expr_ptr(i as nat),
{
    let mut v: Vec<char> = Vec::new();
    extend_str(&mut v, "/result/rules/");
    extend_chars(&mut v, &dec_chars(i as u64));
    extend_str(&mut v, "/expression");
    string_from(&v)
}

pub fn redirect_rules_from_answer(raw: &str) -> (r: Result<Option<(String, Vec<usize>)>, String>)
    ensures
        match r {
            Ok(Some((id, kept))) => redirect_rules_answer(raw@) == Ok::<Option<(Seq<char>, Seq<usize>)>, Seq<char>>(
                Some((id@, kept@)),
            ),
            Ok(None) => redirect_rules_answer(raw@) == Ok::<Option<(Seq<char>, Seq<usize>)>, Seq<char>>(None),
            Err(e) => redirect_rules_answer(raw@) == Err::<Option<(Seq<char>, Seq<usize>)>, Seq<char>>(e@),
        },
{
    if let Some(e) = parse_error(raw) {
        return Err(e);
    }
    match str_at(raw, "/result/id") {
        None => Ok(None),
        Some(id) => {
            let n = match len_at(raw, "/result/rules") {
                Some(n) => n,
                None => 0,
            };
            let mut kept: Vec<usize> = Vec::new();
            let mut i: usize = 0;
            while i < n
                invariant
                    i <= n,
                    kept@ == kept_rules_upto(raw@, i as nat),
                decreases n - i,
            {
                let p = rule_pointer(i);
                let e = match str_at(raw, p.as_str()) {
                    Some(e) => e,
                    None => String::new(),
                };
                if keeps_redirect_rule(e.as_str()) {
                    kept.push(i);
                }
                i = i + 1;
            }
            Ok(Some((id, kept)))
        },
    }
}

// ---------------------------------------------------------------------------
// Zone lists and cache purges
// ---------------------------------------------------------------------------

fn indexed_pointer(head: &str, i: usize, tail: &str) -> (r: String)
    ensures
        r@ == head@ + dec(i as nat) + tail@,
{
    let mut v = str_chars(head);
    extend_chars(&mut v, &dec_chars(i as u64));
    extend_str(&mut v, tail);
    string_from(&v)
}

/// (id, name) of zone `i` of the `result` array, when both are strings.
pub open spec fn zone_entry(raw: Seq<char>, i: nat) -> Option<(Seq<char>, Seq<char>)> {
    match (json_str_at(raw, "/result/"@ + dec(i) + "/id"@), json_str_at(raw, "/result/"@ + dec(i) + "/name"@)) {
        (Some(id), Some(name)) => Some((id, name)),
        _ => None,
    }
}

/// The (id, name) pairs among the first `n` zones, in order.
pub open spec fn zones_upto(raw: Seq<char>, n: nat) -> Seq<(Seq<char>, Seq<char>)>
    decreases n,
{
    if n == 0 {
        Seq::empty()
    } else {
        let prev = zones_upto(raw, (n - 1) as nat);
        match zone_entry(raw, (n - 1) as nat) {
            Some(z) => prev.push(z),
            None => prev,
        }
    }
}

/// The zones of a zone list answer: an error for text that is not JSON,
/// no zones when `result` is not an array.
pub open spec fn zones_answer(raw: Seq<char>) -> Result<Seq<(Seq<char>, Seq<char>)>, Seq<char>> {
    if !json_parses(raw) {
        Err(json_error_text(raw))
    } else {
        match json_len_at(raw, "/result"@) {
            Some(n) => Ok(zones_upto(raw, n as nat)),
            None => Ok(Seq::empty()),
        }
    }
}

pub open spec fn pairs_view(v: Seq<(String, String)>) -> Seq<(Seq<char>, Seq<char>)> {
    v.map_values(|p: (String, String)| (p.0@, p.1@))
}

pub fn zones_from_answer(raw: &str) -> (r: Result<Vec<(String, String)>, String>)
    ensures
        match r {
            Ok(v) => zones_answer(raw@) == Ok::<Seq<(Seq<char>, Seq<char>)>, Seq<char>>(pairs_view(v@)),
            Err(e) => zones_answer(raw@) == Err::<Seq<(Seq<char>, Seq<char>)>, Seq<char>>(e@),
        },
{
    if let Some(e) = parse_error(raw) {
        return Err(e);
    }
    let n = match len_at(raw, "/result") {
        Some(n) => n,
        None => {
            let out: Vec<(String, String)> = Vec::new();
            assert(pairs_view(out@) =~= Seq::<(Seq<char>, Seq<char>)>::empty());
            return Ok(out);
        },
    };
    let mut out: Vec<(String, String)> = Vec::new();
    let mut i: usize = 0;
    assert(pairs_view(out@) =~= zones_upto(raw@, 0));
    while i < n
        invariant
            i <= n,
            pairs_view(out@) == zones_upto(raw@, i as nat),
        decreases n - i,
    {
        let id = str_at(raw, indexed_pointer("/result/", i, "/id").as_str());
        let name = str_at(raw, indexed_pointer("/result/", i, "/name").as_str());
        let ghost prev = pairs_view(out@);
        match (id, name) {
            (Some(id), Some(name)) => {
                let ghost z = (id@, name@);
                out.push((id, name));
                assert(pairs_view(out@) =~= prev.push(z));
            },
            _ => {},
        }
        i = i + 1;
    }
    Ok(out)
}

/// A cache purge answer: an error for text that is not JSON, else whether it
/// says `success`.
pub open spec fn purge_answer(raw: Seq<char>) -> Result<bool, Seq<char>> {
    if !json_parses(raw) {
        Err(json_error_text(raw))
    } else {
        Ok(succeeded(raw))
    }
}

pub fn purge_outcome(raw: &str) -> (r: Result<bool, String>)
    ensures
        match r {
            Ok(b) => purge_answer(raw@) == Ok::<bool, Seq<char>>(b),
            Err(e) => purge_answer(raw@) == Err::<bool, Seq<char>>(e@),
        },
{
    if let Some(e) = parse_error(raw) {
        return Err(e);
    }
    Ok(answer_succeeded(raw))
}

// ---------------------------------------------------------------------------
// Tunnel provider URLs
// ---------------------------------------------------------------------------

pub open spec fn opt_str_view(o: Option<String>) -> Option<Seq<char>> {
    match o {
        Some(s) => Some(s@),
        None => None,
    }
}

/// The public URL in ngrok's local API answer: `public_url` of the first
/// tunnel, when `tunnels` is a non-empty array.
pub open spec fn ngrok_url_answer(raw: Seq<char>) -> Option<Seq<char>> {
    match json_len_at(raw, "/tunnels"@) {
        Some(n) => if n > 0 {
            json_str_at(raw, "/tunnels/0/public_url"@)
        } else {
            None
        },
        None => None,
    }
}

pub fn ngrok_url_from_answer(raw: &str) -> (r: Option<String>)
    ensures
        opt_str_view(r) == ngrok_url_answer(raw@),
{
    match len_at(raw, "/tunnels") {
        Some(n) => if n > 0 {
            str_at(raw, "/tunnels/0/public_url")
        } else {
            None
        },
        None => None,
    }
}

/// The funnel URL from `tailscale status --json`: `https://` and the node's
/// DNS name without its trailing dots.
pub open spec fn tailscale_url_answer(raw: Seq<char>) -> Option<Seq<char>> {
    match json_str_at(raw, "/Self/DNSName"@) {
        Some(d) => Some("https://"@ + crate::text::trim_trailing(d, '.')),
        None => None,
    }
}

pub fn tailscale_url_from_status(raw: &str) -> (r: Option<String>)
    ensures
        opt_str_view(r) == tailscale_url_answer(raw@),
{
    match str_at(raw, "/Self/DNSName") {
        Some(d) => {
            let mut v = str_chars("https://");
            extend_chars(&mut v, &crate::text::trim_end_char(&str_chars(d.as_str()), '.'));
            Some(string_from(&v))
        },
        None => None,
    }
}

// ---------------------------------------------------------------------------
// Google API discovery
// ---------------------------------------------------------------------------

/// The indices below `n` of the discovery items whose `name` is a free API.
pub open spec fn free_items_upto(raw: Seq<char>, n: nat) -> Seq<usize>
    decreases n,
{
    if n == 0 {
        Seq::empty()
    } else {
        let prev = free_items_upto(raw, (n - 1) as nat);
        match json_str_at(raw, "/items/"@ + dec((n - 1) as nat) + "/name"@) {
            Some(name) => if crate::api::free_google_api(name) {
                prev.push((n - 1) as usize)
            } else {
                prev
            },
            None => prev,
        }
    }
}

/// The discovery items to keep for a free-only listing: an error for text
/// that is not JSON; `None` when `items` is not an array (the answer is
/// passed on as it is); else the indices of the free items, in order.
pub open spec fn free_items_answer(raw: Seq<char>) -> Result<Option<Seq<usize>>, Seq<char>> {
    if !json_parses(raw) {
        Err(json_error_text(raw))
    } else {
        match json_len_at(raw, "/items"@) {
            Some(n) => Ok(Some(free_items_upto(raw, n as nat))),
            None => Ok(None),
        }
    }
}

pub fn free_api_items(raw: &str) -> (r: Result<Option<Vec<usize>>, String>)
    ensures
        match r {
            Ok(Some(v)) => free_items_answer(raw@) == Ok::<Option<Seq<usize>>, Seq<char>>(Some(v@)),
            Ok(None) => free_items_answer(raw@) == Ok::<Option<Seq<usize>>, Seq<char>>(None),
            Err(e) => free_items_answer(raw@) == Err::<Option<Seq<usize>>, Seq<char>>(e@),
        },
{
    if let Some(e) = parse_error(raw) {
        return Err(e);
    }
    let n = match len_at(raw, "/items") {
        Some(n) => n,
        None => return Ok(None),
    };
    let mut kept: Vec<usize> = Vec::new();
    let mut i: usize = 0;
    while i < n
        invariant
            i <= n,
            kept@ == free_items_upto(raw@, i as nat),
        decreases n - i,
    {
        match str_at(raw, indexed_pointer("/items/", i, "/name").as_str()) {
            Some(name) => {
                if crate::api::is_free_google_api(name.as_str()) {
                    kept.push(i);
                }
            },
            None => {},
        }
        i = i + 1;
    }
    Ok(Some(kept))
}

} // verus!
