//! TLS-terminator side: certificate material and the DNS zone used for the
//! ACME DNS-01 challenge. The ACME protocol and the TLS listener run
//! outside the library.

use vstd::prelude::*;

use crate::cloudflare::{join_last_two, last_two_labels};
use crate::text::{
    chars_eq, extend_str, split_chars, split_seq, str_chars, string_from, to_lowercase, trim_end_char,
    trim_trailing, unicode_lowercase, views,
};

verus! {

/// A certificate chain and its private key, both PEM-encoded.
#[derive(Debug)]
pub struct CertBundle {
    pub cert_pem: String,
    pub key_pem: String,
}

/// Zone used for the ACME DNS challenge when none is given: the last two
/// labels of the domain (the domain itself when it has a single label).
pub open spec fn default_zone_of(domain: Seq<char>) -> Seq<char> {
    let parts = split_seq(domain, '.');
    if parts.len() >= 2 {
        last_two_labels(parts)
    } else {
        domain
    }
}

pub fn default_zone_for(domain: &str) -> (r: String)
    ensures
        r@ == default_zone_of(domain@),
{
    let v = str_chars(domain);
    let parts = split_chars(&v, '.');
    if parts.len() >= 2 {
        join_last_two(&parts)
    } else {
        string_from(&v)
    }
}

/// TXT record name of the DNS-01 challenge for an identifier.
pub fn challenge_record_name(identifier: &str) -> (r: String)
    ensures
        r@ == "_acme-challenge."@ + identifier@,
{
    let mut out: Vec<char> = Vec::new();
    extend_str(&mut out, "_acme-challenge.");
    extend_str(&mut out, identifier);
    string_from(&out)
}

/// File names of a domain's certificate and key in the certificate directory.
pub fn cert_file_names(domain: &str) -> (r: (String, String))
    ensures
        r.0@ == domain@ + ".crt"@,
        r.1@ == domain@ + ".key"@,
{
    let mut c: Vec<char> = Vec::new();
    extend_str(&mut c, domain);
    extend_str(&mut c, ".crt");
    let mut k: Vec<char> = Vec::new();
    extend_str(&mut k, domain);
    extend_str(&mut k, ".key");
    (string_from(&c), string_from(&k))
}

/// ACME account contact for an e-mail address.
pub fn contact_uri(email: &str) -> (r: String)
    ensures
        r@ == "mailto:"@ + email@,
{
    let mut out: Vec<char> = Vec::new();
    extend_str(&mut out, "mailto:");
    extend_str(&mut out, email);
    string_from(&out)
}

/// Upstream URL of the TLS terminator: the backend without trailing `/`,
/// then the request's path and query.
pub fn upstream_url(backend: &str, path_and_query: &str) -> (r: String)
    ensures
        r@ == trim_trailing(backend@, '/') + path_and_query@,
{
    let mut out = trim_end_char(&str_chars(backend), '/');
    extend_str(&mut out, path_and_query);
    string_from(&out)
}

/// Hop-by-hop response headers the TLS terminator drops.
pub open spec fn terminator_hop_header(lower_name: Seq<char>) -> bool {
    ||| lower_name == "connection"@
    ||| lower_name == "proxy-connection"@
    ||| lower_name == "keep-alive"@
    ||| lower_name == "transfer-encoding"@
    ||| lower_name == "te"@
    ||| lower_name == "trailer"@
    ||| lower_name == "upgrade"@
}

/// Whether a response header is dropped (its name is lower-cased first).
pub fn drops_header(name: &str) -> (r: bool)
    ensures
        r == terminator_hop_header(unicode_lowercase(name@)),
{
    let l = to_lowercase(name);
    let v = str_chars(l.as_str());
    chars_eq(&v, &str_chars("connection")) || chars_eq(&v, &str_chars("proxy-connection"))
        || chars_eq(&v, &str_chars("keep-alive")) || chars_eq(&v, &str_chars("transfer-encoding"))
        || chars_eq(&v, &str_chars("te")) || chars_eq(&v, &str_chars("trailer"))
        || chars_eq(&v, &str_chars("upgrade"))
}

} // verus!
