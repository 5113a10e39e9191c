//! Router settings (command line / environment) and the legacy route table
//! derived from them.

use vstd::prelude::*;

use crate::proxy::t29;
use crate::registry::strs;
use crate::text::{
    dec, dec_chars, extend_chars, extend_str, split_chars, split_seq, str_chars, string_from,
    trim, trim_chars, trim_end_char, trim_trailing, views,
};

verus! {

/// Router settings: port, bind address, product backends and hostnames,
/// one-shot setup switches, and the configuration directory.
#[allow(non_camel_case_types)]
#[derive(Debug)]
pub struct t28 {
    pub s16: u16,
    pub s17: String,
    pub s35: String,
    pub s36: String,
    pub s37: Option<String>,
    pub s38: Option<String>,
    pub s42: String,
    pub s43: Option<String>,
    pub s49: String,
    pub s50: Option<String>,
    pub s51: Option<String>,
    pub s39: bool,
    pub s40: bool,
    pub s41: bool,
    pub s52: bool,
    pub s44: bool,
    pub s45: Option<String>,
}

/// The non-empty trimmed pieces of a comma-separated list, in order.
pub open spec fn nonempty_trimmed(pieces: Seq<Seq<char>>) -> Seq<Seq<char>>
    decreases pieces.len(),
{
    if pieces.len() == 0 {
        Seq::empty()
    } else {
        let rest = nonempty_trimmed(pieces.drop_last());
        let t = trim(pieces.last());
        if t.len() > 0 {
            rest.push(t)
        } else {
            rest
        }
    }
}

pub open spec fn host_list(v: Option<String>) -> Seq<Seq<char>> {
    match v {
        Some(s) => nonempty_trimmed(split_seq(s@, ',')),
        None => Seq::empty(),
    }
}

/// Hostnames from a comma-separated setting.
pub fn split_hosts(v: &Option<String>) -> (r: Vec<String>)
    ensures
        strs(r@) == host_list(*v),
{
    match v {
        None => {
            let r: Vec<String> = Vec::new();
            assert(strs(r@) =~= Seq::<Seq<char>>::empty());
            r
        },
        Some(s) => {
            let pieces = split_chars(&str_chars(s.as_str()), ',');
            let ghost pv = views(pieces@);
            let mut out: Vec<String> = Vec::new();
            let mut i: usize = 0;
            while i < pieces.len()
                invariant
                    i <= pieces.len(),
                    pv == views(pieces@),
                    strs(out@) == nonempty_trimmed(pv.take(i as int)),
                decreases pieces.len() - i,
            {
                assert(pv.take(i + 1).drop_last() =~= pv.take(i as int));
                assert(pv.take(i + 1).last() == pieces@[i as int]@);
                let t = trim_chars(&pieces[i]);
                if t.len() > 0 {
                    let ghost before = out@;
                    let h = string_from(&t);
                    out.push(h);
                    assert(strs(out@) =~= strs(before).push(t@));
                }
                i = i + 1;
            }
            assert(pv.take(pv.len() as int) =~= pv);
            out
        },
    }
}

fn trimmed_url(s: &String) -> (r: String)
    ensures
        r@ == trim_trailing(s@, '/'),
{
    string_from(&trim_end_char(&str_chars(s.as_str()), '/'))
}

fn copy_opt(o: &Option<String>) -> (r: Option<String>)
    ensures
        r == *o,
{
    match o {
        Some(s) => Some(s.clone()),
        None => None,
    }
}

/// The legacy route table: backend URLs without trailing `/`, hostname
/// lists split on commas.
pub fn legacy_routes(cfg: &t28) -> (r: t29)
    ensures
        r.s35@ == trim_trailing(cfg.s35@, '/'),
        r.s36@ == trim_trailing(cfg.s36@, '/'),
        strs(r.s37@) == host_list(cfg.s37),
        r.s38 == cfg.s38,
        r.s42@ == trim_trailing(cfg.s42@, '/'),
        strs(r.s43@) == host_list(cfg.s43),
        r.s49@ == trim_trailing(cfg.s49@, '/'),
        strs(r.s50@) == host_list(cfg.s50),
        r.s51 == cfg.s51,
{
    t29 {
        s35: trimmed_url(&cfg.s35),
        s36: trimmed_url(&cfg.s36),
        s37: split_hosts(&cfg.s37),
        s38: copy_opt(&cfg.s38),
        s42: trimmed_url(&cfg.s42),
        s43: split_hosts(&cfg.s43),
        s49: trimmed_url(&cfg.s49),
        s50: split_hosts(&cfg.s50),
        s51: copy_opt(&cfg.s51),
    }
}

/// `bind:port`, the address the router listens on.
pub fn listen_addr(cfg: &t28) -> (r: String)
    ensures
        r@ == cfg.s17@ + ":"@ + dec(cfg.s16 as nat),
{
    let mut out: Vec<char> = Vec::new();
    extend_str(&mut out, cfg.s17.as_str());
    extend_str(&mut out, ":");
    extend_chars(&mut out, &dec_chars(cfg.s16 as u64));
    string_from(&out)
}

} // verus!
