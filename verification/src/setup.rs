//! Setup subcommands of the router binary. Most are not available in this
//! build: each reports that it is not implemented.

use vstd::prelude::*;

verus! {

/// Setup command that rebuilds the tunnel (fix-tunnel); not available in this build.
pub fn f114(_root: &str) -> (r: Result<(), String>)
    ensures
        r matches Err(e) && e@ == "setup::f114 not implemented"@,
{
    Err("setup::f114 not implemented".to_string())
}

/// Setup command that sets up the cache rules; not available in this build.
pub fn f118(_root: &str) -> (r: Result<(), String>)
    ensures
        r matches Err(e) && e@ == "setup::f118 not implemented"@,
{
    Err("setup::f118 not implemented".to_string())
}

/// Setup command that sets up rate limiting; not available in this build.
pub fn f119(_root: &str) -> (r: Result<(), String>)
    ensures
        r matches Err(e) && e@ == "setup::f119 not implemented"@,
{
    Err("setup::f119 not implemented".to_string())
}

/// Setup command that sets up Turnstile; not available in this build.
pub fn f120(_root: &str) -> (r: Result<(), String>)
    ensures
        r matches Err(e) && e@ == "setup::f120 not implemented"@,
{
    Err("setup::f120 not implemented".to_string())
}

/// Setup command that sets up the R2 bucket; not available in this build.
pub fn f121(_root: &str) -> (r: Result<(), String>)
    ensures
        r matches Err(e) && e@ == "setup::f121 not implemented"@,
{
    Err("setup::f121 not implemented".to_string())
}

/// Setup command that sets up the Resend DNS records for a domain; not available in this build.
pub fn f122(_root: &str, _domain: &str) -> (r: Result<(), String>)
    ensures
        r matches Err(e) && e@ == "setup::f122 not implemented"@,
{
    Err("setup::f122 not implemented".to_string())
}

/// Setup command that sets up Google Workspace DNS for a domain; not available in this build.
pub fn f123(_root: &str, _domain: &str) -> (r: Result<(), String>)
    ensures
        r matches Err(e) && e@ == "setup::f123 not implemented"@,
{
    Err("setup::f123 not implemented".to_string())
}

/// Setup command that adds a Google site-verification record; not available in this build.
pub fn f124(_root: &str, _domain: &str, _value: &str) -> (r: Result<(), String>)
    ensures
        r matches Err(e) && e@ == "setup::f124 not implemented"@,
{
    Err("setup::f124 not implemented".to_string())
}

/// Setup command that adds a CNAME record; not available in this build.
pub fn f125(_root: &str, _domain: &str, _name: &str, _target: &str) -> (r: Result<(), String>)
    ensures
        r matches Err(e) && e@ == "setup::f125 not implemented"@,
{
    Err("setup::f125 not implemented".to_string())
}

/// Setup command that builds a package; not available in this build.
pub fn f132(_root: &str, _package: Option<&str>) -> (r: Result<(), String>)
    ensures
        r matches Err(e) && e@ == "setup::f132 not implemented"@,
{
    Err("setup::f132 not implemented".to_string())
}

/// Setup command that runs cloudflared in the foreground; not available in this build.
pub fn f133(_root: &str) -> (r: Result<(), String>)
    ensures
        r matches Err(e) && e@ == "setup::f133 not implemented"@,
{
    Err("setup::f133 not implemented".to_string())
}

/// Setup command that migrates the data directory; not available in this build.
pub fn f134(_root: &str, _target: &str, _force: bool) -> (r: Result<(), String>)
    ensures
        r matches Err(e) && e@ == "setup::f134 not implemented"@,
{
    Err("setup::f134 not implemented".to_string())
}

/// Setup command that creates a Google service account; not available in this build.
pub fn f135(_root: &str, _project: Option<&str>, _sa_name: Option<&str>, _key_file: Option<&str>) -> (r: Result<(), String>)
    ensures
        r matches Err(e) && e@ == "setup::f135 not implemented"@,
{
    Err("setup::f135 not implemented".to_string())
}

/// Setup command that lists Google APIs; not available in this build.
pub fn f136(_free_only: bool, _preferred: bool) -> (r: Result<(), String>)
    ensures
        r matches Err(e) && e@ == "setup::f136 not implemented"@,
{
    Err("setup::f136 not implemented".to_string())
}

/// Setup command that submits a sitemap; not available in this build.
pub fn f137(_site: &str, _sitemap: &str) -> (r: Result<(), String>)
    ensures
        r matches Err(e) && e@ == "setup::f137 not implemented"@,
{
    Err("setup::f137 not implemented".to_string())
}

} // verus!
