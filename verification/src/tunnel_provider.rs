//! Tunnel providers (Cloudflare, ngrok, Tailscale Funnel, bore,
//! localtunnel): their names, their configuration as read from the
//! environment, and the command line each provider process is started with.
//! Spawning and supervising the processes is done outside the library.

use vstd::prelude::*;

use crate::text::{
    chars_eq, dec, dec_chars, extend_chars, extend_str, str_chars, string_from, to_lowercase,
    unicode_lowercase,
};

verus! {

/// Which tunnel provider.
#[allow(non_camel_case_types)]
#[derive(Clone, Copy, Debug, PartialEq, Eq, Structural, Hash)]
pub enum t44 {
    Cloudflare,
    Ngrok,
    Tailscale,
    Bore,
    Localtunnel,
}

pub open spec fn kind_name(k: t44) -> Seq<char> {
    match k {
        t44::Cloudflare => "cloudflare"@,
        t44::Ngrok => "ngrok"@,
        t44::Tailscale => "tailscale"@,
        t44::Bore => "bore"@,
        t44::Localtunnel => "localtunnel"@,
    }
}

/// The provider a lower-case name or alias stands for.
pub open spec fn kind_of_name(s: Seq<char>) -> Option<t44> {
    if s == "cloudflare"@ || s == "cf"@ {
        Some(t44::Cloudflare)
    } else if s == "ngrok"@ {
        Some(t44::Ngrok)
    } else if s == "tailscale"@ || s == "ts"@ {
        Some(t44::Tailscale)
    } else if s == "bore"@ {
        Some(t44::Bore)
    } else if s == "localtunnel"@ || s == "lt"@ {
        Some(t44::Localtunnel)
    } else {
        None
    }
}

pub open spec fn all_kinds() -> Seq<t44> {
    seq![t44::Cloudflare, t44::Ngrok, t44::Tailscale, t44::Bore, t44::Localtunnel]
}

/// Position of a provider in `t44::all()`.
pub open spec fn kind_index(k: t44) -> int {
    match k {
        t44::Cloudflare => 0,
        t44::Ngrok => 1,
        t44::Tailscale => 2,
        t44::Bore => 3,
        t44::Localtunnel => 4,
    }
}

impl t44 {
    pub fn name(&self) -> (r: &'static str)
        ensures
            r@ == kind_name(*self),
    {
        match self {
            t44::Cloudflare => "cloudflare",
            t44::Ngrok => "ngrok",
            t44::Tailscale => "tailscale",
            t44::Bore => "bore",
            t44::Localtunnel => "localtunnel",
        }
    }

    /// Every provider, in a fixed order.
    pub fn all() -> (r: Vec<t44>)
        ensures
            r@ == all_kinds(),
    {
        let r = vec![t44::Cloudflare, t44::Ngrok, t44::Tailscale, t44::Bore, t44::Localtunnel];
        assert(r@ =~= all_kinds());
        r
    }

    /// The provider for an already lower-cased name or alias.
    pub fn from_lowercase_name(s: &str) -> (r: Option<t44>)
        ensures
            r == kind_of_name(s@),
    {
        let v = str_chars(s);
        if chars_eq(&v, &str_chars("cloudflare")) || chars_eq(&v, &str_chars("cf")) {
            Some(t44::Cloudflare)
        } else if chars_eq(&v, &str_chars("ngrok")) {
            Some(t44::Ngrok)
        } else if chars_eq(&v, &str_chars("tailscale")) || chars_eq(&v, &str_chars("ts")) {
            Some(t44::Tailscale)
        } else if chars_eq(&v, &str_chars("bore")) {
            Some(t44::Bore)
        } else if chars_eq(&v, &str_chars("localtunnel")) || chars_eq(&v, &str_chars("lt")) {
            Some(t44::Localtunnel)
        } else {
            None
        }
    }

    /// The provider for a name or alias in any case.
    pub fn from_str(s: &str) -> (r: Option<t44>)
        ensures
            r == kind_of_name(unicode_lowercase(s@)),
    {
        let l = to_lowercase(s);
        t44::from_lowercase_name(l.as_str())
    }
}

/// Per-provider settings.
#[allow(non_camel_case_types)]
#[derive(Debug)]
pub struct t45 {
    pub kind: t44,
    pub enabled: bool,
    /// Auth token (ngrok authtoken, bore secret, Cloudflare API token).
    pub token: Option<String>,
    /// Custom domain if the provider supports one.
    pub domain: Option<String>,
    /// Custom server (bore) or host (localtunnel).
    pub server: Option<String>,
    /// Custom subdomain for localtunnel.
    pub subdomain: Option<String>,
}

pub open spec fn ov(o: Option<String>) -> Option<Seq<char>> {
    match o {
        Some(s) => Some(s@),
        None => None,
    }
}

/// (kind, enabled, token, domain, server, subdomain)
pub type ConfigView = (t44, bool, Option<Seq<char>>, Option<Seq<char>>, Option<Seq<char>>, Option<Seq<char>>);

impl View for t45 {
    type V = ConfigView;

    open spec fn view(&self) -> ConfigView {
        (self.kind, self.enabled, ov(self.token), ov(self.domain), ov(self.server), ov(self.subdomain))
    }
}

pub fn clone_opt(o: &Option<String>) -> (r: Option<String>)
    ensures
        ov(r) == ov(*o),
{
    match o {
        Some(s) => Some(s.clone()),
        None => None,
    }
}

impl Clone for t45 {
    fn clone(&self) -> (r: t45)
        ensures
            r@ == self@,
    {
        t45 {
            kind: self.kind,
            enabled: self.enabled,
            token: clone_opt(&self.token),
            domain: clone_opt(&self.domain),
            server: clone_opt(&self.server),
            subdomain: clone_opt(&self.subdomain),
        }
    }
}

/// The environment variables that configure the providers (`None` when
/// unset).
pub struct ProviderEnv {
    pub cf_token: Option<String>,
    pub cloudflare_api_token: Option<String>,
    pub cf_tunnel_id: Option<String>,
    pub tunnel_cloudflare: Option<String>,
    pub ngrok_authtoken: Option<String>,
    pub tunnel_ngrok: Option<String>,
    pub ngrok_domain: Option<String>,
    pub tunnel_tailscale: Option<String>,
    pub tunnel_bore: Option<String>,
    pub bore_secret: Option<String>,
    pub bore_server: Option<String>,
    pub tunnel_localtunnel: Option<String>,
    pub lt_host: Option<String>,
    pub lt_subdomain: Option<String>,
}

/// A `TUNNEL_*` switch is on when it is set to exactly `1`.
pub open spec fn switch_on(v: Option<String>) -> bool {
    ov(v) == Some("1"@)
}

pub open spec fn first_set(a: Option<String>, b: Option<String>) -> Option<Seq<char>> {
    match a {
        Some(s) => Some(s@),
        None => ov(b),
    }
}

/// The provider settings the environment gives, one per provider in
/// `t44::all()` order.
pub open spec fn configs_of(env: ProviderEnv) -> Seq<ConfigView> {
    seq![
        (
            t44::Cloudflare,
            env.cf_token is Some || env.cloudflare_api_token is Some || env.cf_tunnel_id is Some
                || switch_on(env.tunnel_cloudflare),
            first_set(env.cf_token, env.cloudflare_api_token),
            None,
            None,
            None,
        ),
        (
            t44::Ngrok,
            switch_on(env.tunnel_ngrok) || env.ngrok_authtoken is Some,
            ov(env.ngrok_authtoken),
            ov(env.ngrok_domain),
            None,
            None,
        ),
        (t44::Tailscale, switch_on(env.tunnel_tailscale), None, None, None, None),
        (t44::Bore, switch_on(env.tunnel_bore), ov(env.bore_secret), None, ov(env.bore_server), None),
        (
            t44::Localtunnel,
            switch_on(env.tunnel_localtunnel),
            None,
            None,
            ov(env.lt_host),
            ov(env.lt_subdomain),
        ),
    ]
}

fn switch_on_exec(v: &Option<String>) -> (r: bool)
    ensures
        r == switch_on(*v),
{
    match v {
        Some(s) => {
            let c = str_chars(s.as_str());
            chars_eq(&c, &str_chars("1"))
        },
        None => false,
    }
}

pub open spec fn config_views(v: Seq<t45>) -> Seq<ConfigView> {
    v.map_values(|c: t45| c@)
}

/// Provider settings from the environment.
pub fn provider_configs(env: &ProviderEnv) -> (r: Vec<t45>)
    ensures
        config_views(r@) == configs_of(*env),
{
    let cf_enabled = env.cf_token.is_some() || env.cloudflare_api_token.is_some()
        || env.cf_tunnel_id.is_some();
    let cf_token = match &env.cf_token {
        Some(t) => Some(t.clone()),
        None => clone_opt(&env.cloudflare_api_token),
    };
    let mut out: Vec<t45> = Vec::new();
    out.push(
        t45 {
            kind: t44::Cloudflare,
            enabled: cf_enabled || switch_on_exec(&env.tunnel_cloudflare),
            token: cf_token,
            domain: None,
            server: None,
            subdomain: None,
        },
    );
    out.push(
        t45 {
            kind: t44::Ngrok,
            enabled: switch_on_exec(&env.tunnel_ngrok) || env.ngrok_authtoken.is_some(),
            token: clone_opt(&env.ngrok_authtoken),
            domain: clone_opt(&env.ngrok_domain),
            server: None,
            subdomain: None,
        },
    );
    out.push(
        t45 {
            kind: t44::Tailscale,
            enabled: switch_on_exec(&env.tunnel_tailscale),
            token: None,
            domain: None,
            server: None,
            subdomain: None,
        },
    );
    out.push(
        t45 {
            kind: t44::Bore,
            enabled: switch_on_exec(&env.tunnel_bore),
            token: clone_opt(&env.bore_secret),
            domain: None,
            server: clone_opt(&env.bore_server),
            subdomain: None,
        },
    );
    out.push(
        t45 {
            kind: t44::Localtunnel,
            enabled: switch_on_exec(&env.tunnel_localtunnel),
            token: None,
            domain: None,
            server: clone_opt(&env.lt_host),
            subdomain: clone_opt(&env.lt_subdomain),
        },
    );
    assert(config_views(out@) =~= configs_of(*env));
    out
}

// ---------------------------------------------------------------------------
// Command lines
// ---------------------------------------------------------------------------

pub open spec fn opt_pair(flag: Seq<char>, v: Option<Seq<char>>) -> Seq<Seq<char>> {
    match v {
        Some(x) => seq![flag, x],
        None => Seq::empty(),
    }
}

/// Executable name and arguments that start a provider serving `port`
/// (Cloudflare is started through the cloudflared tunnel runner instead).
pub open spec fn command_of(c: ConfigView, port: u16) -> Option<(Seq<char>, Seq<Seq<char>>)> {
    let p = dec(port as nat);
    match c.0 {
        t44::Cloudflare => None,
        t44::Ngrok => Some(
            (
                "ngrok"@,
                seq!["http"@, p, "--log"@, "stdout"@, "--log-format"@, "json"@] + opt_pair("--domain"@, c.3),
            ),
        ),
        t44::Tailscale => Some(("tailscale"@, seq!["funnel"@, p])),
        t44::Bore => Some(
            (
                "bore"@,
                seq![
                    "local"@,
                    p,
                    "--to"@,
                    match c.4 {
                        Some(s) => s,
                        None => "bore.pub"@,
                    },
                ] + opt_pair("--secret"@, c.2),
            ),
        ),
        t44::Localtunnel => Some(
            ("lt"@, seq!["--port"@, p] + opt_pair("--subdomain"@, c.5) + opt_pair("--host"@, c.4)),
        ),
    }
}

pub open spec fn strs_view(v: Seq<String>) -> Seq<Seq<char>> {
    v.map_values(|s: String| s@)
}

fn push_str(v: &mut Vec<String>, s: &str)
    ensures
        strs_view(final(v)@) == strs_view(old(v)@).push(s@),
{
    let ghost before = v@;
    v.push(s.to_string());
    assert(strs_view(v@) =~= strs_view(before).push(s@));
}

fn push_opt_pair(v: &mut Vec<String>, flag: &str, o: &Option<String>)
    ensures
        strs_view(final(v)@) == strs_view(old(v)@) + opt_pair(flag@, ov(*o)),
{
    match o {
        Some(x) => {
            push_str(v, flag);
            push_str(v, x.as_str());
            assert(strs_view(v@) =~= strs_view(old(v)@) + opt_pair(flag@, ov(*o)));
        },
        None => {
            assert(strs_view(v@) =~= strs_view(old(v)@) + opt_pair(flag@, ov(*o)));
        },
    }
}

fn port_string(port: u16) -> (r: String)
    ensures
        r@ == dec(port as nat),
{
    string_from(&dec_chars(port as u64))
}

/// Executable and arguments for a provider process.
pub fn provider_command(cfg: &t45, port: u16) -> (r: Option<(String, Vec<String>)>)
    ensures
        match command_of(cfg@, port) {
            Some(cmd) => r matches Some(x) && x.0@ == cmd.0 && strs_view(x.1@) == cmd.1,
            None => r is None,
        },
{
    let p = port_string(port);
    let mut args: Vec<String> = Vec::new();
    match cfg.kind {
        t44::Cloudflare => {
            return None;
        },
        t44::Ngrok => {
            push_str(&mut args, "http");
            push_str(&mut args, p.as_str());
            push_str(&mut args, "--log");
            push_str(&mut args, "stdout");
            push_str(&mut args, "--log-format");
            push_str(&mut args, "json");
            push_opt_pair(&mut args, "--domain", &cfg.domain);
            assert(strs_view(args@) =~= (command_of(cfg@, port)->0).1);
            Some(("ngrok".to_string(), args))
        },
        t44::Tailscale => {
            push_str(&mut args, "funnel");
            push_str(&mut args, p.as_str());
            assert(strs_view(args@) =~= (command_of(cfg@, port)->0).1);
            Some(("tailscale".to_string(), args))
        },
        t44::Bore => {
            push_str(&mut args, "local");
            push_str(&mut args, p.as_str());
            push_str(&mut args, "--to");
            match &cfg.server {
                Some(s) => push_str(&mut args, s.as_str()),
                None => push_str(&mut args, "bore.pub"),
            }
            push_opt_pair(&mut args, "--secret", &cfg.token);
            assert(strs_view(args@) =~= (command_of(cfg@, port)->0).1);
            Some(("bore".to_string(), args))
        },
        t44::Localtunnel => {
            push_str(&mut args, "--port");
            push_str(&mut args, p.as_str());
            push_opt_pair(&mut args, "--subdomain", &cfg.subdomain);
            push_opt_pair(&mut args, "--host", &cfg.server);
            assert(strs_view(args@) =~= (command_of(cfg@, port)->0).1);
            Some(("lt".to_string(), args))
        },
    }
}

/// Arguments that register the ngrok authtoken before ngrok starts.
pub fn ngrok_authtoken_args(cfg: &t45) -> (r: Option<Vec<String>>)
    ensures
        match (cfg.kind, cfg@.2) {
            (t44::Ngrok, Some(t)) => r matches Some(a) && strs_view(a@) == seq!["config"@, "add-authtoken"@, t],
            _ => r is None,
        },
{
    match (&cfg.kind, &cfg.token) {
        (t44::Ngrok, Some(t)) => {
            let mut a: Vec<String> = Vec::new();
            push_str(&mut a, "config");
            push_str(&mut a, "add-authtoken");
            push_str(&mut a, t.as_str());
            assert(strs_view(a@) =~= seq!["config"@, "add-authtoken"@, t@]);
            Some(a)
        },
        _ => None,
    }
}

/// The public URL known right after start: the Cloudflare tunnel hostname,
/// or the bore server with the port still pending; the others report theirs
/// later.
pub open spec fn initial_url_of(c: ConfigView, tunnel_id: Seq<char>) -> Option<Seq<char>> {
    match c.0 {
        t44::Cloudflare => Some("https://"@ + tunnel_id + ".cfargotunnel.com"@),
        t44::Bore => Some(
            "http://"@ + match c.4 {
                Some(s) => s,
                None => "bore.pub"@,
            } + ":<pending>"@,
        ),
        _ => None,
    }
}

pub fn initial_public_url(cfg: &t45, tunnel_id: &str) -> (r: Option<String>)
    ensures
        match initial_url_of(cfg@, tunnel_id@) {
            Some(u) => r matches Some(s) && s@ == u,
            None => r is None,
        },
{
    match cfg.kind {
        t44::Cloudflare => {
            let mut out: Vec<char> = Vec::new();
            extend_str(&mut out, "https://");
            extend_str(&mut out, tunnel_id);
            extend_str(&mut out, ".cfargotunnel.com");
            Some(string_from(&out))
        },
        t44::Bore => {
            let mut out: Vec<char> = Vec::new();
            extend_str(&mut out, "http://");
            match &cfg.server {
                Some(s) => extend_str(&mut out, s.as_str()),
                None => extend_str(&mut out, "bore.pub"),
            }
            extend_str(&mut out, ":<pending>");
            Some(string_from(&out))
        },
        _ => None,
    }
}

/// Enabled providers that are not among the running ones, in config order.
pub open spec fn idle_enabled(configs: Seq<ConfigView>, running: Seq<t44>) -> Seq<t44>
    decreases configs.len(),
{
    if configs.len() == 0 {
        Seq::empty()
    } else {
        let rest = idle_enabled(configs.drop_last(), running);
        let c = configs.last();
        if c.1 && !running.contains(c.0) {
            rest.push(c.0)
        } else {
            rest
        }
    }
}

/// Providers that are configured and enabled but have no running process.
pub fn enabled_not_running(configs: &Vec<t45>, running: &Vec<t44>) -> (r: Vec<t44>)
    ensures
        r@ == idle_enabled(config_views(configs@), running@),
{
    let ghost cv = config_views(configs@);
    let mut out: Vec<t44> = Vec::new();
    let mut i: usize = 0;
    while i < configs.len()
        invariant
            i <= configs.len(),
            cv == config_views(configs@),
            out@ == idle_enabled(cv.take(i as int), running@),
        decreases configs.len() - i,
    {
        let c = &configs[i];
        let mut is_running = false;
        let mut j: usize = 0;
        while j < running.len()
            invariant
                j <= running.len(),
                is_running == (exists|k: int| 0 <= k < j && running@[k] == c.kind),
            decreases running.len() - j,
        {
            if running[j] == c.kind {
                is_running = true;
            }
            j = j + 1;
        }
        assert(is_running == running@.contains(c.kind));
        assert(cv.take(i + 1).drop_last() =~= cv.take(i as int));
        assert(cv.take(i + 1).last() == c@);
        if c.enabled && !is_running {
            out.push(c.kind);
        }
        i = i + 1;
    }
    assert(cv.take(cv.len() as int) =~= cv);
    out
}

/// A health probe through a provider's public URL succeeds when the URL
/// answered with a status below 500.
pub fn probe_ok(status: Option<u16>) -> (r: bool)
    ensures
        r == (status matches Some(s) && s < 500),
{
    match status {
        Some(s) => s < 500,
        None => false,
    }
}

// ---------------------------------------------------------------------------
// Laws
// ---------------------------------------------------------------------------

/// Provider settings from the environment, one per provider in the fixed
/// order: a provider is switched on by its `TUNNEL_*` variable set to `1`;
/// Cloudflare also by any of its tokens or tunnel id, ngrok also by its
/// authtoken. Tokens, domains, servers and subdomains are taken as set;
/// Cloudflare's token is `CF_TOKEN`, else `CLOUDFLARE_API_TOKEN`.
pub proof fn law_provider_settings(env: ProviderEnv)
    ensures
        configs_of(env).len() == 5,
        configs_of(env)[0].0 == t44::Cloudflare && configs_of(env)[1].0 == t44::Ngrok && configs_of(env)[2].0
            == t44::Tailscale && configs_of(env)[3].0 == t44::Bore && configs_of(env)[4].0 == t44::Localtunnel,
        configs_of(env)[0].1 <==> (env.cf_token is Some || env.cloudflare_api_token is Some || env.cf_tunnel_id is Some
            || ov(env.tunnel_cloudflare) == Some("1"@)),
        configs_of(env)[0].2 == (if env.cf_token is Some {
            ov(env.cf_token)
        } else {
            ov(env.cloudflare_api_token)
        }),
        configs_of(env)[1].1 <==> (ov(env.tunnel_ngrok) == Some("1"@) || env.ngrok_authtoken is Some),
        configs_of(env)[1].2 == ov(env.ngrok_authtoken) && configs_of(env)[1].3 == ov(env.ngrok_domain),
        configs_of(env)[2].1 <==> ov(env.tunnel_tailscale) == Some("1"@),
        configs_of(env)[3].1 <==> ov(env.tunnel_bore) == Some("1"@),
        configs_of(env)[3].2 == ov(env.bore_secret) && configs_of(env)[3].4 == ov(env.bore_server),
        configs_of(env)[4].1 <==> ov(env.tunnel_localtunnel) == Some("1"@),
        configs_of(env)[4].4 == ov(env.lt_host) && configs_of(env)[4].5 == ov(env.lt_subdomain),
{
}

/// `flag` occurs in `args` immediately followed by `v`.
pub open spec fn flag_then(args: Seq<Seq<char>>, flag: Seq<char>, v: Seq<char>) -> bool {
    exists|i: int| 0 <= i && i + 1 < args.len() && #[trigger] args[i] == flag && args[i + 1] == v
}

/// Launch commands, over every configuration and port: Cloudflare has none
/// (it runs through cloudflared); ngrok serves `http <port>` with
/// `--domain <d>` for a configured domain; tailscale runs `funnel <port>`;
/// bore runs `local <port>` to the configured server (`bore.pub` when none)
/// with `--secret <token>` for a configured token; localtunnel gets
/// `--port <port>`, `--subdomain <s>` and `--host <h>` for what is configured.
pub proof fn law_provider_commands(c: ConfigView, port: u16)
    ensures
        c.0 == t44::Cloudflare ==> command_of(c, port) is None,
        c.0 == t44::Ngrok ==> (command_of(c, port) matches Some((bin, args)) && bin == "ngrok"@ && args[0]
            == "http"@ && args[1] == dec(port as nat) && (c.3 matches Some(d) ==> flag_then(args, "--domain"@, d))),
        c.0 == t44::Tailscale ==> command_of(c, port) == Some(("tailscale"@, seq!["funnel"@, dec(port as nat)])),
        c.0 == t44::Bore ==> (command_of(c, port) matches Some((bin, args)) && bin == "bore"@ && args[0] == "local"@
            && args[1] == dec(port as nat) && flag_then(
            args,
            "--to"@,
            match c.4 {
                Some(s) => s,
                None => "bore.pub"@,
            },
        ) && (c.2 matches Some(t) ==> flag_then(args, "--secret"@, t))),
        c.0 == t44::Localtunnel ==> (command_of(c, port) matches Some((bin, args)) && bin == "lt"@ && flag_then(
            args,
            "--port"@,
            dec(port as nat),
        ) && (c.5 matches Some(sd) ==> flag_then(args, "--subdomain"@, sd)) && (c.4 matches Some(h) ==> flag_then(
            args,
            "--host"@,
            h,
        ))),
{
    let p = dec(port as nat);
    match c.0 {
        t44::Ngrok => {
            let args = (command_of(c, port)->0).1;
            if let Some(d) = c.3 {
                assert(args[6] == "--domain"@ && args[7] == d);
            }
        },
        t44::Bore => {
            let args = (command_of(c, port)->0).1;
            assert(args[2] == "--to"@);
            if let Some(t) = c.2 {
                assert(args[4] == "--secret"@ && args[5] == t);
            }
        },
        t44::Localtunnel => {
            let args = (command_of(c, port)->0).1;
            assert(args[0] == "--port"@ && args[1] == p);
            let mid = seq!["--port"@, p] + opt_pair("--subdomain"@, c.5);
            if let Some(sd) = c.5 {
                assert(args[2] == "--subdomain"@ && args[3] == sd);
            }
            if let Some(h) = c.4 {
                assert(args[mid.len() as int] == "--host"@ && args[mid.len() as int + 1] == h);
            }
        },
        _ => {},
    }
}

/// Every provider is found again by its own name.
pub proof fn law_name_round_trip(k: t44)
    ensures
        kind_of_name(kind_name(k)) == Some(k),
{
    reveal_strlit("cloudflare");
    reveal_strlit("cf");
    reveal_strlit("ngrok");
    reveal_strlit("tailscale");
    reveal_strlit("ts");
    reveal_strlit("bore");
    reveal_strlit("localtunnel");
    reveal_strlit("lt");
    assert("cloudflare"@.len() == 10);
    assert("cf"@.len() == 2);
    assert("ngrok"@.len() == 5);
    assert("tailscale"@.len() == 9);
    assert("ts"@.len() == 2);
    assert("bore"@.len() == 4);
    assert("localtunnel"@.len() == 11);
    assert("lt"@.len() == 2);
}

/// `t44::all()` lists each provider exactly once.
pub proof fn law_all_lists_each_provider_once(k: t44)
    ensures
        all_kinds()[kind_index(k)] == k,
        0 <= kind_index(k) < all_kinds().len(),
        forall|i: int| 0 <= i < all_kinds().len() && all_kinds()[i] == k ==> i == kind_index(k),
{
}

} // verus!
