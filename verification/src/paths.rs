//! Filesystem layout of a Harbor installation and the daemon-wide config.
//!
//! Paths are kept as `/`-separated strings; joining follows the rules of
//! appending one component to a path: an absolute component replaces the
//! base, and a separator is inserted only where one is missing.
use vstd::prelude::*;

use crate::text::{concat2, push_str};

verus! {

/// `base` with `comp` appended as a path component.
pub open spec fn join_path(base: Seq<char>, comp: Seq<char>) -> Seq<char> {
    if comp.len() > 0 && comp[0] == '/' {
        comp
    } else if base.len() == 0 || base.last() == '/' {
        base + comp
    } else {
        base + seq!['/'] + comp
    }
}

/// Appends the path component `comp` to `base`.
pub fn join(base: &str, comp: &str) -> (r: String)
    ensures
        r@ == join_path(base@, comp@),
{
    let nc = comp.unicode_len();
    if nc > 0 && comp.get_char(0) == '/' {
        return comp.to_string();
    }
    let nb = base.unicode_len();
    let mut out = base.to_string();
    if nb > 0 && base.get_char(nb - 1) != '/' {
        out.push('/');
    }
    push_str(&mut out, comp);
    out
}

/// Filesystem layout for a Harbor installation. App configs live under
/// `apps_dir` (plain TOML, meant to be version-controlled); logs, state and
/// the API token are generated at run time.
#[derive(Debug, Clone)]
pub struct HarborPaths {
    pub home: String,
    pub apps_dir: String,
    pub state_dir: String,
    pub log_dir: String,
    pub cert_dir: String,
    pub global_config_file: String,
    pub token_file: String,
}

/// The layout rooted at `home`.
pub open spec fn layout_at(home: Seq<char>, p: HarborPaths) -> bool {
    &&& p.home@ == home
    &&& p.apps_dir@ == join_path(home, "apps"@)
    &&& p.state_dir@ == join_path(home, "state"@)
    &&& p.log_dir@ == join_path(home, "logs"@)
    &&& p.cert_dir@ == join_path(home, "certs"@)
    &&& p.global_config_file@ == join_path(home, "harbor.toml"@)
    &&& p.token_file@ == join_path(home, "token"@)
}

/// The Harbor home: `$HARBOR_HOME` when set, else `.harbor` in the user's
/// home directory (or in `.` when that is unknown).
pub open spec fn home_for(harbor_home: Option<Seq<char>>, user_home: Option<Seq<char>>) -> Seq<char> {
    match harbor_home {
        Some(h) => h,
        None => join_path(
            match user_home {
                Some(u) => u,
                None => "."@,
            },
            ".harbor"@,
        ),
    }
}

/// `<dir>/<name><suffix>`.
pub open spec fn named_file(dir: Seq<char>, name: Seq<char>, suffix: Seq<char>) -> Seq<char> {
    join_path(dir, name + suffix)
}

impl HarborPaths {
    /// Resolves the layout from the value of `$HARBOR_HOME` and the user's
    /// home directory, as the environment reports them.
    pub fn discover(harbor_home: Option<String>, user_home: Option<String>) -> (r: HarborPaths)
        ensures
            layout_at(
                home_for(
                    match harbor_home {
                        Some(h) => Some(h@),
                        None => None,
                    },
                    match user_home {
                        Some(u) => Some(u@),
                        None => None,
                    },
                ),
                r,
            ),
    {
        let home = match harbor_home {
            Some(h) => h,
            None => {
                let base = match user_home {
                    Some(u) => u,
                    None => ".".to_string(),
                };
                join(base.as_str(), ".harbor")
            },
        };
        Self::at(home)
    }

    pub fn at(home: String) -> (r: HarborPaths)
        ensures
            layout_at(home@, r),
    {
        HarborPaths {
            apps_dir: join(home.as_str(), "apps"),
            state_dir: join(home.as_str(), "state"),
            log_dir: join(home.as_str(), "logs"),
            cert_dir: join(home.as_str(), "certs"),
            global_config_file: join(home.as_str(), "harbor.toml"),
            token_file: join(home.as_str(), "token"),
            home,
        }
    }

    /// The directories `ensure_dirs` creates, in order.
    pub fn dirs_to_create(&self) -> (r: Vec<String>)
        ensures
            r@.len() == 5,
            r@[0]@ == self.home@,
            r@[1]@ == self.apps_dir@,
            r@[2]@ == self.state_dir@,
            r@[3]@ == self.log_dir@,
            r@[4]@ == self.cert_dir@,
    {
        let mut v: Vec<String> = Vec::new();
        v.push(self.home.clone());
        v.push(self.apps_dir.clone());
        v.push(self.state_dir.clone());
        v.push(self.log_dir.clone());
        v.push(self.cert_dir.clone());
        v
    }

    /// `<apps_dir>/<name>.toml`.
    pub fn app_config_path(&self, name: &str) -> (r: String)
        ensures
            r@ == named_file(self.apps_dir@, name@, ".toml"@),
    {
        let file = concat2(name, ".toml");
        join(self.apps_dir.as_str(), file.as_str())
    }

    /// `<log_dir>/<name>.<stream>.log`.
    pub fn app_log_path(&self, name: &str, stream: &str) -> (r: String)
        ensures
            r@ == named_file(self.log_dir@, name@, "."@ + stream@ + ".log"@),
    {
        let mut file = concat2(name, ".");
        push_str(&mut file, stream);
        push_str(&mut file, ".log");
        proof {
            assert(name@ + "."@ + stream@ + ".log"@ =~= name@ + ("."@ + stream@ + ".log"@));
        }
        join(self.log_dir.as_str(), file.as_str())
    }

    /// Directory holding one domain's certificate files.
    pub fn domain_cert_dir(&self, domain: &str) -> (r: String)
        ensures
            r@ == join_path(self.cert_dir@, domain@),
    {
        join(self.cert_dir.as_str(), domain)
    }

    /// `<state_dir>/<name>.state.json`: where an app's desired run state is
    /// persisted.
    pub fn desired_state_path(&self, name: &str) -> (r: String)
        ensures
            r@ == named_file(self.state_dir@, name@, ".state.json"@),
    {
        let file = concat2(name, ".state.json");
        join(self.state_dir.as_str(), file.as_str())
    }

    /// The files of an app that removing it deletes: its config, its
    /// persisted desired state, and its stdout, stderr and access logs.
    pub fn app_files(&self, name: &str) -> (r: Vec<String>)
        ensures
            r@.len() == 5,
            r@[0]@ == named_file(self.apps_dir@, name@, ".toml"@),
            r@[1]@ == named_file(self.state_dir@, name@, ".state.json"@),
            r@[2]@ == named_file(self.log_dir@, name@, ".out.log"@),
            r@[3]@ == named_file(self.log_dir@, name@, ".err.log"@),
            r@[4]@ == named_file(self.log_dir@, name@, ".access.log"@),
    {
        proof {
            reveal_strlit(".");
            reveal_strlit(".out.log");
            reveal_strlit(".err.log");
            reveal_strlit(".access.log");
            reveal_strlit("out");
            reveal_strlit("err");
            reveal_strlit("access");
            reveal_strlit(".log");
            assert("."@ + "out"@ + ".log"@ =~= ".out.log"@);
            assert("."@ + "err"@ + ".log"@ =~= ".err.log"@);
            assert("."@ + "access"@ + ".log"@ =~= ".access.log"@);
        }
        let mut v: Vec<String> = Vec::new();
        v.push(self.app_config_path(name));
        v.push(self.desired_state_path(name));
        v.push(self.app_log_path(name, "out"));
        v.push(self.app_log_path(name, "err"));
        v.push(self.app_log_path(name, "access"));
        v
    }

    /// `<cert_dir>/acme-account.json`: the stored ACME account credentials.
    pub fn acme_account_path(&self) -> (r: String)
        ensures
            r@ == join_path(self.cert_dir@, "acme-account.json"@),
    {
        join(self.cert_dir.as_str(), "acme-account.json")
    }
}

/// Appending a relative component keeps the base and the component
/// whole: the result is the base, a single separator where the base does
/// not already end with one, then the component; an absolute component
/// stands alone.
pub proof fn law_join_path(base: Seq<char>, comp: Seq<char>)
    ensures
        comp.len() > 0 && comp[0] == '/' ==> join_path(base, comp) == comp,
        !(comp.len() > 0 && comp[0] == '/') ==> {
            let sep: Seq<char> = if base.len() == 0 || base.last() == '/' {
                seq![]
            } else {
                seq!['/']
            };
            &&& join_path(base, comp).take(base.len() as int) == base
            &&& join_path(base, comp).skip((base.len() + sep.len()) as int) == comp
            &&& join_path(base, comp).len() == base.len() + sep.len() + comp.len()
        },
{
    if !(comp.len() > 0 && comp[0] == '/') {
        let j = join_path(base, comp);
        if base.len() == 0 || base.last() == '/' {
            assert(j.take(base.len() as int) =~= base);
            assert(j.skip(base.len() as int) =~= comp);
        } else {
            assert(j.take(base.len() as int) =~= base);
            assert(j.skip((base.len() + 1) as int) =~= comp);
        }
    }
}

/// Two apps never share a file: in one directory and with one suffix, the
/// files of apps with different (relative) names differ. (An absolute name
/// escapes the directory: `/a/x` and `x` both name `/a/x.toml` under `/a`.)
pub proof fn law_named_files_distinct(dir: Seq<char>, a: Seq<char>, b: Seq<char>, suffix: Seq<char>)
    requires
        !(a.len() > 0 && a[0] == '/'),
        !(b.len() > 0 && b[0] == '/'),
        suffix.len() > 0,
        suffix[0] != '/',
        named_file(dir, a, suffix) == named_file(dir, b, suffix),
    ensures
        a == b,
{
    let ca = a + suffix;
    let cb = b + suffix;
    assert(!(ca.len() > 0 && ca[0] == '/')) by {
        if a.len() == 0 {
            assert(ca[0] == suffix[0]);
        } else {
            assert(ca[0] == a[0]);
        }
    }
    assert(!(cb.len() > 0 && cb[0] == '/')) by {
        if b.len() == 0 {
            assert(cb[0] == suffix[0]);
        } else {
            assert(cb[0] == b[0]);
        }
    }
    law_join_path(dir, ca);
    law_join_path(dir, cb);
    assert(ca =~= cb);
    assert(a =~= ca.take(a.len() as int));
    assert(b =~= cb.take(b.len() as int));
}

pub fn default_bind_addr() -> (r: String)
    ensures
        r@ == "127.0.0.1:4780"@,
{
    "127.0.0.1:4780".to_string()
}

pub fn default_http_bind_addr() -> (r: String)
    ensures
        r@ == "0.0.0.0:8080"@,
{
    "0.0.0.0:8080".to_string()
}

pub fn default_https_bind_addr() -> (r: String)
    ensures
        r@ == "0.0.0.0:8443"@,
{
    "0.0.0.0:8443".to_string()
}

pub fn default_true() -> (r: bool)
    ensures
        r,
{
    true
}

/// Let's Encrypt's staging directory: production issuance is opted into
/// explicitly.
pub fn default_acme_directory() -> (r: String)
    ensures
        r@ == "https://acme-staging-v02.api.letsencrypt.org/directory"@,
{
    "https://acme-staging-v02.api.letsencrypt.org/directory".to_string()
}

/// Daemon-wide settings. The management API is localhost-only by default.
#[derive(Debug, Clone)]
pub struct GlobalConfig {
    pub bind_addr: String,
    pub proxy: ProxyConfig,
}

/// Reverse proxy settings; non-privileged ports by default.
#[derive(Debug, Clone)]
pub struct ProxyConfig {
    /// Whether to start the reverse proxy listeners at all.
    pub enabled: bool,
    pub http_bind_addr: String,
    pub https_bind_addr: String,
    /// Redirect plain HTTP to HTTPS, except for ACME HTTP-01 challenges.
    pub https_redirect: bool,
    pub acme: AcmeConfig,
}

/// Automatic certificate provisioning via ACME; off by default.
#[derive(Debug, Clone)]
pub struct AcmeConfig {
    pub enabled: bool,
    /// Contact email registered with the ACME account.
    pub email: Option<String>,
    pub directory_url: String,
}

/// The default ACME settings.
pub open spec fn is_default_acme(a: AcmeConfig) -> bool {
    &&& !a.enabled
    &&& a.email is None
    &&& a.directory_url@ == "https://acme-staging-v02.api.letsencrypt.org/directory"@
}

/// The default proxy settings.
pub open spec fn is_default_proxy(p: ProxyConfig) -> bool {
    &&& p.enabled
    &&& p.http_bind_addr@ == "0.0.0.0:8080"@
    &&& p.https_bind_addr@ == "0.0.0.0:8443"@
    &&& p.https_redirect
    &&& is_default_acme(p.acme)
}

impl Default for AcmeConfig {
    fn default() -> (r: Self)
        ensures
            is_default_acme(r),
    {
        AcmeConfig { enabled: false, email: None, directory_url: default_acme_directory() }
    }
}

impl Default for ProxyConfig {
    fn default() -> (r: Self)
        ensures
            is_default_proxy(r),
    {
        ProxyConfig {
            enabled: true,
            http_bind_addr: default_http_bind_addr(),
            https_bind_addr: default_https_bind_addr(),
            https_redirect: true,
            acme: AcmeConfig::default(),
        }
    }
}

impl Default for GlobalConfig {
    fn default() -> (r: Self)
        ensures
            r.bind_addr@ == "127.0.0.1:4780"@,
            is_default_proxy(r.proxy),
    {
        GlobalConfig { bind_addr: default_bind_addr(), proxy: ProxyConfig::default() }
    }
}

} // verus!
