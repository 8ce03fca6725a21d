//! Declarative app configuration and runtime status types.
use vstd::prelude::*;

use crate::text::{lower, str_eq, str_lt, to_ascii_lowercase, concat2, views, lex_lt, lemma_lex_transitive};

verus! {

/// Language runtime detected (or declared) for a managed app.
#[derive(Clone, Copy, Debug, PartialEq, Eq, Structural, Hash)]
pub enum RuntimeKind {
    Python,
    Node,
    DotNet,
    Java,
    Rust,
    Custom,
}

/// Restart behaviour applied when a managed app's process exits.
#[derive(Clone, Copy, Debug, PartialEq, Eq, Structural, Hash)]
pub enum RestartPolicy {
    Never,
    OnFailure,
    Always,
}

/// Runtime status of a managed app.
#[derive(Clone, Copy, Debug, PartialEq, Eq, Structural, Hash)]
pub enum AppState {
    Stopped,
    Running,
    Restarting,
    Crashed,
}

/// A value that is not one of the accepted spellings.
#[derive(Debug, Clone, PartialEq, Eq)]
pub enum ConfigError {
    UnknownRuntime(String),
    UnknownRestartPolicy(String),
}

/// The canonical lower-case name of a runtime.
pub open spec fn runtime_name(k: RuntimeKind) -> Seq<char> {
    match k {
        RuntimeKind::Python => "python"@,
        RuntimeKind::Node => "node"@,
        RuntimeKind::DotNet => "dotnet"@,
        RuntimeKind::Java => "java"@,
        RuntimeKind::Rust => "rust"@,
        RuntimeKind::Custom => "custom"@,
    }
}

/// Which runtime a (case-insensitive) spelling names, if any.
pub open spec fn parse_runtime(s: Seq<char>) -> Option<RuntimeKind> {
    let l = lower(s);
    if l == "python"@ || l == "py"@ {
        Some(RuntimeKind::Python)
    } else if l == "node"@ || l == "nodejs"@ || l == "js"@ {
        Some(RuntimeKind::Node)
    } else if l == "dotnet"@ || l == ".net"@ || l == "csharp"@ {
        Some(RuntimeKind::DotNet)
    } else if l == "java"@ {
        Some(RuntimeKind::Java)
    } else if l == "rust"@ || l == "rs"@ {
        Some(RuntimeKind::Rust)
    } else if l == "custom"@ {
        Some(RuntimeKind::Custom)
    } else {
        None
    }
}

/// The kebab-case name of a restart policy, as written in config files.
pub open spec fn policy_name(p: RestartPolicy) -> Seq<char> {
    match p {
        RestartPolicy::Never => "never"@,
        RestartPolicy::OnFailure => "on-failure"@,
        RestartPolicy::Always => "always"@,
    }
}

/// Which restart policy a (case-insensitive) spelling names, if any.
pub open spec fn parse_policy(s: Seq<char>) -> Option<RestartPolicy> {
    let l = lower(s);
    if l == "never"@ {
        Some(RestartPolicy::Never)
    } else if l == "on-failure"@ || l == "onfailure"@ || l == "on_failure"@ {
        Some(RestartPolicy::OnFailure)
    } else if l == "always"@ {
        Some(RestartPolicy::Always)
    } else {
        None
    }
}

/// The lower-case name of an app state.
pub open spec fn state_name(s: AppState) -> Seq<char> {
    match s {
        AppState::Stopped => "stopped"@,
        AppState::Running => "running"@,
        AppState::Restarting => "restarting"@,
        AppState::Crashed => "crashed"@,
    }
}

impl RuntimeKind {
    pub fn as_str(self) -> (r: &'static str)
        ensures
            r@ == runtime_name(self),
    {
        match self {
            RuntimeKind::Python => "python",
            RuntimeKind::Node => "node",
            RuntimeKind::DotNet => "dotnet",
            RuntimeKind::Java => "java",
            RuntimeKind::Rust => "rust",
            RuntimeKind::Custom => "custom",
        }
    }

    /// The display form of the runtime (its canonical name).
    pub fn to_string(self) -> (r: String)
        ensures
            r@ == runtime_name(self),
    {
        self.as_str().to_string()
    }

    /// Parses a runtime name, ignoring ASCII case and accepting the usual
    /// aliases (`py`, `nodejs`, `js`, `.net`, `csharp`, `rs`).
    pub fn from_str(s: &str) -> (r: Result<RuntimeKind, ConfigError>)
        ensures
            match r {
                Ok(k) => parse_runtime(s@) == Some(k),
                Err(e) => parse_runtime(s@) is None && (e matches ConfigError::UnknownRuntime(v)
                    && v@ == lower(s@)),
            },
    {
        let l = to_ascii_lowercase(s);
        let t = l.as_str();
        if str_eq(t, "python") || str_eq(t, "py") {
            Ok(RuntimeKind::Python)
        } else if str_eq(t, "node") || str_eq(t, "nodejs") || str_eq(t, "js") {
            Ok(RuntimeKind::Node)
        } else if str_eq(t, "dotnet") || str_eq(t, ".net") || str_eq(t, "csharp") {
            Ok(RuntimeKind::DotNet)
        } else if str_eq(t, "java") {
            Ok(RuntimeKind::Java)
        } else if str_eq(t, "rust") || str_eq(t, "rs") {
            Ok(RuntimeKind::Rust)
        } else if str_eq(t, "custom") {
            Ok(RuntimeKind::Custom)
        } else {
            Err(ConfigError::UnknownRuntime(l))
        }
    }
}

impl RestartPolicy {
    pub fn as_str(self) -> (r: &'static str)
        ensures
            r@ == policy_name(self),
    {
        match self {
            RestartPolicy::Never => "never",
            RestartPolicy::OnFailure => "on-failure",
            RestartPolicy::Always => "always",
        }
    }

    /// Parses a restart policy, ignoring ASCII case; `on-failure` may also be
    /// written `onfailure` or `on_failure`.
    pub fn from_str(s: &str) -> (r: Result<RestartPolicy, ConfigError>)
        ensures
            match r {
                Ok(p) => parse_policy(s@) == Some(p),
                Err(e) => parse_policy(s@) is None && (e matches ConfigError::UnknownRestartPolicy(v)
                    && v@ == lower(s@)),
            },
    {
        let l = to_ascii_lowercase(s);
        let t = l.as_str();
        if str_eq(t, "never") {
            Ok(RestartPolicy::Never)
        } else if str_eq(t, "on-failure") || str_eq(t, "onfailure") || str_eq(t, "on_failure") {
            Ok(RestartPolicy::OnFailure)
        } else if str_eq(t, "always") {
            Ok(RestartPolicy::Always)
        } else {
            Err(ConfigError::UnknownRestartPolicy(l))
        }
    }
}

impl Default for RestartPolicy {
    fn default() -> (r: Self)
        ensures
            r == RestartPolicy::OnFailure,
    {
        RestartPolicy::OnFailure
    }
}

impl AppState {
    pub fn as_str(self) -> (r: &'static str)
        ensures
            r@ == state_name(self),
    {
        match self {
            AppState::Stopped => "stopped",
            AppState::Running => "running",
            AppState::Restarting => "restarting",
            AppState::Crashed => "crashed",
        }
    }

    /// The display form of the state.
    pub fn to_string(self) -> (r: String)
        ensures
            r@ == state_name(self),
    {
        self.as_str().to_string()
    }
}

impl ConfigError {
    /// The human-readable error text.
    pub fn message(&self) -> (r: String)
        ensures
            r@ == match self {
                ConfigError::UnknownRuntime(v) => "unknown runtime '"@ + v@ + "'"@,
                ConfigError::UnknownRestartPolicy(v) => "unknown restart policy '"@ + v@ + "'"@,
            },
    {
        match self {
            ConfigError::UnknownRuntime(v) => {
                let mut m = concat2("unknown runtime '", v.as_str());
                m.append("'");
                m
            },
            ConfigError::UnknownRestartPolicy(v) => {
                let mut m = concat2("unknown restart policy '", v.as_str());
                m.append("'");
                m
            },
        }
    }
}

/// Every runtime's canonical name parses back to that runtime.
pub proof fn law_runtime_name_roundtrip(k: RuntimeKind)
    ensures
        parse_runtime(runtime_name(k)) == Some(k),
{
    reveal_strlit("python");
    reveal_strlit("py");
    reveal_strlit("node");
    reveal_strlit("nodejs");
    reveal_strlit("js");
    reveal_strlit("dotnet");
    reveal_strlit(".net");
    reveal_strlit("csharp");
    reveal_strlit("java");
    reveal_strlit("rust");
    reveal_strlit("rs");
    reveal_strlit("custom");
    let n = runtime_name(k);
    assert(lower(n) =~= n);
    match k {
        RuntimeKind::Python => {},
        RuntimeKind::Node => {
            assert(n != "python"@ && n != "py"@ && n[0] != "js"@[0]);
        },
        RuntimeKind::DotNet => {
            assert(n[0] != "python"@[0] && n[0] != "nodejs"@[0]);
            assert(n != "python"@ && n != "py"@ && n != "node"@ && n != "nodejs"@ && n != "js"@);
        },
        RuntimeKind::Java => {
            assert(n[0] != "node"@[0]);
            assert(n != "python"@ && n != "py"@ && n != "node"@ && n != "nodejs"@ && n != "js"@);
            assert(n != "dotnet"@ && n != ".net"@ && n != "csharp"@);
        },
        RuntimeKind::Rust => {
            assert(n[0] != "node"@[0] && n[0] != "java"@[0]);
            assert(n != "python"@ && n != "py"@ && n != "node"@ && n != "nodejs"@ && n != "js"@);
            assert(n != "dotnet"@ && n != ".net"@ && n != "csharp"@ && n != "java"@);
        },
        RuntimeKind::Custom => {
            assert(n[0] != "python"@[0] && n[0] != "nodejs"@[0] && n[0] != "dotnet"@[0]);
            assert(n[1] != "csharp"@[1]);
            assert(n != "python"@ && n != "py"@ && n != "node"@ && n != "nodejs"@ && n != "js"@);
            assert(n != "dotnet"@ && n != ".net"@ && n != "csharp"@ && n != "java"@);
            assert(n != "rust"@ && n != "rs"@);
        },
    }
}

/// Every policy's config-file name parses back to that policy.
pub proof fn law_policy_name_roundtrip(p: RestartPolicy)
    ensures
        parse_policy(policy_name(p)) == Some(p),
{
    reveal_strlit("never");
    reveal_strlit("on-failure");
    reveal_strlit("onfailure");
    reveal_strlit("on_failure");
    reveal_strlit("always");
    let n = policy_name(p);
    assert(lower(n) =~= n);
    match p {
        RestartPolicy::Never => {},
        RestartPolicy::OnFailure => {
            assert(n != "never"@);
        },
        RestartPolicy::Always => {
            assert(n != "never"@ && n != "on-failure"@ && n != "onfailure"@ && n != "on_failure"@);
        },
    }
}

/// Parsing ignores ASCII case: a spelling and its lower-case form name the
/// same runtime (or both none).
pub proof fn law_parse_runtime_case_insensitive(s: Seq<char>)
    ensures
        parse_runtime(s) == parse_runtime(lower(s)),
{
    assert(lower(lower(s)) =~= lower(s));
}


/// A copy of an optional string.
pub fn clone_opt_string(o: &Option<String>) -> (r: Option<String>)
    ensures
        r == *o,
{
    match o {
        Some(s) => Some(s.clone()),
        None => None,
    }
}

/// A copy of a vector of strings.
pub fn clone_strings(v: &Vec<String>) -> (r: Vec<String>)
    ensures
        r@ == v@,
{
    let mut out: Vec<String> = Vec::new();
    let mut i: usize = 0;
    while i < v.len()
        invariant
            i <= v@.len(),
            out@ == v@.subrange(0, i as int),
        decreases v@.len() - i,
    {
        out.push(v[i].clone());
        i = i + 1;
        assert(out@ =~= v@.subrange(0, i as int));
    }
    assert(out@ =~= v@);
    out
}

/// A copy of a vector of string pairs.
pub fn clone_pairs(v: &Vec<(String, String)>) -> (r: Vec<(String, String)>)
    ensures
        r@ == v@,
{
    let mut out: Vec<(String, String)> = Vec::new();
    let mut i: usize = 0;
    while i < v.len()
        invariant
            i <= v@.len(),
            out@ == v@.subrange(0, i as int),
        decreases v@.len() - i,
    {
        let (a, b) = &v[i];
        out.push((a.clone(), b.clone()));
        i = i + 1;
        assert(out@ =~= v@.subrange(0, i as int));
    }
    assert(out@ =~= v@);
    out
}

pub fn default_backoff_seconds() -> (r: u64)
    ensures
        r == 1,
{
    1
}

pub fn default_max_backoff_seconds() -> (r: u64)
    ensures
        r == 30,
{
    30
}

/// Declarative, version-controllable configuration for a single managed
/// app, persisted as `<apps_dir>/<name>.toml`.
#[derive(Debug)]
pub struct AppConfig {
    pub name: String,
    /// The project directory.
    pub path: String,
    pub runtime: RuntimeKind,
    /// Launch command: the executable, then its arguments.
    pub command: Vec<String>,
    pub working_dir: Option<String>,
    pub port: Option<u16>,
    pub domain: Option<String>,
    /// URL path prefix routed to this app, e.g. `/api`; stripped before the
    /// request is forwarded. Independent of `domain`.
    pub path_prefix: Option<String>,
    /// Extra environment variables, strictly ordered by name (so each name
    /// occurs once), as the config file's table holds them.
    pub env: Vec<(String, String)>,
    pub restart_policy: RestartPolicy,
    pub restart_backoff_seconds: u64,
    pub restart_max_backoff_seconds: u64,
}

/// The mathematical content of an `AppConfig`.
pub struct AppConfigView {
    pub name: Seq<char>,
    pub path: Seq<char>,
    pub runtime: RuntimeKind,
    pub command: Seq<Seq<char>>,
    pub working_dir: Option<Seq<char>>,
    pub port: Option<u16>,
    pub domain: Option<Seq<char>>,
    pub path_prefix: Option<Seq<char>>,
    pub env: Seq<(Seq<char>, Seq<char>)>,
    pub restart_policy: RestartPolicy,
    pub restart_backoff_seconds: u64,
    pub restart_max_backoff_seconds: u64,
}

/// The view of an optional string.
pub open spec fn opt_view(o: Option<String>) -> Option<Seq<char>> {
    match o {
        Some(s) => Some(s@),
        None => None,
    }
}

/// The views of a sequence of string pairs.
pub open spec fn pair_views(v: Seq<(String, String)>) -> Seq<(Seq<char>, Seq<char>)> {
    v.map_values(|p: (String, String)| (p.0@, p.1@))
}

/// Environment variables strictly ordered by name: no name occurs twice.
pub open spec fn env_sorted(env: Seq<(Seq<char>, Seq<char>)>) -> bool {
    forall|i: int, j: int| 0 <= i < j < env.len() ==> lex_lt(#[trigger] env[i].0, #[trigger] env[j].0)
}

/// Whether environment variables are strictly ordered by name.
pub fn env_is_sorted(env: &Vec<(String, String)>) -> (r: bool)
    ensures
        r == env_sorted(pair_views(env@)),
{
    let ghost e = pair_views(env@);
    let n = env.len();
    if n == 0 {
        return true;
    }
    let mut k: usize = 1;
    while k < n
        invariant
            1 <= k <= n,
            n == env@.len(),
            e == pair_views(env@),
            forall|i: int, j: int| 0 <= i < j < k ==> lex_lt(#[trigger] e[i].0, #[trigger] e[j].0),
        decreases n - k,
    {
        if !str_lt(env[k - 1].0.as_str(), env[k].0.as_str()) {
            assert(!lex_lt(e[k - 1].0, e[k as int].0));
            return false;
        }
        proof {
            assert forall|i: int, j: int| 0 <= i < j < k + 1 implies lex_lt(#[trigger] e[i].0, #[trigger] e[j].0) by {
                if j == k && i < k - 1 {
                    lemma_lex_transitive(e[i].0, e[k - 1].0, e[k as int].0);
                }
            }
        }
        k = k + 1;
    }
    true
}

impl View for AppConfig {
    type V = AppConfigView;

    open spec fn view(&self) -> AppConfigView {
        AppConfigView {
            name: self.name@,
            path: self.path@,
            runtime: self.runtime,
            command: views(self.command@),
            working_dir: opt_view(self.working_dir),
            port: self.port,
            domain: opt_view(self.domain),
            path_prefix: opt_view(self.path_prefix),
            env: pair_views(self.env@),
            restart_policy: self.restart_policy,
            restart_backoff_seconds: self.restart_backoff_seconds,
            restart_max_backoff_seconds: self.restart_max_backoff_seconds,
        }
    }
}

impl Clone for AppConfig {
    fn clone(&self) -> (r: Self)
        ensures
            r@ == self@,
    {
        AppConfig {
            name: self.name.clone(),
            path: self.path.clone(),
            runtime: self.runtime,
            command: clone_strings(&self.command),
            working_dir: clone_opt_string(&self.working_dir),
            port: self.port,
            domain: clone_opt_string(&self.domain),
            path_prefix: clone_opt_string(&self.path_prefix),
            env: clone_pairs(&self.env),
            restart_policy: self.restart_policy,
            restart_backoff_seconds: self.restart_backoff_seconds,
            restart_max_backoff_seconds: self.restart_max_backoff_seconds,
        }
    }
}

impl AppConfig {
    /// The directory an app runs in: `working_dir` when set, else `path`.
    pub fn effective_working_dir(&self) -> (r: String)
        ensures
            r@ == match self@.working_dir {
                Some(w) => w,
                None => self@.path,
            },
    {
        match &self.working_dir {
            Some(w) => w.clone(),
            None => self.path.clone(),
        }
    }
}

/// Point-in-time status summary for one app.
#[derive(Debug)]
pub struct AppStatus {
    pub name: String,
    pub state: AppState,
    pub pid: Option<u32>,
    pub restart_count: u32,
    pub uptime_seconds: Option<u64>,
    /// Resident memory in bytes, when a sample is available.
    pub memory_bytes: Option<u64>,
    pub runtime: RuntimeKind,
    pub port: Option<u16>,
    pub domain: Option<String>,
    pub path_prefix: Option<String>,
    pub last_exit_code: Option<i32>,
}

/// The mathematical content of an `AppStatus`.
pub struct AppStatusView {
    pub name: Seq<char>,
    pub state: AppState,
    pub pid: Option<u32>,
    pub restart_count: u32,
    pub uptime_seconds: Option<u64>,
    pub memory_bytes: Option<u64>,
    pub runtime: RuntimeKind,
    pub port: Option<u16>,
    pub domain: Option<Seq<char>>,
    pub path_prefix: Option<Seq<char>>,
    pub last_exit_code: Option<i32>,
}

impl View for AppStatus {
    type V = AppStatusView;

    open spec fn view(&self) -> AppStatusView {
        AppStatusView {
            name: self.name@,
            state: self.state,
            pid: self.pid,
            restart_count: self.restart_count,
            uptime_seconds: self.uptime_seconds,
            memory_bytes: self.memory_bytes,
            runtime: self.runtime,
            port: self.port,
            domain: opt_view(self.domain),
            path_prefix: opt_view(self.path_prefix),
            last_exit_code: self.last_exit_code,
        }
    }
}

} // verus!
