//! The management API's request and response types, and the decisions its
//! handlers take: authentication, turning an add request into an app
//! config, and which status a failure is answered with.
use vstd::prelude::*;

use crate::app::{AppConfig, AppConfigView, RestartPolicy, RuntimeKind, clone_opt_string, clone_strings, opt_view};
use crate::detect::{default_command, default_command_for, detect_runtime, detected, ProjectDir};
use crate::text::{chars_of, concat2, is_prefix, push_chars, starts_with, str_eq, views};

verus! {

/// Body of `POST /apps`.
#[derive(Debug)]
pub struct AddAppRequest {
    pub path: String,
    pub name: Option<String>,
    pub runtime: Option<RuntimeKind>,
    pub command: Option<Vec<String>>,
    pub port: Option<u16>,
    pub domain: Option<String>,
    pub path_prefix: Option<String>,
    pub env: Vec<(String, String)>,
    pub restart_policy: Option<RestartPolicy>,
}

#[derive(Debug)]
pub struct LogsResponse {
    pub name: String,
    pub stdout: Vec<String>,
    pub stderr: Vec<String>,
}

#[derive(Debug)]
pub struct ErrorResponse {
    pub error: String,
}

#[derive(Debug)]
pub struct ReloadResponse {
    pub apps_loaded: usize,
}

/// Why an API request was refused before reaching the supervisor.
#[derive(Debug, Clone, PartialEq, Eq)]
pub enum ApiError {
    /// The runtime was neither given nor detectable.
    RuntimeUndetected,
    /// A config update names another app than the URL.
    NameMismatch,
}

impl ApiError {
    /// The human-readable error text.
    pub fn message(&self) -> (r: &'static str)
        ensures
            r@ == match self {
                ApiError::RuntimeUndetected => "could not auto-detect runtime; pass --runtime explicitly"@,
                ApiError::NameMismatch => "config 'name' must match the URL and cannot be changed here"@,
            },
    {
        match self {
            ApiError::RuntimeUndetected => "could not auto-detect runtime; pass --runtime explicitly",
            ApiError::NameMismatch => "config 'name' must match the URL and cannot be changed here",
        }
    }
}

/// The request carries `Authorization: Bearer <token>` with this token.
pub open spec fn authorized(header: Option<Seq<char>>, token: Seq<char>) -> bool {
    header matches Some(h) && is_prefix("Bearer "@, h) && h.subrange(7, h.len() as int) == token
}

/// Whether an `Authorization` header value grants access.
pub fn bearer_matches(header: Option<&str>, token: &str) -> (r: bool)
    ensures
        r == authorized(
            match header {
                Some(h) => Some(h@),
                None => None,
            },
            token@,
        ),
{
    proof {
        reveal_strlit("Bearer ");
    }
    match header {
        Some(h) => {
            if !starts_with(h, "Bearer ") {
                return false;
            }
            let v = chars_of(h);
            let mut rest = String::new();
            push_chars(&mut rest, v.as_slice(), 7, v.len());
            str_eq(rest.as_str(), token)
        },
        None => false,
    }
}

/// `p` with trailing separators and trailing `/.` components removed.
pub open spec fn trimmed_path(p: Seq<char>) -> Seq<char>
    decreases p.len(),
{
    if p.len() > 0 && p.last() == '/' {
        trimmed_path(p.drop_last())
    } else if p.len() >= 2 && p.last() == '.' && p[p.len() - 2] == '/' {
        trimmed_path(p.subrange(0, p.len() - 2))
    } else {
        p
    }
}

/// Index just after the last `/` of `s`, or 0.
pub open spec fn after_last_slash(s: Seq<char>) -> int
    decreases s.len(),
{
    if s.len() == 0 {
        0
    } else if s.last() == '/' {
        s.len() as int
    } else {
        after_last_slash(s.drop_last())
    }
}

/// The final component of a path, unless it is empty, `.` or `..`.
pub open spec fn file_name(p: Seq<char>) -> Option<Seq<char>> {
    let q = trimmed_path(p);
    let c = q.subrange(after_last_slash(q), q.len() as int);
    if c.len() == 0 || c == "."@ || c == ".."@ {
        None
    } else {
        Some(c)
    }
}

proof fn lemma_after_last_slash(s: Seq<char>)
    ensures
        0 <= after_last_slash(s) <= s.len(),
    decreases s.len(),
{
    if s.len() > 0 && s.last() != '/' {
        lemma_after_last_slash(s.drop_last());
    }
}

proof fn lemma_after_last_slash_at(s: Seq<char>, k: int)
    requires
        0 <= k <= s.len(),
        k > 0 ==> s[k - 1] == '/',
        forall|i: int| k <= i < s.len() ==> s[i] != '/',
    ensures
        after_last_slash(s) == k,
    decreases s.len(),
{
    if s.len() > k {
        lemma_after_last_slash_at(s.drop_last(), k);
    }
}

/// The final component of a path.
pub fn path_file_name(p: &str) -> (r: Option<String>)
    ensures
        match r {
            Some(n) => file_name(p@) == Some(n@),
            None => file_name(p@) is None,
        },
{
    let v = chars_of(p);
    let mut e: usize = v.len();
    proof {
        assert(v@.subrange(0, e as int) =~= v@);
    }
    while e > 0 && (v[e - 1] == '/' || (e >= 2 && v[e - 1] == '.' && v[e - 2] == '/'))
        invariant
            e <= v@.len(),
            v@ == p@,
            trimmed_path(p@) == trimmed_path(v@.subrange(0, e as int)),
        decreases e,
    {
        let ghost t = v@.subrange(0, e as int);
        if v[e - 1] == '/' {
            assert(t.drop_last() =~= v@.subrange(0, e - 1));
            e = e - 1;
        } else {
            assert(t.subrange(0, t.len() - 2) =~= v@.subrange(0, e - 2));
            e = e - 2;
        }
    }
    let ghost q = v@.subrange(0, e as int);
    assert(trimmed_path(q) == q);
    let mut s: usize = e;
    while s > 0 && v[s - 1] != '/'
        invariant
            s <= e <= v@.len(),
            forall|i: int| s <= i < e ==> v@[i] != '/',
        decreases s,
    {
        s = s - 1;
    }
    proof {
        lemma_after_last_slash_at(q, s as int);
    }
    let mut c = String::new();
    push_chars(&mut c, v.as_slice(), s, e);
    assert(c@ =~= q.subrange(s as int, q.len() as int));
    if s == e || str_eq(c.as_str(), ".") || str_eq(c.as_str(), "..") {
        None
    } else {
        Some(c)
    }
}

/// The config an add request describes, given the request path's
/// directory listing.
pub open spec fn requested_config(req: AddAppRequest, dir: ProjectDir, runtime: RuntimeKind) -> AppConfigView {
    AppConfigView {
        name: match req.name {
            Some(n) => n@,
            None => match file_name(req.path@) {
                Some(f) => f,
                None => "app"@,
            },
        },
        path: req.path@,
        runtime,
        command: match req.command {
            Some(c) => views(c@),
            None => default_command_for(runtime, dir),
        },
        working_dir: None,
        port: req.port,
        domain: opt_view(req.domain),
        path_prefix: opt_view(req.path_prefix),
        env: crate::app::pair_views(req.env@),
        restart_policy: match req.restart_policy {
            Some(p) => p,
            None => RestartPolicy::OnFailure,
        },
        restart_backoff_seconds: 1,
        restart_max_backoff_seconds: 30,
    }
}

/// Turns an add request into an app config: the runtime is the requested
/// one or the detected one (refused when neither exists), the name defaults
/// to the directory's name (or `app`), the command to the runtime's default,
/// the policy to `on-failure`, and backoff to one to thirty seconds.
pub fn config_from_request(req: AddAppRequest, dir: &ProjectDir) -> (r: Result<AppConfig, ApiError>)
    ensures
        match r {
            Ok(c) => {
                let rt = match req.runtime {
                    Some(k) => k,
                    None => detected(*dir)->0,
                };
                &&& (req.runtime is Some || detected(*dir) is Some)
                &&& c@ == requested_config(req, *dir, rt)
            },
            Err(e) => req.runtime is None && detected(*dir) is None && e == ApiError::RuntimeUndetected,
        },
{
    let runtime = match req.runtime {
        Some(k) => k,
        None => match detect_runtime(dir) {
            Some(k) => k,
            None => return Err(ApiError::RuntimeUndetected),
        },
    };
    let name = match &req.name {
        Some(n) => n.clone(),
        None => match path_file_name(req.path.as_str()) {
            Some(f) => f,
            None => "app".to_string(),
        },
    };
    let command = match &req.command {
        Some(c) => clone_strings(c),
        None => default_command(runtime, dir),
    };
    let ghost req_view = req;
    let c = AppConfig {
        name,
        path: req.path,
        runtime,
        command,
        working_dir: None,
        port: req.port,
        domain: req.domain,
        path_prefix: req.path_prefix,
        env: req.env,
        restart_policy: match req.restart_policy {
            Some(p) => p,
            None => RestartPolicy::OnFailure,
        },
        restart_backoff_seconds: 1,
        restart_max_backoff_seconds: 30,
    };
    assert(c@ == requested_config(req_view, *dir, runtime));
    Ok(c)
}

/// The name of a path's last component: for a directory path ending in a
/// plain component `n` (not empty, no `/`, not `.` or `..`), the name is
/// `n`, with or without a trailing separator.
pub proof fn law_file_name_is_last_component(dir: Seq<char>, n: Seq<char>)
    requires
        n.len() > 0,
        forall|i: int| 0 <= i < n.len() ==> n[i] != '/',
        n != "."@,
        n != ".."@,
    ensures
        file_name(dir + "/"@ + n) == Some(n),
        file_name(dir + "/"@ + n + "/"@) == Some(n),
{
    reveal_strlit("/");
    reveal_strlit(".");
    reveal_strlit("..");
    let p = dir + "/"@ + n;
    let k: int = dir.len() as int + 1;
    assert(p[k - 1] == '/');
    assert forall|i: int| k <= i < p.len() implies p[i] != '/' by {
        assert(p[i] == n[i - k]);
    }
    if n.len() >= 2 {
        assert(p[p.len() - 2] == n[n.len() - 2]);
    } else {
        assert(n =~= seq![n[0]]);
        if n[0] == '.' {
            assert(n =~= "."@);
        }
    }
    assert(p.last() == n.last());
    assert(trimmed_path(p) == p);
    lemma_after_last_slash_at(p, k);
    assert(p.subrange(k, p.len() as int) =~= n);
    let q = p + "/"@;
    assert(q.drop_last() =~= p);
    assert(trimmed_path(q) == trimmed_path(p));
}

/// An add request becomes this config: the name it gives, else the project
/// directory's name, else `app`; its path; the runtime decided for it; the
/// command it gives, else the runtime's default command; no working
/// directory of its own; its port, domain, path prefix and environment as
/// given; the restart policy it gives, else `on-failure`; and a backoff of
/// one second growing to at most thirty.
pub proof fn law_add_request_config(req: AddAppRequest, dir: ProjectDir, runtime: RuntimeKind)
    ensures
        ({
            let c = requested_config(req, dir, runtime);
            &&& req.name matches Some(n) ==> c.name == n@
            &&& req.name is None ==> (file_name(req.path@) matches Some(f) ==> c.name == f)
            &&& req.name is None && file_name(req.path@) is None ==> c.name == "app"@
            &&& c.path == req.path@
            &&& c.runtime == runtime
            &&& req.command matches Some(cmd) ==> c.command == views(cmd@)
            &&& req.command is None ==> c.command == default_command_for(runtime, dir)
            &&& c.working_dir is None
            &&& c.port == req.port
            &&& c.domain == opt_view(req.domain)
            &&& c.path_prefix == opt_view(req.path_prefix)
            &&& c.env == crate::app::pair_views(req.env@)
            &&& req.restart_policy matches Some(p) ==> c.restart_policy == p
            &&& req.restart_policy is None ==> c.restart_policy == RestartPolicy::OnFailure
            &&& c.restart_backoff_seconds == 1
            &&& c.restart_max_backoff_seconds == 30
        }),
{
}

/// A config update must keep the name the URL addresses.
pub fn check_update_name(url_name: &str, config: &AppConfig) -> (r: Result<(), ApiError>)
    ensures
        r is Ok <==> config.name@ == url_name@,
        r matches Err(e) ==> e == ApiError::NameMismatch,
{
    if str_eq(config.name.as_str(), url_name) {
        Ok(())
    } else {
        Err(ApiError::NameMismatch)
    }
}

/// Number of log lines returned when the request does not say.
pub fn log_line_count(requested: Option<usize>) -> (r: usize)
    ensures
        r == match requested {
            Some(n) => n,
            None => 100,
        },
{
    match requested {
        Some(n) => n,
        None => 100,
    }
}

/// The management API's operations.
#[derive(Debug, Clone, Copy, PartialEq, Eq, Structural)]
pub enum Operation {
    Authenticate,
    GetApp,
    AddApp,
    RemoveApp,
    StartApp,
    StopApp,
    RestartApp,
    GetLogs,
    GetConfig,
    UpdateConfig,
    Reload,
}

/// The HTTP status a failed operation is answered with.
pub open spec fn failure_status_of(op: Operation, err: Option<ApiError>) -> u16 {
    match op {
        Operation::Authenticate => 401,
        Operation::AddApp => if err == Some(ApiError::RuntimeUndetected) {
            422
        } else {
            409
        },
        Operation::UpdateConfig => if err == Some(ApiError::NameMismatch) {
            400
        } else {
            422
        },
        Operation::Reload => 500,
        _ => 404,
    }
}

/// The HTTP status a failed operation is answered with (`err` is the
/// request-level refusal, if that is why it failed).
pub fn failure_status(op: Operation, err: Option<ApiError>) -> (r: u16)
    ensures
        r == failure_status_of(op, err),
{
    match op {
        Operation::Authenticate => 401,
        Operation::AddApp => match err {
            Some(ApiError::RuntimeUndetected) => 422,
            _ => 409,
        },
        Operation::UpdateConfig => match err {
            Some(ApiError::NameMismatch) => 400,
            _ => 422,
        },
        Operation::Reload => 500,
        _ => 404,
    }
}

/// A request passes authentication exactly with the daemon's token.
pub proof fn law_bearer_token(token: Seq<char>)
    ensures
        authorized(Some("Bearer "@ + token), token),
        !authorized(None, token),
        !authorized(Some(token), token) || is_prefix("Bearer "@, token),
{
    reveal_strlit("Bearer ");
    assert(("Bearer "@ + token).subrange(0, 7) =~= "Bearer "@);
    assert(("Bearer "@ + token).subrange(7, ("Bearer "@ + token).len() as int) =~= token);
}

/// Exactly the header `Bearer <token>` authorizes a request: any other
/// header value, or none, is refused.
pub proof fn law_bearer_exactly(header: Seq<char>, token: Seq<char>)
    ensures
        authorized(Some(header), token) <==> header == "Bearer "@ + token,
{
    reveal_strlit("Bearer ");
    let b = "Bearer "@ + token;
    assert(b.subrange(0, 7) =~= "Bearer "@);
    assert(b.subrange(7, b.len() as int) =~= token);
    if authorized(Some(header), token) {
        assert(header =~= header.subrange(0, 7) + header.subrange(7, header.len() as int));
    }
}

/// The status each failed request is answered with: 401 for a missing or
/// wrong token; 422 for an add request whose runtime cannot be detected and
/// 409 for one whose name is taken; 400 for a config update that renames
/// the app and 422 for one that cannot be applied; 500 for a failed
/// reload; and 404 for an operation on an app that does not exist.
pub proof fn law_failure_statuses()
    ensures
        failure_status_of(Operation::Authenticate, None) == 401,
        failure_status_of(Operation::AddApp, Some(ApiError::RuntimeUndetected)) == 422,
        failure_status_of(Operation::AddApp, None) == 409,
        failure_status_of(Operation::UpdateConfig, Some(ApiError::NameMismatch)) == 400,
        failure_status_of(Operation::UpdateConfig, None) == 422,
        failure_status_of(Operation::Reload, None) == 500,
        failure_status_of(Operation::GetApp, None) == 404,
        failure_status_of(Operation::RemoveApp, None) == 404,
        failure_status_of(Operation::StartApp, None) == 404,
        failure_status_of(Operation::StopApp, None) == 404,
        failure_status_of(Operation::RestartApp, None) == 404,
        failure_status_of(Operation::GetLogs, None) == 404,
        failure_status_of(Operation::GetConfig, None) == 404,
{
}

} // verus!
